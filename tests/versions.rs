use rtx_core::version_arith::version_sub;
use rtx_core::version_order::{chunk_value, compare_versions, version_chunks};
use rtx_core::version_select::{
    find_latest_matching, find_latest_not_exceeding, find_latest_stable, version_is_stable,
    version_matches_prefix,
};
use std::cmp::Ordering;

fn strings(v: &[&str]) -> Vec<String> {
    v.iter().map(|s| s.to_string()).collect()
}

#[test]
fn test_version_sub() {
    assert_eq!(version_sub("18.2.3", "2"), Some("16".to_string()));
    assert_eq!(version_sub("18.2.3", "0.1"), Some("18.1".to_string()));
}

#[test]
fn version_sub_rejects_underflow_and_garbage() {
    assert_eq!(version_sub("1.2.3", "2"), None);
    assert_eq!(version_sub("1.2.3", "0.5"), None);
    assert_eq!(version_sub("not a version!", "1"), None);
    assert_eq!(version_sub("12.0.0", "1"), Some("11".to_string()));
}

#[test]
fn numeric_chunks_compare_by_value() {
    assert_eq!(compare_versions("9.9", "10.0"), Ordering::Less);
    assert_eq!(compare_versions("10.0", "9.9"), Ordering::Greater);
    assert_eq!(compare_versions("1.2.10", "1.2.9"), Ordering::Greater);
    assert_eq!(compare_versions("1.0", "1.0"), Ordering::Equal);
    assert_eq!(compare_versions("1.0", "1.0.1"), Ordering::Less);
    assert_eq!(compare_versions("1.0-rc1", "1.0-1"), Ordering::Greater);
}

#[test]
fn chunks_and_values() {
    assert_eq!(version_chunks("1.2-rc.3"), strings(&["1", "2", "rc", "3"]));
    assert_eq!(version_chunks(""), strings(&[""]));
    assert_eq!(chunk_value("042"), Some(42));
    assert_eq!(chunk_value("4a"), None);
    assert_eq!(chunk_value(""), None);
    assert_eq!(chunk_value("99999999999999999999"), None);
}

#[test]
fn prefix_matching_is_chunk_wise() {
    assert!(version_matches_prefix("1.2.5", "1.2"));
    assert!(version_matches_prefix("1.2", "1.2"));
    assert!(!version_matches_prefix("1.20.0", "1.2"));
    assert!(!version_matches_prefix("1", "1.2"));
    assert!(version_is_stable("3.1.0"));
    assert!(!version_is_stable("3.1.0-beta"));
}

#[test]
fn latest_picks() {
    let vs = strings(&["1.2.0", "1.2.5", "1.3.0", "1.10.0-rc1"]);
    assert_eq!(find_latest_matching(&vs, "1.2"), Some("1.2.5".to_string()));
    assert_eq!(find_latest_matching(&vs, "2"), None);
    assert_eq!(find_latest_stable(&vs), Some("1.3.0".to_string()));
    let node = strings(&["14.0.0", "16.0.0", "16.5.1", "17.0.0"]);
    assert_eq!(find_latest_not_exceeding(&node, "16"), Some("16.5.1".to_string()));
    assert_eq!(find_latest_not_exceeding(&node, "13"), None);
}
