use rtx_core::codec::{decode_strings, encode_strings, flatten_pairs, pair_up};
use rtx_core::env_diff::{diff_env, parse_env_dump};
use rtx_core::external_plugin::EnvDiffOperation;
use rtx_core::settings::{decimal_string, Settings};

fn pairs(v: &[(&str, &str)]) -> Vec<(String, String)> {
    v.iter().map(|(k, x)| (k.to_string(), x.to_string())).collect()
}

#[test]
fn codec_round_trip() {
    let items = vec!["1.0.0".to_string(), "".to_string(), "a:b 12:c\n".to_string(), "é".to_string()];
    let text = encode_strings(&items);
    assert_eq!(text, "5:1.0.00:9:a:b 12:c\n1:é");
    assert_eq!(decode_strings(&text), Some(items));
    assert_eq!(decode_strings(""), Some(vec![]));
    assert_eq!(decode_strings("3:ab"), None);
    assert_eq!(decode_strings("x:ab"), None);
    assert_eq!(decode_strings("2ab"), None);
}

#[test]
fn decimal_rendering() {
    assert_eq!(decimal_string(0), "0");
    assert_eq!(decimal_string(10080), "10080");
    assert_eq!(decimal_string(u64::MAX), "18446744073709551615");
}

#[test]
fn settings_as_index_map() {
    let mut s = Settings::default();
    s.trusted_config_paths = vec!["/a".to_string()];
    let m = s.to_index_map();
    let keys: Vec<&str> = m.keys().map(|k| k.as_str()).collect();
    assert_eq!(keys[0], "experimental");
    assert_eq!(keys.len(), 13);
    assert_eq!(m["plugin_autoupdate_last_check_duration"], "10080");
    assert_eq!(m["missing_runtime_behavior"], "warn");
    assert_eq!(m["jobs"], "4");
    assert_eq!(m["trusted_config_paths"], "[\"/a\"]");
    assert_eq!(m["log_level"], "INFO");
    assert_eq!(m["legacy_version_file"], "true");
    s.shorthands_file = Some("/s.toml".to_string());
    let m = s.to_index_map();
    assert_eq!(m.len(), 14);
    assert_eq!(m["shorthands_file"], "/s.toml");
}

#[test]
fn environment_diff() {
    let before = parse_env_dump("A=1\0B=2\0C=x=y\0");
    assert_eq!(before, pairs(&[("A", "1"), ("B", "2"), ("C", "x=y")]));
    let after = parse_env_dump("A=1\0B=3\0D=4\0junk\0");
    assert_eq!(
        diff_env(&before, &after),
        vec![
            EnvDiffOperation::Change("B".to_string(), "3".to_string()),
            EnvDiffOperation::Add("D".to_string(), "4".to_string()),
            EnvDiffOperation::Remove("C".to_string()),
        ]
    );
}

#[test]
fn pairs_round_trip() {
    let p = pairs(&[("A", "1"), ("PATH", "/x y")]);
    let flat = flatten_pairs(&p);
    assert_eq!(flat, vec!["A", "1", "PATH", "/x y"]);
    assert_eq!(pair_up(&flat), Some(p));
    assert_eq!(pair_up(&vec!["A".to_string()]), None);
    assert_eq!(pair_up(&vec![]), Some(vec![]));
}
