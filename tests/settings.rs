use rtx_core::settings::MissingRuntimeBehavior::{AutoInstall, Ignore, Prompt, Warn};
use rtx_core::settings::{LogLevel, Settings, SettingsBuilder};

#[test]
fn test_settings_merge() {
    let mut s1 = SettingsBuilder::default();
    let s2 = SettingsBuilder {
        missing_runtime_behavior: Some(AutoInstall),
        ..SettingsBuilder::default()
    };
    s1.merge(s2);

    assert_eq!(s1.missing_runtime_behavior, Some(AutoInstall));
}

#[test]
fn test_missing_runtime_behavior_display() {
    assert_eq!(AutoInstall.to_string(), "autoinstall");
    assert_eq!(Prompt.to_string(), "prompt");
    assert_eq!(Warn.to_string(), "warn");
    assert_eq!(Ignore.to_string(), "ignore");
}

#[test]
fn merge_keeps_unset_settings_and_appends_paths() {
    let mut s1 = SettingsBuilder {
        jobs: Some(8),
        verbose: Some(true),
        trusted_config_paths: vec!["/a".to_string()],
        ..SettingsBuilder::default()
    };
    let s2 = SettingsBuilder {
        jobs: Some(2),
        trusted_config_paths: vec!["/b".to_string()],
        ..SettingsBuilder::default()
    };
    s1.merge(s2);
    assert_eq!(s1.jobs, Some(2));
    assert_eq!(s1.verbose, Some(true));
    assert_eq!(s1.trusted_config_paths, vec!["/a".to_string(), "/b".to_string()]);
}

#[test]
fn build_uses_defaults_and_raw_forces_one_job() {
    let b = SettingsBuilder {
        raw: Some(true),
        jobs: Some(8),
        log_level: Some(LogLevel::Debug),
        ..SettingsBuilder::default()
    };
    let s = b.build(Settings::default(), &None);
    assert_eq!(s.jobs, 1);
    assert!(s.verbose);
    assert!(s.raw);
    assert_eq!(s.log_level, LogLevel::Debug);
    assert_eq!(s.plugin_autoupdate_last_check_duration, 604800);
    assert!(s.legacy_version_file);
    assert_eq!(s.missing_runtime_behavior, Warn);
}

#[test]
fn build_prefers_environment_behavior() {
    let b = SettingsBuilder {
        missing_runtime_behavior: Some(Prompt),
        ..SettingsBuilder::default()
    };
    let s = b.build(Settings::default(), &Some("ignore".to_string()));
    assert_eq!(s.missing_runtime_behavior, Ignore);
    let s = b.build(Settings::default(), &Some("bogus".to_string()));
    assert_eq!(s.missing_runtime_behavior, Prompt);
    let s = b.build(Settings::default(), &None);
    assert_eq!(s.missing_runtime_behavior, Prompt);
    assert_eq!(s.jobs, 4);
}
