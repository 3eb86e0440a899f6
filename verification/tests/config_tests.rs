use oil_cop::config::{
    city_setting, load, rig_or_default, stale_after_setting, thresholds_setting, FileConfig,
};

fn cfg(city: Option<&str>, stale: Option<&str>, rig: Option<&str>) -> FileConfig {
    FileConfig {
        city: city.map(String::from),
        stale_after: stale.map(String::from),
        default_rig: rig.map(String::from),
    }
}

#[test]
fn project_local_settings_override_global_ones_field_by_field() {
    let global = cfg(Some("/global/city"), Some("1h"), None);
    let local = cfg(None, Some("10m"), Some("luminate"));
    let merged = load(Some(global), Some(local));
    assert_eq!(merged.city.as_deref(), Some("/global/city"));
    assert_eq!(merged.stale_after.as_deref(), Some("10m"));
    assert_eq!(merged.default_rig.as_deref(), Some("luminate"));
}

#[test]
fn missing_files_are_not_an_error() {
    let merged = load(None, None);
    assert!(merged.city.is_none() && merged.stale_after.is_none() && merged.default_rig.is_none());
    let only_global = load(Some(cfg(Some("/c"), None, None)), None);
    assert_eq!(only_global.city.as_deref(), Some("/c"));
    let only_local = load(None, Some(cfg(None, None, Some("r"))));
    assert_eq!(only_local.default_rig.as_deref(), Some("r"));
}

#[test]
fn merge_over_prefers_the_more_specific_value() {
    let base = cfg(Some("a"), Some("1h"), Some("x"));
    let over = cfg(Some("b"), None, None);
    let m = base.merge_over(over);
    assert_eq!(m.city.as_deref(), Some("b"));
    assert_eq!(m.stale_after.as_deref(), Some("1h"));
    assert_eq!(m.default_rig.as_deref(), Some("x"));
}

#[test]
fn merging_an_empty_config_changes_nothing() {
    let c = cfg(Some("a"), Some("5m"), None);
    let m = c.clone().merge_over(FileConfig::default());
    assert_eq!(m.city, c.city);
    assert_eq!(m.stale_after, c.stale_after);
    assert_eq!(m.default_rig, c.default_rig);
    let m2 = FileConfig::default().merge_over(c.clone());
    assert_eq!(m2.city, c.city);
    assert_eq!(m2.stale_after, c.stale_after);
}

#[test]
fn command_line_flags_win_over_the_files() {
    let file = cfg(Some("/file/city"), Some("45m"), Some("luminate"));
    assert_eq!(city_setting(Some("/flag".to_string()), &file).as_deref(), Some("/flag"));
    assert_eq!(city_setting(None, &file).as_deref(), Some("/file/city"));
    assert_eq!(city_setting(None, &FileConfig::default()), None);
    assert_eq!(stale_after_setting(Some("1h".to_string()), &file), "1h");
    assert_eq!(stale_after_setting(None, &file), "45m");
    assert_eq!(stale_after_setting(None, &FileConfig::default()), "30m");
    assert_eq!(thresholds_setting(None, &FileConfig::default()).unwrap().stale_after_secs, 1800);
    assert_eq!(thresholds_setting(None, &file).unwrap().stale_after_secs, 2700);
    assert!(thresholds_setting(Some("soon".to_string()), &file).is_err());
    assert_eq!(rig_or_default(Some("r".to_string()), &file).unwrap(), "r");
    assert_eq!(rig_or_default(None, &file).unwrap(), "luminate");
    assert_eq!(
        rig_or_default(None, &FileConfig::default()).unwrap_err(),
        "no rig given, and no default_rig set in .oilcop.toml / ~/.config/oil-cop/config.toml"
    );
}
