use periph_monitor::config::{
    contains_string, log_enabled, log_level_is_standard, log_once, sync_log_cache, toggle_vec_item,
    Config, LogLevel, LogRetention,
};

fn strings(v: &[&str]) -> Vec<String> {
    v.iter().map(|s| s.to_string()).collect()
}

#[test]
fn default_config_values() {
    let c = Config::default();
    assert!(!c.auto_start);
    assert!(c.hidden_devices.is_empty());
    assert_eq!(c.hidden_groups, strings(&["Battery", "Monitor"]));
    assert!(c.filter_enabled);
    assert_eq!(
        c.filter_regex,
        "Virtual|虚拟|^HID|Audio Device|Audio 设备|Hands-Free|A2DP|gvinput Device|英特尔\\(R\\)"
    );
    assert_eq!(Config::default_filter_regex(), c.filter_regex);
    assert!(c.dedup_devices);
    assert!(!c.show_unnamed_bt);
    assert!(!c.log_enabled);
    assert_eq!(c.log_level, LogLevel::Standard);
    assert_eq!(c.log_retention, LogRetention::OneDay);
    assert!(c.tray_devices.is_empty());
    assert!(c.device_names.get("x").is_none());
}

#[test]
fn log_level_names_and_parsing() {
    assert_eq!(LogLevel::Standard.name(), "standard");
    assert_eq!(LogLevel::Verbose.name(), "verbose");
    assert_eq!(LogLevel::parse("VERBOSE"), Some(LogLevel::Verbose));
    assert_eq!(LogLevel::parse("Standard"), Some(LogLevel::Standard));
    assert_eq!(LogLevel::parse("detailed"), None);
    assert_eq!(LogLevel::default(), LogLevel::Standard);
}

#[test]
fn log_retention_names_and_parsing() {
    assert_eq!(LogRetention::ThreeDays.name(), "three_days");
    assert_eq!(LogRetention::parse("OneWeek"), Some(LogRetention::OneWeek));
    assert_eq!(LogRetention::parse("one_month"), Some(LogRetention::OneMonth));
    assert_eq!(LogRetention::parse("ONCE"), Some(LogRetention::Once));
    assert_eq!(LogRetention::parse("oneday"), Some(LogRetention::OneDay));
    assert_eq!(LogRetention::parse("one-day"), None);
    assert_eq!(LogRetention::default(), LogRetention::OneDay);
}

#[test]
fn log_flags_follow_config() {
    let mut c = Config::default();
    c.log_enabled = true;
    c.log_level = LogLevel::Verbose;
    c.log_retention = LogRetention::Once;
    let f = sync_log_cache(&c);
    assert!(log_enabled(&f));
    assert!(!log_level_is_standard(&f));
    assert!(log_once(&f));
}

#[test]
fn toggle_adds_then_removes() {
    let mut v = strings(&["a", "b"]);
    toggle_vec_item(&mut v, "c");
    assert_eq!(v, strings(&["a", "b", "c"]));
    toggle_vec_item(&mut v, "c");
    assert_eq!(v, strings(&["a", "b"]));
    toggle_vec_item(&mut v, "a");
    assert_eq!(v, strings(&["b"]));
    assert!(!contains_string(&v, "a"));
}

#[test]
fn toggle_removes_first_occurrence_only() {
    let mut v = strings(&["x", "y", "x"]);
    toggle_vec_item(&mut v, "x");
    assert_eq!(v, strings(&["y", "x"]));
}

#[test]
fn toggle_twice_restores_list() {
    let original = strings(&["Battery", "Monitor"]);
    let mut v = original.clone();
    toggle_vec_item(&mut v, "Audio");
    toggle_vec_item(&mut v, "Audio");
    assert_eq!(v, original);
}

#[test]
fn config_toggles_touch_one_field() {
    let mut c = Config::default();
    c.toggle_device_hidden("Mouse");
    c.toggle_audio_device_hidden("Speakers");
    c.toggle_group_hidden("Battery");
    assert_eq!(c.hidden_devices, strings(&["Mouse"]));
    assert_eq!(c.hidden_audio_devices, strings(&["Speakers"]));
    assert_eq!(c.hidden_groups, strings(&["Monitor"]));
    assert!(c.tray_devices.is_empty());
}

#[test]
fn rename_and_group_with_empty_value_remove() {
    let mut c = Config::default();
    c.rename_device("Buds".to_string(), "My Buds".to_string());
    assert_eq!(c.device_names.get("Buds").map(|s| s.as_str()), Some("My Buds"));
    c.rename_device("Buds".to_string(), String::new());
    assert!(c.device_names.get("Buds").is_none());
    c.change_device_group("Buds".to_string(), "Audio".to_string());
    assert_eq!(c.device_groups.get("Buds").map(|s| s.as_str()), Some("Audio"));
    c.change_device_group("Buds".to_string(), String::new());
    assert!(c.device_groups.get("Buds").is_none());
}

#[test]
fn tray_holds_at_most_four_devices() {
    let mut c = Config::default();
    for n in ["a", "b", "c", "d"] {
        assert!(c.toggle_device_tray(n).is_ok());
    }
    let err = c.toggle_device_tray("e");
    assert_eq!(err, Err("托盘最多添加 4 个设备".to_string()));
    assert_eq!(c.tray_devices.len(), 4);
    assert!(c.toggle_device_tray("b").is_ok());
    assert_eq!(c.tray_devices, strings(&["a", "c", "d"]));
    assert!(c.toggle_device_tray("e").is_ok());
    assert_eq!(c.tray_devices, strings(&["a", "c", "d", "e"]));
}

#[test]
fn setting_names_round_trip() {
    for l in [LogLevel::Standard, LogLevel::Verbose] {
        assert_eq!(LogLevel::parse(l.name()), Some(l));
    }
    for r in [
        LogRetention::Once,
        LogRetention::OneDay,
        LogRetention::ThreeDays,
        LogRetention::OneWeek,
        LogRetention::OneMonth,
    ] {
        assert_eq!(LogRetention::parse(r.name()), Some(r));
    }
}
