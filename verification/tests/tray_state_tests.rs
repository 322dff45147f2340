use periph_monitor::collections::StringMap;
use periph_monitor::config::Config;
use periph_monitor::device::{DevType, Device};
use periph_monitor::state::{
    get_device_ids, get_devices_cache, init_auto_start, refresh_devices_cache, toggle_auto_start,
    update_auto_text, AppState,
};
use periph_monitor::system::{open_with_system, powershell_args, settings_page_url, sound_panel_args};
use periph_monitor::tray::{
    build_audio_devices_menu, audio_menu_target, auto_start_label, build_tooltip_text,
    build_windows_sound_settings_menu, menu_action, AudioMenuDevice, TrayAction,
};

fn dev(name: &str, status: &str, battery: Option<i32>) -> Device {
    Device {
        name: name.to_string(),
        dt: DevType::Audio,
        status: status.to_string(),
        battery,
        device_id: None,
        is_bluetooth: true,
        is_wireless_24g: false,
    }
}

fn strings(v: &[&str]) -> Vec<String> {
    v.iter().map(|s| s.to_string()).collect()
}

#[test]
fn tooltip_lists_chosen_devices_in_order() {
    let devices = vec![dev("Buds", "已连接", Some(80)), dev("Mouse", "已配对", None), dev("Pad", "", Some(-1))];
    let mut names = StringMap::new();
    names.insert("Mouse".to_string(), "My Mouse".to_string());
    let tray = strings(&["Mouse", "Gone", "Buds", "Pad"]);
    assert_eq!(
        build_tooltip_text(&tray, &names, &devices),
        "⚪ My Mouse\n🟢 Buds - 80%\n⚪ Pad - -1%"
    );
}

#[test]
fn tooltip_without_listed_devices_names_the_app() {
    let devices = vec![dev("Buds", "已连接", None)];
    assert_eq!(build_tooltip_text(&strings(&["Gone"]), &StringMap::new(), &devices), "外设监控");
    assert_eq!(build_tooltip_text(&Vec::new(), &StringMap::new(), &devices), "外设监控");
}

#[test]
fn audio_menu_skips_hidden_devices() {
    let devices = vec![
        AudioMenuDevice { id: "{1}".to_string(), name: "Speakers".to_string(), is_default: true },
        AudioMenuDevice { id: "{2}".to_string(), name: "Headset".to_string(), is_default: false },
        AudioMenuDevice { id: "{3}".to_string(), name: "HDMI".to_string(), is_default: false },
    ];
    let mut names = StringMap::new();
    names.insert("Headset".to_string(), "Work Headset".to_string());
    let r = build_audio_devices_menu(&devices, &names, &strings(&["HDMI"]));
    let got: Vec<(&str, &str, bool)> = r.iter().map(|e| (e.id.as_str(), e.label.as_str(), e.enabled)).collect();
    assert_eq!(got, vec![("audio_dev_{1}", "Speakers ✓", true), ("audio_dev_{2}", "Work Headset", true)]);
}

#[test]
fn audio_menu_without_devices() {
    let r = build_audio_devices_menu(&Vec::new(), &StringMap::new(), &Vec::new());
    assert_eq!(r.len(), 1);
    assert_eq!(r[0].id, "audio_dev_empty");
    assert_eq!(r[0].label, "无音频设备");
    assert!(!r[0].enabled);
}

#[test]
fn menu_ids_to_actions() {
    assert!(matches!(menu_action("show"), TrayAction::ShowDevices));
    assert!(matches!(menu_action("volume"), TrayAction::ShowVolume));
    assert!(matches!(menu_action("settings"), TrayAction::OpenSettings));
    assert!(matches!(menu_action("about"), TrayAction::OpenAbout));
    assert!(matches!(menu_action("auto_start"), TrayAction::ToggleAutoStart));
    assert!(matches!(menu_action("exit"), TrayAction::Exit));
    match menu_action("audio_dev_{0.0.0.00000000}.{abc}") {
        TrayAction::SetDefaultDevice(d) => assert_eq!(d, "{0.0.0.00000000}.{abc}"),
        _ => panic!("expected device switch"),
    }
    assert!(matches!(menu_action("audio_dev_"), TrayAction::Ignore));
    assert!(matches!(menu_action("win_sound_volume_mixer"), TrayAction::OpenSystem("sndvol.exe")));
    assert!(matches!(menu_action("win_sound_playback"), TrayAction::SoundPanel("playback")));
    assert!(matches!(menu_action("win_sound_recording"), TrayAction::SoundPanel("recording")));
    assert!(matches!(menu_action("win_sound_sounds"), TrayAction::SoundPanel("sounds")));
    assert!(matches!(menu_action("win_sound_settings"), TrayAction::SettingsPage("sound")));
    assert!(matches!(menu_action("win_sound_app_volume"), TrayAction::SettingsPage("apps-volume")));
    assert!(matches!(menu_action("unknown"), TrayAction::Ignore));
    assert_eq!(audio_menu_target("audio_dev_x"), Some("x".to_string()));
    assert_eq!(audio_menu_target("audio_x"), None);
}

#[test]
fn sound_settings_menu_entries() {
    let r = build_windows_sound_settings_menu();
    let ids: Vec<&str> = r.iter().map(|e| e.id.as_str()).collect();
    assert_eq!(
        ids,
        vec![
            "win_sound_volume_mixer",
            "win_sound_playback",
            "win_sound_recording",
            "win_sound_sounds",
            "win_sound_settings",
            "win_sound_app_volume"
        ]
    );
    assert_eq!(r[0].label, "音量合成器 (Classic)");
    assert_eq!(r[5].label, "音量合成器");
}

#[test]
fn auto_start_label_and_toggle() {
    assert_eq!(auto_start_label(true), "开机自启 ✓");
    assert_eq!(auto_start_label(false), "开机自启");
    let mut state = AppState::new();
    let mut config = Config::default();
    config.auto_start = true;
    init_auto_start(&mut state, &config);
    assert_eq!(update_auto_text(&state), "开机自启 ✓");
    assert!(!toggle_auto_start(&mut state, &mut config));
    assert!(!config.auto_start);
    assert_eq!(update_auto_text(&state), "开机自启");
    assert!(toggle_auto_start(&mut state, &mut config));
    assert!(config.auto_start && state.auto_start);
}

#[test]
fn refresh_reports_changes_only() {
    let mut state = AppState::new();
    assert!(get_devices_cache(&state).is_empty());
    assert!(get_device_ids(&state).get("x").is_none());
    let list = vec![dev("Buds", "已连接", Some(80))];
    assert!(refresh_devices_cache(&mut state, list.clone()));
    assert!(!refresh_devices_cache(&mut state, list.clone()));
    assert_eq!(get_devices_cache(&state), &list);
    let changed = vec![dev("Buds", "已配对", Some(80))];
    assert!(refresh_devices_cache(&mut state, changed.clone()));
    assert_eq!(get_devices_cache(&state), &changed);
    assert!(refresh_devices_cache(&mut state, Vec::new()));
}

#[test]
fn system_command_lines() {
    assert_eq!(open_with_system("ms-settings:bluetooth"), vec!["cmd", "/c", "start", "", "ms-settings:bluetooth"]);
    assert_eq!(sound_panel_args("playback"), "shell32.dll,Control_RunDLL mmsys.cpl,,playback");
    assert_eq!(settings_page_url("apps-volume"), "ms-settings:apps-volume");
    assert_eq!(
        powershell_args("bt.ps1", &strings(&["-Mac", "aa"])),
        vec!["-NoProfile", "-ExecutionPolicy", "Bypass", "-File", "bt.ps1", "-Mac", "aa"]
    );
}
