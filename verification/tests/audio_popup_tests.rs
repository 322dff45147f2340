use periph_monitor::audio::{
    add_session, audio_device_name, callback_changes, gather_sessions, session_display_name,
    session_listed, shutdown_adjusts_volume, RawSession, SessionEntry,
};
use periph_monitor::popup::{close_popup, open_popup, toggle, PopupAction};
use periph_monitor::state::autostart_request;
use periph_monitor::tray::{build_full_menu, MenuSlot};

fn session(pid: u32, active: bool, id: &str) -> SessionEntry {
    SessionEntry {
        id: id.to_string(),
        name: "App".to_string(),
        icon: String::new(),
        pid,
        volume_bits: 0.5f32.to_bits(),
        is_muted: false,
        device_id: "dev".to_string(),
        is_active: active,
    }
}

fn strings(v: &[&str]) -> Vec<String> {
    v.iter().map(|s| s.to_string()).collect()
}

#[test]
fn output_device_names() {
    assert_eq!(audio_device_name(Some("  Speakers  "), None), "Speakers");
    assert_eq!(audio_device_name(Some("   "), Some(" Realtek Audio ")), "Realtek Audio");
    assert_eq!(audio_device_name(Some(""), Some("")), "Unknown Audio Device");
    assert_eq!(audio_device_name(Some(""), None), "Unknown Device");
    assert_eq!(audio_device_name(None, Some("x")), "Unknown Device");
}

#[test]
fn session_names_and_listing() {
    assert_eq!(session_display_name("Chrome", 12), "Chrome");
    assert_eq!(session_display_name("Unknown App", 12), "App (PID: 12)");
    assert_eq!(session_display_name("", 7), "App (PID: 7)");
    assert!(session_listed(0, 5));
    assert!(session_listed(1, 5));
    assert!(session_listed(2, 5));
    assert!(!session_listed(3, 5));
    assert!(!session_listed(1, 0));
}

#[test]
fn sessions_merged_per_process() {
    let mut ss = Vec::new();
    add_session(&mut ss, session(10, false, "a"));
    add_session(&mut ss, session(20, true, "b"));
    add_session(&mut ss, session(10, true, "c"));
    add_session(&mut ss, session(10, false, "d"));
    add_session(&mut ss, session(20, true, "e"));
    let ids: Vec<&str> = ss.iter().map(|s| s.id.as_str()).collect();
    assert_eq!(ids, vec!["c", "b"]);
}

#[test]
fn volume_callbacks_follow_devices() {
    let (add, drop) = callback_changes(&strings(&["a", "b"]), &strings(&["b", "c", "d"]));
    assert_eq!(add, strings(&["c", "d"]));
    assert_eq!(drop, strings(&["a"]));
}

#[test]
fn popup_requests() {
    assert_eq!(toggle(true, true, true), PopupAction::Nothing);
    assert_eq!(toggle(false, false, false), PopupAction::Create);
    assert_eq!(toggle(false, true, true), PopupAction::Close);
    assert_eq!(toggle(false, true, false), PopupAction::Show);
    assert_eq!(open_popup(false, true, true), PopupAction::SwitchTab);
    assert_eq!(open_popup(false, true, false), PopupAction::Show);
    assert_eq!(open_popup(true, true, false), PopupAction::Nothing);
    assert_eq!(close_popup(false, true, true), PopupAction::Close);
    assert_eq!(close_popup(false, true, false), PopupAction::Nothing);
    assert_eq!(close_popup(true, true, true), PopupAction::Nothing);
}

#[test]
fn top_level_menu_layout() {
    let menu = build_full_menu(true);
    assert_eq!(menu.len(), 11);
    let labels: Vec<String> = menu
        .iter()
        .map(|s| match s {
            MenuSlot::Entry(e) => format!("{}={}", e.id, e.label),
            MenuSlot::Separator => "-".to_string(),
            MenuSlot::AudioDevices => "audio".to_string(),
            MenuSlot::SoundSettings => "sound".to_string(),
        })
        .collect();
    assert_eq!(
        labels,
        vec![
            "show=设备信息", "volume=音量控制", "-", "audio", "sound", "-", "auto_start=开机自启 ✓", "-",
            "settings=设置", "about=关于", "exit=退出"
        ]
    );
    match &build_full_menu(false)[6] {
        MenuSlot::Entry(e) => assert_eq!(e.label, "开机自启"),
        _ => panic!("auto-start entry expected"),
    }
}

#[test]
fn autostart_registration_changes() {
    assert_eq!(autostart_request(true, false), Some(true));
    assert_eq!(autostart_request(false, true), Some(false));
    assert_eq!(autostart_request(true, true), None);
    assert_eq!(autostart_request(false, false), None);
}

fn raw(pid: u32, state: i32, id: &str, name: &str) -> RawSession {
    RawSession {
        id: id.to_string(),
        name: name.to_string(),
        icon: String::new(),
        pid,
        state,
        volume_bits: 0.25f32.to_bits(),
        is_muted: true,
        device_id: "dev".to_string(),
    }
}

#[test]
fn sessions_gathered_one_per_process() {
    let reported = vec![
        raw(10, 0, "a", "Player"),
        raw(0, 1, "sys", "System Sounds"),
        raw(20, 3, "gone", "Old"),
        raw(30, 2, "x", ""),
        raw(10, 1, "b", "Player"),
        raw(30, 1, "y", "Unknown App"),
        raw(10, 0, "c", "Player"),
    ];
    let ss = gather_sessions(&reported);
    let ids: Vec<&str> = ss.iter().map(|s| s.id.as_str()).collect();
    assert_eq!(ids, vec!["b", "y"]);
    assert_eq!(ss[0].pid, 10);
    assert!(ss[0].is_active);
    assert_eq!(ss[0].name, "Player");
    assert!(ss[0].is_muted);
    assert_eq!(ss[0].volume_bits, 0.25f32.to_bits());
    assert_eq!(ss[1].pid, 30);
    assert_eq!(ss[1].name, "App (PID: 30)");
    assert!(ss[1].is_active);
    assert!(gather_sessions(&Vec::new()).is_empty());
}

#[test]
fn shutdown_volume_decision() {
    assert!(shutdown_adjusts_volume(true, true, 2));
    assert!(!shutdown_adjusts_volume(false, true, 2));
    assert!(!shutdown_adjusts_volume(true, false, 2));
    assert!(!shutdown_adjusts_volume(true, true, 0));
}
