use periph_monitor::bt::{
    bt_action_plan, bt_action_result, bt_script_args, check_device_connection, mac_of_device_id,
    out_file_name, poll_child, read_btc_battery_from_device_id, script_result, BatteryNode,
    ChildPoll, PairedBtDevice, PollAction,
};
use periph_monitor::collections::StringMap;
use periph_monitor::config::{LogFlags, LogRetention};
use periph_monitor::logging::{
    append_log, append_log_detailed, chrono_str, clean_old_logs, log_file_name, LogFileEntry,
};

fn flags(enabled: bool, standard: bool, once: bool) -> LogFlags {
    LogFlags { enabled, level_standard: standard, once }
}

fn entry(name: &str, age: Option<(u64, u32)>) -> LogFileEntry {
    LogFileEntry { name: name.to_string(), age }
}

#[test]
fn clock_stamp() {
    assert_eq!(chrono_str(Some(3661)), "01:01:01");
    assert_eq!(chrono_str(Some(0)), "00:00:00");
    assert_eq!(chrono_str(Some(86399 + 86400 * 3)), "23:59:59");
    assert_eq!(chrono_str(None), "??:??");
}

#[test]
fn messages_written_at_their_level_only() {
    assert_eq!(append_log(&flags(true, true, false), Some(3661), "hello"), Some("[01:01:01]hello\n".to_string()));
    assert_eq!(append_log(&flags(false, true, false), Some(3661), "hello"), None);
    assert_eq!(append_log(&flags(true, false, false), Some(3661), "hello"), None);
    assert_eq!(append_log_detailed(&flags(true, false, false), None, "x"), Some("[??:??]x\n".to_string()));
    assert_eq!(append_log_detailed(&flags(true, true, false), None, "x"), None);
    assert_eq!(append_log_detailed(&flags(false, false, false), None, "x"), None);
}

#[test]
fn log_file_names() {
    assert_eq!(log_file_name(&flags(true, true, true), 1234), "debug_1234.log");
    assert_eq!(log_file_name(&flags(true, true, false), 1234), "debug.log");
}

#[test]
fn old_logs_removed_by_age() {
    let entries = vec![
        entry("debug.log", Some((86401, 0))),
        entry("debug_12.log", Some((86400, 0))),
        entry("debug_13.log", Some((86400, 1))),
        entry("other.txt", Some((999999, 0))),
        entry("debug.log2", Some((999999, 0))),
        entry("debug_x.log", None),
    ];
    assert_eq!(clean_old_logs(true, LogRetention::OneDay, &entries), vec!["debug.log", "debug_13.log"]);
    assert_eq!(clean_old_logs(true, LogRetention::ThreeDays, &entries), Vec::<String>::new());
    assert_eq!(
        clean_old_logs(true, LogRetention::Once, &entries),
        vec!["debug.log", "debug_12.log", "debug_13.log", "debug_x.log"]
    );
    assert_eq!(clean_old_logs(false, LogRetention::Once, &entries), Vec::<String>::new());
    let week = vec![entry("debug.log", Some((604800, 5))), entry("debug_1.log", Some((604799, 999)))];
    assert_eq!(clean_old_logs(true, LogRetention::OneWeek, &week), vec!["debug.log"]);
    let month = vec![entry("debug.log", Some((2592001, 0)))];
    assert_eq!(clean_old_logs(true, LogRetention::OneMonth, &month), vec!["debug.log"]);
}

#[test]
fn mac_and_report_file() {
    assert_eq!(mac_of_device_id("Bluetooth#Bluetooth00:1a:7d:da:71:13-aa:bb:cc:dd:ee:ff"), "aa:bb:cc:dd:ee:ff");
    assert_eq!(mac_of_device_id("no-dash-here-x"), "x");
    assert_eq!(mac_of_device_id("plain"), "plain");
    assert_eq!(out_file_name("aa:bb:cc"), "bt_action_out_aabbcc.txt");
}

#[test]
fn action_plan_needs_known_device() {
    let mut ids = StringMap::new();
    ids.insert("Buds".to_string(), "BluetoothLE#BluetoothLE00:11-aa:bb:cc".to_string());
    let plan = bt_action_plan(&ids, "Buds").unwrap();
    assert_eq!(plan.device_id, "BluetoothLE#BluetoothLE00:11-aa:bb:cc");
    assert_eq!(plan.mac, "aa:bb:cc");
    assert_eq!(plan.out_file_name, "bt_action_out_aabbcc.txt");
    match bt_action_plan(&ids, "Mouse") {
        Err(e) => assert_eq!(e, "Device 'Mouse' not found"),
        Ok(_) => panic!("unknown device accepted"),
    }
    assert_eq!(
        bt_script_args("aa:bb", "connect", "C:\\t\\o.txt"),
        vec!["-Mac", "aa:bb", "-Action", "connect", "-OutFile", "C:\\t\\o.txt"]
    );
}

#[test]
fn action_outcome_reads_report() {
    assert_eq!(bt_action_result("ok", ""), Ok("ok".to_string()));
    assert_eq!(bt_action_result("ok", "  done\r\n"), Ok("ok\ndone".to_string()));
    assert_eq!(bt_action_result("", "NOT_FOUND"), Err("设备未找到".to_string()));
    assert_eq!(bt_action_result("NO_RADIO", ""), Err("未检测到蓝牙适配器".to_string()));
    assert_eq!(bt_action_result("NO_RADIO", "NOT_FOUND"), Err("设备未找到".to_string()));
}

#[test]
fn script_outcome() {
    assert_eq!(script_result(true, Some(0), " out \n", "warn"), Ok("out".to_string()));
    assert_eq!(script_result(false, Some(2), "", " boom \n"), Err("Script failed (exit 2): boom".to_string()));
    assert_eq!(script_result(false, None, "", ""), Err("Script failed (exit -1): ".to_string()));
    assert_eq!(script_result(false, Some(-5), "", "x"), Err("Script failed (exit -5): x".to_string()));
}

#[test]
fn script_process_watch() {
    assert!(matches!(poll_child(ChildPoll::Exited, (100, 0), 1), PollAction::Collect));
    assert!(matches!(poll_child(ChildPoll::Running, (59, 999_999_999), 1), PollAction::Wait));
    assert!(matches!(poll_child(ChildPoll::Running, (60, 0), 1), PollAction::Wait));
    match poll_child(ChildPoll::Running, (60, 1), 42) {
        PollAction::Kill(m) => assert_eq!(m, "[bt] TIMEOUT after 60s, killed pid=42"),
        _ => panic!("expected kill"),
    }
    match poll_child(ChildPoll::Failed("denied".to_string()), (0, 0), 1) {
        PollAction::Fail(m) => assert_eq!(m, "denied"),
        _ => panic!("expected failure"),
    }
}

#[test]
fn classic_battery_found_by_mac() {
    let nodes = vec![
        BatteryNode { instance_id: "BTHENUM\\{0000110E}_LOCALMFG&0002\\7&1A&0&112233445566_C00000000".to_string(), battery: Some(10) },
        BatteryNode { instance_id: "BTHENUM\\{0000111E}_LOCALMFG&0002\\7&1A&0&AABBCCDDEEFF_C00000000".to_string(), battery: None },
        BatteryNode { instance_id: "USB\\AABBCCDDEEFF".to_string(), battery: Some(20) },
        BatteryNode { instance_id: "BTHENUM\\{0000111E}_LOCALMFG&0002\\7&1a&0&aabbccddeeff_C00000000".to_string(), battery: Some(70) },
    ];
    assert_eq!(read_btc_battery_from_device_id("Bluetooth#Bluetooth00:1a-aa:bb:cc:dd:ee:ff", &nodes), Some(70));
    assert_eq!(read_btc_battery_from_device_id("Bluetooth#x-00:00:00:00:00:01", &nodes), None);
}

#[test]
fn connection_state_by_name() {
    let devs = vec![
        PairedBtDevice { name: "Buds".to_string(), connected: false, battery: None, device_id: "1".to_string() },
        PairedBtDevice { name: "Buds".to_string(), connected: true, battery: None, device_id: "2".to_string() },
        PairedBtDevice { name: "Mouse".to_string(), connected: true, battery: None, device_id: "3".to_string() },
    ];
    assert_eq!(check_device_connection(&devs, "Buds"), Some(false));
    assert_eq!(check_device_connection(&devs, "Mouse"), Some(true));
    assert_eq!(check_device_connection(&devs, "Keyboard"), None);
}
