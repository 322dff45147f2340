use periph_monitor::bt::PairedBtDevice;
use periph_monitor::config::Config;
use periph_monitor::device::{DevType, Device};
use periph_monitor::device_data::{DeviceDataTable, RawDeviceEntry};
use periph_monitor::scan::{
    error_code, query_devices, query_devices_checked, row_is_readable, BatteryRow, ErrorCodeValue, PnpRow,
};

fn row(name: &str, id: &str, class: &str, status: &str, code: Option<ErrorCodeValue>) -> PnpRow {
    PnpRow {
        name: Some(name.to_string()),
        device_id: id.to_string(),
        caption: String::new(),
        pnp_class: class.to_string(),
        status: status.to_string(),
        error_code: code,
    }
}

fn settings(dedup: bool, filter: Option<&str>) -> Config {
    let mut c = Config::default();
    c.dedup_devices = dedup;
    match filter {
        Some(f) => {
            c.filter_enabled = true;
            c.filter_regex = f.to_string();
        }
        None => c.filter_enabled = false,
    }
    c
}

fn paired(name: &str, connected: bool, battery: Option<u8>, id: &str) -> PairedBtDevice {
    PairedBtDevice { name: name.to_string(), connected, battery, device_id: id.to_string() }
}

fn receiver_table() -> DeviceDataTable {
    DeviceDataTable::from_raw_entries(&vec![RawDeviceEntry {
        vid: "046D".to_string(),
        pid: "C547".to_string(),
        name: "Logitech G Pro Wireless".to_string(),
        device_type: "mouse".to_string(),
    }])
}

fn device(name: &str, dt: DevType, status: &str) -> Device {
    Device {
        name: name.to_string(),
        dt,
        status: status.to_string(),
        battery: None,
        device_id: None,
        is_bluetooth: false,
        is_wireless_24g: false,
    }
}

#[test]
fn keyboard_row_is_listed_connected() {
    let rows = vec![row("USB Keyboard", "USB\\VID_1A2C&PID_0E24\\5&1", "Keyboard", "OK", Some(ErrorCodeValue::Number(0)))];
    let r = query_devices(&rows, &vec![], &vec![], &settings(true, None), &DeviceDataTable::new());
    assert_eq!(r, vec![device("USB Keyboard", DevType::Usb, "已连接")]);
}

#[test]
fn class_is_matched_ignoring_ascii_case() {
    let rows = vec![
        row("Speakers", "SWD\\MMDEVAPI\\{0.0.0}", "audioendpoint", "OK", None),
        row("Printer", "USB\\VID_04F9&PID_0001\\1", "Printer", "OK", None),
    ];
    let r = query_devices(&rows, &vec![], &vec![], &settings(true, None), &DeviceDataTable::new());
    assert_eq!(r, vec![device("Speakers", DevType::Audio, "已连接")]);
}

#[test]
fn error_code_decides_connection() {
    let rows = vec![
        row("A Mouse", "HID\\A", "Mouse", "Error", Some(ErrorCodeValue::Text("0".to_string()))),
        row("B Mouse", "HID\\B", "Mouse", "OK", Some(ErrorCodeValue::Text("22".to_string()))),
        row("C Mouse", "HID\\C", "Mouse", "Error", Some(ErrorCodeValue::Flag(true))),
        row("D Mouse", "HID\\D", "Mouse", "OK", Some(ErrorCodeValue::Flag(false))),
        row("E Mouse", "HID\\E", "Mouse", "OK", Some(ErrorCodeValue::Other)),
        row("F Mouse", "HID\\F", "Mouse", "Degraded", None),
        row("G Mouse", "HID\\G", "Mouse", "OK", Some(ErrorCodeValue::Text("x1".to_string()))),
    ];
    let r = query_devices(&rows, &vec![], &vec![], &settings(true, None), &DeviceDataTable::new());
    let statuses: Vec<&str> = r.iter().map(|d| d.status.as_str()).collect();
    assert_eq!(statuses, vec!["已连接", "已配对", "已连接", "已配对", "已连接", "已配对", "已连接"]);
}

#[test]
fn error_code_values() {
    assert_eq!(error_code(&Some(ErrorCodeValue::Number(-3))), Some(-3));
    assert_eq!(error_code(&Some(ErrorCodeValue::Text("+7".to_string()))), Some(7));
    assert_eq!(error_code(&Some(ErrorCodeValue::Text(" 7".to_string()))), None);
    assert_eq!(error_code(&Some(ErrorCodeValue::Flag(true))), Some(0));
    assert_eq!(error_code(&Some(ErrorCodeValue::Flag(false))), Some(1));
    assert_eq!(error_code(&Some(ErrorCodeValue::Other)), None);
    assert_eq!(error_code(&None), None);
}

#[test]
fn skipped_rows_are_not_listed() {
    let mut unnamed = row("x", "HID\\X", "Mouse", "OK", None);
    unnamed.name = None;
    let rows = vec![
        unnamed,
        row("", "HID\\Y", "Mouse", "OK", None),
        row("Service", "BTHENUM\\{0000110B-0000-1000-8000-00805F9B34FB}_LOCALMFG", "Bluetooth", "OK", None),
        row("HID Collection", "HID\\VID_046D&PID_C08B&COL01\\7", "HIDClass", "OK", None),
        row("USB Input Device", "USB\\VID_1234&PID_5678\\1", "HIDClass", "OK", None),
        row("Enumerator", "BTH\\MS_BTHBRB\\7", "Bluetooth", "OK", None),
    ];
    let r = query_devices(&rows, &vec![], &vec![], &settings(true, None), &DeviceDataTable::new());
    assert!(r.is_empty());
}

#[test]
fn known_receiver_is_listed_under_product_name() {
    let rows = vec![row("USB Receiver", "USB\\VID_046D&PID_C547\\6&2", "HIDClass", "OK", None)];
    let r = query_devices(&rows, &vec![], &vec![], &settings(true, None), &receiver_table());
    let mut expected = device("Logitech G Pro Wireless", DevType::Usb, "已连接");
    expected.is_wireless_24g = true;
    assert_eq!(r, vec![expected]);
}

#[test]
fn paired_device_is_listed_with_battery_and_id() {
    let bts = vec![paired("Sony Headphones", true, Some(80), "Bluetooth#Bluetooth00:11-aa:bb")];
    let r = query_devices(&vec![], &bts, &vec![], &settings(true, None), &DeviceDataTable::new());
    let mut expected = device("Sony Headphones", DevType::Audio, "已连接");
    expected.battery = Some(80);
    expected.device_id = Some("Bluetooth#Bluetooth00:11-aa:bb".to_string());
    expected.is_bluetooth = true;
    assert_eq!(r, vec![expected]);
}

#[test]
fn paired_device_replaces_plain_entry_of_its_name() {
    let rows = vec![row("Galaxy Buds", "BTHENUM\\DEV_AABBCC\\1", "Bluetooth", "OK", None)];
    let bts = vec![paired("Galaxy Buds", false, None, "id-1")];
    let r = query_devices(&rows, &bts, &vec![], &settings(true, None), &DeviceDataTable::new());
    assert_eq!(r.len(), 1);
    assert!(r[0].is_bluetooth);
    assert_eq!(r[0].status, "已配对");
    assert_eq!(r[0].device_id, Some("id-1".to_string()));
}

#[test]
fn second_profile_updates_bluetooth_entry() {
    let bts = vec![
        paired("Buds Stereo", false, Some(40), "id-1"),
        paired("Buds Hands-Free", true, Some(50), "id-2"),
    ];
    let r = query_devices(&vec![], &bts, &vec![], &settings(true, None), &DeviceDataTable::new());
    assert_eq!(r.len(), 1);
    assert_eq!(r[0].name, "Buds Stereo");
    assert_eq!(r[0].status, "已连接");
    assert_eq!(r[0].battery, Some(50));
    assert_eq!(r[0].device_id, Some("id-1".to_string()));
}

#[test]
fn unnamed_bluetooth_device_follows_setting() {
    let bts = vec![paired("Bluetooth e0:cc:f8:7f:d9:eb", false, None, "id-1"), paired("", true, None, "id-2")];
    let hidden = query_devices(&vec![], &bts, &vec![], &settings(true, None), &DeviceDataTable::new());
    assert!(hidden.is_empty());
    let mut c = settings(true, None);
    c.show_unnamed_bt = true;
    let shown = query_devices(&vec![], &bts, &vec![], &c, &DeviceDataTable::new());
    assert_eq!(shown.len(), 1);
    assert_eq!(shown[0].dt, DevType::Other);
}

#[test]
fn batteries_are_listed_once_per_name() {
    let bat = |n: &str, c: i32| BatteryRow { name: Some(n.to_string()), status: Some("OK".to_string()), charge: Some(c) };
    let batteries = vec![bat("Internal Battery", 95), bat("Internal Battery", 94), BatteryRow { name: None, status: None, charge: None }];
    let r = query_devices(&vec![], &vec![], &batteries, &settings(true, None), &DeviceDataTable::new());
    let mut expected = device("Internal Battery", DevType::Battery, "OK");
    expected.battery = Some(95);
    assert_eq!(r, vec![expected]);
    let all = query_devices(&vec![], &vec![], &batteries, &settings(false, None), &DeviceDataTable::new());
    assert_eq!(all.len(), 2);
}

#[test]
fn battery_named_like_plain_entry_is_dropped() {
    let rows = vec![row("UPS", "HID\\UPS", "Mouse", "OK", None)];
    let batteries = vec![BatteryRow { name: Some("UPS".to_string()), status: None, charge: Some(10) }];
    let r = query_devices(&rows, &vec![], &batteries, &settings(true, None), &DeviceDataTable::new());
    assert_eq!(r.len(), 1);
    assert_eq!(r[0].dt, DevType::Usb);
}

#[test]
fn default_filter_drops_virtual_devices() {
    let rows = vec![
        row("Virtual Audio Device", "SWD\\A", "MEDIA", "OK", None),
        row("Speakers", "SWD\\B", "AudioEndpoint", "OK", None),
        row("hid-compliant mouse", "HID\\C", "Mouse", "OK", None),
    ];
    let mut c = Config::default();
    c.dedup_devices = true;
    let r = query_devices(&rows, &vec![], &vec![], &c, &DeviceDataTable::new());
    assert_eq!(r, vec![device("Speakers", DevType::Audio, "已连接")]);
}

#[test]
fn invalid_or_empty_filter_drops_nothing() {
    let rows = vec![row("Virtual Mouse", "HID\\A", "Mouse", "OK", None)];
    let broken = query_devices(&rows, &vec![], &vec![], &settings(true, Some("(")), &DeviceDataTable::new());
    assert_eq!(broken.len(), 1);
    let empty = query_devices(&rows, &vec![], &vec![], &settings(true, Some("")), &DeviceDataTable::new());
    assert_eq!(empty.len(), 1);
    let off = query_devices(&rows, &vec![], &vec![], &settings(true, None), &DeviceDataTable::new());
    assert_eq!(off.len(), 1);
}

#[test]
fn filter_matches_ignoring_case() {
    let rows = vec![row("Virtual Mouse", "HID\\A", "Mouse", "OK", None), row("Real Mouse", "HID\\B", "Mouse", "OK", None)];
    let r = query_devices(&rows, &vec![], &vec![], &settings(true, Some("VIRTUAL")), &DeviceDataTable::new());
    assert_eq!(r.len(), 1);
    assert_eq!(r[0].name, "Real Mouse");
}

#[test]
fn plain_and_bluetooth_entries_either_order() {
    let rows = vec![row("Buds Stereo", "BTHENUM\\DEV_1\\1", "Bluetooth", "OK", None)];
    let bts = vec![paired("Buds", true, None, "id-1")];
    let r = query_devices(&rows, &bts, &vec![], &settings(true, None), &DeviceDataTable::new());
    assert_eq!(r.len(), 1);
    assert!(r[0].is_bluetooth);
    assert_eq!(r[0].name, "Buds");
}

#[test]
fn receiver_entry_wins_over_plain_row_either_order() {
    let receiver = || row("USB Receiver", "USB\\VID_046D&PID_C547\\6&2", "HIDClass", "OK", None);
    let plain = || row("Logitech G Pro Wireless", "HID\\LOGI\\7", "Mouse", "OK", None);
    for rows in [vec![receiver(), plain()], vec![plain(), receiver()]] {
        let r = query_devices(&rows, &vec![], &vec![], &settings(true, None), &receiver_table());
        assert_eq!(r.len(), 1);
        assert_eq!(r[0].name, "Logitech G Pro Wireless");
        assert!(r[0].is_wireless_24g);
    }
}

#[test]
fn rows_that_would_cut_a_character_are_refused() {
    let good = || row("Mouse", "USB\\VID_046D&PID_C08B\\1", "Mouse", "OK", None);
    let bad = row("Mouse", "USB\\VID_123é&PID_1234\\1", "Mouse", "OK", None);
    let skipped = row("Printer", "USB\\VID_123é&PID_1234\\1", "Printer", "OK", None);
    let hid_collection = row("HID", "USB\\VID_123é&COL01", "HIDClass", "OK", None);
    let table = DeviceDataTable::new();
    assert!(row_is_readable(&good(), &table));
    assert!(!row_is_readable(&bad, &table));
    assert!(row_is_readable(&skipped, &table));
    assert!(row_is_readable(&hid_collection, &table));
    let c = settings(true, None);
    assert_eq!(query_devices_checked(&vec![good(), bad], &vec![], &vec![], &c, &table), None);
    let listed = query_devices_checked(&vec![good(), skipped], &vec![], &vec![], &c, &table).unwrap();
    assert_eq!(listed, vec![device("Mouse", DevType::Usb, "已连接")]);
}

#[test]
fn bluetooth_entry_appended_after_other_devices() {
    let rows = vec![
        row("USB Keyboard", "HID\\KBD\\1", "Keyboard", "OK", None),
        row("Buds Hands-Free", "BTHENUM\\DEV_1\\1", "Bluetooth", "OK", None),
    ];
    let bts = vec![paired("Buds", true, Some(60), "id-9")];
    let r = query_devices(&rows, &bts, &vec![], &settings(true, None), &DeviceDataTable::new());
    assert_eq!(r.len(), 2);
    assert_eq!(r[0], device("USB Keyboard", DevType::Usb, "已连接"));
    assert_eq!(r[1].name, "Buds");
    assert!(r[1].is_bluetooth);
    assert_eq!(r[1].battery, Some(60));
}
