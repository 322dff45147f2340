use periph_monitor::classify::{
    classify_bluetooth, classify_device, is_audio, is_bt_service, is_generic_hid, is_system_device,
    is_usb, is_wireless_24g_by_vid_pid,
};
use periph_monitor::collections::StringMap;
use periph_monitor::device::{devices_eq, get_device_id_by_name, store_device_ids, DevType, Device};
use periph_monitor::device_data::{
    can_extract_vid_pid, extract_vid_pid, get_device_name, get_device_type, init_device_data, is_wireless_24g,
    DeviceDataTable, RawDeviceEntry,
};

fn raw(vid: &str, pid: &str, name: &str, t: &str) -> RawDeviceEntry {
    RawDeviceEntry { vid: vid.to_string(), pid: pid.to_string(), name: name.to_string(), device_type: t.to_string() }
}

fn dev(name: &str, id: Option<&str>) -> Device {
    Device {
        name: name.to_string(),
        dt: DevType::Other,
        status: String::new(),
        battery: None,
        device_id: id.map(|s| s.to_string()),
        is_bluetooth: id.is_some(),
        is_wireless_24g: false,
    }
}

#[test]
fn user_entries_win_over_bundled_ones() {
    let official = vec![raw("046D", "C547", "G Pro", "mouse"), raw("1532", "0084", "Viper", "mouse")];
    let user = vec![raw("046D", "C547", "My Mouse", "")];
    let t = init_device_data(&official, &user);
    assert_eq!(get_device_name(&t, "046D", "C547"), Some("My Mouse".to_string()));
    assert_eq!(get_device_type(&t, "046D", "C547"), "other");
    assert_eq!(get_device_name(&t, "1532", "0084"), Some("Viper".to_string()));
    assert_eq!(get_device_type(&t, "1532", "0084"), "mouse");
    assert!(is_wireless_24g(&t, "1532", "0084"));
    assert!(!is_wireless_24g(&t, "1532", "0085"));
    assert_eq!(get_device_name(&t, "FFFF", "0000"), None);
    assert_eq!(get_device_type(&t, "FFFF", "0000"), "other");
}

#[test]
fn later_raw_entry_wins() {
    let t = DeviceDataTable::from_raw_entries(&vec![raw("1", "2", "old", "audio"), raw("1", "2", "new", "keyboard")]);
    assert_eq!(get_device_name(&t, "1", "2"), Some("new".to_string()));
    assert_eq!(get_device_type(&t, "1", "2"), "keyboard");
    assert_eq!(t.to_raw_entries().len(), 1);
}

#[test]
fn merge_prefers_user_table() {
    let a = DeviceDataTable::from_raw_entries(&vec![raw("A", "1", "x", "mouse"), raw("B", "2", "y", "audio")]);
    let b = DeviceDataTable::from_raw_entries(&vec![raw("A", "1", "z", "keyboard")]);
    let m = DeviceDataTable::merge(&a, &b);
    assert_eq!(get_device_name(&m, "A", "1"), Some("z".to_string()));
    assert_eq!(get_device_name(&m, "B", "2"), Some("y".to_string()));
}

#[test]
fn vid_pid_extraction() {
    assert_eq!(
        extract_vid_pid("usb\\vid_046d&pid_c547\\6&2"),
        Some(("046D".to_string(), "C547".to_string()))
    );
    assert_eq!(extract_vid_pid("USB\\VID_046D"), None);
    assert_eq!(extract_vid_pid("HID\\PID_1234&VID_12"), None);
    assert_eq!(extract_vid_pid("BTHENUM\\DEV"), None);
}

#[test]
fn receiver_detection_uses_table() {
    let t = DeviceDataTable::from_raw_entries(&vec![raw("046D", "C547", "G Pro", "mouse")]);
    assert!(is_wireless_24g_by_vid_pid("USB\\VID_046D&PID_C547\\1", &t));
    assert!(is_wireless_24g_by_vid_pid("usb\\vid_046d&pid_c547", &t));
    assert!(!is_wireless_24g_by_vid_pid("USB\\VID_046D&PID_C548\\1", &t));
}

#[test]
fn classify_pnp_devices() {
    let t = DeviceDataTable::from_raw_entries(&vec![
        raw("046D", "C547", "G Pro", "mouse"),
        raw("1234", "0001", "Dongle Headset", "audio"),
        raw("1234", "0002", "Pad", "tablet"),
    ]);
    assert_eq!(classify_device("Receiver", "HIDClass", "USB\\VID_046D&PID_C547\\1", "", &t), DevType::Usb);
    assert_eq!(classify_device("Receiver", "HIDClass", "USB\\VID_1234&PID_0001\\1", "", &t), DevType::Audio);
    assert_eq!(classify_device("Receiver", "HIDClass", "USB\\VID_1234&PID_0002\\1", "", &t), DevType::Other);
    assert_eq!(classify_device("Speakers (Realtek)", "AudioEndpoint", "SWD\\MMDEVAPI\\1", "", &t), DevType::Audio);
    assert_eq!(classify_device("Generic Monitor", "Monitor", "DISPLAY\\ABC", "", &t), DevType::Monitor);
    assert_eq!(classify_device("Logitech G502 Mouse", "HIDClass", "HID\\VID_046D&PID_C08B\\7", "", &t), DevType::Usb);
    assert_eq!(classify_device("JBL Flip 5", "Bluetooth", "BTHENUM\\DEV_1", "", &t), DevType::Other);
    assert_eq!(classify_device("WH-1000XM4", "Bluetooth", "BTHENUM\\DEV_1", "Headphones", &t), DevType::Audio);
    assert_eq!(classify_device("Xbox Controller", "XnaComposite", "USB\\VID_045E&PID_02FF\\1", "", &t), DevType::Usb);
    assert_eq!(classify_device("Thing", "Keyboard", "ACPI\\1", "", &t), DevType::Usb);
    assert_eq!(classify_device("Card Reader", "DiskDrive", "USB\\VID_0BDA&PID_0129\\1", "", &t), DevType::Other);
}

#[test]
fn classify_paired_devices() {
    assert_eq!(classify_bluetooth("Bluetooth e0:cc:f8:7f:d9:eb", false), None);
    assert_eq!(classify_bluetooth("Bluetooth e0:cc:f8:7f:d9:eb", true), Some(DevType::Other));
    assert_eq!(classify_bluetooth("AirPods Pro", false), Some(DevType::Audio));
    assert_eq!(classify_bluetooth("Razer Viper", false), Some(DevType::Usb));
    assert_eq!(classify_bluetooth("MX Master 3", false), Some(DevType::Other));
    assert_eq!(classify_bluetooth("Bluetooth Speaker", false), Some(DevType::Audio));
}

#[test]
fn keyword_checks_lowercase_caption() {
    assert!(is_audio("sony headset"));
    assert!(!is_audio("sony tv"));
    assert!(is_usb("g pro x", ""));
    assert!(is_usb("abc", "Logitech Receiver"));
    assert!(!is_usb("abc", ""));
    assert!(!is_usb("abc", "LOGI"));
}

#[test]
fn id_kind_checks() {
    assert!(is_bt_service("BTHENUM\\{0000110B-0000-1000-8000-00805F9B34FB}_LOCALMFG"));
    assert!(is_bt_service("BTHLEDEVICE\\{0000180F-0000-1000-8000-00805F9B34FB}_DEV"));
    assert!(!is_bt_service("BTHENUM\\DEV_AABB"));
    let t = DeviceDataTable::new();
    assert!(is_generic_hid("HID\\VID_1&PID_2&COL01", &t));
    assert!(is_generic_hid("USB\\VID_1234&PID_5678", &t));
    assert!(is_generic_hid("BTHENUM\\{1}", &t));
    assert!(!is_generic_hid("HID\\VID_1&PID_2", &t));
    assert!(is_system_device("BTH\\MS_BTHBRB\\7"));
    assert!(!is_system_device("BTHENUM\\MS_"));
}

#[test]
fn stored_ids_keep_last_device_of_a_name() {
    let devices = vec![dev("Buds", Some("id-1")), dev("Mouse", None), dev("Buds", Some("id-2")), dev("Buds", None)];
    let mut ids = StringMap::new();
    ids.insert("stale".to_string(), "x".to_string());
    store_device_ids(&mut ids, &devices);
    assert_eq!(get_device_id_by_name(&ids, "Buds"), Some("id-2".to_string()));
    assert_eq!(get_device_id_by_name(&ids, "Mouse"), None);
    assert_eq!(get_device_id_by_name(&ids, "stale"), None);
}

#[test]
fn device_list_equality() {
    let a = vec![dev("A", None), dev("B", Some("1"))];
    let b = vec![dev("A", None), dev("B", Some("1"))];
    let c = vec![dev("A", None), dev("B", Some("2"))];
    assert!(devices_eq(&a, &b));
    assert!(!devices_eq(&a, &c));
    assert!(!devices_eq(&a, &vec![dev("A", None)]));
    assert_eq!(a[1].copy(), a[1]);
}

#[test]
fn ids_that_cut_a_character_are_not_readable() {
    assert!(can_extract_vid_pid("USB\\VID_046D&PID_C547\\6&2"));
    assert!(can_extract_vid_pid("HID\\NOTHING"));
    assert!(can_extract_vid_pid("usb\\vid_1é&pid_2"));
    assert!(!can_extract_vid_pid("USB\\VID_123é&PID_1234"));
    assert!(!can_extract_vid_pid("USB\\VID_1234&PID_123é"));
    assert_eq!(extract_vid_pid("usb\\vid_1é2&pid_2345"), Some(("1É2".to_string(), "2345".to_string())));
}
