use periph_monitor::collections::{CoreNameIndex, KeySet};
use periph_monitor::dedup::{core_name, rebuild_cn_index, try_insert};
use periph_monitor::device::{DevType, Device};

fn insert(
    name: &str,
    display: Option<&str>,
    dt: DevType,
    bt: bool,
    w24: bool,
    dedup: bool,
    seen: &mut KeySet,
    devices: &mut Vec<Device>,
    index: &mut CoreNameIndex,
) {
    try_insert(name, display, dt, "已连接", None, None, bt, w24, dedup, seen, devices, index);
}

#[test]
fn core_name_strips_profile_suffix() {
    assert_eq!(core_name("Sony WH-1000XM4 Hands-Free AG"), "Sony WH-1000XM4");
    assert_eq!(core_name("Buds Hands-Free"), "Buds");
    assert_eq!(core_name("Mouse LE"), "Mouse");
    assert_eq!(core_name("耳机 Avrcp 传输"), "耳机");
    assert_eq!(core_name("AirPods Pro"), "AirPods Pro");
}

#[test]
fn core_name_takes_part_in_parentheses() {
    assert_eq!(core_name("Headset (Sony WH-1000XM4 Stereo)"), "Sony WH-1000XM4");
    assert_eq!(core_name("Speakers (Realtek Audio)"), "Realtek");
    assert_eq!(core_name("Foo ()"), "Foo ()");
    assert_eq!(core_name("Foo (x"), "Foo (x");
}

#[test]
fn core_name_tries_first_suffix_only() {
    // " Hands-Free AG" is tried before " AG", so only that suffix goes.
    assert_eq!(core_name("Phone Hands-Free AG"), "Phone");
    assert_eq!(core_name("Phone AG"), "Phone");
    assert_eq!(core_name("Phone Stereo Audio"), "Phone Stereo");
}

#[test]
fn typed_entry_replaces_plain_entry() {
    let mut seen = KeySet::new();
    let mut devices = Vec::new();
    let mut index = CoreNameIndex::new();
    insert("Buds", None, DevType::Other, false, false, true, &mut seen, &mut devices, &mut index);
    assert_eq!(devices.len(), 1);
    insert("Buds", None, DevType::Audio, true, false, true, &mut seen, &mut devices, &mut index);
    assert_eq!(devices.len(), 1);
    assert_eq!(devices[0].name, "Buds");
    assert!(devices[0].is_bluetooth);
    assert_eq!(devices[0].dt, DevType::Audio);
}

#[test]
fn plain_entry_skipped_after_typed_entry() {
    let mut seen = KeySet::new();
    let mut devices = Vec::new();
    let mut index = CoreNameIndex::new();
    insert("Buds", None, DevType::Audio, true, false, true, &mut seen, &mut devices, &mut index);
    insert("Buds", None, DevType::Other, false, false, true, &mut seen, &mut devices, &mut index);
    assert_eq!(devices.len(), 1);
    assert!(devices[0].is_bluetooth);
    assert_eq!(devices[0].dt, DevType::Audio);
}

#[test]
fn without_dedup_every_entry_is_listed() {
    let mut seen = KeySet::new();
    let mut devices = Vec::new();
    let mut index = CoreNameIndex::new();
    insert("Buds", None, DevType::Audio, true, false, false, &mut seen, &mut devices, &mut index);
    insert("Buds", None, DevType::Other, false, false, false, &mut seen, &mut devices, &mut index);
    insert("Buds", None, DevType::Other, false, false, false, &mut seen, &mut devices, &mut index);
    assert_eq!(devices.len(), 3);
}

#[test]
fn repeated_entry_is_not_listed_twice() {
    let mut seen = KeySet::new();
    let mut devices = Vec::new();
    let mut index = CoreNameIndex::new();
    insert("Buds Stereo", None, DevType::Audio, true, false, true, &mut seen, &mut devices, &mut index);
    insert("Buds Hands-Free", None, DevType::Audio, true, false, true, &mut seen, &mut devices, &mut index);
    assert_eq!(devices.len(), 1);
    assert_eq!(devices[0].name, "Buds Stereo");
}

#[test]
fn repeated_entry_refreshes_when_name_shorter() {
    let mut seen = KeySet::new();
    let mut devices = Vec::new();
    let mut index = CoreNameIndex::new();
    let shown = "Logitech G Pro Wireless";
    try_insert("USB Receiver", Some(shown), DevType::Usb, "已配对", None, None, false, true, true, &mut seen, &mut devices, &mut index);
    try_insert("Rcv", Some(shown), DevType::Other, "已连接", Some(5), Some("id-1".to_string()), false, true, true, &mut seen, &mut devices, &mut index);
    assert_eq!(devices.len(), 1);
    assert_eq!(devices[0].name, shown);
    assert_eq!(devices[0].status, "已连接");
    assert_eq!(devices[0].device_id, Some("id-1".to_string()));
    assert_eq!(devices[0].dt, DevType::Usb);
    assert_eq!(devices[0].battery, None);
}

#[test]
fn repeated_entry_kept_when_name_not_shorter() {
    let mut seen = KeySet::new();
    let mut devices = Vec::new();
    let mut index = CoreNameIndex::new();
    let shown = "G Pro";
    try_insert("G Pro Receiver", Some(shown), DevType::Usb, "已配对", None, None, false, true, true, &mut seen, &mut devices, &mut index);
    try_insert("G Pro Receiver 2", Some(shown), DevType::Usb, "已连接", None, None, false, true, true, &mut seen, &mut devices, &mut index);
    assert_eq!(devices.len(), 1);
    assert_eq!(devices[0].status, "已配对");
}

#[test]
fn display_name_is_listed_name() {
    let mut seen = KeySet::new();
    let mut devices = Vec::new();
    let mut index = CoreNameIndex::new();
    insert("USB Receiver", Some("Logitech G Pro"), DevType::Usb, false, true, true, &mut seen, &mut devices, &mut index);
    assert_eq!(devices[0].name, "Logitech G Pro");
    assert!(devices[0].is_wireless_24g);
}

#[test]
fn rebuild_index_then_insert_keeps_working() {
    let mut seen = KeySet::new();
    let mut devices = Vec::new();
    let mut index = CoreNameIndex::new();
    insert("Keyboard", None, DevType::Usb, false, false, true, &mut seen, &mut devices, &mut index);
    insert("Mouse", None, DevType::Usb, false, false, true, &mut seen, &mut devices, &mut index);
    rebuild_cn_index(&mut index, &devices);
    insert("Mouse", None, DevType::Usb, true, false, true, &mut seen, &mut devices, &mut index);
    assert_eq!(devices.len(), 2);
    assert_eq!(devices[0].name, "Keyboard");
    assert_eq!(devices[1].name, "Mouse");
    assert!(devices[1].is_bluetooth);
}

#[test]
fn typed_entry_wins_after_other_devices() {
    for typed_first in [false, true] {
        let mut seen = KeySet::new();
        let mut devices = Vec::new();
        let mut index = CoreNameIndex::new();
        insert("Keyboard", None, DevType::Usb, false, false, true, &mut seen, &mut devices, &mut index);
        if typed_first {
            insert("Buds", None, DevType::Audio, true, false, true, &mut seen, &mut devices, &mut index);
            insert("Buds", None, DevType::Other, false, false, true, &mut seen, &mut devices, &mut index);
        } else {
            insert("Buds", None, DevType::Other, false, false, true, &mut seen, &mut devices, &mut index);
            insert("Buds", None, DevType::Audio, true, false, true, &mut seen, &mut devices, &mut index);
        }
        assert_eq!(devices.len(), 2);
        assert_eq!(devices[0].name, "Keyboard");
        assert!(devices[1].is_bluetooth);
        assert_eq!(devices[1].dt, DevType::Audio);
    }
}

#[test]
fn plain_entry_skipped_after_typed_entry_of_same_core_name() {
    let mut seen = KeySet::new();
    let mut devices = Vec::new();
    let mut index = CoreNameIndex::new();
    insert("X LE", None, DevType::Bluetooth, true, false, true, &mut seen, &mut devices, &mut index);
    insert("X", None, DevType::Other, false, false, true, &mut seen, &mut devices, &mut index);
    assert_eq!(devices.len(), 1);
    assert_eq!(devices[0].name, "X LE");
    assert!(devices[0].is_bluetooth);
}

#[test]
fn typed_entry_replaces_plain_entry_of_same_core_name() {
    let mut seen = KeySet::new();
    let mut devices = Vec::new();
    let mut index = CoreNameIndex::new();
    insert("X LE", None, DevType::Other, false, false, true, &mut seen, &mut devices, &mut index);
    insert("X", None, DevType::Bluetooth, true, false, true, &mut seen, &mut devices, &mut index);
    assert_eq!(devices.len(), 1);
    assert_eq!(devices[0].name, "X");
    assert!(devices[0].is_bluetooth);
    assert_eq!(devices[0].dt, DevType::Bluetooth);
    let mut rebuilt = CoreNameIndex::new();
    rebuild_cn_index(&mut rebuilt, &devices);
    assert_eq!(index.get("X"), Some(&vec![0usize]));
    assert_eq!(rebuilt.get("X"), Some(&vec![0usize]));
}

#[test]
fn without_dedup_entry_is_appended_whatever_the_index_holds() {
    let mut seen = KeySet::new();
    let mut devices = Vec::new();
    let mut index = CoreNameIndex::new();
    index.push_position("Mouse".to_string(), 7);
    insert("Mouse LE", None, DevType::Bluetooth, true, false, false, &mut seen, &mut devices, &mut index);
    assert_eq!(devices.len(), 1);
    assert_eq!(devices[0].name, "Mouse LE");
    assert_eq!(index.get("Mouse"), Some(&vec![7usize, 0]));
    assert!(!seen.contains("Mouse:bt"));
}

#[test]
fn index_matches_rebuilt_index_after_insertions() {
    let mut seen = KeySet::new();
    let mut devices = Vec::new();
    let mut index = CoreNameIndex::new();
    insert("Pad", None, DevType::Other, false, false, true, &mut seen, &mut devices, &mut index);
    insert("Kb LE", None, DevType::Usb, false, false, true, &mut seen, &mut devices, &mut index);
    insert("Kb", None, DevType::Usb, true, false, true, &mut seen, &mut devices, &mut index);
    insert("Kb Low Energy", None, DevType::Usb, true, false, true, &mut seen, &mut devices, &mut index);
    let mut rebuilt = CoreNameIndex::new();
    rebuild_cn_index(&mut rebuilt, &devices);
    assert_eq!(devices.len(), 2);
    assert_eq!(index.get("Pad"), rebuilt.get("Pad"));
    assert_eq!(index.get("Kb"), rebuilt.get("Kb"));
    assert_eq!(index.get("Kb"), Some(&vec![1usize]));
}
