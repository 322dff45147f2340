//! Building the device list from what the system queries return: the PnP
//! entities, the paired Bluetooth devices and the batteries, merged entry by
//! entry, filtered by the user's pattern.

use vstd::prelude::*;
use crate::bt::PairedBtDevice;
use crate::classify::{
    classify_bluetooth, classify_device, is_bt_service, is_generic_hid, is_system_device,
    is_wireless_24g_by_vid_pid, spec_classify_bluetooth, spec_classify_device, spec_is_bt_service,
    spec_is_generic_hid, spec_wireless_by_vid_pid,
};
use crate::collections::KeySet;
use crate::config::Config;
use crate::device_data::{
    DeviceDataTable, DeviceInfoView, can_extract_vid_pid, extract_vid_pid, get_device_name,
    spec_extract_vid_pid, vid_pid_readable,
};
use crate::filter::{
    compile_filter, lemma_unmatched_names, retain_unmatched, spec_filter_pattern, spec_regex_compiles,
    spec_regex_is_match, spec_unmatched,
};
use crate::fmt::{parse_i64, spec_parse_i64};
use crate::dedup::{
    conn_tag, core_name, entry_core_name, has_conn_type, lemma_tag_keys_differ, listed_as, new_entry,
    refreshed_entry, spec_core_name, utf8_len,
};
use crate::device::{DevType, Device, DeviceView, copy_opt_string, devices_view, opt_string_view};
use crate::text::{
    chars_of, eq_ignore_ascii_case, seq_contains, seq_eq_ignore_ascii_case, seq_starts_with,
    spec_to_uppercase, str_contains, str_eq, str_starts_with, to_uppercase,
};

verus! {

/// What the building of the list reads and changes: the keys of the
/// entries seen so far, the list, and the core names of the paired
/// Bluetooth devices.
pub struct ScanState {
    pub seen: Set<Seq<char>>,
    pub devices: Seq<DeviceView>,
    pub bt_names: Set<Seq<char>>,
}

/// Which listed entries count as another entry of a device.
#[derive(Clone, Copy)]
pub enum TwinKind {
    /// One with a connection type.
    Typed,
    /// One without a connection type.
    Plain,
    /// One with a given connection tag.
    SameTag,
    /// A Bluetooth entry of the same core name.
    BtEntry,
}

/// The listed entry is another entry, of the given kind, of the device `cn`.
pub open spec fn is_twin(d: DeviceView, cn: Seq<char>, kind: TwinKind, tag: Seq<char>) -> bool {
    match kind {
        TwinKind::Typed => listed_as(d, cn) && has_conn_type(d),
        TwinKind::Plain => listed_as(d, cn) && !d.is_bluetooth && !d.is_wireless_24g,
        TwinKind::SameTag => listed_as(d, cn) && conn_tag(d.is_bluetooth, d.is_wireless_24g) == tag,
        TwinKind::BtEntry => spec_core_name(d.name) == cn && d.is_bluetooth,
    }
}

/// The first position at or after `k` of such an entry.
pub open spec fn first_twin_from(
    devs: Seq<DeviceView>,
    cn: Seq<char>,
    kind: TwinKind,
    tag: Seq<char>,
    k: int,
) -> Option<int>
    decreases devs.len() - k,
{
    if k < 0 || k >= devs.len() {
        None
    } else if is_twin(devs[k], cn, kind, tag) {
        Some(k)
    } else {
        first_twin_from(devs, cn, kind, tag, k + 1)
    }
}

/// The first position of such an entry.
pub open spec fn first_twin(devs: Seq<DeviceView>, cn: Seq<char>, kind: TwinKind, tag: Seq<char>) -> Option<int> {
    first_twin_from(devs, cn, kind, tag, 0)
}

fn twin_matches(d: &Device, cn: &String, kind: TwinKind, tag: &str) -> (r: bool)
    ensures
        r == is_twin(d@, cn@, kind, tag@),
{
    let ecn = core_name(d.name.as_str());
    let core_eq = str_eq(ecn.as_str(), cn.as_str());
    let listed = core_eq || str_eq(d.name.as_str(), cn.as_str());
    match kind {
        TwinKind::Typed => listed && (d.is_bluetooth || d.is_wireless_24g),
        TwinKind::Plain => listed && !d.is_bluetooth && !d.is_wireless_24g,
        TwinKind::SameTag => {
            let etag: &str = if d.is_bluetooth {
                "bt"
            } else if d.is_wireless_24g {
                "24g"
            } else {
                "usb"
            };
            listed && str_eq(etag, tag)
        },
        TwinKind::BtEntry => core_eq && d.is_bluetooth,
    }
}

/// The first listed position of an entry of the given kind of the device `cn`.
fn find_twin(devices: &Vec<Device>, cn: &String, kind: TwinKind, tag: &str) -> (r: Option<usize>)
    ensures
        match r {
            Some(p) => first_twin(devices_view(devices@), cn@, kind, tag@) == Some(p as int) && p
                < devices@.len(),
            None => first_twin(devices_view(devices@), cn@, kind, tag@) is None,
        },
{
    let ghost dv = devices_view(devices@);
    let mut i: usize = 0;
    while i < devices.len()
        invariant
            i <= devices@.len(),
            dv == devices_view(devices@),
            first_twin(dv, cn@, kind, tag@) == first_twin_from(dv, cn@, kind, tag@, i as int),
        decreases devices@.len() - i,
    {
        assert(dv[i as int] == devices@[i as int]@);
        if twin_matches(&devices[i], cn, kind, tag) {
            return Some(i);
        }
        i = i + 1;
    }
    None
}

/// What one entry does to the list when it is merged in.
///
/// With `dedup` on: an entry without a connection type is dropped when an
/// entry of the same name with a connection type is listed; an entry with a
/// connection type displaces the listed plain entry of its name; an entry
/// whose name and connection tag were seen before only refreshes the listed
/// entry of that name and tag, and only when its raw name is shorter.
/// Otherwise the entry is appended.
pub open spec fn spec_scan_insert(
    name: Seq<char>,
    display_name: Option<Seq<char>>,
    dt: DevType,
    status: Seq<char>,
    battery: Option<i32>,
    device_id: Option<Seq<char>>,
    is_bluetooth: bool,
    is_wireless_24g: bool,
    dedup: bool,
    st: ScanState,
) -> ScanState {
    let effective = match display_name {
        Some(d) => d,
        None => name,
    };
    let cn = entry_core_name(name, display_name);
    let typed = is_bluetooth || is_wireless_24g;
    let tag = conn_tag(is_bluetooth, is_wireless_24g);
    if dedup && !typed && first_twin(st.devices, cn, TwinKind::Typed, tag) is Some {
        st
    } else {
        let devs = if dedup && typed {
            match first_twin(st.devices, cn, TwinKind::Plain, tag) {
                Some(p) => st.devices.remove(p),
                None => st.devices,
            }
        } else {
            st.devices
        };
        let key = cn + ":"@ + tag;
        if dedup && st.seen.contains(key) {
            ScanState {
                devices: match first_twin(devs, cn, TwinKind::SameTag, tag) {
                    Some(p) => if utf8_len(name) < utf8_len(devs[p].name) {
                        devs.update(
                            p,
                            refreshed_entry(
                                devs[p],
                                effective,
                                status,
                                device_id,
                                is_bluetooth,
                                is_wireless_24g,
                            ),
                        )
                    } else {
                        devs
                    },
                    None => devs,
                },
                ..st
            }
        } else {
            ScanState {
                seen: if dedup {
                    st.seen.insert(key)
                } else {
                    st.seen
                },
                devices: devs.push(
                    new_entry(effective, dt, status, battery, device_id, is_bluetooth, is_wireless_24g),
                ),
                ..st
            }
        }
    }
}

/// Merging an entry reads and changes only the seen keys and the list.
proof fn lemma_scan_insert_keeps_names(
    name: Seq<char>,
    display_name: Option<Seq<char>>,
    dt: DevType,
    status: Seq<char>,
    battery: Option<i32>,
    device_id: Option<Seq<char>>,
    is_bluetooth: bool,
    is_wireless_24g: bool,
    dedup: bool,
    st: ScanState,
    names: Set<Seq<char>>,
)
    ensures
        ({
            let a = spec_scan_insert(name, display_name, dt, status, battery, device_id, is_bluetooth,
                is_wireless_24g, dedup, st);
            let b = spec_scan_insert(name, display_name, dt, status, battery, device_id, is_bluetooth,
                is_wireless_24g, dedup, ScanState { bt_names: names, ..st });
            &&& a.seen == b.seen
            &&& a.devices == b.devices
            &&& a.bt_names == st.bt_names
            &&& b.bt_names == names
        }),
{
}

/// Merges one entry into the list, as [`spec_scan_insert`] says.
#[verifier::spinoff_prover]
#[verifier::rlimit(40)]
fn try_insert(
    name: &str,
    display_name: Option<&str>,
    dt: DevType,
    status: &str,
    battery: Option<i32>,
    device_id: Option<String>,
    is_bluetooth: bool,
    is_wireless_24g: bool,
    dedup: bool,
    seen: &mut KeySet,
    devices: &mut Vec<Device>,
)
    ensures
        ({
            let s = spec_scan_insert(
                name@,
                match display_name {
                    Some(d) => Some(d@),
                    None => None,
                },
                dt,
                status@,
                battery,
                opt_string_view(device_id),
                is_bluetooth,
                is_wireless_24g,
                dedup,
                ScanState {
                    seen: old(seen)@,
                    devices: devices_view(old(devices)@),
                    bt_names: Set::empty(),
                },
            );
            &&& final(seen)@ == s.seen
            &&& devices_view(final(devices)@) == s.devices
        }),
{
    let ghost dn = match display_name {
        Some(d) => Some(d@),
        None => None,
    };
    let ghost dv0 = devices_view(devices@);
    let effective_name: &str = match display_name {
        Some(d) => d,
        None => name,
    };
    let cn: String = match display_name {
        Some(d) => d.to_owned(),
        None => core_name(name),
    };
    assert(cn@ == entry_core_name(name@, dn));
    let has_type = is_bluetooth || is_wireless_24g;
    let tag: &str = if is_bluetooth {
        "bt"
    } else if is_wireless_24g {
        "24g"
    } else {
        "usb"
    };
    if dedup && !has_type {
        if find_twin(devices, &cn, TwinKind::Typed, tag).is_some() {
            return ;
        }
    }
    if dedup && has_type {
        if let Some(p) = find_twin(devices, &cn, TwinKind::Plain, tag) {
            devices.remove(p);
            assert(devices_view(devices@) =~= dv0.remove(p as int));
        }
    }
    let ghost devs1 = devices_view(devices@);
    let mut key = cn.clone();
    key.append(":");
    key.append(tag);
    if dedup && !seen.insert(key) {
        if let Some(p) = find_twin(devices, &cn, TwinKind::SameTag, tag) {
            if name.len() < devices[p].name.as_str().len() {
                let old_dev = &devices[p];
                assert(devs1[p as int] == old_dev@);
                let new_id = if old_dev.device_id.is_none() {
                    device_id
                } else {
                    copy_opt_string(&old_dev.device_id)
                };
                let new_dev = Device {
                    name: effective_name.to_owned(),
                    dt: old_dev.dt,
                    status: status.to_owned(),
                    battery: old_dev.battery,
                    device_id: new_id,
                    is_bluetooth: old_dev.is_bluetooth || is_bluetooth,
                    is_wireless_24g: old_dev.is_wireless_24g || is_wireless_24g,
                };
                assert(new_dev@ == refreshed_entry(
                    devs1[p as int],
                    effective_name@,
                    status@,
                    opt_string_view(device_id),
                    is_bluetooth,
                    is_wireless_24g,
                ));
                devices.set(p, new_dev);
                assert(devices_view(devices@) =~= devs1.update(p as int, new_dev@));
            }
        }
        return ;
    }
    devices.push(
        Device {
            name: effective_name.to_owned(),
            dt,
            status: status.to_owned(),
            battery,
            device_id,
            is_bluetooth,
            is_wireless_24g,
        },
    );
    assert(devices_view(devices@) =~= devs1.push(devices@[devs1.len() as int]@));
}

/// No listed entry at or after `k` carries the name `cn`.
pub open spec fn unlisted_from(devs: Seq<DeviceView>, cn: Seq<char>, k: int) -> bool {
    forall|j: int| k <= j < devs.len() ==> !listed_as(#[trigger] devs[j], cn)
}

proof fn lemma_first_twin_past_unlisted(
    devs: Seq<DeviceView>,
    cn: Seq<char>,
    kind: TwinKind,
    tag: Seq<char>,
    k: int,
    n: int,
)
    requires
        0 <= k <= n <= devs.len(),
        kind !is BtEntry,
        forall|j: int| k <= j < n ==> !listed_as(#[trigger] devs[j], cn),
    ensures
        first_twin_from(devs, cn, kind, tag, k) == first_twin_from(devs, cn, kind, tag, n),
    decreases n - k,
{
    if k < n {
        assert(!listed_as(devs[k], cn));
        lemma_first_twin_past_unlisted(devs, cn, kind, tag, k + 1, n);
    }
}

/// With de-duplication on, a device reported both as a plain entry and as
/// a Bluetooth or 2.4G entry whose names share their core name is listed
/// once, as the Bluetooth or 2.4G entry, in whichever order the two entries
/// arrive: from any list that does not list the device yet and any record
/// of seen entries that has not seen it, both orders append the Bluetooth or
/// 2.4G entry and nothing else.
pub proof fn law_scan_typed_entry_wins(
    plain_name: Seq<char>,
    plain_dt: DevType,
    plain_status: Seq<char>,
    typed_name: Seq<char>,
    typed_dt: DevType,
    typed_status: Seq<char>,
    typed_battery: Option<i32>,
    typed_id: Option<Seq<char>>,
    is_bluetooth: bool,
    is_wireless_24g: bool,
    st: ScanState,
)
    requires
        spec_core_name(plain_name) == spec_core_name(typed_name),
        is_bluetooth || is_wireless_24g,
        unlisted_from(st.devices, spec_core_name(typed_name), 0),
        !st.seen.contains(spec_core_name(typed_name) + ":"@ + conn_tag(false, false)),
        !st.seen.contains(spec_core_name(typed_name) + ":"@ + conn_tag(is_bluetooth, is_wireless_24g)),
    ensures
        ({
            let typed = new_entry(typed_name, typed_dt, typed_status, typed_battery, typed_id, is_bluetooth, is_wireless_24g);
            let plain_first = spec_scan_insert(
                typed_name, None, typed_dt, typed_status, typed_battery, typed_id, is_bluetooth, is_wireless_24g, true,
                spec_scan_insert(plain_name, None, plain_dt, plain_status, None, None, false, false, true, st),
            );
            let typed_first = spec_scan_insert(
                plain_name, None, plain_dt, plain_status, None, None, false, false, true,
                spec_scan_insert(typed_name, None, typed_dt, typed_status, typed_battery, typed_id, is_bluetooth, is_wireless_24g, true, st),
            );
            &&& plain_first.devices == st.devices.push(typed)
            &&& typed_first.devices == st.devices.push(typed)
        }),
{
    let cn = spec_core_name(typed_name);
    let n = st.devices.len() as int;
    let plain = new_entry(plain_name, plain_dt, plain_status, None, None, false, false);
    let typed = new_entry(typed_name, typed_dt, typed_status, typed_battery, typed_id, is_bluetooth, is_wireless_24g);
    lemma_tag_keys_differ(cn, is_bluetooth, is_wireless_24g);
    let tag = conn_tag(is_bluetooth, is_wireless_24g);
    let usb = conn_tag(false, false);

    lemma_first_twin_past_unlisted(st.devices, cn, TwinKind::Typed, usb, 0, n);
    let p1 = spec_scan_insert(plain_name, None, plain_dt, plain_status, None, None, false, false, true, st);
    assert(p1.devices == st.devices.push(plain));
    lemma_first_twin_past_unlisted(p1.devices, cn, TwinKind::Plain, tag, 0, n);
    assert(is_twin(p1.devices[n], cn, TwinKind::Plain, tag));
    assert(first_twin(p1.devices, cn, TwinKind::Plain, tag) == Some(n));
    assert(p1.devices.remove(n) =~= st.devices);
    let p2 = spec_scan_insert(typed_name, None, typed_dt, typed_status, typed_battery, typed_id, is_bluetooth, is_wireless_24g, true, p1);
    assert(p2.devices == st.devices.push(typed));

    lemma_first_twin_past_unlisted(st.devices, cn, TwinKind::Plain, tag, 0, n);
    let t1 = spec_scan_insert(typed_name, None, typed_dt, typed_status, typed_battery, typed_id, is_bluetooth, is_wireless_24g, true, st);
    assert(t1.devices == st.devices.push(typed));
    lemma_first_twin_past_unlisted(t1.devices, cn, TwinKind::Typed, usb, 0, n);
    assert(is_twin(t1.devices[n], cn, TwinKind::Typed, usb));
    assert(first_twin(t1.devices, cn, TwinKind::Typed, usb) == Some(n));
}

/// The value of the ConfigManagerErrorCode column, as the query hands it over.
pub enum ErrorCodeValue {
    Number(i64),
    Text(String),
    Flag(bool),
    Other,
}

/// One row of the PnP entity query. A column that is not a string reads as
/// an empty string; the name is `None` when it is not a string.
pub struct PnpRow {
    pub name: Option<String>,
    pub device_id: String,
    pub caption: String,
    pub pnp_class: String,
    pub status: String,
    pub error_code: Option<ErrorCodeValue>,
}

/// The error code of a row: a number as it is, a text as `str::parse`
/// reads it, a flag as 0 when set and 1 when not.
pub open spec fn spec_error_code(v: Option<ErrorCodeValue>) -> Option<i64> {
    match v {
        Some(ErrorCodeValue::Number(n)) => Some(n),
        Some(ErrorCodeValue::Text(s)) => spec_parse_i64(s@),
        Some(ErrorCodeValue::Flag(b)) => Some(if b { 0 } else { 1 }),
        _ => None,
    }
}

/// The error code of a row.
pub fn error_code(v: &Option<ErrorCodeValue>) -> (r: Option<i64>)
    ensures
        r == spec_error_code(*v),
{
    match v {
        Some(ErrorCodeValue::Number(n)) => Some(*n),
        Some(ErrorCodeValue::Text(s)) => {
            let c = chars_of(s.as_str());
            parse_i64(c.as_slice())
        },
        Some(ErrorCodeValue::Flag(b)) => Some(
            if *b {
                0
            } else {
                1
            },
        ),
        _ => None,
    }
}

/// The device of a row is connected: its error code is 0, or, without an
/// error code, its status is "OK".
pub open spec fn row_connected(code: Option<i64>, status: Seq<char>) -> bool {
    match code {
        Some(c) => c == 0,
        None => status == "OK"@,
    }
}

/// The status shown for a connected or a merely paired device.
pub open spec fn status_text(connected: bool) -> Seq<char> {
    if connected {
        "已连接"@
    } else {
        "已配对"@
    }
}

fn status_str(connected: bool) -> (r: &'static str)
    ensures
        r@ == status_text(connected),
{
    if connected {
        "已连接"
    } else {
        "已配对"
    }
}

/// The PnP classes whose entities are listed.
pub open spec fn pnp_class_listed(c: Seq<char>) -> bool {
    ||| seq_eq_ignore_ascii_case(c, "AudioEndpoint"@)
    ||| seq_eq_ignore_ascii_case(c, "Bluetooth"@)
    ||| seq_eq_ignore_ascii_case(c, "HIDClass"@)
    ||| seq_eq_ignore_ascii_case(c, "Keyboard"@)
    ||| seq_eq_ignore_ascii_case(c, "MEDIA"@)
    ||| seq_eq_ignore_ascii_case(c, "Mouse"@)
    ||| seq_eq_ignore_ascii_case(c, "Monitor"@)
}

/// What a row of the PnP query contributes: the raw name, the product name
/// of a known 2.4G receiver, the group, the status, and whether it is such
/// a receiver.
pub struct PnpEntry {
    pub name: Seq<char>,
    pub display_name: Option<Seq<char>>,
    pub dt: DevType,
    pub status: Seq<char>,
    pub is_wireless_24g: bool,
}

/// The entry of a PnP row, or none for a row that is not listed: one
/// without a string name, of another class, with an empty name, a Bluetooth
/// service entry, a generic HID interface, or a system Bluetooth enumerator.
pub open spec fn spec_pnp_entry(row: PnpRow, table: Map<(Seq<char>, Seq<char>), DeviceInfoView>) -> Option<PnpEntry> {
    let id = row.device_id@;
    let class = row.pnp_class@;
    match row.name {
        None => None,
        Some(n) => if !pnp_class_listed(class) || n@.len() == 0 {
            None
        } else if seq_eq_ignore_ascii_case(class, "Bluetooth"@) && spec_is_bt_service(id) {
            None
        } else if seq_eq_ignore_ascii_case(class, "HIDClass"@) && spec_is_generic_hid(id, table) {
            None
        } else if seq_starts_with(id, "BTH\\MS_"@) {
            None
        } else {
            let u = spec_to_uppercase(id);
            let is_24g = spec_wireless_by_vid_pid(u, table);
            let display_name = if is_24g {
                match spec_extract_vid_pid(u) {
                    Some((v, p)) => if table.contains_key((v, p)) {
                        Some(table[(v, p)].name)
                    } else {
                        None
                    },
                    None => None,
                }
            } else {
                None
            };
            Some(
                PnpEntry {
                    name: n@,
                    display_name,
                    dt: spec_classify_device(n@, class, u, row.caption@, table),
                    status: status_text(row_connected(spec_error_code(row.error_code), row.status@)),
                    is_wireless_24g: is_24g,
                },
            )
        },
    }
}

fn class_listed(c: &str) -> (r: bool)
    ensures
        r == pnp_class_listed(c@),
{
    eq_ignore_ascii_case(c, "AudioEndpoint") || eq_ignore_ascii_case(c, "Bluetooth")
        || eq_ignore_ascii_case(c, "HIDClass") || eq_ignore_ascii_case(c, "Keyboard")
        || eq_ignore_ascii_case(c, "MEDIA") || eq_ignore_ascii_case(c, "Mouse")
        || eq_ignore_ascii_case(c, "Monitor")
}

/// The row can be merged without cutting a character: the ids from which
/// vendor and product ids are read on the way are readable. For a HID row
/// with a USB id that names no interface collection, that is the id itself;
/// for every row that is listed, its uppercase id.
pub open spec fn row_readable(row: PnpRow, table: Map<(Seq<char>, Seq<char>), DeviceInfoView>) -> bool {
    let id = row.device_id@;
    let class = row.pnp_class@;
    let hid = seq_eq_ignore_ascii_case(class, "HIDClass"@);
    match row.name {
        None => true,
        Some(n) => if !pnp_class_listed(class) || n@.len() == 0 {
            true
        } else if seq_eq_ignore_ascii_case(class, "Bluetooth"@) && spec_is_bt_service(id) {
            true
        } else if hid && !seq_contains(id, "&COL"@) && seq_starts_with(id, "USB\\"@)
            && !vid_pid_readable(id) {
            false
        } else if hid && spec_is_generic_hid(id, table) {
            true
        } else if seq_starts_with(id, "BTH\\MS_"@) {
            true
        } else {
            vid_pid_readable(spec_to_uppercase(id))
        },
    }
}

/// Whether the row can be merged without cutting a character.
pub fn row_is_readable(row: &PnpRow, table: &DeviceDataTable) -> (r: bool)
    ensures
        r == row_readable(*row, table@),
{
    let n = match &row.name {
        Some(n) => n,
        None => return true,
    };
    let devid = row.device_id.as_str();
    let pnp = row.pnp_class.as_str();
    if !class_listed(pnp) || n.as_str().is_empty() {
        return true;
    }
    if eq_ignore_ascii_case(pnp, "Bluetooth") && is_bt_service(devid) {
        return true;
    }
    let hid = eq_ignore_ascii_case(pnp, "HIDClass");
    if hid && !str_contains(devid, "&COL") && str_starts_with(devid, "USB\\") && !can_extract_vid_pid(devid) {
        return false;
    }
    if hid && is_generic_hid(devid, table) {
        return true;
    }
    if is_system_device(devid) {
        return true;
    }
    let u = to_uppercase(devid);
    can_extract_vid_pid(u.as_str())
}

/// The list after the rows of the PnP query, merged in order.
pub open spec fn spec_scan_rows(
    rows: Seq<PnpRow>,
    table: Map<(Seq<char>, Seq<char>), DeviceInfoView>,
    dedup: bool,
    st: ScanState,
) -> ScanState
    decreases rows.len(),
{
    if rows.len() == 0 {
        st
    } else {
        let prev = spec_scan_rows(rows.drop_last(), table, dedup, st);
        match spec_pnp_entry(rows.last(), table) {
            Some(e) => spec_scan_insert(
                e.name,
                e.display_name,
                e.dt,
                e.status,
                None,
                None,
                false,
                e.is_wireless_24g,
                dedup,
                prev,
            ),
            None => prev,
        }
    }
}

/// Merges one PnP row into the list.
fn scan_row(
    row: &PnpRow,
    table: &DeviceDataTable,
    dedup: bool,
    seen: &mut KeySet,
    devices: &mut Vec<Device>,
)
    requires
        row_readable(*row, table@),
    ensures
        ({
            let st = ScanState {
                seen: old(seen)@,
                devices: devices_view(old(devices)@),
                bt_names: Set::empty(),
            };
            let s = match spec_pnp_entry(*row, table@) {
                Some(e) => spec_scan_insert(
                    e.name,
                    e.display_name,
                    e.dt,
                    e.status,
                    None,
                    None,
                    false,
                    e.is_wireless_24g,
                    dedup,
                    st,
                ),
                None => st,
            };
            &&& final(seen)@ == s.seen
            &&& devices_view(final(devices)@) == s.devices
        }),
{
    let n: &String = match &row.name {
        Some(n) => n,
        None => return ,
    };
    let devid = row.device_id.as_str();
    let pnp = row.pnp_class.as_str();
    if !class_listed(pnp) {
        return ;
    }
    let u = to_uppercase(devid);
    let connected = match error_code(&row.error_code) {
        Some(code) => code == 0,
        None => str_eq(row.status.as_str(), "OK"),
    };
    let s = status_str(connected);
    if n.as_str().is_empty() {
        return ;
    }
    if eq_ignore_ascii_case(pnp, "Bluetooth") && is_bt_service(devid) {
        return ;
    }
    if eq_ignore_ascii_case(pnp, "HIDClass") && is_generic_hid(devid, table) {
        return ;
    }
    if is_system_device(devid) {
        return ;
    }
    let dt = classify_device(n.as_str(), pnp, u.as_str(), row.caption.as_str(), table);
    let is_24g = is_wireless_24g_by_vid_pid(u.as_str(), table);
    let display_name: Option<String> = if is_24g {
        match extract_vid_pid(u.as_str()) {
            Some((vid, pid)) => get_device_name(table, vid.as_str(), pid.as_str()),
            None => None,
        }
    } else {
        None
    };
    match &display_name {
        Some(d) => try_insert(
            n.as_str(),
            Some(d.as_str()),
            dt,
            s,
            None,
            None,
            false,
            is_24g,
            dedup,
            seen,
            devices,
        ),
        None => try_insert(
            n.as_str(),
            None,
            dt,
            s,
            None,
            None,
            false,
            is_24g,
            dedup,
            seen,
            devices,
        ),
    }
}

/// The battery level of a paired device as the list holds it.
pub open spec fn spec_bt_battery(b: Option<u8>) -> Option<i32> {
    match b {
        Some(x) => Some(x as i32),
        None => None,
    }
}

/// A listed Bluetooth entry brought up to date from the paired device: its
/// status, its battery level when the device reports one, its id when it
/// had none.
pub open spec fn bt_merged(
    old: DeviceView,
    status: Seq<char>,
    battery: Option<u8>,
    device_id: Seq<char>,
) -> DeviceView {
    DeviceView {
        status: status,
        battery: if battery is Some {
            spec_bt_battery(battery)
        } else {
            old.battery
        },
        device_id: if old.device_id is None {
            Some(device_id)
        } else {
            old.device_id
        },
        ..old
    }
}

/// What one paired Bluetooth device does to the list: a device with an
/// empty name, or one that is not shown, changes nothing; else its core
/// name is recorded, and the listed Bluetooth entry of that core name is
/// brought up to date, or, when there is none, the device is merged in as a
/// Bluetooth entry.
pub open spec fn spec_bt_step(
    b: PairedBtDevice,
    show_unnamed_bt: bool,
    dedup: bool,
    st: ScanState,
) -> ScanState {
    if b.name@.len() == 0 {
        st
    } else {
        match spec_classify_bluetooth(b.name@, show_unnamed_bt) {
            None => st,
            Some(dt) => {
                let s = status_text(b.connected);
                let cn = spec_core_name(b.name@);
                let st1 = ScanState { bt_names: st.bt_names.insert(cn), ..st };
                match first_twin(st.devices, cn, TwinKind::BtEntry, Seq::empty()) {
                    Some(p) => ScanState {
                        devices: st.devices.update(
                            p,
                            bt_merged(st.devices[p], s, b.battery, b.device_id@),
                        ),
                        ..st1
                    },
                    None => spec_scan_insert(
                        b.name@,
                        None,
                        dt,
                        s,
                        spec_bt_battery(b.battery),
                        Some(b.device_id@),
                        true,
                        false,
                        dedup,
                        st1,
                    ),
                }
            },
        }
    }
}

/// The list after the paired Bluetooth devices, merged in order.
pub open spec fn spec_scan_bt(
    bts: Seq<PairedBtDevice>,
    show_unnamed_bt: bool,
    dedup: bool,
    st: ScanState,
) -> ScanState
    decreases bts.len(),
{
    if bts.len() == 0 {
        st
    } else {
        spec_bt_step(bts.last(), show_unnamed_bt, dedup, spec_scan_bt(bts.drop_last(), show_unnamed_bt, dedup, st))
    }
}

proof fn lemma_first_twin_from_exists(
    devs: Seq<DeviceView>,
    cn: Seq<char>,
    kind: TwinKind,
    tag: Seq<char>,
    k: int,
    j: int,
)
    requires
        0 <= k <= j < devs.len(),
        is_twin(devs[j], cn, kind, tag),
    ensures
        first_twin_from(devs, cn, kind, tag, k) matches Some(p) && k <= p <= j && is_twin(
            devs[p],
            cn,
            kind,
            tag,
        ),
    decreases j - k,
{
    if !is_twin(devs[k], cn, kind, tag) {
        lemma_first_twin_from_exists(devs, cn, kind, tag, k + 1, j);
    }
}

/// Once a device is listed as a Bluetooth entry, a paired profile of it
/// (one of the same core name) changes only the entry's status, level and
/// id, and the list keeps its length: a profile that reports no battery
/// level leaves every battery level of the list as it was, and one that
/// reports a level puts it on a Bluetooth entry of the device.
pub proof fn law_bt_profile_keeps_battery_levels(
    b: PairedBtDevice,
    show_unnamed_bt: bool,
    dedup: bool,
    st: ScanState,
    k: int,
)
    requires
        0 <= k < st.devices.len(),
        st.devices[k].is_bluetooth,
        spec_core_name(st.devices[k].name) == spec_core_name(b.name@),
    ensures
        ({
            let s = spec_bt_step(b, show_unnamed_bt, dedup, st);
            let shown = b.name@.len() > 0 && spec_classify_bluetooth(b.name@, show_unnamed_bt) is Some;
            &&& s.devices.len() == st.devices.len()
            &&& b.battery is None ==> forall|i: int|
                0 <= i < st.devices.len() ==> #[trigger] s.devices[i].battery == st.devices[i].battery
            &&& shown && b.battery is Some ==> exists|p: int|
                0 <= p < s.devices.len() && #[trigger] s.devices[p].battery == Some(b.battery->0 as i32)
                    && s.devices[p].is_bluetooth && spec_core_name(s.devices[p].name) == spec_core_name(
                    b.name@,
                )
        }),
{
    let cn = spec_core_name(b.name@);
    lemma_first_twin_from_exists(st.devices, cn, TwinKind::BtEntry, Seq::empty(), 0, k);
    let p = first_twin(st.devices, cn, TwinKind::BtEntry, Seq::empty())->0;
    let s = spec_bt_step(b, show_unnamed_bt, dedup, st);
    if b.name@.len() > 0 && spec_classify_bluetooth(b.name@, show_unnamed_bt) is Some {
        assert(s.devices[p] == bt_merged(st.devices[p], status_text(b.connected), b.battery, b.device_id@));
        assert forall|i: int| 0 <= i < st.devices.len() && i != p implies s.devices[i] == st.devices[i] by {}
        assert(s.devices[p].is_bluetooth && spec_core_name(s.devices[p].name) == cn);
        if b.battery is Some {
            assert(s.devices[p].battery == Some(b.battery->0 as i32));
        } else {
            assert(s.devices[p].battery == st.devices[p].battery);
        }
    }
}

fn bt_battery(b: Option<u8>) -> (r: Option<i32>)
    ensures
        r == spec_bt_battery(b),
{
    match b {
        Some(x) => Some(x as i32),
        None => None,
    }
}

/// Merges one paired Bluetooth device into the list.
#[verifier::spinoff_prover]
fn scan_bt_device(
    b: &PairedBtDevice,
    show_unnamed_bt: bool,
    dedup: bool,
    seen: &mut KeySet,
    devices: &mut Vec<Device>,
    bt_names: &mut KeySet,
)
    ensures
        ({
            let s = spec_bt_step(
                *b,
                show_unnamed_bt,
                dedup,
                ScanState {
                    seen: old(seen)@,
                    devices: devices_view(old(devices)@),
                    bt_names: old(bt_names)@,
                },
            );
            &&& final(seen)@ == s.seen
            &&& devices_view(final(devices)@) == s.devices
            &&& final(bt_names)@ == s.bt_names
        }),
{
    let ghost dv0 = devices_view(devices@);
    let name = b.name.as_str();
    if name.is_empty() {
        return ;
    }
    let dt = match classify_bluetooth(name, show_unnamed_bt) {
        Some(dt) => dt,
        None => return ,
    };
    let s = status_str(b.connected);
    let cn = core_name(name);
    bt_names.insert(cn.clone());
    proof {
        reveal_strlit("");
        assert(""@ =~= Seq::<char>::empty());
    }
    match find_twin(devices, &cn, TwinKind::BtEntry, "") {
        Some(p) => {
            let old_dev = &devices[p];
            assert(dv0[p as int] == old_dev@);
            let battery = if b.battery.is_some() {
                bt_battery(b.battery)
            } else {
                old_dev.battery
            };
            let device_id = if old_dev.device_id.is_none() {
                Some(b.device_id.clone())
            } else {
                copy_opt_string(&old_dev.device_id)
            };
            let new_dev = Device {
                name: old_dev.name.clone(),
                dt: old_dev.dt,
                status: s.to_owned(),
                battery,
                device_id,
                is_bluetooth: old_dev.is_bluetooth,
                is_wireless_24g: old_dev.is_wireless_24g,
            };
            assert(new_dev@ == bt_merged(dv0[p as int], s@, b.battery, b.device_id@));
            devices.set(p, new_dev);
            assert(devices_view(devices@) =~= dv0.update(p as int, new_dev@));
        },
        None => {
            proof {
                lemma_scan_insert_keeps_names(
                    b.name@,
                    None,
                    dt,
                    s@,
                    spec_bt_battery(b.battery),
                    Some(b.device_id@),
                    true,
                    false,
                    dedup,
                    ScanState {
                        seen: seen@,
                        devices: devices_view(devices@),
                        bt_names: Set::empty(),
                    },
                    bt_names@,
                );
            }
            try_insert(
                name,
                None,
                dt,
                s,
                bt_battery(b.battery),
                Some(b.device_id.clone()),
                true,
                false,
                dedup,
                seen,
                devices,
            );
        },
    }
}

/// One row of the battery query; a column that could not be read is `None`.
pub struct BatteryRow {
    pub name: Option<String>,
    pub status: Option<String>,
    pub charge: Option<i32>,
}

/// A text column, or an empty text when it could not be read.
pub open spec fn text_or_empty(o: Option<String>) -> Seq<char> {
    match o {
        Some(s) => s@,
        None => Seq::empty(),
    }
}

/// The list entry of a battery.
pub open spec fn battery_entry(b: BatteryRow) -> DeviceView {
    DeviceView {
        name: text_or_empty(b.name),
        dt: DevType::Battery,
        status: text_or_empty(b.status),
        battery: b.charge,
        device_id: None,
        is_bluetooth: false,
        is_wireless_24g: false,
    }
}

/// What one battery does to the list: one with an empty name is left out;
/// with `dedup` on, so is one whose core name was seen before as a plain
/// entry.
pub open spec fn spec_battery_step(b: BatteryRow, dedup: bool, st: ScanState) -> ScanState {
    let n = text_or_empty(b.name);
    let key = spec_core_name(n) + ":usb"@;
    if n.len() == 0 {
        st
    } else if !dedup {
        ScanState { devices: st.devices.push(battery_entry(b)), ..st }
    } else if st.seen.contains(key) {
        st
    } else {
        ScanState { seen: st.seen.insert(key), devices: st.devices.push(battery_entry(b)), ..st }
    }
}

/// The list after the batteries, in order.
pub open spec fn spec_scan_batteries(batteries: Seq<BatteryRow>, dedup: bool, st: ScanState) -> ScanState
    decreases batteries.len(),
{
    if batteries.len() == 0 {
        st
    } else {
        spec_battery_step(batteries.last(), dedup, spec_scan_batteries(batteries.drop_last(), dedup, st))
    }
}

fn text_of(o: &Option<String>) -> (r: String)
    ensures
        r@ == text_or_empty(*o),
{
    match o {
        Some(s) => s.clone(),
        None => String::new(),
    }
}

/// Adds one battery to the list.
fn scan_battery(b: &BatteryRow, dedup: bool, seen: &mut KeySet, devices: &mut Vec<Device>)
    ensures
        ({
            let s = spec_battery_step(
                *b,
                dedup,
                ScanState {
                    seen: old(seen)@,
                    devices: devices_view(old(devices)@),
                    bt_names: Set::empty(),
                },
            );
            &&& final(seen)@ == s.seen
            &&& devices_view(final(devices)@) == s.devices
        }),
{
    let ghost dv0 = devices_view(devices@);
    let n = text_of(&b.name);
    if n.as_str().is_empty() {
        return ;
    }
    let add = if !dedup {
        true
    } else {
        let mut key = core_name(n.as_str());
        key.append(":usb");
        seen.insert(key)
    };
    if add {
        let entry = Device {
            name: n,
            dt: DevType::Battery,
            status: text_of(&b.status),
            battery: b.charge,
            device_id: None,
            is_bluetooth: false,
            is_wireless_24g: false,
        };
        assert(entry@ == battery_entry(*b));
        devices.push(entry);
        assert(devices_view(devices@) =~= dv0.push(battery_entry(*b)));
    }
}

/// The list after the user's filter: with filtering on and a non-empty
/// filter that compiles, the entries whose names it matches are dropped.
pub open spec fn spec_apply_filter(devs: Seq<DeviceView>, enabled: bool, filter: Seq<char>) -> Seq<DeviceView> {
    if enabled && filter.len() > 0 && spec_regex_compiles(spec_filter_pattern(filter)) {
        spec_unmatched(devs, spec_filter_pattern(filter))
    } else {
        devs
    }
}

/// A Bluetooth entry whose device the paired-device query did not report
/// is shown without a status.
pub open spec fn status_checked(d: DeviceView, bt_names: Set<Seq<char>>) -> DeviceView {
    if d.is_bluetooth && !bt_names.contains(spec_core_name(d.name)) {
        DeviceView { status: Seq::empty(), ..d }
    } else {
        d
    }
}

/// Every entry with its status checked against the paired devices.
pub open spec fn spec_clear_stale_status(devs: Seq<DeviceView>, bt_names: Set<Seq<char>>) -> Seq<DeviceView> {
    devs.map_values(|d: DeviceView| status_checked(d, bt_names))
}

fn clear_stale_status(devices: &mut Vec<Device>, bt_names: &KeySet)
    ensures
        devices_view(final(devices)@) == spec_clear_stale_status(devices_view(old(devices)@), bt_names@),
{
    let ghost dv0 = devices_view(devices@);
    let mut i: usize = 0;
    while i < devices.len()
        invariant
            i <= devices@.len(),
            devices@.len() == dv0.len(),
            forall|j: int| 0 <= j < i ==> #[trigger] devices@[j]@ == status_checked(dv0[j], bt_names@),
            forall|j: int| i <= j < devices@.len() ==> #[trigger] devices@[j]@ == dv0[j],
        decreases devices@.len() - i,
    {
        assert(devices@[i as int]@ == dv0[i as int]);
        if devices[i].is_bluetooth {
            let cn = core_name(devices[i].name.as_str());
            if !bt_names.contains(cn.as_str()) {
                let old_dev = &devices[i];
                let new_dev = Device {
                    name: old_dev.name.clone(),
                    dt: old_dev.dt,
                    status: String::new(),
                    battery: old_dev.battery,
                    device_id: copy_opt_string(&old_dev.device_id),
                    is_bluetooth: old_dev.is_bluetooth,
                    is_wireless_24g: old_dev.is_wireless_24g,
                };
                assert(new_dev@ == status_checked(dv0[i as int], bt_names@));
                devices.set(i, new_dev);
            }
        }
        i = i + 1;
    }
    assert(devices_view(devices@) =~= spec_clear_stale_status(dv0, bt_names@));
}

/// With the filter on, the user's filter text non-empty and compiling, no
/// device of the list has a name that the filter matches.
pub proof fn law_filtered_names_do_not_match(
    rows: Seq<PnpRow>,
    bts: Seq<PairedBtDevice>,
    batteries: Seq<BatteryRow>,
    filter: Seq<char>,
    dedup: bool,
    show_unnamed_bt: bool,
    table: Map<(Seq<char>, Seq<char>), DeviceInfoView>,
)
    requires
        filter.len() > 0,
        spec_regex_compiles(spec_filter_pattern(filter)),
    ensures
        ({
            let r = spec_query_devices(rows, bts, batteries, true, filter, dedup, show_unnamed_bt, table);
            forall|i: int|
                0 <= i < r.len() ==> !spec_regex_is_match(spec_filter_pattern(filter), #[trigger] r[i].name)
        }),
{
    let st0 = ScanState { seen: Set::empty(), devices: Seq::empty(), bt_names: Set::empty() };
    let st1 = spec_scan_rows(rows, table, dedup, st0);
    let st2 = spec_scan_bt(bts, show_unnamed_bt, dedup, st1);
    let st3 = spec_scan_batteries(batteries, dedup, st2);
    let f = spec_unmatched(st3.devices, spec_filter_pattern(filter));
    lemma_unmatched_names(st3.devices, spec_filter_pattern(filter));
    let r = spec_clear_stale_status(f, st3.bt_names);
    assert forall|i: int| 0 <= i < r.len() implies !spec_regex_is_match(
        spec_filter_pattern(filter),
        #[trigger] r[i].name,
    ) by {
        assert(r[i].name == f[i].name);
    }
}

proof fn lemma_rows_keep_names(
    rows: Seq<PnpRow>,
    table: Map<(Seq<char>, Seq<char>), DeviceInfoView>,
    dedup: bool,
    st: ScanState,
)
    ensures
        spec_scan_rows(rows, table, dedup, st).bt_names == st.bt_names,
    decreases rows.len(),
{
    if rows.len() > 0 {
        lemma_rows_keep_names(rows.drop_last(), table, dedup, st);
    }
}

proof fn lemma_batteries_keep_names(batteries: Seq<BatteryRow>, dedup: bool, st: ScanState)
    ensures
        spec_scan_batteries(batteries, dedup, st).bt_names == st.bt_names,
    decreases batteries.len(),
{
    if batteries.len() > 0 {
        lemma_batteries_keep_names(batteries.drop_last(), dedup, st);
    }
}

/// The core name of a reported paired device.
pub open spec fn reported_core(bts: Seq<PairedBtDevice>, cn: Seq<char>) -> bool {
    exists|k: int| 0 <= k < bts.len() && #[trigger] spec_core_name(bts[k].name@) == cn
}

proof fn lemma_bt_names_reported(
    bts: Seq<PairedBtDevice>,
    show_unnamed_bt: bool,
    dedup: bool,
    st: ScanState,
)
    ensures
        forall|cn: Seq<char>|
            #[trigger] spec_scan_bt(bts, show_unnamed_bt, dedup, st).bt_names.contains(cn) ==> st.bt_names.contains(
                cn,
            ) || reported_core(bts, cn),
    decreases bts.len(),
{
    if bts.len() > 0 {
        let init = bts.drop_last();
        lemma_bt_names_reported(init, show_unnamed_bt, dedup, st);
        let prev = spec_scan_bt(init, show_unnamed_bt, dedup, st);
        let b = bts.last();
        let next = spec_scan_bt(bts, show_unnamed_bt, dedup, st);
        assert(next == spec_bt_step(b, show_unnamed_bt, dedup, prev));
        let cnb = spec_core_name(b.name@);
        if b.name@.len() > 0 && spec_classify_bluetooth(b.name@, show_unnamed_bt) is Some {
            let st1 = ScanState { bt_names: prev.bt_names.insert(cnb), ..prev };
            match first_twin(prev.devices, cnb, TwinKind::BtEntry, Seq::empty()) {
                Some(p) => {},
                None => {
                    let dt = spec_classify_bluetooth(b.name@, show_unnamed_bt)->0;
                    lemma_scan_insert_keeps_names(
                        b.name@,
                        None,
                        dt,
                        status_text(b.connected),
                        spec_bt_battery(b.battery),
                        Some(b.device_id@),
                        true,
                        false,
                        dedup,
                        st1,
                        st1.bt_names,
                    );
                },
            }
            assert(next.bt_names == prev.bt_names.insert(cnb));
        }
        assert forall|cn: Seq<char>| #[trigger] next.bt_names.contains(cn) implies st.bt_names.contains(cn)
            || reported_core(bts, cn) by {
            if cn == cnb && !prev.bt_names.contains(cn) {
                assert(spec_core_name(bts[bts.len() - 1].name@) == cn);
            } else {
                assert(prev.bt_names.contains(cn));
                if reported_core(init, cn) {
                    let k = choose|k: int| 0 <= k < init.len() && #[trigger] spec_core_name(init[k].name@) == cn;
                    assert(init[k] == bts[k]);
                    assert(spec_core_name(bts[k].name@) == cn);
                }
            }
        }
    }
}

/// A Bluetooth entry of the list shows a status only when a paired device
/// of its core name was reported.
pub proof fn law_bt_status_needs_report(
    rows: Seq<PnpRow>,
    bts: Seq<PairedBtDevice>,
    batteries: Seq<BatteryRow>,
    filter_enabled: bool,
    filter: Seq<char>,
    dedup: bool,
    show_unnamed_bt: bool,
    table: Map<(Seq<char>, Seq<char>), DeviceInfoView>,
)
    ensures
        ({
            let r = spec_query_devices(rows, bts, batteries, filter_enabled, filter, dedup, show_unnamed_bt, table);
            forall|i: int|
                0 <= i < r.len() && (#[trigger] r[i]).is_bluetooth && r[i].status.len() > 0 ==> reported_core(
                    bts,
                    spec_core_name(r[i].name),
                )
        }),
{
    let st0 = ScanState { seen: Set::empty(), devices: Seq::empty(), bt_names: Set::empty() };
    let st1 = spec_scan_rows(rows, table, dedup, st0);
    lemma_rows_keep_names(rows, table, dedup, st0);
    let st2 = spec_scan_bt(bts, show_unnamed_bt, dedup, st1);
    lemma_bt_names_reported(bts, show_unnamed_bt, dedup, st1);
    let st3 = spec_scan_batteries(batteries, dedup, st2);
    lemma_batteries_keep_names(batteries, dedup, st2);
    let f = spec_apply_filter(st3.devices, filter_enabled, filter);
    let r = spec_clear_stale_status(f, st3.bt_names);
    assert forall|i: int|
        0 <= i < r.len() && (#[trigger] r[i]).is_bluetooth && r[i].status.len() > 0 implies reported_core(
        bts,
        spec_core_name(r[i].name),
    ) by {
        assert(r[i] == status_checked(f[i], st3.bt_names));
        assert(st3.bt_names.contains(spec_core_name(f[i].name)));
        assert(st2.bt_names.contains(spec_core_name(f[i].name)));
    }
}

/// The device list that the queries' results give, as the steps above
/// build it: the PnP rows, then the paired Bluetooth devices, then the
/// batteries, then the filter, then the status check.
pub open spec fn spec_query_devices(
    rows: Seq<PnpRow>,
    bts: Seq<PairedBtDevice>,
    batteries: Seq<BatteryRow>,
    filter_enabled: bool,
    filter: Seq<char>,
    dedup: bool,
    show_unnamed_bt: bool,
    table: Map<(Seq<char>, Seq<char>), DeviceInfoView>,
) -> Seq<DeviceView> {
    let st0 = ScanState { seen: Set::empty(), devices: Seq::empty(), bt_names: Set::empty() };
    let st1 = spec_scan_rows(rows, table, dedup, st0);
    let st2 = spec_scan_bt(bts, show_unnamed_bt, dedup, st1);
    let st3 = spec_scan_batteries(batteries, dedup, st2);
    spec_clear_stale_status(spec_apply_filter(st3.devices, filter_enabled, filter), st3.bt_names)
}

/// Builds the device list from the results of the PnP entity query, the
/// paired Bluetooth devices and the battery query, with the settings'
/// switches for de-duplication, unnamed Bluetooth devices and the filter.
pub fn query_devices(
    rows: &Vec<PnpRow>,
    bts: &Vec<PairedBtDevice>,
    batteries: &Vec<BatteryRow>,
    config: &Config,
    table: &DeviceDataTable,
) -> (r: Vec<Device>)
    requires
        forall|i: int| 0 <= i < rows@.len() ==> row_readable(#[trigger] rows@[i], table@),
    ensures
        devices_view(r@) == spec_query_devices(
            rows@,
            bts@,
            batteries@,
            config.filter_enabled,
            config.filter_regex@,
            config.dedup_devices,
            config.show_unnamed_bt,
            table@,
        ),
{
    let dedup = config.dedup_devices;
    let mut seen = KeySet::new();
    let mut devices: Vec<Device> = Vec::new();
    let mut bt_names = KeySet::new();
    let ghost st0 = ScanState { seen: Set::empty(), devices: Seq::empty(), bt_names: Set::empty() };
    assert(devices_view(devices@) =~= Seq::<DeviceView>::empty());
    let mut i: usize = 0;
    while i < rows.len()
        invariant
            i <= rows@.len(),
            forall|j: int| 0 <= j < rows@.len() ==> row_readable(#[trigger] rows@[j], table@),
            bt_names@ == Set::<Seq<char>>::empty(),
            ({
                let s = spec_scan_rows(rows@.subrange(0, i as int), table@, dedup, st0);
                &&& seen@ == s.seen
                &&& devices_view(devices@) == s.devices
                &&& s.bt_names == Set::<Seq<char>>::empty()
            }),
        decreases rows@.len() - i,
    {
        assert(rows@.subrange(0, i + 1).drop_last() =~= rows@.subrange(0, i as int));
        assert(rows@.subrange(0, i + 1).last() == rows@[i as int]);
        scan_row(&rows[i], table, dedup, &mut seen, &mut devices);
        i = i + 1;
    }
    assert(rows@.subrange(0, rows@.len() as int) =~= rows@);
    let ghost st1 = spec_scan_rows(rows@, table@, dedup, st0);
    let mut k: usize = 0;
    while k < bts.len()
        invariant
            k <= bts@.len(),
            ({
                let s = spec_scan_bt(bts@.subrange(0, k as int), config.show_unnamed_bt, dedup, st1);
                &&& seen@ == s.seen
                &&& devices_view(devices@) == s.devices
                &&& bt_names@ == s.bt_names
            }),
        decreases bts@.len() - k,
    {
        assert(bts@.subrange(0, k + 1).drop_last() =~= bts@.subrange(0, k as int));
        assert(bts@.subrange(0, k + 1).last() == bts@[k as int]);
        scan_bt_device(&bts[k], config.show_unnamed_bt, dedup, &mut seen, &mut devices, &mut bt_names);
        k = k + 1;
    }
    assert(bts@.subrange(0, bts@.len() as int) =~= bts@);
    let ghost st2 = spec_scan_bt(bts@, config.show_unnamed_bt, dedup, st1);
    let mut m: usize = 0;
    while m < batteries.len()
        invariant
            m <= batteries@.len(),
            bt_names@ == st2.bt_names,
            ({
                let s = spec_scan_batteries(batteries@.subrange(0, m as int), dedup, st2);
                &&& seen@ == s.seen
                &&& devices_view(devices@) == s.devices
                &&& s.bt_names == st2.bt_names
            }),
        decreases batteries@.len() - m,
    {
        assert(batteries@.subrange(0, m + 1).drop_last() =~= batteries@.subrange(0, m as int));
        assert(batteries@.subrange(0, m + 1).last() == batteries@[m as int]);
        scan_battery(&batteries[m], dedup, &mut seen, &mut devices);
        m = m + 1;
    }
    assert(batteries@.subrange(0, batteries@.len() as int) =~= batteries@);
    if config.filter_enabled && !config.filter_regex.as_str().is_empty() {
        if let Some(re) = compile_filter(config.filter_regex.as_str()) {
            retain_unmatched(&mut devices, &re);
        }
    }
    clear_stale_status(&mut devices, &bt_names);
    devices
}

/// Builds the device list as [`query_devices`] does, when every row can be
/// merged without cutting a character; `None` when some row cannot.
pub fn query_devices_checked(
    rows: &Vec<PnpRow>,
    bts: &Vec<PairedBtDevice>,
    batteries: &Vec<BatteryRow>,
    config: &Config,
    table: &DeviceDataTable,
) -> (r: Option<Vec<Device>>)
    ensures
        r is Some <==> forall|i: int| 0 <= i < rows@.len() ==> row_readable(#[trigger] rows@[i], table@),
        r matches Some(v) ==> devices_view(v@) == spec_query_devices(
            rows@,
            bts@,
            batteries@,
            config.filter_enabled,
            config.filter_regex@,
            config.dedup_devices,
            config.show_unnamed_bt,
            table@,
        ),
{
    let mut i: usize = 0;
    while i < rows.len()
        invariant
            i <= rows@.len(),
            forall|j: int| 0 <= j < i ==> row_readable(#[trigger] rows@[j], table@),
        decreases rows@.len() - i,
    {
        if !row_is_readable(&rows[i], table) {
            return None;
        }
        i = i + 1;
    }
    Some(query_devices(rows, bts, batteries, config, table))
}

} // verus!
