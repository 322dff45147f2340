//! Merging of device entries that describe one physical device: the core
//! name shared by a device's profile entries, and the insertion step that
//! keeps the connection-typed entry of a device over its plain twin.

use vstd::prelude::*;
use crate::collections::{CoreNameIndex, KeySet, map_push};
use crate::device::{DevType, Device, DeviceView, devices_view, opt_string_view, copy_opt_string};
use crate::text::{
    chars_of, chars_range, ends_with, find, lemma_find_spec, lemma_last_index_before, occurs_at,
    rfind_char, seq_ends_with, seq_find, seq_rfind, str_eq, string_from_chars, string_from_range,
};

verus! {

/// The profile suffixes that Windows appends to the name of one device, in
/// the order in which they are tried.
pub open spec fn core_suffixes() -> Seq<Seq<char>> {
    seq![
        " Hands-Free AG"@,
        " Hands-Free HF"@,
        " Hands-Free"@,
        " Handsfree"@,
        " A2DP SNK"@,
        " A2DP SRC"@,
        " Stereo"@,
        " LE"@,
        " Low Energy"@,
        " Audio"@,
        " HFP"@,
        " AG"@,
        " SNK"@,
        " SRC"@,
        " Avrcp 传输"@,
        " 音频网关服务"@,
    ]
}

/// The part of a name inside its first " (" and its last ')', when that part
/// is not empty; else the whole name.
pub open spec fn core_base(n: Seq<char>) -> Seq<char> {
    match seq_find(n, seq![' ', '(']) {
        Some(i) => match seq_rfind(n, ')') {
            Some(j) => if j > i + 2 {
                n.subrange(i + 2, j)
            } else {
                n
            },
            None => n,
        },
        None => n,
    }
}

/// `s` without the first suffix of `sufs` that it ends with.
pub open spec fn strip_first_suffix(s: Seq<char>, sufs: Seq<Seq<char>>) -> Seq<char>
    decreases sufs.len(),
{
    if sufs.len() == 0 {
        s
    } else if seq_ends_with(s, sufs[0]) {
        s.subrange(0, s.len() - sufs[0].len())
    } else {
        strip_first_suffix(s, sufs.drop_first())
    }
}

/// The name that all profile entries of one device share.
pub open spec fn spec_core_name(n: Seq<char>) -> Seq<char> {
    strip_first_suffix(core_base(n), core_suffixes())
}

fn core_suffix(k: usize) -> (s: &'static str)
    requires
        k < 16,
    ensures
        s@ == core_suffixes()[k as int],
{
    match k {
        0 => " Hands-Free AG",
        1 => " Hands-Free HF",
        2 => " Hands-Free",
        3 => " Handsfree",
        4 => " A2DP SNK",
        5 => " A2DP SRC",
        6 => " Stereo",
        7 => " LE",
        8 => " Low Energy",
        9 => " Audio",
        10 => " HFP",
        11 => " AG",
        12 => " SNK",
        13 => " SRC",
        14 => " Avrcp 传输",
        _ => " 音频网关服务",
    }
}

/// The core name of `n`: the part in parentheses, if any, without a profile suffix.
pub fn core_name(n: &str) -> (r: String)
    ensures
        r@ == spec_core_name(n@),
{
    let chars = chars_of(n);
    let open = chars_of(" (");
    proof {
        reveal_strlit(" (");
        assert(open@ =~= seq![' ', '(']);
        lemma_find_spec(chars@, open@);
        lemma_last_index_before(chars@, ')', chars@.len() as int);
    }
    let base: Vec<char> = match find(&chars, &open) {
        Some(i) => match rfind_char(&chars, ')') {
            Some(j) => {
                assert(occurs_at(chars@, open@, i as int));
                if j > i && j - i > 2 {
                    chars_range(&chars, i + 2, j)
                } else {
                    chars
                }
            },
            None => chars,
        },
        None => chars,
    };
    assert(base@ == core_base(n@));
    assert(core_suffixes().len() == 16);
    assert(core_suffixes().subrange(0, 16) =~= core_suffixes());
    let mut k: usize = 0;
    while k < 16
        invariant
            k <= 16,
            base@ == core_base(n@),
            spec_core_name(n@) == strip_first_suffix(base@, core_suffixes().subrange(k as int, 16)),
        decreases 16 - k,
    {
        let suf = chars_of(core_suffix(k));
        assert(core_suffixes().subrange(k as int, 16)[0] == core_suffixes()[k as int]);
        if ends_with(&base, &suf) {
            return string_from_range(&base, 0, base.len() - suf.len());
        }
        assert(core_suffixes().subrange(k as int, 16).drop_first() =~= core_suffixes().subrange(
            k + 1,
            16,
        ));
        k = k + 1;
    }
    string_from_chars(&base)
}


/// Every position stored in `index` is below `n`.
pub open spec fn index_in_bounds(index: Map<Seq<char>, Seq<usize>>, n: nat) -> bool {
    forall|k: Seq<char>, j: int|
        #![trigger index[k][j]]
        index.contains_key(k) && 0 <= j < index[k].len() ==> index[k][j] < n
}

/// The index of a device list: each device's position, under its core name.
pub open spec fn spec_index_of(devs: Seq<DeviceView>) -> Map<Seq<char>, Seq<usize>>
    decreases devs.len(),
{
    if devs.len() == 0 {
        Map::empty()
    } else {
        map_push(
            spec_index_of(devs.drop_last()),
            spec_core_name(devs.last().name),
            (devs.len() - 1) as usize,
        )
    }
}

pub proof fn lemma_map_push_bounds(index: Map<Seq<char>, Seq<usize>>, k: Seq<char>, v: usize, n: nat)
    requires
        index_in_bounds(index, n),
        v < n,
    ensures
        index_in_bounds(map_push(index, k, v), n),
{
    let m = map_push(index, k, v);
    assert forall|a: Seq<char>, j: int| m.contains_key(a) && 0 <= j < m[a].len() implies #[trigger] m[a][j]
        < n by {
        if a == k && index.contains_key(k) && j < index[k].len() {
            assert(m[a][j] == index[k][j]);
        }
    }
}

pub proof fn lemma_index_in_bounds_grow(index: Map<Seq<char>, Seq<usize>>, n: nat, m: nat)
    requires
        index_in_bounds(index, n),
        n <= m,
    ensures
        index_in_bounds(index, m),
{
}

pub proof fn lemma_index_of_bounds(devs: Seq<DeviceView>)
    ensures
        index_in_bounds(spec_index_of(devs), devs.len()),
    decreases devs.len(),
{
    if devs.len() > 0 {
        lemma_index_of_bounds(devs.drop_last());
        lemma_index_in_bounds_grow(
            spec_index_of(devs.drop_last()),
            (devs.len() - 1) as nat,
            devs.len(),
        );
        lemma_map_push_bounds(
            spec_index_of(devs.drop_last()),
            spec_core_name(devs.last().name),
            (devs.len() - 1) as usize,
            devs.len(),
        );
    }
}

/// Rebuilds `cn_index` from `devices`: each position under its device's core name.
pub fn rebuild_cn_index(cn_index: &mut CoreNameIndex, devices: &[Device])
    ensures
        final(cn_index)@ == spec_index_of(devices@.map_values(|d: Device| d@)),
        index_in_bounds(final(cn_index)@, devices@.len()),
{
    let ghost dv = devices@.map_values(|d: Device| d@);
    cn_index.clear();
    let mut i: usize = 0;
    while i < devices.len()
        invariant
            i <= devices@.len(),
            dv == devices@.map_values(|d: Device| d@),
            cn_index@ == spec_index_of(dv.subrange(0, i as int)),
        decreases devices@.len() - i,
    {
        assert(dv.subrange(0, i + 1).drop_last() =~= dv.subrange(0, i as int));
        assert(dv.subrange(0, i + 1).last() == devices@[i as int]@);
        let cn = core_name(devices[i].name.as_str());
        cn_index.push_position(cn, i);
        i = i + 1;
    }
    assert(dv.subrange(0, devices@.len() as int) =~= dv);
    proof {
        lemma_index_of_bounds(dv);
    }
}

/// The connection tag under which entries are de-duplicated.
pub open spec fn conn_tag(is_bluetooth: bool, is_wireless_24g: bool) -> Seq<char> {
    if is_bluetooth {
        "bt"@
    } else if is_wireless_24g {
        "24g"@
    } else {
        "usb"@
    }
}

/// The entry is reached over Bluetooth or a 2.4G receiver.
pub open spec fn has_conn_type(d: DeviceView) -> bool {
    d.is_bluetooth || d.is_wireless_24g
}

/// The listed entry carries the name `cn`, as its core name or as its name.
pub open spec fn listed_as(d: DeviceView, cn: Seq<char>) -> bool {
    spec_core_name(d.name) == cn || d.name == cn
}

/// Whether the entry `d` carries the name `cn`, as its core name or as its name.
pub fn is_listed_as(d: &Device, cn: &String) -> (r: bool)
    ensures
        r == listed_as(d@, cn@),
{
    let ecn = core_name(d.name.as_str());
    str_eq(ecn.as_str(), cn.as_str()) || str_eq(d.name.as_str(), cn.as_str())
}

/// The entry belongs to the device `cn` and has a connection type.
pub open spec fn is_typed_twin(d: DeviceView, cn: Seq<char>) -> bool {
    listed_as(d, cn) && has_conn_type(d)
}

/// The entry belongs to the device `cn` and has no connection type.
pub open spec fn is_plain_twin(d: DeviceView, cn: Seq<char>) -> bool {
    listed_as(d, cn) && !d.is_bluetooth && !d.is_wireless_24g
}

/// The entry belongs to the device `cn` and has the connection tag `tag`.
pub open spec fn is_same_tag_twin(d: DeviceView, cn: Seq<char>, tag: Seq<char>) -> bool {
    listed_as(d, cn) && conn_tag(d.is_bluetooth, d.is_wireless_24g) == tag
}

/// The first position in `ix` whose entry is a plain entry of the device `cn`.
pub open spec fn first_plain_twin_at(devs: Seq<DeviceView>, cn: Seq<char>, ix: Seq<usize>) -> Option<
    usize,
>
    decreases ix.len(),
{
    if ix.len() == 0 {
        None
    } else if is_plain_twin(devs[ix[0] as int], cn) {
        Some(ix[0])
    } else {
        first_plain_twin_at(devs, cn, ix.drop_first())
    }
}

/// The first position in `ix` whose entry belongs to the device `cn` and has tag `tag`.
pub open spec fn first_same_tag_twin_at(
    devs: Seq<DeviceView>,
    cn: Seq<char>,
    tag: Seq<char>,
    ix: Seq<usize>,
) -> Option<usize>
    decreases ix.len(),
{
    if ix.len() == 0 {
        None
    } else if is_same_tag_twin(devs[ix[0] as int], cn, tag) {
        Some(ix[0])
    } else {
        first_same_tag_twin_at(devs, cn, tag, ix.drop_first())
    }
}

/// The positions stored under `cn`; none when the key is absent.
pub open spec fn positions_of(index: Map<Seq<char>, Seq<usize>>, cn: Seq<char>) -> Seq<usize> {
    if index.contains_key(cn) {
        index[cn]
    } else {
        Seq::empty()
    }
}

/// The state that [`try_insert`] reads and changes.
pub struct DedupState {
    pub seen: Set<Seq<char>>,
    pub devices: Seq<DeviceView>,
    pub index: Map<Seq<char>, Seq<usize>>,
}

/// The name under which a new entry is grouped: its display name when it
/// has one, else the core name of its raw name.
pub open spec fn entry_core_name(name: Seq<char>, display_name: Option<Seq<char>>) -> Seq<char> {
    match display_name {
        Some(d) => d,
        None => spec_core_name(name),
    }
}

/// The number of bytes of the UTF-8 encoding of `s`, as `str::len` gives it.
pub open spec fn utf8_len(s: Seq<char>) -> usize {
    vstd::utf8::encode_utf8(s).len() as usize
}

/// A plain entry is dropped because a connection-typed entry of its device is listed.
pub open spec fn skips_plain_entry(
    dedup: bool,
    typed: bool,
    devs: Seq<DeviceView>,
    index: Map<Seq<char>, Seq<usize>>,
    cn: Seq<char>,
) -> bool {
    let pos = positions_of(index, cn);
    dedup && !typed && exists|j: int|
        0 <= j < pos.len() && #[trigger] is_typed_twin(devs[pos[j] as int], cn)
}

/// The list and index after a connection-typed entry displaces the plain
/// entry of its device.
pub open spec fn after_plain_removal(
    devs: Seq<DeviceView>,
    index: Map<Seq<char>, Seq<usize>>,
    cn: Seq<char>,
) -> (Seq<DeviceView>, Map<Seq<char>, Seq<usize>>) {
    match first_plain_twin_at(devs, cn, positions_of(index, cn)) {
        Some(p) => (devs.remove(p as int), spec_index_of(devs.remove(p as int))),
        None => (devs, index),
    }
}

/// The entry stored for a new device.
pub open spec fn new_entry(
    effective: Seq<char>,
    dt: DevType,
    status: Seq<char>,
    battery: Option<i32>,
    device_id: Option<Seq<char>>,
    is_bluetooth: bool,
    is_wireless_24g: bool,
) -> DeviceView {
    DeviceView { name: effective, dt, status, battery, device_id, is_bluetooth, is_wireless_24g }
}

/// A listed entry refreshed from a later entry of the same device.
pub open spec fn refreshed_entry(
    old: DeviceView,
    effective: Seq<char>,
    status: Seq<char>,
    device_id: Option<Seq<char>>,
    is_bluetooth: bool,
    is_wireless_24g: bool,
) -> DeviceView {
    DeviceView {
        name: effective,
        dt: old.dt,
        status: status,
        battery: old.battery,
        device_id: if old.device_id is None {
            device_id
        } else {
            old.device_id
        },
        is_bluetooth: old.is_bluetooth || is_bluetooth,
        is_wireless_24g: old.is_wireless_24g || is_wireless_24g,
    }
}

/// The list after a repeated entry: the listed entry of the same device and
/// tag is refreshed when the repeated entry's raw name is shorter.
pub open spec fn after_repeat(
    devs: Seq<DeviceView>,
    index: Map<Seq<char>, Seq<usize>>,
    cn: Seq<char>,
    tag: Seq<char>,
    name: Seq<char>,
    effective: Seq<char>,
    status: Seq<char>,
    device_id: Option<Seq<char>>,
    is_bluetooth: bool,
    is_wireless_24g: bool,
) -> Seq<DeviceView> {
    match first_same_tag_twin_at(devs, cn, tag, positions_of(index, cn)) {
        Some(p) => if utf8_len(name) < utf8_len(devs[p as int].name) {
            devs.update(
                p as int,
                refreshed_entry(
                    devs[p as int],
                    effective,
                    status,
                    device_id,
                    is_bluetooth,
                    is_wireless_24g,
                ),
            )
        } else {
            devs
        },
        None => devs,
    }
}

/// What one insertion does to the de-duplication state.
pub open spec fn spec_try_insert(
    name: Seq<char>,
    display_name: Option<Seq<char>>,
    dt: DevType,
    status: Seq<char>,
    battery: Option<i32>,
    device_id: Option<Seq<char>>,
    is_bluetooth: bool,
    is_wireless_24g: bool,
    dedup: bool,
    st: DedupState,
) -> DedupState {
    let effective = match display_name {
        Some(d) => d,
        None => name,
    };
    let cn = entry_core_name(name, display_name);
    let typed = is_bluetooth || is_wireless_24g;
    if skips_plain_entry(dedup, typed, st.devices, st.index, cn) {
        st
    } else {
        let (devs, index) = if dedup && typed {
            after_plain_removal(st.devices, st.index, cn)
        } else {
            (st.devices, st.index)
        };
        let tag = conn_tag(is_bluetooth, is_wireless_24g);
        let key = cn + ":"@ + tag;
        if dedup && st.seen.contains(key) {
            DedupState {
                seen: st.seen,
                devices: after_repeat(
                    devs,
                    index,
                    cn,
                    tag,
                    name,
                    effective,
                    status,
                    device_id,
                    is_bluetooth,
                    is_wireless_24g,
                ),
                index,
            }
        } else {
            DedupState {
                seen: if dedup {
                    st.seen.insert(key)
                } else {
                    st.seen
                },
                devices: devs.push(
                    new_entry(effective, dt, status, battery, device_id, is_bluetooth, is_wireless_24g),
                ),
                index: map_push(index, cn, devs.len() as usize),
            }
        }
    }
}

/// Whether some listed position holds a connection-typed entry of the device `cn`.
fn any_typed_twin(devices: &Vec<Device>, ix: &Vec<usize>, cn: &String) -> (r: bool)
    requires
        forall|j: int| 0 <= j < ix@.len() ==> ix@[j] < devices@.len(),
    ensures
        r == exists|j: int|
            0 <= j < ix@.len() && #[trigger] is_typed_twin(
                devices_view(devices@)[ix@[j] as int],
                cn@,
            ),
{
    let mut j: usize = 0;
    while j < ix.len()
        invariant
            j <= ix@.len(),
            forall|q: int| 0 <= q < ix@.len() ==> ix@[q] < devices@.len(),
            forall|q: int|
                0 <= q < j ==> !#[trigger] is_typed_twin(devices_view(devices@)[ix@[q] as int], cn@),
        decreases ix@.len() - j,
    {
        let d = &devices[ix[j]];
        assert(devices_view(devices@)[ix@[j as int] as int] == d@);
        if is_listed_as(d, cn) && (d.is_bluetooth || d.is_wireless_24g) {
            assert(is_typed_twin(devices_view(devices@)[ix@[j as int] as int], cn@));
            return true;
        }
        j = j + 1;
    }
    false
}

/// The first listed position that holds a plain entry of the device `cn`.
fn first_plain_twin(devices: &Vec<Device>, ix: &Vec<usize>, cn: &String) -> (r: Option<usize>)
    requires
        forall|j: int| 0 <= j < ix@.len() ==> ix@[j] < devices@.len(),
    ensures
        r == first_plain_twin_at(devices_view(devices@), cn@, ix@),
        r matches Some(p) ==> p < devices@.len(),
{
    let ghost dv = devices_view(devices@);
    assert(ix@.subrange(0, ix@.len() as int) =~= ix@);
    let mut j: usize = 0;
    while j < ix.len()
        invariant
            j <= ix@.len(),
            dv == devices_view(devices@),
            forall|q: int| 0 <= q < ix@.len() ==> ix@[q] < devices@.len(),
            first_plain_twin_at(dv, cn@, ix@) == first_plain_twin_at(
                dv,
                cn@,
                ix@.subrange(j as int, ix@.len() as int),
            ),
        decreases ix@.len() - j,
    {
        let ghost rest = ix@.subrange(j as int, ix@.len() as int);
        assert(rest[0] == ix@[j as int]);
        assert(rest.drop_first() =~= ix@.subrange(j + 1, ix@.len() as int));
        let d = &devices[ix[j]];
        assert(dv[ix@[j as int] as int] == d@);
        if is_listed_as(d, cn) && !d.is_bluetooth && !d.is_wireless_24g {
            return Some(ix[j]);
        }
        j = j + 1;
    }
    assert(ix@.subrange(j as int, ix@.len() as int) =~= Seq::<usize>::empty());
    None
}

/// The first listed position that holds an entry of the device `cn` with tag `tag`.
fn first_same_tag_twin(devices: &Vec<Device>, ix: &Vec<usize>, cn: &String, tag: &str) -> (r:
    Option<usize>)
    requires
        forall|j: int| 0 <= j < ix@.len() ==> ix@[j] < devices@.len(),
    ensures
        r == first_same_tag_twin_at(devices_view(devices@), cn@, tag@, ix@),
        r matches Some(p) ==> p < devices@.len(),
{
    let ghost dv = devices_view(devices@);
    assert(ix@.subrange(0, ix@.len() as int) =~= ix@);
    let mut j: usize = 0;
    while j < ix.len()
        invariant
            j <= ix@.len(),
            dv == devices_view(devices@),
            forall|q: int| 0 <= q < ix@.len() ==> ix@[q] < devices@.len(),
            first_same_tag_twin_at(dv, cn@, tag@, ix@) == first_same_tag_twin_at(
                dv,
                cn@,
                tag@,
                ix@.subrange(j as int, ix@.len() as int),
            ),
        decreases ix@.len() - j,
    {
        let ghost rest = ix@.subrange(j as int, ix@.len() as int);
        assert(rest[0] == ix@[j as int]);
        assert(rest.drop_first() =~= ix@.subrange(j + 1, ix@.len() as int));
        let d = &devices[ix[j]];
        assert(dv[ix@[j as int] as int] == d@);
        let etag: &str = if d.is_bluetooth {
            "bt"
        } else if d.is_wireless_24g {
            "24g"
        } else {
            "usb"
        };
        if is_listed_as(d, cn) && str_eq(etag, tag) {
            return Some(ix[j]);
        }
        j = j + 1;
    }
    assert(ix@.subrange(j as int, ix@.len() as int) =~= Seq::<usize>::empty());
    None
}


proof fn lemma_positions_in_bounds(index: Map<Seq<char>, Seq<usize>>, cn: Seq<char>, n: nat)
    requires
        index_in_bounds(index, n),
    ensures
        forall|j: int|
            0 <= j < positions_of(index, cn).len() ==> #[trigger] positions_of(index, cn)[j] < n,
{
    assert forall|j: int|
        0 <= j < positions_of(index, cn).len() implies #[trigger] positions_of(index, cn)[j] < n by {
        assert(index[cn][j] < n);
    }
}

/// Drops the plain entry of the device `cn`, if one is listed under `cn`, and
/// rebuilds the index.
fn remove_plain_twin(devices: &mut Vec<Device>, cn_index: &mut CoreNameIndex, cn: &String)
    requires
        index_in_bounds(old(cn_index)@, old(devices)@.len()),
    ensures
        (devices_view(final(devices)@), final(cn_index)@) == after_plain_removal(
            devices_view(old(devices)@),
            old(cn_index)@,
            cn@,
        ),
        index_in_bounds(final(cn_index)@, final(devices)@.len()),
{
    let ghost dv0 = devices_view(devices@);
    proof {
        lemma_positions_in_bounds(cn_index@, cn@, devices@.len());
    }
    let pos = match cn_index.get(cn.as_str()) {
        Some(ix) => first_plain_twin(devices, ix, cn),
        None => None,
    };
    match pos {
        Some(p) => {
            devices.remove(p);
            assert(devices_view(devices@) =~= dv0.remove(p as int));
            rebuild_cn_index(cn_index, devices);
            assert(devices@.map_values(|d: Device| d@) =~= devices_view(devices@));
        },
        None => {},
    }
}

/// Refreshes the listed entry of the device `cn` and tag `tag` from a repeated
/// entry whose raw name is shorter.
fn refresh_twin(
    devices: &mut Vec<Device>,
    cn_index: &CoreNameIndex,
    cn: &String,
    tag: &str,
    name: &str,
    effective_name: &str,
    status: &str,
    device_id: Option<String>,
    is_bluetooth: bool,
    is_wireless_24g: bool,
)
    requires
        index_in_bounds(cn_index@, old(devices)@.len()),
    ensures
        devices_view(final(devices)@) == after_repeat(
            devices_view(old(devices)@),
            cn_index@,
            cn@,
            tag@,
            name@,
            effective_name@,
            status@,
            opt_string_view(device_id),
            is_bluetooth,
            is_wireless_24g,
        ),
        final(devices)@.len() == old(devices)@.len(),
{
    let ghost dv0 = devices_view(devices@);
    proof {
        lemma_positions_in_bounds(cn_index@, cn@, devices@.len());
    }
    let pos = match cn_index.get(cn.as_str()) {
        Some(ix) => first_same_tag_twin(devices, ix, cn, tag),
        None => None,
    };
    match pos {
        Some(p) => {
            if name.len() < devices[p].name.as_str().len() {
                let old_dev = &devices[p];
                assert(dv0[p as int] == old_dev@);
                let new_id = if old_dev.device_id.is_none() {
                    device_id
                } else {
                    copy_opt_string(&old_dev.device_id)
                };
                let new_dev = Device {
                    name: effective_name.to_owned(),
                    dt: old_dev.dt,
                    status: status.to_owned(),
                    battery: old_dev.battery,
                    device_id: new_id,
                    is_bluetooth: old_dev.is_bluetooth || is_bluetooth,
                    is_wireless_24g: old_dev.is_wireless_24g || is_wireless_24g,
                };
                assert(new_dev@ == refreshed_entry(
                    dv0[p as int],
                    effective_name@,
                    status@,
                    opt_string_view(device_id),
                    is_bluetooth,
                    is_wireless_24g,
                ));
                devices.set(p, new_dev);
                assert(devices_view(devices@) =~= dv0.update(p as int, new_dev@));
            }
        },
        None => {},
    }
}

/// Inserts one device entry into a list that is being de-duplicated.
///
/// With `dedup` on: a plain entry is dropped when an entry with a connection
/// type and the same core name is present; an entry with a connection type
/// replaces a plain entry of that name; an entry whose core name and
/// connection tag were seen before only refreshes the stored entry, and only
/// when its raw name is shorter. Otherwise the entry is appended.
pub fn try_insert(
    name: &str,
    display_name: Option<&str>,
    dt: DevType,
    status: &str,
    battery: Option<i32>,
    device_id: Option<String>,
    is_bluetooth: bool,
    is_wireless_24g: bool,
    dedup: bool,
    seen: &mut KeySet,
    devices: &mut Vec<Device>,
    cn_index: &mut CoreNameIndex,
)
    requires
        dedup ==> index_in_bounds(old(cn_index)@, old(devices)@.len()),
    ensures
        ({
            let s = spec_try_insert(
                name@,
                match display_name {
                    Some(d) => Some(d@),
                    None => None,
                },
                dt,
                status@,
                battery,
                opt_string_view(device_id),
                is_bluetooth,
                is_wireless_24g,
                dedup,
                DedupState {
                    seen: old(seen)@,
                    devices: devices_view(old(devices)@),
                    index: old(cn_index)@,
                },
            );
            &&& final(seen)@ == s.seen
            &&& devices_view(final(devices)@) == s.devices
            &&& final(cn_index)@ == s.index
        }),
        index_in_bounds(old(cn_index)@, old(devices)@.len()) ==> index_in_bounds(
            final(cn_index)@,
            final(devices)@.len(),
        ),
{
    let ghost dn = match display_name {
        Some(d) => Some(d@),
        None => None,
    };
    let ghost dv0 = devices_view(devices@);
    let effective_name: &str = match display_name {
        Some(d) => d,
        None => name,
    };
    let cn: String = match display_name {
        Some(d) => d.to_owned(),
        None => core_name(name),
    };
    assert(cn@ == entry_core_name(name@, dn));
    let has_conn_type = is_bluetooth || is_wireless_24g;
    if dedup && !has_conn_type {
        proof {
            lemma_positions_in_bounds(cn_index@, cn@, devices@.len());
        }
        let found = match cn_index.get(cn.as_str()) {
            Some(ix) => any_typed_twin(devices, ix, &cn),
            None => false,
        };
        if found {
            return ;
        }
    }
    assert(!skips_plain_entry(dedup, has_conn_type, dv0, cn_index@, cn@));
    if dedup && has_conn_type {
        remove_plain_twin(devices, cn_index, &cn);
    }
    let tag: &str = if is_bluetooth {
        "bt"
    } else if is_wireless_24g {
        "24g"
    } else {
        "usb"
    };
    let mut key = cn.clone();
    key.append(":");
    key.append(tag);
    if dedup && !seen.insert(key) {
        refresh_twin(
            devices,
            cn_index,
            &cn,
            tag,
            name,
            effective_name,
            status,
            device_id,
            is_bluetooth,
            is_wireless_24g,
        );
        return ;
    }
    let ghost devs1 = devices_view(devices@);
    let ghost index1 = cn_index@;
    let idx = devices.len();
    devices.push(
        Device {
            name: effective_name.to_owned(),
            dt,
            status: status.to_owned(),
            battery,
            device_id,
            is_bluetooth,
            is_wireless_24g,
        },
    );
    assert(devices_view(devices@) =~= devs1.push(devices@[idx as int]@));
    cn_index.push_position(cn, idx);
    proof {
        if index_in_bounds(index1, idx as nat) {
            lemma_index_in_bounds_grow(index1, idx as nat, devices@.len());
            lemma_map_push_bounds(index1, cn@, idx, devices@.len());
        }
    }
}

/// The keys of a plain entry and of a connection-typed entry of one name differ.
pub proof fn lemma_tag_keys_differ(cn: Seq<char>, is_bluetooth: bool, is_wireless_24g: bool)
    requires
        is_bluetooth || is_wireless_24g,
    ensures
        cn + ":"@ + conn_tag(is_bluetooth, is_wireless_24g) != cn + ":"@ + conn_tag(false, false),
{
    reveal_strlit(":");
    reveal_strlit("bt");
    reveal_strlit("24g");
    reveal_strlit("usb");
    let a = cn + ":"@ + conn_tag(is_bluetooth, is_wireless_24g);
    let b = cn + ":"@ + conn_tag(false, false);
    if a.len() == b.len() {
        assert(a[cn.len() + 1int] != b[cn.len() + 1int]);
    }
}

/// With de-duplication on, a device reported both as a plain entry and as
/// a Bluetooth or 2.4G entry whose names share their core name is listed
/// once, as the Bluetooth or 2.4G entry, in whichever order the two entries
/// arrive: from any state whose index holds nothing under that core name
/// and whose record of seen entries has not seen it, both orders append the
/// Bluetooth or 2.4G entry and nothing else.
pub proof fn law_typed_entry_wins(
    plain_name: Seq<char>,
    plain_dt: DevType,
    plain_status: Seq<char>,
    plain_battery: Option<i32>,
    plain_id: Option<Seq<char>>,
    typed_name: Seq<char>,
    typed_dt: DevType,
    typed_status: Seq<char>,
    typed_battery: Option<i32>,
    typed_id: Option<Seq<char>>,
    is_bluetooth: bool,
    is_wireless_24g: bool,
    st: DedupState,
)
    requires
        spec_core_name(plain_name) == spec_core_name(typed_name),
        is_bluetooth || is_wireless_24g,
        st.devices.len() < usize::MAX,
        !st.index.contains_key(spec_core_name(typed_name)),
        !st.seen.contains(spec_core_name(typed_name) + ":"@ + conn_tag(false, false)),
        !st.seen.contains(spec_core_name(typed_name) + ":"@ + conn_tag(is_bluetooth, is_wireless_24g)),
    ensures
        ({
            let typed = new_entry(typed_name, typed_dt, typed_status, typed_battery, typed_id, is_bluetooth, is_wireless_24g);
            let plain_first = spec_try_insert(
                typed_name, None, typed_dt, typed_status, typed_battery, typed_id, is_bluetooth, is_wireless_24g, true,
                spec_try_insert(plain_name, None, plain_dt, plain_status, plain_battery, plain_id, false, false, true, st),
            );
            let typed_first = spec_try_insert(
                plain_name, None, plain_dt, plain_status, plain_battery, plain_id, false, false, true,
                spec_try_insert(typed_name, None, typed_dt, typed_status, typed_battery, typed_id, is_bluetooth, is_wireless_24g, true, st),
            );
            &&& plain_first.devices == st.devices.push(typed)
            &&& typed_first.devices == st.devices.push(typed)
        }),
{
    let cn = spec_core_name(typed_name);
    let n = st.devices.len() as usize;
    let plain = new_entry(plain_name, plain_dt, plain_status, plain_battery, plain_id, false, false);
    let typed = new_entry(typed_name, typed_dt, typed_status, typed_battery, typed_id, is_bluetooth, is_wireless_24g);
    let ix = map_push(st.index, cn, n);
    assert(ix[cn] =~= seq![n]);
    assert(positions_of(st.index, cn) =~= Seq::<usize>::empty());
    lemma_tag_keys_differ(cn, is_bluetooth, is_wireless_24g);

    let p1 = spec_try_insert(plain_name, None, plain_dt, plain_status, plain_battery, plain_id, false, false, true, st);
    assert(!skips_plain_entry(true, false, st.devices, st.index, cn));
    assert(p1.devices == st.devices.push(plain));
    assert(p1.index == ix);
    assert(positions_of(p1.index, cn) =~= seq![n]);
    assert(is_plain_twin(p1.devices[n as int], cn));
    assert(first_plain_twin_at(p1.devices, cn, seq![n]) == Some(n));
    assert(p1.devices.remove(n as int) =~= st.devices);
    let p2 = spec_try_insert(typed_name, None, typed_dt, typed_status, typed_battery, typed_id, is_bluetooth, is_wireless_24g, true, p1);
    assert(p2.devices == st.devices.push(typed));

    assert(first_plain_twin_at(st.devices, cn, positions_of(st.index, cn)) is None);
    let t1 = spec_try_insert(typed_name, None, typed_dt, typed_status, typed_battery, typed_id, is_bluetooth, is_wireless_24g, true, st);
    assert(t1.devices == st.devices.push(typed));
    assert(t1.index == ix);
    assert(positions_of(t1.index, cn) =~= seq![n]);
    assert(is_typed_twin(t1.devices[positions_of(t1.index, cn)[0] as int], cn));
    assert(skips_plain_entry(true, false, t1.devices, t1.index, cn));
}

/// Each position that the index of a list stores under a key is a position
/// of the list whose entry has that key as its core name.
pub proof fn lemma_index_of_positions(devs: Seq<DeviceView>)
    requires
        devs.len() <= usize::MAX,
    ensures
        forall|k: Seq<char>, j: int|
            #![trigger spec_index_of(devs)[k][j]]
            spec_index_of(devs).contains_key(k) && 0 <= j < spec_index_of(devs)[k].len() ==> {
                &&& spec_index_of(devs)[k][j] < devs.len()
                &&& spec_core_name(devs[spec_index_of(devs)[k][j] as int].name) == k
            },
    decreases devs.len(),
{
    if devs.len() > 0 {
        let prev = devs.drop_last();
        lemma_index_of_positions(prev);
        let m = spec_index_of(prev);
        let c = spec_core_name(devs.last().name);
        let v = (devs.len() - 1) as usize;
        assert forall|k: Seq<char>, j: int|
            spec_index_of(devs).contains_key(k) && 0 <= j < spec_index_of(devs)[k].len() implies {
                &&& #[trigger] spec_index_of(devs)[k][j] < devs.len()
                &&& spec_core_name(devs[spec_index_of(devs)[k][j] as int].name) == k
            } by {
            if k == c && m.contains_key(c) && j < m[c].len() {
                assert(spec_index_of(devs)[k][j] == m[k][j]);
                assert(devs[m[k][j] as int] == prev[m[k][j] as int]);
            } else if k != c {
                assert(spec_index_of(devs)[k][j] == m[k][j]);
                assert(devs[m[k][j] as int] == prev[m[k][j] as int]);
            } else {
                assert(spec_index_of(devs)[k][j] == v);
            }
        }
    }
}

/// Replacing an entry by one of the same core name leaves the index of the list unchanged.
pub proof fn lemma_index_of_update(devs: Seq<DeviceView>, p: int, e: DeviceView)
    requires
        0 <= p < devs.len(),
        spec_core_name(e.name) == spec_core_name(devs[p].name),
    ensures
        spec_index_of(devs.update(p, e)) == spec_index_of(devs),
    decreases devs.len(),
{
    let u = devs.update(p, e);
    if p == devs.len() - 1 {
        assert(u.drop_last() =~= devs.drop_last());
    } else {
        assert(u.drop_last() =~= devs.drop_last().update(p, e));
        lemma_index_of_update(devs.drop_last(), p, e);
    }
}

/// The index that [`rebuild_cn_index`] builds stays exact through every
/// insertion: whichever way an entry is handled (dropped, displacing a plain
/// entry, refreshing a listed entry or appended), the index afterwards holds
/// each position of the list under its entry's core name, provided a display
/// name that groups an entry is its own core name.
pub proof fn law_try_insert_keeps_index(
    name: Seq<char>,
    display_name: Option<Seq<char>>,
    dt: DevType,
    status: Seq<char>,
    battery: Option<i32>,
    device_id: Option<Seq<char>>,
    is_bluetooth: bool,
    is_wireless_24g: bool,
    dedup: bool,
    st: DedupState,
)
    requires
        st.index == spec_index_of(st.devices),
        display_name matches Some(d) ==> spec_core_name(d) == d,
        st.devices.len() < usize::MAX,
    ensures
        ({
            let s = spec_try_insert(
                name,
                display_name,
                dt,
                status,
                battery,
                device_id,
                is_bluetooth,
                is_wireless_24g,
                dedup,
                st,
            );
            s.index == spec_index_of(s.devices)
        }),
{
    let effective = match display_name {
        Some(d) => d,
        None => name,
    };
    let cn = entry_core_name(name, display_name);
    assert(spec_core_name(effective) == cn);
    let typed = is_bluetooth || is_wireless_24g;
    if !skips_plain_entry(dedup, typed, st.devices, st.index, cn) {
        let (devs, index) = if dedup && typed {
            after_plain_removal(st.devices, st.index, cn)
        } else {
            (st.devices, st.index)
        };
        if dedup && typed {
            lemma_first_plain_twin_in(st.devices, cn, positions_of(st.index, cn));
            if let Some(p) = first_plain_twin_at(st.devices, cn, positions_of(st.index, cn)) {
                lemma_index_of_positions(st.devices);
                let j = choose|j: int|
                    0 <= j < positions_of(st.index, cn).len() && positions_of(st.index, cn)[j] == p;
                assert(st.index[cn][j] == p);
            }
        }
        assert(index == spec_index_of(devs));
        assert(devs.len() <= st.devices.len());
        let tag = conn_tag(is_bluetooth, is_wireless_24g);
        let key = cn + ":"@ + tag;
        if dedup && st.seen.contains(key) {
            match first_same_tag_twin_at(devs, cn, tag, positions_of(index, cn)) {
                Some(p) => {
                    lemma_first_same_tag_twin_in(devs, cn, tag, positions_of(index, cn));
                    lemma_index_of_positions(devs);
                    let j = choose|j: int|
                        0 <= j < positions_of(index, cn).len() && positions_of(index, cn)[j] == p;
                    assert(index[cn][j] == p);
                    let e = refreshed_entry(
                        devs[p as int],
                        effective,
                        status,
                        device_id,
                        is_bluetooth,
                        is_wireless_24g,
                    );
                    lemma_index_of_update(devs, p as int, e);
                },
                None => {},
            }
        } else {
            let e = new_entry(
                effective,
                dt,
                status,
                battery,
                device_id,
                is_bluetooth,
                is_wireless_24g,
            );
            assert(devs.push(e).drop_last() =~= devs);
        }
    }
}

/// A position that [`first_plain_twin_at`] finds is one of the positions it was given.
pub proof fn lemma_first_plain_twin_in(devs: Seq<DeviceView>, cn: Seq<char>, ix: Seq<usize>)
    ensures
        first_plain_twin_at(devs, cn, ix) matches Some(p) ==> exists|j: int|
            0 <= j < ix.len() && ix[j] == p,
    decreases ix.len(),
{
    if ix.len() > 0 && !is_plain_twin(devs[ix[0] as int], cn) {
        lemma_first_plain_twin_in(devs, cn, ix.drop_first());
        if let Some(p) = first_plain_twin_at(devs, cn, ix) {
            let j = choose|j: int| 0 <= j < ix.drop_first().len() && ix.drop_first()[j] == p;
            assert(ix[j + 1] == p);
        }
    } else if ix.len() > 0 {
        assert(ix[0] == ix[0]);
    }
}

/// A position that [`first_same_tag_twin_at`] finds is one of the positions it was given.
pub proof fn lemma_first_same_tag_twin_in(
    devs: Seq<DeviceView>,
    cn: Seq<char>,
    tag: Seq<char>,
    ix: Seq<usize>,
)
    ensures
        first_same_tag_twin_at(devs, cn, tag, ix) matches Some(p) ==> exists|j: int|
            0 <= j < ix.len() && ix[j] == p,
    decreases ix.len(),
{
    if ix.len() > 0 && !is_same_tag_twin(devs[ix[0] as int], cn, tag) {
        lemma_first_same_tag_twin_in(devs, cn, tag, ix.drop_first());
        if let Some(p) = first_same_tag_twin_at(devs, cn, tag, ix) {
            let j = choose|j: int| 0 <= j < ix.drop_first().len() && ix.drop_first()[j] == p;
            assert(ix[j + 1] == p);
        }
    } else if ix.len() > 0 {
        assert(ix[0] == ix[0]);
    }
}

} // verus!
