//! Sorting of devices into display groups by PnP class, PnP id and name
//! keywords.

use vstd::prelude::*;
use vstd::string::StringSliceAdditionalSpecFns;
use crate::device::DevType;
use crate::device_data::{
    DeviceDataTable, extract_vid_pid, get_device_type, is_wireless_24g, spec_extract_vid_pid,
    vid_pid_readable,
};
use crate::text::{
    eq_ignore_ascii_case, seq_contains, seq_eq_ignore_ascii_case, seq_starts_with,
    spec_to_lowercase, str_contains, str_eq, str_starts_with, to_lowercase,
};

verus! {

/// Name fragments that mark an audio device.
pub open spec fn audio_keywords() -> Seq<Seq<char>> {
    seq![
        "headphone"@,
        "headset"@,
        "earphone"@,
        "earbuds"@,
        "speaker"@,
        "耳机"@,
        "音箱"@,
        "扬声器"@,
        "音响"@,
        "airpods"@,
        "hifi"@,
        "dac"@,
        "amp"@,
        "glasses"@,
        "眼镜"@,
    ]
}

/// Name fragments that mark an input device or peripheral brand.
pub open spec fn usb_keywords() -> Seq<Seq<char>> {
    seq![
        "mouse"@,
        "keyboard"@,
        "controller"@,
        "gamepad"@,
        "鼠标"@,
        "键盘"@,
        "手柄"@,
        "xbox"@,
        "webcam"@,
        "logitech"@,
        "razer"@,
        "corsair"@,
        "keychron"@,
        "orochi"@,
        "deathadder"@,
        "viper"@,
        "gpro"@,
        "g pro"@,
        "basilisk"@,
        "naga"@,
        "blackwidow"@,
        "hunters"@,
        "kaira"@,
        "steelseries"@,
        "hyperx"@,
        "coolermaster"@,
        "roccat"@,
        "zte"@,
        "雷蛇"@,
        "罗技"@,
    ]
}

/// Some keyword of `kws` occurs in `s`.
pub open spec fn contains_any(s: Seq<char>, kws: Seq<Seq<char>>) -> bool {
    exists|i: int| 0 <= i < kws.len() && seq_contains(s, #[trigger] kws[i])
}

/// An already-lowercased name names an audio device.
pub open spec fn spec_is_audio(lower: Seq<char>) -> bool {
    contains_any(lower, audio_keywords())
}

/// The text searched for input-device keywords: the lowercased name, and
/// the lowercased caption after a space when there is a caption.
pub open spec fn usb_text(lower_name: Seq<char>, caption: Seq<char>) -> Seq<char> {
    if caption.len() == 0 {
        lower_name
    } else {
        lower_name + seq![' '] + spec_to_lowercase(caption)
    }
}

/// A lowercased name, with its caption, names an input device.
pub open spec fn spec_is_usb(lower_name: Seq<char>, caption: Seq<char>) -> bool {
    contains_any(usb_text(lower_name, caption), usb_keywords())
}

fn audio_keyword(k: usize) -> (s: &'static str)
    requires
        k < 15,
    ensures
        s@ == audio_keywords()[k as int],
{
    match k {
        0 => "headphone",
        1 => "headset",
        2 => "earphone",
        3 => "earbuds",
        4 => "speaker",
        5 => "耳机",
        6 => "音箱",
        7 => "扬声器",
        8 => "音响",
        9 => "airpods",
        10 => "hifi",
        11 => "dac",
        12 => "amp",
        13 => "glasses",
        _ => "眼镜",
    }
}

fn usb_keyword(k: usize) -> (s: &'static str)
    requires
        k < 30,
    ensures
        s@ == usb_keywords()[k as int],
{
    match k {
        0 => "mouse",
        1 => "keyboard",
        2 => "controller",
        3 => "gamepad",
        4 => "鼠标",
        5 => "键盘",
        6 => "手柄",
        7 => "xbox",
        8 => "webcam",
        9 => "logitech",
        10 => "razer",
        11 => "corsair",
        12 => "keychron",
        13 => "orochi",
        14 => "deathadder",
        15 => "viper",
        16 => "gpro",
        17 => "g pro",
        18 => "basilisk",
        19 => "naga",
        20 => "blackwidow",
        21 => "hunters",
        22 => "kaira",
        23 => "steelseries",
        24 => "hyperx",
        25 => "coolermaster",
        26 => "roccat",
        27 => "zte",
        28 => "雷蛇",
        _ => "罗技",
    }
}

/// Whether an already-lowercased name names an audio device.
pub fn is_audio(lower: &str) -> (r: bool)
    ensures
        r == spec_is_audio(lower@),
{
    assert(audio_keywords().len() == 15);
    let mut k: usize = 0;
    while k < 15
        invariant
            k <= 15,
            audio_keywords().len() == 15,
            forall|j: int| 0 <= j < k ==> !seq_contains(lower@, #[trigger] audio_keywords()[j]),
        decreases 15 - k,
    {
        if str_contains(lower, audio_keyword(k)) {
            return true;
        }
        k = k + 1;
    }
    false
}

/// Whether a lowercased name, with its caption, names an input device.
pub fn is_usb(lower_name: &str, caption: &str) -> (r: bool)
    ensures
        r == spec_is_usb(lower_name@, caption@),
{
    let combined: String = if caption.is_empty() {
        lower_name.to_owned()
    } else {
        let mut s = lower_name.to_owned();
        s.append(" ");
        proof {
            reveal_strlit(" ");
        }
        let lc = to_lowercase(caption);
        s.append(lc.as_str());
        s
    };
    assert(combined@ =~= usb_text(lower_name@, caption@));
    assert(usb_keywords().len() == 30);
    let mut k: usize = 0;
    while k < 30
        invariant
            k <= 30,
            usb_keywords().len() == 30,
            combined@ == usb_text(lower_name@, caption@),
            forall|j: int| 0 <= j < k ==> !seq_contains(combined@, #[trigger] usb_keywords()[j]),
        decreases 30 - k,
    {
        if str_contains(combined.as_str(), usb_keyword(k)) {
            assert(seq_contains(usb_text(lower_name@, caption@), usb_keywords()[k as int]));
            return true;
        }
        k = k + 1;
    }
    false
}

/// The PnP id carries the ids of a known 2.4G receiver.
pub open spec fn spec_wireless_by_vid_pid(pnp_id: Seq<char>, table: Map<
    (Seq<char>, Seq<char>),
    crate::device_data::DeviceInfoView,
>) -> bool {
    match spec_extract_vid_pid(pnp_id) {
        Some((v, p)) => table.contains_key((v, p)),
        None => false,
    }
}

/// Whether the PnP id carries the ids of a known 2.4G receiver.
pub fn is_wireless_24g_by_vid_pid(pnp_id: &str, data: &DeviceDataTable) -> (r: bool)
    requires
        vid_pid_readable(pnp_id@),
    ensures
        r == spec_wireless_by_vid_pid(pnp_id@, data@),
{
    match extract_vid_pid(pnp_id) {
        Some((vid, pid)) => is_wireless_24g(data, vid.as_str(), pid.as_str()),
        None => false,
    }
}

/// The group of a known 2.4G receiver of the given type.
pub open spec fn receiver_group(t: Seq<char>) -> DevType {
    if t == "mouse"@ || t == "keyboard"@ {
        DevType::Usb
    } else if t == "audio"@ {
        DevType::Audio
    } else {
        DevType::Other
    }
}

/// The group of a device found by the PnP query.
pub open spec fn spec_classify_device(
    name: Seq<char>,
    pnp_class: Seq<char>,
    pnp_id: Seq<char>,
    caption: Seq<char>,
    table: Map<(Seq<char>, Seq<char>), crate::device_data::DeviceInfoView>,
) -> DevType {
    let lower = spec_to_lowercase(name + seq![' '] + caption);
    let usb_prefix = seq_starts_with(pnp_id, "USB\\"@);
    let bt_like = seq_eq_ignore_ascii_case(pnp_class, "Bluetooth"@) || seq_starts_with(
        pnp_id,
        "BTHENUM\\"@,
    ) || seq_starts_with(pnp_id, "SWD\\"@);
    if usb_prefix && spec_wireless_by_vid_pid(pnp_id, table) {
        match spec_extract_vid_pid(pnp_id) {
            Some((v, p)) => receiver_group(
                if table.contains_key((v, p)) {
                    table[(v, p)].device_type
                } else {
                    "other"@
                },
            ),
            None => DevType::Other,
        }
    } else if seq_eq_ignore_ascii_case(pnp_class, "AudioEndpoint"@) || seq_eq_ignore_ascii_case(
        pnp_class,
        "MEDIA"@,
    ) {
        DevType::Audio
    } else if seq_eq_ignore_ascii_case(pnp_class, "Keyboard"@) || seq_eq_ignore_ascii_case(
        pnp_class,
        "Mouse"@,
    ) {
        DevType::Usb
    } else if seq_eq_ignore_ascii_case(pnp_class, "Monitor"@) {
        DevType::Monitor
    } else if bt_like || seq_eq_ignore_ascii_case(pnp_class, "HIDClass"@) {
        if spec_is_audio(lower) {
            DevType::Audio
        } else if spec_is_usb(lower, caption) {
            DevType::Usb
        } else {
            DevType::Other
        }
    } else if usb_prefix && spec_is_usb(lower, caption) {
        DevType::Usb
    } else {
        DevType::Other
    }
}

/// The group of a device found by the PnP query, from its name, PnP class,
/// PnP id and caption; a known 2.4G receiver is grouped by its recorded type.
pub fn classify_device(
    name: &str,
    pnp_class: &str,
    pnp_id: &str,
    caption: &str,
    data: &DeviceDataTable,
) -> (r: DevType)
    requires
        seq_starts_with(pnp_id@, "USB\\"@) ==> vid_pid_readable(pnp_id@),
    ensures
        r == spec_classify_device(name@, pnp_class@, pnp_id@, caption@, data@),
{
    let mut combined = name.to_owned();
    combined.append(" ");
    combined.append(caption);
    proof {
        reveal_strlit(" ");
    }
    assert(combined@ =~= name@ + seq![' '] + caption@);
    let lower_combined = to_lowercase(combined.as_str());
    let usb_prefix = str_starts_with(pnp_id, "USB\\");
    if usb_prefix && is_wireless_24g_by_vid_pid(pnp_id, data) {
        match extract_vid_pid(pnp_id) {
            Some((vid, pid)) => {
                let dev_type = get_device_type(data, vid.as_str(), pid.as_str());
                let t = dev_type.as_str();
                if str_eq(t, "mouse") || str_eq(t, "keyboard") {
                    return DevType::Usb;
                } else if str_eq(t, "audio") {
                    return DevType::Audio;
                } else {
                    return DevType::Other;
                }
            },
            None => {
                return DevType::Other;
            },
        }
    }
    if eq_ignore_ascii_case(pnp_class, "AudioEndpoint") || eq_ignore_ascii_case(pnp_class, "MEDIA") {
        return DevType::Audio;
    }
    if eq_ignore_ascii_case(pnp_class, "Keyboard") || eq_ignore_ascii_case(pnp_class, "Mouse") {
        return DevType::Usb;
    }
    if eq_ignore_ascii_case(pnp_class, "Monitor") {
        return DevType::Monitor;
    }
    let bt_like = eq_ignore_ascii_case(pnp_class, "Bluetooth") || str_starts_with(
        pnp_id,
        "BTHENUM\\",
    ) || str_starts_with(pnp_id, "SWD\\");
    if bt_like || eq_ignore_ascii_case(pnp_class, "HIDClass") {
        if is_audio(lower_combined.as_str()) {
            return DevType::Audio;
        }
        if is_usb(lower_combined.as_str(), caption) {
            return DevType::Usb;
        }
        return DevType::Other;
    }
    if usb_prefix && is_usb(lower_combined.as_str(), caption) {
        return DevType::Usb;
    }
    DevType::Other
}

/// The name is the address-only name that Windows gives an unnamed BLE
/// device: "Bluetooth " then an address, 27 bytes with ':' at byte 12.
pub open spec fn is_address_only_name(name: Seq<char>) -> bool {
    &&& seq_starts_with(name, "Bluetooth "@)
    &&& vstd::utf8::encode_utf8(name).len() == 27
    &&& vstd::utf8::encode_utf8(name)[12] == 58u8
}

/// The group of a paired Bluetooth device, or none for an address-only name
/// when such devices are not to be shown.
pub open spec fn spec_classify_bluetooth(name: Seq<char>, show_unnamed_bt: bool) -> Option<DevType> {
    if is_address_only_name(name) {
        if show_unnamed_bt {
            Some(DevType::Other)
        } else {
            None
        }
    } else {
        let lower = spec_to_lowercase(name);
        if spec_is_audio(lower) {
            Some(DevType::Audio)
        } else if spec_is_usb(lower, Seq::empty()) {
            Some(DevType::Usb)
        } else {
            Some(DevType::Other)
        }
    }
}

/// The group of a paired Bluetooth device; `show_unnamed_bt` is the
/// setting that shows devices known only by their address.
pub fn classify_bluetooth(name: &str, show_unnamed_bt: bool) -> (r: Option<DevType>)
    ensures
        r == spec_classify_bluetooth(name@, show_unnamed_bt),
{
    if str_starts_with(name, "Bluetooth ") && name.len() == 27 && name.as_bytes()[12] == 58u8 {
        if show_unnamed_bt {
            return Some(DevType::Other);
        }
        return None;
    }
    let lower = to_lowercase(name);
    if is_audio(lower.as_str()) {
        return Some(DevType::Audio);
    }
    proof {
        reveal_strlit("");
    }
    if is_usb(lower.as_str(), "") {
        return Some(DevType::Usb);
    }
    Some(DevType::Other)
}

/// A device whose PnP id is the USB id of a known 2.4G receiver is grouped
/// by the type recorded for the receiver, whatever its name, class and
/// caption: a mouse or keyboard receiver as Usb, an audio receiver as Audio,
/// a receiver of any other type as Other.
pub proof fn law_receiver_grouped_by_recorded_type(
    name: Seq<char>,
    pnp_class: Seq<char>,
    pnp_id: Seq<char>,
    caption: Seq<char>,
    table: Map<(Seq<char>, Seq<char>), crate::device_data::DeviceInfoView>,
    vid: Seq<char>,
    pid: Seq<char>,
)
    requires
        seq_starts_with(pnp_id, "USB\\"@),
        spec_extract_vid_pid(pnp_id) == Some((vid, pid)),
        table.contains_key((vid, pid)),
    ensures
        table[(vid, pid)].device_type == "mouse"@ ==> spec_classify_device(
            name,
            pnp_class,
            pnp_id,
            caption,
            table,
        ) == DevType::Usb,
        table[(vid, pid)].device_type == "keyboard"@ ==> spec_classify_device(
            name,
            pnp_class,
            pnp_id,
            caption,
            table,
        ) == DevType::Usb,
        table[(vid, pid)].device_type == "audio"@ ==> spec_classify_device(
            name,
            pnp_class,
            pnp_id,
            caption,
            table,
        ) == DevType::Audio,
        table[(vid, pid)].device_type != "mouse"@ && table[(vid, pid)].device_type != "keyboard"@
            && table[(vid, pid)].device_type != "audio"@ ==> spec_classify_device(
            name,
            pnp_class,
            pnp_id,
            caption,
            table,
        ) == DevType::Other,
{
    reveal_strlit("mouse");
    reveal_strlit("keyboard");
    reveal_strlit("audio");
    assert("audio"@[0] != "mouse"@[0]);
}

/// A device that is no known receiver is grouped by its class first,
/// compared without regard to ASCII case: an audio endpoint or media device
/// as Audio, a keyboard or mouse as Usb, a monitor as Monitor.
pub proof fn law_device_grouped_by_class(
    name: Seq<char>,
    pnp_class: Seq<char>,
    pnp_id: Seq<char>,
    caption: Seq<char>,
    table: Map<(Seq<char>, Seq<char>), crate::device_data::DeviceInfoView>,
)
    requires
        !(seq_starts_with(pnp_id, "USB\\"@) && spec_wireless_by_vid_pid(pnp_id, table)),
    ensures
        ({
            let group = spec_classify_device(name, pnp_class, pnp_id, caption, table);
            &&& seq_eq_ignore_ascii_case(pnp_class, "AudioEndpoint"@) ==> group == DevType::Audio
            &&& seq_eq_ignore_ascii_case(pnp_class, "MEDIA"@) ==> group == DevType::Audio
            &&& seq_eq_ignore_ascii_case(pnp_class, "Keyboard"@) ==> group == DevType::Usb
            &&& seq_eq_ignore_ascii_case(pnp_class, "Mouse"@) ==> group == DevType::Usb
            &&& seq_eq_ignore_ascii_case(pnp_class, "Monitor"@) ==> group == DevType::Monitor
        }),
{
    reveal_strlit("AudioEndpoint");
    reveal_strlit("MEDIA");
    reveal_strlit("Keyboard");
    reveal_strlit("Mouse");
    reveal_strlit("Monitor");
    if seq_eq_ignore_ascii_case(pnp_class, "Mouse"@) {
        assert(crate::text::ascii_fold(pnp_class[1]) == crate::text::ascii_fold('o'));
    }
}

/// A device that is no known receiver and whose class is HID or Bluetooth
/// (or whose id is a Bluetooth or software id) is grouped by the keywords of
/// its lowercased name and caption: an audio keyword makes it Audio, even
/// beside an input-device or brand keyword; else an input-device or brand
/// keyword makes it Usb; else it is Other.
pub proof fn law_hid_device_grouped_by_keywords(
    name: Seq<char>,
    pnp_class: Seq<char>,
    pnp_id: Seq<char>,
    caption: Seq<char>,
    table: Map<(Seq<char>, Seq<char>), crate::device_data::DeviceInfoView>,
)
    requires
        !(seq_starts_with(pnp_id, "USB\\"@) && spec_wireless_by_vid_pid(pnp_id, table)),
        seq_eq_ignore_ascii_case(pnp_class, "HIDClass"@) || seq_eq_ignore_ascii_case(
            pnp_class,
            "Bluetooth"@,
        ),
    ensures
        ({
            let lower = spec_to_lowercase(name + seq![' '] + caption);
            let group = spec_classify_device(name, pnp_class, pnp_id, caption, table);
            &&& contains_any(lower, audio_keywords()) ==> group == DevType::Audio
            &&& !contains_any(lower, audio_keywords()) && contains_any(
                usb_text(lower, caption),
                usb_keywords(),
            ) ==> group == DevType::Usb
            &&& !contains_any(lower, audio_keywords()) && !contains_any(
                usb_text(lower, caption),
                usb_keywords(),
            ) ==> group == DevType::Other
        }),
{
    reveal_strlit("HIDClass");
    reveal_strlit("Bluetooth");
    reveal_strlit("AudioEndpoint");
    reveal_strlit("MEDIA");
    reveal_strlit("Keyboard");
    reveal_strlit("Mouse");
    reveal_strlit("Monitor");
    lemma_ascii_case_classes_differ(pnp_class);
}

/// A class that equals "HIDClass" or "Bluetooth" up to ASCII case equals
/// none of the classes that are grouped by class alone.
proof fn lemma_ascii_case_classes_differ(c: Seq<char>)
    requires
        seq_eq_ignore_ascii_case(c, "HIDClass"@) || seq_eq_ignore_ascii_case(c, "Bluetooth"@),
    ensures
        !seq_eq_ignore_ascii_case(c, "AudioEndpoint"@),
        !seq_eq_ignore_ascii_case(c, "MEDIA"@),
        !seq_eq_ignore_ascii_case(c, "Keyboard"@),
        !seq_eq_ignore_ascii_case(c, "Mouse"@),
        !seq_eq_ignore_ascii_case(c, "Monitor"@),
{
    reveal_strlit("HIDClass");
    reveal_strlit("Bluetooth");
    reveal_strlit("AudioEndpoint");
    reveal_strlit("MEDIA");
    reveal_strlit("Keyboard");
    reveal_strlit("Mouse");
    reveal_strlit("Monitor");
    if seq_eq_ignore_ascii_case(c, "HIDClass"@) {
        assert(crate::text::ascii_fold(c[0]) == crate::text::ascii_fold('H'));
    } else {
        assert(crate::text::ascii_fold(c[0]) == crate::text::ascii_fold('B'));
    }
}

/// A paired device known only by its address is shown, in the Other group,
/// exactly when unnamed devices are to be shown. Any other paired device is
/// grouped by the keywords of its lowercased name: an audio keyword makes it
/// Audio, even beside an input-device or brand keyword; else an input-device
/// or brand keyword makes it Usb; else it is Other.
pub proof fn law_bluetooth_grouped_by_keywords(name: Seq<char>, show_unnamed_bt: bool)
    ensures
        is_address_only_name(name) ==> spec_classify_bluetooth(name, show_unnamed_bt) == if show_unnamed_bt {
            Some(DevType::Other)
        } else {
            None
        },
        ({
            let lower = spec_to_lowercase(name);
            let group = spec_classify_bluetooth(name, show_unnamed_bt);
            &&& !is_address_only_name(name) && contains_any(lower, audio_keywords()) ==> group == Some(
                DevType::Audio,
            )
            &&& !is_address_only_name(name) && !contains_any(lower, audio_keywords()) && contains_any(
                lower,
                usb_keywords(),
            ) ==> group == Some(DevType::Usb)
            &&& !is_address_only_name(name) && !contains_any(lower, audio_keywords()) && !contains_any(
                lower,
                usb_keywords(),
            ) ==> group == Some(DevType::Other)
        }),
{
}

/// The PnP id (uppercase) is a Bluetooth service or profile entry.
pub open spec fn spec_is_bt_service(u: Seq<char>) -> bool {
    seq_starts_with(u, "BTHLEDEVICE\\{"@) || seq_starts_with(u, "BTHENUM\\{"@)
}

/// Whether the uppercase PnP id is a Bluetooth service or profile entry.
pub fn is_bt_service(pnp_id_upper: &str) -> (r: bool)
    ensures
        r == spec_is_bt_service(pnp_id_upper@),
{
    str_starts_with(pnp_id_upper, "BTHLEDEVICE\\{") || str_starts_with(pnp_id_upper, "BTHENUM\\{")
}

/// The uppercase PnP id is one interface of a composite HID device, a USB
/// HID device that is no known receiver, or a Bluetooth HID service.
pub open spec fn spec_is_generic_hid(
    u: Seq<char>,
    table: Map<(Seq<char>, Seq<char>), crate::device_data::DeviceInfoView>,
) -> bool {
    if seq_contains(u, "&COL"@) {
        true
    } else if seq_starts_with(u, "USB\\"@) {
        !spec_wireless_by_vid_pid(u, table)
    } else {
        spec_is_bt_service(u)
    }
}

/// Whether the uppercase PnP id of a HID device is to be skipped as generic.
pub fn is_generic_hid(pnp_id_upper: &str, data: &DeviceDataTable) -> (r: bool)
    requires
        !seq_contains(pnp_id_upper@, "&COL"@) && seq_starts_with(pnp_id_upper@, "USB\\"@)
            ==> vid_pid_readable(pnp_id_upper@),
    ensures
        r == spec_is_generic_hid(pnp_id_upper@, data@),
{
    if str_contains(pnp_id_upper, "&COL") {
        return true;
    }
    if str_starts_with(pnp_id_upper, "USB\\") {
        return !is_wireless_24g_by_vid_pid(pnp_id_upper, data);
    }
    if str_starts_with(pnp_id_upper, "BTHLEDEVICE\\{") || str_starts_with(
        pnp_id_upper,
        "BTHENUM\\{",
    ) {
        return true;
    }
    false
}

/// Whether the uppercase PnP id is a system Bluetooth enumerator.
pub fn is_system_device(pnp_id_upper: &str) -> (r: bool)
    ensures
        r == seq_starts_with(pnp_id_upper@, "BTH\\MS_"@),
{
    str_starts_with(pnp_id_upper, "BTH\\MS_")
}

} // verus!
