//! The tray: the tooltip that lists the chosen devices, the auto-start menu
//! label, and the entries of the audio-device menu.

use vstd::prelude::*;
use crate::collections::StringMap;
use crate::config::{contains_string, strings_view};
use crate::device::{Device, DeviceView, devices_view};
use crate::fmt::{signed_decimal, spec_signed_decimal};
use crate::text::{chars_of, starts_with, str_eq, string_from_range};

verus! {

/// The first device in the list with the given name.
pub open spec fn first_device_named(devs: Seq<DeviceView>, name: Seq<char>) -> Option<int>
    decreases devs.len(),
{
    if devs.len() == 0 {
        None
    } else if devs[0].name == name {
        Some(0)
    } else {
        match first_device_named(devs.drop_first(), name) {
            Some(i) => Some(i + 1),
            None => None,
        }
    }
}

/// The name a device is shown under: its display name, if the user gave one.
pub open spec fn shown_name(names: Map<Seq<char>, Seq<char>>, name: Seq<char>) -> Seq<char> {
    if names.contains_key(name) {
        names[name]
    } else {
        name
    }
}

/// One tooltip line: a green dot for a connected device, a white one
/// otherwise, the shown name, and the battery level when known.
pub open spec fn tooltip_line(d: DeviceView, names: Map<Seq<char>, Seq<char>>) -> Seq<char> {
    let dot = if d.status == "已连接"@ {
        "🟢"@
    } else {
        "⚪"@
    };
    match d.battery {
        Some(b) => dot + " "@ + shown_name(names, d.name) + " - "@ + spec_signed_decimal(b as int)
            + "%"@,
        None => dot + " "@ + shown_name(names, d.name),
    }
}

/// The tooltip lines for the chosen devices that are listed, in the order
/// in which they were chosen.
pub open spec fn tooltip_lines(
    tray: Seq<Seq<char>>,
    devs: Seq<DeviceView>,
    names: Map<Seq<char>, Seq<char>>,
) -> Seq<Seq<char>>
    decreases tray.len(),
{
    if tray.len() == 0 {
        Seq::empty()
    } else {
        let rest = tooltip_lines(tray.drop_last(), devs, names);
        match first_device_named(devs, tray.last()) {
            Some(i) => rest.push(tooltip_line(devs[i], names)),
            None => rest,
        }
    }
}

/// Lines joined by newlines.
pub open spec fn join_lines(ls: Seq<Seq<char>>) -> Seq<char>
    decreases ls.len(),
{
    if ls.len() == 0 {
        Seq::empty()
    } else if ls.len() == 1 {
        ls[0]
    } else {
        join_lines(ls.drop_last()) + seq!['\n'] + ls.last()
    }
}

/// The tray tooltip: the lines of the chosen devices, or the application
/// name when none of them is listed.
pub open spec fn spec_build_tooltip_text(
    tray: Seq<Seq<char>>,
    devs: Seq<DeviceView>,
    names: Map<Seq<char>, Seq<char>>,
) -> Seq<char> {
    let lines = tooltip_lines(tray, devs, names);
    if lines.len() == 0 {
        "外设监控"@
    } else {
        join_lines(lines)
    }
}

/// Every tooltip line starts with a status dot and a space, then shows the
/// device under the display name the user gave it, or under its own name
/// when it has none, whether or not the device has a battery level; the
/// battery level only adds " - N%" after the name.
pub proof fn law_tooltip_line_shows_display_name(d: DeviceView, names: Map<Seq<char>, Seq<char>>)
    ensures
        names.contains_key(d.name) ==> tooltip_line(d, names).subrange(
            2,
            2 + names[d.name].len() as int,
        ) == names[d.name],
        !names.contains_key(d.name) ==> tooltip_line(d, names).subrange(2, 2 + d.name.len() as int)
            == d.name,
        d.battery matches Some(b) ==> tooltip_line(d, names) == tooltip_line(
            DeviceView { battery: None, ..d },
            names,
        ) + " - "@ + spec_signed_decimal(b as int) + "%"@,
        d.status == "已连接"@ ==> tooltip_line(d, names)[0] == '🟢',
        d.status != "已连接"@ ==> tooltip_line(d, names)[0] == '⚪',
        tooltip_line(d, names)[1] == ' ',
{
    reveal_strlit("🟢");
    reveal_strlit("⚪");
    reveal_strlit(" ");
    let shown = if names.contains_key(d.name) {
        names[d.name]
    } else {
        d.name
    };
    let dot = if d.status == "已连接"@ {
        "🟢"@
    } else {
        "⚪"@
    };
    let head = dot + " "@ + shown;
    assert(head.subrange(2, 2 + shown.len() as int) =~= shown);
    match d.battery {
        Some(b) => {
            let line = head + " - "@ + spec_signed_decimal(b as int) + "%"@;
            assert(line.subrange(2, 2 + shown.len() as int) =~= head.subrange(2, 2 + shown.len() as int));
        },
        None => {},
    }
}

/// The tooltip has at most one line per chosen device.
pub proof fn law_tooltip_lines_bounded(
    tray: Seq<Seq<char>>,
    devs: Seq<DeviceView>,
    names: Map<Seq<char>, Seq<char>>,
)
    ensures
        tooltip_lines(tray, devs, names).len() <= tray.len(),
    decreases tray.len(),
{
    if tray.len() > 0 {
        law_tooltip_lines_bounded(tray.drop_last(), devs, names);
    }
}

fn find_device_named(devices: &Vec<Device>, name: &str) -> (r: Option<usize>)
    ensures
        match r {
            Some(i) => first_device_named(devices_view(devices@), name@) == Some(i as int) && i
                < devices@.len(),
            None => first_device_named(devices_view(devices@), name@) is None,
        },
{
    let ghost dv = devices_view(devices@);
    let mut i: usize = 0;
    assert(dv.subrange(0, dv.len() as int) =~= dv);
    while i < devices.len()
        invariant
            i <= devices@.len(),
            dv == devices_view(devices@),
            first_device_named(dv, name@) == match first_device_named(
                dv.subrange(i as int, dv.len() as int),
                name@,
            ) {
                Some(k) => Some(k + i),
                None => None::<int>,
            },
        decreases devices@.len() - i,
    {
        let ghost rest = dv.subrange(i as int, dv.len() as int);
        assert(rest[0] == devices@[i as int]@);
        if str_eq(devices[i].name.as_str(), name) {
            return Some(i);
        }
        assert(rest.drop_first() =~= dv.subrange(i + 1, dv.len() as int));
        i = i + 1;
    }
    assert(dv.subrange(i as int, dv.len() as int) =~= Seq::<DeviceView>::empty());
    None
}

fn tooltip_line_of(d: &Device, names: &StringMap) -> (r: String)
    ensures
        r@ == tooltip_line(d@, names@),
{
    let mut s: String = if str_eq(d.status.as_str(), "已连接") {
        "🟢".to_owned()
    } else {
        "⚪".to_owned()
    };
    s.append(" ");
    match names.get(d.name.as_str()) {
        Some(n) => s.append(n.as_str()),
        None => s.append(d.name.as_str()),
    }
    match d.battery {
        Some(b) => {
            s.append(" - ");
            let dec = signed_decimal(b as i64);
            s.append(dec.as_str());
            s.append("%");
        },
        None => {},
    }
    s
}

/// The tray tooltip for the chosen devices `tray_devices`, read from the
/// listed `devices`, with the user's display names.
pub fn build_tooltip_text(
    tray_devices: &Vec<String>,
    device_names: &StringMap,
    devices: &Vec<Device>,
) -> (r: String)
    ensures
        r@ == spec_build_tooltip_text(
            strings_view(tray_devices@),
            devices_view(devices@),
            device_names@,
        ),
{
    let ghost tray = strings_view(tray_devices@);
    let ghost dv = devices_view(devices@);
    let mut text = String::new();
    let mut count: usize = 0;
    let mut k: usize = 0;
    while k < tray_devices.len()
        invariant
            k <= tray_devices@.len(),
            tray == strings_view(tray_devices@),
            dv == devices_view(devices@),
            count as nat == tooltip_lines(tray.subrange(0, k as int), dv, device_names@).len(),
            count <= k,
            text@ == join_lines(tooltip_lines(tray.subrange(0, k as int), dv, device_names@)),
        decreases tray_devices@.len() - k,
    {
        let ghost before = tooltip_lines(tray.subrange(0, k as int), dv, device_names@);
        assert(tray.subrange(0, k + 1).drop_last() =~= tray.subrange(0, k as int));
        assert(tray.subrange(0, k + 1).last() == tray_devices@[k as int]@);
        match find_device_named(devices, tray_devices[k].as_str()) {
            Some(i) => {
                let line = tooltip_line_of(&devices[i], device_names);
                assert(dv[i as int] == devices@[i as int]@);
                if count > 0 {
                    text.push('\n');
                }
                text.append(line.as_str());
                let ghost after = before.push(line@);
                assert(after.drop_last() =~= before);
                assert(text@ =~= join_lines(after));
                count = count + 1;
            },
            None => {},
        }
        k = k + 1;
    }
    assert(tray.subrange(0, tray_devices@.len() as int) =~= tray);
    if count == 0 {
        "外设监控".to_owned()
    } else {
        text
    }
}

/// The label of the auto-start menu item, with a check mark when auto-start is on.
pub fn auto_start_label(enabled: bool) -> (r: &'static str)
    ensures
        r@ == if enabled {
            "开机自启 ✓"@
        } else {
            "开机自启"@
        },
{
    if enabled {
        "开机自启 ✓"
    } else {
        "开机自启"
    }
}

/// An audio output device as the device menu needs it.
#[derive(Debug)]
pub struct AudioMenuDevice {
    pub id: String,
    pub name: String,
    pub is_default: bool,
}

/// One menu entry: its menu id and its label.
pub struct MenuEntryView {
    pub id: Seq<char>,
    pub label: Seq<char>,
    pub enabled: bool,
}

/// The menu entry of an audio output device.
pub open spec fn audio_entry(
    id: Seq<char>,
    name: Seq<char>,
    is_default: bool,
    names: Map<Seq<char>, Seq<char>>,
) -> MenuEntryView {
    MenuEntryView {
        id: "audio_dev_"@ + id,
        label: shown_name(names, name) + if is_default {
            " ✓"@
        } else {
            Seq::empty()
        },
        enabled: true,
    }
}

/// The entries of the audio-device menu for the devices `devs` (id, name,
/// default flag) not hidden by the user.
pub open spec fn audio_entries(
    devs: Seq<(Seq<char>, Seq<char>, bool)>,
    names: Map<Seq<char>, Seq<char>>,
    hidden: Seq<Seq<char>>,
) -> Seq<MenuEntryView>
    decreases devs.len(),
{
    if devs.len() == 0 {
        Seq::empty()
    } else {
        let rest = audio_entries(devs.drop_last(), names, hidden);
        let d = devs.last();
        if hidden.contains(d.1) {
            rest
        } else {
            rest.push(audio_entry(d.0, d.1, d.2, names))
        }
    }
}

/// The audio-device menu: one disabled entry when there is no device,
/// else an entry per device that is not hidden.
pub open spec fn spec_audio_menu_entries(
    devs: Seq<(Seq<char>, Seq<char>, bool)>,
    names: Map<Seq<char>, Seq<char>>,
    hidden: Seq<Seq<char>>,
) -> Seq<MenuEntryView> {
    if devs.len() == 0 {
        seq![MenuEntryView { id: "audio_dev_empty"@, label: "无音频设备"@, enabled: false }]
    } else {
        audio_entries(devs, names, hidden)
    }
}

/// A menu entry to build.
#[derive(Debug)]
pub struct MenuEntry {
    pub id: String,
    pub label: String,
    pub enabled: bool,
}

impl View for MenuEntry {
    type V = MenuEntryView;

    open spec fn view(&self) -> MenuEntryView {
        MenuEntryView { id: self.id@, label: self.label@, enabled: self.enabled }
    }
}

pub open spec fn audio_devices_view(v: Seq<AudioMenuDevice>) -> Seq<(Seq<char>, Seq<char>, bool)> {
    v.map_values(|d: AudioMenuDevice| (d.id@, d.name@, d.is_default))
}

/// The entries of the audio-device menu.
pub fn build_audio_devices_menu(
    devices: &Vec<AudioMenuDevice>,
    device_names: &StringMap,
    hidden_audio_devices: &Vec<String>,
) -> (r: Vec<MenuEntry>)
    ensures
        r@.map_values(|e: MenuEntry| e@) == spec_audio_menu_entries(
            audio_devices_view(devices@),
            device_names@,
            strings_view(hidden_audio_devices@),
        ),
{
    let mut r: Vec<MenuEntry> = Vec::new();
    if devices.len() == 0 {
        r.push(
            MenuEntry {
                id: "audio_dev_empty".to_owned(),
                label: "无音频设备".to_owned(),
                enabled: false,
            },
        );
        assert(r@.map_values(|e: MenuEntry| e@) =~= spec_audio_menu_entries(
            audio_devices_view(devices@),
            device_names@,
            strings_view(hidden_audio_devices@),
        ));
        return r;
    }
    let ghost dv = audio_devices_view(devices@);
    let ghost hidden = strings_view(hidden_audio_devices@);
    let mut k: usize = 0;
    while k < devices.len()
        invariant
            k <= devices@.len(),
            dv == audio_devices_view(devices@),
            hidden == strings_view(hidden_audio_devices@),
            r@.map_values(|e: MenuEntry| e@) == audio_entries(
                dv.subrange(0, k as int),
                device_names@,
                hidden,
            ),
        decreases devices@.len() - k,
    {
        let d = &devices[k];
        assert(dv.subrange(0, k + 1).drop_last() =~= dv.subrange(0, k as int));
        assert(dv.subrange(0, k + 1).last() == (d.id@, d.name@, d.is_default));
        if !contains_string(hidden_audio_devices, d.name.as_str()) {
            let mut label: String = match device_names.get(d.name.as_str()) {
                Some(n) => n.clone(),
                None => d.name.clone(),
            };
            if d.is_default {
                label.append(" ✓");
            } else {
                proof {
                    reveal_strlit("");
                }
                assert(label@ =~= label@ + Seq::<char>::empty());
            }
            let mut id = "audio_dev_".to_owned();
            id.append(d.id.as_str());
            let ghost before = r@.map_values(|e: MenuEntry| e@);
            let entry = MenuEntry { id, label, enabled: true };
            assert(entry@ == audio_entry(d.id@, d.name@, d.is_default, device_names@));
            r.push(entry);
            assert(r@.map_values(|e: MenuEntry| e@) =~= before.push(entry@));
        }
        k = k + 1;
    }
    assert(dv.subrange(0, devices@.len() as int) =~= dv);
    r
}

/// The audio device that an audio-device menu id selects: the part after
/// "audio_dev_", when there is one.
pub open spec fn spec_audio_menu_target(id: Seq<char>) -> Option<Seq<char>> {
    let prefix = "audio_dev_"@;
    if crate::text::seq_starts_with(id, prefix) && id.len() > prefix.len() {
        Some(id.subrange(prefix.len() as int, id.len() as int))
    } else {
        None
    }
}

/// The audio device that a menu id selects.
pub fn audio_menu_target(id: &str) -> (r: Option<String>)
    ensures
        match r {
            Some(d) => spec_audio_menu_target(id@) == Some(d@),
            None => spec_audio_menu_target(id@) is None,
        },
{
    let chars = chars_of(id);
    let prefix = chars_of("audio_dev_");
    if starts_with(&chars, &prefix) && chars.len() > prefix.len() {
        Some(string_from_range(&chars, prefix.len(), chars.len()))
    } else {
        None
    }
}

/// What a click on a tray menu entry asks for.
pub enum TrayAction {
    ShowDevices,
    ShowVolume,
    OpenSettings,
    OpenAbout,
    ToggleAutoStart,
    Exit,
    /// Make this audio device the default output.
    SetDefaultDevice(String),
    /// Open this program with the system.
    OpenSystem(&'static str),
    /// Open this page of the classic sound control panel.
    SoundPanel(&'static str),
    /// Open this page of the Windows settings.
    SettingsPage(&'static str),
    Ignore,
}

/// The action of the menu entry with id `id`.
pub open spec fn is_menu_action(id: Seq<char>, r: TrayAction) -> bool {
    if id == "show"@ {
        r is ShowDevices
    } else if id == "volume"@ {
        r is ShowVolume
    } else if id == "settings"@ {
        r is OpenSettings
    } else if id == "about"@ {
        r is OpenAbout
    } else if id == "auto_start"@ {
        r is ToggleAutoStart
    } else if id == "exit"@ {
        r is Exit
    } else if spec_audio_menu_target(id) is Some {
        r matches TrayAction::SetDefaultDevice(d) && Some(d@) == spec_audio_menu_target(id)
    } else if id == "win_sound_volume_mixer"@ {
        r matches TrayAction::OpenSystem(p) && p@ == "sndvol.exe"@
    } else if id == "win_sound_playback"@ {
        r matches TrayAction::SoundPanel(p) && p@ == "playback"@
    } else if id == "win_sound_recording"@ {
        r matches TrayAction::SoundPanel(p) && p@ == "recording"@
    } else if id == "win_sound_sounds"@ {
        r matches TrayAction::SoundPanel(p) && p@ == "sounds"@
    } else if id == "win_sound_settings"@ {
        r matches TrayAction::SettingsPage(p) && p@ == "sound"@
    } else if id == "win_sound_app_volume"@ {
        r matches TrayAction::SettingsPage(p) && p@ == "apps-volume"@
    } else {
        r is Ignore
    }
}

/// The action of a click on the tray menu entry with id `id`.
pub fn menu_action(id: &str) -> (r: TrayAction)
    ensures
        is_menu_action(id@, r),
{
    if str_eq(id, "show") {
        return TrayAction::ShowDevices;
    }
    if str_eq(id, "volume") {
        return TrayAction::ShowVolume;
    }
    if str_eq(id, "settings") {
        return TrayAction::OpenSettings;
    }
    if str_eq(id, "about") {
        return TrayAction::OpenAbout;
    }
    if str_eq(id, "auto_start") {
        return TrayAction::ToggleAutoStart;
    }
    if str_eq(id, "exit") {
        return TrayAction::Exit;
    }
    if let Some(d) = audio_menu_target(id) {
        return TrayAction::SetDefaultDevice(d);
    }
    if str_eq(id, "win_sound_volume_mixer") {
        return TrayAction::OpenSystem("sndvol.exe");
    }
    if str_eq(id, "win_sound_playback") {
        return TrayAction::SoundPanel("playback");
    }
    if str_eq(id, "win_sound_recording") {
        return TrayAction::SoundPanel("recording");
    }
    if str_eq(id, "win_sound_sounds") {
        return TrayAction::SoundPanel("sounds");
    }
    if str_eq(id, "win_sound_settings") {
        return TrayAction::SettingsPage("sound");
    }
    if str_eq(id, "win_sound_app_volume") {
        return TrayAction::SettingsPage("apps-volume");
    }
    TrayAction::Ignore
}

/// The entries of the sound-settings menu, in menu order.
pub open spec fn spec_sound_settings_entries() -> Seq<MenuEntryView> {
    seq![
        MenuEntryView { id: "win_sound_volume_mixer"@, label: "音量合成器 (Classic)"@, enabled: true },
        MenuEntryView { id: "win_sound_playback"@, label: "播放设备 (Classic)"@, enabled: true },
        MenuEntryView { id: "win_sound_recording"@, label: "录制设备 (Classic)"@, enabled: true },
        MenuEntryView { id: "win_sound_sounds"@, label: "声音 (Classic)"@, enabled: true },
        MenuEntryView { id: "win_sound_settings"@, label: "声音设置"@, enabled: true },
        MenuEntryView { id: "win_sound_app_volume"@, label: "音量合成器"@, enabled: true },
    ]
}

fn entry(id: &str, label: &str) -> (r: MenuEntry)
    ensures
        r@ == (MenuEntryView { id: id@, label: label@, enabled: true }),
{
    MenuEntry { id: id.to_owned(), label: label.to_owned(), enabled: true }
}

/// The entries of the sound-settings menu.
pub fn build_windows_sound_settings_menu() -> (r: Vec<MenuEntry>)
    ensures
        r@.map_values(|e: MenuEntry| e@) == spec_sound_settings_entries(),
{
    let mut r: Vec<MenuEntry> = Vec::new();
    r.push(entry("win_sound_volume_mixer", "音量合成器 (Classic)"));
    r.push(entry("win_sound_playback", "播放设备 (Classic)"));
    r.push(entry("win_sound_recording", "录制设备 (Classic)"));
    r.push(entry("win_sound_sounds", "声音 (Classic)"));
    r.push(entry("win_sound_settings", "声音设置"));
    r.push(entry("win_sound_app_volume", "音量合成器"));
    assert(r@.map_values(|e: MenuEntry| e@) =~= spec_sound_settings_entries());
    r
}

/// One place of the tray's top-level menu.
pub enum MenuSlot {
    Entry(MenuEntry),
    Separator,
    /// The submenu of audio output devices.
    AudioDevices,
    /// The submenu of sound settings.
    SoundSettings,
}

/// The content of a [`MenuSlot`].
pub enum MenuSlotView {
    Entry(MenuEntryView),
    Separator,
    AudioDevices,
    SoundSettings,
}

impl View for MenuSlot {
    type V = MenuSlotView;

    open spec fn view(&self) -> MenuSlotView {
        match self {
            MenuSlot::Entry(e) => MenuSlotView::Entry(e@),
            MenuSlot::Separator => MenuSlotView::Separator,
            MenuSlot::AudioDevices => MenuSlotView::AudioDevices,
            MenuSlot::SoundSettings => MenuSlotView::SoundSettings,
        }
    }
}

/// An enabled entry of the top-level menu.
pub open spec fn item(id: Seq<char>, label: Seq<char>) -> MenuSlotView {
    MenuSlotView::Entry(MenuEntryView { id, label, enabled: true })
}

/// The tray's top-level menu, with the auto-start entry labelled for the
/// current switch.
pub open spec fn spec_full_menu(auto_start: bool) -> Seq<MenuSlotView> {
    let auto_label = if auto_start {
        "开机自启 ✓"@
    } else {
        "开机自启"@
    };
    seq![
        item("show"@, "设备信息"@),
        item("volume"@, "音量控制"@),
        MenuSlotView::Separator,
        MenuSlotView::AudioDevices,
        MenuSlotView::SoundSettings,
        MenuSlotView::Separator,
        item("auto_start"@, auto_label),
        MenuSlotView::Separator,
        item("settings"@, "设置"@),
        item("about"@, "关于"@),
        item("exit"@, "退出"@),
    ]
}

/// The tray's top-level menu.
pub fn build_full_menu(auto_start: bool) -> (r: Vec<MenuSlot>)
    ensures
        r@.map_values(|s: MenuSlot| s@) == spec_full_menu(auto_start),
{
    let mut r: Vec<MenuSlot> = Vec::new();
    r.push(MenuSlot::Entry(entry("show", "设备信息")));
    r.push(MenuSlot::Entry(entry("volume", "音量控制")));
    r.push(MenuSlot::Separator);
    r.push(MenuSlot::AudioDevices);
    r.push(MenuSlot::SoundSettings);
    r.push(MenuSlot::Separator);
    r.push(MenuSlot::Entry(entry("auto_start", auto_start_label(auto_start))));
    r.push(MenuSlot::Separator);
    r.push(MenuSlot::Entry(entry("settings", "设置")));
    r.push(MenuSlot::Entry(entry("about", "关于")));
    r.push(MenuSlot::Entry(entry("exit", "退出")));
    assert(r@.map_values(|s: MenuSlot| s@) =~= spec_full_menu(auto_start));
    r
}

} // verus!
