//! User settings: log level and retention with their names in the settings
//! file, the settings record with its defaults, and the edits that the
//! settings commands make.

use vstd::prelude::*;
use crate::collections::StringMap;
use vstd::utf8::is_ascii_chars;
use crate::text::{ascii_lower, spec_to_lowercase, str_eq, to_lowercase};

verus! {

/// How much the log records.
#[derive(Debug, Clone, Copy, PartialEq, Eq, Structural)]
pub enum LogLevel {
    Standard,
    Verbose,
}

/// How long log files are kept.
#[derive(Debug, Clone, Copy, PartialEq, Eq, Structural)]
pub enum LogRetention {
    Once,
    OneDay,
    ThreeDays,
    OneWeek,
    OneMonth,
}

/// The name of a log level in the settings file.
pub open spec fn spec_log_level_name(l: LogLevel) -> Seq<char> {
    match l {
        LogLevel::Standard => "standard"@,
        LogLevel::Verbose => "verbose"@,
    }
}

/// The level that a lowercased settings-file value names.
pub open spec fn log_level_of_lowered(l: Seq<char>) -> Option<LogLevel> {
    if l == "standard"@ {
        Some(LogLevel::Standard)
    } else if l == "verbose"@ {
        Some(LogLevel::Verbose)
    } else {
        None
    }
}

/// The level that a settings-file value names, compared after lowercasing.
pub open spec fn spec_parse_log_level(s: Seq<char>) -> Option<LogLevel> {
    log_level_of_lowered(spec_to_lowercase(s))
}

impl LogLevel {
    /// The name written to the settings file.
    pub fn name(&self) -> (r: &'static str)
        ensures
            r@ == spec_log_level_name(*self),
    {
        match self {
            LogLevel::Standard => "standard",
            LogLevel::Verbose => "verbose",
        }
    }

    /// The level named by a settings-file value, in any letter case.
    pub fn parse(s: &str) -> (r: Option<LogLevel>)
        ensures
            r == spec_parse_log_level(s@),
            is_ascii_chars(s@) ==> r == log_level_of_lowered(ascii_lower(s@)),
    {
        let l = to_lowercase(s);
        if str_eq(l.as_str(), "standard") {
            Some(LogLevel::Standard)
        } else if str_eq(l.as_str(), "verbose") {
            Some(LogLevel::Verbose)
        } else {
            None
        }
    }
}

impl Default for LogLevel {
    fn default() -> (r: Self)
        ensures
            r == LogLevel::Standard,
    {
        LogLevel::Standard
    }
}

/// The name of a retention in the settings file.
pub open spec fn spec_log_retention_name(r: LogRetention) -> Seq<char> {
    match r {
        LogRetention::Once => "once"@,
        LogRetention::OneDay => "one_day"@,
        LogRetention::ThreeDays => "three_days"@,
        LogRetention::OneWeek => "one_week"@,
        LogRetention::OneMonth => "one_month"@,
    }
}

/// The retention that a lowercased settings-file value names; each name
/// but `once` is also accepted without its underscore.
pub open spec fn log_retention_of_lowered(l: Seq<char>) -> Option<LogRetention> {
    if l == "once"@ {
        Some(LogRetention::Once)
    } else if l == "one_day"@ || l == "oneday"@ {
        Some(LogRetention::OneDay)
    } else if l == "three_days"@ || l == "threedays"@ {
        Some(LogRetention::ThreeDays)
    } else if l == "one_week"@ || l == "oneweek"@ {
        Some(LogRetention::OneWeek)
    } else if l == "one_month"@ || l == "onemonth"@ {
        Some(LogRetention::OneMonth)
    } else {
        None
    }
}

/// The retention that a settings-file value names, compared after lowercasing.
pub open spec fn spec_parse_log_retention(s: Seq<char>) -> Option<LogRetention> {
    log_retention_of_lowered(spec_to_lowercase(s))
}

impl LogRetention {
    /// The name written to the settings file.
    pub fn name(&self) -> (r: &'static str)
        ensures
            r@ == spec_log_retention_name(*self),
    {
        match self {
            LogRetention::Once => "once",
            LogRetention::OneDay => "one_day",
            LogRetention::ThreeDays => "three_days",
            LogRetention::OneWeek => "one_week",
            LogRetention::OneMonth => "one_month",
        }
    }

    /// The retention named by a settings-file value, in any letter case.
    pub fn parse(s: &str) -> (r: Option<LogRetention>)
        ensures
            r == spec_parse_log_retention(s@),
            is_ascii_chars(s@) ==> r == log_retention_of_lowered(ascii_lower(s@)),
    {
        let l = to_lowercase(s);
        let t = l.as_str();
        if str_eq(t, "once") {
            Some(LogRetention::Once)
        } else if str_eq(t, "one_day") || str_eq(t, "oneday") {
            Some(LogRetention::OneDay)
        } else if str_eq(t, "three_days") || str_eq(t, "threedays") {
            Some(LogRetention::ThreeDays)
        } else if str_eq(t, "one_week") || str_eq(t, "oneweek") {
            Some(LogRetention::OneWeek)
        } else if str_eq(t, "one_month") || str_eq(t, "onemonth") {
            Some(LogRetention::OneMonth)
        } else {
            None
        }
    }
}

impl Default for LogRetention {
    fn default() -> (r: Self)
        ensures
            r == LogRetention::OneDay,
    {
        LogRetention::OneDay
    }
}

/// The name of every log level is ASCII and, lowercased, names that level
/// again: parsing the name written to the settings file gives the level back.
pub proof fn law_log_level_name_round_trip(l: LogLevel)
    ensures
        is_ascii_chars(spec_log_level_name(l)),
        log_level_of_lowered(ascii_lower(spec_log_level_name(l))) == Some(l),
{
    reveal_strlit("standard");
    reveal_strlit("verbose");
    let n = spec_log_level_name(l);
    assert(ascii_lower(n) =~= n);
}

/// The name of every retention is ASCII and, lowercased, names that
/// retention again: parsing the name written to the settings file gives the
/// retention back.
pub proof fn law_log_retention_name_round_trip(r: LogRetention)
    ensures
        is_ascii_chars(spec_log_retention_name(r)),
        log_retention_of_lowered(ascii_lower(spec_log_retention_name(r))) == Some(r),
{
    reveal_strlit("once");
    reveal_strlit("one_day");
    reveal_strlit("oneday");
    reveal_strlit("three_days");
    reveal_strlit("threedays");
    reveal_strlit("one_week");
    reveal_strlit("oneweek");
    reveal_strlit("one_month");
    reveal_strlit("onemonth");
    let n = spec_log_retention_name(r);
    assert(ascii_lower(n) =~= n);
    assert("one_month"@[0] != "threedays"@[0]);
    assert("one_week"@[1] != "onemonth"@[1] || "one_week"@[3] != "onemonth"@[3]);
}

/// The views of a list of strings.
pub open spec fn strings_view(v: Seq<String>) -> Seq<Seq<char>> {
    v.map_values(|s: String| s@)
}

/// The user settings.
///
/// `shutdown_volume_devices` holds, for each audio device id, the volume to
/// set at shutdown as the bit pattern of an `f32`.
#[derive(Debug)]
pub struct Config {
    pub auto_start: bool,
    pub hidden_devices: Vec<String>,
    pub hidden_groups: Vec<String>,
    pub device_names: StringMap,
    pub device_groups: StringMap,
    pub filter_enabled: bool,
    pub filter_regex: String,
    pub dedup_devices: bool,
    pub show_unnamed_bt: bool,
    pub use_system_bt: bool,
    pub tray_devices: Vec<String>,
    pub hidden_audio_devices: Vec<String>,
    pub log_enabled: bool,
    pub log_level: LogLevel,
    pub log_retention: LogRetention,
    pub shutdown_volume_enabled: bool,
    pub shutdown_volume_devices: Vec<(String, u32)>,
}

/// The default device-name filter: the names of virtual, generic and
/// profile entries, as one case-insensitive pattern.
pub open spec fn spec_default_filter_regex() -> Seq<char> {
    "Virtual|虚拟|^HID|Audio Device|Audio 设备|Hands-Free|A2DP|gvinput Device|英特尔\\(R\\)"@
}

impl Config {
    /// The default device-name filter.
    pub fn default_filter_regex() -> (r: String)
        ensures
            r@ == spec_default_filter_regex(),
    {
        "Virtual|虚拟|^HID|Audio Device|Audio 设备|Hands-Free|A2DP|gvinput Device|英特尔\\(R\\)".to_owned()
    }
}

impl Default for Config {
    /// The settings used when no settings file can be read.
    fn default() -> (c: Self)
        ensures
            !c.auto_start,
            c.hidden_devices@.len() == 0,
            strings_view(c.hidden_groups@) == seq!["Battery"@, "Monitor"@],
            c.device_names@ == Map::<Seq<char>, Seq<char>>::empty(),
            c.device_groups@ == Map::<Seq<char>, Seq<char>>::empty(),
            c.filter_enabled,
            c.filter_regex@ == spec_default_filter_regex(),
            c.dedup_devices,
            !c.show_unnamed_bt,
            !c.use_system_bt,
            c.tray_devices@.len() == 0,
            c.hidden_audio_devices@.len() == 0,
            !c.log_enabled,
            c.log_level == LogLevel::Standard,
            c.log_retention == LogRetention::OneDay,
            !c.shutdown_volume_enabled,
            c.shutdown_volume_devices@.len() == 0,
    {
        let mut hidden_groups: Vec<String> = Vec::new();
        hidden_groups.push("Battery".to_owned());
        hidden_groups.push("Monitor".to_owned());
        assert(strings_view(hidden_groups@) =~= seq!["Battery"@, "Monitor"@]);
        Config {
            auto_start: false,
            hidden_devices: Vec::new(),
            hidden_groups,
            device_names: StringMap::new(),
            device_groups: StringMap::new(),
            filter_enabled: true,
            filter_regex: Config::default_filter_regex(),
            dedup_devices: true,
            show_unnamed_bt: false,
            use_system_bt: false,
            tray_devices: Vec::new(),
            hidden_audio_devices: Vec::new(),
            log_enabled: false,
            log_level: LogLevel::Standard,
            log_retention: LogRetention::OneDay,
            shutdown_volume_enabled: false,
            shutdown_volume_devices: Vec::new(),
        }
    }
}

/// The logging switches that the logger reads without taking the settings
/// lock.
#[derive(Debug, Clone, Copy, PartialEq, Eq, Structural)]
pub struct LogFlags {
    pub enabled: bool,
    pub level_standard: bool,
    pub once: bool,
}

/// The logging switches of a settings record.
pub fn sync_log_cache(config: &Config) -> (f: LogFlags)
    ensures
        f.enabled == config.log_enabled,
        f.level_standard == (config.log_level == LogLevel::Standard),
        f.once == (config.log_retention == LogRetention::Once),
{
    LogFlags {
        enabled: config.log_enabled,
        level_standard: config.log_level == LogLevel::Standard,
        once: config.log_retention == LogRetention::Once,
    }
}

/// Whether logging is on.
pub fn log_enabled(flags: &LogFlags) -> (r: bool)
    ensures
        r == flags.enabled,
{
    flags.enabled
}

/// Whether the log level is standard.
pub fn log_level_is_standard(flags: &LogFlags) -> (r: bool)
    ensures
        r == flags.level_standard,
{
    flags.level_standard
}

/// Whether each run writes its own log file.
pub fn log_once(flags: &LogFlags) -> (r: bool)
    ensures
        r == flags.once,
{
    flags.once
}

/// The first position of `item` in `v`.
pub open spec fn first_index_of(v: Seq<Seq<char>>, item: Seq<char>) -> Option<int>
    decreases v.len(),
{
    if v.len() == 0 {
        None
    } else if v[0] == item {
        Some(0)
    } else {
        match first_index_of(v.drop_first(), item) {
            Some(i) => Some(i + 1),
            None => None,
        }
    }
}

/// The list with `item` toggled: its first occurrence removed, or `item`
/// appended when it does not occur.
pub open spec fn spec_toggle(v: Seq<Seq<char>>, item: Seq<char>) -> Seq<Seq<char>> {
    match first_index_of(v, item) {
        Some(i) => v.remove(i),
        None => v.push(item),
    }
}

pub proof fn lemma_first_index_of(v: Seq<Seq<char>>, item: Seq<char>)
    ensures
        first_index_of(v, item) matches Some(i) ==> 0 <= i < v.len() && v[i] == item && forall|j: int|
            0 <= j < i ==> v[j] != item,
        first_index_of(v, item) is None ==> !v.contains(item),
    decreases v.len(),
{
    if v.len() > 0 {
        lemma_first_index_of(v.drop_first(), item);
        if first_index_of(v, item) is None {
            assert forall|j: int| 0 <= j < v.len() implies v[j] != item by {
                if j > 0 {
                    assert(v[j] == v.drop_first()[j - 1]);
                }
            }
        } else if v[0] != item {
            let i = first_index_of(v, item)->0;
            assert forall|j: int| 0 <= j < i implies v[j] != item by {
                if j > 0 {
                    assert(v[j] == v.drop_first()[j - 1]);
                }
            }
        }
    }
}

/// Toggling an item that is listed at most once adds it when it is missing
/// and removes it when it is listed.
pub proof fn law_toggle_flips_membership(v: Seq<Seq<char>>, item: Seq<char>)
    requires
        forall|i: int, j: int|
            0 <= i < v.len() && 0 <= j < v.len() && v[i] == item && v[j] == item ==> i == j,
    ensures
        spec_toggle(v, item).contains(item) <==> !v.contains(item),
{
    lemma_first_index_of(v, item);
    match first_index_of(v, item) {
        Some(i) => {
            let w = v.remove(i);
            assert forall|j: int| 0 <= j < w.len() implies w[j] != item by {
                if j < i {
                    assert(w[j] == v[j]);
                } else {
                    assert(w[j] == v[j + 1]);
                }
            }
            assert(v.contains(item));
        },
        None => {
            assert(v.push(item)[v.len() as int] == item);
        },
    }
}

/// Toggling an item twice gives the list back when the item is missing or
/// listed only at the end.
pub proof fn law_toggle_twice(v: Seq<Seq<char>>, item: Seq<char>)
    requires
        first_index_of(v, item) is None || first_index_of(v, item) == Some(v.len() - 1),
    ensures
        spec_toggle(spec_toggle(v, item), item) == v,
{
    lemma_first_index_of(v, item);
    match first_index_of(v, item) {
        None => {
            let w = v.push(item);
            lemma_first_index_of(w, item);
            match first_index_of(w, item) {
                Some(i) => {
                    if i < v.len() {
                        assert(v[i] == w[i]);
                        assert(v.contains(item));
                    }
                    assert(w.remove(i) =~= v);
                },
                None => {
                    assert(w[v.len() as int] == item);
                    assert(w.contains(item));
                },
            }
        },
        Some(i) => {
            let w = v.remove(i);
            assert(w =~= v.drop_last());
            lemma_first_index_of(w, item);
            if first_index_of(w, item) is Some {
                let k = first_index_of(w, item)->0;
                assert(w[k] == v[k]);
            }
            assert(w.push(item) =~= v);
        },
    }
}

/// Removes the first occurrence of `item` from `vec`, or appends it when it
/// does not occur.
pub fn toggle_vec_item(vec: &mut Vec<String>, item: &str)
    ensures
        strings_view(final(vec)@) == spec_toggle(strings_view(old(vec)@), item@),
{
    let ghost v0 = strings_view(vec@);
    proof {
        lemma_first_index_of(v0, item@);
    }
    let mut i: usize = 0;
    while i < vec.len()
        invariant
            i <= vec@.len(),
            v0 == strings_view(vec@),
            vec@ == old(vec)@,
            forall|j: int| 0 <= j < i ==> v0[j] != item@,
        decreases vec@.len() - i,
    {
        if str_eq(vec[i].as_str(), item) {
            assert(v0[i as int] == item@);
            assert(first_index_of(v0, item@) == Some(i as int)) by {
                lemma_first_index_of(v0, item@);
                if first_index_of(v0, item@) is None {
                    assert(v0.contains(item@));
                } else {
                    let f = first_index_of(v0, item@)->0;
                    assert(!(f < i));
                    assert(!(f > i));
                }
            }
            vec.remove(i);
            assert(strings_view(vec@) =~= v0.remove(i as int));
            return ;
        }
        i = i + 1;
    }
    assert(first_index_of(v0, item@) is None) by {
        if first_index_of(v0, item@) is Some {
            let f = first_index_of(v0, item@)->0;
            assert(v0[f] == item@);
        }
    }
    vec.push(item.to_owned());
    assert(strings_view(vec@) =~= v0.push(item@));
}

/// The most devices that the tray tooltip shows.
pub const TRAY_DEVICE_LIMIT: usize = 4;

/// The message given when the tray already shows as many devices as it can.
pub open spec fn tray_full_message() -> Seq<char> {
    "托盘最多添加 4 个设备"@
}

/// Whether `v` contains `item`.
pub fn contains_string(v: &Vec<String>, item: &str) -> (r: bool)
    ensures
        r == strings_view(v@).contains(item@),
{
    let mut i: usize = 0;
    while i < v.len()
        invariant
            i <= v@.len(),
            forall|j: int| 0 <= j < i ==> strings_view(v@)[j] != item@,
        decreases v@.len() - i,
    {
        if str_eq(v[i].as_str(), item) {
            assert(strings_view(v@)[i as int] == item@);
            return true;
        }
        i = i + 1;
    }
    false
}

impl Config {
    /// Hides a device from the device list, or shows it again.
    pub fn toggle_device_hidden(&mut self, name: &str)
        ensures
            strings_view(final(self).hidden_devices@) == spec_toggle(
                strings_view(old(self).hidden_devices@),
                name@,
            ),
            *final(self) == (Config { hidden_devices: final(self).hidden_devices, ..*old(self) }),
    {
        toggle_vec_item(&mut self.hidden_devices, name);
    }

    /// Hides an audio device from the volume page, or shows it again.
    pub fn toggle_audio_device_hidden(&mut self, name: &str)
        ensures
            strings_view(final(self).hidden_audio_devices@) == spec_toggle(
                strings_view(old(self).hidden_audio_devices@),
                name@,
            ),
            *final(self) == (Config {
                hidden_audio_devices: final(self).hidden_audio_devices,
                ..*old(self)
            }),
    {
        toggle_vec_item(&mut self.hidden_audio_devices, name);
    }

    /// Hides a device group, or shows it again.
    pub fn toggle_group_hidden(&mut self, group: &str)
        ensures
            strings_view(final(self).hidden_groups@) == spec_toggle(
                strings_view(old(self).hidden_groups@),
                group@,
            ),
            *final(self) == (Config { hidden_groups: final(self).hidden_groups, ..*old(self) }),
    {
        toggle_vec_item(&mut self.hidden_groups, group);
    }

    /// Gives a device a display name; an empty name removes the display name.
    pub fn rename_device(&mut self, original: String, new_name: String)
        ensures
            final(self).device_names@ == if new_name@.len() == 0 {
                old(self).device_names@.remove(original@)
            } else {
                old(self).device_names@.insert(original@, new_name@)
            },
            *final(self) == (Config { device_names: final(self).device_names, ..*old(self) }),
    {
        if new_name.as_str().is_empty() {
            self.device_names.remove(original.as_str());
        } else {
            self.device_names.insert(original, new_name);
        }
    }

    /// Moves a device to a group; an empty group name returns it to its own group.
    pub fn change_device_group(&mut self, name: String, group: String)
        ensures
            final(self).device_groups@ == if group@.len() == 0 {
                old(self).device_groups@.remove(name@)
            } else {
                old(self).device_groups@.insert(name@, group@)
            },
            *final(self) == (Config { device_groups: final(self).device_groups, ..*old(self) }),
    {
        if group.as_str().is_empty() {
            self.device_groups.remove(name.as_str());
        } else {
            self.device_groups.insert(name, group);
        }
    }

    /// Adds a device to the tray tooltip, or removes it; refuses to add a
    /// device when the tooltip already shows [`TRAY_DEVICE_LIMIT`] devices.
    pub fn toggle_device_tray(&mut self, name: &str) -> (r: Result<(), String>)
        ensures
            ({
                let tray = strings_view(old(self).tray_devices@);
                if !tray.contains(name@) && tray.len() >= TRAY_DEVICE_LIMIT {
                    &&& r matches Err(m) && m@ == tray_full_message()
                    &&& *final(self) == *old(self)
                } else {
                    &&& r is Ok
                    &&& strings_view(final(self).tray_devices@) == spec_toggle(tray, name@)
                    &&& *final(self) == (Config {
                        tray_devices: final(self).tray_devices,
                        ..*old(self)
                    })
                }
            }),
            old(self).tray_devices@.len() <= TRAY_DEVICE_LIMIT ==> final(self).tray_devices@.len()
                <= TRAY_DEVICE_LIMIT,
    {
        let already_added = contains_string(&self.tray_devices, name);
        if !already_added && self.tray_devices.len() >= TRAY_DEVICE_LIMIT {
            return Err("托盘最多添加 4 个设备".to_owned());
        }
        let ghost before = strings_view(self.tray_devices@);
        proof {
            lemma_first_index_of(before, name@);
        }
        toggle_vec_item(&mut self.tray_devices, name);
        assert(strings_view(self.tray_devices@).len() == self.tray_devices@.len());
        Ok(())
    }
}

} // verus!
