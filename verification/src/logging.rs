//! The run log: the time stamp and form of a log line, which messages are
//! written at which level, the name of the log file, and which old log files
//! are removed.

use vstd::prelude::*;
use crate::config::{LogFlags, LogRetention};
use crate::fmt::{decimal, spec_decimal, spec_two_digits, two_digits};
use crate::text::{seq_ends_with, seq_starts_with, str_ends_with, str_starts_with};

verus! {

/// The time of day, "hh:mm:ss" in UTC, `secs` seconds after the epoch.
pub open spec fn spec_clock(secs: nat) -> Seq<char> {
    spec_two_digits((secs / 3600) % 24) + ":"@ + spec_two_digits((secs / 60) % 60) + ":"@
        + spec_two_digits(secs % 60)
}

/// The time stamp of a log line: the time of day, or "??:??" when the
/// clock stands before the epoch (`None`).
pub open spec fn spec_chrono_str(since_epoch: Option<u64>) -> Seq<char> {
    match since_epoch {
        Some(secs) => spec_clock(secs as nat),
        None => "??:??"@,
    }
}

/// The time stamp of a log line, from the seconds since the epoch.
pub fn chrono_str(since_epoch: Option<u64>) -> (r: String)
    ensures
        r@ == spec_chrono_str(since_epoch),
{
    match since_epoch {
        None => "??:??".to_owned(),
        Some(secs) => {
            let h = two_digits((secs / 3600) % 24);
            let m = two_digits((secs / 60) % 60);
            let s = two_digits(secs % 60);
            let mut r = h;
            r.append(":");
            r.append(m.as_str());
            r.append(":");
            r.append(s.as_str());
            r
        },
    }
}

/// One line of the log: the time stamp in brackets, the message, a newline.
pub open spec fn spec_log_line(stamp: Seq<char>, msg: Seq<char>) -> Seq<char> {
    "["@ + stamp + "]"@ + msg + "\n"@
}

fn log_line(since_epoch: Option<u64>, msg: &str) -> (r: String)
    ensures
        r@ == spec_log_line(spec_chrono_str(since_epoch), msg@),
{
    let mut r = "[".to_owned();
    let stamp = chrono_str(since_epoch);
    r.append(stamp.as_str());
    r.append("]");
    r.append(msg);
    r.append("\n");
    r
}

/// The line to append for a message of the standard level: one is written
/// only when logging is on and the level is standard.
pub fn append_log(flags: &LogFlags, since_epoch: Option<u64>, msg: &str) -> (r: Option<String>)
    ensures
        r is Some <==> flags.enabled && flags.level_standard,
        r matches Some(line) ==> line@ == spec_log_line(spec_chrono_str(since_epoch), msg@),
{
    if !flags.enabled || !flags.level_standard {
        return None;
    }
    Some(log_line(since_epoch, msg))
}

/// The line to append for a message of the detailed level: one is written
/// only when logging is on and the level is the detailed one.
pub fn append_log_detailed(flags: &LogFlags, since_epoch: Option<u64>, msg: &str) -> (r: Option<
    String,
>)
    ensures
        r is Some <==> flags.enabled && !flags.level_standard,
        r matches Some(line) ==> line@ == spec_log_line(spec_chrono_str(since_epoch), msg@),
{
    if !flags.enabled || flags.level_standard {
        return None;
    }
    Some(log_line(since_epoch, msg))
}

/// The name of the log file: one per process, named by its id, when each
/// run keeps its own log; else one shared file.
pub open spec fn spec_log_file_name(once: bool, pid: u32) -> Seq<char> {
    if once {
        "debug_"@ + spec_decimal(pid as nat) + ".log"@
    } else {
        "debug.log"@
    }
}

/// The name of the log file in the program's directory.
pub fn log_file_name(flags: &LogFlags, pid: u32) -> (r: String)
    ensures
        r@ == spec_log_file_name(flags.once, pid),
{
    if flags.once {
        let mut r = "debug_".to_owned();
        let digits = decimal(pid as u64);
        r.append(digits.as_str());
        r.append(".log");
        r
    } else {
        "debug.log".to_owned()
    }
}

/// A file of the program's directory, with the time since it was last
/// modified as seconds and nanoseconds, when that time could be read.
pub struct LogFileEntry {
    pub name: String,
    pub age: Option<(u64, u32)>,
}

/// The name is that of a log file: "debug" at its start and ".log" at its end.
pub open spec fn is_log_file_name(n: Seq<char>) -> bool {
    seq_starts_with(n, "debug"@) && seq_ends_with(n, ".log"@)
}

/// How long a log file is kept, in seconds.
pub open spec fn spec_max_age_secs(r: LogRetention) -> u64 {
    match r {
        LogRetention::ThreeDays => 259200,
        LogRetention::OneWeek => 604800,
        LogRetention::OneMonth => 2592000,
        _ => 86400,
    }
}

/// The age, given as seconds and nanoseconds, is longer than `max` seconds.
pub open spec fn older_than(age: (u64, u32), max: u64) -> bool {
    age.0 > max || (age.0 == max && age.1 > 0)
}

/// Whether the clean-up removes this file.
pub open spec fn removes_log(enabled: bool, retention: LogRetention, e: LogFileEntry) -> bool {
    &&& enabled
    &&& is_log_file_name(e.name@)
    &&& (retention == LogRetention::Once || (e.age matches Some(a) && older_than(
        a,
        spec_max_age_secs(retention),
    )))
}

/// The names of the files that the clean-up removes, in directory order.
pub open spec fn spec_logs_to_remove(
    enabled: bool,
    retention: LogRetention,
    entries: Seq<LogFileEntry>,
) -> Seq<Seq<char>>
    decreases entries.len(),
{
    if entries.len() == 0 {
        Seq::empty()
    } else {
        let rest = spec_logs_to_remove(enabled, retention, entries.drop_last());
        if removes_log(enabled, retention, entries.last()) {
            rest.push(entries.last().name@)
        } else {
            rest
        }
    }
}

/// The clean-up removes nothing but log files, and nothing while logging is off.
pub proof fn law_only_log_files_removed(
    enabled: bool,
    retention: LogRetention,
    entries: Seq<LogFileEntry>,
)
    ensures
        forall|i: int|
            0 <= i < spec_logs_to_remove(enabled, retention, entries).len() ==> is_log_file_name(
                #[trigger] spec_logs_to_remove(enabled, retention, entries)[i],
            ),
        !enabled ==> spec_logs_to_remove(enabled, retention, entries).len() == 0,
    decreases entries.len(),
{
    if entries.len() > 0 {
        let init = entries.drop_last();
        law_only_log_files_removed(enabled, retention, init);
        let rest = spec_logs_to_remove(enabled, retention, init);
        let all = spec_logs_to_remove(enabled, retention, entries);
        assert forall|i: int| 0 <= i < all.len() implies is_log_file_name(#[trigger] all[i]) by {
            if i < rest.len() {
                assert(all[i] == rest[i]);
            }
        }
    }
}

fn max_age_secs(r: LogRetention) -> (s: u64)
    ensures
        s == spec_max_age_secs(r),
{
    match r {
        LogRetention::ThreeDays => 259200,
        LogRetention::OneWeek => 604800,
        LogRetention::OneMonth => 2592000,
        _ => 86400,
    }
}

fn removes_entry(enabled: bool, retention: LogRetention, e: &LogFileEntry) -> (r: bool)
    ensures
        r == removes_log(enabled, retention, *e),
{
    if !enabled {
        return false;
    }
    let named = str_starts_with(e.name.as_str(), "debug") && str_ends_with(e.name.as_str(), ".log");
    if !named {
        return false;
    }
    match retention {
        LogRetention::Once => true,
        _ => match e.age {
            Some((secs, nanos)) => {
                let max = max_age_secs(retention);
                secs > max || (secs == max && nanos > 0)
            },
            None => false,
        },
    }
}

/// The log files to remove: with logging on, every log file when each run
/// keeps its own log, else the log files older than the retention time.
pub fn clean_old_logs(enabled: bool, retention: LogRetention, entries: &Vec<LogFileEntry>) -> (r:
    Vec<String>)
    ensures
        r@.map_values(|s: String| s@) == spec_logs_to_remove(enabled, retention, entries@),
{
    let mut r: Vec<String> = Vec::new();
    let mut i: usize = 0;
    while i < entries.len()
        invariant
            i <= entries@.len(),
            r@.map_values(|s: String| s@) == spec_logs_to_remove(
                enabled,
                retention,
                entries@.subrange(0, i as int),
            ),
        decreases entries@.len() - i,
    {
        let ghost before = r@;
        assert(entries@.subrange(0, i + 1).drop_last() =~= entries@.subrange(0, i as int));
        assert(entries@.subrange(0, i + 1).last() == entries@[i as int]);
        if removes_entry(enabled, retention, &entries[i]) {
            r.push(entries[i].name.clone());
            assert(r@.map_values(|s: String| s@) =~= before.map_values(|s: String| s@).push(
                entries@[i as int].name@,
            ));
        }
        i = i + 1;
    }
    assert(entries@.subrange(0, entries@.len() as int) =~= entries@);
    r
}

} // verus!
