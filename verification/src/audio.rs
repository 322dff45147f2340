//! The audio parts that need no audio interface to decide: the name shown
//! for an output device, which sessions are listed and how sessions of one
//! process are merged, and which devices gain or lose a volume callback.

use vstd::prelude::*;
use crate::config::{contains_string, strings_view};
use crate::fmt::{decimal, spec_decimal};
use crate::text::{spec_trim, str_eq, trim};

verus! {

/// The name shown for an output device: its friendly name, trimmed, or its
/// description, trimmed, when the friendly name is blank. A name that could
/// not be read (`None`) gives "Unknown Device"; two blank names give
/// "Unknown Audio Device".
pub open spec fn spec_audio_device_name(friendly: Option<Seq<char>>, description: Option<Seq<char>>) -> Seq<char> {
    match friendly {
        None => "Unknown Device"@,
        Some(f) => if spec_trim(f).len() > 0 {
            spec_trim(f)
        } else {
            match description {
                None => "Unknown Device"@,
                Some(d) => if spec_trim(d).len() > 0 {
                    spec_trim(d)
                } else {
                    "Unknown Audio Device"@
                },
            }
        },
    }
}

/// The name shown for an output device.
pub fn audio_device_name(friendly: Option<&str>, description: Option<&str>) -> (r: String)
    ensures
        r@ == spec_audio_device_name(
            match friendly {
                Some(f) => Some(f@),
                None => None,
            },
            match description {
                Some(d) => Some(d@),
                None => None,
            },
        ),
{
    let f = match friendly {
        None => return "Unknown Device".to_owned(),
        Some(f) => trim(f),
    };
    if !f.as_str().is_empty() {
        return f;
    }
    let d = match description {
        None => return "Unknown Device".to_owned(),
        Some(d) => trim(d),
    };
    if !d.as_str().is_empty() {
        return d;
    }
    "Unknown Audio Device".to_owned()
}

/// The name shown for an audio session: the session's display name, or
/// "App (PID: n)" when it has none or only the placeholder "Unknown App".
pub open spec fn spec_session_display_name(name: Seq<char>, pid: u32) -> Seq<char> {
    if name.len() > 0 && name != "Unknown App"@ {
        name
    } else {
        "App (PID: "@ + spec_decimal(pid as nat) + ")"@
    }
}

/// The name shown for an audio session.
pub fn session_display_name(name: &str, pid: u32) -> (r: String)
    ensures
        r@ == spec_session_display_name(name@, pid),
{
    if !name.is_empty() && !str_eq(name, "Unknown App") {
        return name.to_owned();
    }
    let mut r = "App (PID: ".to_owned();
    let digits = decimal(pid as u64);
    r.append(digits.as_str());
    r.append(")");
    r
}

/// A session is listed when its state is inactive, active or expired (0,
/// 1 or 2; no other state) and it belongs to a process (a nonzero process id).
pub fn session_listed(state: i32, pid: u32) -> (r: bool)
    ensures
        r == (state <= 2 && pid != 0),
{
    state <= 2 && pid != 0
}

/// Whether the volumes are set when the system session ends: only when it
/// is really ending, the feature is on and some devices were chosen.
pub fn shutdown_adjusts_volume(session_ending: bool, enabled: bool, device_count: usize) -> (r: bool)
    ensures
        r == (session_ending && enabled && device_count > 0),
{
    session_ending && enabled && device_count > 0
}

/// An audio session as the volume page lists it; the volume is kept as the
/// bit pattern of its `f32`.
pub struct SessionEntry {
    pub id: String,
    pub name: String,
    pub icon: String,
    pub pid: u32,
    pub volume_bits: u32,
    pub is_muted: bool,
    pub device_id: String,
    pub is_active: bool,
}

/// The mathematical content of a [`SessionEntry`].
pub struct SessionView {
    pub id: Seq<char>,
    pub name: Seq<char>,
    pub icon: Seq<char>,
    pub pid: u32,
    pub volume_bits: u32,
    pub is_muted: bool,
    pub device_id: Seq<char>,
    pub is_active: bool,
}

impl View for SessionEntry {
    type V = SessionView;

    open spec fn view(&self) -> SessionView {
        SessionView {
            id: self.id@,
            name: self.name@,
            icon: self.icon@,
            pid: self.pid,
            volume_bits: self.volume_bits,
            is_muted: self.is_muted,
            device_id: self.device_id@,
            is_active: self.is_active,
        }
    }
}

/// The views of a list of sessions.
pub open spec fn sessions_view(ss: Seq<SessionEntry>) -> Seq<SessionView> {
    ss.map_values(|s: SessionEntry| s@)
}

/// The first listed session of a process.
pub open spec fn first_session_of(ss: Seq<SessionView>, pid: u32) -> Option<int>
    decreases ss.len(),
{
    if ss.len() == 0 {
        None
    } else {
        match first_session_of(ss.drop_last(), pid) {
            Some(i) => Some(i),
            None => if ss.last().pid == pid {
                Some(ss.len() - 1)
            } else {
                None
            },
        }
    }
}

proof fn lemma_first_session_of(ss: Seq<SessionView>, pid: u32)
    ensures
        first_session_of(ss, pid) matches Some(i) ==> 0 <= i < ss.len() && ss[i].pid == pid
            && forall|j: int| 0 <= j < i ==> ss[j].pid != pid,
        first_session_of(ss, pid) is None ==> forall|j: int| 0 <= j < ss.len() ==> ss[j].pid != pid,
    decreases ss.len(),
{
    if ss.len() > 0 {
        let init = ss.drop_last();
        lemma_first_session_of(init, pid);
        match first_session_of(init, pid) {
            Some(i) => {
                assert(init[i] == ss[i]);
                assert forall|j: int| 0 <= j < i implies ss[j].pid != pid by {
                    assert(init[j] == ss[j]);
                }
            },
            None => {
                assert forall|j: int| 0 <= j < init.len() implies ss[j].pid != pid by {
                    assert(init[j] == ss[j]);
                }
            },
        }
    }
}

/// The list after one more session: a session of a process already listed
/// replaces that entry when it is active and the listed one is not, and is
/// dropped otherwise; a session of a new process is appended.
pub open spec fn spec_add_session(ss: Seq<SessionView>, s: SessionView) -> Seq<SessionView> {
    match first_session_of(ss, s.pid) {
        Some(i) => if s.is_active && !ss[i].is_active {
            ss.update(i, s)
        } else {
            ss
        },
        None => ss.push(s),
    }
}

/// Adds one session to the list, one entry per process.
pub fn add_session(sessions: &mut Vec<SessionEntry>, s: SessionEntry)
    ensures
        sessions_view(final(sessions)@) == spec_add_session(sessions_view(old(sessions)@), s@),
{
    let ghost sv = sessions_view(sessions@);
    proof {
        lemma_first_session_of(sv, s.pid);
    }
    let mut i: usize = 0;
    while i < sessions.len()
        invariant
            i <= sessions@.len(),
            sessions@ == old(sessions)@,
            sv == sessions_view(sessions@),
            forall|j: int| 0 <= j < i ==> sv[j].pid != s.pid,
        decreases sessions@.len() - i,
    {
        assert(sv[i as int] == sessions@[i as int]@);
        if sessions[i].pid == s.pid {
            assert(first_session_of(sv, s.pid) == Some(i as int)) by {
                lemma_first_session_of(sv, s.pid);
                if first_session_of(sv, s.pid) is Some {
                    let f = first_session_of(sv, s.pid)->0;
                    assert(!(f < i));
                    assert(!(f > i));
                }
            }
            if s.is_active && !sessions[i].is_active {
                let ghost sw = s@;
                sessions.set(i, s);
                assert(sessions_view(sessions@) =~= sv.update(i as int, sw));
            }
            return ;
        }
        i = i + 1;
    }
    let ghost sw = s@;
    sessions.push(s);
    assert(sessions_view(sessions@) =~= sv.push(sw));
}

/// A session as the audio interface reports it, before it is listed.
pub struct RawSession {
    pub id: String,
    pub name: String,
    pub icon: String,
    pub pid: u32,
    pub state: i32,
    pub volume_bits: u32,
    pub is_muted: bool,
    pub device_id: String,
}

/// The reported session is listed.
pub open spec fn raw_listed(r: RawSession) -> bool {
    r.state <= 2 && r.pid != 0
}

/// The entry listed for a reported session.
pub open spec fn raw_entry(r: RawSession) -> SessionView {
    SessionView {
        id: r.id@,
        name: spec_session_display_name(r.name@, r.pid),
        icon: r.icon@,
        pid: r.pid,
        volume_bits: r.volume_bits,
        is_muted: r.is_muted,
        device_id: r.device_id@,
        is_active: r.state == 1,
    }
}

/// The session list built from the reported sessions, in order.
pub open spec fn spec_gather_sessions(raw: Seq<RawSession>) -> Seq<SessionView>
    decreases raw.len(),
{
    if raw.len() == 0 {
        Seq::empty()
    } else {
        let rest = spec_gather_sessions(raw.drop_last());
        if raw_listed(raw.last()) {
            spec_add_session(rest, raw_entry(raw.last()))
        } else {
            rest
        }
    }
}

/// Builds the session list from the reported sessions: the listed ones, one
/// entry per process, an active session of a process preferred.
pub fn gather_sessions(raw: &Vec<RawSession>) -> (r: Vec<SessionEntry>)
    ensures
        sessions_view(r@) == spec_gather_sessions(raw@),
{
    let mut sessions: Vec<SessionEntry> = Vec::new();
    assert(sessions_view(sessions@) =~= Seq::<SessionView>::empty());
    let mut k: usize = 0;
    while k < raw.len()
        invariant
            k <= raw@.len(),
            sessions_view(sessions@) == spec_gather_sessions(raw@.subrange(0, k as int)),
        decreases raw@.len() - k,
    {
        assert(raw@.subrange(0, k + 1).drop_last() =~= raw@.subrange(0, k as int));
        let r = &raw[k];
        if session_listed(r.state, r.pid) {
            let e = SessionEntry {
                id: r.id.clone(),
                name: session_display_name(r.name.as_str(), r.pid),
                icon: r.icon.clone(),
                pid: r.pid,
                volume_bits: r.volume_bits,
                is_muted: r.is_muted,
                device_id: r.device_id.clone(),
                is_active: r.state == 1,
            };
            assert(e@ == raw_entry(raw@[k as int]));
            add_session(&mut sessions, e);
        }
        k = k + 1;
    }
    assert(raw@.subrange(0, raw@.len() as int) =~= raw@);
    sessions
}

/// No two entries of the list belong to one process.
pub open spec fn pids_distinct(ss: Seq<SessionView>) -> bool {
    forall|i: int, j: int|
        0 <= i < ss.len() && 0 <= j < ss.len() && i != j ==> #[trigger] ss[i].pid != #[trigger] ss[j].pid
}

/// The list has an entry of the process `p`.
pub open spec fn lists_pid(ss: Seq<SessionView>, p: u32) -> bool {
    exists|i: int| 0 <= i < ss.len() && #[trigger] ss[i].pid == p
}

/// The list has an active entry of the process `p`.
pub open spec fn lists_active_pid(ss: Seq<SessionView>, p: u32) -> bool {
    exists|i: int| 0 <= i < ss.len() && #[trigger] ss[i].pid == p && ss[i].is_active
}

/// Some listed session of the reported ones belongs to the process `p`.
pub open spec fn reports_listed_pid(raw: Seq<RawSession>, p: u32) -> bool {
    exists|k: int| 0 <= k < raw.len() && raw_listed(#[trigger] raw[k]) && raw[k].pid == p
}

proof fn lemma_add_session_facts(ss: Seq<SessionView>, s: SessionView)
    requires
        pids_distinct(ss),
    ensures
        pids_distinct(spec_add_session(ss, s)),
        forall|p: u32|
            #[trigger] lists_pid(spec_add_session(ss, s), p) <==> (lists_pid(ss, p) || p == s.pid),
        forall|p: u32| lists_active_pid(ss, p) ==> #[trigger] lists_active_pid(spec_add_session(ss, s), p),
        s.is_active ==> lists_active_pid(spec_add_session(ss, s), s.pid),
{
    lemma_first_session_of(ss, s.pid);
    let r = spec_add_session(ss, s);
    match first_session_of(ss, s.pid) {
        Some(i) => {
            if s.is_active && !ss[i].is_active {
                assert(r[i] == s);
                assert forall|a: int, b: int|
                    0 <= a < r.len() && 0 <= b < r.len() && a != b implies #[trigger] r[a].pid
                    != #[trigger] r[b].pid by {
                    assert(r[a].pid == ss[a].pid);
                    assert(r[b].pid == ss[b].pid);
                }
                assert forall|p: u32| #[trigger]
                    lists_pid(r, p) <==> (lists_pid(ss, p) || p == s.pid) by {
                    if lists_pid(r, p) {
                        let a = choose|a: int| 0 <= a < r.len() && #[trigger] r[a].pid == p;
                        assert(ss[a].pid == p);
                    }
                    if lists_pid(ss, p) {
                        let a = choose|a: int| 0 <= a < ss.len() && #[trigger] ss[a].pid == p;
                        assert(r[a].pid == p);
                    }
                    if p == s.pid {
                        assert(r[i].pid == p);
                    }
                }
                assert forall|p: u32| lists_active_pid(ss, p) implies #[trigger] lists_active_pid(r, p) by {
                    let a = choose|a: int| 0 <= a < ss.len() && #[trigger] ss[a].pid == p && ss[a].is_active;
                    assert(a != i);
                    assert(r[a] == ss[a]);
                }
            } else {
                assert(lists_pid(ss, s.pid)) by {
                    assert(ss[i].pid == s.pid);
                }
                if s.is_active {
                    assert(ss[i].pid == s.pid && ss[i].is_active);
                }
            }
        },
        None => {
            assert(r == ss.push(s));
            assert(r[ss.len() as int] == s);
            assert forall|p: u32| #[trigger]
                lists_pid(r, p) <==> (lists_pid(ss, p) || p == s.pid) by {
                if lists_pid(r, p) {
                    let a = choose|a: int| 0 <= a < r.len() && #[trigger] r[a].pid == p;
                    if a < ss.len() {
                        assert(ss[a].pid == p);
                    }
                }
                if lists_pid(ss, p) {
                    let a = choose|a: int| 0 <= a < ss.len() && #[trigger] ss[a].pid == p;
                    assert(r[a].pid == p);
                }
                if p == s.pid {
                    assert(r[ss.len() as int].pid == p);
                }
            }
            assert forall|p: u32| lists_active_pid(ss, p) implies #[trigger] lists_active_pid(r, p) by {
                let a = choose|a: int| 0 <= a < ss.len() && #[trigger] ss[a].pid == p && ss[a].is_active;
                assert(r[a] == ss[a]);
            }
            assert forall|a: int, b: int|
                0 <= a < r.len() && 0 <= b < r.len() && a != b implies #[trigger] r[a].pid
                != #[trigger] r[b].pid by {
                if a < ss.len() && b < ss.len() {
                    assert(r[a] == ss[a] && r[b] == ss[b]);
                } else if a < ss.len() {
                    assert(r[a] == ss[a]);
                } else if b < ss.len() {
                    assert(r[b] == ss[b]);
                }
            }
        },
    }
}

/// The session list has at most one entry per process; the processes it
/// lists are exactly those of the listed reported sessions, so none is the
/// process 0; and a process with an active listed session is listed by an
/// active entry.
pub proof fn law_gather_sessions(raw: Seq<RawSession>)
    ensures
        pids_distinct(spec_gather_sessions(raw)),
        forall|p: u32| #[trigger] lists_pid(spec_gather_sessions(raw), p) <==> reports_listed_pid(raw, p),
        !lists_pid(spec_gather_sessions(raw), 0),
        forall|k: int|
            0 <= k < raw.len() && raw_listed(raw[k]) && raw[k].state == 1 ==> #[trigger] lists_active_pid(
                spec_gather_sessions(raw),
                raw[k].pid,
            ),
    decreases raw.len(),
{
    let g = spec_gather_sessions(raw);
    if raw.len() == 0 {
        assert forall|p: u32| #[trigger] lists_pid(g, p) <==> reports_listed_pid(raw, p) by {}
    } else {
        let init = raw.drop_last();
        let last = raw.last();
        law_gather_sessions(init);
        let g0 = spec_gather_sessions(init);
        if raw_listed(last) {
            lemma_add_session_facts(g0, raw_entry(last));
        }
        assert forall|p: u32| #[trigger] lists_pid(g, p) <==> reports_listed_pid(raw, p) by {
            assert(lists_pid(g0, p) <==> reports_listed_pid(init, p));
            if reports_listed_pid(init, p) {
                let k = choose|k: int| 0 <= k < init.len() && raw_listed(#[trigger] init[k]) && init[k].pid == p;
                assert(raw[k] == init[k]);
            }
            if reports_listed_pid(raw, p) {
                let k = choose|k: int| 0 <= k < raw.len() && raw_listed(#[trigger] raw[k]) && raw[k].pid == p;
                if k < init.len() {
                    assert(init[k] == raw[k]);
                }
            }
            if raw_listed(last) && last.pid == p {
                assert(raw[raw.len() - 1] == last);
            }
        }
        assert(!reports_listed_pid(raw, 0));
        assert forall|k: int|
            0 <= k < raw.len() && raw_listed(raw[k]) && raw[k].state == 1 implies #[trigger] lists_active_pid(
                g,
                raw[k].pid,
            ) by {
            if k < init.len() {
                assert(init[k] == raw[k]);
                assert(lists_active_pid(g0, init[k].pid));
            }
        }
    }
}

/// The ids of `ids`, in order, that are not in `other`.
pub open spec fn ids_not_in(ids: Seq<Seq<char>>, other: Seq<Seq<char>>) -> Seq<Seq<char>>
    decreases ids.len(),
{
    if ids.len() == 0 {
        Seq::empty()
    } else {
        let rest = ids_not_in(ids.drop_last(), other);
        if other.contains(ids.last()) {
            rest
        } else {
            rest.push(ids.last())
        }
    }
}

fn strings_not_in(ids: &Vec<String>, other: &Vec<String>) -> (r: Vec<String>)
    ensures
        strings_view(r@) == ids_not_in(strings_view(ids@), strings_view(other@)),
{
    let ghost iv = strings_view(ids@);
    let mut r: Vec<String> = Vec::new();
    let mut i: usize = 0;
    while i < ids.len()
        invariant
            i <= ids@.len(),
            iv == strings_view(ids@),
            strings_view(r@) == ids_not_in(iv.subrange(0, i as int), strings_view(other@)),
        decreases ids@.len() - i,
    {
        assert(iv.subrange(0, i + 1).drop_last() =~= iv.subrange(0, i as int));
        assert(iv.subrange(0, i + 1).last() == ids@[i as int]@);
        if !contains_string(other, ids[i].as_str()) {
            let ghost before = strings_view(r@);
            r.push(ids[i].clone());
            assert(strings_view(r@) =~= before.push(ids@[i as int]@));
        }
        i = i + 1;
    }
    assert(iv.subrange(0, ids@.len() as int) =~= iv);
    r
}

/// The volume callbacks to add and to drop when the active output devices
/// are `current` and callbacks are registered for `registered`: the
/// current devices without one, and the registered devices no longer
/// current.
pub fn callback_changes(registered: &Vec<String>, current: &Vec<String>) -> (r: (Vec<String>, Vec<String>))
    ensures
        strings_view(r.0@) == ids_not_in(strings_view(current@), strings_view(registered@)),
        strings_view(r.1@) == ids_not_in(strings_view(registered@), strings_view(current@)),
{
    (strings_not_in(current, registered), strings_not_in(registered, current))
}

} // verus!
