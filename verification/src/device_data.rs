//! The table of 2.4G wireless receivers, keyed by USB vendor and product
//! identifier, and the extraction of those identifiers from a PnP device id.

use vstd::prelude::*;
use vstd::utf8::{
    decode_utf8, encode_utf8, encode_utf8_decode_utf8, encode_utf8_valid_utf8, is_ascii_chars,
    is_ascii_chars_encode_utf8, is_ascii_chars_nat_bound, is_char_boundary,
    is_char_boundary_iff_not_is_continuation_byte, is_char_boundary_start_end_of_seq, valid_utf8,
    valid_utf8_split,
};
use crate::pairs::{
    keys_unique, lemma_pairs_absent, lemma_pairs_index, lemma_pairs_push, lemma_pairs_update,
    pairs_to_map,
};
use vstd::string::StringSliceAdditionalSpecFns;
use crate::text::{
    ascii_upper, find_bytes, lemma_find_spec, seq_find, str_eq, spec_to_uppercase, to_uppercase,
};

verus! {

/// A known wireless receiver: its product name and device type
/// (`mouse`, `keyboard`, `audio` or `other`).
#[derive(Debug)]
pub struct DeviceInfo {
    pub name: String,
    pub device_type: String,
}

pub struct DeviceInfoView {
    pub name: Seq<char>,
    pub device_type: Seq<char>,
}

impl View for DeviceInfo {
    type V = DeviceInfoView;

    open spec fn view(&self) -> DeviceInfoView {
        DeviceInfoView { name: self.name@, device_type: self.device_type@ }
    }
}

impl DeviceInfo {
    /// A copy of the record.
    pub fn copy(&self) -> (r: DeviceInfo)
        ensures
            r@ == self@,
    {
        DeviceInfo { name: self.name.clone(), device_type: self.device_type.clone() }
    }
}

/// One entry of a data file: vendor id, product id, name and type, as read.
#[derive(Debug)]
pub struct RawDeviceEntry {
    pub vid: String,
    pub pid: String,
    pub name: String,
    pub device_type: String,
}

/// The key of a table entry: vendor id and product id.
pub type VidPid = (Seq<char>, Seq<char>);

pub open spec fn table_pairs_view(s: Seq<(String, String, DeviceInfo)>) -> Seq<(VidPid, DeviceInfoView)> {
    s.map_values(|e: (String, String, DeviceInfo)| ((e.0@, e.1@), e.2@))
}

/// Known wireless receivers by vendor and product id.
#[derive(Debug)]
pub struct DeviceDataTable {
    entries: Vec<(String, String, DeviceInfo)>,
}

impl DeviceDataTable {
    pub closed spec fn pairs(&self) -> Seq<(VidPid, DeviceInfoView)> {
        table_pairs_view(self.entries@)
    }

    #[verifier::type_invariant]
    closed spec fn wf(&self) -> bool {
        keys_unique(self.pairs())
    }
}

impl View for DeviceDataTable {
    type V = Map<VidPid, DeviceInfoView>;

    closed spec fn view(&self) -> Map<VidPid, DeviceInfoView> {
        pairs_to_map(self.pairs())
    }
}

/// The type recorded for an entry: its type as read, or `other` when none was given.
pub open spec fn effective_type(t: Seq<char>) -> Seq<char> {
    if t.len() == 0 {
        "other"@
    } else {
        t
    }
}

/// The table that a list of raw entries denotes; a later entry for the
/// same ids wins.
pub open spec fn raw_entries_map(s: Seq<RawDeviceEntry>) -> Map<VidPid, DeviceInfoView>
    decreases s.len(),
{
    if s.len() == 0 {
        Map::empty()
    } else {
        let e = s.last();
        raw_entries_map(s.drop_last()).insert(
            (e.vid@, e.pid@),
            DeviceInfoView { name: e.name@, device_type: effective_type(e.device_type@) },
        )
    }
}

impl DeviceDataTable {
    /// An empty table.
    pub fn new() -> (t: Self)
        ensures
            t@ == Map::<VidPid, DeviceInfoView>::empty(),
    {
        let t = DeviceDataTable { entries: Vec::new() };
        assert(t.pairs() =~= Seq::<(VidPid, DeviceInfoView)>::empty());
        t
    }

    fn position(&self, vid: &str, pid: &str) -> (r: Option<usize>)
        ensures
            r matches Some(i) ==> i < self.pairs().len() && self.pairs()[i as int].0 == (vid@, pid@),
            r is None ==> forall|i: int|
                0 <= i < self.pairs().len() ==> self.pairs()[i].0 != (vid@, pid@),
    {
        let mut i: usize = 0;
        while i < self.entries.len()
            invariant
                i <= self.entries@.len(),
                self.pairs().len() == self.entries@.len(),
                forall|j: int| 0 <= j < i ==> self.pairs()[j].0 != (vid@, pid@),
            decreases self.entries@.len() - i,
        {
            if str_eq(self.entries[i].0.as_str(), vid) && str_eq(self.entries[i].1.as_str(), pid) {
                return Some(i);
            }
            i = i + 1;
        }
        None
    }

    /// The entry for the given ids.
    pub fn get(&self, vid: &str, pid: &str) -> (r: Option<&DeviceInfo>)
        ensures
            r matches Some(v) ==> self@.contains_key((vid@, pid@)) && v@ == self@[(vid@, pid@)],
            r is None ==> !self@.contains_key((vid@, pid@)),
    {
        proof {
            use_type_invariant(self);
        }
        match self.position(vid, pid) {
            Some(i) => {
                proof {
                    lemma_pairs_index(self.pairs(), i as int);
                }
                Some(&self.entries[i].2)
            },
            None => {
                proof {
                    lemma_pairs_absent(self.pairs(), (vid@, pid@));
                }
                None
            },
        }
    }

    /// Stores `info` for the given ids, replacing an earlier entry.
    pub fn insert(&mut self, vid: String, pid: String, info: DeviceInfo)
        ensures
            final(self)@ == old(self)@.insert((vid@, pid@), info@),
    {
        proof {
            use_type_invariant(&*self);
        }
        let ghost key = (vid@, pid@);
        match self.position(vid.as_str(), pid.as_str()) {
            Some(i) => {
                proof {
                    lemma_pairs_update(self.pairs(), i as int, info@);
                }
                let ghost old_pairs = self.pairs();
                let mut entries = Vec::new();
                std::mem::swap(&mut entries, &mut self.entries);
                let ghost iv = info@;
                entries.set(i, (vid, pid, info));
                assert(table_pairs_view(entries@) =~= old_pairs.update(
                    i as int,
                    (old_pairs[i as int].0, iv),
                ));
                self.entries = entries;
            },
            None => {
                proof {
                    lemma_pairs_push(self.pairs(), key, info@);
                }
                let ghost old_pairs = self.pairs();
                let ghost iv = info@;
                let mut entries = Vec::new();
                std::mem::swap(&mut entries, &mut self.entries);
                entries.push((vid, pid, info));
                assert(table_pairs_view(entries@) =~= old_pairs.push((key, iv)));
                self.entries = entries;
            },
        }
    }

    /// The table of the given raw entries: an entry without a type is of
    /// type `other`; a later entry for the same ids wins.
    pub fn from_raw_entries(raw: &Vec<RawDeviceEntry>) -> (t: Self)
        ensures
            t@ == raw_entries_map(raw@),
    {
        let mut t = DeviceDataTable::new();
        let mut i: usize = 0;
        while i < raw.len()
            invariant
                i <= raw@.len(),
                t@ == raw_entries_map(raw@.subrange(0, i as int)),
            decreases raw@.len() - i,
        {
            let e = &raw[i];
            let device_type = if e.device_type.as_str().is_empty() {
                "other".to_owned()
            } else {
                e.device_type.clone()
            };
            t.insert(
                e.vid.clone(),
                e.pid.clone(),
                DeviceInfo { name: e.name.clone(), device_type },
            );
            assert(raw@.subrange(0, i + 1).drop_last() =~= raw@.subrange(0, i as int));
            i = i + 1;
        }
        assert(raw@.subrange(0, raw@.len() as int) =~= raw@);
        t
    }

    /// The entries of the table, each key once, as raw entries.
    pub fn to_raw_entries(&self) -> (r: Vec<RawDeviceEntry>)
        ensures
            r@.len() == self.pairs().len(),
            forall|i: int|
                0 <= i < r@.len() ==> ((#[trigger] r@[i]).vid@, r@[i].pid@) == self.pairs()[i].0
                    && r@[i].name@ == self.pairs()[i].1.name && r@[i].device_type@
                    == self.pairs()[i].1.device_type,
    {
        let mut r: Vec<RawDeviceEntry> = Vec::new();
        let mut i: usize = 0;
        while i < self.entries.len()
            invariant
                i <= self.entries@.len(),
                self.pairs().len() == self.entries@.len(),
                r@.len() == i,
                forall|j: int|
                    0 <= j < i ==> ((#[trigger] r@[j]).vid@, r@[j].pid@) == self.pairs()[j].0
                        && r@[j].name@ == self.pairs()[j].1.name && r@[j].device_type@
                        == self.pairs()[j].1.device_type,
            decreases self.entries@.len() - i,
        {
            let e = &self.entries[i];
            r.push(
                RawDeviceEntry {
                    vid: e.0.clone(),
                    pid: e.1.clone(),
                    name: e.2.name.clone(),
                    device_type: e.2.device_type.clone(),
                },
            );
            i = i + 1;
        }
        r
    }
}

impl DeviceDataTable {
    /// The entries of `official` and `user` together; where both have an
    /// entry for the same ids, the user's entry wins.
    pub fn merge(official: &DeviceDataTable, user: &DeviceDataTable) -> (t: Self)
        ensures
            t@ == official@.union_prefer_right(user@),
    {
        let mut t = DeviceDataTable::new();
        let mut i: usize = 0;
        while i < official.entries.len()
            invariant
                i <= official.entries@.len(),
                official.pairs().len() == official.entries@.len(),
                t@ == pairs_to_map(official.pairs().subrange(0, i as int)),
            decreases official.entries@.len() - i,
        {
            let e = &official.entries[i];
            assert(official.pairs()[i as int] == ((e.0@, e.1@), e.2@));
            t.insert(e.0.clone(), e.1.clone(), e.2.copy());
            assert(official.pairs().subrange(0, i + 1).drop_last() =~= official.pairs().subrange(
                0,
                i as int,
            ));
            i = i + 1;
        }
        assert(official.pairs().subrange(0, official.pairs().len() as int) =~= official.pairs());
        assert(official@.union_prefer_right(pairs_to_map(user.pairs().subrange(0, 0)))
            =~= official@);
        let mut j: usize = 0;
        while j < user.entries.len()
            invariant
                j <= user.entries@.len(),
                user.pairs().len() == user.entries@.len(),
                t@ == official@.union_prefer_right(pairs_to_map(user.pairs().subrange(0, j as int))),
            decreases user.entries@.len() - j,
        {
            let e = &user.entries[j];
            assert(user.pairs()[j as int] == ((e.0@, e.1@), e.2@));
            let ghost before = pairs_to_map(user.pairs().subrange(0, j as int));
            t.insert(e.0.clone(), e.1.clone(), e.2.copy());
            assert(user.pairs().subrange(0, j + 1).drop_last() =~= user.pairs().subrange(
                0,
                j as int,
            ));
            assert(official@.union_prefer_right(before.insert((e.0@, e.1@), e.2@))
                =~= official@.union_prefer_right(before).insert((e.0@, e.1@), e.2@));
            j = j + 1;
        }
        assert(user.pairs().subrange(0, user.pairs().len() as int) =~= user.pairs());
        t
    }
}

/// The receiver table at start-up: the bundled entries, with the user's
/// entries over them where both name the same ids.
pub fn init_device_data(official: &Vec<RawDeviceEntry>, user: &Vec<RawDeviceEntry>) -> (t:
    DeviceDataTable)
    ensures
        t@ == raw_entries_map(official@).union_prefer_right(raw_entries_map(user@)),
{
    let a = DeviceDataTable::from_raw_entries(official);
    let b = DeviceDataTable::from_raw_entries(user);
    DeviceDataTable::merge(&a, &b)
}

/// In the table built at start-up, an id pair that the user's file names
/// has the user's entry; any other pair has the bundled entry, if any.
pub proof fn law_user_entry_wins(official: Seq<RawDeviceEntry>, user: Seq<RawDeviceEntry>, key: VidPid)
    ensures
        ({
            let t = raw_entries_map(official).union_prefer_right(raw_entries_map(user));
            &&& raw_entries_map(user).contains_key(key) ==> t.contains_key(key) && t[key]
                == raw_entries_map(user)[key]
            &&& !raw_entries_map(user).contains_key(key) ==> (t.contains_key(key)
                <==> raw_entries_map(official).contains_key(key))
            &&& !raw_entries_map(user).contains_key(key) && raw_entries_map(official).contains_key(key)
                ==> t[key] == raw_entries_map(official)[key]
        }),
{
}

/// Whether the table knows a wireless receiver with these ids.
pub fn is_wireless_24g(table: &DeviceDataTable, vid: &str, pid: &str) -> (r: bool)
    ensures
        r == table@.contains_key((vid@, pid@)),
{
    table.get(vid, pid).is_some()
}

/// The product name recorded for these ids.
pub fn get_device_name(table: &DeviceDataTable, vid: &str, pid: &str) -> (r: Option<String>)
    ensures
        r matches Some(n) ==> table@.contains_key((vid@, pid@)) && n@ == table@[(vid@, pid@)].name,
        r is None ==> !table@.contains_key((vid@, pid@)),
{
    match table.get(vid, pid) {
        Some(info) => Some(info.name.clone()),
        None => None,
    }
}

/// The type recorded for these ids, or `other` for unknown ids.
pub fn get_device_type(table: &DeviceDataTable, vid: &str, pid: &str) -> (r: String)
    ensures
        r@ == if table@.contains_key((vid@, pid@)) {
            table@[(vid@, pid@)].device_type
        } else {
            "other"@
        },
{
    match table.get(vid, pid) {
        Some(info) => info.device_type.clone(),
        None => "other".to_owned(),
    }
}

/// The bytes of "VID_".
pub open spec fn vid_tag() -> Seq<u8> {
    seq![0x56u8, 0x49u8, 0x44u8, 0x5fu8]
}

/// The bytes of "PID_".
pub open spec fn pid_tag() -> Seq<u8> {
    seq![0x50u8, 0x49u8, 0x44u8, 0x5fu8]
}

/// Where the four bytes after the first `tag` begin, when four bytes follow it.
pub open spec fn field_start(b: Seq<u8>, tag: Seq<u8>) -> Option<int> {
    match seq_find(b, tag) {
        Some(p) => if p + 8 <= b.len() {
            Some(p + 4)
        } else {
            None
        },
        None => None,
    }
}

/// The four bytes after `tag` start and end on character boundaries, so
/// that they can be cut out of the string.
pub open spec fn field_cuttable(b: Seq<u8>, tag: Seq<u8>) -> bool {
    match field_start(b, tag) {
        Some(s) => is_char_boundary(b, s) && is_char_boundary(b, s + 4),
        None => true,
    }
}

/// Every field that the extraction cuts out lies on character boundaries.
pub open spec fn vid_pid_cuttable(b: Seq<u8>) -> bool {
    &&& field_cuttable(b, vid_tag())
    &&& field_start(b, vid_tag()) is Some ==> field_cuttable(b, pid_tag())
}

/// The vendor and product fields of an uppercase PnP id, as bytes.
pub open spec fn spec_vid_pid_fields(b: Seq<u8>) -> Option<(Seq<u8>, Seq<u8>)> {
    match (field_start(b, vid_tag()), field_start(b, pid_tag())) {
        (Some(v), Some(p)) => Some((b.subrange(v, v + 4), b.subrange(p, p + 4))),
        _ => None,
    }
}

/// The fields that [`extract_vid_pid`] cuts out of the uppercase form of the
/// PnP id start and end on character boundaries; on any other id the cut
/// would split a character, which `str` slicing refuses by panicking.
pub open spec fn vid_pid_readable(pnp_id: Seq<char>) -> bool {
    vid_pid_cuttable(encode_utf8(spec_to_uppercase(pnp_id)))
}

/// The vendor and product ids that [`extract_vid_pid`] reads from a PnP id:
/// the four bytes after the first "VID_" and after the first "PID_" of its
/// uppercase form; none when a field is missing.
pub open spec fn spec_extract_vid_pid(pnp_id: Seq<char>) -> Option<(Seq<char>, Seq<char>)> {
    match spec_vid_pid_fields(encode_utf8(spec_to_uppercase(pnp_id))) {
        Some((v, p)) => Some((decode_utf8(v), decode_utf8(p))),
        None => None,
    }
}

proof fn lemma_boundary_in_prefix(b: Seq<u8>, i: int, j: int)
    requires
        valid_utf8(b),
        is_char_boundary(b, i),
        is_char_boundary(b, j),
        0 <= i <= j <= b.len(),
    ensures
        valid_utf8(b.subrange(0, j)),
        is_char_boundary(b.subrange(0, j), i),
{
    valid_utf8_split(b, j);
    let h = b.subrange(0, j);
    if i == 0 {
    } else if i == j {
        is_char_boundary_start_end_of_seq(h);
    } else {
        is_char_boundary_iff_not_is_continuation_byte(h, i);
        is_char_boundary_iff_not_is_continuation_byte(b, i);
    }
}

/// Cuts the bytes `start..start + 4` out of `s`.
fn cut_field(s: &str, start: usize) -> (r: String)
    requires
        start + 4 <= s.spec_bytes().len(),
        start + 4 <= usize::MAX,
        is_char_boundary(s.spec_bytes(), start as int),
        is_char_boundary(s.spec_bytes(), start + 4),
    ensures
        encode_utf8(r@) == s.spec_bytes().subrange(start as int, start + 4),
{
    proof {
        encode_utf8_valid_utf8(s@);
        lemma_boundary_in_prefix(s.spec_bytes(), start as int, start + 4);
    }
    let (head, _) = s.split_at(start + 4);
    assert(head.spec_bytes() =~= s.spec_bytes().subrange(0, start + 4));
    let (_, field) = head.split_at(start);
    assert(field.spec_bytes() =~= s.spec_bytes().subrange(start as int, start + 4));
    field.to_owned()
}

/// Where the field after `tag` starts, as [`field_start`] says.
fn find_field(b: &[u8], tag: &Vec<u8>) -> (r: Option<usize>)
    requires
        tag@.len() == 4,
    ensures
        r matches Some(s) ==> field_start(b@, tag@) == Some(s as int) && s + 4 <= b@.len() && s + 4
            <= usize::MAX,
        r is None ==> field_start(b@, tag@) is None,
{
    match find_bytes(b, tag.as_slice()) {
        Some(p) => {
            proof {
                crate::text::lemma_find_spec(b@, tag@);
            }
            if b.len() - p >= 8 {
                Some(p + 4)
            } else {
                None
            }
        },
        None => None,
    }
}

/// The vendor and product ids of an uppercase PnP id.
fn extract_vid_pid_upper(upper: &str) -> (r: Option<(String, String)>)
    requires
        vid_pid_cuttable(upper.spec_bytes()),
    ensures
        r matches Some((v, p)) ==> spec_vid_pid_fields(upper.spec_bytes()) == Some(
            (encode_utf8(v@), encode_utf8(p@)),
        ),
        r is None ==> spec_vid_pid_fields(upper.spec_bytes()) is None,
{
    let b = upper.as_bytes();
    let vtag: Vec<u8> = vec![0x56u8, 0x49u8, 0x44u8, 0x5fu8];
    let ptag: Vec<u8> = vec![0x50u8, 0x49u8, 0x44u8, 0x5fu8];
    assert(vtag@ =~= vid_tag());
    assert(ptag@ =~= pid_tag());
    let vs = match find_field(b, &vtag) {
        Some(s) => s,
        None => return None,
    };
    let vid = cut_field(upper, vs);
    let ps = match find_field(b, &ptag) {
        Some(s) => s,
        None => return None,
    };
    let pid = cut_field(upper, ps);
    Some((vid, pid))
}

/// Whether the fields of the uppercase string can be cut out.
fn cuttable_upper(u: &str) -> (r: bool)
    ensures
        r == vid_pid_cuttable(u.spec_bytes()),
{
    let b = u.as_bytes();
    let vtag: Vec<u8> = vec![0x56u8, 0x49u8, 0x44u8, 0x5fu8];
    let ptag: Vec<u8> = vec![0x50u8, 0x49u8, 0x44u8, 0x5fu8];
    assert(vtag@ =~= vid_tag());
    assert(ptag@ =~= pid_tag());
    match find_field(b, &vtag) {
        Some(s) => u.is_char_boundary(s) && u.is_char_boundary(s + 4) && match find_field(b, &ptag) {
            Some(t) => u.is_char_boundary(t) && u.is_char_boundary(t + 4),
            None => true,
        },
        None => true,
    }
}

/// Uppercasing keeps an ASCII string ASCII.
proof fn lemma_ascii_upper_is_ascii(s: Seq<char>)
    requires
        is_ascii_chars(s),
    ensures
        is_ascii_chars(ascii_upper(s)),
{
    assert forall|i: int| 0 <= i < ascii_upper(s).len() implies '\0' <= #[trigger] ascii_upper(s)[i]
        <= '\u{7f}' by {
        assert('\0' <= s[i] <= '\u{7f}');
    }
}

/// In the encoding of an ASCII string every position is a character
/// boundary, so the fields of a PnP id can always be cut out of it.
proof fn lemma_ascii_vid_pid_cuttable(u: Seq<char>)
    requires
        is_ascii_chars(u),
    ensures
        vid_pid_cuttable(encode_utf8(u)),
{
    let b = encode_utf8(u);
    is_ascii_chars_encode_utf8(u);
    is_ascii_chars_nat_bound(u);
    encode_utf8_valid_utf8(u);
    is_char_boundary_start_end_of_seq(b);
    assert forall|i: int| 0 <= i <= b.len() implies #[trigger] is_char_boundary(b, i) by {
        if i < b.len() {
            is_char_boundary_iff_not_is_continuation_byte(b, i);
            assert(b[i] == u[i] as u8);
            assert((u[i] as nat) < 128);
        }
    }
    lemma_find_spec(b, vid_tag());
    lemma_find_spec(b, pid_tag());
}

/// Whether [`extract_vid_pid`] can read the PnP id without cutting a
/// character; it always can when the id is ASCII.
pub fn can_extract_vid_pid(pnp_id: &str) -> (r: bool)
    ensures
        r == vid_pid_readable(pnp_id@),
        is_ascii_chars(pnp_id@) ==> r,
{
    let upper = to_uppercase(pnp_id);
    proof {
        if is_ascii_chars(pnp_id@) {
            lemma_ascii_upper_is_ascii(pnp_id@);
            lemma_ascii_vid_pid_cuttable(upper@);
        }
    }
    cuttable_upper(upper.as_str())
}

/// The vendor and product ids of a PnP id, as [`spec_extract_vid_pid`] says.
pub fn extract_vid_pid(pnp_id: &str) -> (r: Option<(String, String)>)
    requires
        vid_pid_readable(pnp_id@),
    ensures
        r matches Some((v, p)) ==> spec_extract_vid_pid(pnp_id@) == Some((v@, p@)),
        r is None ==> spec_extract_vid_pid(pnp_id@) is None,
{
    let upper = to_uppercase(pnp_id);
    match extract_vid_pid_upper(upper.as_str()) {
        Some((v, p)) => {
            proof {
                encode_utf8_decode_utf8(v@);
                encode_utf8_decode_utf8(p@);
            }
            Some((v, p))
        },
        None => None,
    }
}

} // verus!
