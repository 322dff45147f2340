//! Version comparison and the choice of the release to offer as an update.

use vstd::prelude::*;
use crate::fmt::{decimal, parse_u32, spec_decimal, spec_parse_u32};
use crate::text::{chars_of, chars_range, find, lemma_find_spec, occurs_at, seq_find, string_from_range};

verus! {

/// `s` without all of its leading `c`s, as `str::trim_start_matches(c)` gives it.
pub open spec fn trim_leading(s: Seq<char>, c: char) -> Seq<char>
    decreases s.len(),
{
    if s.len() > 0 && s[0] == c {
        trim_leading(s.drop_first(), c)
    } else {
        s
    }
}

/// The pieces of `s` between the separators `c`, as `str::split(c)` gives them.
pub open spec fn split_on(s: Seq<char>, c: char) -> Seq<Seq<char>>
    decreases s.len(),
{
    if s.len() == 0 {
        seq![Seq::<char>::empty()]
    } else {
        let rest = split_on(s.drop_last(), c);
        if s.last() == c {
            rest.push(Seq::<char>::empty())
        } else {
            rest.update(rest.len() - 1, rest.last().push(s.last()))
        }
    }
}

/// The numbers among `pieces`, in order; pieces that are no number are skipped.
pub open spec fn parsed_parts(pieces: Seq<Seq<char>>) -> Seq<u32>
    decreases pieces.len(),
{
    if pieces.len() == 0 {
        Seq::empty()
    } else {
        let rest = parsed_parts(pieces.drop_last());
        match spec_parse_u32(pieces.last()) {
            Some(v) => rest.push(v),
            None => rest,
        }
    }
}

/// The numbers among the pieces of `s` between its dots.
pub open spec fn numeric_parts(s: Seq<char>) -> Seq<u32> {
    parsed_parts(split_on(s, '.'))
}

/// A version string without its leading 'v's, cut at its first '-': the
/// release part, and the pre-release part when there is a '-'.
pub open spec fn version_split(v: Seq<char>) -> (Seq<char>, Option<Seq<char>>) {
    let t = trim_leading(v, 'v');
    match seq_find(t, seq!['-']) {
        Some(i) => (t.subrange(0, i), Some(t.subrange(i + 1, t.len() as int))),
        None => (t, None),
    }
}

/// The numeric parts of the release part of a version string such as "v1.10.2".
pub open spec fn version_parts(v: Seq<char>) -> Seq<u32> {
    numeric_parts(version_split(v).0)
}

/// The numeric parts of the pre-release part of a version string, such as
/// [1] for "1.3.0-beta.1"; `None` for a release.
pub open spec fn prerelease_parts(v: Seq<char>) -> Option<Seq<u32>> {
    match version_split(v).1 {
        Some(p) => Some(numeric_parts(p)),
        None => None,
    }
}

/// `a` comes before `b` in lexicographic order, a proper prefix first.
pub open spec fn seq_lt(a: Seq<u32>, b: Seq<u32>) -> bool
    decreases a.len(),
{
    if b.len() == 0 {
        false
    } else if a.len() == 0 {
        true
    } else if a[0] != b[0] {
        a[0] < b[0]
    } else {
        seq_lt(a.drop_first(), b.drop_first())
    }
}

/// Of two versions with the same release part, the pre-release part `a`
/// comes first: a pre-release before the release, and two pre-releases by
/// their numeric parts.
pub open spec fn pre_lt(a: Option<Seq<u32>>, b: Option<Seq<u32>>) -> bool {
    match (a, b) {
        (Some(_), None) => true,
        (Some(x), Some(y)) => seq_lt(x, y),
        _ => false,
    }
}

/// The latest version is newer than the current one.
pub open spec fn spec_compare_versions(current: Seq<char>, latest: Seq<char>) -> bool {
    ||| seq_lt(version_parts(current), version_parts(latest))
    ||| version_parts(current) == version_parts(latest) && pre_lt(
        prerelease_parts(current),
        prerelease_parts(latest),
    )
}

/// The numbers among the pieces of `chars[lo..hi]` between its dots.
fn numeric_parts_of(chars: &Vec<char>, lo: usize, hi: usize) -> (r: Vec<u32>)
    requires
        lo <= hi <= chars@.len(),
    ensures
        r@ == numeric_parts(chars@.subrange(lo as int, hi as int)),
{
    let ghost t = chars@.subrange(lo as int, hi as int);
    let mut result: Vec<u32> = Vec::new();
    let mut cur: Vec<char> = Vec::new();
    let ghost mut done: Seq<Seq<char>> = Seq::empty();
    let mut i: usize = lo;
    assert(t.subrange(0, 0) =~= Seq::<char>::empty());
    while i < hi
        invariant
            lo <= i <= hi <= chars@.len(),
            t == chars@.subrange(lo as int, hi as int),
            split_on(t.subrange(0, (i - lo) as int), '.') == done.push(cur@),
            result@ == parsed_parts(done),
        decreases hi - i,
    {
        let ghost p = t.subrange(0, (i - lo) as int);
        let ghost p1 = t.subrange(0, (i + 1 - lo) as int);
        assert(p1.drop_last() =~= p);
        assert(p1.last() == chars@[i as int]);
        if chars[i] == '.' {
            match parse_u32(cur.as_slice()) {
                Some(x) => {
                    result.push(x);
                },
                None => {},
            }
            proof {
                assert(done.push(cur@).drop_last() =~= done);
                done = done.push(cur@);
            }
            cur = Vec::new();
            assert(split_on(p1, '.') =~= done.push(cur@));
        } else {
            cur.push(chars[i]);
            assert(split_on(p1, '.') =~= done.push(cur@));
        }
        i = i + 1;
    }
    assert(t.subrange(0, (i - lo) as int) =~= t);
    match parse_u32(cur.as_slice()) {
        Some(x) => {
            result.push(x);
        },
        None => {},
    }
    assert(done.push(cur@).drop_last() =~= done);
    result
}

/// The characters of `v` without its leading 'v's, and the position of
/// their first '-'.
fn version_pieces(v: &str) -> (r: (Vec<char>, Option<usize>))
    ensures
        r.0@ == trim_leading(v@, 'v'),
        r.1 matches Some(i) ==> seq_find(r.0@, seq!['-']) == Some(i as int),
        r.1 is None ==> seq_find(r.0@, seq!['-']) is None,
{
    let chars = chars_of(v);
    assert(chars@.subrange(0, chars@.len() as int) =~= chars@);
    let mut start: usize = 0;
    while start < chars.len() && chars[start] == 'v'
        invariant
            start <= chars@.len(),
            trim_leading(v@, 'v') == trim_leading(chars@.subrange(start as int, chars@.len() as int), 'v'),
            chars@ == v@,
        decreases chars@.len() - start,
    {
        assert(chars@.subrange(start as int, chars@.len() as int).drop_first() =~= chars@.subrange(
            start + 1,
            chars@.len() as int,
        ));
        start = start + 1;
    }
    let t = chars_range(&chars, start, chars.len());
    let dash: Vec<char> = vec!['-'];
    assert(dash@ =~= seq!['-']);
    let pos = find(t.as_slice(), dash.as_slice());
    (t, pos)
}

/// The numeric parts of the release part of a version string.
pub fn version_parts_of(v: &str) -> (r: Vec<u32>)
    ensures
        r@ == version_parts(v@),
{
    let (t, pos) = version_pieces(v);
    proof {
        lemma_find_spec(t@, seq!['-']);
    }
    match pos {
        Some(i) => numeric_parts_of(&t, 0, i),
        None => {
            assert(t@.subrange(0, t@.len() as int) =~= t@);
            numeric_parts_of(&t, 0, t.len())
        },
    }
}

/// The numeric parts of the pre-release part of a version string, if it has one.
pub fn prerelease_parts_of(v: &str) -> (r: Option<Vec<u32>>)
    ensures
        r matches Some(x) ==> prerelease_parts(v@) == Some(x@),
        r is None ==> prerelease_parts(v@) is None,
{
    let (t, pos) = version_pieces(v);
    proof {
        lemma_find_spec(t@, seq!['-']);
    }
    match pos {
        Some(i) => {
            assert(occurs_at(t@, seq!['-'], i as int));
            assert(seq!['-'].len() == 1);
            let n = t.len();
            assert(i < n);
            Some(numeric_parts_of(&t, i + 1, n))
        },
        None => None,
    }
}

/// Whether `a` comes before `b` in lexicographic order.
pub fn parts_lt(a: &Vec<u32>, b: &Vec<u32>) -> (r: bool)
    ensures
        r == seq_lt(a@, b@),
{
    let mut i: usize = 0;
    assert(a@.subrange(0, a@.len() as int) =~= a@);
    assert(b@.subrange(0, b@.len() as int) =~= b@);
    loop
        invariant
            i <= a@.len(),
            i <= b@.len(),
            seq_lt(a@, b@) == seq_lt(
                a@.subrange(i as int, a@.len() as int),
                b@.subrange(i as int, b@.len() as int),
            ),
        decreases a@.len() - i,
    {
        let ghost sa = a@.subrange(i as int, a@.len() as int);
        let ghost sb = b@.subrange(i as int, b@.len() as int);
        if i == b.len() {
            return false;
        }
        if i == a.len() {
            return true;
        }
        assert(sa[0] == a@[i as int] && sb[0] == b@[i as int]);
        if a[i] != b[i] {
            return a[i] < b[i];
        }
        assert(sa.drop_first() =~= a@.subrange(i + 1, a@.len() as int));
        assert(sb.drop_first() =~= b@.subrange(i + 1, b@.len() as int));
        i = i + 1;
    }
}

/// Whether `a` and `b` hold the same numbers.
fn parts_eq(a: &Vec<u32>, b: &Vec<u32>) -> (r: bool)
    ensures
        r == (a@ == b@),
{
    if a.len() != b.len() {
        return false;
    }
    let mut i: usize = 0;
    while i < a.len()
        invariant
            i <= a@.len() == b@.len(),
            forall|k: int| 0 <= k < i ==> a@[k] == b@[k],
        decreases a@.len() - i,
    {
        if a[i] != b[i] {
            return false;
        }
        i = i + 1;
    }
    assert(a@ =~= b@);
    true
}

/// Whether the version `latest` is newer than `current`: their release
/// parts compared number by number, a version that extends another being
/// newer; of two versions with the same release part, a pre-release (one
/// with a '-' part) is older than the release, and two pre-releases compare
/// by the numbers of their pre-release parts.
pub fn compare_versions(current: &str, latest: &str) -> (r: bool)
    ensures
        r == spec_compare_versions(current@, latest@),
{
    let a = version_parts_of(current);
    let b = version_parts_of(latest);
    if parts_lt(&a, &b) {
        return true;
    }
    if !parts_eq(&a, &b) {
        return false;
    }
    let pa = prerelease_parts_of(current);
    let pb = prerelease_parts_of(latest);
    match (pa, pb) {
        (Some(_), None) => true,
        (Some(x), Some(y)) => parts_lt(&x, &y),
        _ => false,
    }
}

proof fn lemma_seq_lt_irreflexive(a: Seq<u32>)
    ensures
        !seq_lt(a, a),
    decreases a.len(),
{
    if a.len() > 0 {
        lemma_seq_lt_irreflexive(a.drop_first());
    }
}

proof fn lemma_seq_lt_asymmetric(a: Seq<u32>, b: Seq<u32>)
    ensures
        seq_lt(a, b) ==> !seq_lt(b, a),
    decreases a.len(),
{
    if a.len() > 0 && b.len() > 0 && a[0] == b[0] {
        lemma_seq_lt_asymmetric(a.drop_first(), b.drop_first());
    }
}

proof fn lemma_seq_lt_transitive(a: Seq<u32>, b: Seq<u32>, c: Seq<u32>)
    requires
        seq_lt(a, b),
        seq_lt(b, c),
    ensures
        seq_lt(a, c),
    decreases a.len(),
{
    if a.len() > 0 && a[0] == b[0] && b[0] == c[0] {
        lemma_seq_lt_transitive(a.drop_first(), b.drop_first(), c.drop_first());
    }
}

/// No version is newer than itself.
pub proof fn law_compare_versions_irreflexive(v: Seq<char>)
    ensures
        !spec_compare_versions(v, v),
{
    lemma_seq_lt_irreflexive(version_parts(v));
    if let Some(x) = prerelease_parts(v) {
        lemma_seq_lt_irreflexive(x);
    }
}

/// Of two versions, at most one is newer than the other.
pub proof fn law_compare_versions_asymmetric(a: Seq<char>, b: Seq<char>)
    ensures
        spec_compare_versions(a, b) ==> !spec_compare_versions(b, a),
{
    lemma_seq_lt_asymmetric(version_parts(a), version_parts(b));
    lemma_seq_lt_irreflexive(version_parts(a));
    if let (Some(x), Some(y)) = (prerelease_parts(a), prerelease_parts(b)) {
        lemma_seq_lt_asymmetric(x, y);
    }
}

/// A version newer than one that is newer than a third is newer than the third.
pub proof fn law_compare_versions_transitive(a: Seq<char>, b: Seq<char>, c: Seq<char>)
    requires
        spec_compare_versions(a, b),
        spec_compare_versions(b, c),
    ensures
        spec_compare_versions(a, c),
{
    let (va, vb, vc) = (version_parts(a), version_parts(b), version_parts(c));
    if seq_lt(va, vb) && seq_lt(vb, vc) {
        lemma_seq_lt_transitive(va, vb, vc);
    }
    if let (Some(x), Some(y), Some(z)) = (prerelease_parts(a), prerelease_parts(b), prerelease_parts(c)) {
        if seq_lt(x, y) && seq_lt(y, z) {
            lemma_seq_lt_transitive(x, y, z);
        }
    }
}

/// A release is newer than each pre-release of it, and no pre-release of
/// it is newer than the release.
pub proof fn law_release_newer_than_prerelease(release: Seq<char>, pre: Seq<char>)
    requires
        version_parts(release) == version_parts(pre),
        prerelease_parts(release) is None,
        prerelease_parts(pre) is Some,
    ensures
        spec_compare_versions(pre, release),
        !spec_compare_versions(release, pre),
{
    lemma_seq_lt_irreflexive(version_parts(pre));
}

/// A published release, as the release list of the project gives it.
#[derive(Debug)]
pub struct Release {
    pub tag_name: String,
    pub prerelease: bool,
    pub draft: bool,
    pub html_url: String,
}

pub struct ReleaseView {
    pub tag_name: Seq<char>,
    pub prerelease: bool,
    pub draft: bool,
    pub html_url: Seq<char>,
}

impl View for Release {
    type V = ReleaseView;

    open spec fn view(&self) -> ReleaseView {
        ReleaseView {
            tag_name: self.tag_name@,
            prerelease: self.prerelease,
            draft: self.draft,
            html_url: self.html_url@,
        }
    }
}

/// The outcome of an update check.
#[derive(Debug)]
pub struct UpdateInfo {
    pub has_update: bool,
    pub current_version: String,
    pub latest_version: String,
    pub release_url: String,
}

pub struct UpdateInfoView {
    pub has_update: bool,
    pub current_version: Seq<char>,
    pub latest_version: Seq<char>,
    pub release_url: Seq<char>,
}

impl View for UpdateInfo {
    type V = UpdateInfoView;

    open spec fn view(&self) -> UpdateInfoView {
        UpdateInfoView {
            has_update: self.has_update,
            current_version: self.current_version@,
            latest_version: self.latest_version@,
            release_url: self.release_url@,
        }
    }
}

/// The release may be offered: it is no draft, and it is no prerelease
/// unless prereleases are wanted.
pub open spec fn eligible(r: ReleaseView, include_prerelease: bool) -> bool {
    !r.draft && (!r.prerelease || include_prerelease)
}

/// The first release in the list that may be offered.
pub open spec fn first_eligible(rs: Seq<ReleaseView>, include_prerelease: bool) -> Option<int>
    decreases rs.len(),
{
    if rs.len() == 0 {
        None
    } else if eligible(rs[0], include_prerelease) {
        Some(0)
    } else {
        match first_eligible(rs.drop_first(), include_prerelease) {
            Some(i) => Some(i + 1),
            None => None,
        }
    }
}

/// The outcome of an update check against a release list, newest first.
pub open spec fn spec_check_for_update(
    current: Seq<char>,
    include_prerelease: bool,
    rs: Seq<ReleaseView>,
) -> UpdateInfoView {
    match first_eligible(rs, include_prerelease) {
        Some(i) => {
            let latest = trim_leading(rs[i].tag_name, 'v');
            UpdateInfoView {
                has_update: spec_compare_versions(current, latest),
                current_version: current,
                latest_version: latest,
                release_url: rs[i].html_url,
            }
        },
        None => UpdateInfoView {
            has_update: false,
            current_version: current,
            latest_version: current,
            release_url: Seq::empty(),
        },
    }
}

proof fn lemma_first_eligible(rs: Seq<ReleaseView>, include_prerelease: bool, k: int)
    requires
        0 <= k <= rs.len(),
        forall|j: int| 0 <= j < k ==> !eligible(#[trigger] rs[j], include_prerelease),
    ensures
        first_eligible(rs, include_prerelease) == match first_eligible(
            rs.subrange(k, rs.len() as int),
            include_prerelease,
        ) {
            Some(i) => Some(i + k),
            None => None::<int>,
        },
    decreases k,
{
    if k > 0 {
        lemma_first_eligible(rs.drop_first(), include_prerelease, k - 1);
        assert(rs.drop_first().subrange(k - 1, rs.drop_first().len() as int) =~= rs.subrange(
            k,
            rs.len() as int,
        ));
        assert(!eligible(rs[0], include_prerelease));
        assert forall|j: int| 0 <= j < k - 1 implies !eligible(
            #[trigger] rs.drop_first()[j],
            include_prerelease,
        ) by {
            assert(rs.drop_first()[j] == rs[j + 1]);
        }
    } else {
        assert(rs.subrange(0, rs.len() as int) =~= rs);
        match first_eligible(rs, include_prerelease) {
            Some(i) => {},
            None => {},
        }
    }
}

/// `s` without its leading 'v's.
fn trim_leading_v(s: &str) -> (r: String)
    ensures
        r@ == trim_leading(s@, 'v'),
{
    let chars = chars_of(s);
    assert(chars@.subrange(0, chars@.len() as int) =~= chars@);
    let mut start: usize = 0;
    while start < chars.len() && chars[start] == 'v'
        invariant
            start <= chars@.len(),
            trim_leading(s@, 'v') == trim_leading(chars@.subrange(start as int, chars@.len() as int), 'v'),
            chars@ == s@,
        decreases chars@.len() - start,
    {
        assert(chars@.subrange(start as int, chars@.len() as int).drop_first() =~= chars@.subrange(
            start + 1,
            chars@.len() as int,
        ));
        start = start + 1;
    }
    string_from_range(&chars, start, chars.len())
}

/// The release at `i` is offered: it is no draft, whatever the prerelease
/// setting, and no prerelease unless prereleases are included, and every
/// release before it is a draft or an excluded prerelease.
pub open spec fn offered_at(rs: Seq<ReleaseView>, include_prerelease: bool, i: int) -> bool {
    &&& 0 <= i < rs.len()
    &&& !rs[i].draft
    &&& !rs[i].prerelease || include_prerelease
    &&& forall|j: int| 0 <= j < i ==> #[trigger] rs[j].draft || (rs[j].prerelease && !include_prerelease)
}

/// An update check offers the first release that is no draft (whatever the
/// prerelease setting) and no excluded prerelease: its version without the
/// leading 'v's and its page, and an update exactly when that version is
/// newer than the current one. When every release is a draft or an
/// excluded prerelease, it offers nothing: the current version, no page,
/// no update.
pub proof fn law_update_offers_first_non_draft(
    current: Seq<char>,
    include_prerelease: bool,
    rs: Seq<ReleaseView>,
)
    ensures
        forall|i: int|
            #[trigger] offered_at(rs, include_prerelease, i) ==> {
                let u = spec_check_for_update(current, include_prerelease, rs);
                &&& u.latest_version == trim_leading(rs[i].tag_name, 'v')
                &&& u.release_url == rs[i].html_url
                &&& u.has_update == spec_compare_versions(current, trim_leading(rs[i].tag_name, 'v'))
                &&& u.current_version == current
            },
        (forall|j: int|
            0 <= j < rs.len() ==> #[trigger] rs[j].draft || (rs[j].prerelease && !include_prerelease))
            ==> spec_check_for_update(current, include_prerelease, rs) == (UpdateInfoView {
            has_update: false,
            current_version: current,
            latest_version: current,
            release_url: Seq::empty(),
        }),
{
    assert forall|i: int| #[trigger] offered_at(rs, include_prerelease, i) implies {
        let u = spec_check_for_update(current, include_prerelease, rs);
        &&& u.latest_version == trim_leading(rs[i].tag_name, 'v')
        &&& u.release_url == rs[i].html_url
        &&& u.has_update == spec_compare_versions(current, trim_leading(rs[i].tag_name, 'v'))
        &&& u.current_version == current
    } by {
        assert forall|j: int| 0 <= j < i implies !eligible(#[trigger] rs[j], include_prerelease) by {
            assert(rs[j].draft || (rs[j].prerelease && !include_prerelease));
        }
        lemma_first_eligible(rs, include_prerelease, i);
        assert(rs.subrange(i, rs.len() as int)[0] == rs[i]);
        assert(first_eligible(rs, include_prerelease) == Some(i));
    }
    if forall|j: int|
        0 <= j < rs.len() ==> #[trigger] rs[j].draft || (rs[j].prerelease && !include_prerelease) {
        assert forall|j: int| 0 <= j < rs.len() implies !eligible(#[trigger] rs[j], include_prerelease) by {
            assert(rs[j].draft || (rs[j].prerelease && !include_prerelease));
        }
        lemma_first_eligible(rs, include_prerelease, rs.len() as int);
        assert(rs.subrange(rs.len() as int, rs.len() as int) =~= Seq::<ReleaseView>::empty());
    }
}

/// The outcome of an update check: the first release that may be offered,
/// with whether its version is newer than `current_version`.
pub fn check_for_update(current_version: &str, include_prerelease: bool, releases: &Vec<Release>) -> (r:
    UpdateInfo)
    ensures
        r@ == spec_check_for_update(
            current_version@,
            include_prerelease,
            releases@.map_values(|x: Release| x@),
        ),
{
    let ghost rs = releases@.map_values(|x: Release| x@);
    let mut i: usize = 0;
    while i < releases.len()
        invariant
            i <= releases@.len(),
            rs == releases@.map_values(|x: Release| x@),
            forall|j: int| 0 <= j < i ==> !eligible(#[trigger] rs[j], include_prerelease),
        decreases releases@.len() - i,
    {
        let rel = &releases[i];
        assert(rs[i as int] == rel@);
        if !rel.draft && (!rel.prerelease || include_prerelease) {
            proof {
                lemma_first_eligible(rs, include_prerelease, i as int);
                assert(rs.subrange(i as int, rs.len() as int)[0] == rs[i as int]);
            }
            let latest = trim_leading_v(rel.tag_name.as_str());
            let has_update = compare_versions(current_version, latest.as_str());
            return UpdateInfo {
                has_update,
                current_version: current_version.to_owned(),
                latest_version: latest,
                release_url: rel.html_url.clone(),
            };
        }
        i = i + 1;
    }
    proof {
        lemma_first_eligible(rs, include_prerelease, rs.len() as int);
        assert(rs.subrange(rs.len() as int, rs.len() as int) =~= Seq::<ReleaseView>::empty());
    }
    UpdateInfo {
        has_update: false,
        current_version: current_version.to_owned(),
        latest_version: current_version.to_owned(),
        release_url: String::new(),
    }
}

/// `prefix`, the decimal digits of `n`, then `)`.
fn with_code(prefix: &str, n: u32) -> (r: String)
    ensures
        r@ == prefix@ + spec_decimal(n as nat) + ")"@,
{
    let mut s = prefix.to_owned();
    let d = decimal(n as u64);
    s.append(d.as_str());
    s.append(")");
    s
}

/// Calls `String::from_utf8`: the bytes as a string when they are valid
/// UTF-8 (the string whose encoding they are), and `None` when they are not.
#[verifier::external_body]
fn string_from_utf8(bytes: Vec<u8>) -> (r: Option<String>)
    ensures
        r matches Some(s) ==> vstd::utf8::valid_utf8(bytes@) && s@ == vstd::utf8::decode_utf8(bytes@),
        r is None ==> !vstd::utf8::valid_utf8(bytes@),
{
    String::from_utf8(bytes).ok()
}

/// The text of a response body: the body read as UTF-8, or the message
/// for a body that is not UTF-8.
pub fn response_text(body: Vec<u8>) -> (r: Result<String, String>)
    ensures
        r is Ok <==> vstd::utf8::valid_utf8(body@),
        r matches Ok(s) ==> s@ == vstd::utf8::decode_utf8(body@),
        r matches Err(e) ==> e@ == "响应编码错误"@,
{
    match string_from_utf8(body) {
        Some(s) => Ok(s),
        None => Err("响应编码错误".to_owned()),
    }
}

/// The message for a request that could not be sent, from the system error code.
pub open spec fn spec_send_error_message(err: u32) -> Seq<char> {
    if err == 12007 {
        "DNS 解析失败"@
    } else if err == 12002 || err == 12030 {
        "网络连接超时"@
    } else {
        "网络错误 ("@ + spec_decimal(err as nat) + ")"@
    }
}

/// The message for a request that could not be sent.
pub fn send_error_message(err: u32) -> (r: String)
    ensures
        r@ == spec_send_error_message(err),
{
    if err == 12007 {
        "DNS 解析失败".to_owned()
    } else if err == 12002 || err == 12030 {
        "网络连接超时".to_owned()
    } else {
        with_code("网络错误 (", err)
    }
}

/// The message for a response that could not be received, from the system error code.
pub open spec fn spec_receive_error_message(err: u32) -> Seq<char> {
    if err == 12002 || err == 12030 {
        "网络连接超时"@
    } else {
        "网络错误 ("@ + spec_decimal(err as nat) + ")"@
    }
}

/// The message for a response that could not be received.
pub fn receive_error_message(err: u32) -> (r: String)
    ensures
        r@ == spec_receive_error_message(err),
{
    if err == 12002 || err == 12030 {
        "网络连接超时".to_owned()
    } else {
        with_code("网络错误 (", err)
    }
}

/// The message for an HTTP status other than success; none for 200.
pub open spec fn spec_status_error_message(code: u32) -> Option<Seq<char>> {
    if code == 200 {
        None
    } else if code == 403 {
        Some("GitHub API 请求过于频繁，请稍后再试"@)
    } else {
        Some("GitHub 服务器错误 ("@ + spec_decimal(code as nat) + ")"@)
    }
}

/// The message for the HTTP status of the release-list response; none for success.
pub fn status_error_message(code: u32) -> (r: Option<String>)
    ensures
        match r {
            Some(m) => spec_status_error_message(code) == Some(m@),
            None => spec_status_error_message(code) is None,
        },
{
    if code == 200 {
        None
    } else if code == 403 {
        Some("GitHub API 请求过于频繁，请稍后再试".to_owned())
    } else {
        Some(with_code("GitHub 服务器错误 (", code))
    }
}

} // verus!
