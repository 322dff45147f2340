//! The user's device-name filter: a case-insensitive regular expression,
//! compiled and matched by the regex crate.

use vstd::prelude::*;
use crate::device::{Device, DeviceView, devices_view};

verus! {

#[verifier::external_type_specification]
#[verifier::external_body]
pub struct ExRegex(regex::Regex);

/// Whether `regex::Regex::new` accepts the pattern.
pub uninterp spec fn spec_regex_compiles(pattern: Seq<char>) -> bool;

/// Whether the expression compiled from `pattern` matches somewhere in `text`.
pub uninterp spec fn spec_regex_is_match(pattern: Seq<char>, text: Seq<char>) -> bool;

/// A compiled expression, kept with the pattern it was compiled from.
pub struct CompiledRegex {
    re: regex::Regex,
    pattern: String,
}

impl CompiledRegex {
    /// The pattern the expression was compiled from.
    pub closed spec fn pattern(&self) -> Seq<char> {
        self.pattern@
    }
}

/// Calls `regex::Regex::new`, which compiles the pattern or fails on an
/// invalid one or one over the default size limit. Claimed: it succeeds
/// exactly when `spec_regex_compiles` holds of the pattern, which is a name
/// for that outcome; the expression is kept with its pattern.
#[verifier::external_body]
fn regex_new(pattern: &str) -> (r: Option<CompiledRegex>)
    ensures
        r is Some <==> spec_regex_compiles(pattern@),
        r matches Some(c) ==> c.pattern() == pattern@,
{
    match regex::Regex::new(pattern) {
        Ok(re) => Some(CompiledRegex { re, pattern: pattern.to_owned() }),
        Err(_) => None,
    }
}

/// Calls `regex::Regex::is_match`, which tells whether the expression
/// matches anywhere in the text. Claimed: the answer is
/// `spec_regex_is_match` of the pattern and the text, a name for it.
#[verifier::external_body]
fn regex_is_match(re: &CompiledRegex, text: &str) -> (r: bool)
    ensures
        r == spec_regex_is_match(re.pattern(), text@),
{
    re.re.is_match(text)
}

/// The expression built from the user's filter text: case-insensitive, the
/// text as one group.
pub open spec fn spec_filter_pattern(filter: Seq<char>) -> Seq<char> {
    "(?i)("@ + filter + ")"@
}

/// Compiles the user's filter; `None` when the expression is refused.
pub fn compile_filter(filter: &str) -> (r: Option<CompiledRegex>)
    ensures
        r is Some <==> spec_regex_compiles(spec_filter_pattern(filter@)),
        r matches Some(c) ==> c.pattern() == spec_filter_pattern(filter@),
{
    let mut p = "(?i)(".to_owned();
    p.append(filter);
    p.append(")");
    regex_new(p.as_str())
}

/// Whether the expression matches somewhere in `text`.
pub fn filter_matches(re: &CompiledRegex, text: &str) -> (r: bool)
    ensures
        r == spec_regex_is_match(re.pattern(), text@),
{
    regex_is_match(re, text)
}

/// The devices whose names the expression does not match, in order.
pub open spec fn spec_unmatched(devs: Seq<DeviceView>, pattern: Seq<char>) -> Seq<DeviceView>
    decreases devs.len(),
{
    if devs.len() == 0 {
        devs
    } else if spec_regex_is_match(pattern, devs.last().name) {
        spec_unmatched(devs.drop_last(), pattern)
    } else {
        spec_unmatched(devs.drop_last(), pattern).push(devs.last())
    }
}

/// No device that the filter keeps has a name that it matches.
pub proof fn lemma_unmatched_names(devs: Seq<DeviceView>, pattern: Seq<char>)
    ensures
        forall|i: int|
            0 <= i < spec_unmatched(devs, pattern).len() ==> !spec_regex_is_match(
                pattern,
                #[trigger] spec_unmatched(devs, pattern)[i].name,
            ),
    decreases devs.len(),
{
    if devs.len() > 0 {
        lemma_unmatched_names(devs.drop_last(), pattern);
    }
}

/// Keeps the devices whose names the expression does not match.
pub fn retain_unmatched(devices: &mut Vec<Device>, re: &CompiledRegex)
    ensures
        devices_view(final(devices)@) == spec_unmatched(devices_view(old(devices)@), re.pattern()),
{
    let ghost dv = devices_view(devices@);
    let mut kept: Vec<Device> = Vec::new();
    let mut i: usize = 0;
    while i < devices.len()
        invariant
            i <= devices@.len(),
            dv == devices_view(devices@),
            devices_view(kept@) == spec_unmatched(dv.subrange(0, i as int), re.pattern()),
        decreases devices@.len() - i,
    {
        assert(dv.subrange(0, i + 1).drop_last() =~= dv.subrange(0, i as int));
        assert(dv.subrange(0, i + 1).last() == devices@[i as int]@);
        if !regex_is_match(re, devices[i].name.as_str()) {
            let ghost before = devices_view(kept@);
            let d = devices[i].copy();
            kept.push(d);
            assert(devices_view(kept@) =~= before.push(devices@[i as int]@));
        }
        i = i + 1;
    }
    assert(dv.subrange(0, devices@.len() as int) =~= dv);
    *devices = kept;
}

} // verus!
