//! The command lines and arguments with which the application asks the
//! system to open files, control panels, settings pages and scripts, and the
//! wide strings that the Windows calls take.

use vstd::prelude::*;

verus! {

/// The command line that opens `path` with the program the system
/// associates with it.
pub fn open_with_system(path: &str) -> (r: Vec<String>)
    ensures
        r@.map_values(|s: String| s@) == seq!["cmd"@, "/c"@, "start"@, ""@, path@],
{
    let mut r: Vec<String> = Vec::new();
    r.push("cmd".to_owned());
    r.push("/c".to_owned());
    r.push("start".to_owned());
    r.push("".to_owned());
    r.push(path.to_owned());
    assert(r@.map_values(|s: String| s@) =~= seq!["cmd"@, "/c"@, "start"@, ""@, path@]);
    r
}

/// The argument of `rundll32.exe` that opens a page of the classic sound
/// control panel.
pub fn sound_panel_args(panel: &str) -> (r: String)
    ensures
        r@ == "shell32.dll,Control_RunDLL mmsys.cpl,,"@ + panel@,
{
    let mut r = "shell32.dll,Control_RunDLL mmsys.cpl,,".to_owned();
    r.append(panel);
    r
}

/// The address of a page of the Windows settings.
pub fn settings_page_url(page: &str) -> (r: String)
    ensures
        r@ == "ms-settings:"@ + page@,
{
    let mut r = "ms-settings:".to_owned();
    r.append(page);
    r
}

/// The arguments with which PowerShell runs a script file with its own
/// arguments.
pub fn powershell_args(script: &str, args: &Vec<String>) -> (r: Vec<String>)
    ensures
        r@.map_values(|s: String| s@) == seq![
            "-NoProfile"@,
            "-ExecutionPolicy"@,
            "Bypass"@,
            "-File"@,
            script@,
        ] + args@.map_values(|s: String| s@),
{
    let mut r: Vec<String> = Vec::new();
    r.push("-NoProfile".to_owned());
    r.push("-ExecutionPolicy".to_owned());
    r.push("Bypass".to_owned());
    r.push("-File".to_owned());
    r.push(script.to_owned());
    let ghost head = seq!["-NoProfile"@, "-ExecutionPolicy"@, "Bypass"@, "-File"@, script@];
    assert(r@.map_values(|s: String| s@) =~= head);
    let mut i: usize = 0;
    while i < args.len()
        invariant
            i <= args@.len(),
            r@.map_values(|s: String| s@) == head + args@.subrange(0, i as int).map_values(
                |s: String| s@,
            ),
        decreases args@.len() - i,
    {
        let ghost before = r@.map_values(|s: String| s@);
        r.push(args[i].clone());
        assert(args@.subrange(0, i + 1).map_values(|s: String| s@) =~= args@.subrange(
            0,
            i as int,
        ).map_values(|s: String| s@).push(args@[i as int]@));
        assert(r@.map_values(|s: String| s@) =~= before.push(args@[i as int]@));
        i = i + 1;
    }
    assert(args@.subrange(0, args@.len() as int) =~= args@);
    r
}

/// The UTF-16 code units of one character: one below U+10000, else a
/// surrogate pair.
pub open spec fn utf16_of(c: char) -> Seq<u16> {
    let u = c as u32;
    if u < 0x10000 {
        seq![u as u16]
    } else {
        let v = u - 0x10000;
        seq![(0xD800 + v / 1024) as u16, (0xDC00 + v % 1024) as u16]
    }
}

/// The UTF-16 encoding of a string.
pub open spec fn spec_utf16(s: Seq<char>) -> Seq<u16>
    decreases s.len(),
{
    if s.len() == 0 {
        Seq::empty()
    } else {
        spec_utf16(s.drop_last()) + utf16_of(s.last())
    }
}

/// The string as the wide, zero-terminated text that the Windows calls take.
pub fn to_wide(s: &str) -> (r: Vec<u16>)
    ensures
        r@ == spec_utf16(s@).push(0u16),
{
    let v = crate::text::chars_of(s);
    let mut r: Vec<u16> = Vec::new();
    let mut i: usize = 0;
    while i < v.len()
        invariant
            v@ == s@,
            i <= v@.len(),
            r@ == spec_utf16(v@.subrange(0, i as int)),
        decreases v@.len() - i,
    {
        assert(v@.subrange(0, i + 1).drop_last() =~= v@.subrange(0, i as int));
        assert(v@.subrange(0, i + 1).last() == v@[i as int]);
        let c = v[i];
        proof {
            vstd::utf8::char_is_scalar(c);
        }
        let u = c as u32;
        let ghost before = r@;
        if u < 0x10000 {
            r.push(u as u16);
        } else {
            let w = u - 0x10000;
            r.push((0xD800 + w / 1024) as u16);
            r.push((0xDC00 + w % 1024) as u16);
        }
        assert(r@ =~= before + utf16_of(v@[i as int]));
        i = i + 1;
    }
    assert(v@.subrange(0, v@.len() as int) =~= v@);
    r.push(0);
    r
}

} // verus!
