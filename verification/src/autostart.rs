//! The start-with-Windows entry (`HKCU\Software\Microsoft\Windows\CurrentVersion\Run`),
//! kept by the program itself.
//!
//! The value is named [`VALUE_NAME`] whatever the executable is called, and
//! holds the current executable's path in quotes, so that a path with spaces
//! is not cut short. At start and while running, the registered path is
//! compared with the running executable and rewritten where they differ, so
//! that renaming or moving the program heals the entry. When the user
//! switched the entry off in Task Manager (`StartupApproved\Run` then holds a
//! disabled mark), it is left alone.
//!
//! This module decides; reading and writing the registry is the caller's part:
//! it hands in what it read and carries out the returned [`RunEntryAction`].

use vstd::prelude::*;
use crate::text::{
    ascii_lower_seq, ascii_lower_vec, chars_of, find, find_char_exec, find_char_from, find_exec,
    lemma_find_from_bounds, skip_char_backward, skip_char_forward, string_of_range, strip_leading,
    strip_trailing, trim, trim_end, trim_start, trimmed, push_char, push_str, lemma_find_char_from,
};

verus! {

broadcast use vstd::string::group_string_axioms;

/// Name of the entry under `Run`. Registry value names ignore case, so
/// `yulink` and `YuLink` are the same value.
pub const VALUE_NAME: &'static str = "yulink";

/// What the start-up check found and did.
#[derive(Debug, Clone, PartialEq, Eq)]
pub enum Sync {
    /// Starting with Windows is off in the settings; the entry is removed.
    Disabled,
    /// The entry already names the running program.
    UpToDate,
    /// The entry was missing or named another path; it now names the running
    /// program. `previous` is the path it named before, if there was one.
    Repaired { previous: Option<String> },
    /// The user switched the entry off in Task Manager; it is left as it is.
    DisabledByUser,
}

/// What the caller does to the registry.
#[derive(Debug, Clone, PartialEq, Eq)]
pub enum RunEntryAction {
    /// Nothing.
    Keep,
    /// Delete the `Run` value (a missing value is no failure) and its
    /// `StartupApproved` mark.
    Remove,
    /// Write `command` as the `Run` value and mark it enabled in
    /// `StartupApproved`.
    Write { command: String },
}

// ===================== paths =====================

/// The registered command line: the path in double quotes.
pub open spec fn command_line_spec(exe: Seq<char>) -> Seq<char> {
    seq!['"'] + exe + seq!['"']
}

/// The registered command line for `exe`.
pub fn command_line(exe: &str) -> (s: String)
    ensures
        s@ == command_line_spec(exe@),
{
    let mut s = String::new();
    push_char(&mut s, '"');
    push_str(&mut s, exe);
    push_char(&mut s, '"');
    s
}

/// The executable path held by a registered value. A quoted value gives what
/// stands inside the quotes; an unquoted one (written by older versions, maybe
/// followed by arguments) gives everything up to the first `.exe`, compared
/// without regard to ASCII case, or the whole trimmed value if it has none.
pub open spec fn registered_exe(raw: Seq<char>) -> Seq<char> {
    let t = trim(raw);
    if t.len() > 0 && t[0] == '"' {
        match find_char_from(t, '"', 1) {
            Some(e) => t.subrange(1, e),
            None => t.subrange(1, t.len() as int),
        }
    } else {
        match find(ascii_lower_seq(t), ".exe"@) {
            Some(i) => t.subrange(0, i + 4),
            None => t,
        }
    }
}

/// The executable path held by a registered value (see [`registered_exe`]).
pub fn parse_registered_exe(raw: &str) -> (r: String)
    ensures
        r@ == registered_exe(raw@),
{
    let t = trimmed(raw);
    let v = chars_of(t.as_str());
    assert(v@.subrange(0, v@.len() as int) == v@);
    if v.len() > 0 && v[0] == '"' {
        let found = find_char_exec(&v, '"', 1, v.len());
        assert(v@ == trim(raw@));
        assert(v@.len() > 0 && v@[0] == '"');
        proof {
            lemma_find_char_from(v@, '"', 1);
        }
        let end = match found {
            Some(k) => k,
            None => v.len(),
        };
        assert(registered_exe(raw@) == v@.subrange(1, end as int));
        return string_of_range(&v, 1, end);
    }
    let lowered = ascii_lower_vec(&v);
    let dot = chars_of(".exe");
    proof {
        reveal_strlit(".exe");
        lemma_find_from_bounds(lowered@, dot@, 0);
    }
    match find_exec(&lowered, &dot, 0) {
        Some(k) => string_of_range(&v, 0, k + 4),
        None => t,
    }
}

/// `str::to_lowercase`: the Unicode lowercase mapping of `s`.
pub uninterp spec fn unicode_lowercase(s: Seq<char>) -> Seq<char>;

/// `str::to_lowercase`. Its result is named `unicode_lowercase`; beside
/// that, only what its documentation gives plainly is stated: each character
/// is replaced by its lowercase mapping of one or more characters, so the
/// result is empty exactly when `s` is. The mapping itself is left unsaid.
#[verifier::external_body]
fn to_lowercase(s: &str) -> (r: String)
    ensures
        r@ == unicode_lowercase(s@),
        r@.len() == 0 <==> s@.len() == 0,
{
    s.to_lowercase()
}

/// `s` with each `/` turned into `\`.
pub open spec fn backslashed(s: Seq<char>) -> Seq<char> {
    s.map_values(|c: char| if c == '/' { '\\' } else { c })
}

/// A Windows path before case is folded: trimmed, without surrounding
/// quotes, with backslashes only, without trailing separators.
pub open spec fn comparable_path(p: Seq<char>) -> Seq<char> {
    strip_trailing(backslashed(strip_trailing(strip_leading(trim(p), '"'), '"')), '\\')
}

/// A Windows path made comparable: `comparable_path` in lowercase.
pub open spec fn normalized_path(p: Seq<char>) -> Seq<char> {
    unicode_lowercase(comparable_path(p))
}

/// Two paths name the same executable: they agree once normalized, and
/// neither is blank (lowercasing keeps a path empty exactly when it was).
pub open spec fn same_exe_spec(a: Seq<char>, b: Seq<char>) -> bool {
    &&& comparable_path(a).len() > 0
    &&& comparable_path(b).len() > 0
    &&& normalized_path(a) == normalized_path(b)
}

fn normalize(path: &str) -> (r: String)
    ensures
        r@ == normalized_path(path@),
        r@.len() == 0 <==> comparable_path(path@).len() == 0,
{
    let t = trimmed(path);
    let v = chars_of(t.as_str());
    let a = skip_char_forward(&v, 0, v.len(), '"');
    let b = skip_char_backward(&v, a, v.len(), '"');
    assert(v@.subrange(0, v@.len() as int) == v@);
    let ghost unquoted = v@.subrange(a as int, b as int);
    assert(unquoted == strip_trailing(strip_leading(trim(path@), '"'), '"'));
    let mut u: Vec<char> = Vec::new();
    let mut i = a;
    while i < b
        invariant
            a <= i <= b <= v.len(),
            unquoted == v@.subrange(a as int, b as int),
            u@ == backslashed(v@.subrange(a as int, i as int)),
        decreases b - i,
    {
        let c = v[i];
        u.push(if c == '/' { '\\' } else { c });
        assert(backslashed(v@.subrange(a as int, i + 1)) =~= backslashed(
            v@.subrange(a as int, i as int),
        ).push(if c == '/' { '\\' } else { c }));
        i += 1;
    }
    let e = skip_char_backward(&u, 0, u.len(), '\\');
    assert(u@.subrange(0, u@.len() as int) == u@);
    let s = string_of_range(&u, 0, e);
    to_lowercase(s.as_str())
}

/// Windows path comparison: case, slash direction and trailing separators
/// do not count; a blank path matches nothing.
pub fn same_exe(a: &str, b: &str) -> (r: bool)
    ensures
        r == same_exe_spec(a@, b@),
{
    let na = chars_of(normalize(a).as_str());
    let nb = chars_of(normalize(b).as_str());
    if na.len() == 0 || na.len() != nb.len() {
        return false;
    }
    let mut i: usize = 0;
    while i < na.len()
        invariant
            na.len() == nb.len(),
            na@ == normalized_path(a@),
            nb@ == normalized_path(b@),
            comparable_path(a@).len() > 0,
            comparable_path(b@).len() > 0,
            i <= na.len(),
            forall|j: int| 0 <= j < i ==> na@[j] == nb@[j],
        decreases na.len() - i,
    {
        if na[i] != nb[i] {
            assert(na@[i as int] != nb@[i as int]);
            return false;
        }
        i += 1;
    }
    assert(na@ =~= nb@);
    true
}

// ===================== Task Manager's mark =====================

/// The mark that says "enabled": `0x02` followed by eleven zero bytes.
/// Task Manager writes `0x03` and the time of disabling when switched off.
pub open spec fn enabled_mark_spec() -> Seq<u8> {
    seq![2u8, 0u8, 0u8, 0u8, 0u8, 0u8, 0u8, 0u8, 0u8, 0u8, 0u8, 0u8]
}

/// The bytes to write to mark the entry enabled.
pub fn enabled_mark() -> (m: Vec<u8>)
    ensures
        m@ == enabled_mark_spec(),
{
    let m: Vec<u8> = vec![2u8, 0u8, 0u8, 0u8, 0u8, 0u8, 0u8, 0u8, 0u8, 0u8, 0u8, 0u8];
    assert(m@ =~= enabled_mark_spec());
    m
}

/// What a `StartupApproved` value says: nothing when shorter than twelve
/// bytes; else enabled exactly when every byte after the first is zero.
pub open spec fn approval_of(raw: Seq<u8>) -> Option<bool> {
    if raw.len() < 12 {
        None
    } else {
        Some(forall|i: int| 1 <= i < raw.len() ==> raw[i] == 0)
    }
}

/// Reads a `StartupApproved` value (see [`approval_of`]).
pub fn approval_from_raw(raw: &[u8]) -> (r: Option<bool>)
    ensures
        r == approval_of(raw@),
{
    if raw.len() < 12 {
        return None;
    }
    let mut i: usize = 1;
    while i < raw.len()
        invariant
            12 <= raw.len(),
            1 <= i <= raw.len(),
            forall|j: int| 1 <= j < i ==> raw@[j] == 0,
        decreases raw.len() - i,
    {
        if raw[i] != 0 {
            assert(raw@[i as int] != 0);
            assert(!(forall|j: int| 1 <= j < raw@.len() ==> raw@[j] == 0));
            return Some(false);
        }
        i += 1;
    }
    Some(true)
}

// ===================== decisions =====================

/// `previous` is what `registered` names, read with [`registered_exe`].
pub open spec fn previous_of(registered: Option<&str>, previous: Option<String>) -> bool {
    match registered {
        Some(raw) => previous matches Some(p) && p@ == registered_exe(raw@),
        None => previous is None,
    }
}

/// The registered value names the running program.
pub open spec fn registered_is_current(registered: Option<&str>, exe: Seq<char>) -> bool {
    registered matches Some(raw) && same_exe_spec(registered_exe(raw@), exe)
}

/// The start-up check. `enabled` is the setting, `exe` the running
/// executable's path (not read when `enabled` is false), `registered` the
/// `Run` value as read, `approved` what [`approval_from_raw`] made of the
/// `StartupApproved` value. Returns the finding and what to do; a failure
/// to carry out `Remove` or `Write` fails the check.
pub fn sync(enabled: bool, exe: &str, registered: Option<&str>, approved: Option<bool>) -> (r: (
    Sync,
    RunEntryAction,
))
    ensures
        !enabled ==> r.0 == Sync::Disabled && r.1 == RunEntryAction::Remove,
        enabled && approved == Some(false) ==> r.0 == Sync::DisabledByUser && r.1
            == RunEntryAction::Keep,
        enabled && approved != Some(false) && registered_is_current(registered, exe@) ==> r.0
            == Sync::UpToDate && r.1 == RunEntryAction::Keep,
        enabled && approved != Some(false) && !registered_is_current(registered, exe@) ==> (r.0 matches Sync::Repaired { previous } && previous_of(registered, previous))
            && (r.1 matches RunEntryAction::Write { command } && command@ == command_line_spec(exe@)),
{
    if !enabled {
        return (Sync::Disabled, RunEntryAction::Remove);
    }
    let previous = match registered {
        Some(raw) => Some(parse_registered_exe(raw)),
        None => None,
    };
    if approved == Some(false) {
        return (Sync::DisabledByUser, RunEntryAction::Keep);
    }
    let current = match &previous {
        Some(p) => same_exe(p.as_str(), exe),
        None => false,
    };
    if current {
        return (Sync::UpToDate, RunEntryAction::Keep);
    }
    (Sync::Repaired { previous }, RunEntryAction::Write { command: command_line(exe) })
}

/// The settings switch: on writes the current path (also over an entry the
/// user switched off), off removes the entry. `exe` is not read when off.
pub fn set_enabled(enabled: bool, exe: &str) -> (a: RunEntryAction)
    ensures
        enabled ==> (a matches RunEntryAction::Write { command } && command@ == command_line_spec(exe@)),
        !enabled ==> a == RunEntryAction::Remove,
{
    if enabled {
        RunEntryAction::Write { command: command_line(exe) }
    } else {
        RunEntryAction::Remove
    }
}

/// The watch while running: an existing entry that names another path is
/// rewritten; a missing entry (off, or deleted by the user) or a current one
/// is left alone. Returns whether it rewrites, and what to do.
pub fn ensure_current(exe: &str, registered: Option<&str>) -> (r: (bool, RunEntryAction))
    ensures
        r.0 == (registered is Some && !registered_is_current(registered, exe@)),
        r.0 ==> (r.1 matches RunEntryAction::Write { command } && command@ == command_line_spec(exe@)),
        !r.0 ==> r.1 == RunEntryAction::Keep,
{
    let raw = match registered {
        Some(raw) => raw,
        None => {
            return (false, RunEntryAction::Keep);
        },
    };
    let path = parse_registered_exe(raw);
    if same_exe(path.as_str(), exe) {
        return (false, RunEntryAction::Keep);
    }
    (true, RunEntryAction::Write { command: command_line(exe) })
}

// ===================== laws =====================

/// Law: what is written reads back. The path inside the command line
/// written for `exe` is `exe` again, for any path without a double quote.
pub proof fn law_written_path_reads_back(exe: Seq<char>)
    requires
        forall|i: int| 0 <= i < exe.len() ==> exe[i] != '"',
    ensures
        registered_exe(command_line_spec(exe)) == exe,
{
    let raw = command_line_spec(exe);
    assert(raw[0] == '"' && raw.last() == '"');
    assert(trim_start(raw) == raw);
    assert(trim_end(raw) == raw);
    lemma_find_char_from(raw, '"', 1);
    assert(raw[exe.len() as int + 1] == '"');
    assert(forall|j: int| 1 <= j < exe.len() + 1 ==> raw[j] == exe[j - 1]);
    assert(find_char_from(raw, '"', 1) == Some(exe.len() as int + 1));
    assert(raw.subrange(1, exe.len() as int + 1) =~= exe);
}

/// Law: healing settles. Once the entry holds the command line written for
/// `exe`, it names the running program, so the next start-up check finds it
/// current and changes nothing; for a path without a double quote that is
/// not blank.
pub proof fn law_heal_settles(exe: Seq<char>)
    requires
        forall|i: int| 0 <= i < exe.len() ==> exe[i] != '"',
        comparable_path(exe).len() > 0,
    ensures
        same_exe_spec(registered_exe(command_line_spec(exe)), exe),
{
    law_written_path_reads_back(exe);
}

/// Law: a blank path (empty or whitespace only) names no executable, not
/// even another blank one.
pub proof fn law_blank_path_matches_nothing(a: Seq<char>, b: Seq<char>)
    requires
        trim(a).len() == 0,
    ensures
        !same_exe_spec(a, b),
        !same_exe_spec(b, a),
{
    let t = trim(a);
    assert(strip_leading(t, '"') == t);
    assert(strip_trailing(t, '"') == t);
    assert(backslashed(t).len() == 0);
    assert(strip_trailing(backslashed(t), '\\') == backslashed(t));
}

/// Law: the comparison of paths is symmetric.
pub proof fn law_same_exe_symmetric(a: Seq<char>, b: Seq<char>)
    ensures
        same_exe_spec(a, b) == same_exe_spec(b, a),
{
}

/// Law: two paths that name the same executable as a third name the same
/// executable.
pub proof fn law_same_exe_transitive(a: Seq<char>, b: Seq<char>, c: Seq<char>)
    requires
        same_exe_spec(a, b),
        same_exe_spec(b, c),
    ensures
        same_exe_spec(a, c),
{
}

/// Law: the mark written to enable the entry reads as enabled.
pub proof fn law_mark_reads_enabled()
    ensures
        approval_of(enabled_mark_spec()) == Some(true),
{
}

} // verus!
