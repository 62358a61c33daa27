//! The rotating log file: names, when to roll over, and the line format.
//!
//! Lines go to `<config>/logs/yulink.log`; past [`MAX_FILE_BYTES`] it rolls
//! over to `yulink.log.1`, `.2`, `.3`, keeping at most [`MAX_FILES`] old
//! files. No credential is ever written.

use vstd::prelude::*;
use crate::text::{owned, push_char, push_decimal, push_str, chars_of, decimal};

verus! {

broadcast use vstd::string::group_string_axioms;

/// The live log file.
pub const LOG_FILE: &'static str = "yulink.log";
/// A log file larger than this rolls over.
pub const MAX_FILE_BYTES: u64 = 524288;
/// Old log files kept.
pub const MAX_FILES: usize = 3;

/// Whether a log file of `len` bytes rolls over.
pub fn needs_rotation(len: u64) -> (b: bool)
    ensures
        b == (len > MAX_FILE_BYTES),
{
    len > MAX_FILE_BYTES
}

/// The name of log file `index`: the live file for `0`, else
/// `yulink.log.<index>`.
pub open spec fn log_file_name_spec(index: usize) -> Seq<char> {
    if index == 0 {
        "yulink.log"@
    } else {
        "yulink.log."@ + decimal(index as nat)
    }
}

/// The name of log file `index` (see [`log_file_name_spec`]).
pub fn log_file_name(index: usize) -> (n: String)
    ensures
        n@ == log_file_name_spec(index),
{
    if index == 0 {
        owned("yulink.log")
    } else {
        let mut n = owned("yulink.log.");
        push_decimal(&mut n, index as u64);
        n
    }
}

/// The renames of a roll-over, in order, after the oldest file
/// (`MAX_FILES`) was removed: each file moves up one place, the oldest
/// kept first and the live file last.
pub fn rotation_renames() -> (r: Vec<(usize, usize)>)
    ensures
        r@.len() == MAX_FILES,
        forall|j: int| 0 <= j < MAX_FILES ==> #[trigger] r@[j] == ((MAX_FILES - 1 - j) as usize, (
        MAX_FILES - j) as usize),
{
    let mut r: Vec<(usize, usize)> = Vec::new();
    let mut i: usize = MAX_FILES;
    while i > 0
        invariant
            i <= MAX_FILES,
            r@.len() == MAX_FILES - i,
            forall|j: int| 0 <= j < r@.len() ==> #[trigger] r@[j] == ((MAX_FILES - 1 - j) as usize, (
            MAX_FILES - j) as usize),
        decreases i,
    {
        r.push((i - 1, i));
        i -= 1;
    }
    r
}

/// `s` padded with spaces on the right to `width` characters (`{:<width}`).
pub open spec fn pad_right(s: Seq<char>, width: int) -> Seq<char> {
    if s.len() >= width {
        s
    } else {
        s + Seq::new((width - s.len()) as nat, |i: int| ' ')
    }
}

/// A log line: `[LEVEL timestamp] message` and CRLF, the level padded to
/// five characters.
pub open spec fn log_line_spec(level: Seq<char>, timestamp: Seq<char>, message: Seq<char>) -> Seq<char> {
    "["@ + pad_right(level, 5) + " "@ + timestamp + "] "@ + message + "\r\n"@
}

/// A log line (see [`log_line_spec`]).
pub fn log_line(level: &str, timestamp: &str, message: &str) -> (l: String)
    ensures
        l@ == log_line_spec(level@, timestamp@, message@),
{
    let mut l = owned("[");
    push_str(&mut l, level);
    let n = chars_of(level).len();
    let ghost head = "["@ + level@;
    let mut k = n;
    while k < 5
        invariant
            n == level@.len(),
            n <= k <= 5 || (k == n && n > 5),
            l@ == head + Seq::new((k - n) as nat, |i: int| ' '),
        decreases 5 - k,
    {
        let ghost before = l@;
        push_char(&mut l, ' ');
        assert(Seq::new((k + 1 - n) as nat, |i: int| ' ') =~= Seq::new((k - n) as nat, |i: int| ' ').push(' '));
        k += 1;
    }
    assert(head + Seq::new((k - n) as nat, |i: int| ' ') == "["@ + pad_right(level@, 5)) by {
        if n >= 5 {
            assert(Seq::new(0nat, |i: int| ' ') =~= Seq::<char>::empty());
            assert(head + Seq::<char>::empty() =~= head);
        } else {
            assert(k == 5);
        }
    }
    push_str(&mut l, " ");
    push_str(&mut l, timestamp);
    push_str(&mut l, "] ");
    push_str(&mut l, message);
    push_str(&mut l, "\r\n");
    l
}

} // verus!
