//! Subtitle entries and the timecodes that stamp them.
use vstd::prelude::*;

verus! {

/// One subtitle entry; times are relative to the start of the extracted stretch.
#[derive(Debug, Clone, PartialEq, Eq)]
pub struct Subtitle {
    pub index: u32,
    /// Start, in milliseconds.
    pub start: u64,
    /// End, in milliseconds.
    pub end: u64,
    pub content: String,
}

/// An ASCII decimal digit.
pub open spec fn is_digit(c: char) -> bool {
    '0' <= c && c <= '9'
}

/// `n` digits start at position `i` of `s`.
pub open spec fn digits_at(s: Seq<char>, i: int, n: nat) -> bool {
    0 <= i && i + n <= s.len() && forall|j: int| i <= j < i + n ==> is_digit(#[trigger] s[j])
}

/// The value of the `n` digits at position `i` of `s`.
pub open spec fn value_at(s: Seq<char>, i: int, n: nat) -> nat
    decreases n,
{
    if n == 0 {
        0
    } else {
        value_at(s, i, (n - 1) as nat) * 10 + (s[i + n - 1] as u32 - '0' as u32) as nat
    }
}

/// A timecode at the start of `s`: `MM:SS;mmm` or `HH:MM:SS;mmm`, with the number
/// of characters it takes and its value in milliseconds.
pub open spec fn timecode_of(s: Seq<char>) -> Option<(nat, nat)> {
    if !(digits_at(s, 0, 2) && s.len() > 2 && s[2] == ':' && digits_at(s, 3, 2)) {
        None
    } else if s.len() > 5 && s[5] == ':' && digits_at(s, 6, 2) {
        if s.len() > 8 && s[8] == ';' && digits_at(s, 9, 3) {
            Some(
                (
                    12,
                    ((value_at(s, 0, 2) * 60 + value_at(s, 3, 2)) * 60 + value_at(s, 6, 2)) * 1000
                        + value_at(s, 9, 3),
                ),
            )
        } else {
            None
        }
    } else if s.len() > 5 && s[5] == ';' && digits_at(s, 6, 3) {
        Some((9, (value_at(s, 0, 2) * 60 + value_at(s, 3, 2)) * 1000 + value_at(s, 6, 3)))
    } else {
        None
    }
}

/// Whether `n` digits start at position `i`.
fn has_digits(s: &str, len: usize, i: usize, n: usize) -> (r: bool)
    requires
        len == s@.len(),
        i + n <= usize::MAX,
    ensures
        r == digits_at(s@, i as int, n as nat),
{
    if i + n > len {
        return false;
    }
    let mut j: usize = i;
    while j < i + n
        invariant
            i <= j <= i + n,
            i + n <= len,
            len == s@.len(),
            forall|k: int| i <= k < j ==> is_digit(#[trigger] s@[k]),
        decreases i + n - j,
    {
        let c = s.get_char(j);
        if !(c >= '0' && c <= '9') {
            return false;
        }
        j = j + 1;
    }
    true
}

/// The value of the `n` (at most 3) digits at position `i`.
fn digits_value(s: &str, i: usize, n: usize) -> (r: u64)
    requires
        n <= 3,
        i <= 9,
        digits_at(s@, i as int, n as nat),
    ensures
        r == value_at(s@, i as int, n as nat),
        r < 1000,
{
    let mut v: u64 = 0;
    let mut k: usize = 0;
    while k < n
        invariant
            k <= n <= 3,
            digits_at(s@, i as int, n as nat),
            v == value_at(s@, i as int, k as nat),
            i <= 9,
            v <= (if k == 0 {
                0nat
            } else if k == 1 {
                9nat
            } else if k == 2 {
                99nat
            } else {
                999nat
            }),
        decreases n - k,
    {
        let c = s.get_char(i + k);
        assert(is_digit(s@[i + k]));
        let d = (c as u32 - '0' as u32) as u64;
        v = v * 10 + d;
        k = k + 1;
    }
    v
}

/// Reads a timecode at the start of `input`: how many characters it takes and
/// its value in milliseconds.
pub fn timecode(input: &str) -> (r: Option<(usize, u64)>)
    ensures
        match timecode_of(input@) {
            Some((n, ms)) => r == Some((n as usize, ms as u64)),
            None => r is None,
        },
{
    let len = input.unicode_len();
    if !(has_digits(input, len, 0, 2) && len > 2 && input.get_char(2) == ':' && has_digits(
        input,
        len,
        3,
        2,
    )) {
        return None;
    }
    let a = digits_value(input, 0, 2);
    let b = digits_value(input, 3, 2);
    if len > 5 && input.get_char(5) == ':' && has_digits(input, len, 6, 2) {
        let c = digits_value(input, 6, 2);
        if len > 8 && input.get_char(8) == ';' && has_digits(input, len, 9, 3) {
            let ms = digits_value(input, 9, 3);
            Some((12, ((a * 60 + b) * 60 + c) * 1000 + ms))
        } else {
            None
        }
    } else if len > 5 && input.get_char(5) == ';' && has_digits(input, len, 6, 3) {
        let ms = digits_value(input, 6, 3);
        Some((9, (a * 60 + b) * 1000 + ms))
    } else {
        None
    }
}

} // verus!
