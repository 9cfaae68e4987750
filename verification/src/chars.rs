//! Character classes and the number-token grammar shared by the request
//! parser and the response renderer.

use vstd::prelude::*;

verus! {

/// JSON insignificant whitespace.
pub open spec fn is_ws(c: char) -> bool {
    c == ' ' || c == '\t' || c == '\n' || c == '\r'
}

/// A decimal digit.
pub open spec fn is_digit(c: char) -> bool {
    48 <= c as u32 && c as u32 <= 57
}

/// The first position at or after `i` that does not hold whitespace.
pub open spec fn spec_ws_end(s: Seq<char>, i: int) -> int
    decreases s.len() - i,
{
    if 0 <= i && i < s.len() && is_ws(s[i]) {
        spec_ws_end(s, i + 1)
    } else {
        i
    }
}

/// The first position at or after `i` that does not hold a digit.
pub open spec fn spec_digits_end(s: Seq<char>, i: int) -> int
    decreases s.len() - i,
{
    if 0 <= i && i < s.len() && is_digit(s[i]) {
        spec_digits_end(s, i + 1)
    } else {
        i
    }
}

/// Where the number token that starts at `i` ends, if one starts there.
/// The grammar is the JSON one: an optional minus sign, an integer part
/// without a superfluous leading zero, an optional fraction and an
/// optional exponent.
pub open spec fn spec_number_end(s: Seq<char>, i: int) -> Option<int> {
    let j = if 0 <= i && i < s.len() && s[i] == '-' { i + 1 } else { i };
    if !(0 <= j && j < s.len() && is_digit(s[j])) {
        None
    } else {
        let after_int = if s[j] == '0' { j + 1 } else { spec_digits_end(s, j) };
        let after_frac = if after_int < s.len() && s[after_int] == '.' {
            let fe = spec_digits_end(s, after_int + 1);
            if fe == after_int + 1 { None } else { Some(fe) }
        } else {
            Some(after_int)
        };
        match after_frac {
            None => None,
            Some(af) => {
                if af < s.len() && (s[af] == 'e' || s[af] == 'E') {
                    let es = if af + 1 < s.len() && (s[af + 1] == '+' || s[af + 1] == '-') {
                        af + 2
                    } else {
                        af + 1
                    };
                    let ee = spec_digits_end(s, es);
                    if ee == es { None } else { Some(ee) }
                } else {
                    Some(af)
                }
            },
        }
    }
}

/// A sequence that is exactly one number token.
pub open spec fn is_number_token(s: Seq<char>) -> bool {
    spec_number_end(s, 0) == Some(s.len() as int)
}

/// Digit scanning stays inside the sequence and stops at the first
/// non-digit.
pub proof fn lemma_digits_end_bounds(s: Seq<char>, i: int)
    requires
        0 <= i <= s.len(),
    ensures
        i <= spec_digits_end(s, i) <= s.len(),
        spec_digits_end(s, i) == s.len() || !is_digit(s[spec_digits_end(s, i)]),
        forall|k: int| i <= k < spec_digits_end(s, i) ==> is_digit(s[k]),
    decreases s.len() - i,
{
    if i < s.len() && is_digit(s[i]) {
        lemma_digits_end_bounds(s, i + 1);
    }
}

/// Exec mirror of `spec_ws_end`.
pub fn ws_end(s: &Vec<char>, i: usize) -> (r: usize)
    requires
        i <= s.len(),
    ensures
        r == spec_ws_end(s@, i as int),
        i <= r <= s.len(),
{
    let mut j: usize = i;
    loop
        invariant
            i <= j <= s.len(),
            spec_ws_end(s@, i as int) == spec_ws_end(s@, j as int),
        ensures
            i <= j <= s.len(),
            spec_ws_end(s@, i as int) == j as int,
        decreases s.len() - j,
    {
        if j < s.len() {
            let c = s[j];
            if c == ' ' || c == '\t' || c == '\n' || c == '\r' {
                j = j + 1;
                continue;
            }
        }
        break;
    }
    j
}

/// Exec mirror of `spec_digits_end`.
pub fn digits_end(s: &Vec<char>, i: usize) -> (r: usize)
    requires
        i <= s.len(),
    ensures
        r == spec_digits_end(s@, i as int),
        i <= r <= s.len(),
{
    let mut j: usize = i;
    loop
        invariant
            i <= j <= s.len(),
            spec_digits_end(s@, i as int) == spec_digits_end(s@, j as int),
        ensures
            i <= j <= s.len(),
            spec_digits_end(s@, i as int) == j as int,
        decreases s.len() - j,
    {
        if j < s.len() {
            let c = s[j];
            if 48 <= c as u32 && c as u32 <= 57 {
                j = j + 1;
                continue;
            }
        }
        break;
    }
    j
}

} // verus!
