//! Lenient reading of a create request out of JSON text.
//!
//! The body is expected to be an object; the members `name` (a string)
//! and `price` (a number) are picked up, the last occurrence winning,
//! while other members — nested arrays and objects among them — are
//! passed over. Anything else — a missing member, a member of the wrong
//! type, or a body that does not parse as such an object at all — falls
//! back to the defaults (empty name, price zero) instead of failing the
//! request.

use vstd::prelude::*;
use crate::chars::{
    is_digit, is_number_token, spec_digits_end, spec_number_end, spec_ws_end, digits_end, ws_end,
};
use crate::model::{CreateFoodRequest, default_price};
use crate::text::{chars_to_string, string_to_chars};

verus! {

/// The decoded form of a backslash escape inside a string literal, if the
/// escape is one the grammar accepts.
pub open spec fn spec_unescape_char(c: char) -> Option<char> {
    if c == '"' { Some('"') }
    else if c == '\\' { Some('\\') }
    else if c == '/' { Some('/') }
    else if c == 'n' { Some('\n') }
    else if c == 't' { Some('\t') }
    else if c == 'r' { Some('\r') }
    else if c == 'b' { Some('\u{0008}') }
    else if c == 'f' { Some('\u{000C}') }
    else { None }
}

/// The decoded characters and the end position of a string literal body
/// that starts at `i`, just after the opening quote.
pub open spec fn spec_string_body(s: Seq<char>, i: int) -> Option<(Seq<char>, int)>
    decreases s.len() - i,
{
    if !(0 <= i && i < s.len()) {
        None
    } else if s[i] == '"' {
        Some((Seq::<char>::empty(), i + 1))
    } else if s[i] == '\\' {
        if i + 1 < s.len() {
            match spec_unescape_char(s[i + 1]) {
                Some(c) => match spec_string_body(s, i + 2) {
                    Some(t) => Some((seq![c] + t.0, t.1)),
                    None => None,
                },
                None => None,
            }
        } else {
            None
        }
    } else if (s[i] as u32) < 32 {
        None
    } else {
        match spec_string_body(s, i + 1) {
            Some(t) => Some((seq![s[i]] + t.0, t.1)),
            None => None,
        }
    }
}

/// The decoded characters and the end position of a string literal that
/// starts with its opening quote at `i`.
pub open spec fn spec_string_at(s: Seq<char>, i: int) -> Option<(Seq<char>, int)> {
    if 0 <= i && i < s.len() && s[i] == '"' {
        spec_string_body(s, i + 1)
    } else {
        None
    }
}

/// What one member's value contributes: the characters of a string, the
/// token of a number, or nothing of interest.
pub enum JsonField {
    Text(Seq<char>),
    Number(Seq<char>),
    Other,
}

/// Scans past a nested array or object: bracket depth is counted, and
/// string literals are passed over so that brackets inside them do not
/// count. `Some` is the position just after the bracket that closes the
/// value.
pub open spec fn spec_skip_nested(
    s: Seq<char>,
    i: int,
    depth: int,
    in_str: bool,
    esc: bool,
) -> Option<int>
    decreases s.len() - i,
{
    if !(0 <= i && i < s.len()) {
        None
    } else {
        let c = s[i];
        if in_str {
            if esc {
                spec_skip_nested(s, i + 1, depth, true, false)
            } else if c == '\\' {
                spec_skip_nested(s, i + 1, depth, true, true)
            } else if c == '"' {
                spec_skip_nested(s, i + 1, depth, false, false)
            } else {
                spec_skip_nested(s, i + 1, depth, true, false)
            }
        } else {
            if c == '[' || c == '{' {
                spec_skip_nested(s, i + 1, depth + 1, false, false)
            } else if c == ']' || c == '}' {
                if depth == 1 {
                    Some(i + 1)
                } else if depth > 1 {
                    spec_skip_nested(s, i + 1, depth - 1, false, false)
                } else {
                    None
                }
            } else if c == '"' {
                spec_skip_nested(s, i + 1, depth, true, false)
            } else {
                spec_skip_nested(s, i + 1, depth, false, false)
            }
        }
    }
}

/// The classified value that starts at `i`: a string, a number, one of
/// the literals `true`, `false`, `null`, or a nested array or object,
/// which is skipped whole and contributes nothing.
pub open spec fn spec_member_value(s: Seq<char>, i: int) -> Option<(JsonField, int)> {
    if !(0 <= i && i < s.len()) {
        None
    } else if s[i] == '"' {
        match spec_string_at(s, i) {
            Some(t) => Some((JsonField::Text(t.0), t.1)),
            None => None,
        }
    } else if s[i] == '-' || is_digit(s[i]) {
        match spec_number_end(s, i) {
            Some(e) => Some((JsonField::Number(s.subrange(i, e)), e)),
            None => None,
        }
    } else if s[i] == 't' {
        if i + 3 < s.len() && s[i + 1] == 'r' && s[i + 2] == 'u' && s[i + 3] == 'e' {
            Some((JsonField::Other, i + 4))
        } else {
            None
        }
    } else if s[i] == 'f' {
        if i + 4 < s.len() && s[i + 1] == 'a' && s[i + 2] == 'l' && s[i + 3] == 's' && s[i + 4]
            == 'e' {
            Some((JsonField::Other, i + 5))
        } else {
            None
        }
    } else if s[i] == 'n' {
        if i + 3 < s.len() && s[i + 1] == 'u' && s[i + 2] == 'l' && s[i + 3] == 'l' {
            Some((JsonField::Other, i + 4))
        } else {
            None
        }
    } else if s[i] == '[' || s[i] == '{' {
        match spec_skip_nested(s, i, 0, false, false) {
            Some(e) => Some((JsonField::Other, e)),
            None => None,
        }
    } else {
        None
    }
}

/// The characters of the key `name`.
pub open spec fn key_name() -> Seq<char> {
    seq!['n', 'a', 'm', 'e']
}

/// The characters of the key `price`.
pub open spec fn key_price() -> Seq<char> {
    seq!['p', 'r', 'i', 'c', 'e']
}

/// `j`, clamped so that it always moves past `i`.
pub open spec fn advance(i: int, j: int) -> int {
    if j >= i + 1 { j } else { i + 1 }
}

/// Reads the members of the object from position `i` (just after the
/// opening brace or after a comma) to the closing brace, folding each
/// member into the accumulated `name` and `price`. `None` is a body
/// outside the grammar.
pub open spec fn spec_members(s: Seq<char>, i: int, name: Seq<char>, price: Seq<char>) -> Option<
    (Seq<char>, Seq<char>, int),
>
    decreases s.len() - i,
{
    if i < 0 || i >= s.len() {
        None
    } else {
        let j = spec_ws_end(s, i);
        match spec_string_at(s, j) {
            None => None,
            Some(k) => {
                let jc = spec_ws_end(s, k.1);
                if !(jc < s.len() && s[jc] == ':') {
                    None
                } else {
                    let jv = spec_ws_end(s, jc + 1);
                    match spec_member_value(s, jv) {
                        None => None,
                        Some(fv) => {
                            let name2 = match fv.0 {
                                JsonField::Text(t) => if k.0 == key_name() { t } else { name },
                                _ => name,
                            };
                            let price2 = match fv.0 {
                                JsonField::Number(t) => if k.0 == key_price() && is_number_token(t) {
                                    t
                                } else {
                                    price
                                },
                                _ => price,
                            };
                            let m = spec_ws_end(s, fv.1);
                            if m < s.len() && s[m] == ',' {
                                spec_members(s, advance(i, m + 1), name2, price2)
                            } else if m < s.len() && s[m] == '}' {
                                Some((name2, price2, m + 1))
                            } else {
                                None
                            }
                        },
                    }
                }
            },
        }
    }
}

/// What a body reads as: the name and the price of the request, both
/// defaulted wherever the body does not supply them within the grammar.
pub open spec fn spec_parse_request(s: Seq<char>) -> (Seq<char>, Seq<char>) {
    let i = spec_ws_end(s, 0);
    if i < s.len() && s[i] == '{' {
        let j = spec_ws_end(s, i + 1);
        if j < s.len() && s[j] == '}' {
            (Seq::<char>::empty(), default_price())
        } else {
            match spec_members(s, i + 1, Seq::<char>::empty(), default_price()) {
                Some(r) => if spec_ws_end(s, r.2) == s.len() {
                    (r.0, r.1)
                } else {
                    (Seq::<char>::empty(), default_price())
                },
                None => (Seq::<char>::empty(), default_price()),
            }
        }
    } else {
        (Seq::<char>::empty(), default_price())
    }
}

/// Exec mirror of `spec_unescape_char`.
fn unescape_char(c: char) -> (r: Option<char>)
    ensures
        r == spec_unescape_char(c),
{
    if c == '"' { Some('"') }
    else if c == '\\' { Some('\\') }
    else if c == '/' { Some('/') }
    else if c == 'n' { Some('\n') }
    else if c == 't' { Some('\t') }
    else if c == 'r' { Some('\r') }
    else if c == 'b' { Some('\u{0008}') }
    else if c == 'f' { Some('\u{000C}') }
    else { None }
}

/// Reads a string literal whose opening quote stands at `i`.
fn parse_string_at(s: &Vec<char>, i: usize) -> (r: Option<(Vec<char>, usize)>)
    requires
        i <= s.len(),
    ensures
        match r {
            Some(t) => spec_string_at(s@, i as int) == Some((t.0@, t.1 as int)) && i < t.1
                <= s.len(),
            None => spec_string_at(s@, i as int) is None,
        },
{
    if !(i < s.len()) {
        return None;
    }
    if s[i] != '"' {
        return None;
    }
    let mut acc: Vec<char> = Vec::new();
    let mut j: usize = i + 1;
    loop
        invariant
            i + 1 <= j <= s.len(),
            i < s.len(),
            s@[i as int] == '"',
            spec_string_at(s@, i as int) == (match spec_string_body(s@, j as int) {
                Some(t) => Some((acc@ + t.0, t.1)),
                None => None,
            }),
        decreases s.len() - j,
    {
        if j == s.len() {
            return None;
        }
        let c = s[j];
        if c == '"' {
            proof {
                assert(acc@ + Seq::<char>::empty() =~= acc@);
            }
            return Some((acc, j + 1));
        }
        if c == '\\' {
            if j + 1 == s.len() {
                return None;
            }
            let d = s[j + 1];
            match unescape_char(d) {
                None => {
                    return None;
                },
                Some(dc) => {
                    proof {
                        match spec_string_body(s@, j + 2 as int) {
                            Some(t) => {
                                assert(acc@ + (seq![dc] + t.0) =~= acc@.push(dc) + t.0);
                            },
                            None => {},
                        }
                    }
                    acc.push(dc);
                    j = j + 2;
                },
            }
        } else if (c as u32) < 32 {
            return None;
        } else {
            proof {
                match spec_string_body(s@, j + 1 as int) {
                    Some(t) => {
                        assert(acc@ + (seq![c] + t.0) =~= acc@.push(c) + t.0);
                    },
                    None => {},
                }
            }
            acc.push(c);
            j = j + 1;
        }
    }
}

/// Finds the end of the number token that starts at `i`.
fn parse_number_at(s: &Vec<char>, i: usize) -> (r: Option<usize>)
    requires
        i <= s.len(),
    ensures
        match r {
            Some(e) => spec_number_end(s@, i as int) == Some(e as int) && i < e <= s.len(),
            None => spec_number_end(s@, i as int) is None,
        },
{
    let mut j: usize = i;
    if j < s.len() && s[j] == '-' {
        j = j + 1;
    }
    if !(j < s.len()) {
        return None;
    }
    let c = s[j];
    if !(48 <= c as u32 && c as u32 <= 57) {
        return None;
    }
    let after_int: usize = if c == '0' { j + 1 } else { digits_end(s, j) };
    proof {
        if c != '0' {
            crate::chars::lemma_digits_end_bounds(s@, j + 1 as int);
            assert(spec_digits_end(s@, j as int) == spec_digits_end(s@, j + 1 as int));
        }
    }
    let mut e: usize = after_int;
    if after_int < s.len() && s[after_int] == '.' {
        let fe = digits_end(s, after_int + 1);
        if fe == after_int + 1 {
            return None;
        }
        e = fe;
    }
    if e < s.len() {
        let x = s[e];
        if x == 'e' || x == 'E' {
            let mut es: usize = e + 1;
            if es < s.len() {
                let y = s[es];
                if y == '+' || y == '-' {
                    es = es + 1;
                }
            }
            let ee = digits_end(s, es);
            if ee == es {
                return None;
            }
            e = ee;
        }
    }
    Some(e)
}

/// Whether a whole sequence is one well-formed number token.
pub fn check_number_token(v: &Vec<char>) -> (r: bool)
    ensures
        r == is_number_token(v@),
{
    match parse_number_at(v, 0) {
        Some(e) => e == v.len(),
        None => false,
    }
}

/// The characters of `s` between `a` and `b`.
fn copy_range(s: &Vec<char>, a: usize, b: usize) -> (v: Vec<char>)
    requires
        a <= b <= s.len(),
    ensures
        v@ == s@.subrange(a as int, b as int),
{
    let mut v: Vec<char> = Vec::new();
    let mut k: usize = a;
    while k < b
        invariant
            a <= k <= b <= s.len(),
            v@ == s@.subrange(a as int, k as int),
        decreases b - k,
    {
        v.push(s[k]);
        proof {
            assert(s@.subrange(a as int, k + 1 as int) =~= s@.subrange(a as int, k as int).push(
                s@[k as int],
            ));
        }
        k = k + 1;
    }
    v
}

/// The exec counterpart of `JsonField`.
pub enum FieldValue {
    Text(Vec<char>),
    Number(Vec<char>),
    Other,
}

impl View for FieldValue {
    type V = JsonField;

    open spec fn view(&self) -> JsonField {
        match self {
            FieldValue::Text(v) => JsonField::Text(v@),
            FieldValue::Number(v) => JsonField::Number(v@),
            FieldValue::Other => JsonField::Other,
        }
    }
}

/// Exec mirror of `spec_skip_nested`, from the opening bracket.
fn skip_nested(s: &Vec<char>, i: usize) -> (r: Option<usize>)
    requires
        i <= s.len(),
    ensures
        match r {
            Some(e) => spec_skip_nested(s@, i as int, 0, false, false) == Some(e as int) && i < e
                <= s.len(),
            None => spec_skip_nested(s@, i as int, 0, false, false) is None,
        },
{
    let mut j: usize = i;
    let mut depth: usize = 0;
    let mut in_str = false;
    let mut esc = false;
    loop
        invariant
            i <= j <= s.len(),
            depth <= j - i,
            !in_str ==> !esc,
            spec_skip_nested(s@, i as int, 0, false, false) == spec_skip_nested(
                s@,
                j as int,
                depth as int,
                in_str,
                esc,
            ),
        decreases s.len() - j,
    {
        if j == s.len() {
            return None;
        }
        let c = s[j];
        if in_str {
            if esc {
                esc = false;
            } else if c == '\\' {
                esc = true;
            } else if c == '"' {
                in_str = false;
            }
            j = j + 1;
        } else {
            if c == '[' || c == '{' {
                depth = depth + 1;
                j = j + 1;
            } else if c == ']' || c == '}' {
                if depth == 1 {
                    return Some(j + 1);
                } else if depth > 1 {
                    depth = depth - 1;
                    j = j + 1;
                } else {
                    return None;
                }
            } else if c == '"' {
                in_str = true;
                j = j + 1;
            } else {
                j = j + 1;
            }
        }
    }
}

/// Classifies the value that starts at `i`.
fn parse_member_value(s: &Vec<char>, i: usize) -> (r: Option<(FieldValue, usize)>)
    requires
        i <= s.len(),
    ensures
        match r {
            Some(t) => spec_member_value(s@, i as int) == Some((t.0@, t.1 as int)) && i < t.1
                <= s.len(),
            None => spec_member_value(s@, i as int) is None,
        },
{
    if !(i < s.len()) {
        return None;
    }
    let c = s[i];
    if c == '"' {
        match parse_string_at(s, i) {
            Some(t) => Some((FieldValue::Text(t.0), t.1)),
            None => None,
        }
    } else if c == '-' || (48 <= c as u32 && c as u32 <= 57) {
        match parse_number_at(s, i) {
            Some(e) => {
                let tok = copy_range(s, i, e);
                Some((FieldValue::Number(tok), e))
            },
            None => None,
        }
    } else if c == 't' {
        if s.len() - i > 3 && s[i + 1] == 'r' && s[i + 2] == 'u' && s[i + 3] == 'e' {
            Some((FieldValue::Other, i + 4))
        } else {
            None
        }
    } else if c == 'f' {
        if s.len() - i > 4 && s[i + 1] == 'a' && s[i + 2] == 'l' && s[i + 3] == 's' && s[i + 4]
            == 'e' {
            Some((FieldValue::Other, i + 5))
        } else {
            None
        }
    } else if c == 'n' {
        if s.len() - i > 3 && s[i + 1] == 'u' && s[i + 2] == 'l' && s[i + 3] == 'l' {
            Some((FieldValue::Other, i + 4))
        } else {
            None
        }
    } else if c == '[' || c == '{' {
        match skip_nested(s, i) {
            Some(e) => Some((FieldValue::Other, e)),
            None => None,
        }
    } else {
        None
    }
}

/// Whether `k` holds exactly the key `name`.
fn is_name_key(k: &Vec<char>) -> (r: bool)
    ensures
        r == (k@ == key_name()),
{
    let r = k.len() == 4 && k[0] == 'n' && k[1] == 'a' && k[2] == 'm' && k[3] == 'e';
    proof {
        if r {
            assert(k@ =~= key_name());
        }
        if k@ == key_name() {
            assert(k@.len() == 4);
            assert(k@[0] == 'n' && k@[1] == 'a' && k@[2] == 'm' && k@[3] == 'e');
        }
    }
    r
}

/// Whether `k` holds exactly the key `price`.
fn is_price_key(k: &Vec<char>) -> (r: bool)
    ensures
        r == (k@ == key_price()),
{
    let r = k.len() == 5 && k[0] == 'p' && k[1] == 'r' && k[2] == 'i' && k[3] == 'c' && k[4] == 'e';
    proof {
        if r {
            assert(k@ =~= key_price());
        }
        if k@ == key_price() {
            assert(k@.len() == 5);
            assert(k@[0] == 'p' && k@[1] == 'r' && k@[2] == 'i' && k@[3] == 'c' && k@[4] == 'e');
        }
    }
    r
}

/// The default price, as characters.
fn default_price_chars() -> (v: Vec<char>)
    ensures
        v@ == default_price(),
{
    let mut v: Vec<char> = Vec::new();
    v.push('0');
    v.push('.');
    v.push('0');
    proof {
        assert(v@ =~= default_price());
    }
    v
}

/// The default price is itself a well-formed number token.
pub proof fn lemma_default_price_token()
    ensures
        is_number_token(default_price()),
{
    let s = default_price();
    assert(spec_digits_end(s, 3) == 3);
    assert(spec_digits_end(s, 2) == 3);
    assert(spec_number_end(s, 0) == Some(3int));
}

/// Exec mirror of `spec_members`, from the position just after the
/// opening brace.
fn parse_members(s: &Vec<char>, start: usize) -> (r: Option<(Vec<char>, Vec<char>, usize)>)
    requires
        start <= s.len(),
    ensures
        match r {
            Some(t) => spec_members(s@, start as int, Seq::<char>::empty(), default_price())
                == Some((t.0@, t.1@, t.2 as int)) && t.2 <= s.len() && is_number_token(t.1@),
            None => spec_members(s@, start as int, Seq::<char>::empty(), default_price()) is None,
        },
{
    let mut i: usize = start;
    let mut name_v: Vec<char> = Vec::new();
    let mut price_v: Vec<char> = default_price_chars();
    proof {
        lemma_default_price_token();
    }
    loop
        invariant
            i <= s.len(),
            is_number_token(price_v@),
            spec_members(s@, start as int, Seq::<char>::empty(), default_price()) == spec_members(
                s@,
                i as int,
                name_v@,
                price_v@,
            ),
        decreases s.len() - i,
    {
        let ghost i0 = i as int;
        let ghost n0 = name_v@;
        let ghost p0 = price_v@;
        if i == s.len() {
            return None;
        }
        let j = ws_end(s, i);
        match parse_string_at(s, j) {
            None => {
                return None;
            },
            Some(kt) => {
                let key = kt.0;
                let jk = kt.1;
                let jc = ws_end(s, jk);
                if !(jc < s.len()) {
                    return None;
                }
                if s[jc] != ':' {
                    return None;
                }
                let jv = ws_end(s, jc + 1);
                match parse_member_value(s, jv) {
                    None => {
                        return None;
                    },
                    Some(ft) => {
                        let je = ft.1;
                        match ft.0 {
                            FieldValue::Text(t) => {
                                if is_name_key(&key) {
                                    name_v = t;
                                }
                            },
                            FieldValue::Number(t) => {
                                if is_price_key(&key) && check_number_token(&t) {
                                    price_v = t;
                                }
                            },
                            FieldValue::Other => {},
                        }
                        let m = ws_end(s, je);
                        if !(m < s.len()) {
                            return None;
                        }
                        let mc = s[m];
                        if mc == ',' {
                            i = m + 1;
                            proof {
                                assert(advance(i0, m + 1 as int) == i as int);
                                assert(spec_members(s@, i0, n0, p0) == spec_members(
                                    s@,
                                    i as int,
                                    name_v@,
                                    price_v@,
                                ));
                            }
                        } else if mc == '}' {
                            return Some((name_v, price_v, m + 1));
                        } else {
                            return None;
                        }
                    },
                }
            },
        }
    }
}

/// Reads a request body, falling back to the defaults wherever the body
/// does not supply a member within the grammar.
pub fn parse_create_food_request(body: &str) -> (req: CreateFoodRequest)
    ensures
        req.name@ == spec_parse_request(body@).0,
        req.price@ == spec_parse_request(body@).1,
        req.wf(),
{
    proof {
        lemma_default_price_token();
    }
    let s = string_to_chars(body);
    let mut name_v: Vec<char> = Vec::new();
    let mut price_v: Vec<char> = default_price_chars();
    let i = ws_end(&s, 0);
    if i < s.len() {
        let c = s[i];
        if c == '{' {
            let j = ws_end(&s, i + 1);
            let mut empty_object = false;
            if j < s.len() {
                if s[j] == '}' {
                    empty_object = true;
                }
            }
            if !empty_object {
                match parse_members(&s, i + 1) {
                    Some(t) => {
                        let e = t.2;
                        let tail = ws_end(&s, e);
                        if tail == s.len() {
                            name_v = t.0;
                            price_v = t.1;
                        }
                    },
                    None => {},
                }
            }
        }
    }
    CreateFoodRequest { name: chars_to_string(&name_v), price: chars_to_string(&price_v) }
}

} // verus!
