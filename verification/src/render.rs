//! Rendering of records as JSON text: a record becomes an object with the
//! keys `id`, `name` and `price`; a listing becomes an array of such
//! objects in order. The specification functions below state the output
//! character by character.

use vstd::prelude::*;
use crate::model::{Food, FoodView, food_views};
use crate::text::{string_to_chars, chars_to_string};

verus! {

/// The character for one decimal digit.
pub open spec fn spec_digit_char(d: nat) -> char {
    if d == 0 { '0' }
    else if d == 1 { '1' }
    else if d == 2 { '2' }
    else if d == 3 { '3' }
    else if d == 4 { '4' }
    else if d == 5 { '5' }
    else if d == 6 { '6' }
    else if d == 7 { '7' }
    else if d == 8 { '8' }
    else { '9' }
}

/// The character for one hexadecimal digit, lower case.
pub open spec fn spec_hex_char(d: nat) -> char {
    if d < 10 { spec_digit_char(d) }
    else if d == 10 { 'a' }
    else if d == 11 { 'b' }
    else if d == 12 { 'c' }
    else if d == 13 { 'd' }
    else if d == 14 { 'e' }
    else { 'f' }
}

/// The decimal digits of a number, most significant first, with no
/// superfluous leading zero.
pub open spec fn spec_dec_digits(n: nat) -> Seq<char>
    decreases n,
{
    if n < 10 {
        seq![spec_digit_char(n)]
    } else {
        spec_dec_digits(n / 10) + seq![spec_digit_char(n % 10)]
    }
}

/// How one character appears inside a JSON string literal: quote,
/// backslash and control characters are escaped, everything else stands
/// for itself.
pub open spec fn spec_escape_char(c: char) -> Seq<char> {
    if c == '"' {
        seq!['\\', '"']
    } else if c == '\\' {
        seq!['\\', '\\']
    } else if c == '\n' {
        seq!['\\', 'n']
    } else if c == '\r' {
        seq!['\\', 'r']
    } else if c == '\t' {
        seq!['\\', 't']
    } else if c as u32 == 8 {
        seq!['\\', 'b']
    } else if c as u32 == 12 {
        seq!['\\', 'f']
    } else if (c as u32) < 32 {
        seq!['\\', 'u', '0', '0', spec_hex_char((c as u32 / 16) as nat), spec_hex_char(
            (c as u32 % 16) as nat,
        )]
    } else {
        seq![c]
    }
}

/// A sequence of characters escaped for a JSON string literal.
pub open spec fn spec_escape(s: Seq<char>) -> Seq<char>
    decreases s.len(),
{
    if s.len() == 0 {
        Seq::<char>::empty()
    } else {
        spec_escape(s.drop_last()) + spec_escape_char(s.last())
    }
}

/// A JSON string literal: the escaped characters between double quotes.
pub open spec fn spec_json_string(s: Seq<char>) -> Seq<char> {
    seq!['"'] + spec_escape(s) + seq!['"']
}

/// The JSON object for one record: `{"id":<id>,"name":<name>,"price":<price>}`.
pub open spec fn spec_json_food(f: FoodView) -> Seq<char> {
    seq!['{', '"', 'i', 'd', '"', ':'] + spec_dec_digits(f.id as nat) + seq![
        ',',
        '"',
        'n',
        'a',
        'm',
        'e',
        '"',
        ':',
    ] + spec_json_string(f.name) + seq![',', '"', 'p', 'r', 'i', 'c', 'e', '"', ':'] + f.price
        + seq!['}']
}

/// The comma-separated object renderings of a sequence of records.
pub open spec fn spec_json_items(foods: Seq<FoodView>) -> Seq<char>
    decreases foods.len(),
{
    if foods.len() == 0 {
        Seq::<char>::empty()
    } else if foods.len() == 1 {
        spec_json_food(foods[0])
    } else {
        spec_json_items(foods.drop_last()) + seq![','] + spec_json_food(foods.last())
    }
}

/// The JSON array for a listing: the items between brackets.
pub open spec fn spec_json_food_list(foods: Seq<FoodView>) -> Seq<char> {
    seq!['['] + spec_json_items(foods) + seq![']']
}

/// Exec digit character.
fn digit_char(d: u64) -> (c: char)
    requires
        d < 10,
    ensures
        c == spec_digit_char(d as nat),
{
    if d == 0 { '0' }
    else if d == 1 { '1' }
    else if d == 2 { '2' }
    else if d == 3 { '3' }
    else if d == 4 { '4' }
    else if d == 5 { '5' }
    else if d == 6 { '6' }
    else if d == 7 { '7' }
    else if d == 8 { '8' }
    else { '9' }
}

/// Exec hexadecimal digit character.
fn hex_char(d: u32) -> (c: char)
    requires
        d < 16,
    ensures
        c == spec_hex_char(d as nat),
{
    if d < 10 {
        digit_char(d as u64)
    } else if d == 10 { 'a' }
    else if d == 11 { 'b' }
    else if d == 12 { 'c' }
    else if d == 13 { 'd' }
    else if d == 14 { 'e' }
    else { 'f' }
}

/// Appends the decimal digits of `n`.
fn push_dec_digits(out: &mut Vec<char>, n: u64)
    ensures
        final(out)@ == old(out)@ + spec_dec_digits(n as nat),
    decreases n,
{
    if n >= 10 {
        push_dec_digits(out, n / 10);
    }
    out.push(digit_char(n % 10));
    proof {
        assert(out@ =~= old(out)@ + spec_dec_digits(n as nat));
    }
}

/// Appends one character in its escaped form.
fn push_escaped_char(out: &mut Vec<char>, c: char)
    ensures
        final(out)@ == old(out)@ + spec_escape_char(c),
{
    if c == '"' {
        out.push('\\');
        out.push('"');
    } else if c == '\\' {
        out.push('\\');
        out.push('\\');
    } else if c == '\n' {
        out.push('\\');
        out.push('n');
    } else if c == '\r' {
        out.push('\\');
        out.push('r');
    } else if c == '\t' {
        out.push('\\');
        out.push('t');
    } else if c as u32 == 8 {
        out.push('\\');
        out.push('b');
    } else if c as u32 == 12 {
        out.push('\\');
        out.push('f');
    } else if (c as u32) < 32 {
        out.push('\\');
        out.push('u');
        out.push('0');
        out.push('0');
        out.push(hex_char((c as u32) / 16));
        out.push(hex_char((c as u32) % 16));
    } else {
        out.push(c);
    }
    proof {
        assert(out@ =~= old(out)@ + spec_escape_char(c));
    }
}

/// Appends a JSON string literal holding the characters of `s`.
fn push_json_string(out: &mut Vec<char>, s: &Vec<char>)
    ensures
        final(out)@ == old(out)@ + spec_json_string(s@),
{
    out.push('"');
    let mut i: usize = 0;
    while i < s.len()
        invariant
            i <= s.len(),
            out@ == old(out)@ + seq!['"'] + spec_escape(s@.take(i as int)),
        decreases s.len() - i,
    {
        push_escaped_char(out, s[i]);
        proof {
            assert(s@.take(i + 1 as int).drop_last() =~= s@.take(i as int));
            assert(s@.take(i + 1 as int).last() == s@[i as int]);
        }
        i = i + 1;
    }
    proof {
        assert(s@.take(s@.len() as int) =~= s@);
    }
    out.push('"');
    proof {
        assert(out@ =~= old(out)@ + spec_json_string(s@));
    }
}

/// Appends every character of `s`.
fn push_chars(out: &mut Vec<char>, s: &Vec<char>)
    ensures
        final(out)@ == old(out)@ + s@,
{
    let mut i: usize = 0;
    while i < s.len()
        invariant
            i <= s.len(),
            out@ == old(out)@ + s@.take(i as int),
        decreases s.len() - i,
    {
        out.push(s[i]);
        proof {
            assert(old(out)@ + s@.take(i + 1 as int) =~= (old(out)@ + s@.take(i as int)).push(
                s@[i as int],
            ));
        }
        i = i + 1;
    }
    proof {
        assert(s@.take(s@.len() as int) =~= s@);
    }
}

/// Appends the JSON object for one record.
fn push_json_food(out: &mut Vec<char>, f: &Food)
    ensures
        final(out)@ == old(out)@ + spec_json_food(f@),
{
    out.push('{');
    out.push('"');
    out.push('i');
    out.push('d');
    out.push('"');
    out.push(':');
    push_dec_digits(out, f.id);
    out.push(',');
    out.push('"');
    out.push('n');
    out.push('a');
    out.push('m');
    out.push('e');
    out.push('"');
    out.push(':');
    let name_chars = string_to_chars(f.name.as_str());
    push_json_string(out, &name_chars);
    out.push(',');
    out.push('"');
    out.push('p');
    out.push('r');
    out.push('i');
    out.push('c');
    out.push('e');
    out.push('"');
    out.push(':');
    let price_chars = string_to_chars(f.price.as_str());
    push_chars(out, &price_chars);
    out.push('}');
    proof {
        assert(out@ =~= old(out)@ + spec_json_food(f@));
    }
}

/// The JSON object for one record, as a string.
pub fn render_food(f: &Food) -> (r: String)
    ensures
        r@ == spec_json_food(f@),
{
    let mut out: Vec<char> = Vec::new();
    push_json_food(&mut out, f);
    chars_to_string(&out)
}

/// The JSON array for a listing, as a string.
pub fn render_food_list(foods: &Vec<Food>) -> (r: String)
    ensures
        r@ == spec_json_food_list(food_views(foods@)),
{
    let mut out: Vec<char> = Vec::new();
    out.push('[');
    let mut i: usize = 0;
    while i < foods.len()
        invariant
            i <= foods.len(),
            out@ == seq!['['] + spec_json_items(food_views(foods@).take(i as int)),
        decreases foods.len() - i,
    {
        if i > 0 {
            out.push(',');
        }
        push_json_food(&mut out, &foods[i]);
        proof {
            let views = food_views(foods@);
            assert(views.take(i + 1 as int).drop_last() =~= views.take(i as int));
            assert(views.take(i + 1 as int).last() == views[i as int]);
            assert(views[i as int] == foods@[i as int]@);
        }
        i = i + 1;
    }
    proof {
        assert(food_views(foods@).take(foods@.len() as int) =~= food_views(foods@));
    }
    out.push(']');
    proof {
        assert(out@ =~= spec_json_food_list(food_views(foods@)));
    }
    chars_to_string(&out)
}

} // verus!
