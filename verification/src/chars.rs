//! Characters: the ASCII range and its two cases, the character that a
//! glyph's name stands for, and the name under which a character's sheet is
//! stored.

use vstd::prelude::*;
use vstd::string::*;

verus! {

/// What decoding the character references of a text gives.
pub uninterp spec fn decoded_entities(text: Seq<char>) -> Seq<char>;

/// Calls `html_escape::decode_html_entities_to_string` with an empty output
/// string and returns that string. Claimed of it: the decoded text depends on
/// the given text alone.
#[verifier::external_body]
fn decode_entities(text: &str) -> (decoded: String)
    ensures
        decoded@ == decoded_entities(text@),
{
    let mut decoded = String::new();
    html_escape::decode_html_entities_to_string(text, &mut decoded);
    decoded
}

/// Calls `char::to_string`. Claimed of it: the string holds the character and
/// nothing else.
#[verifier::external_body]
fn char_string(c: char) -> (s: String)
    ensures
        s@ == seq![c],
{
    c.to_string()
}

/// Whether `c` is an ASCII character.
pub open spec fn ascii(c: char) -> bool {
    0 <= (c as int) < 128
}

/// Whether `c` is one of `A` to `Z`.
pub open spec fn upper_case(c: char) -> bool {
    65 <= (c as int) <= 90
}

/// Whether `c` is one of `a` to `z`.
pub open spec fn lower_case(c: char) -> bool {
    97 <= (c as int) <= 122
}

/// `c` with `A` to `Z` mapped to `a` to `z`.
pub open spec fn fold_lower(c: char) -> char {
    if upper_case(c) {
        ((c as int) + 32) as char
    } else {
        c
    }
}

/// `c` with `a` to `z` mapped to `A` to `Z`.
pub open spec fn fold_upper(c: char) -> char {
    if lower_case(c) {
        ((c as int) - 32) as char
    } else {
        c
    }
}

/// The first character of a text, if it has one.
pub open spec fn first_of(text: Seq<char>) -> Option<char> {
    if text.len() == 0 {
        None
    } else {
        Some(text[0])
    }
}

/// The name under which a character's sheet is stored: `slash` for `/`,
/// which no file name can hold, and the character itself otherwise.
pub open spec fn stem_of(c: char) -> Seq<char> {
    if c == '/' {
        "slash"@
    } else {
        seq![c]
    }
}

/// Whether `c` is an ASCII character.
pub fn is_ascii_char(c: char) -> (b: bool)
    ensures
        b == ascii(c),
{
    (c as u32) < 128
}

/// `c` with `A` to `Z` mapped to `a` to `z`.
pub fn to_lower(c: char) -> (r: char)
    ensures
        r == fold_lower(c),
{
    let code: u32 = c as u32;
    if 65 <= code && code <= 90 {
        ((code + 32) as u8) as char
    } else {
        c
    }
}

/// `c` with `a` to `z` mapped to `A` to `Z`.
pub fn to_upper(c: char) -> (r: char)
    ensures
        r == fold_upper(c),
{
    let code: u32 = c as u32;
    if 97 <= code && code <= 122 {
        ((code - 32) as u8) as char
    } else {
        c
    }
}

/// The first character of a text, if it has one.
pub fn first_char(text: &str) -> (r: Option<char>)
    ensures
        r == first_of(text@),
{
    if text.unicode_len() == 0 {
        None
    } else {
        Some(text.get_char(0))
    }
}

/// The character that a glyph's name stands for: the first character of the
/// name once its character references are decoded. `None` where the decoded
/// name is empty.
pub fn glyph_character(name: &str) -> (r: Option<char>)
    ensures
        r == first_of(decoded_entities(name@)),
{
    let decoded = decode_entities(name);
    first_char(decoded.as_str())
}

/// The name under which a character's sheet is stored.
pub fn file_stem(c: char) -> (s: String)
    ensures
        s@ == stem_of(c),
{
    if c == '/' {
        String::from_str("slash")
    } else {
        char_string(c)
    }
}

/// Whether `c` is among `letters`.
pub fn contains_char(letters: &Vec<char>, c: char) -> (b: bool)
    ensures
        b == letters@.contains(c),
{
    let mut i: usize = 0;
    while i < letters.len()
        invariant
            i <= letters.len(),
            forall|j: int| 0 <= j < i ==> letters[j] != c,
        decreases letters.len() - i,
    {
        if letters[i] == c {
            return true;
        }
        i += 1;
    }
    false
}

} // verus!
