//! How the values of on/off switches are read.
use vstd::prelude::*;

use crate::text::chars_eq_str;

verus! {

/// A strict boolean: exactly `true` or `false`.
pub open spec fn spec_parse_bool(s: Seq<char>) -> Option<bool> {
    if s == "true"@ {
        Some(true)
    } else if s == "false"@ {
        Some(false)
    } else {
        None
    }
}

/// A character with ASCII upper case folded to lower case.
pub open spec fn ascii_lower(c: char) -> char {
    if 'A' <= c && c <= 'Z' {
        ((c as u32) + 32) as char
    } else {
        c
    }
}

/// A text with ASCII upper case folded to lower case.
pub open spec fn ascii_lowercase(s: Seq<char>) -> Seq<char> {
    s.map_values(|c: char| ascii_lower(c))
}

/// The words that read as "off", in lower case.
pub open spec fn is_false_word(s: Seq<char>) -> bool {
    s == "n"@ || s == "no"@ || s == "f"@ || s == "false"@ || s == "off"@ || s == "0"@
}

/// A permissive boolean: the empty string and the "off" words, in any
/// case, are false; anything else is true. (Only ASCII letters can fold
/// onto the letters of the "off" words, so folding ASCII upper case is all
/// the case-folding these words need.)
pub open spec fn spec_parse_falsey(s: Seq<char>) -> bool {
    !(s.len() == 0 || is_false_word(ascii_lowercase(s)))
}

/// Folds ASCII upper case to lower case.
pub fn to_ascii_lowercase(s: &Vec<char>) -> (res: Vec<char>)
    ensures
        res@ == ascii_lowercase(s@),
{
    let mut res: Vec<char> = Vec::new();
    let n = s.len();
    for i in 0..n
        invariant
            n == s.len(),
            res@ == ascii_lowercase(s@.take(i as int)),
    {
        let c = s[i];
        let lower = if 'A' <= c && c <= 'Z' {
            let b: u8 = (c as u8) + 32;
            assert(b as u32 == (c as u32) + 32);
            b as char
        } else {
            c
        };
        assert(lower == ascii_lower(c));
        res.push(lower);
        assert(ascii_lowercase(s@.take(i + 1)) =~= ascii_lowercase(s@.take(i as int)).push(ascii_lower(c)));
    }
    assert(s@.take(n as int) =~= s@);
    res
}

/// Reads a strict boolean.
pub fn parse_bool(s: &Vec<char>) -> (res: Option<bool>)
    ensures
        res == spec_parse_bool(s@),
{
    if chars_eq_str(s, "true") {
        Some(true)
    } else if chars_eq_str(s, "false") {
        Some(false)
    } else {
        None
    }
}

/// Reads a permissive boolean.
pub fn parse_falsey(s: &Vec<char>) -> (res: bool)
    ensures
        res == spec_parse_falsey(s@),
{
    if s.len() == 0 {
        return false;
    }
    let w = to_ascii_lowercase(s);
    let off = chars_eq_str(&w, "n") || chars_eq_str(&w, "no") || chars_eq_str(&w, "f")
        || chars_eq_str(&w, "false") || chars_eq_str(&w, "off") || chars_eq_str(&w, "0");
    !off
}

} // verus!
