//! Window dimensions written as `<columns>x<lines>`.
use vstd::prelude::*;

use crate::text::{find_char, find_char_in, lemma_find_char, lemma_find_char_at, lemma_find_char_none, str_chars};

verus! {

/// A width and a height, in grid cells or in pixels.
#[derive(Clone, Copy, Debug, PartialEq, Eq, Structural)]
pub struct Dimensions {
    pub width: u64,
    pub height: u64,
}

pub open spec fn is_digit(c: char) -> bool {
    '0' <= c && c <= '9'
}

pub open spec fn digit_value(c: char) -> nat {
    (c as int - '0' as int) as nat
}

/// The number that a string of decimal digits denotes.
pub open spec fn decimal_value(s: Seq<char>) -> nat
    decreases s.len(),
{
    if s.len() == 0 {
        0
    } else {
        decimal_value(s.drop_last()) * 10 + digit_value(s.last())
    }
}

pub open spec fn all_digits(s: Seq<char>) -> bool {
    forall|i: int| 0 <= i < s.len() ==> is_digit(s[i])
}

/// The digits of an unsigned number: a leading `+` is allowed.
pub open spec fn unsigned_digits(s: Seq<char>) -> Seq<char> {
    if s.len() > 0 && s[0] == '+' {
        s.drop_first()
    } else {
        s
    }
}

/// An unsigned 64-bit decimal number: an optional `+`, then at least one
/// digit, denoting a value that fits in 64 bits.
pub open spec fn spec_parse_u64(s: Seq<char>) -> Option<u64> {
    let d = unsigned_digits(s);
    if d.len() > 0 && all_digits(d) && decimal_value(d) <= u64::MAX {
        Some(decimal_value(d) as u64)
    } else {
        None
    }
}

/// One dimension: a number greater than zero.
pub open spec fn spec_parse_dimension(s: Seq<char>) -> Option<u64> {
    match spec_parse_u64(s) {
        Some(v) => if v > 0 {
            Some(v)
        } else {
            None
        },
        None => None,
    }
}

/// `<width>x<height>`: exactly one `x`, with a dimension on each side.
pub open spec fn spec_parse_dimensions(s: Seq<char>) -> Option<Dimensions> {
    match find_char(s, 'x') {
        None => None,
        Some(k) => {
            let w = s.take(k);
            let h = s.skip(k + 1);
            if find_char(h, 'x') is Some {
                None
            } else {
                match (spec_parse_dimension(w), spec_parse_dimension(h)) {
                    (Some(width), Some(height)) => Some(Dimensions { width, height }),
                    _ => None,
                }
            }
        },
    }
}

proof fn lemma_decimal_value_prefix(s: Seq<char>, i: int)
    requires
        0 <= i <= s.len(),
        all_digits(s),
    ensures
        decimal_value(s.take(i)) <= decimal_value(s),
    decreases s.len() - i,
{
    if i < s.len() {
        lemma_decimal_value_prefix(s, i + 1);
        assert(s.take(i + 1).drop_last() =~= s.take(i));
    } else {
        assert(s.take(i) =~= s);
    }
}


/// The decimal digit of `d`, which is below ten.
pub open spec fn digit_char(d: nat) -> char {
    (d + 48) as char
}

/// The decimal text of `n`, without leading zeros.
pub open spec fn decimal_text(n: nat) -> Seq<char>
    decreases n,
{
    if n < 10 {
        seq![digit_char(n)]
    } else {
        decimal_text(n / 10).push(digit_char(n % 10))
    }
}

/// The decimal text of `n` is a non-empty run of digits that denotes `n`.
proof fn lemma_decimal_text(n: nat)
    ensures
        decimal_text(n).len() > 0,
        all_digits(decimal_text(n)),
        decimal_value(decimal_text(n)) == n,
    decreases n,
{
    let t = decimal_text(n);
    if n < 10 {
        let c = digit_char(n);
        assert(c as int == n + 48);
        assert('0' as int == 48);
        assert(t.drop_last() =~= Seq::<char>::empty());
        assert(t.last() == c);
        assert(digit_value(c) == n);
        assert(decimal_value(t) == decimal_value(t.drop_last()) * 10 + digit_value(t.last()));
    } else {
        lemma_decimal_text(n / 10);
        let c = digit_char(n % 10);
        assert(c as int == n % 10 + 48);
        let p = decimal_text(n / 10);
        assert(t.drop_last() =~= p);
        assert('0' as int == 48);
        assert(t.last() == c);
        assert(digit_value(c) == n % 10);
        assert(decimal_value(t) == decimal_value(p) * 10 + n % 10);
        assert(n == (n / 10) * 10 + n % 10);
        assert forall|i: int| 0 <= i < t.len() implies is_digit(t[i]) by {
            if i < p.len() {
                assert(t[i] == p[i]);
            }
        }
    }
}

/// The decimal text of a positive 64-bit number reads as that dimension.
proof fn lemma_dimension_text(n: u64)
    requires
        n > 0,
    ensures
        spec_parse_dimension(decimal_text(n as nat)) == Some(n),
        forall|j: int| 0 <= j < decimal_text(n as nat).len() ==> decimal_text(n as nat)[j] != 'x',
{
    let t = decimal_text(n as nat);
    lemma_decimal_text(n as nat);
    assert(is_digit(t[0]));
    assert(unsigned_digits(t) == t);
    assert forall|j: int| 0 <= j < t.len() implies t[j] != 'x' by {
        assert(is_digit(t[j]));
    }
}

/// **A size is read as its width, `x`, then its height**: for all positive
/// 64-bit `w` and `h`, the decimal text of `w`, then `x`, then the decimal
/// text of `h`, reads as width `w` and height `h`, whichever is larger.
pub proof fn law_dimensions_text(w: u64, h: u64)
    requires
        w > 0,
        h > 0,
    ensures
        spec_parse_dimensions(decimal_text(w as nat) + "x"@ + decimal_text(h as nat)) == Some(
            Dimensions { width: w, height: h },
        ),
{
    reveal_strlit("x");
    let dw = decimal_text(w as nat);
    let dh = decimal_text(h as nat);
    lemma_dimension_text(w);
    lemma_dimension_text(h);
    let s = dw + "x"@ + dh;
    assert(s[dw.len() as int] == 'x');
    assert forall|j: int| 0 <= j < dw.len() implies s[j] != 'x' by {
        assert(s[j] == dw[j]);
    }
    lemma_find_char_at(s, 'x', dw.len() as int);
    assert(s.take(dw.len() as int) =~= dw);
    assert(s.skip(dw.len() as int + 1) =~= dh);
    lemma_find_char_none(dh, 'x');
}

/// Parses `s[lo..hi]` as an unsigned 64-bit decimal number.
pub fn parse_u64(s: &Vec<char>, lo: usize, hi: usize) -> (res: Option<u64>)
    requires
        lo <= hi <= s.len(),
    ensures
        res == spec_parse_u64(s@.subrange(lo as int, hi as int)),
{
    let ghost sub = s@.subrange(lo as int, hi as int);
    let start = if lo < hi && s[lo] == '+' {
        lo + 1
    } else {
        lo
    };
    let ghost d = s@.subrange(start as int, hi as int);
    assert(d =~= unsigned_digits(sub));
    if start == hi {
        return None;
    }
    let mut value: u64 = 0;
    let mut i = start;
    while i < hi
        invariant
            lo <= start <= i <= hi <= s.len(),
            d == s@.subrange(start as int, hi as int),
            d == unsigned_digits(s@.subrange(lo as int, hi as int)),
            all_digits(d.take(i - start)),
            value == decimal_value(d.take(i - start)),
        decreases hi - i,
    {
        let c = s[i];
        assert(d.take(i + 1 - start).drop_last() =~= d.take(i - start));
        assert(d[i - start] == c);
        if !('0' <= c && c <= '9') {
            assert(!all_digits(d));
            return None;
        }
        let digit = (c as u32 - '0' as u32) as u64;
        assert(digit == digit_value(c));
        let next = match value.checked_mul(10) {
            Some(t) => t.checked_add(digit),
            None => None,
        };
        match next {
            Some(v) => {
                value = v;
            },
            None => {
                proof {
                    assert(all_digits(d.take(i + 1 - start))) by {
                        assert forall|j: int| 0 <= j < i + 1 - start implies is_digit(
                            #[trigger] d.take(i + 1 - start)[j],
                        ) by {
                            if j < i - start {
                                assert(d.take(i + 1 - start)[j] == d.take(i - start)[j]);
                            }
                        }
                    }
                    assert(decimal_value(d.take(i + 1 - start)) == value * 10 + digit);
                    assert(forall|j: int| 0 <= j < i + 1 - start ==> d.take(i + 1 - start)[j] == d[j]);
                    if all_digits(d) {
                        lemma_decimal_value_prefix(d, i + 1 - start);
                    }
                }
                return None;
            },
        }
        i = i + 1;
        assert(all_digits(d.take(i - start))) by {
            assert forall|j: int| 0 <= j < i - start implies is_digit(#[trigger] d.take(i - start)[j]) by {
                if j < i - 1 - start {
                    assert(d.take(i - start)[j] == d.take(i - 1 - start)[j]);
                }
            }
        }
    }
    assert(d.take(hi - start) =~= d);
    Some(value)
}

/// Parses `s[lo..hi]` as one dimension, a number greater than zero.
fn parse_dimension(s: &Vec<char>, lo: usize, hi: usize) -> (res: Option<u64>)
    requires
        lo <= hi <= s.len(),
    ensures
        res == spec_parse_dimension(s@.subrange(lo as int, hi as int)),
{
    match parse_u64(s, lo, hi) {
        Some(v) => if v > 0 {
            Some(v)
        } else {
            None
        },
        None => None,
    }
}

/// Parses `s[lo..hi]` as `<width>x<height>`.
pub fn parse_dimensions(s: &Vec<char>, lo: usize, hi: usize) -> (res: Option<Dimensions>)
    requires
        lo <= hi <= s.len(),
    ensures
        res == spec_parse_dimensions(s@.subrange(lo as int, hi as int)),
{
    let ghost sub = s@.subrange(lo as int, hi as int);
    proof {
        lemma_find_char(sub, 'x');
    }
    match find_char_in(s, lo, hi, 'x') {
        None => None,
        Some(k) => {
            let ghost kk = k - lo;
            assert(sub.take(kk) =~= s@.subrange(lo as int, k as int));
            assert(sub.skip(kk + 1) =~= s@.subrange(k + 1, hi as int));
            if find_char_in(s, k + 1, hi, 'x').is_some() {
                return None;
            }
            let w = parse_dimension(s, lo, k);
            let h = parse_dimension(s, k + 1, hi);
            match (w, h) {
                (Some(width), Some(height)) => Some(Dimensions { width, height }),
                _ => None,
            }
        },
    }
}

impl std::str::FromStr for Dimensions {
    type Err = String;

    /// Reads `<width>x<height>` as `parse_dimensions` does.
    fn from_str(s: &str) -> (res: Result<Dimensions, String>)
        ensures
            match spec_parse_dimensions(s@) {
                Some(d) => res == Ok::<Dimensions, String>(d),
                None => res matches Err(m) && m@ == "Invalid geometry. Expected <columns>x<lines>"@,
            },
    {
        let chars = str_chars(s);
        assert(chars@.subrange(0, chars.len() as int) =~= s@);
        match parse_dimensions(&chars, 0, chars.len()) {
            Some(d) => Ok(d),
            None => Err("Invalid geometry. Expected <columns>x<lines>".to_owned()),
        }
    }
}

} // verus!
