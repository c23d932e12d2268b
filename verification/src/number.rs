//! The syntax of an operand: a decimal number with an optional fraction and
//! exponent, or an infinity, each with an optional sign.
//!
//! ```text
//! Operand  ::= Sign? ( Infinity | Number )
//! Infinity ::= 'inf' | 'infinity'            (in either case, letter by letter)
//! Number   ::= Decimal ( ( 'e' | 'E' ) Exponent )?
//! Decimal  ::= Digit+ | Digit+ '.' Digit* | Digit* '.' Digit+
//! Exponent ::= Sign? Digit+
//! ```
//!
//! `nan`, which the same syntax family writes for "not a number", is left
//! out on purpose: an operand denotes a number.

use crate::text::{
    chars_of, digit, is_digit, is_letter, is_sign, is_whitespace, lowered, sign,
};
use vstd::prelude::*;

verus! {

/// `Digit*`: every character of `s` is a digit.
pub open spec fn all_digits(s: Seq<char>) -> bool {
    forall|i: int| 0 <= i < s.len() ==> is_digit(#[trigger] s[i])
}

/// `Decimal`: digits with at most one point among them, and at least one digit.
pub open spec fn is_decimal(s: Seq<char>) -> bool {
    ||| s.len() > 0 && all_digits(s)
    ||| exists|point: int|
        0 <= point < s.len() && s.len() > 1 && #[trigger] s[point] == '.' && all_digits(
            s.take(point),
        ) && all_digits(s.skip(point + 1))
}

/// `s` without its leading sign, if it has one.
pub open spec fn unsigned(s: Seq<char>) -> Seq<char> {
    if s.len() > 0 && is_sign(s[0]) {
        s.skip(1)
    } else {
        s
    }
}

/// `Exponent`: an optional sign and at least one digit.
pub open spec fn is_exponent(s: Seq<char>) -> bool {
    unsigned(s).len() > 0 && all_digits(unsigned(s))
}

/// Whether `c` introduces an exponent.
pub open spec fn is_exponent_mark(c: char) -> bool {
    c == 'e' || c == 'E'
}

/// `Number`: a decimal, alone or followed by an exponent mark and an exponent.
pub open spec fn is_number(s: Seq<char>) -> bool {
    ||| is_decimal(s)
    ||| exists|mark: int|
        0 <= mark < s.len() && is_exponent_mark(#[trigger] s[mark]) && is_decimal(s.take(mark))
            && is_exponent(s.skip(mark + 1))
}

/// Whether `s` is `word` when capital ASCII letters are read as small ones.
pub open spec fn spells(s: Seq<char>, word: Seq<char>) -> bool {
    s.len() == word.len() && forall|i: int| 0 <= i < s.len() ==> lowered(#[trigger] s[i]) == word[i]
}

/// The short name of infinity.
pub open spec fn inf_word() -> Seq<char> {
    seq!['i', 'n', 'f']
}

/// The long name of infinity.
pub open spec fn infinity_word() -> Seq<char> {
    seq!['i', 'n', 'f', 'i', 'n', 'i', 't', 'y']
}

/// `Infinity`.
pub open spec fn is_infinity(s: Seq<char>) -> bool {
    spells(s, inf_word()) || spells(s, infinity_word())
}

/// `Operand`: what can stand on either side of an operator.
pub open spec fn is_operand(s: Seq<char>) -> bool {
    is_number(unsigned(s)) || is_infinity(unsigned(s))
}

/// A decimal holds nothing but digits and points.
pub proof fn lemma_decimal_chars(s: Seq<char>)
    requires
        is_decimal(s),
    ensures
        forall|i: int| 0 <= i < s.len() ==> is_digit(#[trigger] s[i]) || s[i] == '.',
{
    if !(s.len() > 0 && all_digits(s)) {
        let point = choose|point: int|
            0 <= point < s.len() && s.len() > 1 && #[trigger] s[point] == '.' && all_digits(
                s.take(point),
            ) && all_digits(s.skip(point + 1));
        assert forall|i: int| 0 <= i < s.len() implies is_digit(#[trigger] s[i]) || s[i]
            == '.' by {
            if i < point {
                assert(s.take(point)[i] == s[i]);
            } else if i > point {
                assert(s.skip(point + 1)[i - point - 1] == s[i]);
            }
        }
    }
}

/// An operand is not empty and holds no whitespace, so that it is a word
/// of every line it stands in.
pub proof fn lemma_operand_is_solid(s: Seq<char>)
    requires
        is_operand(s),
    ensures
        s.len() > 0,
        forall|i: int| 0 <= i < s.len() ==> !is_whitespace(#[trigger] s[i]),
{
    let body = unsigned(s);
    let shift = s.len() - body.len();
    assert(forall|i: int| 0 <= i < body.len() ==> body[i] == s[i + shift]);
    assert forall|i: int| 0 <= i < body.len() implies !is_whitespace(#[trigger] body[i]) by {
        if is_infinity(body) {
            if spells(body, inf_word()) {
                assert(lowered(body[i]) == inf_word()[i]);
            } else {
                assert(lowered(body[i]) == infinity_word()[i]);
            }
        } else if is_decimal(body) {
            lemma_decimal_chars(body);
        } else {
            let mark = choose|mark: int|
                0 <= mark < body.len() && is_exponent_mark(#[trigger] body[mark]) && is_decimal(
                    body.take(mark),
                ) && is_exponent(body.skip(mark + 1));
            lemma_decimal_chars(body.take(mark));
            let power = body.skip(mark + 1);
            if i < mark {
                assert(body.take(mark)[i] == body[i]);
            } else if i > mark {
                assert(power[i - mark - 1] == body[i]);
                let digits = unsigned(power);
                if digits.len() < power.len() {
                    if i > mark + 1 {
                        assert(digits[i - mark - 2] == body[i]);
                    }
                }
            }
        }
    }
    assert(body.len() > 0) by {
        if is_infinity(body) {
        } else if is_decimal(body) {
        } else {
        }
    }
    assert forall|i: int| 0 <= i < s.len() implies !is_whitespace(#[trigger] s[i]) by {
        if i >= shift {
            assert(body[i - shift] == s[i]);
        }
    }
}

/// Whether the characters from `lo` up to `hi` are all digits.
fn digits_between(chars: &Vec<char>, lo: usize, hi: usize) -> (r: bool)
    requires
        lo <= hi <= chars.len(),
    ensures
        r == all_digits(chars@.subrange(lo as int, hi as int)),
{
    let mut i = lo;
    while i < hi
        invariant
            lo <= i <= hi <= chars.len(),
            forall|k: int| lo <= k < i ==> is_digit(#[trigger] chars@[k]),
        decreases hi - i,
    {
        if !digit(chars[i]) {
            assert(chars@.subrange(lo as int, hi as int)[i - lo] == chars@[i as int]);
            return false;
        }
        i += 1;
    }
    assert forall|k: int| 0 <= k < hi - lo implies is_digit(
        #[trigger] chars@.subrange(lo as int, hi as int)[k],
    ) by {
        assert(is_digit(chars@[lo + k]));
    }
    true
}

/// The place of the first point from `lo` up to `hi`, or `hi` without one.
fn first_point(chars: &Vec<char>, lo: usize, hi: usize) -> (at: usize)
    requires
        lo <= hi <= chars.len(),
    ensures
        lo <= at <= hi,
        forall|k: int| lo <= k < at ==> #[trigger] chars@[k] != '.',
        at < hi ==> chars@[at as int] == '.',
{
    let mut i = lo;
    while i < hi && chars[i] != '.'
        invariant
            lo <= i <= hi <= chars.len(),
            forall|k: int| lo <= k < i ==> #[trigger] chars@[k] != '.',
        decreases hi - i,
    {
        i += 1;
    }
    i
}

/// The place of the first exponent mark from `lo` up to `hi`, or `hi` without one.
fn first_mark(chars: &Vec<char>, lo: usize, hi: usize) -> (at: usize)
    requires
        lo <= hi <= chars.len(),
    ensures
        lo <= at <= hi,
        forall|k: int| lo <= k < at ==> !is_exponent_mark(#[trigger] chars@[k]),
        at < hi ==> is_exponent_mark(chars@[at as int]),
{
    let mut i = lo;
    while i < hi && !(chars[i] == 'e' || chars[i] == 'E')
        invariant
            lo <= i <= hi <= chars.len(),
            forall|k: int| lo <= k < i ==> !is_exponent_mark(#[trigger] chars@[k]),
        decreases hi - i,
    {
        i += 1;
    }
    i
}

/// Whether the characters from `lo` up to `hi` form a decimal.
fn decimal_between(chars: &Vec<char>, lo: usize, hi: usize) -> (r: bool)
    requires
        lo <= hi <= chars.len(),
    ensures
        r == is_decimal(chars@.subrange(lo as int, hi as int)),
{
    let ghost s = chars@.subrange(lo as int, hi as int);
    let point = first_point(chars, lo, hi);
    if point == hi {
        let r = lo < hi && digits_between(chars, lo, hi);
        proof {
            assert forall|p: int| 0 <= p < s.len() implies #[trigger] s[p] != '.' by {
                assert(s[p] == chars@[lo + p]);
            }
        }
        r
    } else {
        let r = hi - lo > 1 && digits_between(chars, lo, point) && digits_between(
            chars,
            point + 1,
            hi,
        );
        proof {
            let at = point - lo;
            assert(s[at] == '.');
            assert(s.take(at) == chars@.subrange(lo as int, point as int));
            assert(s.skip(at + 1) == chars@.subrange(point + 1, hi as int));
            assert(!all_digits(s));
            if is_decimal(s) {
                let p = choose|p: int|
                    0 <= p < s.len() && s.len() > 1 && #[trigger] s[p] == '.' && all_digits(
                        s.take(p),
                    ) && all_digits(s.skip(p + 1));
                if p > at {
                    assert(s.take(p)[at] == s[at]);
                }
                if p < at {
                    assert(s[p] == chars@[lo + p]);
                }
                assert(p == at);
            }
        }
        r
    }
}

/// Whether the characters from `lo` up to `hi` form an exponent.
fn exponent_between(chars: &Vec<char>, lo: usize, hi: usize) -> (r: bool)
    requires
        lo <= hi <= chars.len(),
    ensures
        r == is_exponent(chars@.subrange(lo as int, hi as int)),
{
    let ghost s = chars@.subrange(lo as int, hi as int);
    let start = if lo < hi && sign(chars[lo]) {
        lo + 1
    } else {
        lo
    };
    assert(unsigned(s) == chars@.subrange(start as int, hi as int));
    start < hi && digits_between(chars, start, hi)
}

/// Whether the characters from `lo` up to `hi` form a number.
fn number_between(chars: &Vec<char>, lo: usize, hi: usize) -> (r: bool)
    requires
        lo <= hi <= chars.len(),
    ensures
        r == is_number(chars@.subrange(lo as int, hi as int)),
{
    let ghost s = chars@.subrange(lo as int, hi as int);
    let mark = first_mark(chars, lo, hi);
    if mark == hi {
        proof {
            assert forall|m: int| 0 <= m < s.len() implies !is_exponent_mark(#[trigger] s[m]) by {
                assert(s[m] == chars@[lo + m]);
            }
        }
        decimal_between(chars, lo, hi)
    } else {
        let r = decimal_between(chars, lo, mark) && exponent_between(chars, mark + 1, hi);
        proof {
            let at = mark - lo;
            assert(is_exponent_mark(s[at]));
            assert(s.take(at) == chars@.subrange(lo as int, mark as int));
            assert(s.skip(at + 1) == chars@.subrange(mark + 1, hi as int));
            if is_decimal(s) {
                lemma_decimal_chars(s);
                assert(is_digit(s[at]) || s[at] == '.');
            }
            if is_number(s) {
                let m = choose|m: int|
                    0 <= m < s.len() && is_exponent_mark(#[trigger] s[m]) && is_decimal(
                        s.take(m),
                    ) && is_exponent(s.skip(m + 1));
                if m > at {
                    lemma_decimal_chars(s.take(m));
                    assert(s.take(m)[at] == s[at]);
                }
                if m < at {
                    assert(s[m] == chars@[lo + m]);
                }
                assert(m == at);
            }
        }
        r
    }
}

/// Whether the characters from `lo` up to `hi` name infinity.
fn infinity_between(chars: &Vec<char>, lo: usize, hi: usize) -> (r: bool)
    requires
        lo <= hi <= chars.len(),
    ensures
        r == is_infinity(chars@.subrange(lo as int, hi as int)),
{
    let ghost s = chars@.subrange(lo as int, hi as int);
    if hi - lo == 3 {
        let r = is_letter(chars[lo], 'i') && is_letter(chars[lo + 1], 'n') && is_letter(
            chars[lo + 2],
            'f',
        );
        proof {
            assert(s[0] == chars@[lo as int] && s[1] == chars@[lo + 1] && s[2] == chars@[lo + 2]);
            assert(!spells(s, infinity_word()));
        }
        r
    } else if hi - lo == 8 {
        let r = is_letter(chars[lo], 'i') && is_letter(chars[lo + 1], 'n') && is_letter(
            chars[lo + 2],
            'f',
        ) && is_letter(chars[lo + 3], 'i') && is_letter(chars[lo + 4], 'n') && is_letter(
            chars[lo + 5],
            'i',
        ) && is_letter(chars[lo + 6], 't') && is_letter(chars[lo + 7], 'y');
        proof {
            assert(s[0] == chars@[lo as int] && s[1] == chars@[lo + 1] && s[2] == chars@[lo + 2]
                && s[3] == chars@[lo + 3] && s[4] == chars@[lo + 4] && s[5] == chars@[lo + 5]
                && s[6] == chars@[lo + 6] && s[7] == chars@[lo + 7]);
            assert(!spells(s, inf_word()));
        }
        r
    } else {
        false
    }
}

/// Decides `is_operand` for the text of a token.
pub fn valid_operand(token: &str) -> (r: bool)
    ensures
        r == is_operand(token@),
{
    let chars = chars_of(token);
    let n = chars.len();
    let start: usize = if n > 0 && sign(chars[0]) {
        1
    } else {
        0
    };
    assert(unsigned(token@) == chars@.subrange(start as int, n as int));
    number_between(&chars, start, n) || infinity_between(&chars, start, n)
}

} // verus!
