//! Exact decimal amounts for prices and piece counts, and the reading of
//! such amounts from text.

use vstd::prelude::*;
use crate::text::{
    all_digits, char_for, chars_of, decimal_digits, digit_char, digit_for, digit_of, digit_value,
    digits_value, is_digit, lemma_decimal_digits, lemma_digits_value_prefix, number_text,
    string_of,
};

verus! {

/// A non-negative amount with two decimal places, held as its number of
/// hundredths: `1234.56` is `Decimal { hundredths: 123456 }`.
#[derive(Clone, Copy, Debug, PartialEq, Eq, Structural)]
pub struct Decimal {
    pub hundredths: u32,
}

/// The largest whole number a [`Decimal`] can hold.
pub const MAX_WHOLE: u32 = 42_949_672;

impl Decimal {
    /// The amount `whole.00`, where it fits.
    pub fn from_whole(whole: u32) -> (out: Option<Decimal>)
        ensures
            out == if whole <= MAX_WHOLE {
                Some(Decimal { hundredths: (whole * 100) as u32 })
            } else {
                None
            },
    {
        if whole <= MAX_WHOLE {
            Some(Decimal { hundredths: whole * 100 })
        } else {
            None
        }
    }

    /// Writes the amount with its two decimal places: `1234.50`.
    pub fn to_text(self) -> (out: String)
        ensures
            out@ == decimal_text(self),
    {
        let mut out = number_text(self.hundredths / 100);
        out.push('.');
        out.push(char_for(self.hundredths / 10 % 10));
        out.push(char_for(self.hundredths % 10));
        assert(out@ =~= decimal_text(self));
        out
    }
}

/// The amount written with its two decimal places: the whole part in base
/// ten, a point, and two digits.
pub open spec fn decimal_text(amount: Decimal) -> Seq<char> {
    decimal_digits((amount.hundredths / 100) as nat) + seq![
        '.',
        digit_for((amount.hundredths / 10 % 10) as nat),
        digit_for((amount.hundredths % 10) as nat),
    ]
}

/// `s` without its thousands separators.
pub open spec fn without_separators(s: Seq<char>) -> Seq<char> {
    s.filter(|c: char| c != ',')
}

/// Removes every `,` from `text` and keeps the rest in order.
pub fn strip_separators(text: &str) -> (out: String)
    ensures
        out@ == without_separators(text@),
{
    let cs = chars_of(text);
    let mut kept: Vec<char> = Vec::new();
    let mut i: usize = 0;
    while i < cs.len()
        invariant
            i <= cs.len(),
            kept@ == without_separators(cs@.take(i as int)),
        decreases cs.len() - i,
    {
        proof {
            reveal(Seq::filter);
            assert(cs@.take(i + 1).drop_last() == cs@.take(i as int));
        }
        if cs[i] != ',' {
            kept.push(cs[i]);
        }
        i += 1;
    }
    assert(cs@.take(cs.len() as int) == cs@);
    string_of(&kept)
}

/// Where the first `.` of `s` stands, or `s.len()` if it has none.
pub open spec fn dot_index(s: Seq<char>) -> int
    decreases s.len(),
{
    if s.len() == 0 || s[0] == '.' {
        0
    } else {
        1 + dot_index(s.drop_first())
    }
}

/// The digits before the decimal point.
pub open spec fn whole_part(s: Seq<char>) -> Seq<char> {
    s.take(dot_index(s))
}

/// The digits after the decimal point; empty where there is no point.
pub open spec fn fraction_part(s: Seq<char>) -> Seq<char> {
    if dot_index(s) < s.len() {
        s.skip(dot_index(s) + 1)
    } else {
        Seq::empty()
    }
}

/// The shape of a decimal amount: digits, then optionally a point and at
/// most two more digits, with at least one digit in all.
pub open spec fn is_decimal_text(s: Seq<char>) -> bool {
    &&& all_digits(whole_part(s))
    &&& all_digits(fraction_part(s))
    &&& fraction_part(s).len() <= 2
    &&& whole_part(s).len() + fraction_part(s).len() >= 1
}

/// The hundredths that one or two fraction digits stand for.
pub open spec fn fraction_hundredths(f: Seq<char>) -> nat {
    if f.len() == 0 {
        0
    } else if f.len() == 1 {
        digit_value(f[0]) * 10
    } else {
        digit_value(f[0]) * 10 + digit_value(f[1])
    }
}

/// The number of hundredths that a decimal text denotes.
pub open spec fn text_hundredths(s: Seq<char>) -> nat {
    digits_value(whole_part(s)) * 100 + fraction_hundredths(fraction_part(s))
}

/// What [`parse_decimal`] returns for `s`.
pub open spec fn parsed_decimal(s: Seq<char>) -> Option<Decimal> {
    if is_decimal_text(s) && text_hundredths(s) <= u32::MAX {
        Some(Decimal { hundredths: text_hundredths(s) as u32 })
    } else {
        None
    }
}

/// `dot_index` is the first position that holds a point.
pub proof fn lemma_dot_index(s: Seq<char>, i: int)
    requires
        0 <= i <= s.len(),
        forall|j: int| 0 <= j < i ==> s[j] != '.',
        i == s.len() || s[i] == '.',
    ensures
        dot_index(s) == i,
    decreases i,
{
    if i > 0 {
        let t = s.drop_first();
        assert forall|j: int| 0 <= j < i - 1 implies t[j] != '.' by {
            assert(t[j] == s[j + 1]);
        }
        lemma_dot_index(t, i - 1);
    }
}

/// Reads a decimal amount. The text is digits, then optionally a point and
/// up to two more digits; at least one digit must be there. `"12"`, `"12."`,
/// `"12.5"`, `"12.50"` and `".5"` are amounts; `""`, `"."`, `"1,2"`, `"1.234"`
/// and amounts above `42949672.95` are not.
pub fn parse_decimal(text: &str) -> (out: Option<Decimal>)
    ensures
        out == parsed_decimal(text@),
{
    let cs = chars_of(text);
    let n = cs.len();
    let mut i: usize = 0;
    let mut whole: u64 = 0;
    while i < n && cs[i] != '.'
        invariant
            n == cs.len(),
            cs@ == text@,
            i <= n,
            forall|j: int| 0 <= j < i ==> cs@[j] != '.',
            all_digits(cs@.take(i as int)),
            whole == digits_value(cs@.take(i as int)),
            whole <= MAX_WHOLE,
        decreases n - i,
    {
        let ghost next = cs@.take(i + 1);
        proof {
            assert(next.drop_last() == cs@.take(i as int));
            lemma_dot_index_bounds(cs@);
            lemma_dot_index_is_dot(cs@);
            assert(dot_index(cs@) > i);
            assert(whole_part(cs@)[i as int] == cs@[i as int]);
        }
        if !digit_char(cs[i]) {
            return None;
        }
        let grown = whole * 10 + digit_of(cs[i]) as u64;
        if grown > MAX_WHOLE as u64 {
            proof {
                assert(whole_part(cs@).take(i + 1) == next);
                lemma_digits_value_prefix(whole_part(cs@), i + 1);
            }
            return None;
        }
        assert forall|j: int| 0 <= j < next.len() implies is_digit(#[trigger] next[j]) by {
            if j < i {
                assert(cs@.take(i as int)[j] == next[j]);
            }
        }
        whole = grown;
        i += 1;
    }
    proof {
        lemma_dot_index(cs@, i as int);
    }
    let mut fraction: u32 = 0;
    if i < n {
        let digits = n - i - 1;
        let ghost f = fraction_part(cs@);
        assert(f.len() == digits);
        if digits > 2 {
            return None;
        }
        if digits >= 1 {
            assert(f[0] == cs@[i + 1]);
            if !digit_char(cs[i + 1]) {
                return None;
            }
            fraction = digit_of(cs[i + 1]) * 10;
        }
        if digits == 2 {
            assert(f[1] == cs@[i + 2]);
            if !digit_char(cs[i + 2]) {
                return None;
            }
            fraction = fraction + digit_of(cs[i + 2]);
        }
        if i == 0 && digits == 0 {
            return None;
        }
    } else if n == 0 {
        return None;
    }
    let total = whole * 100 + fraction as u64;
    if total > u32::MAX as u64 {
        return None;
    }
    Some(Decimal { hundredths: total as u32 })
}

/// `dot_index` stays within the text.
pub proof fn lemma_dot_index_bounds(s: Seq<char>)
    ensures
        0 <= dot_index(s) <= s.len(),
    decreases s.len(),
{
    if s.len() > 0 && s[0] != '.' {
        lemma_dot_index_bounds(s.drop_first());
    }
}

/// Where `dot_index` stops short of the end, a point stands there.
pub proof fn lemma_dot_index_is_dot(s: Seq<char>)
    ensures
        dot_index(s) < s.len() ==> s[dot_index(s)] == '.',
        forall|j: int| 0 <= j < dot_index(s) ==> s[j] != '.',
    decreases s.len(),
{
    if s.len() > 0 && s[0] != '.' {
        let t = s.drop_first();
        lemma_dot_index_is_dot(t);
        lemma_dot_index_bounds(t);
        assert forall|j: int| 0 <= j < dot_index(s) implies s[j] != '.' by {
            if j > 0 {
                assert(s[j] == t[j - 1]);
            }
        }
    }
}

/// Reading what was written gives the amount back: every amount is the
/// parse of its own text.
pub proof fn lemma_text_round_trip(amount: Decimal)
    ensures
        parsed_decimal(decimal_text(amount)) == Some(amount),
{
    let h = amount.hundredths;
    let whole = decimal_digits((h / 100) as nat);
    let tens = digit_for((h / 10 % 10) as nat);
    let ones = digit_for((h % 10) as nat);
    let text = decimal_text(amount);
    lemma_decimal_digits((h / 100) as nat);
    assert(text.len() == whole.len() + 3);
    assert forall|j: int| 0 <= j < whole.len() implies text[j] != '.' by {
        assert(text[j] == whole[j]);
        assert(is_digit(whole[j]));
    }
    assert(text[whole.len() as int] == '.');
    lemma_dot_index(text, whole.len() as int);
    assert(whole_part(text) =~= whole);
    assert(fraction_part(text) =~= seq![tens, ones]);
    assert(is_digit(tens) && digit_value(tens) == h / 10 % 10);
    assert(is_digit(ones) && digit_value(ones) == h % 10);
    assert(text_hundredths(text) == (h / 100) * 100 + (h / 10 % 10) * 10 + h % 10);
    assert(text_hundredths(text) == h);
}

} // verus!
