//! Character-level helpers shared by the parsers of this crate.

use vstd::prelude::*;

verus! {

/// `String::push` appends the character to the end of the string and leaves
/// what was there before in place.
pub assume_specification[ String::push ](s: &mut String, ch: char)
    ensures
        final(s)@ == old(s)@.push(ch),
;

/// The text of an optional string.
pub open spec fn text_of(s: Option<String>) -> Option<Seq<char>> {
    match s {
        Some(t) => Some(t@),
        None => None,
    }
}

/// The characters of `text`, in order.
pub fn chars_of(text: &str) -> (out: Vec<char>)
    ensures
        out@ == text@,
{
    let mut out: Vec<char> = Vec::new();
    for c in it: text.chars()
        invariant
            out@ == it.seq().take(it.index()),
            it.seq() == text@,
    {
        out.push(c);
    }
    out
}

/// The string made of `chars`, in order.
pub fn string_of(chars: &Vec<char>) -> (out: String)
    ensures
        out@ == chars@,
{
    let mut out = String::new();
    let mut i: usize = 0;
    while i < chars.len()
        invariant
            i <= chars.len(),
            out@ == chars@.take(i as int),
        decreases chars.len() - i,
    {
        out.push(chars[i]);
        i += 1;
    }
    out
}

/// Whether two strings hold the same characters.
pub fn same_text(a: &str, b: &str) -> (same: bool)
    ensures
        same == (a@ == b@),
{
    let x = chars_of(a);
    let y = chars_of(b);
    if x.len() != y.len() {
        return false;
    }
    let mut i: usize = 0;
    while i < x.len()
        invariant
            i <= x.len(),
            x.len() == y.len(),
            x@ == a@,
            y@ == b@,
            x@.take(i as int) == y@.take(i as int),
        decreases x.len() - i,
    {
        if x[i] != y[i] {
            return false;
        }
        assert(x@.take(i + 1) == x@.take(i as int).push(x@[i as int]));
        assert(y@.take(i + 1) == y@.take(i as int).push(y@[i as int]));
        i += 1;
    }
    assert(x@.take(x.len() as int) == x@);
    assert(y@.take(y.len() as int) == y@);
    true
}

/// Whether `c` is one of the ten ASCII digits.
pub open spec fn is_digit(c: char) -> bool {
    '0' <= c <= '9'
}

/// The number a digit stands for.
pub open spec fn digit_value(c: char) -> nat
    recommends
        is_digit(c),
{
    (c as u32 - '0' as u32) as nat
}

/// Whether every character of `s` is an ASCII digit.
pub open spec fn all_digits(s: Seq<char>) -> bool {
    forall|i: int| 0 <= i < s.len() ==> is_digit(#[trigger] s[i])
}

/// The number that a run of digits writes in base ten; the empty run is zero.
pub open spec fn digits_value(s: Seq<char>) -> nat
    decreases s.len(),
{
    if s.len() == 0 {
        0
    } else {
        digits_value(s.drop_last()) * 10 + digit_value(s.last())
    }
}

/// Exec form of [`is_digit`].
pub fn digit_char(c: char) -> (yes: bool)
    ensures
        yes == is_digit(c),
{
    '0' <= c && c <= '9'
}

/// Exec form of [`digit_value`].
pub fn digit_of(c: char) -> (d: u32)
    requires
        is_digit(c),
    ensures
        d == digit_value(c),
        d <= 9,
{
    c as u32 - '0' as u32
}

/// The digit that writes `d`.
pub open spec fn digit_for(d: nat) -> char
    recommends
        d <= 9,
{
    (d + '0' as u32) as char
}

/// The digits of `n` in base ten, without leading zeros; `0` is `"0"`.
pub open spec fn decimal_digits(n: nat) -> Seq<char>
    decreases n,
{
    if n < 10 {
        seq![digit_for(n)]
    } else {
        decimal_digits(n / 10).push(digit_for(n % 10))
    }
}

/// Whether `s` writes a number the way [`decimal_digits`] does: only
/// digits, at least one, and no leading zero before another digit.
pub open spec fn is_canonical_number(s: Seq<char>) -> bool {
    &&& s.len() >= 1
    &&& all_digits(s)
    &&& (s.len() > 1 ==> s[0] != '0')
}

/// The digits of a number are canonical and write that number.
pub proof fn lemma_decimal_digits(n: nat)
    ensures
        is_canonical_number(decimal_digits(n)),
        digits_value(decimal_digits(n)) == n,
    decreases n,
{
    let s = decimal_digits(n);
    if n < 10 {
        assert(s.drop_last() =~= Seq::<char>::empty());
        assert(digits_value(s.drop_last()) == 0);
    } else {
        let t = decimal_digits(n / 10);
        lemma_decimal_digits(n / 10);
        assert(s.drop_last() =~= t);
        assert(s[0] == t[0]);
        if t.len() == 1 && t[0] == '0' {
            assert(t.drop_last() =~= Seq::<char>::empty());
            assert(digits_value(t.drop_last()) == 0);
            assert(digits_value(t) == 0);
        }
    }
}

/// A canonical number with more than one digit is at least ten, and one
/// whose first digit is not zero is at least one.
pub proof fn lemma_canonical_number_size(s: Seq<char>)
    requires
        s.len() >= 1,
        all_digits(s),
        s[0] != '0',
    ensures
        digits_value(s) >= 1,
        s.len() > 1 ==> digits_value(s) >= 10,
    decreases s.len(),
{
    if s.len() == 1 {
        assert(s.drop_last() =~= Seq::<char>::empty());
        assert(digits_value(s.drop_last()) == 0);
    } else {
        let t = s.drop_last();
        assert(t[0] == s[0]);
        lemma_canonical_number_size(t);
    }
}

/// A canonical number is the digits of the number it writes.
pub proof fn lemma_canonical_number_digits(s: Seq<char>)
    requires
        is_canonical_number(s),
    ensures
        decimal_digits(digits_value(s)) == s,
    decreases s.len(),
{
    let t = s.drop_last();
    if s.len() == 1 {
        assert(t =~= Seq::<char>::empty());
        assert(digits_value(t) == 0);
        assert(decimal_digits(digits_value(s)) =~= s);
    } else {
        assert(t[0] == s[0]);
        lemma_canonical_number_size(t);
        lemma_canonical_number_digits(t);
        let n = digits_value(s);
        assert(n == digits_value(t) * 10 + digit_value(s.last()));
        assert(n / 10 == digits_value(t));
        assert(n % 10 == digit_value(s.last()));
        assert(decimal_digits(n) =~= s);
    }
}

/// Writes `n` in base ten.
pub fn number_text(n: u32) -> (out: String)
    ensures
        out@ == decimal_digits(n as nat),
{
    let mut reversed: Vec<char> = Vec::new();
    let mut rest: u32 = n;
    while rest >= 10
        invariant
            decimal_digits(n as nat) == decimal_digits(rest as nat) + reversed@.reverse(),
        decreases rest,
    {
        let digit = char_for(rest % 10);
        proof {
            let r = reversed@;
            assert(r.push(digit).reverse() =~= seq![digit] + r.reverse());
            assert(decimal_digits(rest as nat) =~= decimal_digits((rest / 10) as nat) + seq![digit]);
        }
        reversed.push(digit);
        rest = rest / 10;
    }
    let first = char_for(rest);
    proof {
        let r = reversed@;
        assert(r.push(first).reverse() =~= seq![first] + r.reverse());
        assert(decimal_digits(rest as nat) =~= seq![first]);
    }
    reversed.push(first);
    let mut out = String::new();
    let mut i: usize = reversed.len();
    while i > 0
        invariant
            i <= reversed.len(),
            out@ == reversed@.reverse().take(reversed.len() - i),
        decreases i,
    {
        i -= 1;
        proof {
            let r = reversed@.reverse();
            let k = reversed.len() - i - 1;
            assert(r.take(k + 1) =~= r.take(k).push(r[k]));
            assert(r[k] == reversed@[i as int]);
        }
        out.push(reversed[i]);
    }
    proof {
        let r = reversed@.reverse();
        assert(r.take(reversed.len() as int) =~= r);
    }
    out
}

/// Exec form of [`digit_for`].
pub fn char_for(d: u32) -> (c: char)
    requires
        d <= 9,
    ensures
        c == digit_for(d as nat),
        is_digit(c),
        digit_value(c) == d,
{
    let code: u8 = (d + 48) as u8;
    code as char
}

/// Text that is not canonical writes no number.
pub proof fn lemma_not_canonical(text: Seq<char>)
    requires
        !is_canonical_number(text),
    ensures
        forall|n: u32| text != decimal_digits(n as nat),
{
    assert forall|n: u32| text != decimal_digits(n as nat) by {
        lemma_decimal_digits(n as nat);
    }
}

/// Reads the number that the first `end` characters write in base ten
/// without leading zeros. `None` where they are not such a number, or where
/// the number is above `u32::MAX`.
pub fn number_of(cs: &Vec<char>, end: usize) -> (out: Option<u32>)
    requires
        end <= cs.len(),
    ensures
        match out {
            Some(n) => cs@.take(end as int) == decimal_digits(n as nat),
            None => forall|n: u32| cs@.take(end as int) != decimal_digits(n as nat),
        },
{
    let ghost text = cs@.take(end as int);
    if end == 0 || (end > 1 && cs[0] == '0') {
        proof {
            assert(end > 1 ==> text[0] == cs@[0]);
            lemma_not_canonical(text);
        }
        return None;
    }
    let mut value: u64 = 0;
    let mut i: usize = 0;
    while i < end
        invariant
            end <= cs.len(),
            text == cs@.take(end as int),
            i <= end,
            all_digits(text.take(i as int)),
            value == digits_value(text.take(i as int)),
            value <= u32::MAX,
        decreases end - i,
    {
        let ghost next = text.take(i + 1);
        assert(next.drop_last() == text.take(i as int));
        assert(text[i as int] == cs@[i as int]);
        if !digit_char(cs[i]) {
            proof {
                lemma_not_canonical(text);
            }
            return None;
        }
        let grown = value * 10 + digit_of(cs[i]) as u64;
        if grown > u32::MAX as u64 {
            proof {
                assert forall|n: u32| text != decimal_digits(n as nat) by {
                    lemma_decimal_digits(n as nat);
                    if text == decimal_digits(n as nat) {
                        lemma_digits_value_prefix(text, i + 1);
                    }
                }
            }
            return None;
        }
        assert forall|j: int| 0 <= j < next.len() implies is_digit(#[trigger] next[j]) by {
            if j < i {
                assert(text.take(i as int)[j] == next[j]);
            }
        }
        value = grown;
        i += 1;
    }
    proof {
        assert(text.take(end as int) == text);
        assert(text[0] == cs@[0]);
        lemma_canonical_number_digits(text);
    }
    Some(value as u32)
}

/// Reads a number written in base ten without leading zeros. `None` for
/// text that is not such a number, or whose number is above `u32::MAX`.
pub fn parse_number(text: &str) -> (out: Option<u32>)
    ensures
        match out {
            Some(n) => text@ == decimal_digits(n as nat),
            None => forall|n: u32| text@ != decimal_digits(n as nat),
        },
{
    let cs = chars_of(text);
    assert(cs@.take(cs.len() as int) == cs@);
    number_of(&cs, cs.len())
}

/// A longer run of digits never writes a smaller number than its prefix.
pub proof fn lemma_digits_value_prefix(s: Seq<char>, i: int)
    requires
        0 <= i <= s.len(),
    ensures
        digits_value(s.take(i)) <= digits_value(s),
    decreases s.len(),
{
    if i < s.len() {
        assert(s.drop_last().take(i) == s.take(i));
        lemma_digits_value_prefix(s.drop_last(), i);
    } else {
        assert(s.take(i) == s);
    }
}

/// Whether `a` comes before `b` in dictionary order, character by character:
/// at the first place where they differ `a` has the smaller character, or
/// `a` ends there and `b` goes on.
pub open spec fn precedes(a: Seq<char>, b: Seq<char>) -> bool
    decreases a.len(),
{
    if b.len() == 0 {
        false
    } else if a.len() == 0 {
        true
    } else if a[0] != b[0] {
        a[0] < b[0]
    } else {
        precedes(a.drop_first(), b.drop_first())
    }
}

/// No text comes before itself.
pub proof fn lemma_precedes_irreflexive(a: Seq<char>)
    ensures
        !precedes(a, a),
    decreases a.len(),
{
    if a.len() > 0 {
        lemma_precedes_irreflexive(a.drop_first());
    }
}

/// Dictionary order is transitive.
pub proof fn lemma_precedes_transitive(a: Seq<char>, b: Seq<char>, c: Seq<char>)
    requires
        precedes(a, b),
        precedes(b, c),
    ensures
        precedes(a, c),
    decreases a.len(),
{
    if a.len() > 0 && a[0] == b[0] && b[0] == c[0] {
        lemma_precedes_transitive(a.drop_first(), b.drop_first(), c.drop_first());
    }
}

/// Of two different texts one comes before the other.
pub proof fn lemma_precedes_total(a: Seq<char>, b: Seq<char>)
    ensures
        a == b || precedes(a, b) || precedes(b, a),
    decreases a.len(),
{
    if a.len() > 0 && b.len() > 0 && a[0] == b[0] {
        lemma_precedes_total(a.drop_first(), b.drop_first());
        if a.drop_first() == b.drop_first() {
            assert(a =~= seq![a[0]] + a.drop_first());
            assert(b =~= seq![b[0]] + b.drop_first());
        }
    } else if a.len() == 0 && b.len() == 0 {
        assert(a =~= b);
    }
}

/// Two texts never come before each other.
pub proof fn lemma_precedes_asymmetric(a: Seq<char>, b: Seq<char>)
    requires
        precedes(a, b),
    ensures
        !precedes(b, a),
        a != b,
{
    if precedes(b, a) {
        lemma_precedes_transitive(a, b, a);
    }
    lemma_precedes_irreflexive(a);
}

/// How one text stands to another in dictionary order.
#[derive(Clone, Copy, Debug, PartialEq, Eq, Structural)]
pub enum Place {
    Before,
    Same,
    After,
}

/// The place of `a` relative to `b`.
pub open spec fn place_of(a: Seq<char>, b: Seq<char>) -> Place {
    if a == b {
        Place::Same
    } else if precedes(a, b) {
        Place::Before
    } else {
        Place::After
    }
}

/// Finds the place of `a` relative to `b` in dictionary order.
pub fn place(a: &str, b: &str) -> (out: Place)
    ensures
        out == place_of(a@, b@),
        out == Place::After ==> precedes(b@, a@),
{
    let x = chars_of(a);
    let y = chars_of(b);
    let mut i: usize = 0;
    proof {
        assert(x@.skip(0) == x@);
        assert(y@.skip(0) == y@);
        lemma_precedes_total(a@, b@);
    }
    while i < x.len() && i < y.len()
        invariant
            i <= x.len(),
            i <= y.len(),
            x@ == a@,
            y@ == b@,
            x@.take(i as int) == y@.take(i as int),
            precedes(x@, y@) == precedes(x@.skip(i as int), y@.skip(i as int)),
            precedes(y@, x@) == precedes(y@.skip(i as int), x@.skip(i as int)),
        decreases x.len() - i,
    {
        proof {
            assert(x@.skip(i as int).drop_first() == x@.skip(i + 1));
            assert(y@.skip(i as int).drop_first() == y@.skip(i + 1));
            assert(x@.skip(i as int)[0] == x@[i as int]);
            assert(y@.skip(i as int)[0] == y@[i as int]);
        }
        if x[i] != y[i] {
            proof {
                assert(x@[i as int] != y@[i as int]);
            }
            if x[i] < y[i] {
                proof {
                    lemma_precedes_asymmetric(a@, b@);
                }
                return Place::Before;
            } else {
                proof {
                    lemma_precedes_asymmetric(b@, a@);
                }
                return Place::After;
            }
        }
        proof {
            assert(x@.take(i + 1) == x@.take(i as int).push(x@[i as int]));
            assert(y@.take(i + 1) == y@.take(i as int).push(y@[i as int]));
        }
        i += 1;
    }
    if i < y.len() {
        proof {
            assert(x@.skip(i as int).len() == 0);
            lemma_precedes_asymmetric(a@, b@);
        }
        Place::Before
    } else if i < x.len() {
        proof {
            assert(y@.skip(i as int).len() == 0);
            lemma_precedes_asymmetric(b@, a@);
        }
        Place::After
    } else {
        proof {
            assert(x@.take(i as int) == x@);
            assert(y@.take(i as int) == y@);
        }
        Place::Same
    }
}

} // verus!
