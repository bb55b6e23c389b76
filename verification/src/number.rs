//! Unsigned decimal numbers as they are written in a token.

use vstd::prelude::*;
use vstd::slice::slice_subrange;

verus! {

/// One of the ten ASCII digits.
pub open spec fn is_digit(c: char) -> bool {
    '0' <= c <= '9'
}

/// The number that a digit stands for.
pub open spec fn digit_value(c: char) -> nat
    recommends
        is_digit(c),
{
    (c as nat - '0' as nat) as nat
}

/// Every character of `s` is a digit.
pub open spec fn all_digits(s: Seq<char>) -> bool {
    forall|i: int| 0 <= i < s.len() ==> is_digit(#[trigger] s[i])
}

/// The number that a run of digits denotes in base ten, most significant digit
/// first. Leading zeros do not change it, and the empty run denotes zero.
pub open spec fn decimal_value(s: Seq<char>) -> nat
    recommends
        all_digits(s),
    decreases s.len(),
{
    if s.len() == 0 {
        0
    } else {
        decimal_value(s.drop_last()) * 10 + digit_value(s.last())
    }
}

/// What a count reads as: one or more digits and nothing else, denoting a
/// number of at most `max`.
pub open spec fn count_of(s: Seq<char>, max: nat) -> Option<nat> {
    if s.len() > 0 && all_digits(s) && decimal_value(s) <= max {
        Some(decimal_value(s))
    } else {
        None
    }
}

/// What an unsigned integer reads as: a count that one `+` may precede.
pub open spec fn unsigned_of(s: Seq<char>, max: nat) -> Option<nat> {
    if s.len() > 0 && s[0] == '+' {
        count_of(s.skip(1), max)
    } else {
        count_of(s, max)
    }
}

/// A run of digits denotes at least what any of its prefixes denotes.
pub proof fn lemma_prefix_value(s: Seq<char>, k: int)
    requires
        0 <= k <= s.len(),
    ensures
        decimal_value(s.take(k)) <= decimal_value(s),
    decreases s.len(),
{
    if k == s.len() {
        assert(s.take(k) =~= s);
    } else {
        assert(s.drop_last().take(k) =~= s.take(k));
        lemma_prefix_value(s.drop_last(), k);
    }
}

/// Reads `s` as a count of at most `max`.
pub fn parse_count(s: &[char], max: u32) -> (r: Option<u32>)
    ensures
        match count_of(s@, max as nat) {
            Some(n) => r == Some(n as u32),
            None => r is None,
        },
{
    if s.len() == 0 {
        return None;
    }
    let mut value: u32 = 0;
    let mut i: usize = 0;
    while i < s.len()
        invariant
            i <= s@.len(),
            all_digits(s@.take(i as int)),
            value == decimal_value(s@.take(i as int)),
            value <= max,
        decreases s@.len() - i,
    {
        let c: char = s[i];
        if !('0' <= c && c <= '9') {
            return None;
        }
        let next: u64 = value as u64 * 10 + (c as u64 - '0' as u64);
        proof {
            assert(s@.take(i + 1).drop_last() =~= s@.take(i as int));
            assert(s@.take(i + 1).last() == c);
            assert(next == decimal_value(s@.take(i + 1)));
            lemma_prefix_value(s@, i + 1);
            assert forall|j: int| 0 <= j < i + 1 implies is_digit(
                #[trigger] s@.take(i + 1)[j],
            ) by {
                if j < i {
                    assert(s@.take(i as int)[j] == s@[j]);
                }
            }
        }
        if next > max as u64 {
            return None;
        }
        value = next as u32;
        i += 1;
    }
    assert(s@.take(s@.len() as int) =~= s@);
    Some(value)
}

/// Reads `s` as an unsigned integer of at most `max`.
pub fn parse_unsigned(s: &[char], max: u32) -> (r: Option<u32>)
    ensures
        match unsigned_of(s@, max as nat) {
            Some(n) => r == Some(n as u32),
            None => r is None,
        },
{
    if s.len() > 0 && s[0] == '+' {
        parse_count(slice_subrange(s, 1, s.len()), max)
    } else {
        parse_count(s, max)
    }
}

/// The digit that stands for `d`.
pub open spec fn digit_char(d: nat) -> char
    recommends
        d < 10,
{
    ('0' as nat + d) as char
}

/// The number `n` in base ten, most significant digit first, with zeros in
/// front where it would else have fewer than `width` digits. It has at least
/// one digit.
pub open spec fn numeral(n: nat, width: nat) -> Seq<char>
    decreases n, width,
{
    if n < 10 && width <= 1 {
        seq![digit_char(n)]
    } else {
        numeral(
            n / 10,
            if width > 0 {
                (width - 1) as nat
            } else {
                0
            },
        ).push(digit_char(n % 10))
    }
}

/// A numeral is made of digits, is as wide as asked, and denotes its number.
pub proof fn lemma_numeral(n: nat, width: nat)
    ensures
        numeral(n, width).len() >= 1,
        numeral(n, width).len() >= width,
        all_digits(numeral(n, width)),
        decimal_value(numeral(n, width)) == n,
    decreases n, width,
{
    let last = digit_char(n % 10);
    assert(is_digit(last) && digit_value(last) == n % 10);
    if n < 10 && width <= 1 {
        let s = seq![digit_char(n)];
        assert(s.drop_last() =~= Seq::<char>::empty());
        assert(decimal_value(s.drop_last()) == 0);
        assert(s.last() == last);
        assert(decimal_value(s) == n);
    } else {
        let less = numeral(
            n / 10,
            if width > 0 {
                (width - 1) as nat
            } else {
                0
            },
        );
        lemma_numeral(
            n / 10,
            if width > 0 {
                (width - 1) as nat
            } else {
                0
            },
        );
        assert(less.push(last).drop_last() =~= less);
        assert(less.push(last).last() == last);
        assert(decimal_value(less.push(last)) == (n / 10) * 10 + n % 10);
    }
}

/// A numeral reads as its number, both as a count and as an unsigned integer.
pub proof fn lemma_numeral_reads(n: nat, width: nat, max: nat)
    requires
        n <= max,
    ensures
        count_of(numeral(n, width), max) == Some(n),
        unsigned_of(numeral(n, width), max) == Some(n),
{
    lemma_numeral(n, width);
    assert(is_digit(numeral(n, width)[0]));
}

/// Appends the numeral of `n` to `out`.
pub fn push_numeral(out: &mut String, n: u32, width: u8)
    ensures
        final(out)@ == old(out)@ + numeral(n as nat, width as nat),
    decreases n, width,
{
    if n >= 10 || width > 1 {
        push_numeral(
            out,
            n / 10,
            if width > 0 {
                width - 1
            } else {
                0
            },
        );
    }
    let d: u8 = (n % 10) as u8;
    out.push((48u8 + d) as char);
    proof {
        assert((48u8 + d) as char == digit_char((n % 10) as nat));
        let less = numeral(
            (n / 10) as nat,
            if width > 0 {
                (width - 1) as nat
            } else {
                0
            },
        );
        if n >= 10 || width > 1 {
            assert(final(out)@ =~= old(out)@ + less.push(digit_char((n % 10) as nat)));
        } else {
            assert(final(out)@ =~= old(out)@ + seq![digit_char(n as nat)]);
        }
    }
}

} // verus!
