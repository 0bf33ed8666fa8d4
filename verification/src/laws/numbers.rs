//! What numerals mean.

use crate::number;
use crate::number::IntError;
use vstd::prelude::*;

verus! {

/// What a digit is worth: ten to fifteen for the letters from a to f of either case.
pub open spec fn worth(c: char) -> int {
    if '0' <= c <= '9' {
        c as int - '0' as int
    } else if 'a' <= c <= 'f' {
        c as int - 'a' as int + 10
    } else if 'A' <= c <= 'F' {
        c as int - 'A' as int + 10
    } else {
        16
    }
}

/// Only digits below the radix.
pub open spec fn are_digits(s: Seq<char>, radix: int) -> bool {
    forall|i: int| 0 <= i < s.len() ==> worth(#[trigger] s[i]) < radix
}

/// What a row of digits is worth.
pub open spec fn total(s: Seq<char>, radix: int) -> int
    decreases s.len(),
{
    if s.len() == 0 {
        0
    } else {
        total(s.drop_last(), radix) * radix + worth(s.last())
    }
}

/// `s` writes `n` in decimal: with the digits from 0 to 9 alone, and with no zero too many.
pub open spec fn writes(s: Seq<char>, n: int) -> bool {
    &&& s.len() > 0
    &&& forall|i: int| 0 <= i < s.len() ==> '0' <= #[trigger] s[i] <= '9'
    &&& s[0] == '0' ==> s.len() == 1
    &&& total(s, 10) == n
}

proof fn lemma_total(n: nat, radix: nat)
    requires
        radix == 10 || radix == 16,
    ensures
        number::numeral(n, radix).len() > 0,
        are_digits(number::numeral(n, radix), radix as int),
        total(number::numeral(n, radix), radix as int) == n,
        number::numeral(n, radix)[0] == '0' ==> n == 0 && number::numeral(n, radix).len() == 1,
        radix == 10 ==> forall|i: int|
            0 <= i < number::numeral(n, radix).len() ==> '0' <= #[trigger] number::numeral(
                n,
                radix,
            )[i] <= '9',
    decreases n,
{
    let s = number::numeral(n, radix);
    reveal_with_fuel(total, 2);
    if n < radix {
        assert(s == seq![number::digit_char(n)]);
        assert(s.drop_last() == Seq::<char>::empty());
        assert(total(s.drop_last(), radix as int) * radix == 0);
    } else {
        vstd::arithmetic::div_mod::lemma_fundamental_div_mod(n as int, radix as int);
        assert(0 < n / radix < n && (n / radix) * radix == radix * (n / radix) && 0 <= n % radix
            < radix) by (nonlinear_arith)
            requires
                n >= radix >= 2,
        ;
        lemma_total(n / radix, radix);
        assert(s.drop_last() == number::numeral(n / radix, radix));
        assert(s[0] == number::numeral(n / radix, radix)[0]);
    }
}

/// A number is written in decimal as it is worth.
pub proof fn decimals_are_worth_their_number(n: nat)
    ensures
        writes(number::decimal(n), n as int),
{
    lemma_total(n, 10);
}

/// A number is written in hexadecimal as it is worth.
pub proof fn hexadecimals_are_worth_their_number(n: nat)
    ensures
        number::numeral(n, 16).len() > 0,
        are_digits(number::numeral(n, 16), 16),
        total(number::numeral(n, 16), 16) == n,
{
    lemma_total(n, 16);
}

proof fn lemma_total_grows(a: Seq<char>, b: Seq<char>, radix: int)
    requires
        2 <= radix <= 16,
        are_digits(a + b, radix),
    ensures
        0 <= total(a, radix) <= total(a + b, radix),
    decreases b.len(),
{
    if b.len() == 0 {
        assert(a + b == a);
        lemma_total_nonnegative(a, radix);
    } else {
        let t = a + b.drop_last();
        assert((a + b).drop_last() == t);
        assert forall|i: int| 0 <= i < t.len() implies worth(#[trigger] t[i]) < radix by {
            assert((a + b)[i] == t[i]);
        }
        lemma_total_grows(a, b.drop_last(), radix);
        assert(total(t, radix) <= total(t, radix) * radix) by (nonlinear_arith)
            requires
                total(t, radix) >= 0,
                radix >= 2,
        ;
    }
}

/// Digits are worth nothing below zero.
pub proof fn lemma_total_nonnegative(a: Seq<char>, radix: int)
    requires
        radix >= 0,
    ensures
        total(a, radix) >= 0,
    decreases a.len(),
{
    if a.len() > 0 {
        lemma_total_nonnegative(a.drop_last(), radix);
        assert(total(a.drop_last(), radix) * radix >= 0) by (nonlinear_arith)
            requires
                total(a.drop_last(), radix) >= 0,
                radix >= 0,
        ;
    }
}

proof fn lemma_digit(c: char, radix: nat)
    requires
        radix == 10 || radix == 16,
    ensures
        number::digit_value(c, radix) == if worth(c) < radix {
            Some(worth(c) as nat)
        } else {
            None
        },
{
}

proof fn lemma_read(done: Seq<char>, s: Seq<char>, more: Seq<char>, radix: nat, max: nat)
    requires
        radix == 10 || radix == 16,
        are_digits(done + s, radix as int),
        total(done, radix as int) <= max,
    ensures
        number::read_digits(s + more, radix, max, total(done, radix as int) as nat) == if total(
            done + s,
            radix as int,
        ) <= max {
            number::read_digits(more, radix, max, total(done + s, radix as int) as nat)
        } else {
            Err(IntError::PosOverflow)
        },
    decreases s.len(),
{
    lemma_total_nonnegative(done, radix as int);
    if s.len() == 0 {
        assert(done + s == done);
        assert(s + more == more);
    } else {
        let next = done.push(s[0]);
        let rest = s.drop_first();
        assert(next + rest == done + s);
        assert(next.drop_last() == done);
        assert((done + s)[done.len() as int] == s[0]);
        lemma_digit(s[0], radix);
        assert((s + more)[0] == s[0]);
        assert((s + more).drop_first() == rest + more);
        assert(total(next, radix as int) == total(done, radix as int) * radix + worth(s[0]));
        if total(next, radix as int) <= max {
            lemma_read(next, rest, more, radix, max);
        } else {
            lemma_total_grows(next, rest, radix as int);
        }
    }
}

/// Digits are read as the number that they are worth, if it is not above the limit; a plus sign may
/// precede them.
pub proof fn digits_are_read(s: Seq<char>, radix: nat, max: nat)
    requires
        radix == 10 || radix == 16,
        s.len() > 0,
        are_digits(s, radix as int),
    ensures
        number::parse_int(s, radix, max) == if total(s, radix as int) <= max {
            Ok::<nat, IntError>(total(s, radix as int) as nat)
        } else {
            Err(IntError::PosOverflow)
        },
        number::parse_int(seq!['+'] + s, radix, max) == number::parse_int(s, radix, max),
{
    let none = Seq::<char>::empty();
    assert(none + s == s);
    assert(s + none == s);
    assert(worth(s[0]) < 16);
    lemma_read(none, s, none, radix, max);
    assert((seq!['+'] + s).drop_first() == s);
}

/// What is no number is refused: nothing at all, a sign alone, and what holds a character that is
/// no digit before the number is above the limit.
pub proof fn others_are_refused(
    s: Seq<char>,
    bad: char,
    more: Seq<char>,
    radix: nat,
    max: nat,
)
    requires
        radix == 10 || radix == 16,
        are_digits(s, radix as int),
        worth(bad) >= radix,
        s.len() == 0 ==> bad != '+',
    ensures
        number::parse_int(seq![], radix, max) == Err::<nat, IntError>(IntError::Empty),
        number::parse_int(seq!['+'], radix, max) == Err::<nat, IntError>(IntError::InvalidDigit),
        number::parse_int(s + seq![bad] + more, radix, max) == if total(s, radix as int) <= max {
            Err::<nat, IntError>(IntError::InvalidDigit)
        } else {
            Err(IntError::PosOverflow)
        },
{
    let none = Seq::<char>::empty();
    let rest = seq![bad] + more;
    let whole = s + seq![bad] + more;
    assert(none + s == s);
    assert(whole == s + rest);
    lemma_read(none, s, rest, radix, max);
    lemma_digit(bad, radix);
    assert(rest[0] == bad);
    if s.len() > 0 {
        assert(worth(s[0]) < 16);
        assert(whole[0] == s[0]);
    } else {
        assert(whole[0] == bad);
    }
}

} // verus!
