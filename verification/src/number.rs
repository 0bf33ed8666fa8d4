//! Numerals: how numbers are written into requests and messages, and how they are read.

use vstd::prelude::*;

verus! {

/// Why a text is no number of the wanted range.
#[derive(Clone, Copy, Debug, PartialEq, Eq, Structural)]
pub enum IntError {
    /// The text is empty.
    Empty,
    /// The text holds something other than digits.
    InvalidDigit,
    /// The number is above the range.
    PosOverflow,
}

impl IntError {
    /// The message of the error.
    pub open spec fn spec_message(self) -> Seq<char> {
        match self {
            IntError::Empty => "cannot parse integer from empty string"@,
            IntError::InvalidDigit => "invalid digit found in string"@,
            IntError::PosOverflow => "number too large to fit in target type"@,
        }
    }

    /// The message of the error.
    pub fn message(self) -> (r: String)
        ensures
            r@ == self.spec_message(),
    {
        match self {
            IntError::Empty => "cannot parse integer from empty string".to_string(),
            IntError::InvalidDigit => "invalid digit found in string".to_string(),
            IntError::PosOverflow => "number too large to fit in target type".to_string(),
        }
    }
}

/// The digit that stands for `d`, below 16.
pub open spec fn digit_char(d: nat) -> char {
    if d < 10 {
        ('0' as nat + d) as char
    } else {
        ('a' as nat + d - 10) as char
    }
}

/// `n` written with the given radix, most significant digit first and without leading zeros.
pub open spec fn numeral(n: nat, radix: nat) -> Seq<char>
    decreases n,
{
    if n < radix || radix < 2 {
        seq![digit_char(n)]
    } else {
        proof {
            assert(n / radix < n) by (nonlinear_arith)
                requires
                    n >= radix >= 2,
            ;
        }
        numeral(n / radix, radix).push(digit_char(n % radix))
    }
}

/// `n` written in decimal.
pub open spec fn decimal(n: nat) -> Seq<char> {
    numeral(n, 10)
}

/// The value of the digit `c`, if it is one in the given radix.
pub open spec fn digit_value(c: char, radix: nat) -> Option<nat> {
    let d: int = if '0' <= c <= '9' {
        c as int - '0' as int
    } else if 'a' <= c <= 'z' {
        c as int - 'a' as int + 10
    } else if 'A' <= c <= 'Z' {
        c as int - 'A' as int + 10
    } else {
        radix as int
    };
    if d < radix {
        Some(d as nat)
    } else {
        None
    }
}

/// Reads the digits `s` behind digits worth `acc`, from left to right, up to the first character
/// that is no digit or the first digit that takes the number above `max`.
pub open spec fn read_digits(s: Seq<char>, radix: nat, max: nat, acc: nat) -> Result<nat, IntError>
    decreases s.len(),
{
    if s.len() == 0 {
        Ok(acc)
    } else {
        match digit_value(s[0], radix) {
            None => Err(IntError::InvalidDigit),
            Some(d) => if acc * radix + d > max {
                Err(IntError::PosOverflow)
            } else {
                read_digits(s.drop_first(), radix, max, acc * radix + d)
            },
        }
    }
}

/// The number that `s` writes: digits, which one plus sign may precede.
pub open spec fn parse_int(s: Seq<char>, radix: nat, max: nat) -> Result<nat, IntError> {
    if s.len() == 0 {
        Err(IntError::Empty)
    } else if s[0] == '+' {
        if s.len() == 1 {
            Err(IntError::InvalidDigit)
        } else {
            read_digits(s.drop_first(), radix, max, 0)
        }
    } else {
        read_digits(s, radix, max, 0)
    }
}

/// The value of the digit `c`, if it is one in the given radix.
fn digit(c: char, radix: u32) -> (r: Option<u32>)
    requires
        radix <= 16,
    ensures
        match r {
            Some(d) => digit_value(c, radix as nat) == Some(d as nat),
            None => digit_value(c, radix as nat) is None,
        },
{
    let d: u32 = if '0' <= c && c <= '9' {
        c as u32 - '0' as u32
    } else if 'a' <= c && c <= 'z' {
        c as u32 - 'a' as u32 + 10
    } else if 'A' <= c && c <= 'Z' {
        c as u32 - 'A' as u32 + 10
    } else {
        radix
    };
    if d < radix {
        Some(d)
    } else {
        None
    }
}

/// Reads the number that `s` writes with the given radix; it must not be above `max`.
pub fn read_int(s: &[char], radix: u32, max: u64) -> (r: Result<u64, IntError>)
    requires
        2 <= radix <= 16,
    ensures
        match r {
            Ok(n) => n <= max && parse_int(s@, radix as nat, max as nat) == Ok::<nat, IntError>(
                n as nat,
            ),
            Err(e) => parse_int(s@, radix as nat, max as nat) == Err::<nat, IntError>(e),
        },
{
    if s.len() == 0 {
        return Err(IntError::Empty);
    }
    let mut i: usize = 0;
    if s[0] == '+' {
        if s.len() == 1 {
            return Err(IntError::InvalidDigit);
        }
        i = 1;
        assert(s@.drop_first() == s@.skip(1));
    } else {
        assert(s@.skip(0) == s@);
    }
    let mut acc: u64 = 0;
    while i < s.len()
        invariant
            i <= s@.len(),
            2 <= radix <= 16,
            acc <= max,
            parse_int(s@, radix as nat, max as nat) == read_digits(
                s@.skip(i as int),
                radix as nat,
                max as nat,
                acc as nat,
            ),
        decreases s@.len() - i,
    {
        assert(s@.skip(i as int).drop_first() == s@.skip(i + 1));
        match digit(s[i], radix) {
            None => {
                return Err(IntError::InvalidDigit);
            },
            Some(d) => {
                assert(acc * radix <= 16 * 0xffff_ffff_ffff_ffff) by (nonlinear_arith)
                    requires
                        acc <= 0xffff_ffff_ffff_ffff,
                        radix <= 16,
                ;
                let next: u128 = acc as u128 * radix as u128 + d as u128;
                if next > max as u128 {
                    return Err(IntError::PosOverflow);
                }
                acc = next as u64;
            },
        }
        i += 1;
    }
    Ok(acc)
}

/// `n` written in decimal.
pub fn decimal_text(n: u64) -> (r: String)
    ensures
        r@ == decimal(n as nat),
    decreases n,
{
    let mut r = if n < 10 {
        String::new()
    } else {
        decimal_text(n / 10)
    };
    let d = (48u8 + (n % 10) as u8) as char;
    assert(d == digit_char((n % 10) as nat));
    r.push(d);
    r
}

proof fn lemma_read_digits_push(s: Seq<char>, c: char, radix: nat, max: nat, acc: nat)
    ensures
        read_digits(s.push(c), radix, max, acc) == match read_digits(s, radix, max, acc) {
            Ok(n) => match digit_value(c, radix) {
                None => Err(IntError::InvalidDigit),
                Some(d) => if n * radix + d > max {
                    Err(IntError::PosOverflow)
                } else {
                    Ok(n * radix + d)
                },
            },
            Err(e) => Err(e),
        },
    decreases s.len(),
{
    reveal_with_fuel(read_digits, 2);
    if s.len() > 0 {
        assert(s.push(c).drop_first() == s.drop_first().push(c));
        if let Some(d) = digit_value(s[0], radix) {
            lemma_read_digits_push(s.drop_first(), c, radix, max, acc * radix + d);
        }
    } else {
        assert(s.push(c).drop_first() == s);
    }
}

proof fn lemma_read_numeral(n: nat, radix: nat, max: nat)
    requires
        2 <= radix <= 16,
        n <= max,
    ensures
        read_digits(numeral(n, radix), radix, max, 0) == Ok::<nat, IntError>(n),
    decreases n,
{
    assert(digit_value(digit_char(n % radix), radix) == Some(n % radix)) by {
        assert(0 <= n % radix < radix) by (nonlinear_arith)
            requires
                radix > 0,
        ;
    }
    assert(0 * radix == 0);
    if n < radix {
        vstd::arithmetic::div_mod::lemma_small_mod(n, radix);
        reveal_with_fuel(read_digits, 2);
        assert(numeral(n, radix).drop_first() == Seq::<char>::empty());
    } else {
        vstd::arithmetic::div_mod::lemma_fundamental_div_mod(n as int, radix as int);
        assert(n / radix < n && (n / radix) * radix == radix * (n / radix)) by (nonlinear_arith)
            requires
                n >= radix >= 2,
        ;
        lemma_read_numeral(n / radix, radix, max);
        lemma_read_digits_push(numeral(n / radix, radix), digit_char(n % radix), radix, max, 0);
    }
}

/// Every character of a numeral is a digit: none is white space, a sign or punctuation.
pub proof fn lemma_numeral_digits(n: nat, radix: nat)
    requires
        2 <= radix <= 16,
    ensures
        numeral(n, radix).len() > 0,
        forall|i: int|
            0 <= i < numeral(n, radix).len() ==> {
                let c = #[trigger] numeral(n, radix)[i];
                '0' <= c <= '9' || 'a' <= c <= 'f'
            },
    decreases n,
{
    assert(0 <= n % radix < radix) by (nonlinear_arith)
        requires
            radix > 0,
    ;
    if n >= radix {
        assert(n / radix < n) by (nonlinear_arith)
            requires
                n >= radix >= 2,
        ;
        lemma_numeral_digits(n / radix, radix);
    }
}

/// A number that is written and read again is the same number.
pub proof fn numeral_reads_back(n: nat, radix: nat, max: nat)
    requires
        2 <= radix <= 16,
        n <= max,
    ensures
        parse_int(numeral(n, radix), radix, max) == Ok::<nat, IntError>(n),
{
    lemma_numeral_digits(n, radix);
    lemma_read_numeral(n, radix, max);
    assert(numeral(n, radix)[0] != '+');
}

} // verus!
