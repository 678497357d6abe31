//! Decimal numbers as text: reading them from configuration and headers, and
//! writing them into JSON.
use vstd::prelude::*;
use vstd::string::*;

use crate::text::chars_of;

verus! {

/// Why a text is not a number of the wanted range.
#[derive(Clone, Copy, Debug, PartialEq, Eq, Structural)]
pub enum NumberError {
    Empty,
    InvalidDigit,
    TooLarge,
    TooSmall,
}

impl NumberError {
    /// What the error says.
    pub open spec fn spec_message(self) -> Seq<char> {
        match self {
            NumberError::Empty => "cannot parse integer from empty string"@,
            NumberError::InvalidDigit => "invalid digit found in string"@,
            NumberError::TooLarge => "number too large to fit in target type"@,
            NumberError::TooSmall => "number too small to fit in target type"@,
        }
    }

    /// What the error says.
    pub fn message(&self) -> (message: String)
        ensures
            message@ == self.spec_message(),
    {
        match self {
            NumberError::Empty => "cannot parse integer from empty string".to_owned(),
            NumberError::InvalidDigit => "invalid digit found in string".to_owned(),
            NumberError::TooLarge => "number too large to fit in target type".to_owned(),
            NumberError::TooSmall => "number too small to fit in target type".to_owned(),
        }
    }
}

pub open spec fn is_digit(c: char) -> bool {
    '0' <= c <= '9'
}

pub open spec fn digit_value(c: char) -> nat {
    (c as u32 - '0' as u32) as nat
}

/// The number that a run of digits denotes, most significant digit first. It is
/// read from the left, and the first digit that is none, or that takes the
/// number above `max`, decides the error. No digits denote zero.
pub open spec fn digits_value(s: Seq<char>, max: nat, overflow: NumberError) -> Result<
    nat,
    NumberError,
>
    decreases s.len(),
{
    if s.len() == 0 {
        Ok(0)
    } else {
        match digits_value(s.drop_last(), max, overflow) {
            Err(e) => Err(e),
            Ok(v) => if !is_digit(s.last()) {
                Err(NumberError::InvalidDigit)
            } else if v * 10 + digit_value(s.last()) > max {
                Err(overflow)
            } else {
                Ok(v * 10 + digit_value(s.last()))
            },
        }
    }
}

/// An optional `+` and then one or more digits that denote a number up to `max`.
pub open spec fn unsigned_value(s: Seq<char>, max: nat) -> Result<nat, NumberError> {
    if s.len() == 0 {
        Err(NumberError::Empty)
    } else if s.len() == 1 && (s[0] == '+' || s[0] == '-') {
        Err(NumberError::InvalidDigit)
    } else if s[0] == '+' {
        digits_value(s.skip(1), max, NumberError::TooLarge)
    } else {
        digits_value(s, max, NumberError::TooLarge)
    }
}

/// An optional sign and then one or more digits that denote an `i64`.
pub open spec fn signed_value(s: Seq<char>) -> Result<int, NumberError> {
    if s.len() > 1 && s[0] == '-' {
        match digits_value(s.skip(1), i64::MAX as nat + 1, NumberError::TooSmall) {
            Ok(v) => Ok(-(v as int)),
            Err(e) => Err(e),
        }
    } else {
        match unsigned_value(s, i64::MAX as nat) {
            Ok(v) => Ok(v as int),
            Err(e) => Err(e),
        }
    }
}

fn read_digits(s: &[char], from: usize, max: u64, overflow: NumberError) -> (r: Result<
    u64,
    NumberError,
>)
    requires
        from <= s@.len(),
    ensures
        match r {
            Ok(v) => digits_value(s@.skip(from as int), max as nat, overflow) == Ok::<
                nat,
                NumberError,
            >(v as nat),
            Err(e) => digits_value(s@.skip(from as int), max as nat, overflow) == Err::<
                nat,
                NumberError,
            >(e),
        },
{
    let ghost digits = s@.skip(from as int);
    let mut value: u64 = 0;
    let mut failure: Option<NumberError> = None;
    let mut i: usize = from;
    while i < s.len()
        invariant
            from <= i <= s@.len(),
            digits == s@.skip(from as int),
            match failure {
                None => digits_value(digits.take(i - from), max as nat, overflow) == Ok::<
                    nat,
                    NumberError,
                >(value as nat),
                Some(e) => digits_value(digits.take(i - from), max as nat, overflow) == Err::<
                    nat,
                    NumberError,
                >(e),
            },
            value <= max,
        decreases s.len() - i,
    {
        let c: char = s[i];
        proof {
            let k = i - from;
            assert(digits.take(k + 1).drop_last() =~= digits.take(k));
            assert(digits.take(k + 1).last() == c);
        }
        if failure.is_none() {
            if c < '0' || c > '9' {
                failure = Some(NumberError::InvalidDigit);
            } else {
                let next: u128 = value as u128 * 10 + (c as u32 - '0' as u32) as u128;
                if next > max as u128 {
                    failure = Some(overflow);
                } else {
                    value = next as u64;
                }
            }
        }
        i = i + 1;
    }
    proof {
        assert(digits.take(i - from) =~= digits);
    }
    match failure {
        None => Ok(value),
        Some(e) => Err(e),
    }
}

/// Reads a number from 0 up to `max`.
pub fn parse_unsigned(text: &str, max: u64) -> (r: Result<u64, NumberError>)
    ensures
        match r {
            Ok(v) => unsigned_value(text@, max as nat) == Ok::<nat, NumberError>(v as nat),
            Err(e) => unsigned_value(text@, max as nat) == Err::<nat, NumberError>(e),
        },
{
    let s: Vec<char> = chars_of(text);
    if s.len() == 0 {
        return Err(NumberError::Empty);
    }
    if s.len() == 1 && (s[0] == '+' || s[0] == '-') {
        return Err(NumberError::InvalidDigit);
    }
    if s[0] == '+' {
        read_digits(s.as_slice(), 1, max, NumberError::TooLarge)
    } else {
        proof {
            assert(s@.skip(0) =~= s@);
        }
        read_digits(s.as_slice(), 0, max, NumberError::TooLarge)
    }
}

/// Reads an `i64`.
pub fn parse_signed(text: &str) -> (r: Result<i64, NumberError>)
    ensures
        match r {
            Ok(v) => signed_value(text@) == Ok::<int, NumberError>(v as int),
            Err(e) => signed_value(text@) == Err::<int, NumberError>(e),
        },
{
    let s: Vec<char> = chars_of(text);
    if s.len() > 1 && s[0] == '-' {
        let limit: u64 = 0x8000_0000_0000_0000;
        match read_digits(s.as_slice(), 1, limit, NumberError::TooSmall) {
            Ok(v) => Ok((-(v as i128)) as i64),
            Err(e) => Err(e),
        }
    } else {
        match parse_unsigned(text, i64::MAX as u64) {
            Ok(v) => Ok(v as i64),
            Err(e) => Err(e),
        }
    }
}

/// The decimal digits of `n`, as ASCII, without leading zeros.
pub open spec fn decimal(n: nat) -> Seq<u8>
    decreases n,
{
    if n < 10 {
        seq![(48 + n) as u8]
    } else {
        decimal(n / 10).push((48 + n % 10) as u8)
    }
}

/// Appends the decimal digits of `n`.
pub fn push_decimal(out: &mut Vec<u8>, n: u64)
    ensures
        final(out)@ == old(out)@ + decimal(n as nat),
    decreases n,
{
    if n >= 10 {
        push_decimal(out, n / 10);
        out.push((48 + n % 10) as u8);
    } else {
        out.push((48 + n) as u8);
    }
    proof {
        assert(out@ =~= old(out)@ + decimal(n as nat));
    }
}

/// A larger number has at least as many digits.
pub proof fn lemma_decimal_len_monotonic(a: nat, b: nat)
    requires
        a <= b,
    ensures
        1 <= decimal(a).len() <= decimal(b).len(),
    decreases b,
{
    if b >= 10 {
        if a >= 10 {
            lemma_decimal_len_monotonic(a / 10, b / 10);
        } else {
            lemma_decimal_len_monotonic(0, b / 10);
        }
    }
}

/// The value of a decimal digit.
proof fn lemma_digit(c: char)
    ensures
        is_digit(c) ==> digit_value(c) == c as int - 48 && digit_value(c) <= 9,
        is_digit(c) <==> 48 <= c as int <= 57,
{
}

/// How a number from 0 to `max` is read from left to right: a lone character is a
/// digit or wrong, one more digit makes ten times the number and the digit, which
/// must not be above `max`, and what is wrong stays wrong whatever follows.
pub proof fn law_unsigned_is_read_digit_by_digit(s: Seq<char>, c: char, max: nat)
    ensures
        unsigned_value(Seq::empty(), max) == Err::<nat, NumberError>(NumberError::Empty),
        unsigned_value(seq![c], max) == if !('0' <= c <= '9') {
            Err::<nat, NumberError>(NumberError::InvalidDigit)
        } else if c as int - 48 > max {
            Err(NumberError::TooLarge)
        } else {
            Ok((c as int - 48) as nat)
        },
        unsigned_value(s, max) matches Ok(v) ==> unsigned_value(s.push(c), max) == if !('0' <= c
            <= '9') {
            Err::<nat, NumberError>(NumberError::InvalidDigit)
        } else if 10 * v + (c as int - 48) > max {
            Err(NumberError::TooLarge)
        } else {
            Ok((10 * v + (c as int - 48)) as nat)
        },
        s.len() >= 1 && s != seq!['+'] ==> (unsigned_value(s, max) matches Err(e)
            ==> unsigned_value(s.push(c), max) == Err::<nat, NumberError>(e)),
{
    lemma_digit(c);
    let one = seq![c];
    assert(one.drop_last() =~= Seq::<char>::empty());
    reveal_with_fuel(digits_value, 2);
    if s.len() >= 1 {
        let t = s.push(c);
        assert(t.drop_last() =~= s);
        assert(t[0] == s[0]);
        if s[0] == '+' {
            if s.len() == 1 {
                assert(s =~= seq!['+']);
            }
            assert(t.skip(1).drop_last() =~= s.skip(1));
            assert(t.skip(1).last() == c);
        } else if s.len() == 1 && s[0] == '-' {
            assert(s.drop_last() =~= Seq::<char>::empty());
            assert(digits_value(s, max, NumberError::TooLarge) == Err::<nat, NumberError>(
                NumberError::InvalidDigit,
            ));
        }
    }
}

/// A plus sign in front of digits changes nothing; in front of another sign, or
/// with nothing behind it, it is wrong.
pub proof fn law_plus_sign(s: Seq<char>, max: nat)
    ensures
        unsigned_value(seq!['+'] + s, max) == if s.len() == 0 || s[0] == '+' || s[0] == '-' {
            Err::<nat, NumberError>(NumberError::InvalidDigit)
        } else {
            unsigned_value(s, max)
        },
{
    let t = seq!['+'] + s;
    assert(t.skip(1) =~= s);
    if s.len() > 0 && (s[0] == '+' || s[0] == '-') {
        lemma_wrong_first(s, max, NumberError::TooLarge);
    }
}

proof fn lemma_wrong_first(s: Seq<char>, max: nat, overflow: NumberError)
    requires
        s.len() > 0,
        !is_digit(s[0]),
    ensures
        digits_value(s, max, overflow) == Err::<nat, NumberError>(NumberError::InvalidDigit),
    decreases s.len(),
{
    if s.len() > 1 {
        lemma_wrong_first(s.drop_last(), max, overflow);
    } else {
        reveal_with_fuel(digits_value, 2);
        assert(s.drop_last() =~= Seq::<char>::empty());
    }
}

proof fn lemma_overflow_kind(s: Seq<char>, max: nat)
    ensures
        digits_value(s, max, NumberError::TooSmall) == match digits_value(
            s,
            max,
            NumberError::TooLarge,
        ) {
            Ok(v) => Ok::<nat, NumberError>(v),
            Err(NumberError::TooLarge) => Err(NumberError::TooSmall),
            Err(e) => Err(e),
        },
        digits_value(s, max, NumberError::TooLarge) != Err::<nat, NumberError>(
            NumberError::TooSmall,
        ),
    decreases s.len(),
{
    if s.len() > 0 {
        lemma_overflow_kind(s.drop_last(), max);
    }
}

/// A signed number without a minus sign is read as one up to the largest `i64`.
/// With a minus sign in front of digits it is the negative of what the digits
/// denote, down to the smallest `i64`; in front of another sign, or with nothing
/// behind it, the minus sign is wrong.
pub proof fn law_signed_numbers(s: Seq<char>)
    ensures
        s.len() == 0 || s[0] != '-' ==> signed_value(s) == match unsigned_value(
            s,
            9223372036854775807,
        ) {
            Ok(v) => Ok::<int, NumberError>(v as int),
            Err(e) => Err(e),
        },
        s.len() > 0 && s[0] != '+' && s[0] != '-' ==> signed_value(seq!['-'] + s)
            == match unsigned_value(s, 9223372036854775808) {
            Ok(v) => Ok::<int, NumberError>(-(v as int)),
            Err(NumberError::TooLarge) => Err(NumberError::TooSmall),
            Err(e) => Err(e),
        },
        s.len() == 0 || s[0] == '+' || s[0] == '-' ==> signed_value(seq!['-'] + s) == Err::<
            int,
            NumberError,
        >(NumberError::InvalidDigit),
{
    let t = seq!['-'] + s;
    assert(t.skip(1) =~= s);
    if s.len() > 0 && !is_digit(s[0]) {
        lemma_wrong_first(s, 9223372036854775808, NumberError::TooSmall);
    }
    lemma_overflow_kind(s, 9223372036854775808);
}

/// The characters of decimal digits.
pub open spec fn digit_chars(digits: Seq<u8>) -> Seq<char> {
    digits.map_values(|b: u8| b as char)
}

/// What is written for a number is read as that number, and begins with a zero
/// only for zero.
pub proof fn law_decimal_reads_back(n: nat, max: nat)
    requires
        n <= max,
    ensures
        unsigned_value(digit_chars(decimal(n)), max) == Ok::<nat, NumberError>(n),
        decimal(n).len() >= 1,
        forall|i: int| 0 <= i < decimal(n).len() ==> 48 <= #[trigger] decimal(n)[i] <= 57,
        n > 0 ==> decimal(n)[0] != 48,
    decreases n,
{
    let digits = decimal(n);
    let last = digits.last() as char;
    if n < 10 {
        assert(digit_chars(digits) =~= seq![last]);
        law_unsigned_is_read_digit_by_digit(Seq::empty(), last, max);
    } else {
        law_decimal_reads_back(n / 10, max);
        let front = digit_chars(decimal(n / 10));
        assert(digit_chars(digits) =~= front.push(last));
        law_unsigned_is_read_digit_by_digit(front, last, max);
    }
}

} // verus!
