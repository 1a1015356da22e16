//! Decimal numbers as text: writing integers, and reading `i32` and `u64`.

use vstd::prelude::*;

verus! {

/// Why a text is not a number of the wanted type.
#[derive(Clone, Copy, Debug, PartialEq, Eq, Structural)]
pub enum NumberError {
    /// The text is empty.
    Empty,
    /// A character is not a digit, or a sign stands alone.
    InvalidDigit,
    /// The number is above the largest of the type.
    PosOverflow,
    /// The number is below the smallest of the type.
    NegOverflow,
}

/// Whether `c` is one of `0` to `9`.
pub open spec fn is_digit(c: char) -> bool {
    '0' <= c <= '9'
}

/// The number that the digit `c` stands for.
pub open spec fn digit_value(c: char) -> nat {
    (c as int - '0' as int) as nat
}

/// The digit that stands for `d`.
pub open spec fn digit(d: nat) -> char {
    ('0' as int + d) as char
}

/// `n` in decimal, without leading zeros.
pub open spec fn decimal(n: nat) -> Seq<char>
    decreases n,
{
    if n < 10 {
        seq![digit(n)]
    } else {
        decimal(n / 10).push(digit(n % 10))
    }
}

/// `i` in decimal, with a minus sign if it is negative.
pub open spec fn signed_decimal(i: int) -> Seq<char> {
    if i < 0 {
        seq!['-'] + decimal((-i) as nat)
    } else {
        decimal(i as nat)
    }
}

/// Reads a run of digits as a number up to `limit`. Of two faults the leftmost counts;
/// at one position a wrong character counts before the size.
pub open spec fn digits_within(s: Seq<char>, limit: nat, overflow: NumberError) -> Result<
    nat,
    NumberError,
>
    decreases s.len(),
{
    if s.len() == 0 {
        Ok(0)
    } else {
        match digits_within(s.drop_last(), limit, overflow) {
            Err(e) => Err(e),
            Ok(n) => if !is_digit(s.last()) {
                Err(NumberError::InvalidDigit)
            } else if n * 10 + digit_value(s.last()) > limit {
                Err(overflow)
            } else {
                Ok(n * 10 + digit_value(s.last()))
            },
        }
    }
}

/// Whether `s` is a sign and nothing else.
pub open spec fn lone_sign(s: Seq<char>) -> bool {
    s.len() == 1 && (s[0] == '+' || s[0] == '-')
}

/// The `i32` that `s` writes: an optional sign and at least one digit.
pub open spec fn number_i32(s: Seq<char>) -> Result<int, NumberError> {
    if s.len() == 0 {
        Err(NumberError::Empty)
    } else if lone_sign(s) {
        Err(NumberError::InvalidDigit)
    } else if s[0] == '-' {
        match digits_within(s.skip(1), (i32::MAX + 1) as nat, NumberError::NegOverflow) {
            Ok(n) => Ok(-n),
            Err(e) => Err(e),
        }
    } else {
        let digits = if s[0] == '+' {
            s.skip(1)
        } else {
            s
        };
        match digits_within(digits, i32::MAX as nat, NumberError::PosOverflow) {
            Ok(n) => Ok(n as int),
            Err(e) => Err(e),
        }
    }
}

/// The `u64` that `s` writes: an optional plus sign and at least one digit.
pub open spec fn number_u64(s: Seq<char>) -> Result<nat, NumberError> {
    if s.len() == 0 {
        Err(NumberError::Empty)
    } else if lone_sign(s) {
        Err(NumberError::InvalidDigit)
    } else {
        let digits = if s[0] == '+' {
            s.skip(1)
        } else {
            s
        };
        digits_within(digits, u64::MAX as nat, NumberError::PosOverflow)
    }
}

impl NumberError {
    /// The text of `message`.
    pub open spec fn message_spec(self) -> Seq<char> {
        match self {
            NumberError::Empty => "cannot parse integer from empty string"@,
            NumberError::InvalidDigit => "invalid digit found in string"@,
            NumberError::PosOverflow => "number too large to fit in target type"@,
            NumberError::NegOverflow => "number too small to fit in target type"@,
        }
    }

    /// Says in words what is wrong.
    pub fn message(&self) -> (r: String)
        ensures
            r@ == self.message_spec(),
    {
        match self {
            NumberError::Empty => "cannot parse integer from empty string".to_owned(),
            NumberError::InvalidDigit => "invalid digit found in string".to_owned(),
            NumberError::PosOverflow => "number too large to fit in target type".to_owned(),
            NumberError::NegOverflow => "number too small to fit in target type".to_owned(),
        }
    }
}

/// The digit that stands for `d`.
fn digit_char(d: u64) -> (c: char)
    requires
        d < 10,
    ensures
        c == digit(d as nat),
{
    (48 + d as u8) as char
}

/// Writes a number in decimal.
pub fn format_unsigned(n: u128) -> (r: String)
    ensures
        r@ == decimal(n as nat),
    decreases n,
{
    if n < 10 {
        let mut r = String::new();
        r.push(digit_char(n as u64));
        assert(r@ == seq![digit(n as nat)]);
        r
    } else {
        let mut r = format_unsigned(n / 10);
        r.push(digit_char((n % 10) as u64));
        r
    }
}

/// Writes a number in decimal, with a minus sign if it is negative.
pub fn format_signed(i: i32) -> (r: String)
    ensures
        r@ == signed_decimal(i as int),
{
    if i < 0 {
        let mut r = String::new();
        r.push('-');
        let magnitude = format_unsigned((-(i as i64)) as u128);
        r.append(magnitude.as_str());
        assert(r@ == seq!['-'] + decimal((-(i as int)) as nat));
        r
    } else {
        format_unsigned(i as u128)
    }
}

/// Reads the digits from `from` on as a number up to `limit`.
fn parse_digits(s: &[char], from: usize, limit: u64, overflow: NumberError) -> (r: Result<
    u64,
    NumberError,
>)
    requires
        from <= s@.len(),
    ensures
        match r {
            Ok(n) => digits_within(s@.skip(from as int), limit as nat, overflow) == Ok::<
                nat,
                NumberError,
            >(n as nat),
            Err(e) => digits_within(s@.skip(from as int), limit as nat, overflow) == Err::<
                nat,
                NumberError,
            >(e),
        },
{
    let ghost rest = s@.skip(from as int);
    let mut n: u64 = 0;
    let mut i: usize = from;
    while i < s.len()
        invariant
            from <= i <= s@.len(),
            rest == s@.skip(from as int),
            n <= limit,
            digits_within(rest.take(i - from), limit as nat, overflow) == Ok::<nat, NumberError>(
                n as nat,
            ),
        decreases s@.len() - i,
    {
        let c = s[i];
        let ghost upto = rest.take(i - from + 1);
        assert(upto.drop_last() == rest.take(i - from));
        assert(upto.last() == c);
        if c < '0' || '9' < c {
            proof {
                lemma_fault_stays(rest, i - from + 1, limit as nat, overflow);
            }
            return Err(NumberError::InvalidDigit);
        }
        let d: u64 = c as u64 - 48;
        if (n as u128) * 10 + d as u128 > limit as u128 {
            proof {
                lemma_fault_stays(rest, i - from + 1, limit as nat, overflow);
            }
            return Err(overflow);
        }
        n = n * 10 + d;
        i = i + 1;
    }
    assert(rest.take(i - from) == rest);
    Ok(n)
}

/// A fault in a prefix is the fault of the whole.
pub proof fn lemma_fault_stays(s: Seq<char>, n: int, limit: nat, overflow: NumberError)
    requires
        0 <= n <= s.len(),
        digits_within(s.take(n), limit, overflow) is Err,
    ensures
        digits_within(s, limit, overflow) == digits_within(s.take(n), limit, overflow),
    decreases s.len(),
{
    if n < s.len() {
        assert(s.drop_last().take(n) == s.take(n));
        lemma_fault_stays(s.drop_last(), n, limit, overflow);
    } else {
        assert(s.take(n) == s);
    }
}

/// Reads an `i32`.
pub fn parse_i32(s: &[char]) -> (r: Result<i32, NumberError>)
    ensures
        match r {
            Ok(i) => number_i32(s@) == Ok::<int, NumberError>(i as int),
            Err(e) => number_i32(s@) == Err::<int, NumberError>(e),
        },
{
    if s.len() == 0 {
        return Err(NumberError::Empty);
    }
    if s.len() == 1 && (s[0] == '+' || s[0] == '-') {
        return Err(NumberError::InvalidDigit);
    }
    if s[0] == '-' {
        match parse_digits(s, 1, 2_147_483_648, NumberError::NegOverflow) {
            Ok(n) => {
                proof {
                    lemma_digits_bound(
                        s@.skip(1),
                        2_147_483_648,
                        NumberError::NegOverflow,
                    );
                }
                Ok((-(n as i64)) as i32)
            },
            Err(e) => Err(e),
        }
    } else {
        let from: usize = if s[0] == '+' {
            1
        } else {
            0
        };
        assert(s@.skip(0) == s@);
        match parse_digits(s, from, 2_147_483_647, NumberError::PosOverflow) {
            Ok(n) => {
                proof {
                    lemma_digits_bound(
                        s@.skip(from as int),
                        2_147_483_647,
                        NumberError::PosOverflow,
                    );
                }
                Ok(n as i32)
            },
            Err(e) => Err(e),
        }
    }
}

/// Reads a `u64`.
pub fn parse_u64(s: &[char]) -> (r: Result<u64, NumberError>)
    ensures
        match r {
            Ok(n) => number_u64(s@) == Ok::<nat, NumberError>(n as nat),
            Err(e) => number_u64(s@) == Err::<nat, NumberError>(e),
        },
{
    if s.len() == 0 {
        return Err(NumberError::Empty);
    }
    if s.len() == 1 && (s[0] == '+' || s[0] == '-') {
        return Err(NumberError::InvalidDigit);
    }
    let from: usize = if s[0] == '+' {
        1
    } else {
        0
    };
    assert(s@.skip(0) == s@);
    parse_digits(s, from, u64::MAX, NumberError::PosOverflow)
}

/// What is read stays within the limit.
proof fn lemma_digits_bound(s: Seq<char>, limit: nat, overflow: NumberError)
    ensures
        digits_within(s, limit, overflow) matches Ok(n) ==> n <= limit,
    decreases s.len(),
{
}

/// Every character of a decimal is a digit, and there is at least one.
pub proof fn lemma_decimal_digits(n: nat)
    ensures
        decimal(n).len() > 0,
        forall|i: int| 0 <= i < decimal(n).len() ==> is_digit(#[trigger] decimal(n)[i]),
    decreases n,
{
    if n >= 10 {
        lemma_decimal_digits(n / 10);
    }
}

/// Reading the decimal of a number within the limit gives the number.
proof fn lemma_digits_of_decimal(n: nat, limit: nat, overflow: NumberError)
    requires
        n <= limit,
    ensures
        digits_within(decimal(n), limit, overflow) == Ok::<nat, NumberError>(n),
    decreases n,
{
    if n < 10 {
        assert(decimal(n).drop_last() == Seq::<char>::empty());
        assert(digits_within(Seq::<char>::empty(), limit, overflow) == Ok::<nat, NumberError>(0));
    } else {
        lemma_digits_of_decimal(n / 10, limit, overflow);
        assert(decimal(n).drop_last() == decimal(n / 10));
    }
}

/// Different numbers have different decimals.
pub proof fn lemma_decimal_tells_apart(a: nat, b: nat)
    requires
        decimal(a) == decimal(b),
    ensures
        a == b,
{
    lemma_digits_of_decimal(a, a + b, NumberError::PosOverflow);
    lemma_digits_of_decimal(b, a + b, NumberError::PosOverflow);
}

/// Writing an `i32` and reading it gives it back.
pub proof fn lemma_signed_decimal_reads_back(i: i32)
    ensures
        number_i32(signed_decimal(i as int)) == Ok::<int, NumberError>(i as int),
{
    let s = signed_decimal(i as int);
    if i < 0 {
        let n = (-(i as int)) as nat;
        lemma_decimal_digits(n);
        assert(s.skip(1) == decimal(n));
        lemma_digits_of_decimal(n, (i32::MAX + 1) as nat, NumberError::NegOverflow);
    } else {
        let n = i as nat;
        lemma_decimal_digits(n);
        assert(is_digit(decimal(n)[0]));
        lemma_digits_of_decimal(n, i32::MAX as nat, NumberError::PosOverflow);
    }
}

/// Writing a `u64` and reading it gives it back.
pub proof fn lemma_decimal_reads_back(n: u64)
    ensures
        number_u64(decimal(n as nat)) == Ok::<nat, NumberError>(n as nat),
{
    lemma_decimal_digits(n as nat);
    assert(is_digit(decimal(n as nat)[0]));
    lemma_digits_of_decimal(n as nat, u64::MAX as nat, NumberError::PosOverflow);
}

} // verus!
