//! Decimal text for signed integers: reading a process identifier out of a
//! pidfile and writing an exit code into an exit file.
//!
//! The reader accepts exactly what `str::parse::<i32>` accepts (an optional
//! sign, then one or more ASCII digits, nothing else) and faults as it does:
//! digits are read left to right and the first fault decides.

use vstd::prelude::*;

verus! {

/// Why a text is not a 32-bit signed decimal number.
#[derive(Debug, Clone, Copy, PartialEq, Eq, Structural)]
pub enum ParseIntError {
    /// The text holds no character at all.
    Empty,
    /// A character is not a decimal digit, or a sign stands alone.
    InvalidDigit,
    /// The number is above `i32::MAX`.
    PosOverflow,
    /// The number is below `i32::MIN`.
    NegOverflow,
}

impl ParseIntError {
    pub open spec fn spec_message(self) -> Seq<char> {
        match self {
            ParseIntError::Empty => "cannot parse integer from empty string"@,
            ParseIntError::InvalidDigit => "invalid digit found in string"@,
            ParseIntError::PosOverflow => "number too large to fit in target type"@,
            ParseIntError::NegOverflow => "number too small to fit in target type"@,
        }
    }

    /// The words for the caller.
    pub fn message(&self) -> (text: &'static str)
        ensures
            text@ == self.spec_message(),
    {
        match self {
            ParseIntError::Empty => "cannot parse integer from empty string",
            ParseIntError::InvalidDigit => "invalid digit found in string",
            ParseIntError::PosOverflow => "number too large to fit in target type",
            ParseIntError::NegOverflow => "number too small to fit in target type",
        }
    }
}

pub open spec fn is_digit(c: char) -> bool {
    '0' <= c && c <= '9'
}

pub open spec fn digit_value(c: char) -> int {
    c as int - '0' as int
}

/// The character that stands for `d`, for `0 <= d <= 9`.
pub open spec fn digit_char(d: int) -> char {
    if d == 0 {
        '0'
    } else if d == 1 {
        '1'
    } else if d == 2 {
        '2'
    } else if d == 3 {
        '3'
    } else if d == 4 {
        '4'
    } else if d == 5 {
        '5'
    } else if d == 6 {
        '6'
    } else if d == 7 {
        '7'
    } else if d == 8 {
        '8'
    } else {
        '9'
    }
}

pub open spec fn all_digits(s: Seq<char>) -> bool {
    forall|i: int| 0 <= i < s.len() ==> is_digit(#[trigger] s[i])
}

/// The number that a run of digits denotes, most significant digit first.
pub open spec fn digits_value(s: Seq<char>) -> int
    decreases s.len(),
{
    if s.len() == 0 {
        0
    } else {
        10 * digits_value(s.drop_last()) + digit_value(s.last())
    }
}

pub open spec fn has_sign(s: Seq<char>) -> bool {
    s.len() > 0 && (s[0] == '-' || s[0] == '+')
}

pub open spec fn is_negative(s: Seq<char>) -> bool {
    s.len() > 0 && s[0] == '-'
}

/// The text without its sign.
pub open spec fn unsigned_part(s: Seq<char>) -> Seq<char> {
    if has_sign(s) {
        s.subrange(1, s.len() as int)
    } else {
        s
    }
}

/// The number that a signed text denotes, where its unsigned part is all digits.
pub open spec fn signed_value(s: Seq<char>) -> int {
    if is_negative(s) {
        -digits_value(unsigned_part(s))
    } else {
        digits_value(unsigned_part(s))
    }
}

/// Reads `digits` left to right into a 32-bit accumulator and stops at the
/// first fault. At each character a non-digit is reported before an overflow.
pub open spec fn scan(digits: Seq<char>, negative: bool) -> Result<int, ParseIntError>
    decreases digits.len(),
{
    if digits.len() == 0 {
        Ok(0)
    } else {
        match scan(digits.drop_last(), negative) {
            Err(e) => Err(e),
            Ok(v) => {
                let c = digits.last();
                let next = if negative {
                    10 * v - digit_value(c)
                } else {
                    10 * v + digit_value(c)
                };
                if !is_digit(c) {
                    Err(ParseIntError::InvalidDigit)
                } else if next > i32::MAX {
                    Err(ParseIntError::PosOverflow)
                } else if next < i32::MIN {
                    Err(ParseIntError::NegOverflow)
                } else {
                    Ok(next)
                }
            },
        }
    }
}

/// What reading `s` as a 32-bit signed decimal number gives.
pub open spec fn spec_parse_i32(s: Seq<char>) -> Result<int, ParseIntError> {
    if s.len() == 0 {
        Err(ParseIntError::Empty)
    } else if unsigned_part(s).len() == 0 {
        Err(ParseIntError::InvalidDigit)
    } else {
        scan(unsigned_part(s), is_negative(s))
    }
}

/// The digits of `n`, most significant first, without leading zeros.
pub open spec fn digits_text(n: nat) -> Seq<char>
    decreases n,
{
    if n < 10 {
        seq![digit_char(n as int)]
    } else {
        digits_text(n / 10).push(digit_char((n % 10) as int))
    }
}

/// The decimal text of `n`: a minus sign where `n` is negative, then its digits.
pub open spec fn decimal_text(n: int) -> Seq<char> {
    if n < 0 {
        seq!['-'] + digits_text((-n) as nat)
    } else {
        digits_text(n as nat)
    }
}

/// A fault met in a prefix of the digits is the fault of the whole run.
pub proof fn lemma_scan_fault_persists(digits: Seq<char>, negative: bool, k: int)
    requires
        0 <= k <= digits.len(),
        scan(digits.take(k), negative) is Err,
    ensures
        scan(digits, negative) == scan(digits.take(k), negative),
    decreases digits.len() - k,
{
    if k == digits.len() {
        assert(digits.take(k) =~= digits);
    } else {
        assert(digits.take(k + 1).drop_last() =~= digits.take(k));
        lemma_scan_fault_persists(digits, negative, k + 1);
    }
}

/// A run that reads without fault is all digits, and the accumulator holds
/// its value, negated where the text is negative.
pub proof fn lemma_scan_ok(digits: Seq<char>, negative: bool)
    ensures
        scan(digits, negative) matches Ok(v) ==> {
            &&& all_digits(digits)
            &&& v == if negative { -digits_value(digits) } else { digits_value(digits) }
            &&& i32::MIN <= v <= i32::MAX
            &&& negative ==> v <= 0
            &&& !negative ==> v >= 0
        },
    decreases digits.len(),
{
    if digits.len() > 0 {
        lemma_scan_ok(digits.drop_last(), negative);
        if scan(digits, negative) is Ok {
            assert forall|i: int| 0 <= i < digits.len() implies is_digit(#[trigger] digits[i]) by {
                if i < digits.len() - 1 {
                    assert(digits.drop_last()[i] == digits[i]);
                }
            }
        }
    }
}

/// A run of digits whose value, with its sign, fits in 32 bits reads without fault.
pub proof fn lemma_scan_in_range(digits: Seq<char>, negative: bool)
    requires
        all_digits(digits),
        negative ==> -digits_value(digits) >= i32::MIN,
        !negative ==> digits_value(digits) <= i32::MAX,
    ensures
        scan(digits, negative) == Ok::<int, ParseIntError>(
            if negative {
                -digits_value(digits)
            } else {
                digits_value(digits)
            },
        ),
    decreases digits.len(),
{
    if digits.len() > 0 {
        let front = digits.drop_last();
        assert(all_digits(front));
        lemma_digits_value_nonnegative(front);
        lemma_scan_in_range(front, negative);
    }
}

/// A run of digits denotes a number that is not negative.
pub proof fn lemma_digits_value_nonnegative(digits: Seq<char>)
    requires
        all_digits(digits),
    ensures
        digits_value(digits) >= 0,
    decreases digits.len(),
{
    if digits.len() > 0 {
        let front = digits.drop_last();
        assert(all_digits(front));
        lemma_digits_value_nonnegative(front);
    }
}

/// Reading succeeds exactly on an optional sign followed by one or more digits
/// whose signed value fits in 32 bits, and then gives that value.
pub proof fn law_parse_accepts_numbers(s: Seq<char>)
    ensures
        spec_parse_i32(s) is Ok <==> {
            &&& unsigned_part(s).len() > 0
            &&& all_digits(unsigned_part(s))
            &&& i32::MIN <= signed_value(s) <= i32::MAX
        },
        spec_parse_i32(s) matches Ok(v) ==> v == signed_value(s),
{
    let digits = unsigned_part(s);
    let negative = is_negative(s);
    lemma_scan_ok(digits, negative);
    if digits.len() > 0 && all_digits(digits) && i32::MIN <= signed_value(s) <= i32::MAX {
        lemma_scan_in_range(digits, negative);
    }
}

/// The text of a natural number is a non-empty run of digits with that value.
pub proof fn lemma_digits_text(n: nat)
    ensures
        digits_text(n).len() > 0,
        all_digits(digits_text(n)),
        digits_value(digits_text(n)) == n,
    decreases n,
{
    if n < 10 {
        let t = digits_text(n);
        assert(digits_value(t.drop_last()) == 0);
    } else {
        lemma_digits_text(n / 10);
        let front = digits_text(n / 10);
        let t = digits_text(n);
        assert(t.drop_last() =~= front);
        assert(all_digits(t));
    }
}

/// Writing a 32-bit number and reading the text back gives the number.
pub proof fn law_written_number_reads_back(n: i32)
    ensures
        spec_parse_i32(decimal_text(n as int)) == Ok::<int, ParseIntError>(n as int),
{
    let s = decimal_text(n as int);
    if n < 0 {
        let m = (-(n as int)) as nat;
        lemma_digits_text(m);
        assert(unsigned_part(s) =~= digits_text(m));
        lemma_scan_in_range(digits_text(m), true);
    } else {
        let m = n as nat;
        lemma_digits_text(m);
        lemma_scan_in_range(digits_text(m), false);
    }
}

/// Reads a 32-bit signed decimal number.
pub fn parse_i32(text: &str) -> (r: Result<i32, ParseIntError>)
    ensures
        match r {
            Ok(v) => spec_parse_i32(text@) == Ok::<int, ParseIntError>(v as int),
            Err(e) => spec_parse_i32(text@) == Err::<int, ParseIntError>(e),
        },
{
    let mut first = true;
    let mut signed = false;
    let mut negative = false;
    let mut any_digit = false;
    let mut value: i32 = 0;
    for c in it: text.chars()
        invariant
            it.seq() == text@,
            first <==> it.index() == 0,
            first ==> !signed && !any_digit && value == 0 && !negative,
            signed ==> it.index() >= 1 && has_sign(text@),
            !first && !signed ==> !has_sign(text@),
            !first ==> negative == is_negative(text@),
            any_digit <==> it.index() > (if signed { 1int } else { 0int }),
            scan(text@.subrange(if signed { 1int } else { 0int }, it.index() as int), negative)
                == Ok::<int, ParseIntError>(value as int),
    {
        let ghost i = it.index() as int;
        let ghost start = if signed { 1int } else { 0int };
        if first && (c == '-' || c == '+') {
            negative = c == '-';
            signed = true;
            first = false;
        } else {
            first = false;
            let ghost digits = unsigned_part(text@);
            let ghost run = text@.subrange(start, i + 1);
            proof {
                assert(run.drop_last() =~= text@.subrange(start, i));
                assert(run =~= digits.take(i + 1 - start));
            }
            if !(c >= '0' && c <= '9') {
                proof {
                    lemma_scan_fault_persists(digits, negative, i + 1 - start);
                }
                return Err(ParseIntError::InvalidDigit);
            }
            let d: i64 = (c as u32 - 48) as i64;
            let next: i64 = if negative {
                10 * (value as i64) - d
            } else {
                10 * (value as i64) + d
            };
            if next > i32::MAX as i64 {
                proof {
                    lemma_scan_fault_persists(digits, negative, i + 1 - start);
                }
                return Err(ParseIntError::PosOverflow);
            }
            if next < i32::MIN as i64 {
                proof {
                    lemma_scan_fault_persists(digits, negative, i + 1 - start);
                }
                return Err(ParseIntError::NegOverflow);
            }
            value = next as i32;
            any_digit = true;
        }
    }
    proof {
        let start = if signed { 1int } else { 0int };
        assert(text@.subrange(start, text@.len() as int) =~= unsigned_part(text@));
    }
    if first {
        Err(ParseIntError::Empty)
    } else if !any_digit {
        Err(ParseIntError::InvalidDigit)
    } else {
        Ok(value)
    }
}

/// The one-character text of a digit.
fn digit_str(d: u64) -> (r: &'static str)
    requires
        d < 10,
    ensures
        r@ == seq![digit_char(d as int)],
{
    proof {
        reveal_strlit("0");
        reveal_strlit("1");
        reveal_strlit("2");
        reveal_strlit("3");
        reveal_strlit("4");
        reveal_strlit("5");
        reveal_strlit("6");
        reveal_strlit("7");
        reveal_strlit("8");
        reveal_strlit("9");
    }
    if d == 0 {
        "0"
    } else if d == 1 {
        "1"
    } else if d == 2 {
        "2"
    } else if d == 3 {
        "3"
    } else if d == 4 {
        "4"
    } else if d == 5 {
        "5"
    } else if d == 6 {
        "6"
    } else if d == 7 {
        "7"
    } else if d == 8 {
        "8"
    } else {
        "9"
    }
}

/// Appends the digits of `n` to `out`.
fn push_digits(out: &mut String, n: u64)
    ensures
        final(out)@ == old(out)@ + digits_text(n as nat),
    decreases n,
{
    if n >= 10 {
        push_digits(out, n / 10);
    }
    out.append(digit_str(n % 10));
}

/// Writes `n` in decimal.
pub fn format_i64(n: i64) -> (r: String)
    ensures
        r@ == decimal_text(n as int),
{
    let mut out = String::new();
    if n < 0 {
        out.append("-");
        proof {
            reveal_strlit("-");
        }
        let magnitude: u64 = (-(n + 1)) as u64 + 1;
        push_digits(&mut out, magnitude);
    } else {
        push_digits(&mut out, n as u64);
    }
    out
}

} // verus!
