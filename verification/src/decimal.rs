//! Reading of plain decimal numerals into fixed-point integers.
//!
//! A numeral is a run of ASCII digits, optionally followed by a decimal point
//! and a second run of digits. Either run may be empty, but not both: `"7"`,
//! `"7."`, `".5"` and `"7.5"` are numerals, `"."` is not. Signs, exponents,
//! separators, surrounding blanks and the spellings of infinity and
//! not-a-number are not part of the grammar.

use vstd::prelude::*;

verus! {

/// The ASCII code of the decimal point.
pub const POINT: u8 = 0x2e;

/// The ASCII code of the minus sign.
pub const MINUS: u8 = 0x2d;

/// The ASCII code of the digit zero.
pub const ZERO: u8 = 0x30;

/// Why a text could not be read as a fixed-point number.
#[derive(Clone, Copy, Debug, PartialEq, Eq, Structural, Hash)]
pub enum ParseError {
    /// The text is empty.
    Empty,
    /// The text is a numeral with a minus sign in front of it.
    Negative,
    /// The text is not a numeral.
    Malformed,
    /// The numeral has more fraction digits than the target can hold.
    TooPrecise,
    /// The number is too large for the target.
    OutOfRange,
}

/// Whether `byte` is an ASCII digit.
pub open spec fn is_digit(byte: u8) -> bool {
    ZERO <= byte <= ZERO + 9
}

/// The number a single digit stands for; zero for any other byte.
pub open spec fn digit_value(byte: u8) -> nat {
    if is_digit(byte) {
        (byte - ZERO) as nat
    } else {
        0
    }
}

/// Whether every byte of `text` is an ASCII digit.
pub open spec fn all_digits(text: Seq<u8>) -> bool {
    forall|i: int| 0 <= i < text.len() ==> is_digit(#[trigger] text[i])
}

/// The number written by a run of digits, most significant digit first. The
/// empty run writes zero.
pub open spec fn digits_value(digits: Seq<u8>) -> nat
    decreases digits.len(),
{
    if digits.len() == 0 {
        0
    } else {
        digits_value(digits.drop_last()) * 10 + digit_value(digits.last())
    }
}

/// Ten to the power of `exponent`.
pub open spec fn pow10(exponent: nat) -> nat
    decreases exponent,
{
    if exponent == 0 {
        1
    } else {
        10 * pow10((exponent - 1) as nat)
    }
}

/// Whether `at` is where `text` splits into whole part and fraction: the
/// position of its first decimal point, or its length if it has none.
pub open spec fn is_split(text: Seq<u8>, at: int) -> bool {
    &&& 0 <= at <= text.len()
    &&& forall|i: int| 0 <= i < at ==> #[trigger] text[i] != POINT
    &&& at < text.len() ==> text[at] == POINT
}

/// The position of the first decimal point of `text`, or its length if it
/// has none.
pub open spec fn point_position(text: Seq<u8>) -> int {
    choose|at: int| is_split(text, at)
}

/// The bytes before the first decimal point.
pub open spec fn whole_part(text: Seq<u8>) -> Seq<u8> {
    text.take(point_position(text))
}

/// The bytes after the first decimal point; empty if there is no point.
pub open spec fn fraction_part(text: Seq<u8>) -> Seq<u8> {
    let at = point_position(text);
    if at < text.len() {
        text.skip(at + 1)
    } else {
        Seq::empty()
    }
}

/// Whether `text` is a numeral: digits, then optionally a point and more
/// digits, with at least one digit in all.
pub open spec fn is_numeral(text: Seq<u8>) -> bool {
    &&& all_digits(whole_part(text))
    &&& all_digits(fraction_part(text))
    &&& whole_part(text).len() + fraction_part(text).len() > 0
}

/// The value of a numeral counted in units of `10^-scale`, for a numeral with
/// at most `scale` fraction digits: its digits read as one integer, padded
/// with zeros up to `scale` fraction digits.
pub open spec fn scaled_value(text: Seq<u8>, scale: nat) -> nat {
    digits_value(whole_part(text) + fraction_part(text)) * pow10(
        (scale - fraction_part(text).len()) as nat,
    )
}

/// What reading `text` as a number with `scale` decimal places yields.
pub open spec fn decimal_reading(text: Seq<u8>, scale: nat) -> Result<u64, ParseError> {
    if text.len() == 0 {
        Err(ParseError::Empty)
    } else if text[0] == MINUS {
        if is_numeral(text.drop_first()) {
            Err(ParseError::Negative)
        } else {
            Err(ParseError::Malformed)
        }
    } else if !is_numeral(text) {
        Err(ParseError::Malformed)
    } else if fraction_part(text).len() > scale {
        Err(ParseError::TooPrecise)
    } else if scaled_value(text, scale) > u64::MAX {
        Err(ParseError::OutOfRange)
    } else {
        Ok(scaled_value(text, scale) as u64)
    }
}

/// A text splits in one place only.
pub proof fn lemma_split_is_unique(text: Seq<u8>, at: int)
    requires
        is_split(text, at),
    ensures
        point_position(text) == at,
        is_split(text, point_position(text)),
{
    let chosen = point_position(text);
    if chosen < at {
        assert(text[chosen] != POINT);
    } else if at < chosen {
        assert(text[at] != POINT);
    }
}

/// Reading more digits never makes the number smaller.
pub proof fn lemma_digits_value_grows(digits: Seq<u8>, prefix: int)
    requires
        0 <= prefix <= digits.len(),
    ensures
        digits_value(digits.take(prefix)) <= digits_value(digits),
    decreases digits.len(),
{
    if prefix == digits.len() {
        assert(digits.take(prefix) =~= digits);
    } else {
        lemma_digits_value_grows(digits.drop_last(), prefix);
        assert(digits.drop_last().take(prefix) =~= digits.take(prefix));
    }
}

/// Powers of ten are positive and grow with the exponent.
pub proof fn lemma_pow10_grows(smaller: nat, larger: nat)
    requires
        smaller <= larger,
    ensures
        1 <= pow10(smaller) <= pow10(larger),
    decreases larger,
{
    if smaller < larger {
        lemma_pow10_grows(smaller, (larger - 1) as nat);
    } else if smaller > 0 {
        lemma_pow10_grows((smaller - 1) as nat, (larger - 1) as nat);
    }
}

/// No split lies before the first `limit` bytes if none of them is a point.
proof fn lemma_no_split_before(text: Seq<u8>, limit: int)
    requires
        0 <= limit <= text.len(),
        forall|i: int| 0 <= i < limit ==> #[trigger] text[i] != POINT,
    ensures
        point_position(text) >= limit,
        is_split(text, point_position(text)),
    decreases text.len() - limit,
{
    if limit < text.len() && text[limit] != POINT {
        lemma_no_split_before(text, limit + 1);
    } else {
        lemma_split_is_unique(text, limit);
    }
}

/// Decides [`is_digit`].
fn is_ascii_digit(byte: u8) -> (digit: bool)
    ensures
        digit == is_digit(byte),
{
    ZERO <= byte && byte <= ZERO + 9
}

/// Checks whether `text` from position `from` on is a numeral and, if so,
/// finds where it splits.
fn numeral_split(text: &[u8], from: usize) -> (split: Option<usize>)
    requires
        from <= text@.len(),
    ensures
        split is Some <==> is_numeral(text@.skip(from as int)),
        split matches Some(at) ==> from <= at <= text@.len() && at - from == point_position(
            text@.skip(from as int),
        ),
{
    let ghost rest = text@.skip(from as int);
    let end = text.len();
    let mut at = from;
    while at < end && text[at] != POINT
        invariant
            from <= at <= end == text@.len(),
            rest == text@.skip(from as int),
            forall|i: int| 0 <= i < at - from ==> is_digit(#[trigger] rest[i]),
        decreases end - at,
    {
        if !is_ascii_digit(text[at]) {
            proof {
                // A byte that is neither digit nor point sits in the whole part.
                let bad = at - from;
                assert(rest[bad] == text@[at as int]);
                assert(forall|i: int| 0 <= i <= bad ==> #[trigger] rest[i] != POINT);
                lemma_no_split_before(rest, bad + 1);
                assert(!is_digit(whole_part(rest)[bad]));
            }
            return None;
        }
        at = at + 1;
    }
    proof {
        assert(forall|i: int| 0 <= i < at - from ==> #[trigger] rest[i] != POINT);
        assert(at < end ==> rest[at - from] == text@[at as int]);
        lemma_split_is_unique(rest, at - from);
    }
    let ghost fraction = fraction_part(rest);
    let mut next = if at < end {
        at + 1
    } else {
        end
    };
    while next < end
        invariant
            from <= at < next <= end == text@.len() || from <= at == next == end == text@.len(),
            rest == text@.skip(from as int),
            point_position(rest) == at - from,
            fraction == fraction_part(rest),
            forall|i: int| 0 <= i < next - at - 1 ==> is_digit(#[trigger] fraction[i]),
        decreases end - next,
    {
        if !is_ascii_digit(text[next]) {
            assert(fraction[next - at - 1] == text@[next as int]);
            return None;
        }
        next = next + 1;
    }
    let digits = if at < end {
        end - from - 1
    } else {
        end - from
    };
    if digits == 0 {
        None
    } else {
        Some(at)
    }
}

/// Reads the digits of a numeral that splits at `at` as one integer, or
/// finds that the integer does not fit in 64 bits.
fn read_digits(text: &[u8], at: usize) -> (value: Option<u64>)
    requires
        is_numeral(text@),
        at == point_position(text@),
        at <= text@.len(),
    ensures
        match value {
            Some(number) => number == digits_value(whole_part(text@) + fraction_part(text@)),
            None => digits_value(whole_part(text@) + fraction_part(text@)) > u64::MAX,
        },
{
    let ghost digits = whole_part(text@) + fraction_part(text@);
    let end = text.len();
    let mut value: u64 = 0;
    let mut index: usize = 0;
    while index < end
        invariant
            index <= end == text@.len(),
            at == point_position(text@),
            at <= end,
            is_numeral(text@),
            digits == whole_part(text@) + fraction_part(text@),
            value == digits_value(
                digits.take(
                    if index <= at {
                        index as int
                    } else {
                        index - 1
                    },
                ),
            ),
        decreases end - index,
    {
        if index != at {
            let ghost seen = if index < at {
                index as int
            } else {
                index - 1
            };
            proof {
                assert(digits[seen] == text@[index as int]);
                assert(is_digit(digits[seen])) by {
                    if index < at {
                        assert(is_digit(whole_part(text@)[seen]));
                    } else {
                        assert(is_digit(fraction_part(text@)[seen - at]));
                    }
                }
                assert(digits.take(seen + 1).drop_last() =~= digits.take(seen));
            }
            let digit: u64 = (text[index] - ZERO) as u64;
            if value > (u64::MAX - digit) / 10 {
                proof {
                    lemma_digits_value_grows(digits, seen + 1);
                }
                return None;
            }
            value = value * 10 + digit;
        }
        index = index + 1;
    }
    assert(digits.take(digits.len() as int) =~= digits);
    Some(value)
}

/// Multiplies `value` by ten to the power of `places`, or finds that the
/// product does not fit in 64 bits.
fn shift_left(value: u64, places: u8) -> (shifted: Option<u64>)
    ensures
        match shifted {
            Some(product) => product == value * pow10(places as nat),
            None => value * pow10(places as nat) > u64::MAX,
        },
{
    if value == 0 {
        assert(0 * pow10(places as nat) == 0);
        return Some(0);
    }
    let mut product = value;
    let mut done: u8 = 0;
    assert(value * pow10(0) == value) by {
        assert(pow10(0) == 1);
    }
    while done < places
        invariant
            done <= places,
            value >= 1,
            product == value * pow10(done as nat),
        decreases places - done,
    {
        assert(value * pow10((done + 1) as nat) == product * 10) by (nonlinear_arith)
            requires
                product == value * pow10(done as nat),
                pow10((done + 1) as nat) == 10 * pow10(done as nat),
        ;
        if product > u64::MAX / 10 {
            proof {
                lemma_pow10_grows((done + 1) as nat, places as nat);
                assert(value * pow10(places as nat) >= value * pow10((done + 1) as nat))
                    by (nonlinear_arith)
                    requires
                        pow10(places as nat) >= pow10((done + 1) as nat),
                        value >= 1,
                ;
            }
            return None;
        }
        product = product * 10;
        done = done + 1;
    }
    Some(product)
}

/// Reads `text` as a non-negative decimal number with `scale` decimal places
/// and returns it counted in units of `10^-scale`.
///
/// The text must be a numeral with at most `scale` fraction digits whose
/// scaled value fits in 64 bits; [`decimal_reading`] says which error is
/// returned otherwise.
pub fn parse_decimal(text: &[u8], scale: u8) -> (reading: Result<u64, ParseError>)
    ensures
        reading == decimal_reading(text@, scale as nat),
{
    let end = text.len();
    if end == 0 {
        return Err(ParseError::Empty);
    }
    if text[0] == MINUS {
        assert(text@.skip(1) =~= text@.drop_first());
        return match numeral_split(text, 1) {
            Some(_) => Err(ParseError::Negative),
            None => Err(ParseError::Malformed),
        };
    }
    assert(text@.skip(0) =~= text@);
    let at = match numeral_split(text, 0) {
        Some(at) => at,
        None => {
            return Err(ParseError::Malformed);
        },
    };
    let fraction_len = if at < end {
        end - at - 1
    } else {
        0
    };
    if fraction_len > scale as usize {
        return Err(ParseError::TooPrecise);
    }
    let padding: u8 = scale - fraction_len as u8;
    let ghost digits = whole_part(text@) + fraction_part(text@);
    let number = match read_digits(text, at) {
        Some(number) => number,
        None => {
            proof {
                lemma_pow10_grows(0, padding as nat);
                assert(digits_value(digits) * pow10(padding as nat) >= digits_value(digits))
                    by (nonlinear_arith)
                    requires
                        pow10(padding as nat) >= 1,
                ;
            }
            return Err(ParseError::OutOfRange);
        },
    };
    match shift_left(number, padding) {
        Some(value) => Ok(value),
        None => Err(ParseError::OutOfRange),
    }
}

} // verus!
