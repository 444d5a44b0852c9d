//! Decimal numbers, as the `rust_decimal` crate reads and writes them.
use vstd::prelude::*;

use crate::numeral::{all_digits, digits_value, lemma_nat_text};
use crate::text::nat_text;

verus! {

/// The mantissa and the scale that `rust_decimal::Decimal::from_str_exact` reads from a text,
/// or nothing where it reports an error.
pub uninterp spec fn decimal_of_text(text: Seq<char>) -> Option<(i128, u32)>;

/// A run of zeros.
pub open spec fn zeros(n: nat) -> Seq<char> {
    Seq::new(n, |i: int| '0')
}

/// The digits of a number, with zeros in front where there are fewer than `width` of them.
/// Zero itself has no digits of its own.
pub open spec fn padded_digits(n: nat, width: nat) -> Seq<char> {
    let digits = if n == 0 {
        Seq::<char>::empty()
    } else {
        nat_text(n)
    };
    if digits.len() < width {
        zeros((width - digits.len()) as nat) + digits
    } else {
        digits
    }
}

/// How the decimal number `mantissa / 10^scale` is written: with `scale` digits behind the
/// point and at least one in front of it.
pub open spec fn decimal_text(mantissa: int, scale: nat) -> Seq<char> {
    let magnitude = (if mantissa < 0 {
        -mantissa
    } else {
        mantissa
    }) as nat;
    let digits = padded_digits(magnitude, scale);
    let whole = digits.take(digits.len() - scale);
    let fraction = digits.skip(digits.len() - scale);
    (if mantissa < 0 {
        seq!['-']
    } else {
        Seq::<char>::empty()
    }) + (if whole.len() == 0 {
        seq!['0']
    } else {
        whole
    }) + (if scale == 0 {
        Seq::<char>::empty()
    } else {
        seq!['.'] + fraction
    })
}

/// Reads a decimal number that must be representable without rounding.
///
/// Calls `rust_decimal::Decimal::from_str_exact` and takes the mantissa and the scale of what it
/// returns; claims only that they depend on nothing but the text.
#[verifier::external_body]
pub(crate) fn parse_decimal(text: &str) -> (r: Option<(i128, u32)>)
    ensures
        r == decimal_of_text(text@),
{
    match rust_decimal::Decimal::from_str_exact(text) {
        Ok(decimal) => Some((decimal.mantissa(), decimal.scale())),
        Err(_) => None,
    }
}

/// Writes the decimal number `mantissa / 10^scale`.
///
/// Calls `rust_decimal::Decimal::try_new`, which takes scales up to 28 and no others, and
/// formats the number with its `Display`; claims that this gives `decimal_text`.
#[verifier::external_body]
pub(crate) fn format_decimal(mantissa: i64, scale: u32) -> (r: Option<String>)
    ensures
        r is Some <==> scale <= 28,
        r matches Some(text) ==> text@ == decimal_text(mantissa as int, scale as nat),
{
    match rust_decimal::Decimal::try_new(mantissa, scale) {
        Ok(decimal) => Some(decimal.to_string()),
        Err(_) => None,
    }
}

/// A whole number is written without a point.
pub proof fn whole_decimal_is_plain(mantissa: int)
    ensures
        decimal_text(mantissa, 0) == crate::text::int_text(mantissa),
{
    let magnitude = (if mantissa < 0 {
        -mantissa
    } else {
        mantissa
    }) as nat;
    let digits = padded_digits(magnitude, 0);
    assert(digits.take(digits.len() as int) =~= digits);
    lemma_numeral_not_empty(magnitude);
    if magnitude == 0 {
        assert(nat_text(0) =~= seq!['0']) by {
            assert(crate::text::digit_char(0) == '0');
        }
    }
    assert(decimal_text(mantissa, 0) =~= crate::text::int_text(mantissa));
}

/// Every numeral has a digit.
pub proof fn lemma_numeral_not_empty(n: nat)
    ensures
        nat_text(n).len() > 0,
{
}

/// The number `mantissa / 10^scale` is written as its sign where it is negative, the digits in front
/// of the point and `scale` digits behind it. All the digits together are the mantissa's, and there
/// is one digit in front of the point, or more of which the first is not zero.
pub proof fn decimals_are_written_digit_by_digit(mantissa: int, scale: nat)
    ensures
        exists|whole: Seq<char>, fraction: Seq<char>|
            {
                &&& #[trigger] all_digits(whole + fraction)
                &&& digits_value(whole + fraction) == (if mantissa < 0 {
                    -mantissa
                } else {
                    mantissa
                })
                &&& fraction.len() == scale
                &&& whole.len() == 1 || (whole.len() > 1 && whole[0] != '0')
                &&& decimal_text(mantissa, scale) == (if mantissa < 0 {
                    seq!['-']
                } else {
                    Seq::<char>::empty()
                }) + whole + (if scale == 0 {
                    Seq::<char>::empty()
                } else {
                    seq!['.'] + fraction
                })
            },
{
    let magnitude = (if mantissa < 0 {
        -mantissa
    } else {
        mantissa
    }) as nat;
    let digits = padded_digits(magnitude, scale);
    let own = if magnitude == 0 {
        Seq::<char>::empty()
    } else {
        nat_text(magnitude)
    };
    lemma_nat_text(magnitude);
    assert(all_digits(own) && digits_value(own) == magnitude);
    if own.len() < scale {
        lemma_zeros_in_front((scale - own.len()) as nat, own);
    }
    assert(all_digits(digits) && digits_value(digits) == magnitude);
    let front = digits.take(digits.len() - scale);
    let fraction = digits.skip(digits.len() - scale);
    assert(front + fraction =~= digits);
    let whole = if front.len() == 0 {
        seq!['0']
    } else {
        front
    };
    if front.len() == 0 {
        lemma_zeros_in_front(1, digits);
        assert(zeros(1) =~= whole);
        assert(fraction =~= digits);
    } else {
        assert(digits == own);
        lemma_first_digit(magnitude);
    }
    assert(all_digits(whole + fraction));
}

/// Zeros in front of digits do not change their number.
proof fn lemma_zeros_in_front(n: nat, digits: Seq<char>)
    requires
        all_digits(digits),
    ensures
        all_digits(zeros(n) + digits),
        digits_value(zeros(n) + digits) == digits_value(digits),
    decreases n + digits.len(),
{
    let s = zeros(n) + digits;
    if digits.len() > 0 {
        lemma_zeros_in_front(n, digits.drop_last());
        assert(s.drop_last() =~= zeros(n) + digits.drop_last());
    } else if n > 0 {
        lemma_zeros_in_front((n - 1) as nat, digits);
        assert(s.drop_last() =~= zeros((n - 1) as nat) + digits);
    } else {
        assert(s =~= digits);
    }
}

/// A numeral does not start with a zero, but for zero itself.
proof fn lemma_first_digit(n: nat)
    requires
        n > 0,
    ensures
        nat_text(n).len() > 0,
        nat_text(n)[0] != '0',
    decreases n,
{
    if n >= 10 {
        lemma_first_digit(n / 10);
    }
}

} // verus!
