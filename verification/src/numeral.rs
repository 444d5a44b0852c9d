//! Numerals: which texts denote integers and floating-point numbers.
use vstd::prelude::*;

use crate::text::{digit_char, int_text, nat_text};

verus! {

/// The character is a decimal digit.
pub open spec fn is_digit(c: char) -> bool {
    '0' <= c <= '9'
}

/// The value of a decimal digit.
pub open spec fn digit_value(c: char) -> nat {
    (c as nat - '0' as nat) as nat
}

/// All characters are decimal digits.
pub open spec fn all_digits(s: Seq<char>) -> bool {
    forall|i: int| 0 <= i < s.len() ==> is_digit(#[trigger] s[i])
}

/// The number that digits denote.
pub open spec fn digits_value(s: Seq<char>) -> nat
    decreases s.len(),
{
    if s.len() == 0 {
        0
    } else {
        10 * digits_value(s.drop_last()) + digit_value(s.last())
    }
}

/// The text starts with a sign.
pub open spec fn has_sign(s: Seq<char>) -> bool {
    s.len() > 0 && (s[0] == '+' || s[0] == '-')
}

/// The text behind the sign, if there is one.
pub open spec fn unsigned(s: Seq<char>) -> Seq<char> {
    if has_sign(s) {
        s.skip(1)
    } else {
        s
    }
}

/// The 64-bit integer that a text denotes: an optional sign, and digits.
pub open spec fn i64_of_text(s: Seq<char>) -> Option<i64> {
    let digits = unsigned(s);
    let magnitude = digits_value(digits) as int;
    let value = if has_sign(s) && s[0] == '-' {
        -magnitude
    } else {
        magnitude
    };
    if digits.len() > 0 && all_digits(digits) && i64::MIN <= value <= i64::MAX {
        Some(value as i64)
    } else {
        None
    }
}

/// How many digits the text starts with.
pub open spec fn leading_digits(s: Seq<char>) -> nat
    decreases s.len(),
{
    if s.len() > 0 && is_digit(s[0]) {
        1 + leading_digits(s.skip(1))
    } else {
        0
    }
}

/// The text is an exponent: the letter e, an optional sign, and digits.
pub open spec fn is_exponent(s: Seq<char>) -> bool {
    s.len() > 0 && (s[0] == 'e' || s[0] == 'E') && unsigned(s.skip(1)).len() > 0 && all_digits(
        unsigned(s.skip(1)),
    )
}

/// The text is the given word, in upper or lower case.
pub open spec fn is_word(s: Seq<char>, lower: Seq<char>, upper: Seq<char>) -> bool {
    s.len() == lower.len() && forall|i: int|
        0 <= i < s.len() ==> (#[trigger] s[i] == lower[i] || s[i] == upper[i])
}

/// The text is an unsigned number: digits, with a point in front of, among or behind them, and
/// an optional exponent.
pub open spec fn is_unsigned_number(s: Seq<char>) -> bool {
    let whole = leading_digits(s);
    let behind = s.skip(whole as int);
    if behind.len() > 0 && behind[0] == '.' {
        let fraction = leading_digits(behind.skip(1));
        let rest = behind.skip(1 + fraction as int);
        whole + fraction > 0 && (rest.len() == 0 || is_exponent(rest))
    } else {
        whole > 0 && (behind.len() == 0 || is_exponent(behind))
    }
}

/// The text denotes a floating-point number: an optional sign, and infinity, not a number, or a
/// number.
pub open spec fn is_float_text(s: Seq<char>) -> bool {
    let body = unsigned(s);
    is_word(body, "inf"@, "INF"@) || is_word(body, "infinity"@, "INFINITY"@) || is_word(
        body,
        "nan"@,
        "NAN"@,
    ) || is_unsigned_number(body)
}

/// A natural number is written in digits that denote it.
pub proof fn lemma_nat_text(n: nat)
    ensures
        nat_text(n).len() > 0,
        all_digits(nat_text(n)),
        digits_value(nat_text(n)) == n,
    decreases n,
{
    if n < 10 {
        let s = seq![digit_char(n)];
        assert(s.drop_last() =~= Seq::empty());
        assert(digits_value(s.drop_last()) == 0);
        assert(nat_text(n) == s);
    } else {
        lemma_nat_text(n / 10);
        let head = nat_text(n / 10);
        let s = head.push(digit_char(n % 10));
        assert(s.drop_last() =~= head);
        assert(nat_text(n) == s);
    }
}

/// The numeral of an integer denotes it.
pub proof fn integers_read_back(i: i64)
    ensures
        i64_of_text(int_text(i as int)) == Some(i),
{
    if i < 0 {
        let n = (-(i as int)) as nat;
        lemma_nat_text(n);
        let s = int_text(i as int);
        assert(s.skip(1) =~= nat_text(n));
        assert(s[0] == '-');
    } else {
        lemma_nat_text(i as nat);
        let s = int_text(i as int);
        assert(is_digit(s[0]));
        assert(!has_sign(s));
    }
}

/// Digits denote less than they could if they went on.
proof fn lemma_digits_prefix(s: Seq<char>, n: int)
    requires
        0 <= n <= s.len(),
    ensures
        digits_value(s.take(n)) <= digits_value(s),
    decreases s.len(),
{
    if n == s.len() {
        assert(s.take(n) =~= s);
    } else {
        lemma_digits_prefix(s.drop_last(), n);
        assert(s.drop_last().take(n) =~= s.take(n));
    }
}

/// Lists the characters of a text.
fn chars_of(text: &str) -> (r: Vec<char>)
    ensures
        r@ == text@,
{
    let len: usize = text.unicode_len();
    let mut chars: Vec<char> = Vec::new();
    let mut i: usize = 0;
    while i < len
        invariant
            i <= len,
            len == text@.len(),
            chars@ == text@.take(i as int),
        decreases len - i,
    {
        chars.push(text.get_char(i));
        assert(text@.take(i + 1) =~= text@.take(i as int).push(text@[i as int]));
        i += 1;
    }
    assert(text@.take(len as int) =~= text@);
    chars
}

/// Tells whether all characters from a place on are digits.
fn digits_from(chars: &Vec<char>, from: usize) -> (r: bool)
    requires
        from <= chars.len(),
    ensures
        r == all_digits(chars@.skip(from as int)),
{
    let mut i: usize = from;
    while i < chars.len()
        invariant
            from <= i <= chars.len(),
            forall|k: int| from <= k < i ==> is_digit(#[trigger] chars@[k]),
        decreases chars.len() - i,
    {
        if !('0' <= chars[i] && chars[i] <= '9') {
            assert(chars@.skip(from as int)[i - from] == chars@[i as int]);
            return false;
        }
        i += 1;
    }
    true
}

/// Reads a 64-bit integer.
pub fn parse_i64(text: &str) -> (r: Option<i64>)
    ensures
        r == i64_of_text(text@),
{
    let chars = chars_of(text);
    let from: usize = if chars.len() > 0 && (chars[0] == '+' || chars[0] == '-') {
        1
    } else {
        0
    };
    let negative = from == 1 && chars[0] == '-';
    let ghost digits = unsigned(text@);
    assert(digits =~= chars@.skip(from as int));
    if chars.len() == from || !digits_from(&chars, from) {
        return None;
    }
    let mut value: u64 = 0;
    let mut i: usize = from;
    assert(digits.take(0) =~= Seq::empty());
    while i < chars.len()
        invariant
            from <= i <= chars.len(),
            from <= 1,
            digits == unsigned(text@),
            digits == chars@.skip(from as int),
            all_digits(digits),
            chars@ == text@,
            value == digits_value(digits.take(i - from)),
            value <= 0x8000_0000_0000_0000,
            negative == (has_sign(text@) && text@[0] == '-'),
        decreases chars.len() - i,
    {
        let ghost next = digits.take(i - from + 1);
        assert(next.drop_last() =~= digits.take(i - from));
        assert(next.last() == chars@[i as int]);
        assert(is_digit(digits[i - from]));
        let digit: u64 = (chars[i] as u32 - '0' as u32) as u64;
        proof {
            lemma_digits_prefix(digits, i - from + 1);
            assert(digits_value(next) == 10 * digits_value(next.drop_last()) + digit_value(
                next.last(),
            ));
        }
        if value > 0xccc_cccc_cccc_cccc || value * 10 + digit > 0x8000_0000_0000_0000 {
            return None;
        }
        value = value * 10 + digit;
        i += 1;
    }
    assert(digits.take(chars@.len() - from) =~= digits);
    if negative {
        Some((-(value as i128)) as i64)
    } else if value <= 0x7fff_ffff_ffff_ffff {
        Some(value as i64)
    } else {
        None
    }
}

/// Counts the digits from a place on.
fn count_digits(chars: &Vec<char>, from: usize) -> (r: usize)
    requires
        from <= chars.len(),
    ensures
        r == leading_digits(chars@.skip(from as int)),
        from + r <= chars.len(),
    decreases chars.len() - from,
{
    if from < chars.len() && '0' <= chars[from] && chars[from] <= '9' {
        assert(chars@.skip(from as int).skip(1) =~= chars@.skip(from + 1));
        1 + count_digits(chars, from + 1)
    } else {
        0
    }
}

/// Tells whether the characters from a place on are an exponent.
fn exponent_from(chars: &Vec<char>, from: usize) -> (r: bool)
    requires
        from <= chars.len(),
    ensures
        r == is_exponent(chars@.skip(from as int)),
{
    let ghost s = chars@.skip(from as int);
    if from == chars.len() || !(chars[from] == 'e' || chars[from] == 'E') {
        return false;
    }
    let ghost behind = s.skip(1);
    assert(behind =~= chars@.skip(from + 1));
    let mut start: usize = from + 1;
    if start < chars.len() && (chars[start] == '+' || chars[start] == '-') {
        start += 1;
    }
    assert(unsigned(behind) =~= chars@.skip(start as int));
    start < chars.len() && digits_from(chars, start)
}

/// Tells whether the characters from a place on are the given word, in upper or lower case.
fn word_from(chars: &Vec<char>, from: usize, lower: &str, upper: &str) -> (r: bool)
    requires
        from <= chars.len(),
        lower@.len() == upper@.len(),
    ensures
        r == is_word(chars@.skip(from as int), lower@, upper@),
{
    let ghost s = chars@.skip(from as int);
    let len: usize = lower.unicode_len();
    if chars.len() - from != len {
        return false;
    }
    let mut i: usize = 0;
    while i < len
        invariant
            i <= len,
            len == lower@.len(),
            lower@.len() == upper@.len(),
            from + len == chars.len(),
            s == chars@.skip(from as int),
            forall|k: int| 0 <= k < i ==> (#[trigger] s[k] == lower@[k] || s[k] == upper@[k]),
        decreases len - i,
    {
        let c = chars[from + i];
        assert(s[i as int] == c);
        if c != lower.get_char(i) && c != upper.get_char(i) {
            return false;
        }
        i += 1;
    }
    true
}

/// Tells whether the characters from a place on are an unsigned number.
fn number_from(chars: &Vec<char>, from: usize) -> (r: bool)
    requires
        from <= chars.len(),
    ensures
        r == is_unsigned_number(chars@.skip(from as int)),
{
    let ghost s = chars@.skip(from as int);
    let whole: usize = count_digits(chars, from);
    let point: usize = from + whole;
    assert(s.skip(whole as int) =~= chars@.skip(point as int));
    if point < chars.len() && chars[point] == '.' {
        let ghost behind = s.skip(whole as int);
        assert(behind.skip(1) =~= chars@.skip(point + 1));
        let fraction: usize = count_digits(chars, point + 1);
        let end: usize = point + 1 + fraction;
        assert(behind.skip(1 + fraction as int) =~= chars@.skip(end as int));
        (whole > 0 || fraction > 0) && (end == chars.len() || exponent_from(chars, end))
    } else {
        whole > 0 && (point == chars.len() || exponent_from(chars, point))
    }
}

/// Tells whether a text denotes a floating-point number.
pub fn is_float(text: &str) -> (r: bool)
    ensures
        r == is_float_text(text@),
{
    proof {
        reveal_strlit("inf");
        reveal_strlit("INF");
        reveal_strlit("infinity");
        reveal_strlit("INFINITY");
        reveal_strlit("nan");
        reveal_strlit("NAN");
    }
    let chars = chars_of(text);
    let from: usize = if chars.len() > 0 && (chars[0] == '+' || chars[0] == '-') {
        1
    } else {
        0
    };
    assert(unsigned(text@) =~= chars@.skip(from as int));
    word_from(&chars, from, "inf", "INF") || word_from(&chars, from, "infinity", "INFINITY")
        || word_from(&chars, from, "nan", "NAN") || number_from(&chars, from)
}

/// Digits denote what their places make of them.
pub proof fn digits_are_positional(s: Seq<char>, c: char)
    requires
        '0' <= c <= '9',
    ensures
        digits_value(Seq::empty()) == 0,
        digits_value(s.push(c)) == 10 * digits_value(s) + (c as int - '0' as int),
{
    assert(s.push(c).drop_last() =~= s);
}

/// A text denotes an integer where it is digits with or without a sign in front, and the number fits
/// into 64 bits; leading zeros do not matter. Any other text denotes none.
pub proof fn signed_digits_denote_integers(digits: Seq<char>, s: Seq<char>)
    requires
        digits.len() > 0,
        all_digits(digits),
    ensures
        i64_of_text(digits) == (if digits_value(digits) <= i64::MAX {
            Some(digits_value(digits) as i64)
        } else {
            None
        }),
        i64_of_text(seq!['+'] + digits) == i64_of_text(digits),
        i64_of_text(seq!['-'] + digits) == (if digits_value(digits) <= 0x8000_0000_0000_0000 {
            Some((-(digits_value(digits) as int)) as i64)
        } else {
            None
        }),
        i64_of_text(Seq::empty()) is None,
        i64_of_text(seq!['+']) is None,
        i64_of_text(seq!['-']) is None,
        (exists|k: int| 1 <= k < s.len() && !('0' <= (#[trigger] s[k]) <= '9')) ==> i64_of_text(s)
            is None,
{
    assert(is_digit(digits[0]));
    assert((seq!['+'] + digits).skip(1) =~= digits);
    assert((seq!['-'] + digits).skip(1) =~= digits);
    assert((seq!['+'] + digits)[0] == '+');
    assert((seq!['-'] + digits)[0] == '-');
    assert(seq!['+'].skip(1) =~= Seq::empty());
    assert(seq!['-'].skip(1) =~= Seq::empty());
    if exists|k: int| 1 <= k < s.len() && !('0' <= (#[trigger] s[k]) <= '9') {
        let k = choose|k: int| 1 <= k < s.len() && !('0' <= (#[trigger] s[k]) <= '9');
        if has_sign(s) {
            assert(s.skip(1)[k - 1] == s[k]);
            assert(!is_digit(s.skip(1)[k - 1]));
        } else {
            assert(!is_digit(s[k]));
        }
    }
}

/// Digits are counted up to the first character that is none.
proof fn lemma_leading_digits(digits: Seq<char>, rest: Seq<char>)
    requires
        all_digits(digits),
        rest.len() > 0 ==> !is_digit(rest[0]),
    ensures
        leading_digits(digits + rest) == digits.len(),
    decreases digits.len(),
{
    let s = digits + rest;
    if digits.len() > 0 {
        assert(s[0] == digits[0]);
        assert(s.skip(1) =~= digits.skip(1) + rest);
        assert forall|i: int| 0 <= i < digits.skip(1).len() implies is_digit(
            #[trigger] digits.skip(1)[i],
        ) by {
            assert(digits.skip(1)[i] == digits[i + 1]);
        }
        lemma_leading_digits(digits.skip(1), rest);
    } else {
        assert(s =~= rest);
    }
}

/// A number may have a point in front of, among or behind its digits, of which it has at least one,
/// and an exponent of at least one digit behind them. A sign in front of it does not matter.
pub proof fn numbers_with_points_and_exponents(
    whole: Seq<char>,
    fraction: Seq<char>,
    exponent: Seq<char>,
)
    requires
        all_digits(whole),
        all_digits(fraction),
        all_digits(exponent),
    ensures
        ({
            let number = whole + seq!['.'] + fraction;
            let any = whole.len() + fraction.len() > 0;
            &&& is_unsigned_number(whole) == (whole.len() > 0)
            &&& is_unsigned_number(number) == any
            &&& is_unsigned_number(number + (seq!['e'] + exponent)) == (any && exponent.len() > 0)
            &&& any ==> is_float_text(number)
            &&& any ==> is_float_text(seq!['-'] + number)
            &&& any ==> is_float_text(seq!['+'] + number)
        }),
{
    let number = whole + seq!['.'] + fraction;
    let point = seq!['.'] + fraction;
    assert(number =~= whole + point);
    assert(point[0] == '.');
    lemma_leading_digits(whole, Seq::empty());
    assert(whole + Seq::<char>::empty() =~= whole);
    assert(whole.skip(whole.len() as int) =~= Seq::empty());
    lemma_leading_digits(whole, point);
    assert(number.skip(whole.len() as int) =~= point);
    lemma_leading_digits(fraction, Seq::empty());
    assert(fraction + Seq::<char>::empty() =~= fraction);
    assert(point.skip(1) =~= fraction);
    assert(point.skip(1 + fraction.len() as int) =~= Seq::empty());
    let power = seq!['e'] + exponent;
    let long = number + power;
    let long_point = seq!['.'] + (fraction + power);
    assert(power[0] == 'e');
    assert(long =~= whole + long_point);
    assert(long_point[0] == '.');
    lemma_leading_digits(whole, long_point);
    assert(long.skip(whole.len() as int) =~= long_point);
    assert(long_point.skip(1) =~= fraction + power);
    lemma_leading_digits(fraction, power);
    assert(long_point.skip(1 + fraction.len() as int) =~= power);
    assert(power.skip(1) =~= exponent);
    if exponent.len() > 0 {
        assert(is_digit(exponent[0]));
    }
    assert(!has_sign(exponent));
    assert((seq!['-'] + number).skip(1) =~= number);
    assert((seq!['+'] + number).skip(1) =~= number);
    assert((seq!['-'] + number)[0] == '-');
    assert((seq!['+'] + number)[0] == '+');
    if whole.len() > 0 {
        assert(is_digit(whole[0]));
        assert(number[0] == whole[0]);
    } else {
        assert(number[0] == '.');
    }
}

/// The two characters are the same small letter, or the first is the capital of the second.
pub open spec fn same_letter(c: char, small: char) -> bool {
    c == small || c as int + 32 == small as int
}

/// The text is the word in small letters, capitals or both.
pub open spec fn same_word(s: Seq<char>, word: Seq<char>) -> bool {
    s.len() == word.len() && forall|i: int|
        0 <= i < s.len() ==> same_letter(#[trigger] s[i], word[i])
}

/// A text that starts with neither a digit nor a point is a number only where it is one of three
/// words, in small letters, capitals or both. A sign in front of it does not matter.
pub proof fn words_are_numbers(s: Seq<char>, sign: char)
    requires
        s.len() > 0,
        !is_digit(s[0]),
        s[0] != '.' && s[0] != '+' && s[0] != '-',
        sign == '+' || sign == '-',
    ensures
        is_float_text(s) <==> same_word(s, "inf"@) || same_word(s, "infinity"@) || same_word(
            s,
            "nan"@,
        ),
        is_float_text(seq![sign] + s) == is_float_text(s),
{
    reveal_strlit("inf");
    reveal_strlit("INF");
    reveal_strlit("infinity");
    reveal_strlit("INFINITY");
    reveal_strlit("nan");
    reveal_strlit("NAN");
    lemma_same_word(s, "inf"@, "INF"@);
    lemma_same_word(s, "infinity"@, "INFINITY"@);
    lemma_same_word(s, "nan"@, "NAN"@);
    assert(s.skip(0) =~= s);
    assert((seq![sign] + s).skip(1) =~= s);
    assert((seq![sign] + s)[0] == sign);
}

/// A word in small letters and in capitals is told apart from every other.
proof fn lemma_same_word(s: Seq<char>, lower: Seq<char>, upper: Seq<char>)
    requires
        lower.len() == upper.len(),
        forall|i: int| 0 <= i < lower.len() ==> (#[trigger] upper[i]) as int + 32 == lower[i] as int,
    ensures
        is_word(s, lower, upper) == same_word(s, lower),
{
    if same_word(s, lower) {
        assert forall|i: int| 0 <= i < s.len() implies (#[trigger] s[i] == lower[i] || s[i]
            == upper[i]) by {
            assert(same_letter(s[i], lower[i]));
            assert(upper[i] as int + 32 == lower[i] as int);
        }
    }
    if is_word(s, lower, upper) {
        assert forall|i: int| 0 <= i < s.len() implies same_letter(#[trigger] s[i], lower[i]) by {
            assert(upper[i] as int + 32 == lower[i] as int);
        }
    }
}

} // verus!
