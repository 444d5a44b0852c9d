//! Text building blocks: decimal numerals and comparison of strings.
use vstd::prelude::*;

verus! {

/// The character of a decimal digit.
pub open spec fn digit_char(d: nat) -> char {
    (('0' as nat) + d) as char
}

/// The decimal numeral of a natural number, without leading zeros.
pub open spec fn nat_text(n: nat) -> Seq<char>
    decreases n,
{
    if n < 10 {
        seq![digit_char(n)]
    } else {
        nat_text(n / 10).push(digit_char(n % 10))
    }
}

/// The decimal numeral of an integer, with a leading minus sign where it is negative.
pub open spec fn int_text(i: int) -> Seq<char> {
    if i < 0 {
        seq!['-'] + nat_text((-i) as nat)
    } else {
        nat_text(i as nat)
    }
}

/// The texts of a sequence of strings.
pub open spec fn texts(items: Seq<String>) -> Seq<Seq<char>> {
    Seq::new(items.len(), |i: int| items[i]@)
}

/// The numeral of a single digit.
fn digit_str(d: u128) -> (r: &'static str)
    requires
        d < 10,
    ensures
        r@ == seq![digit_char(d as nat)],
{
    proof {
        reveal_strlit("0");
        reveal_strlit("1");
        reveal_strlit("2");
        reveal_strlit("3");
        reveal_strlit("4");
        reveal_strlit("5");
        reveal_strlit("6");
        reveal_strlit("7");
        reveal_strlit("8");
        reveal_strlit("9");
    }
    let r: &'static str = if d == 0 {
        "0"
    } else if d == 1 {
        "1"
    } else if d == 2 {
        "2"
    } else if d == 3 {
        "3"
    } else if d == 4 {
        "4"
    } else if d == 5 {
        "5"
    } else if d == 6 {
        "6"
    } else if d == 7 {
        "7"
    } else if d == 8 {
        "8"
    } else {
        "9"
    };
    assert(r@ =~= seq![digit_char(d as nat)]);
    r
}

/// Writes an unsigned integer in decimal.
pub fn u128_text(n: u128) -> (r: String)
    ensures
        r@ == nat_text(n as nat),
    decreases n,
{
    if n < 10 {
        digit_str(n).to_owned()
    } else {
        let mut head = u128_text(n / 10);
        let last = digit_str(n % 10);
        head.append(last);
        assert(head@ =~= nat_text((n / 10) as nat).push(digit_char((n % 10) as nat)));
        head
    }
}

/// Writes an unsigned 64-bit integer in decimal.
pub fn u64_text(n: u64) -> (r: String)
    ensures
        r@ == nat_text(n as nat),
{
    u128_text(n as u128)
}

/// Writes a signed 64-bit integer in decimal.
pub fn i64_text(i: i64) -> (r: String)
    ensures
        r@ == int_text(i as int),
{
    if i < 0 {
        proof {
            reveal_strlit("-");
        }
        let magnitude: u128 = (-(i as i128)) as u128;
        let mut r: String = "-".to_owned();
        let digits = u128_text(magnitude);
        r.append(digits.as_str());
        assert(r@ =~= int_text(i as int));
        r
    } else {
        u128_text(i as u128)
    }
}

/// Tells whether two strings hold the same characters.
pub fn same_text(a: &str, b: &str) -> (r: bool)
    ensures
        r == (a@ == b@),
{
    a.to_owned() == b.to_owned()
}

/// A numeral has the character of each digit in its place: the numeral of ten times a number and a
/// digit is that of the number and then the digit.
pub proof fn numerals_are_positional(n: nat, d: nat)
    requires
        d < 10,
    ensures
        nat_text(d).len() == 1,
        nat_text(d)[0] as int == '0' as int + d,
        n > 0 ==> nat_text(10 * n + d) == nat_text(n) + nat_text(d),
        n > 0 ==> int_text(-(n as int)) == seq!['-'] + nat_text(n),
        int_text(n as int) == nat_text(n),
{
    if n > 0 {
        assert((10 * n + d) / 10 == n);
        assert((10 * n + d) % 10 == d);
        assert(nat_text(10 * n + d) =~= nat_text(n) + nat_text(d));
    }
}

} // verus!
