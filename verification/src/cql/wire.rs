//! How CQL values and their parts are laid out in the bytes of a frame.
use vstd::prelude::*;
use vstd::slice::slice_subrange;

verus! {

/// The `n`-th power of 256.
pub open spec fn pow256(n: nat) -> nat
    decreases n,
{
    if n == 0 {
        1
    } else {
        256 * pow256((n - 1) as nat)
    }
}

/// The unsigned number that big-endian bytes stand for.
pub open spec fn be_nat(bytes: Seq<u8>) -> nat
    decreases bytes.len(),
{
    if bytes.len() == 0 {
        0
    } else {
        256 * be_nat(bytes.drop_last()) + bytes.last() as nat
    }
}

/// The signed number that big-endian two's complement bytes stand for.
pub open spec fn be_int(bytes: Seq<u8>) -> int {
    if bytes.len() > 0 && bytes[0] >= 128 {
        be_nat(bytes) - pow256(bytes.len())
    } else {
        be_nat(bytes) as int
    }
}

/// The last `len` big-endian bytes of a number.
pub open spec fn be_bytes(n: nat, len: nat) -> Seq<u8>
    decreases len,
{
    if len == 0 {
        Seq::empty()
    } else {
        be_bytes(n / 256, (len - 1) as nat).push((n % 256) as u8)
    }
}

/// The big-endian two's complement bytes of a signed number.
pub open spec fn twos_complement(i: int, len: nat) -> Seq<u8> {
    be_bytes(
        (if i < 0 {
            i + pow256(len)
        } else {
            i
        }) as nat,
        len,
    )
}

/// The powers of 256 that occur.
pub proof fn lemma_pow256()
    ensures
        pow256(0) == 1,
        pow256(1) == 0x100,
        pow256(2) == 0x1_0000,
        pow256(3) == 0x100_0000,
        pow256(4) == 0x1_0000_0000,
        pow256(5) == 0x100_0000_0000,
        pow256(6) == 0x1_0000_0000_0000,
        pow256(7) == 0x100_0000_0000_0000,
        pow256(8) == 0x1_0000_0000_0000_0000,
        pow256(16) == 0x1_0000_0000_0000_0000_0000_0000_0000_0000,
{
    reveal_with_fuel(pow256, 17);
}

/// `n` bytes stand for a number below the `n`-th power of 256.
pub proof fn lemma_be_nat_bound(bytes: Seq<u8>)
    ensures
        be_nat(bytes) < pow256(bytes.len()),
    decreases bytes.len(),
{
    if bytes.len() > 0 {
        lemma_be_nat_bound(bytes.drop_last());
    }
}

/// Powers of 256 grow.
pub proof fn lemma_pow256_grows(a: nat, b: nat)
    requires
        a <= b,
    ensures
        0 < pow256(a) <= pow256(b),
    decreases b,
{
    if b > 0 {
        if a < b {
            lemma_pow256_grows(a, (b - 1) as nat);
        } else {
            lemma_pow256_grows((a - 1) as nat, (b - 1) as nat);
        }
    }
}

/// The first byte carries the highest power.
pub proof fn lemma_be_nat_first(bytes: Seq<u8>)
    requires
        bytes.len() > 0,
    ensures
        be_nat(bytes) == bytes[0] as nat * pow256((bytes.len() - 1) as nat) + be_nat(bytes.skip(1)),
    decreases bytes.len(),
{
    if bytes.len() == 1 {
        assert(bytes.drop_last() =~= Seq::<u8>::empty());
        assert(bytes.skip(1) =~= Seq::<u8>::empty());
        assert(be_nat(bytes.drop_last()) == 0);
        assert(pow256(0) == 1);
        assert(bytes[0] as nat * pow256(0) == bytes[0] as nat) by (nonlinear_arith)
            requires
                pow256(0) == 1,
        ;
    } else {
        let head = bytes.drop_last();
        lemma_be_nat_first(head);
        assert(bytes.skip(1).drop_last() =~= head.skip(1));
        let p = pow256((head.len() - 1) as nat);
        let q = pow256((bytes.len() - 1) as nat);
        assert(head[0] == bytes[0]);
        assert(bytes.skip(1).last() == bytes.last());
        assert(q == 256 * p);
        assert(256 * (bytes[0] as nat * p) == bytes[0] as nat * q) by (nonlinear_arith)
            requires
                q == 256 * p,
        ;
    }
}

/// `len` bytes are as many as asked for, and stand for the number again if it is small enough.
pub proof fn lemma_be_bytes(n: nat, len: nat)
    ensures
        be_bytes(n, len).len() == len,
        n < pow256(len) ==> be_nat(be_bytes(n, len)) == n,
    decreases len,
{
    if len > 0 {
        lemma_be_bytes(n / 256, (len - 1) as nat);
        assert(be_bytes(n, len).drop_last() =~= be_bytes(n / 256, (len - 1) as nat));
    }
}

/// Two's complement bytes stand for the number that they were made from.
pub proof fn lemma_twos_complement(i: int, len: nat)
    requires
        len > 0,
        -pow256(len) <= 2 * i < pow256(len),
    ensures
        twos_complement(i, len).len() == len,
        be_int(twos_complement(i, len)) == i,
{
    let n = (if i < 0 {
        i + pow256(len)
    } else {
        i
    }) as nat;
    lemma_be_bytes(n, len);
    let bytes = be_bytes(n, len);
    lemma_be_nat_first(bytes);
    lemma_be_nat_bound(bytes.skip(1));
    let p = pow256((len - 1) as nat);
    let first = bytes[0] as nat;
    let rest = be_nat(bytes.skip(1));
    assert(pow256(len) == 256 * p);
    if first >= 128 {
        assert(first * p >= 128 * p) by (nonlinear_arith)
            requires
                first >= 128,
        ;
    } else {
        assert(first * p <= 127 * p) by (nonlinear_arith)
            requires
                first <= 127,
        ;
    }
}

/// The last bytes of a number are those of the number that they stand for.
proof fn lemma_be_bytes_end(n: nat, len: nat, kept: nat)
    requires
        kept <= len,
    ensures
        be_bytes(n, len).len() == len,
        be_bytes(n, len).skip(len - kept) == be_bytes(n, kept),
    decreases len,
{
    lemma_be_bytes_len(n, len);
    lemma_be_bytes_len(n, kept);
    if kept == 0 {
        assert(be_bytes(n, len).skip(len as int) =~= be_bytes(n, 0));
    } else {
        lemma_be_bytes_end(n / 256, (len - 1) as nat, (kept - 1) as nat);
        assert(be_bytes(n, len).skip(len - kept) =~= be_bytes(n, kept));
    }
}

/// There are as many bytes as asked for.
proof fn lemma_be_bytes_len(n: nat, len: nat)
    ensures
        be_bytes(n, len).len() == len,
    decreases len,
{
    if len > 0 {
        lemma_be_bytes_len(n / 256, (len - 1) as nat);
    }
}

/// What is beyond the bytes does not show in them.
proof fn lemma_be_bytes_beyond(n: nat, k: nat, len: nat)
    ensures
        be_bytes(n + k * pow256(len), len) == be_bytes(n, len),
    decreases len,
{
    if len > 0 {
        let p = pow256((len - 1) as nat);
        let m = k * pow256(len);
        assert(m == 256 * (k * p)) by (nonlinear_arith)
            requires
                m == k * (256 * p),
        ;
        assert((n + m) % 256 == n % 256);
        assert((n + m) / 256 == n / 256 + k * p);
        lemma_be_bytes_beyond(n / 256, k, (len - 1) as nat);
    }
}

/// A 64-bit number is held by the last eight of its sixteen bytes.
pub proof fn lemma_twos_complement_end(i: int)
    requires
        i64::MIN <= i <= i64::MAX,
    ensures
        twos_complement(i, 16).len() == 16,
        twos_complement(i, 16).skip(8) == twos_complement(i, 8),
{
    lemma_pow256();
    if i < 0 {
        let k = (pow256(8) - 1) as nat;
        assert(i + pow256(16) == (i + pow256(8)) + k * pow256(8)) by (nonlinear_arith)
            requires
                k == pow256(8) - 1,
                pow256(16) == pow256(8) * pow256(8),
        ;
        lemma_be_bytes_end((i + pow256(16)) as nat, 16, 8);
        lemma_be_bytes_beyond((i + pow256(8)) as nat, k, 8);
    } else {
        lemma_be_bytes_end(i as nat, 16, 8);
    }
}

/// Reads an unsigned number from its big-endian bytes.
pub fn be_u64(bytes: &[u8]) -> (r: u64)
    requires
        bytes@.len() <= 8,
    ensures
        r == be_nat(bytes@),
{
    let mut r: u64 = 0;
    let mut i: usize = 0;
    while i < bytes.len()
        invariant
            i <= bytes@.len() <= 8,
            r == be_nat(bytes@.take(i as int)),
        decreases bytes@.len() - i,
    {
        proof {
            let next = bytes@.take(i + 1);
            assert(next.drop_last() =~= bytes@.take(i as int));
            lemma_be_nat_bound(next);
            lemma_pow256_grows(next.len(), 8);
            lemma_pow256();
        }
        r = r * 256 + bytes[i] as u64;
        i += 1;
    }
    assert(bytes@.take(bytes@.len() as int) =~= bytes@);
    r
}

/// Reads an unsigned number from its big-endian bytes.
pub fn be_u128(bytes: &[u8]) -> (r: u128)
    requires
        bytes@.len() <= 16,
    ensures
        r == be_nat(bytes@),
{
    let mut r: u128 = 0;
    let mut i: usize = 0;
    while i < bytes.len()
        invariant
            i <= bytes@.len() <= 16,
            r == be_nat(bytes@.take(i as int)),
        decreases bytes@.len() - i,
    {
        proof {
            let next = bytes@.take(i + 1);
            assert(next.drop_last() =~= bytes@.take(i as int));
            lemma_be_nat_bound(next);
            lemma_pow256_grows(next.len(), 16);
            lemma_pow256();
        }
        r = r * 256 + bytes[i] as u128;
        i += 1;
    }
    assert(bytes@.take(bytes@.len() as int) =~= bytes@);
    r
}

/// Reads a signed number from its big-endian two's complement bytes.
pub fn be_i64(bytes: &[u8]) -> (r: i64)
    requires
        bytes@.len() <= 8,
    ensures
        r == be_int(bytes@),
        bytes@.len() == 1 ==> -0x80 <= r < 0x80,
        bytes@.len() == 2 ==> -0x8000 <= r < 0x8000,
        bytes@.len() == 4 ==> -0x8000_0000 <= r < 0x8000_0000,
{
    let magnitude: u64 = be_u64(bytes);
    let mut limit: i128 = 1;
    let mut i: usize = 0;
    proof {
        lemma_pow256();
    }
    while i < bytes.len()
        invariant
            i <= bytes@.len() <= 8,
            limit == pow256(i as nat),
        decreases bytes@.len() - i,
    {
        proof {
            lemma_pow256_grows(i as nat, 8);
            lemma_pow256();
        }
        limit = limit * 256;
        i += 1;
    }
    proof {
        lemma_pow256_grows(bytes@.len(), 8);
        lemma_be_nat_bound(bytes@);
        if bytes@.len() > 0 {
            lemma_be_nat_first(bytes@);
            lemma_be_nat_bound(bytes@.skip(1));
            let first = bytes@[0] as nat;
            let p = pow256((bytes@.len() - 1) as nat);
            assert(pow256(bytes@.len()) == 256 * p);
            if first >= 128 {
                assert(first * p >= 128 * p) by (nonlinear_arith)
                    requires
                        first >= 128,
                ;
            } else {
                assert(first * p <= 127 * p) by (nonlinear_arith)
                    requires
                        first <= 127,
                ;
            }
        }
    }
    if bytes.len() > 0 && bytes[0] >= 128 {
        (magnitude as i128 - limit) as i64
    } else {
        magnitude as i64
    }
}

/// Writes the last `len` big-endian bytes of a number.
pub fn u128_be_bytes(n: u128, len: usize) -> (r: Vec<u8>)
    ensures
        r@ == be_bytes(n as nat, len as nat),
    decreases len,
{
    if len == 0 {
        Vec::new()
    } else {
        let mut r = u128_be_bytes(n / 256, len - 1);
        r.push((n % 256) as u8);
        r
    }
}

/// Writes the two's complement bytes of a 64-bit number.
pub fn i64_be_bytes(i: i64) -> (r: Vec<u8>)
    ensures
        r@ == twos_complement(i as int, 8),
{
    proof {
        lemma_pow256();
    }
    let n: u128 = if i < 0 {
        (i as i128 + 0x1_0000_0000_0000_0000) as u128
    } else {
        i as u128
    };
    u128_be_bytes(n, 8)
}

/// Writes the two's complement bytes of a 128-bit number.
pub fn i128_be_bytes(i: i128) -> (r: Vec<u8>)
    ensures
        r@ == twos_complement(i as int, 16),
{
    proof {
        lemma_pow256();
    }
    let n: u128 = if i < 0 {
        u128::MAX - (-(i + 1)) as u128
    } else {
        i as u128
    };
    u128_be_bytes(n, 16)
}

/// The 32-bit number in front, and what follows it.
pub open spec fn int_split(bytes: Seq<u8>) -> Option<(int, Seq<u8>)> {
    if bytes.len() < 4 {
        None
    } else {
        Some((be_int(bytes.take(4)), bytes.skip(4)))
    }
}

/// The length-prefixed item in front, null where its length is negative, and what follows it.
pub open spec fn bytes_split(bytes: Seq<u8>) -> Option<(Option<Seq<u8>>, Seq<u8>)> {
    match int_split(bytes) {
        None => None,
        Some((len, rest)) => if len < 0 {
            Some((None, rest))
        } else if len <= rest.len() {
            Some((Some(rest.take(len)), rest.skip(len)))
        } else {
            None
        },
    }
}

/// The next `count` bytes, null where none are left, and what follows them.
pub open spec fn raw_split(bytes: Seq<u8>, count: nat) -> Option<(Option<Seq<u8>>, Seq<u8>)> {
    if bytes.len() == 0 {
        Some((None, bytes))
    } else if count <= bytes.len() {
        Some((Some(bytes.take(count as int)), bytes.skip(count as int)))
    } else {
        None
    }
}

/// How many of the highest bits of a byte are ones before the first zero.
pub open spec fn leading_ones(b: u8) -> nat {
    if b < 0x80 {
        0
    } else if b < 0xc0 {
        1
    } else if b < 0xe0 {
        2
    } else if b < 0xf0 {
        3
    } else if b < 0xf8 {
        4
    } else if b < 0xfc {
        5
    } else if b < 0xfe {
        6
    } else if b < 0xff {
        7
    } else {
        8
    }
}

/// What a byte holds below its leading ones.
pub open spec fn below_leading_ones(b: u8) -> nat {
    let ones = leading_ones(b);
    (b - (if ones == 0 {
        0int
    } else if ones == 1 {
        0x80
    } else if ones == 2 {
        0xc0
    } else if ones == 3 {
        0xe0
    } else if ones == 4 {
        0xf0
    } else if ones == 5 {
        0xf8
    } else if ones == 6 {
        0xfc
    } else if ones == 7 {
        0xfe
    } else {
        0xff
    })) as nat
}

/// The variable-length unsigned number in front, and what follows it: the leading ones of its
/// first byte tell how many bytes come after that one.
pub open spec fn vint_split(bytes: Seq<u8>) -> Option<(nat, Seq<u8>)> {
    if bytes.len() == 0 {
        None
    } else {
        let extra = leading_ones(bytes[0]);
        if bytes.len() < 1 + extra {
            None
        } else {
            Some(
                (
                    below_leading_ones(bytes[0]) * pow256(extra) + be_nat(
                        bytes.subrange(1, 1 + extra as int),
                    ),
                    bytes.skip(1 + extra as int),
                ),
            )
        }
    }
}

/// The view of a part that may be null, and of what follows it.
pub open spec fn split_view(r: Option<(Option<&[u8]>, &[u8])>) -> Option<
    (Option<Seq<u8>>, Seq<u8>),
> {
    match r {
        None => None,
        Some((None, rest)) => Some((None, rest@)),
        Some((Some(item), rest)) => Some((Some(item@), rest@)),
    }
}

/// Takes the 32-bit number off the front.
pub fn read_int<'a>(bytes: &'a [u8]) -> (r: Option<(i32, &'a [u8])>)
    ensures
        match r {
            Some((i, rest)) => int_split(bytes@) == Some((i as int, rest@)),
            None => int_split(bytes@) is None,
        },
{
    if bytes.len() < 4 {
        None
    } else {
        let i: i64 = be_i64(slice_subrange(bytes, 0, 4));
        let rest = slice_subrange(bytes, 4, bytes.len());
        assert(bytes@.subrange(0, 4) =~= bytes@.take(4));
        assert(rest@ =~= bytes@.skip(4));
        Some((i as i32, rest))
    }
}

/// Takes the length-prefixed item off the front.
pub fn read_cql_bytes<'a>(bytes: &'a [u8]) -> (r: Option<(Option<&'a [u8]>, &'a [u8])>)
    ensures
        split_view(r) == bytes_split(bytes@),
{
    match read_int(bytes) {
        None => None,
        Some((len, rest)) => if len < 0 {
            Some((None, rest))
        } else if len as usize <= rest.len() {
            let item = slice_subrange(rest, 0, len as usize);
            let tail = slice_subrange(rest, len as usize, rest.len());
            assert(item@ =~= rest@.take(len as int));
            assert(tail@ =~= rest@.skip(len as int));
            Some((Some(item), tail))
        } else {
            None
        },
    }
}

/// Takes a number of bytes off the front.
pub fn read_n_bytes<'a>(bytes: &'a [u8], count: usize) -> (r: Option<
    (Option<&'a [u8]>, &'a [u8]),
>)
    ensures
        split_view(r) == raw_split(bytes@, count as nat),
{
    if bytes.len() == 0 {
        Some((None, bytes))
    } else if count <= bytes.len() {
        let item = slice_subrange(bytes, 0, count);
        let tail = slice_subrange(bytes, count, bytes.len());
        assert(item@ =~= bytes@.take(count as int));
        assert(tail@ =~= bytes@.skip(count as int));
        Some((Some(item), tail))
    } else {
        None
    }
}

/// Takes the variable-length unsigned number off the front.
pub fn read_vint<'a>(bytes: &'a [u8]) -> (r: Option<(u64, &'a [u8])>)
    ensures
        match r {
            Some((n, rest)) => vint_split(bytes@) == Some((n as nat, rest@)),
            None => vint_split(bytes@) is None,
        },
{
    if bytes.len() == 0 {
        return None;
    }
    let first: u8 = bytes[0];
    let (extra, high, power): (usize, u8, u64) = if first < 0x80 {
        (0, first, 1)
    } else if first < 0xc0 {
        (1, first - 0x80, 0x100)
    } else if first < 0xe0 {
        (2, first - 0xc0, 0x1_0000)
    } else if first < 0xf0 {
        (3, first - 0xe0, 0x100_0000)
    } else if first < 0xf8 {
        (4, first - 0xf0, 0x1_0000_0000)
    } else if first < 0xfc {
        (5, first - 0xf8, 0x100_0000_0000)
    } else if first < 0xfe {
        (6, first - 0xfc, 0x1_0000_0000_0000)
    } else if first < 0xff {
        (7, first - 0xfe, 0x100_0000_0000_0000)
    } else {
        (8, first - 0xff, 0)
    };
    if bytes.len() < 1 + extra {
        return None;
    }
    let low: u64 = be_u64(slice_subrange(bytes, 1, 1 + extra));
    let rest = slice_subrange(bytes, 1 + extra, bytes.len());
    assert(rest@ =~= bytes@.skip(1 + extra as int));
    proof {
        lemma_pow256();
        lemma_be_nat_bound(bytes@.subrange(1, 1 + extra as int));
        if extra == 8 {
            assert(high == 0);
            assert(high as u64 * power == 0) by (nonlinear_arith)
                requires
                    high == 0,
            ;
            assert(below_leading_ones(first) == 0);
            assert(below_leading_ones(first) * pow256(8) == 0) by (nonlinear_arith)
                requires
                    below_leading_ones(first) == 0,
            ;
        } else {
            assert(power == pow256(extra as nat));
            assert(high == below_leading_ones(first));
            assert(high as nat * pow256(extra as nat) + pow256(extra as nat)
                <= 0x1_0000_0000_0000_0000) by (nonlinear_arith)
                requires
                    extra == 0 && high < 128 && pow256(extra as nat) == 1 || extra == 1 && high < 64
                        && pow256(extra as nat) == 0x100 || extra == 2 && high < 32 && pow256(
                        extra as nat,
                    ) == 0x1_0000 || extra == 3 && high < 16 && pow256(extra as nat) == 0x100_0000
                        || extra == 4 && high < 8 && pow256(extra as nat) == 0x1_0000_0000 || extra
                        == 5 && high < 4 && pow256(extra as nat) == 0x100_0000_0000 || extra == 6
                        && high < 2 && pow256(extra as nat) == 0x1_0000_0000_0000 || extra == 7
                        && high < 1 && pow256(extra as nat) == 0x100_0000_0000_0000,
            ;
            assert(high as u64 * power == high as nat * pow256(extra as nat));
            assert(0 <= high as u64 * power) by (nonlinear_arith);
        }
    }
    Some((high as u64 * power + low, rest))
}

/// Four bytes in front are read as the signed number that they are, and fewer are not read.
pub proof fn numbers_are_read_from_the_front(i: int, rest: Seq<u8>, short: Seq<u8>)
    requires
        -0x8000_0000 <= i < 0x8000_0000,
        short.len() < 4,
    ensures
        int_split(twos_complement(i, 4) + rest) == Some((i, rest)),
        int_split(short) is None,
{
    lemma_pow256();
    lemma_twos_complement(i, 4);
    let all = twos_complement(i, 4) + rest;
    assert(all.take(4) =~= twos_complement(i, 4));
    assert(all.skip(4) =~= rest);
}

/// The first byte of a variable-length number that goes on for so many bytes and holds these bits
/// itself: as many ones as bytes follow, and then the bits.
pub open spec fn vint_first(extra: nat, high: nat) -> nat {
    if extra == 0 {
        high
    } else if extra == 1 {
        0x80 + high
    } else if extra == 2 {
        0xc0 + high
    } else if extra == 3 {
        0xe0 + high
    } else if extra == 4 {
        0xf0 + high
    } else if extra == 5 {
        0xf8 + high
    } else if extra == 6 {
        0xfc + high
    } else if extra == 7 {
        0xfe + high
    } else {
        0xff + high
    }
}

/// The number that the bits of the first byte of a variable-length number stay below.
pub open spec fn vint_room(extra: nat) -> nat {
    if extra == 0 {
        0x80
    } else if extra == 1 {
        0x40
    } else if extra == 2 {
        0x20
    } else if extra == 3 {
        0x10
    } else if extra == 4 {
        8
    } else if extra == 5 {
        4
    } else if extra == 6 {
        2
    } else {
        1
    }
}

/// A variable-length number is read as the bits of its first byte followed by those of the others,
/// and what follows it is left. One that is cut short is not read.
pub proof fn vints_are_read_from_the_front(extra: nat, high: nat, low: nat, rest: Seq<u8>)
    requires
        extra <= 8,
        high < vint_room(extra),
        low < pow256(extra),
    ensures
        ({
            let bytes = seq![vint_first(extra, high) as u8] + be_bytes(low, extra);
            &&& vint_split(bytes + rest) == Some((high * pow256(extra) + low, rest))
            &&& vint_split(bytes.drop_last()) is None
        }),
{
    let first = vint_first(extra, high) as u8;
    let tail = be_bytes(low, extra);
    let bytes = seq![first] + tail;
    let all = bytes + rest;
    lemma_be_bytes(low, extra);
    assert(first == vint_first(extra, high));
    assert(leading_ones(first) == extra);
    assert(below_leading_ones(first) == high);
    assert(all[0] == first);
    assert(all.subrange(1, 1 + extra as int) =~= tail);
    assert(all.skip(1 + extra as int) =~= rest);
    let short = bytes.drop_last();
    if extra > 0 {
        assert(short[0] == first);
    }
}

/// Numbers are written with the most significant byte first: each further byte multiplies what is
/// in front of it by 256. A signed number is the unsigned one, less `256^n` where the first of its
/// `n` bytes has its highest bit set.
pub proof fn the_most_significant_byte_comes_first(bytes: Seq<u8>, b: u8, n: nat)
    ensures
        pow256(n) == vstd::arithmetic::power::pow(256, n),
        be_nat(Seq::empty()) == 0,
        be_nat(bytes.push(b)) == 256 * be_nat(bytes) + b,
        bytes.len() > 0 ==> be_int(bytes) == (if bytes[0] < 0x80 {
            be_nat(bytes) as int
        } else {
            be_nat(bytes) - pow256(bytes.len())
        }),
    decreases n,
{
    assert(bytes.push(b).drop_last() =~= bytes);
    reveal(vstd::arithmetic::power::pow);
    if n > 0 {
        the_most_significant_byte_comes_first(bytes, b, (n - 1) as nat);
    }
}

/// The number that bytes stand for, and back: as many bytes as there were hold the same number.
pub proof fn numbers_keep_their_bytes(bytes: Seq<u8>)
    ensures
        be_bytes(be_nat(bytes), bytes.len()) == bytes,
    decreases bytes.len(),
{
    if bytes.len() > 0 {
        let front = bytes.drop_last();
        numbers_keep_their_bytes(front);
        let n = be_nat(bytes);
        assert(n / 256 == be_nat(front) && n % 256 == bytes.last() as nat);
        assert(be_bytes(n, bytes.len()) =~= bytes);
    } else {
        assert(be_bytes(be_nat(bytes), 0) =~= bytes);
    }
}

} // verus!
