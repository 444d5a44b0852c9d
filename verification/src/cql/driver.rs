//! What the library takes from the database driver and the crates that it builds on.
use vstd::prelude::*;
use vstd::utf8::{decode_utf8, valid_utf8};
use scylla::deserialize::value::DeserializeValue;

use super::wire::{be_nat, lemma_pow256_grows, pow256};

verus! {

/// The identifier that `scylla::value::CqlTimeuuid::from_str` reads from a text, or the message
/// of the error that it reports.
pub uninterp spec fn timeuuid_of_text(text: Seq<char>) -> Result<u128, Seq<char>>;

/// The canonical notation of the address that `IpAddr::from_str` reads from a text, or the
/// message of the error that it reports.
pub uninterp spec fn inet_of_text(text: Seq<char>) -> Result<Seq<char>, Seq<char>>;

/// The canonical notation of the address that the driver reads from the bytes of an `inet`
/// value, or nothing where it reports an error.
pub uninterp spec fn inet_of_bytes(bytes: Seq<u8>) -> Option<Seq<char>>;

/// The months, days and nanoseconds that the driver reads from the bytes of a `duration` value,
/// or nothing where it reports an error.
pub uninterp spec fn duration_of_bytes(bytes: Seq<u8>) -> Option<(i32, i32, i64)>;

/// The character of a lower-case hexadecimal digit.
pub open spec fn hex_char(d: nat) -> char {
    if d < 10 {
        (('0' as nat) + d) as char
    } else {
        (('a' as nat) + d - 10) as char
    }
}

/// The `i`-th hexadecimal digit of a 128-bit number.
pub open spec fn hex_digit(n: nat, i: int) -> nat {
    let byte = (n / pow256((15 - i / 2) as nat)) % 256;
    if i % 2 == 0 {
        byte / 16
    } else {
        byte % 16
    }
}

/// The hyphenated notation of a UUID.
pub open spec fn uuid_text(uuid: nat) -> Seq<char> {
    Seq::new(
        36,
        |i: int|
            if i < 8 {
                hex_char(hex_digit(uuid, i))
            } else if i == 8 || i == 13 || i == 18 || i == 23 {
                '-'
            } else if i < 13 {
                hex_char(hex_digit(uuid, i - 1))
            } else if i < 18 {
                hex_char(hex_digit(uuid, i - 2))
            } else if i < 23 {
                hex_char(hex_digit(uuid, i - 3))
            } else {
                hex_char(hex_digit(uuid, i - 4))
            },
    )
}

/// Reads a time-based UUID.
///
/// Calls `scylla::value::CqlTimeuuid::from_str` and takes the number or the error's message from
/// what it returns; claims only that they depend on nothing but the text.
#[verifier::external_body]
pub(crate) fn parse_timeuuid(text: &str) -> (r: Result<u128, String>)
    ensures
        match r {
            Ok(uuid) => timeuuid_of_text(text@) == Ok::<u128, Seq<char>>(uuid),
            Err(e) => timeuuid_of_text(text@) == Err::<u128, Seq<char>>(e@),
        },
{
    match text.parse::<scylla::value::CqlTimeuuid>() {
        Ok(timeuuid) => Ok(timeuuid.as_u128()),
        Err(e) => Err(e.to_string()),
    }
}

/// Writes a UUID.
///
/// Formats a `uuid::Uuid` with its `Display`; claims that this is the hyphenated notation in
/// lower case.
#[verifier::external_body]
pub(crate) fn format_uuid(uuid: u128) -> (r: String)
    ensures
        r@ == uuid_text(uuid as nat),
{
    uuid::Uuid::from_u128(uuid).to_string()
}

/// Writes a time-based UUID.
///
/// Formats a `scylla::value::CqlTimeuuid` with its `Display`, which is that of the UUID inside;
/// claims that this is the hyphenated notation in lower case.
#[verifier::external_body]
pub(crate) fn format_timeuuid(uuid: u128) -> (r: String)
    ensures
        r@ == uuid_text(uuid as nat),
{
    scylla::value::CqlTimeuuid::from_u128(uuid).to_string()
}

/// Reads an IP address.
///
/// Parses the text to the address that `scylla::value::CqlValue::Inet` holds, by `FromStr`, and
/// formats the address, or the error, with its `Display`; claims only that the result depends on
/// nothing but the text.
#[verifier::external_body]
pub(crate) fn parse_inet(text: &str) -> (r: Result<String, String>)
    ensures
        match r {
            Ok(address) => inet_of_text(text@) == Ok::<Seq<char>, Seq<char>>(address@),
            Err(e) => inet_of_text(text@) == Err::<Seq<char>, Seq<char>>(e@),
        },
{
    match text.parse().map(scylla::value::CqlValue::Inet) {
        Ok(value) => Ok(value.as_inet().unwrap().to_string()),
        Err(e) => Err(e.to_string()),
    }
}

/// Decodes an IP address.
///
/// Calls `deserialize` of `scylla::value::CqlValue` for an `inet` column and formats the address
/// with its `Display`; claims that there is one exactly where there are 4 or 16 bytes, and that
/// it depends on nothing but them.
#[verifier::external_body]
pub(crate) fn decode_inet(bytes: &[u8]) -> (r: Option<String>)
    ensures
        r is Some <==> bytes@.len() == 4 || bytes@.len() == 16,
        match r {
            Some(address) => inet_of_bytes(bytes@) == Some(address@),
            None => inet_of_bytes(bytes@) is None,
        },
{
    let typ = scylla::cluster::metadata::ColumnType::Native(
        scylla::cluster::metadata::NativeType::Inet,
    );
    let slice = scylla::deserialize::FrameSlice::new_borrowed(bytes);
    match scylla::value::CqlValue::deserialize(&typ, Some(slice)) {
        Ok(scylla::value::CqlValue::Inet(address)) => Some(address.to_string()),
        _ => None,
    }
}

/// Decodes a duration.
///
/// Calls `deserialize` of `scylla::value::CqlDuration` for a `duration` column; claims only that
/// the result depends on nothing but the bytes.
#[verifier::external_body]
pub(crate) fn decode_duration(bytes: &[u8]) -> (r: Option<(i32, i32, i64)>)
    ensures
        r == duration_of_bytes(bytes@),
{
    let typ = scylla::cluster::metadata::ColumnType::Native(
        scylla::cluster::metadata::NativeType::Duration,
    );
    let slice = scylla::deserialize::FrameSlice::new_borrowed(bytes);
    match scylla::value::CqlDuration::deserialize(&typ, Some(slice)) {
        Ok(duration) => Some((duration.months, duration.days, duration.nanoseconds)),
        Err(_) => None,
    }
}

/// Decodes a text.
///
/// Calls `deserialize` of `String` for a `text` column; claims that it takes valid UTF-8 and
/// nothing else, and returns the characters that the bytes encode.
#[verifier::external_body]
pub(crate) fn decode_text(bytes: &[u8]) -> (r: Option<String>)
    ensures
        r is Some <==> valid_utf8(bytes@),
        r matches Some(text) ==> text@ == decode_utf8(bytes@),
{
    let typ = scylla::cluster::metadata::ColumnType::Native(
        scylla::cluster::metadata::NativeType::Text,
    );
    let slice = scylla::deserialize::FrameSlice::new_borrowed(bytes);
    match String::deserialize(&typ, Some(slice)) {
        Ok(text) => Some(text),
        Err(_) => None,
    }
}

/// The bytes in hexadecimal digits, two for each of them.
pub open spec fn hex_text(bytes: Seq<u8>) -> Seq<char> {
    Seq::new(
        2 * bytes.len(),
        |i: int|
            "0123456789abcdef"@[if i % 2 == 0 {
                bytes[i / 2] as int / 16
            } else {
                bytes[i / 2] as int % 16
            }],
    )
}

/// A UUID is written as its sixteen bytes in hexadecimal digits, with a hyphen behind the fourth,
/// the sixth, the eighth and the tenth.
pub proof fn uuids_are_written_byte_by_byte(bytes: Seq<u8>)
    requires
        bytes.len() == 16,
    ensures
        uuid_text(be_nat(bytes)) == hex_text(bytes.subrange(0, 4)) + seq!['-'] + hex_text(
            bytes.subrange(4, 6),
        ) + seq!['-'] + hex_text(bytes.subrange(6, 8)) + seq!['-'] + hex_text(
            bytes.subrange(8, 10),
        ) + seq!['-'] + hex_text(bytes.subrange(10, 16)),
{
    let n = be_nat(bytes);
    assert forall|i: int| 0 <= i < 32 implies hex_char(#[trigger] hex_digit(n, i))
        == hex_text(bytes)[i] by {
        lemma_byte_of(bytes, i / 2);
        lemma_hex_char(hex_digit(n, i));
    }
    let written = hex_text(bytes.subrange(0, 4)) + seq!['-'] + hex_text(bytes.subrange(4, 6))
        + seq!['-'] + hex_text(bytes.subrange(6, 8)) + seq!['-'] + hex_text(bytes.subrange(8, 10))
        + seq!['-'] + hex_text(bytes.subrange(10, 16));
    assert(written.len() == 36);
    assert forall|i: int| 0 <= i < 36 implies uuid_text(n)[i] == written[i] by {
        if i < 8 {
            assert(hex_text(bytes)[i] == hex_text(bytes.subrange(0, 4))[i]);
        } else if 8 < i < 13 {
            assert(hex_text(bytes)[i - 1] == hex_text(bytes.subrange(4, 6))[i - 9]);
        } else if 13 < i < 18 {
            assert(hex_text(bytes)[i - 2] == hex_text(bytes.subrange(6, 8))[i - 14]);
        } else if 18 < i < 23 {
            assert(hex_text(bytes)[i - 3] == hex_text(bytes.subrange(8, 10))[i - 19]);
        } else if 23 < i {
            assert(hex_text(bytes)[i - 4] == hex_text(bytes.subrange(10, 16))[i - 24]);
        }
    }
    assert(uuid_text(n) =~= written);
}

/// The characters of the sixteen digits.
proof fn lemma_hex_char(d: nat)
    requires
        d < 16,
    ensures
        hex_char(d) == "0123456789abcdef"@[d as int],
{
    reveal_strlit("0123456789abcdef");
}

/// Where in the number a byte stands.
proof fn lemma_byte_of(bytes: Seq<u8>, k: int)
    requires
        0 <= k < bytes.len(),
    ensures
        (be_nat(bytes) / pow256((bytes.len() - 1 - k) as nat)) % 256 == bytes[k],
    decreases bytes.len(),
{
    let front = bytes.drop_last();
    if k == bytes.len() - 1 {
        assert(pow256(0) == 1);
        assert(be_nat(bytes) / 1 == be_nat(bytes));
    } else {
        let p = pow256((bytes.len() - 2 - k) as nat);
        lemma_byte_of(front, k);
        lemma_pow256_grows(0, (bytes.len() - 2 - k) as nat);
        assert(pow256((bytes.len() - 1 - k) as nat) == 256 * p);
        vstd::arithmetic::div_mod::lemma_div_denominator(be_nat(bytes) as int, 256, p as int);
        assert(be_nat(bytes) / 256 == be_nat(front));
    }
}

} // verus!
