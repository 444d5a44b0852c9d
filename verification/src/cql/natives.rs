//! What single values bind to, convert to and decode to, type by type.
use vstd::prelude::*;
use vstd::utf8::{decode_utf8, encode_utf8, valid_utf8};

use crate::attempt::Attempt;
use crate::decimal::decimal_text;
use crate::text::int_text;
use crate::value::{FloatView, ValueView};
use super::bind::bound;
use super::cass_error::{CassErrorView, ConversionTargetView};
use super::column::{CollectionTypeView, ColumnTypeView, NativeType};
use super::convert::converted;
use super::cql_value::CqlValueView;
use super::deserialize::{decoded, kept_mantissa, DeserializeError};
use super::driver::{duration_of_bytes, inet_of_bytes, inet_of_text, timeuuid_of_text, uuid_text};
use super::layout::Decoded;
use super::wire::{be_bytes, be_int, int_split, lemma_be_bytes, lemma_pow256};
use super::wire::{lemma_pow256_grows, lemma_twos_complement, twos_complement};

verus! {

/// What a value binds to, or why it does not.
pub type Bound = Attempt<CqlValueView, CassErrorView>;

/// What a CQL value converts to, or why it does not.
pub type Converted = Attempt<ValueView, CassErrorView>;

/// A column of a native type.
pub open spec fn native(typ: NativeType) -> ColumnTypeView {
    ColumnTypeView::Native(typ)
}

/// How many bytes a value of the native type has, where all of them have the same.
pub open spec fn fixed_size(typ: NativeType) -> Option<usize> {
    match typ {
        NativeType::Boolean | NativeType::TinyInt => Some(1usize),
        NativeType::SmallInt => Some(2usize),
        NativeType::Int | NativeType::Float | NativeType::Date => Some(4usize),
        NativeType::BigInt
        | NativeType::Counter
        | NativeType::Timestamp
        | NativeType::Time
        | NativeType::Double => Some(8usize),
        NativeType::Uuid | NativeType::Timeuuid => Some(16usize),
        _ => None,
    }
}

/// A null of any type decodes to null, and so does an empty value, but for texts and blobs, which
/// may be empty.
pub proof fn empty_values_decode(typ: ColumnTypeView)
    ensures
        decoded(typ, None) == Decoded::Done(ValueView::Option(None)),
        decoded(typ, Some(Seq::empty())) == Decoded::Done(
            if typ == native(NativeType::Text) || typ == native(NativeType::Ascii) {
                ValueView::String(Seq::empty())
            } else if typ == native(NativeType::Blob) {
                ValueView::Vec(Seq::empty())
            } else {
                ValueView::Option(None)
            },
        ),
{
    let none = Seq::<char>::empty();
    vstd::utf8::encode_utf8_valid_utf8(none);
    vstd::utf8::encode_utf8_decode_utf8(none);
    assert(encode_utf8(none) =~= Seq::<u8>::empty());
    assert(super::deserialize::byte_values(Seq::empty()) =~= Seq::empty());
}

/// A value of a type of fixed size is not read from another number of bytes, and the error tells
/// both numbers.
pub proof fn sizes_are_checked(typ: NativeType, size: usize, bytes: Seq<u8>)
    requires
        fixed_size(typ) == Some(size),
        0 < bytes.len() <= usize::MAX,
        bytes.len() != size,
    ensures
        decoded(native(typ), Some(bytes)) == Decoded::Failed(
            (DeserializeError::ByteLengthMismatch { expected: size, got: bytes.len() as usize }),
        ),
{
}

/// A byte that is not zero is true.
pub proof fn booleans_decode(b: u8)
    ensures
        decoded(native(NativeType::Boolean), Some(seq![b])) == Decoded::Done(
            ValueView::Bool(b != 0),
        ),
{
}

/// Floats are carried bit by bit.
pub proof fn floats_decode_bit_by_bit(single: u32, double: u64)
    ensures
        decoded(native(NativeType::Float), Some(be_bytes(single as nat, 4))) == Decoded::Done(
            ValueView::Float(FloatView::Single(single)),
        ),
        decoded(native(NativeType::Double), Some(be_bytes(double as nat, 8))) == Decoded::Done(
            ValueView::Float(FloatView::Double(double)),
        ),
{
    lemma_pow256();
    lemma_be_bytes(single as nat, 4);
    lemma_be_bytes(double as nat, 8);
}

/// A date is an unsigned number, and a time the nanoseconds of a day; a time outside the day is
/// refused.
pub proof fn dates_and_times_decode(date: u32, time: i64)
    ensures
        decoded(native(NativeType::Date), Some(be_bytes(date as nat, 4))) == Decoded::Done(
            ValueView::Integer(date as i64),
        ),
        decoded(native(NativeType::Time), Some(twos_complement(time as int, 8))) == (if 0 <= time
            < 86_400_000_000_000 {
            Decoded::Done(ValueView::Integer(time))
        } else {
            Decoded::Failed(DeserializeError::ValueOverflow)
        }),
{
    lemma_pow256();
    lemma_be_bytes(date as nat, 4);
    lemma_twos_complement(time as int, 8);
}

/// A blob decodes to its bytes, one by one.
pub proof fn blobs_decode_byte_by_byte(bytes: Seq<u8>)
    ensures
        decoded(native(NativeType::Blob), Some(bytes)) matches Attempt::Done(ValueView::Vec(items))
            && items.len() == bytes.len() && forall|k: int|
            0 <= k < bytes.len() ==> (#[trigger] items[k]) == ValueView::Byte(bytes[k]),
{
}

/// Bytes that are a text decode to it, and an `ascii` value may hold no other bytes than ASCII has.
pub proof fn texts_decode(bytes: Seq<u8>)
    ensures
        decoded(native(NativeType::Text), Some(bytes)) == (if valid_utf8(bytes) {
            Decoded::Done(ValueView::String(decode_utf8(bytes)))
        } else {
            Decoded::Failed(DeserializeError::InvalidUtf8)
        }),
        (forall|k: int| 0 <= k < bytes.len() ==> bytes[k] < 128) ==> decoded(
            native(NativeType::Ascii),
            Some(bytes),
        ) == decoded(native(NativeType::Text), Some(bytes)),
        (exists|k: int| 0 <= k < bytes.len() && bytes[k] >= 128) ==> decoded(
            native(NativeType::Ascii),
            Some(bytes),
        ) == Decoded::Failed(DeserializeError::ExpectedAscii),
{
}

/// An identifier decodes to its text, whichever of the two types it has.
pub proof fn uuids_decode(uuid: u128)
    ensures
        decoded(native(NativeType::Uuid), Some(be_bytes(uuid as nat, 16))) == Decoded::Done(
            ValueView::String(uuid_text(uuid as nat)),
        ),
        decoded(native(NativeType::Timeuuid), Some(be_bytes(uuid as nat, 16))) == Decoded::Done(
            ValueView::String(uuid_text(uuid as nat)),
        ),
{
    lemma_pow256();
    lemma_be_bytes(uuid as nat, 16);
}

/// A varint of up to eight bytes decodes to the number that it is, and a longer one is refused.
pub proof fn varints_decode(i: int, len: nat, bytes: Seq<u8>)
    requires
        1 <= len <= 8,
        -super::wire::pow256(len) <= 2 * i < super::wire::pow256(len),
        bytes.len() > 8,
    ensures
        decoded(native(NativeType::Varint), Some(twos_complement(i, len))) matches Attempt::Done(
            ValueView::Integer(j),
        ) && j == i,
        decoded(native(NativeType::Varint), Some(bytes)) == Decoded::Failed(
            DeserializeError::VarintTooLarge,
        ),
{
    lemma_pow256();
    lemma_pow256_grows(len, 8);
    lemma_twos_complement(i, len);
}

/// A decimal number is its scale and then its mantissa, and decodes to how it is written. A
/// negative scale is refused, and so are bytes that are too few for a scale.
pub proof fn decimals_decode(mantissa: i64, scale: i32, short: Seq<u8>)
    requires
        scale <= 28,
        0 < short.len() < 4,
    ensures
        decoded(
            native(NativeType::Decimal),
            Some(twos_complement(scale as int, 4) + twos_complement(mantissa as int, 8)),
        ) == (if scale < 0 {
            Decoded::Failed(DeserializeError::NegativeScale(scale))
        } else {
            Decoded::Done(ValueView::String(decimal_text(mantissa as int, scale as nat)))
        }),
        decoded(native(NativeType::Decimal), Some(short)) == Decoded::Failed(
            DeserializeError::BadDecimalScale,
        ),
{
    lemma_pow256();
    lemma_twos_complement(scale as int, 4);
    lemma_twos_complement(mantissa as int, 8);
    let digits = twos_complement(mantissa as int, 8);
    let all = twos_complement(scale as int, 4) + digits;
    assert(all.take(4) =~= twos_complement(scale as int, 4));
    assert(all.skip(4) =~= digits);
    assert(int_split(all) == Some((scale as int, digits)));
    assert(digits.skip(0) =~= digits);
    assert(kept_mantissa(digits) == mantissa);
}

/// A mantissa of fewer than eight bytes is an unsigned number, and of a longer one only the last
/// eight bytes count.
pub proof fn mantissas_of_other_lengths_decode(
    n: nat,
    len: nat,
    high: Seq<u8>,
    mantissa: i64,
    scale: u8,
)
    requires
        len < 8,
        n < super::wire::pow256(len),
        scale <= 28,
    ensures
        decoded(
            native(NativeType::Decimal),
            Some(twos_complement(scale as int, 4) + be_bytes(n, len)),
        ) == Decoded::Done(ValueView::String(decimal_text(n as int, scale as nat))),
        decoded(
            native(NativeType::Decimal),
            Some(twos_complement(scale as int, 4) + (high + twos_complement(mantissa as int, 8))),
        ) == Decoded::Done(ValueView::String(decimal_text(mantissa as int, scale as nat))),
{
    lemma_pow256();
    lemma_twos_complement(scale as int, 4);
    lemma_twos_complement(mantissa as int, 8);
    lemma_be_bytes(n, len);
    let short = be_bytes(n, len);
    let few = twos_complement(scale as int, 4) + short;
    assert(few.take(4) =~= twos_complement(scale as int, 4));
    assert(few.skip(4) =~= short);
    assert(int_split(few) == Some((scale as int, short)));
    assert(kept_mantissa(short) == n);
    let digits = twos_complement(mantissa as int, 8);
    let long = high + digits;
    let many = twos_complement(scale as int, 4) + long;
    assert(many.take(4) =~= twos_complement(scale as int, 4));
    assert(many.skip(4) =~= long);
    assert(int_split(many) == Some((scale as int, long)));
    assert(long.skip(long.len() - 8) =~= digits);
    assert(kept_mantissa(long) == mantissa);
}

/// A duration decodes to an object of its three parts, each under its own name, and an address to
/// its text.
pub proof fn durations_and_addresses_decode(bytes: Seq<u8>)
    requires
        bytes.len() > 0,
    ensures
        decoded(native(NativeType::Duration), Some(bytes)) == (match duration_of_bytes(bytes) {
            Some((months, days, nanoseconds)) => Decoded::Done(
                ValueView::Object(
                    seq![
                        ("months"@, ValueView::Integer(months as i64)),
                        ("days"@, ValueView::Integer(days as i64)),
                        ("nanoseconds"@, ValueView::Integer(nanoseconds)),
                    ],
                ),
            ),
            None => Decoded::Failed(DeserializeError::BadDuration),
        }),
        decoded(native(NativeType::Inet), Some(bytes)) == (match inet_of_bytes(bytes) {
            Some(address) => Decoded::Done(ValueView::String(address)),
            None => Decoded::Failed(DeserializeError::BadInetLength),
        }),
{
}

/// An integer binds to every column of an integer type that is wide enough for it, as the same
/// number; a column that is too narrow is told with the number and its type.
pub proof fn integers_bind_as_the_same_number(i: i64)
    ensures
        if -128 <= i <= 127 {
            bound(ValueView::Integer(i), native(NativeType::TinyInt)) matches Attempt::Done(
                CqlValueView::TinyInt(n),
            ) && n == i
        } else {
            bound(ValueView::Integer(i), native(NativeType::TinyInt)) == Bound::Failed(
                CassErrorView::ValueOutOfRange(int_text(i as int), "TinyInt"@),
            )
        },
        if -32768 <= i <= 32767 {
            bound(ValueView::Integer(i), native(NativeType::SmallInt)) matches Attempt::Done(
                CqlValueView::SmallInt(n),
            ) && n == i
        } else {
            bound(ValueView::Integer(i), native(NativeType::SmallInt)) == Bound::Failed(
                CassErrorView::ValueOutOfRange(int_text(i as int), "SmallInt"@),
            )
        },
        if i32::MIN <= i <= i32::MAX {
            bound(ValueView::Integer(i), native(NativeType::Int)) matches Attempt::Done(
                CqlValueView::Int(n),
            ) && n == i
        } else {
            bound(ValueView::Integer(i), native(NativeType::Int)) == Bound::Failed(
                CassErrorView::ValueOutOfRange(int_text(i as int), "Int"@),
            )
        },
        bound(ValueView::Integer(i), native(NativeType::BigInt)) == Bound::Done(
            CqlValueView::BigInt(i),
        ),
        bound(ValueView::Integer(i), native(NativeType::Timestamp)) == Bound::Done(
            CqlValueView::Timestamp(i),
        ),
        bound(ValueView::Integer(i), native(NativeType::Decimal)) matches Attempt::Done(
            CqlValueView::Decimal { mantissa, scale },
        ) && be_int(mantissa) == i && scale == 0,
{
    lemma_pow256();
    lemma_twos_complement(i as int, 8);
}

/// A byte binds to a wider column as the same number, and to a `tinyint` column bit by bit.
pub proof fn bytes_bind_as_numbers(b: u8)
    ensures
        bound(ValueView::Byte(b), native(NativeType::TinyInt)) matches Attempt::Done(
            CqlValueView::TinyInt(n),
        ) && n == (if b < 128 {
            b as int
        } else {
            b - 256
        }),
        bound(ValueView::Byte(b), native(NativeType::SmallInt)) matches Attempt::Done(
            CqlValueView::SmallInt(n),
        ) && n == b,
        bound(ValueView::Byte(b), native(NativeType::Int)) matches Attempt::Done(
            CqlValueView::Int(n),
        ) && n == b,
        bound(ValueView::Byte(b), native(NativeType::BigInt)) matches Attempt::Done(
            CqlValueView::BigInt(n),
        ) && n == b,
{
}

/// Values of the other simple kinds bind to columns of their own types as they are.
pub proof fn simple_values_bind_as_they_are(
    b: bool,
    f: FloatView,
    text: Seq<char>,
    bytes: Seq<u8>,
    uuid: u128,
)
    ensures
        bound(ValueView::Bool(b), native(NativeType::Boolean)) == Bound::Done(
            CqlValueView::Boolean(b),
        ),
        bound(ValueView::Float(f), native(NativeType::Double)) == Bound::Done(
            CqlValueView::Double(f),
        ),
        bound(ValueView::Float(f), native(NativeType::Float)) == Bound::Done(
            CqlValueView::Float(FloatView::Rounded(Box::new(f))),
        ),
        bound(ValueView::Float(f), native(NativeType::Decimal)) == Bound::Done(
            CqlValueView::DecimalOf(f),
        ),
        bound(ValueView::String(text), native(NativeType::Text)) == Bound::Done(
            CqlValueView::Text(text),
        ),
        bound(ValueView::String(text), native(NativeType::Ascii)) == Bound::Done(
            CqlValueView::Text(text),
        ),
        bound(ValueView::Bytes(bytes), native(NativeType::Blob)) == Bound::Done(
            CqlValueView::Blob(bytes),
        ),
        bound(ValueView::Uuid(uuid), native(NativeType::Uuid)) == Bound::Done(
            CqlValueView::Uuid(uuid),
        ),
{
}

/// A vector of bytes binds to a blob of the same bytes.
pub proof fn byte_vectors_bind_to_blobs(items: Seq<ValueView>)
    ensures
        (forall|k: int| 0 <= k < items.len() ==> (#[trigger] items[k]) is Byte) ==> (bound(
            ValueView::Vec(items),
            native(NativeType::Blob),
        ) matches Attempt::Done(CqlValueView::Blob(bytes)) && bytes.len() == items.len() && forall|
            k: int,
        |
            0 <= k < items.len() ==> (#[trigger] items[k]) == ValueView::Byte(bytes[k])),
        (exists|k: int| 0 <= k < items.len() && !((#[trigger] items[k]) is Byte)) ==> bound(
            ValueView::Vec(items),
            native(NativeType::Blob),
        ) is Refused,
{
}

/// A text binds to an identifier or to an address where it denotes one; where it does not, the
/// error tells the text, the type and the reason.
pub proof fn texts_bind_to_what_they_denote(text: Seq<char>)
    ensures
        bound(ValueView::String(text), native(NativeType::Timeuuid)) == (match timeuuid_of_text(
            text,
        ) {
            Ok(uuid) => Bound::Done(CqlValueView::Timeuuid(uuid)),
            Err(reason) => Bound::Failed(
                CassErrorView::QueryParamConversion(
                    ValueView::String(text),
                    ConversionTargetView::Named("NativeType::Timeuuid"@),
                    Some(reason),
                ),
            ),
        }),
        bound(ValueView::String(text), native(NativeType::Inet)) == (match inet_of_text(text) {
            Ok(address) => Bound::Done(CqlValueView::Inet(address)),
            Err(reason) => Bound::Failed(
                CassErrorView::QueryParamConversion(
                    ValueView::String(text),
                    ConversionTargetView::Named("NativeType::Inet"@),
                    Some(reason),
                ),
            ),
        }),
{
}

/// Columns of the type take values of that kind.
pub open spec fn takes(typ: ColumnTypeView, value: ValueView) -> bool {
    match value {
        ValueView::Bool(_) => typ == native(NativeType::Boolean),
        ValueView::Byte(_) => typ matches ColumnTypeView::Native(t) && (t == NativeType::TinyInt || t
            == NativeType::SmallInt || t == NativeType::Int || t == NativeType::BigInt),
        ValueView::Integer(_) => typ matches ColumnTypeView::Native(t) && (t == NativeType::TinyInt
            || t == NativeType::SmallInt || t == NativeType::Int || t == NativeType::BigInt || t
            == NativeType::Timestamp || t == NativeType::Decimal),
        ValueView::Float(_) => typ matches ColumnTypeView::Native(t) && (t == NativeType::Float || t
            == NativeType::Double || t == NativeType::Decimal),
        ValueView::String(_) => typ matches ColumnTypeView::Native(t) && (t == NativeType::Text || t
            == NativeType::Ascii || t == NativeType::Timeuuid || t == NativeType::Inet || t
            == NativeType::Decimal),
        ValueView::Bytes(_) => typ == native(NativeType::Blob),
        ValueView::Uuid(_) | ValueView::Any(_) => typ == native(NativeType::Uuid),
        ValueView::Option(_) => true,
        ValueView::Vec(_) => typ == native(NativeType::Blob) || (typ
            matches ColumnTypeView::Collection { frozen, .. } && !frozen),
        ValueView::Object(_) => (typ matches ColumnTypeView::Collection { frozen, typ: c } && !frozen
            && c is MapOf) || (typ matches ColumnTypeView::UserDefinedType { frozen, .. }
            && !frozen),
        ValueView::Struct(_) => typ matches ColumnTypeView::UserDefinedType { frozen, .. }
            && !frozen,
        ValueView::Tuple(_) | ValueView::Other(_) => false,
    }
}

/// A value that columns of the type do not take is reported with the type.
pub proof fn other_values_are_reported(value: ValueView, typ: ColumnTypeView)
    requires
        !takes(typ, value),
    ensures
        bound(value, typ) == Bound::Failed(
            CassErrorView::QueryParamConversion(value, ConversionTargetView::Column(typ), None),
        ),
{
    match typ {
        ColumnTypeView::Collection { typ: c, .. } => match c {
            CollectionTypeView::ListOf(_) => {},
            _ => {},
        },
        _ => {},
    }
}

/// An opaque value that is no identifier is reported as such.
pub proof fn opaque_values_are_no_uuids(description: Seq<char>)
    ensures
        bound(ValueView::Any(description), native(NativeType::Uuid)) == Bound::Failed(
            CassErrorView::QueryParamConversion(
                ValueView::Any(description),
                ConversionTargetView::Named("NativeType::Uuid"@),
                None,
            ),
        ),
{
}

/// Whole numbers of every width convert to the same number.
pub proof fn numbers_convert_to_themselves(tiny: i8, small: i16, plain: i32, big: i64, date: u32)
    ensures
        converted(CqlValueView::TinyInt(tiny)) matches Attempt::Done(ValueView::Integer(n)) && n
            == tiny,
        converted(CqlValueView::SmallInt(small)) matches Attempt::Done(ValueView::Integer(n)) && n
            == small,
        converted(CqlValueView::Int(plain)) matches Attempt::Done(ValueView::Integer(n)) && n
            == plain,
        converted(CqlValueView::Date(date)) matches Attempt::Done(ValueView::Integer(n)) && n
            == date,
        converted(CqlValueView::BigInt(big)) == Converted::Done(ValueView::Integer(big)),
        converted(CqlValueView::Counter(big)) == Converted::Done(ValueView::Integer(big)),
        converted(CqlValueView::Timestamp(big)) == Converted::Done(ValueView::Integer(big)),
        converted(CqlValueView::Time(big)) == Converted::Done(ValueView::Integer(big)),
{
}

/// Simple values of the other types convert to what they are.
pub proof fn simple_values_convert_to_what_they_are(
    b: bool,
    f: FloatView,
    text: Seq<char>,
    bytes: Seq<u8>,
    uuid: u128,
    months: i32,
    days: i32,
    nanoseconds: i64,
)
    ensures
        converted(CqlValueView::Boolean(b)) == Converted::Done(ValueView::Bool(b)),
        converted(CqlValueView::Float(f)) == Converted::Done(ValueView::Float(f)),
        converted(CqlValueView::Double(f)) == Converted::Done(ValueView::Float(f)),
        converted(CqlValueView::Text(text)) == Converted::Done(ValueView::String(text)),
        converted(CqlValueView::Ascii(text)) == Converted::Done(ValueView::String(text)),
        converted(CqlValueView::Inet(text)) == Converted::Done(ValueView::String(text)),
        converted(CqlValueView::Uuid(uuid)) == Converted::Done(
            ValueView::String(uuid_text(uuid as nat)),
        ),
        converted(CqlValueView::Timeuuid(uuid)) == Converted::Done(
            ValueView::String(uuid_text(uuid as nat)),
        ),
        converted(CqlValueView::Empty) == Converted::Done(ValueView::Option(None)),
        converted(CqlValueView::Blob(bytes)) matches Attempt::Done(ValueView::Vec(items))
            && items.len() == bytes.len() && forall|k: int|
            0 <= k < bytes.len() ==> (#[trigger] items[k]) == ValueView::Byte(bytes[k]),
        converted((CqlValueView::Duration { months, days, nanoseconds })) == Converted::Done(
            ValueView::Object(
                seq![
                    ("months"@, ValueView::Integer(months as i64)),
                    ("days"@, ValueView::Integer(days as i64)),
                    ("nanoseconds"@, ValueView::Integer(nanoseconds)),
                ],
            ),
        ),
{
}

/// A varint of up to eight bytes converts to the number that it is, and a longer one is reported.
/// A decimal number converts to how it is written, and a negative scale is reported.
pub proof fn large_numbers_convert(i: int, len: nat, bytes: Seq<u8>, mantissa: i64, scale: i32)
    requires
        1 <= len <= 8,
        -super::wire::pow256(len) <= 2 * i < super::wire::pow256(len),
        bytes.len() > 8,
        scale <= 28,
    ensures
        converted(CqlValueView::Varint(twos_complement(i, len))) matches Attempt::Done(
            ValueView::Integer(n),
        ) && n == i,
        converted(CqlValueView::Varint(bytes)) == Converted::Failed(
            CassErrorView::Error("Varint is too large to fit into an i64"@),
        ),
        converted(
            (CqlValueView::Decimal { mantissa: twos_complement(mantissa as int, 8), scale }),
        ) == (if scale < 0 {
            Converted::Failed(CassErrorView::ValueOutOfRange(int_text(scale as int), "u32"@))
        } else {
            Converted::Done(ValueView::String(decimal_text(mantissa as int, scale as nat)))
        }),
{
    lemma_pow256();
    lemma_pow256_grows(len, 8);
    lemma_twos_complement(i, len);
    lemma_twos_complement(mantissa as int, 8);
    let digits = twos_complement(mantissa as int, 8);
    assert(digits.skip(0) =~= digits);
    assert(kept_mantissa(digits) == mantissa);
}

} // verus!
