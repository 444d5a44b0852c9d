//! Decoding of the rows that the database returns into script values.
use vstd::prelude::*;
use vstd::utf8::{decode_utf8, valid_utf8};
use vstd::slice::slice_subrange;

use crate::attempt::{after, and_rest, Attempt};
use crate::attempt::{lemma_after_all, lemma_after_nothing, lemma_after_push};
use crate::decimal::{decimal_text, format_decimal};
use crate::value::{distinct_names, entry_models, insert_entry, models, put_entry};
use crate::value::put_entry_keeps_names_distinct;
use crate::value::{Float, FloatView, Value, ValueView};
use super::column::{field_models, spec_models, type_models};
use super::column::{CollectionType, CollectionTypeView, ColumnSpec, ColumnSpecView};
use super::column::{ColumnType, ColumnTypeView, NativeType, UserDefinedType};
use super::driver::{decode_duration, decode_inet, decode_text, format_timeuuid, format_uuid};
use super::driver::{duration_of_bytes, inet_of_bytes, uuid_text};
use super::wire::{be_i64, be_int, be_nat, be_u128, be_u64, bytes_split, int_split};
use super::wire::{raw_split, read_cql_bytes, read_int, read_n_bytes, read_vint, split_view};
use super::wire::{lemma_be_nat_bound, lemma_pow256, lemma_pow256_grows, vint_split};
use super::wire::{lemma_twos_complement, twos_complement};

verus! {

/// Why bytes could not be decoded.
#[derive(Debug, Clone, Copy, PartialEq, Eq, Structural)]
pub enum DeserializeError {
    /// An `ascii` value holds a byte that is none.
    ExpectedAscii,
    /// A text is not valid UTF-8.
    InvalidUtf8,
    /// A value of fixed size has another size.
    ByteLengthMismatch { expected: usize, got: usize },
    /// A time of day lies outside the day.
    ValueOverflow,
    /// An address has neither 4 nor 16 bytes.
    BadInetLength,
    /// A duration is cut short or out of range.
    BadDuration,
    /// A decimal number is too short to hold its scale.
    BadDecimalScale,
    /// The scale of a decimal number is negative.
    NegativeScale(i32),
    /// A varint is too large to fit into 64 bits.
    VarintTooLarge,
    /// The number of elements is missing or negative.
    BadCount,
    /// An element is cut short.
    BadItem,
}

/// The script value that stands for null.
pub open spec fn null_value() -> ValueView {
    ValueView::Option(None)
}

/// The bytes of a blob, one by one.
pub open spec fn byte_values(bytes: Seq<u8>) -> Seq<ValueView> {
    Seq::new(bytes.len(), |i: int| ValueView::Byte(bytes[i]))
}

/// The integer that the bytes of a varint stand for.
pub open spec fn varint_value(bytes: Seq<u8>) -> Attempt<ValueView, DeserializeError> {
    if bytes.len() > 8 {
        Attempt::Failed(DeserializeError::VarintTooLarge)
    } else if bytes.len() == 0 {
        Attempt::Refused
    } else {
        Attempt::Done(ValueView::Integer(be_int(bytes) as i64))
    }
}

/// The part of a mantissa that is kept: its last 8 bytes, and all of a shorter one taken as an
/// unsigned number.
pub open spec fn kept_mantissa(mantissa: Seq<u8>) -> int {
    if mantissa.len() < 8 {
        be_nat(mantissa) as int
    } else {
        be_int(mantissa.skip(mantissa.len() - 8))
    }
}

/// The text of a decimal number.
pub open spec fn decimal_value(mantissa: Seq<u8>, scale: i32) -> Attempt<
    ValueView,
    DeserializeError,
> {
    if scale < 0 {
        Attempt::Failed(DeserializeError::NegativeScale(scale))
    } else if scale > 28 {
        Attempt::Refused
    } else {
        Attempt::Done(ValueView::String(decimal_text(kept_mantissa(mantissa), scale as nat)))
    }
}

/// The object of a duration.
pub open spec fn duration_value(months: i32, days: i32, nanoseconds: i64) -> ValueView {
    ValueView::Object(
        seq![
            ("months"@, ValueView::Integer(months as i64)),
            ("days"@, ValueView::Integer(days as i64)),
            ("nanoseconds"@, ValueView::Integer(nanoseconds)),
        ],
    )
}

/// The last nanosecond of a day.
pub const LAST_NANOSECOND: i64 = 86_399_999_999_999;

/// The outcome for a value of fixed size.
pub open spec fn sized(bytes: Seq<u8>, size: usize, value: ValueView) -> Attempt<
    ValueView,
    DeserializeError,
> {
    if bytes.len() == size {
        Attempt::Done(value)
    } else {
        Attempt::Failed(
            DeserializeError::ByteLengthMismatch { expected: size, got: bytes.len() as usize },
        )
    }
}

/// What the bytes of a native type decode to.
pub open spec fn native_value(typ: NativeType, bytes: Seq<u8>) -> Attempt<
    ValueView,
    DeserializeError,
> {
    let integer = ValueView::Integer(be_int(bytes) as i64);
    match typ {
        NativeType::Ascii => if exists|i: int| 0 <= i < bytes.len() && bytes[i] >= 128 {
            Attempt::Failed(DeserializeError::ExpectedAscii)
        } else if !valid_utf8(bytes) {
            Attempt::Failed(DeserializeError::InvalidUtf8)
        } else {
            Attempt::Done(ValueView::String(decode_utf8(bytes)))
        },
        NativeType::Text => if !valid_utf8(bytes) {
            Attempt::Failed(DeserializeError::InvalidUtf8)
        } else {
            Attempt::Done(ValueView::String(decode_utf8(bytes)))
        },
        NativeType::Boolean => sized(bytes, 1, ValueView::Bool(bytes[0] != 0)),
        NativeType::TinyInt => sized(bytes, 1, integer),
        NativeType::SmallInt => sized(bytes, 2, integer),
        NativeType::Int => sized(bytes, 4, integer),
        NativeType::BigInt => sized(bytes, 8, integer),
        NativeType::Counter => sized(bytes, 8, integer),
        NativeType::Timestamp => sized(bytes, 8, integer),
        NativeType::Float => sized(
            bytes,
            4,
            ValueView::Float(FloatView::Single(be_nat(bytes) as u32)),
        ),
        NativeType::Double => sized(
            bytes,
            8,
            ValueView::Float(FloatView::Double(be_nat(bytes) as u64)),
        ),
        NativeType::Date => sized(bytes, 4, ValueView::Integer(be_nat(bytes) as i64)),
        NativeType::Time => if bytes.len() == 8 && !(0 <= be_int(bytes) <= LAST_NANOSECOND) {
            Attempt::Failed(DeserializeError::ValueOverflow)
        } else {
            sized(bytes, 8, integer)
        },
        NativeType::Blob => Attempt::Done(ValueView::Vec(byte_values(bytes))),
        NativeType::Uuid => sized(bytes, 16, ValueView::String(uuid_text(be_nat(bytes)))),
        NativeType::Timeuuid => sized(bytes, 16, ValueView::String(uuid_text(be_nat(bytes)))),
        NativeType::Inet => match inet_of_bytes(bytes) {
            Some(address) => Attempt::Done(ValueView::String(address)),
            None => Attempt::Failed(DeserializeError::BadInetLength),
        },
        NativeType::Varint => varint_value(bytes),
        NativeType::Decimal => match int_split(bytes) {
            Some((scale, mantissa)) => decimal_value(mantissa, scale as i32),
            None => Attempt::Failed(DeserializeError::BadDecimalScale),
        },
        NativeType::Duration => match duration_of_bytes(bytes) {
            Some((months, days, nanoseconds)) => Attempt::Done(
                duration_value(months, days, nanoseconds),
            ),
            None => Attempt::Failed(DeserializeError::BadDuration),
        },
    }
}

/// A value of this type may be empty without being null.
pub open spec fn may_be_empty(typ: ColumnTypeView) -> bool {
    typ == ColumnTypeView::Native(NativeType::Ascii) || typ == ColumnTypeView::Native(
        NativeType::Blob,
    ) || typ == ColumnTypeView::Native(NativeType::Text)
}

/// The size of a vector element, and of each vector inside it, is a machine number.
pub open spec fn vector_size_fits(typ: ColumnTypeView) -> bool
    decreases typ,
{
    match typ {
        ColumnTypeView::Vector { typ: element, .. } => vector_size_fits(*element) && (
        typ.vector_size() matches Some(size) ==> size <= usize::MAX),
        _ => true,
    }
}

/// The elements as one value.
pub open spec fn as_vec(items: Attempt<Seq<ValueView>, DeserializeError>) -> Attempt<
    ValueView,
    DeserializeError,
> {
    match items {
        Attempt::Done(items) => Attempt::Done(ValueView::Vec(items)),
        Attempt::Failed(e) => Attempt::Failed(e),
        Attempt::Refused => Attempt::Refused,
    }
}

/// The entries as one value.
pub open spec fn as_object(
    entries: Attempt<Seq<(Seq<char>, ValueView)>, DeserializeError>,
) -> Attempt<ValueView, DeserializeError> {
    match entries {
        Attempt::Done(entries) => Attempt::Done(ValueView::Object(entries)),
        Attempt::Failed(e) => Attempt::Failed(e),
        Attempt::Refused => Attempt::Refused,
    }
}

/// A key and its value as one value.
pub open spec fn as_pair(
    key: Attempt<ValueView, DeserializeError>,
    value: Attempt<ValueView, DeserializeError>,
) -> Attempt<ValueView, DeserializeError> {
    match key {
        Attempt::Done(key) => match value {
            Attempt::Done(value) => Attempt::Done(ValueView::Tuple(seq![key, value])),
            other => other,
        },
        other => other,
    }
}

/// What the bytes of a column decode to.
pub open spec fn decoded(typ: ColumnTypeView, bytes: Option<Seq<u8>>) -> Attempt<
    ValueView,
    DeserializeError,
>
    decreases typ, 0nat,
{
    match bytes {
        None => Attempt::Done(null_value()),
        Some(bytes) => if bytes.len() == 0 && !may_be_empty(typ) {
            Attempt::Done(null_value())
        } else {
            match typ {
                ColumnTypeView::Native(native) => native_value(native, bytes),
                ColumnTypeView::Collection { typ: collection, .. } => match int_split(bytes) {
                    None => Attempt::Failed(DeserializeError::BadCount),
                    Some((count, rest)) => if count < 0 {
                        Attempt::Failed(DeserializeError::BadCount)
                    } else {
                        match collection {
                            CollectionTypeView::ListOf(element) => as_vec(
                                decoded_list(*element, count as nat, rest),
                            ),
                            CollectionTypeView::SetOf(element) => as_vec(
                                decoded_list(*element, count as nat, rest),
                            ),
                            CollectionTypeView::MapOf(key, value) => as_vec(
                                decoded_map(collection, count as nat, rest),
                            ),
                        }
                    },
                },
                ColumnTypeView::Vector { typ: element, dimensions } => if !vector_size_fits(
                    *element,
                ) {
                    Attempt::Refused
                } else {
                    as_vec(decoded_vector(*element, dimensions as nat, bytes))
                },
                ColumnTypeView::UserDefinedType { definition, .. } => as_object(
                    decoded_fields(definition.field_types, 0, bytes, Seq::empty()),
                ),
                ColumnTypeView::Tuple(types) => as_vec(decoded_tuple(types, 0, bytes)),
            }
        },
    }
}

/// What `count` length-prefixed elements decode to.
pub open spec fn decoded_list(element: ColumnTypeView, count: nat, bytes: Seq<u8>) -> Attempt<
    Seq<ValueView>,
    DeserializeError,
>
    decreases element, count,
{
    if count == 0 {
        Attempt::Done(Seq::empty())
    } else {
        match bytes_split(bytes) {
            None => Attempt::Failed(DeserializeError::BadItem),
            Some((item, rest)) => and_rest(
                decoded(element, item),
                decoded_list(element, (count - 1) as nat, rest),
            ),
        }
    }
}

/// What `count` pairs of a length-prefixed key and a length-prefixed value decode to.
pub open spec fn decoded_map(collection: CollectionTypeView, count: nat, bytes: Seq<u8>) -> Attempt<
    Seq<ValueView>,
    DeserializeError,
>
    decreases collection, count,
{
    if count == 0 {
        Attempt::Done(Seq::empty())
    } else {
        match bytes_split(bytes) {
            None => Attempt::Failed(DeserializeError::BadItem),
            Some((key, rest)) => match bytes_split(rest) {
                None => Attempt::Failed(DeserializeError::BadItem),
                Some((value, rest)) => match collection {
                    CollectionTypeView::MapOf(key_type, value_type) => and_rest(
                        as_pair(decoded(*key_type, key), decoded(*value_type, value)),
                        decoded_map(collection, (count - 1) as nat, rest),
                    ),
                    _ => Attempt::Refused,
                },
            },
        }
    }
}

/// The next element of a vector, and what follows it.
pub open spec fn vector_split(element: ColumnTypeView, bytes: Seq<u8>) -> Option<
    (Option<Seq<u8>>, Seq<u8>),
> {
    match element.vector_size() {
        Some(size) => raw_split(bytes, size),
        None => match vint_split(bytes) {
            Some((size, rest)) => if size <= usize::MAX {
                raw_split(rest, size)
            } else {
                None
            },
            None => None,
        },
    }
}

/// What `count` elements of a vector decode to.
pub open spec fn decoded_vector(element: ColumnTypeView, count: nat, bytes: Seq<u8>) -> Attempt<
    Seq<ValueView>,
    DeserializeError,
>
    decreases element, count,
{
    if count == 0 {
        Attempt::Done(Seq::empty())
    } else {
        match vector_split(element, bytes) {
            None => Attempt::Failed(DeserializeError::BadItem),
            Some((item, rest)) => and_rest(
                decoded(element, item),
                decoded_vector(element, (count - 1) as nat, rest),
            ),
        }
    }
}

/// The length-prefixed item in front, null where nothing is left, and what follows it.
pub open spec fn lenient_split(bytes: Seq<u8>) -> Option<(Option<Seq<u8>>, Seq<u8>)> {
    if bytes.len() == 0 {
        Some((None, bytes))
    } else {
        bytes_split(bytes)
    }
}

/// What the fields from the `i`-th on decode to, put into the entries of those before.
pub open spec fn decoded_fields(
    fields: Seq<(Seq<char>, ColumnTypeView)>,
    i: int,
    bytes: Seq<u8>,
    entries: Seq<(Seq<char>, ValueView)>,
) -> Attempt<Seq<(Seq<char>, ValueView)>, DeserializeError>
    decreases fields, fields.len() - i,
{
    if i < 0 || i >= fields.len() {
        Attempt::Done(entries)
    } else {
        match lenient_split(bytes) {
            None => Attempt::Failed(DeserializeError::BadItem),
            Some((item, rest)) => match decoded(fields[i].1, item) {
                Attempt::Done(value) => decoded_fields(
                    fields,
                    i + 1,
                    rest,
                    put_entry(entries, fields[i].0, value),
                ),
                Attempt::Failed(e) => Attempt::Failed(e),
                Attempt::Refused => Attempt::Refused,
            },
        }
    }
}

/// What the elements of a tuple from the `i`-th on decode to.
pub open spec fn decoded_tuple(types: Seq<ColumnTypeView>, i: int, bytes: Seq<u8>) -> Attempt<
    Seq<ValueView>,
    DeserializeError,
>
    decreases types, types.len() - i,
{
    if i < 0 || i >= types.len() {
        Attempt::Done(Seq::empty())
    } else {
        match lenient_split(bytes) {
            None => Attempt::Failed(DeserializeError::BadItem),
            Some((item, rest)) => and_rest(
                decoded(types[i], item),
                decoded_tuple(types, i + 1, rest),
            ),
        }
    }
}

/// What the columns of a row from the `i`-th on decode to, put into the entries of those before.
pub open spec fn decoded_columns(
    specs: Seq<ColumnSpecView>,
    i: int,
    bytes: Seq<u8>,
    entries: Seq<(Seq<char>, ValueView)>,
) -> Attempt<Seq<(Seq<char>, ValueView)>, DeserializeError>
    decreases specs.len() - i,
{
    if i < 0 || i >= specs.len() {
        Attempt::Done(entries)
    } else {
        match bytes_split(bytes) {
            None => Attempt::Failed(DeserializeError::BadItem),
            Some((item, rest)) => match decoded(specs[i].typ, item) {
                Attempt::Done(value) => decoded_columns(
                    specs,
                    i + 1,
                    rest,
                    put_entry(entries, specs[i].name, value),
                ),
                Attempt::Failed(e) => Attempt::Failed(e),
                Attempt::Refused => Attempt::Refused,
            },
        }
    }
}

/// The view of an outcome that is one value.
pub open spec fn value_outcome(r: Attempt<Value, DeserializeError>) -> Attempt<
    ValueView,
    DeserializeError,
> {
    match r {
        Attempt::Done(v) => Attempt::Done(v@),
        Attempt::Failed(e) => Attempt::Failed(e),
        Attempt::Refused => Attempt::Refused,
    }
}

/// The view of an outcome that is a sequence of values.
pub open spec fn values_outcome(r: Attempt<Vec<Value>, DeserializeError>) -> Attempt<
    Seq<ValueView>,
    DeserializeError,
> {
    match r {
        Attempt::Done(v) => Attempt::Done(models(v@)),
        Attempt::Failed(e) => Attempt::Failed(e),
        Attempt::Refused => Attempt::Refused,
    }
}

/// The view of an outcome that is a sequence of entries.
pub open spec fn entries_outcome(
    r: Attempt<Vec<(String, Value)>, DeserializeError>,
) -> Attempt<Seq<(Seq<char>, ValueView)>, DeserializeError> {
    match r {
        Attempt::Done(v) => Attempt::Done(entry_models(v@)),
        Attempt::Failed(e) => Attempt::Failed(e),
        Attempt::Refused => Attempt::Refused,
    }
}

/// The view of bytes that may be null.
pub open spec fn option_bytes(bytes: Option<&[u8]>) -> Option<Seq<u8>> {
    match bytes {
        Some(bytes) => Some(bytes@),
        None => None,
    }
}

/// Makes a script vector of the bytes of a blob.
pub fn blob_to_values(bytes: &[u8]) -> (r: Vec<Value>)
    ensures
        models(r@) == byte_values(bytes@),
{
    let mut values: Vec<Value> = Vec::new();
    let mut i: usize = 0;
    while i < bytes.len()
        invariant
            i <= bytes@.len(),
            values.len() == i,
            forall|k: int| 0 <= k < i ==> (#[trigger] values[k]) == Value::Byte(bytes@[k]),
        decreases bytes@.len() - i,
    {
        values.push(Value::Byte(bytes[i]));
        i += 1;
    }
    assert(models(values@) =~= byte_values(bytes@));
    values
}

/// Makes a script integer of the bytes of a varint.
pub fn varint_to_value(bytes: &[u8]) -> (r: Attempt<Value, DeserializeError>)
    ensures
        value_outcome(r) == varint_value(bytes@),
{
    if bytes.len() > 8 {
        Attempt::Failed(DeserializeError::VarintTooLarge)
    } else if bytes.len() == 0 {
        Attempt::Refused
    } else {
        Attempt::Done(Value::Integer(be_i64(bytes)))
    }
}

/// Makes a script string of the mantissa and the scale of a decimal number.
pub fn decimal_to_value(mantissa: &[u8], scale: i32) -> (r: Attempt<Value, DeserializeError>)
    ensures
        value_outcome(r) == decimal_value(mantissa@, scale),
{
    if scale < 0 {
        return Attempt::Failed(DeserializeError::NegativeScale(scale));
    }
    let kept: i64 = if mantissa.len() < 8 {
        proof {
            lemma_be_nat_bound(mantissa@);
            lemma_pow256_grows(mantissa@.len(), 7);
            lemma_pow256();
        }
        be_u64(mantissa) as i64
    } else {
        let tail = slice_subrange(mantissa, mantissa.len() - 8, mantissa.len());
        assert(tail@ =~= mantissa@.skip(mantissa@.len() - 8));
        be_i64(tail)
    };
    match format_decimal(kept, scale as u32) {
        Some(text) => Attempt::Done(Value::String(text)),
        None => Attempt::Refused,
    }
}

/// Makes a script object of a duration.
pub fn duration_to_value(months: i32, days: i32, nanoseconds: i64) -> (r: Value)
    ensures
        r@ == duration_value(months, days, nanoseconds),
{
    broadcast use Value::lemma_parts;

    let mut entries: Vec<(String, Value)> = Vec::new();
    entries.push(("months".to_owned(), Value::Integer(months as i64)));
    entries.push(("days".to_owned(), Value::Integer(days as i64)));
    entries.push(("nanoseconds".to_owned(), Value::Integer(nanoseconds)));
    assert(entry_models(entries@) =~= duration_value(months, days, nanoseconds)->Object_0);
    Value::Object(entries)
}

/// Tells whether all bytes are ASCII.
fn all_ascii(bytes: &[u8]) -> (r: bool)
    ensures
        r == !(exists|i: int| 0 <= i < bytes@.len() && bytes@[i] >= 128),
{
    let mut i: usize = 0;
    while i < bytes.len()
        invariant
            i <= bytes@.len(),
            forall|k: int| 0 <= k < i ==> bytes@[k] < 128,
        decreases bytes@.len() - i,
    {
        if bytes[i] >= 128 {
            return false;
        }
        i += 1;
    }
    true
}

/// Decodes a value of a native type.
fn decode_native(typ: NativeType, bytes: &[u8]) -> (r: Attempt<Value, DeserializeError>)
    ensures
        value_outcome(r) == native_value(typ, bytes@),
{
    broadcast use Value::lemma_parts;

    let size: usize = match typ {
        NativeType::Boolean | NativeType::TinyInt => 1,
        NativeType::SmallInt => 2,
        NativeType::Int | NativeType::Float | NativeType::Date => 4,
        NativeType::BigInt
        | NativeType::Counter
        | NativeType::Timestamp
        | NativeType::Double
        | NativeType::Time => 8,
        NativeType::Uuid | NativeType::Timeuuid => 16,
        _ => bytes.len(),
    };
    if bytes.len() != size {
        return Attempt::Failed(
            DeserializeError::ByteLengthMismatch { expected: size, got: bytes.len() },
        );
    }
    proof {
        lemma_be_nat_bound(bytes@);
        lemma_pow256();
    }
    match typ {
        NativeType::Ascii => if !all_ascii(bytes) {
            Attempt::Failed(DeserializeError::ExpectedAscii)
        } else {
            match decode_text(bytes) {
                Some(text) => Attempt::Done(Value::String(text)),
                None => Attempt::Failed(DeserializeError::InvalidUtf8),
            }
        },
        NativeType::Text => match decode_text(bytes) {
            Some(text) => Attempt::Done(Value::String(text)),
            None => Attempt::Failed(DeserializeError::InvalidUtf8),
        },
        NativeType::Boolean => Attempt::Done(Value::Bool(bytes[0] != 0)),
        NativeType::TinyInt
        | NativeType::SmallInt
        | NativeType::Int
        | NativeType::BigInt
        | NativeType::Counter
        | NativeType::Timestamp => Attempt::Done(Value::Integer(be_i64(bytes))),
        NativeType::Float => Attempt::Done(Value::Float(Float::Single(be_u64(bytes) as u32))),
        NativeType::Double => Attempt::Done(Value::Float(Float::Double(be_u64(bytes)))),
        NativeType::Date => Attempt::Done(Value::Integer(be_u64(bytes) as i64)),
        NativeType::Time => {
            let time: i64 = be_i64(bytes);
            if time < 0 || time > LAST_NANOSECOND {
                Attempt::Failed(DeserializeError::ValueOverflow)
            } else {
                Attempt::Done(Value::Integer(time))
            }
        },
        NativeType::Blob => Attempt::Done(Value::Vec(blob_to_values(bytes))),
        NativeType::Uuid => Attempt::Done(Value::String(format_uuid(be_u128(bytes)))),
        NativeType::Timeuuid => Attempt::Done(Value::String(format_timeuuid(be_u128(bytes)))),
        NativeType::Inet => match decode_inet(bytes) {
            Some(address) => Attempt::Done(Value::String(address)),
            None => Attempt::Failed(DeserializeError::BadInetLength),
        },
        NativeType::Varint => varint_to_value(bytes),
        NativeType::Decimal => match read_int(bytes) {
            Some((scale, mantissa)) => decimal_to_value(mantissa, scale),
            None => Attempt::Failed(DeserializeError::BadDecimalScale),
        },
        NativeType::Duration => match decode_duration(bytes) {
            Some((months, days, nanoseconds)) => Attempt::Done(
                duration_to_value(months, days, nanoseconds),
            ),
            None => Attempt::Failed(DeserializeError::BadDuration),
        },
    }
}

/// Tells the size of an element of a vector, if it is fixed; fails where it is no machine number.
fn element_size(typ: &ColumnType) -> (r: Result<Option<usize>, ()>)
    ensures
        match r {
            Ok(Some(size)) => vector_size_fits(typ@) && typ@.vector_size() == Some(size as nat),
            Ok(None) => vector_size_fits(typ@) && typ@.vector_size() is None,
            Err(_) => !vector_size_fits(typ@),
        },
    decreases typ,
{
    match typ {
        ColumnType::Native(native) => Ok(native.vector_size()),
        ColumnType::Vector { typ: element, dimensions } => match element_size(element) {
            Ok(Some(size)) => match size.checked_mul(*dimensions as usize) {
                Some(total) => Ok(Some(total)),
                None => Err(()),
            },
            other => other,
        },
        _ => Ok(None),
    }
}

/// Takes the next element of a vector off the front.
fn read_vector_item<'a>(size: Option<usize>, bytes: &'a [u8], Ghost(element): Ghost<ColumnTypeView>)
    -> (r: Option<(Option<&'a [u8]>, &'a [u8])>)
    requires
        match size {
            Some(size) => element.vector_size() == Some(size as nat),
            None => element.vector_size() is None,
        },
    ensures
        split_view(r) == vector_split(element, bytes@),
{
    match size {
        Some(size) => read_n_bytes(bytes, size),
        None => match read_vint(bytes) {
            Some((size, rest)) => if size <= usize::MAX as u64 {
                read_n_bytes(rest, size as usize)
            } else {
                None
            },
            None => None,
        },
    }
}

/// Takes the length-prefixed item off the front, or null where nothing is left.
fn read_lenient<'a>(bytes: &'a [u8]) -> (r: Option<(Option<&'a [u8]>, &'a [u8])>)
    ensures
        split_view(r) == lenient_split(bytes@),
{
    if bytes.len() == 0 {
        Some((None, bytes))
    } else {
        read_cql_bytes(bytes)
    }
}

/// A script value that was decoded from a column.
#[derive(Debug, PartialEq)]
pub struct RuneValue(pub Value);

impl RuneValue {
    /// Decodes `count` length-prefixed elements.
    fn decode_list(element: &ColumnType, count: u32, bytes: &[u8]) -> (r: Attempt<
        Vec<Value>,
        DeserializeError,
    >)
        ensures
            values_outcome(r) == decoded_list(element@, count as nat, bytes@),
        decreases element, 1nat,
    {
        let mut done: Vec<Value> = Vec::new();
        let mut left: u32 = count;
        let mut rest = bytes;
        assert(models(done@) =~= Seq::empty());
        proof {
            lemma_after_nothing(decoded_list(element@, count as nat, bytes@));
        }
        while left > 0
            invariant
                decoded_list(element@, count as nat, bytes@) == after(
                    models(done@),
                    decoded_list(element@, left as nat, rest@),
                ),
            decreases left,
        {
            let ghost before = models(done@);
            match read_cql_bytes(rest) {
                None => {
                    return Attempt::Failed(DeserializeError::BadItem);
                },
                Some((item, tail)) => match RuneValue::decode(element, item) {
                    Attempt::Done(value) => {
                        proof {
                            lemma_after_push(
                                before,
                                value@,
                                decoded_list(element@, (left - 1) as nat, tail@),
                            );
                        }
                        let ghost pushed = value@;
                        done.push(value);
                        assert(models(done@) =~= before.push(pushed));
                        rest = tail;
                        left = left - 1;
                    },
                    Attempt::Failed(e) => {
                        return Attempt::Failed(e);
                    },
                    Attempt::Refused => {
                        return Attempt::Refused;
                    },
                },
            }
        }
        proof {
            lemma_after_all::<ValueView, DeserializeError>(models(done@));
        }
        Attempt::Done(done)
    }

    /// Decodes `count` pairs of a key and a value.
    fn decode_map(
        collection: &CollectionType,
        key_type: &ColumnType,
        value_type: &ColumnType,
        count: u32,
        bytes: &[u8],
    ) -> (r: Attempt<Vec<Value>, DeserializeError>)
        requires
            *collection matches CollectionType::MapOf(k, v) && *k == *key_type && *v == *value_type,
        ensures
            values_outcome(r) == decoded_map(collection.model(), count as nat, bytes@),
        decreases collection, 1nat,
    {
        broadcast use Value::lemma_parts;

        let mut done: Vec<Value> = Vec::new();
        let mut left: u32 = count;
        let mut rest = bytes;
        assert(models(done@) =~= Seq::empty());
        proof {
            lemma_after_nothing(decoded_map(collection.model(), count as nat, bytes@));
        }
        while left > 0
            invariant
                decreases_to!(collection => key_type),
                decreases_to!(collection => value_type),
                *collection matches CollectionType::MapOf(k, v) && *k == *key_type && *v
                    == *value_type,
                decoded_map(collection.model(), count as nat, bytes@) == after(
                    models(done@),
                    decoded_map(collection.model(), left as nat, rest@),
                ),
            decreases left,
        {
            broadcast use Value::lemma_parts;

            let ghost before = models(done@);
            let (key_bytes, tail) = match read_cql_bytes(rest) {
                None => {
                    return Attempt::Failed(DeserializeError::BadItem);
                },
                Some(split) => split,
            };
            let (value_bytes, tail) = match read_cql_bytes(tail) {
                None => {
                    return Attempt::Failed(DeserializeError::BadItem);
                },
                Some(split) => split,
            };
            let key = match RuneValue::decode(key_type, key_bytes) {
                Attempt::Done(key) => key,
                Attempt::Failed(e) => {
                    return Attempt::Failed(e);
                },
                Attempt::Refused => {
                    return Attempt::Refused;
                },
            };
            let value = match RuneValue::decode(value_type, value_bytes) {
                Attempt::Done(value) => value,
                Attempt::Failed(e) => {
                    return Attempt::Failed(e);
                },
                Attempt::Refused => {
                    return Attempt::Refused;
                },
            };
            let ghost pair_view = ValueView::Tuple(seq![key@, value@]);
            let mut pair: Vec<Value> = Vec::new();
            pair.push(key);
            pair.push(value);
            assert(models(pair@) =~= pair_view->Tuple_0);
            proof {
                lemma_after_push(
                    before,
                    pair_view,
                    decoded_map(collection.model(), (left - 1) as nat, tail@),
                );
            }
            done.push(Value::Tuple(pair));
            assert(models(done@) =~= before.push(pair_view));
            rest = tail;
            left = left - 1;
        }
        proof {
            lemma_after_all::<ValueView, DeserializeError>(models(done@));
        }
        Attempt::Done(done)
    }

    /// Decodes `count` elements of a vector.
    fn decode_vector(element: &ColumnType, count: u16, bytes: &[u8]) -> (r: Attempt<
        Vec<Value>,
        DeserializeError,
    >)
        ensures
            values_outcome(r) == if vector_size_fits(element@) {
                decoded_vector(element@, count as nat, bytes@)
            } else {
                Attempt::Refused
            },
        decreases element, 1nat,
    {
        let size = match element_size(element) {
            Ok(size) => size,
            Err(_) => {
                return Attempt::Refused;
            },
        };
        let mut done: Vec<Value> = Vec::new();
        let mut left: u16 = count;
        let mut rest = bytes;
        assert(models(done@) =~= Seq::empty());
        proof {
            lemma_after_nothing(decoded_vector(element@, count as nat, bytes@));
        }
        while left > 0
            invariant
                vector_size_fits(element@),
                match size {
                    Some(size) => element@.vector_size() == Some(size as nat),
                    None => element@.vector_size() is None,
                },
                decoded_vector(element@, count as nat, bytes@) == after(
                    models(done@),
                    decoded_vector(element@, left as nat, rest@),
                ),
            decreases left,
        {
            let ghost before = models(done@);
            match read_vector_item(size, rest, Ghost(element@)) {
                None => {
                    return Attempt::Failed(DeserializeError::BadItem);
                },
                Some((item, tail)) => match RuneValue::decode(element, item) {
                    Attempt::Done(value) => {
                        proof {
                            lemma_after_push(
                                before,
                                value@,
                                decoded_vector(element@, (left - 1) as nat, tail@),
                            );
                        }
                        let ghost pushed = value@;
                        done.push(value);
                        assert(models(done@) =~= before.push(pushed));
                        rest = tail;
                        left = left - 1;
                    },
                    Attempt::Failed(e) => {
                        return Attempt::Failed(e);
                    },
                    Attempt::Refused => {
                        return Attempt::Refused;
                    },
                },
            }
        }
        proof {
            lemma_after_all::<ValueView, DeserializeError>(models(done@));
        }
        Attempt::Done(done)
    }

    /// Decodes the fields of a user-defined type.
    fn decode_fields(fields: &Vec<(String, ColumnType)>, bytes: &[u8]) -> (r: Attempt<
        Vec<(String, Value)>,
        DeserializeError,
    >)
        ensures
            entries_outcome(r) == decoded_fields(
                field_models(fields@),
                0,
                bytes@,
                Seq::empty(),
            ),
        decreases fields, 1nat,
    {
        let mut entries: Vec<(String, Value)> = Vec::new();
        let mut rest = bytes;
        let mut i: usize = 0;
        assert(entry_models(entries@) =~= Seq::empty());
        while i < fields.len()
            invariant
                i <= fields.len(),
                decoded_fields(field_models(fields@), 0, bytes@, Seq::empty()) == decoded_fields(
                    field_models(fields@),
                    i as int,
                    rest@,
                    entry_models(entries@),
                ),
            decreases fields.len() - i,
        {
            assert(decreases_to!(fields@ => fields@[i as int]));
            assert(decreases_to!(fields@[i as int] => fields@[i as int].1));
            match read_lenient(rest) {
                None => {
                    return Attempt::Failed(DeserializeError::BadItem);
                },
                Some((item, tail)) => match RuneValue::decode(&fields[i].1, item) {
                    Attempt::Done(value) => {
                        insert_entry(&mut entries, fields[i].0.clone(), value);
                        rest = tail;
                        i += 1;
                    },
                    Attempt::Failed(e) => {
                        return Attempt::Failed(e);
                    },
                    Attempt::Refused => {
                        return Attempt::Refused;
                    },
                },
            }
        }
        Attempt::Done(entries)
    }

    /// Decodes the elements of a tuple.
    fn decode_tuple(types: &Vec<ColumnType>, bytes: &[u8]) -> (r: Attempt<
        Vec<Value>,
        DeserializeError,
    >)
        ensures
            values_outcome(r) == decoded_tuple(type_models(types@), 0, bytes@),
        decreases types, 1nat,
    {
        let mut done: Vec<Value> = Vec::new();
        let mut rest = bytes;
        let mut i: usize = 0;
        assert(models(done@) =~= Seq::empty());
        proof {
            lemma_after_nothing(decoded_tuple(type_models(types@), 0, bytes@));
        }
        while i < types.len()
            invariant
                i <= types.len(),
                decoded_tuple(type_models(types@), 0, bytes@) == after(
                    models(done@),
                    decoded_tuple(type_models(types@), i as int, rest@),
                ),
            decreases types.len() - i,
        {
            assert(decreases_to!(types@ => types@[i as int]));
            let ghost before = models(done@);
            match read_lenient(rest) {
                None => {
                    return Attempt::Failed(DeserializeError::BadItem);
                },
                Some((item, tail)) => match RuneValue::decode(&types[i], item) {
                    Attempt::Done(value) => {
                        proof {
                            lemma_after_push(
                                before,
                                value@,
                                decoded_tuple(type_models(types@), i + 1, tail@),
                            );
                        }
                        let ghost pushed = value@;
                        done.push(value);
                        assert(models(done@) =~= before.push(pushed));
                        rest = tail;
                        i += 1;
                    },
                    Attempt::Failed(e) => {
                        return Attempt::Failed(e);
                    },
                    Attempt::Refused => {
                        return Attempt::Refused;
                    },
                },
            }
        }
        proof {
            lemma_after_all::<ValueView, DeserializeError>(models(done@));
        }
        Attempt::Done(done)
    }

    /// Decodes the bytes of a column; refuses what no decimal number and no vector can be made of.
    pub fn decode(typ: &ColumnType, bytes: Option<&[u8]>) -> (r: Attempt<Value, DeserializeError>)
        ensures
            value_outcome(r) == decoded(typ@, option_bytes(bytes)),
        decreases typ, 0nat,
    {
        broadcast use Value::lemma_parts, ColumnType::lemma_parts, UserDefinedType::lemma_parts;

        let bytes = match bytes {
            None => {
                return Attempt::Done(Value::Option(None));
            },
            Some(bytes) => bytes,
        };
        if bytes.len() == 0 {
            match typ {
                ColumnType::Native(NativeType::Ascii)
                | ColumnType::Native(NativeType::Blob)
                | ColumnType::Native(NativeType::Text) => {},
                _ => {
                    return Attempt::Done(Value::Option(None));
                },
            }
        }
        match typ {
            ColumnType::Native(native) => decode_native(*native, bytes),
            ColumnType::Collection { typ: collection, .. } => {
                let (count, rest) = match read_int(bytes) {
                    None => {
                        return Attempt::Failed(DeserializeError::BadCount);
                    },
                    Some((count, rest)) => (count, rest),
                };
                if count < 0 {
                    return Attempt::Failed(DeserializeError::BadCount);
                }
                assert(typ@->Collection_typ == collection.model());
                let items = match collection {
                    CollectionType::ListOf(element) => RuneValue::decode_list(
                        element,
                        count as u32,
                        rest,
                    ),
                    CollectionType::SetOf(element) => RuneValue::decode_list(
                        element,
                        count as u32,
                        rest,
                    ),
                    CollectionType::MapOf(key, value) => RuneValue::decode_map(
                        collection,
                        key,
                        value,
                        count as u32,
                        rest,
                    ),
                };
                match items {
                    Attempt::Done(items) => Attempt::Done(Value::Vec(items)),
                    Attempt::Failed(e) => Attempt::Failed(e),
                    Attempt::Refused => Attempt::Refused,
                }
            },
            ColumnType::Vector { typ: element, dimensions } => match RuneValue::decode_vector(
                element,
                *dimensions,
                bytes,
            ) {
                Attempt::Done(items) => Attempt::Done(Value::Vec(items)),
                Attempt::Failed(e) => Attempt::Failed(e),
                Attempt::Refused => Attempt::Refused,
            },
            ColumnType::UserDefinedType { definition, .. } => {
                assert(typ@->definition == definition.model());
                match RuneValue::decode_fields(&definition.field_types, bytes) {
                    Attempt::Done(entries) => Attempt::Done(Value::Object(entries)),
                    Attempt::Failed(e) => Attempt::Failed(e),
                    Attempt::Refused => Attempt::Refused,
                }
            },
            ColumnType::Tuple(types) => match RuneValue::decode_tuple(types, bytes) {
                Attempt::Done(items) => Attempt::Done(Value::Vec(items)),
                Attempt::Failed(e) => Attempt::Failed(e),
                Attempt::Refused => Attempt::Refused,
            },
        }
    }

    /// Decodes the bytes of a column.
    pub fn deserialize(typ: &ColumnType, bytes: Option<&[u8]>) -> (r: Result<
        RuneValue,
        DeserializeError,
    >)
        requires
            !(decoded(typ@, option_bytes(bytes)) is Refused),
        ensures
            match r {
                Ok(value) => decoded(typ@, option_bytes(bytes)) == Attempt::<
                    ValueView,
                    DeserializeError,
                >::Done(value.0@),
                Err(e) => decoded(typ@, option_bytes(bytes)) == Attempt::<
                    ValueView,
                    DeserializeError,
                >::Failed(e),
            },
    {
        match RuneValue::decode(typ, bytes) {
            Attempt::Done(value) => Ok(RuneValue(value)),
            Attempt::Failed(e) => Err(e),
            Attempt::Refused => {
                assert(false);
                Err(DeserializeError::BadItem)
            },
        }
    }
}

/// A row that was decoded into the entries of a script object.
#[derive(Debug, PartialEq)]
pub struct RuneRow(pub Vec<(String, Value)>);

impl RuneRow {
    /// Decodes a column into its entry; refuses what no decimal number and no vector can be made
    /// of.
    pub fn decode_column(
        entries: &mut Vec<(String, Value)>,
        spec: &ColumnSpec,
        item: Option<&[u8]>,
    ) -> (r: Attempt<(), DeserializeError>)
        ensures
            match decoded(spec@.typ, option_bytes(item)) {
                Attempt::Done(value) => r is Done && entry_models(final(entries)@) == put_entry(
                    entry_models(old(entries)@),
                    spec@.name,
                    value,
                ),
                Attempt::Failed(e) => r == Attempt::<(), DeserializeError>::Failed(e)
                    && final(entries)@ == old(entries)@,
                Attempt::Refused => r is Refused && final(entries)@ == old(entries)@,
            },
    {
        match RuneValue::decode(&spec.typ, item) {
            Attempt::Done(value) => {
                insert_entry(entries, spec.name.clone(), value);
                Attempt::Done(())
            },
            Attempt::Failed(e) => Attempt::Failed(e),
            Attempt::Refused => Attempt::Refused,
        }
    }

    /// Decodes the bytes of a row; refuses what no decimal number and no vector can be made of.
    pub fn decode(specs: &Vec<ColumnSpec>, bytes: &[u8]) -> (r: Attempt<
        Vec<(String, Value)>,
        DeserializeError,
    >)
        ensures
            entries_outcome(r) == decoded_columns(spec_models(specs@), 0, bytes@, Seq::empty()),
    {
        let mut entries: Vec<(String, Value)> = Vec::new();
        let mut rest = bytes;
        let mut i: usize = 0;
        assert(entry_models(entries@) =~= Seq::empty());
        while i < specs.len()
            invariant
                i <= specs.len(),
                decoded_columns(spec_models(specs@), 0, bytes@, Seq::empty()) == decoded_columns(
                    spec_models(specs@),
                    i as int,
                    rest@,
                    entry_models(entries@),
                ),
            decreases specs.len() - i,
        {
            match read_cql_bytes(rest) {
                None => {
                    return Attempt::Failed(DeserializeError::BadItem);
                },
                Some((item, tail)) => match RuneRow::decode_column(&mut entries, &specs[i], item) {
                    Attempt::Done(_) => {
                        rest = tail;
                        i += 1;
                    },
                    Attempt::Failed(e) => {
                        return Attempt::Failed(e);
                    },
                    Attempt::Refused => {
                        return Attempt::Refused;
                    },
                },
            }
        }
        Attempt::Done(entries)
    }

    /// Decodes the bytes of a row.
    pub fn deserialize(specs: &Vec<ColumnSpec>, bytes: &[u8]) -> (r: Result<
        RuneRow,
        DeserializeError,
    >)
        requires
            !(decoded_columns(spec_models(specs@), 0, bytes@, Seq::empty()) is Refused),
        ensures
            match r {
                Ok(row) => decoded_columns(spec_models(specs@), 0, bytes@, Seq::empty())
                    == Attempt::<Seq<(Seq<char>, ValueView)>, DeserializeError>::Done(
                    entry_models(row.0@),
                ),
                Err(e) => decoded_columns(spec_models(specs@), 0, bytes@, Seq::empty())
                    == Attempt::<Seq<(Seq<char>, ValueView)>, DeserializeError>::Failed(e),
            },
    {
        match RuneRow::decode(specs, bytes) {
            Attempt::Done(entries) => Ok(RuneRow(entries)),
            Attempt::Failed(e) => Err(e),
            Attempt::Refused => {
                assert(false);
                Err(DeserializeError::BadItem)
            },
        }
    }
}

/// Null decodes to null whatever the type, and so does an empty value of a type that has no
/// empty values of its own.
pub proof fn nothing_decodes_to_null(typ: ColumnTypeView)
    ensures
        decoded(typ, None) == Attempt::<ValueView, DeserializeError>::Done(null_value()),
        !may_be_empty(typ) ==> decoded(typ, Some(Seq::empty())) == Attempt::<
            ValueView,
            DeserializeError,
        >::Done(null_value()),
{
}

/// An integer decodes to itself, in every width that CQL has for it.
pub proof fn integers_decode_to_themselves(typ: NativeType, i: int)
    requires
        match typ {
            NativeType::TinyInt => -0x80 <= i < 0x80,
            NativeType::SmallInt => -0x8000 <= i < 0x8000,
            NativeType::Int => -0x8000_0000 <= i < 0x8000_0000,
            NativeType::BigInt | NativeType::Counter | NativeType::Timestamp => i64::MIN <= i
                <= i64::MAX,
            _ => false,
        },
    ensures
        decoded(
            ColumnTypeView::Native(typ),
            Some(
                twos_complement(
                    i,
                    match typ {
                        NativeType::TinyInt => 1,
                        NativeType::SmallInt => 2,
                        NativeType::Int => 4,
                        _ => 8,
                    },
                ),
            ),
        ) == Attempt::<ValueView, DeserializeError>::Done(ValueView::Integer(i as i64)),
{
    lemma_pow256();
    match typ {
        NativeType::TinyInt => lemma_twos_complement(i, 1),
        NativeType::SmallInt => lemma_twos_complement(i, 2),
        NativeType::Int => lemma_twos_complement(i, 4),
        _ => lemma_twos_complement(i, 8),
    }
}

/// A text decodes to itself.
pub proof fn text_decodes_to_itself(text: Seq<char>)
    ensures
        decoded(ColumnTypeView::Native(NativeType::Text), Some(vstd::utf8::encode_utf8(text)))
            == Attempt::<ValueView, DeserializeError>::Done(ValueView::String(text)),
{
    vstd::utf8::encode_utf8_valid_utf8(text);
    vstd::utf8::encode_utf8_decode_utf8(text);
}

/// The elements that a tuple does not hold are null.
pub proof fn missing_elements_are_null(types: Seq<ColumnTypeView>, i: int)
    requires
        0 <= i <= types.len(),
    ensures
        decoded_tuple(types, i, Seq::empty()) == Attempt::<Seq<ValueView>, DeserializeError>::Done(
            Seq::new((types.len() - i) as nat, |k: int| null_value()),
        ),
    decreases types.len() - i,
{
    let nulls = Seq::new((types.len() - i) as nat, |k: int| null_value());
    if i < types.len() {
        missing_elements_are_null(types, i + 1);
        nothing_decodes_to_null(types[i]);
        let fewer = Seq::new((types.len() - i - 1) as nat, |k: int| null_value());
        assert(seq![null_value()] + fewer =~= nulls);
    } else {
        assert(nulls =~= Seq::empty());
    }
}

/// The entries with null under the name of every field from the `i`-th on.
pub open spec fn with_null_fields(
    fields: Seq<(Seq<char>, ColumnTypeView)>,
    i: int,
    entries: Seq<(Seq<char>, ValueView)>,
) -> Seq<(Seq<char>, ValueView)>
    decreases fields.len() - i,
{
    if i < 0 || i >= fields.len() {
        entries
    } else {
        with_null_fields(fields, i + 1, put_entry(entries, fields[i].0, null_value()))
    }
}

/// The fields that a user-defined value does not hold are null.
pub proof fn absent_fields_are_null(
    fields: Seq<(Seq<char>, ColumnTypeView)>,
    i: int,
    entries: Seq<(Seq<char>, ValueView)>,
)
    ensures
        decoded_fields(fields, i, Seq::empty(), entries) == Attempt::<
            Seq<(Seq<char>, ValueView)>,
            DeserializeError,
        >::Done(with_null_fields(fields, i, entries)),
    decreases fields.len() - i,
{
    if 0 <= i < fields.len() {
        nothing_decodes_to_null(fields[i].1);
        absent_fields_are_null(fields, i + 1, put_entry(entries, fields[i].0, null_value()));
    }
}

/// A decoded row has each name once.
pub proof fn rows_have_distinct_names(specs: Seq<ColumnSpecView>, bytes: Seq<u8>)
    ensures
        decoded_columns(specs, 0, bytes, Seq::empty()) matches Attempt::Done(row)
            ==> distinct_names(row),
{
    lemma_columns_keep_names_distinct(specs, 0, bytes, Seq::empty());
}

/// Decoding further columns keeps the names distinct.
proof fn lemma_columns_keep_names_distinct(
    specs: Seq<ColumnSpecView>,
    i: int,
    bytes: Seq<u8>,
    entries: Seq<(Seq<char>, ValueView)>,
)
    requires
        distinct_names(entries),
    ensures
        decoded_columns(specs, i, bytes, entries) matches Attempt::Done(row) ==> distinct_names(
            row,
        ),
    decreases specs.len() - i,
{
    if 0 <= i < specs.len() {
        match bytes_split(bytes) {
            None => {},
            Some((item, rest)) => match decoded(specs[i].typ, item) {
                Attempt::Done(value) => {
                    put_entry_keeps_names_distinct(entries, specs[i].name, value);
                    lemma_columns_keep_names_distinct(
                        specs,
                        i + 1,
                        rest,
                        put_entry(entries, specs[i].name, value),
                    );
                },
                _ => {},
            },
        }
    }
}

} // verus!
