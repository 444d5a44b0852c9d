//! Binding of script values to the parameters of CQL statements.
use vstd::prelude::*;

use crate::attempt::{after, and_rest, Attempt};
use crate::attempt::{lemma_after_all, lemma_after_nothing, lemma_after_push};
use crate::decimal::{decimal_of_text, parse_decimal};
use crate::text::{i64_text, int_text};
use crate::value::{copy_bytes, entry_models, find_entry, get_entry, models};
use crate::value::{Float, FloatView, Value, ValueView};
use super::cass_error::{CassError, CassErrorKind, CassErrorView};
use super::cass_error::{ConversionTarget, ConversionTargetView};
use super::column::{field_models, native_name, spec_models, CollectionType, CollectionTypeView};
use super::column::{ColumnSpec, ColumnSpecView, ColumnType, ColumnTypeView, NativeType};
use super::column::UserDefinedType;
use super::cql_value::{cql_field_models, cql_models, cql_pair_models};
use super::cql_value::{CqlValue, CqlValueView};
use super::driver::{inet_of_text, parse_inet, parse_timeuuid, timeuuid_of_text};
use super::wire::{i128_be_bytes, i64_be_bytes, twos_complement};

verus! {

/// The signed number that a byte stands for.
pub open spec fn byte_as_i8(b: u8) -> i8 {
    (if b < 128 {
        b as int
    } else {
        b - 256
    }) as i8
}

/// The outcome where a value cannot be bound to a column of the type.
pub open spec fn mismatch(value: ValueView, typ: ColumnTypeView) -> Attempt<
    CqlValueView,
    CassErrorView,
> {
    Attempt::Failed(
        CassErrorView::QueryParamConversion(value, ConversionTargetView::Column(typ), None),
    )
}

/// The outcome for an integer that is bound to a column of a smaller type.
pub open spec fn bound_int(i: i64, min: int, max: int, typ: NativeType, value: CqlValueView) -> Attempt<
    CqlValueView,
    CassErrorView,
> {
    if min <= i <= max {
        Attempt::Done(value)
    } else {
        Attempt::Failed(CassErrorView::ValueOutOfRange(int_text(i as int), native_name(typ)))
    }
}

/// The outcome for a text that is bound to a `timeuuid` column, given what it parses to.
pub open spec fn bound_timeuuid(text: Seq<char>, parsed: Result<u128, Seq<char>>) -> Attempt<
    CqlValueView,
    CassErrorView,
> {
    match parsed {
        Ok(uuid) => Attempt::Done(CqlValueView::Timeuuid(uuid)),
        Err(e) => Attempt::Failed(
            CassErrorView::QueryParamConversion(
                ValueView::String(text),
                ConversionTargetView::Named("NativeType::Timeuuid"@),
                Some(e),
            ),
        ),
    }
}

/// The outcome for a text that is bound to an `inet` column, given what it parses to.
pub open spec fn bound_inet(text: Seq<char>, parsed: Result<Seq<char>, Seq<char>>) -> Attempt<
    CqlValueView,
    CassErrorView,
> {
    match parsed {
        Ok(address) => Attempt::Done(CqlValueView::Inet(address)),
        Err(e) => Attempt::Failed(
            CassErrorView::QueryParamConversion(
                ValueView::String(text),
                ConversionTargetView::Named("NativeType::Inet"@),
                Some(e),
            ),
        ),
    }
}

/// The outcome for a text that is bound to a `decimal` column, given what it parses to.
pub open spec fn bound_decimal(parsed: Option<(i128, u32)>) -> Attempt<
    CqlValueView,
    CassErrorView,
> {
    match parsed {
        Some((mantissa, scale)) => if scale <= i32::MAX {
            Attempt::Done(
                CqlValueView::Decimal {
                    mantissa: twos_complement(mantissa as int, 16),
                    scale: scale as i32,
                },
            )
        } else {
            Attempt::Refused
        },
        None => Attempt::Refused,
    }
}

/// What a text becomes when it is bound to a column of the type.
pub open spec fn bound_text(text: Seq<char>, typ: ColumnTypeView) -> Attempt<
    CqlValueView,
    CassErrorView,
> {
    match typ {
        ColumnTypeView::Native(NativeType::Timeuuid) => bound_timeuuid(
            text,
            timeuuid_of_text(text),
        ),
        ColumnTypeView::Native(NativeType::Text)
        | ColumnTypeView::Native(NativeType::Ascii) => Attempt::Done(CqlValueView::Text(text)),
        ColumnTypeView::Native(NativeType::Inet) => bound_inet(text, inet_of_text(text)),
        ColumnTypeView::Native(NativeType::Decimal) => bound_decimal(decimal_of_text(text)),
        _ => mismatch(ValueView::String(text), typ),
    }
}

/// What an integer becomes when it is bound to a column of the type.
pub open spec fn bound_integer(i: i64, typ: ColumnTypeView) -> Attempt<
    CqlValueView,
    CassErrorView,
> {
    match typ {
        ColumnTypeView::Native(NativeType::TinyInt) => bound_int(
            i,
            -0x80,
            0x7f,
            NativeType::TinyInt,
            CqlValueView::TinyInt(i as i8),
        ),
        ColumnTypeView::Native(NativeType::SmallInt) => bound_int(
            i,
            -0x8000,
            0x7fff,
            NativeType::SmallInt,
            CqlValueView::SmallInt(i as i16),
        ),
        ColumnTypeView::Native(NativeType::Int) => bound_int(
            i,
            -0x8000_0000,
            0x7fff_ffff,
            NativeType::Int,
            CqlValueView::Int(i as i32),
        ),
        ColumnTypeView::Native(NativeType::BigInt) => Attempt::Done(CqlValueView::BigInt(i)),
        ColumnTypeView::Native(NativeType::Timestamp) => Attempt::Done(CqlValueView::Timestamp(i)),
        ColumnTypeView::Native(NativeType::Decimal) => Attempt::Done(
            CqlValueView::Decimal { mantissa: twos_complement(i as int, 8), scale: 0 },
        ),
        _ => mismatch(ValueView::Integer(i), typ),
    }
}

/// What a byte becomes when it is bound to a column of the type.
pub open spec fn bound_byte(b: u8, typ: ColumnTypeView) -> Attempt<CqlValueView, CassErrorView> {
    match typ {
        ColumnTypeView::Native(NativeType::TinyInt) => Attempt::Done(
            CqlValueView::TinyInt(byte_as_i8(b)),
        ),
        ColumnTypeView::Native(NativeType::SmallInt) => Attempt::Done(
            CqlValueView::SmallInt(b as i16),
        ),
        ColumnTypeView::Native(NativeType::Int) => Attempt::Done(CqlValueView::Int(b as i32)),
        ColumnTypeView::Native(NativeType::BigInt) => Attempt::Done(CqlValueView::BigInt(b as i64)),
        _ => mismatch(ValueView::Byte(b), typ),
    }
}

/// All elements are bytes.
pub open spec fn all_bytes(items: Seq<ValueView>) -> bool {
    forall|i: int| 0 <= i < items.len() ==> (#[trigger] items[i]) is Byte
}

/// The bytes that the elements are.
pub open spec fn bytes_of(items: Seq<ValueView>) -> Seq<u8> {
    Seq::new(items.len(), |i: int| items[i]->Byte_0)
}

/// A key and its value as an entry of a map.
pub open spec fn as_entry(
    key: Attempt<CqlValueView, CassErrorView>,
    value: Attempt<CqlValueView, CassErrorView>,
) -> Attempt<(CqlValueView, CqlValueView), CassErrorView> {
    match key {
        Attempt::Done(key) => match value {
            Attempt::Done(value) => Attempt::Done((key, value)),
            Attempt::Failed(e) => Attempt::Failed(e),
            Attempt::Refused => Attempt::Refused,
        },
        Attempt::Failed(e) => Attempt::Failed(e),
        Attempt::Refused => Attempt::Refused,
    }
}

/// The entries as one value.
pub open spec fn as_map(
    entries: Attempt<Seq<(CqlValueView, CqlValueView)>, CassErrorView>,
) -> Attempt<CqlValueView, CassErrorView> {
    match entries {
        Attempt::Done(entries) => Attempt::Done(CqlValueView::MapOf(entries)),
        Attempt::Failed(e) => Attempt::Failed(e),
        Attempt::Refused => Attempt::Refused,
    }
}

/// What a value becomes when it is bound to a column of the type.
pub open spec fn bound(value: ValueView, typ: ColumnTypeView) -> Attempt<
    CqlValueView,
    CassErrorView,
>
    decreases value, 0nat,
{
    match value {
        ValueView::Bool(b) => match typ {
            ColumnTypeView::Native(NativeType::Boolean) => Attempt::Done(CqlValueView::Boolean(b)),
            _ => mismatch(value, typ),
        },
        ValueView::Byte(b) => bound_byte(b, typ),
        ValueView::Integer(i) => bound_integer(i, typ),
        ValueView::Float(f) => match typ {
            ColumnTypeView::Native(NativeType::Float) => Attempt::Done(
                CqlValueView::Float(FloatView::Rounded(Box::new(f))),
            ),
            ColumnTypeView::Native(NativeType::Double) => Attempt::Done(CqlValueView::Double(f)),
            ColumnTypeView::Native(NativeType::Decimal) => Attempt::Done(
                CqlValueView::DecimalOf(f),
            ),
            _ => mismatch(value, typ),
        },
        ValueView::String(text) => bound_text(text, typ),
        ValueView::Bytes(bytes) => match typ {
            ColumnTypeView::Native(NativeType::Blob) => Attempt::Done(CqlValueView::Blob(bytes)),
            _ => mismatch(value, typ),
        },
        ValueView::Option(Some(inner)) => bound(*inner, typ),
        ValueView::Option(None) => Attempt::Done(CqlValueView::Empty),
        ValueView::Vec(items) => match typ {
            ColumnTypeView::Native(NativeType::Blob) => if all_bytes(items) {
                Attempt::Done(CqlValueView::Blob(bytes_of(items)))
            } else {
                Attempt::Refused
            },
            ColumnTypeView::Collection {
                frozen: false,
                typ: CollectionTypeView::ListOf(element),
            } => match bound_items(items, 0, *element) {
                Attempt::Done(items) => Attempt::Done(CqlValueView::ListOf(items)),
                Attempt::Failed(e) => Attempt::Failed(e),
                Attempt::Refused => Attempt::Refused,
            },
            ColumnTypeView::Collection {
                frozen: false,
                typ: CollectionTypeView::SetOf(element),
            } => match bound_items(items, 0, *element) {
                Attempt::Done(items) => Attempt::Done(CqlValueView::SetOf(items)),
                Attempt::Failed(e) => Attempt::Failed(e),
                Attempt::Refused => Attempt::Refused,
            },
            ColumnTypeView::Collection {
                frozen: false,
                typ: CollectionTypeView::MapOf(key, value),
            } => as_map(bound_pairs(items, 0, *key, *value)),
            _ => mismatch(value, typ),
        },
        ValueView::Object(entries) => match typ {
            ColumnTypeView::Collection {
                frozen: false,
                typ: CollectionTypeView::MapOf(key, value),
            } => as_map(bound_entries(entries, 0, *key, *value)),
            ColumnTypeView::UserDefinedType {
                frozen: false,
                definition,
            } => match bound_fields(definition.field_types, 0, entries) {
                Attempt::Done(fields) => Attempt::Done(
                    CqlValueView::UserDefinedType {
                        keyspace: definition.keyspace,
                        name: definition.name,
                        fields,
                    },
                ),
                Attempt::Failed(e) => Attempt::Failed(e),
                Attempt::Refused => Attempt::Refused,
            },
            _ => mismatch(value, typ),
        },
        ValueView::Struct(entries) => match typ {
            ColumnTypeView::UserDefinedType {
                frozen: false,
                definition,
            } => match bound_fields(definition.field_types, 0, entries) {
                Attempt::Done(fields) => Attempt::Done(
                    CqlValueView::UserDefinedType {
                        keyspace: definition.keyspace,
                        name: definition.name,
                        fields,
                    },
                ),
                Attempt::Failed(e) => Attempt::Failed(e),
                Attempt::Refused => Attempt::Refused,
            },
            _ => mismatch(value, typ),
        },
        ValueView::Uuid(uuid) => match typ {
            ColumnTypeView::Native(NativeType::Uuid) => Attempt::Done(CqlValueView::Uuid(uuid)),
            _ => mismatch(value, typ),
        },
        ValueView::Any(_) => match typ {
            ColumnTypeView::Native(NativeType::Uuid) => Attempt::Failed(
                CassErrorView::QueryParamConversion(
                    value,
                    ConversionTargetView::Named("NativeType::Uuid"@),
                    None,
                ),
            ),
            _ => mismatch(value, typ),
        },
        ValueView::Tuple(_) => mismatch(value, typ),
        ValueView::Other(_) => mismatch(value, typ),
    }
}

/// What the elements from the `i`-th on become when they are bound to the element type.
pub open spec fn bound_items(items: Seq<ValueView>, i: int, element: ColumnTypeView) -> Attempt<
    Seq<CqlValueView>,
    CassErrorView,
>
    decreases items, items.len() - i,
{
    if i < 0 || i >= items.len() {
        Attempt::Done(Seq::empty())
    } else {
        and_rest(bound(items[i], element), bound_items(items, i + 1, element))
    }
}

/// What the pairs from the `i`-th on become when they are bound to the types of a map.
pub open spec fn bound_pairs(
    items: Seq<ValueView>,
    i: int,
    key: ColumnTypeView,
    value: ColumnTypeView,
) -> Attempt<Seq<(CqlValueView, CqlValueView)>, CassErrorView>
    decreases items, items.len() - i,
{
    if i < 0 || i >= items.len() {
        Attempt::Done(Seq::empty())
    } else {
        and_rest(
            match items[i] {
                ValueView::Tuple(parts) => if parts.len() == 2 {
                    as_entry(bound(parts[0], key), bound(parts[1], value))
                } else {
                    not_a_pair(items[i])
                },
                _ => not_a_pair(items[i]),
            },
            bound_pairs(items, i + 1, key, value),
        )
    }
}

/// The outcome for an element of a map that is no pair.
pub open spec fn not_a_pair(item: ValueView) -> Attempt<
    (CqlValueView, CqlValueView),
    CassErrorView,
> {
    Attempt::Failed(
        CassErrorView::QueryParamConversion(
            item,
            ConversionTargetView::Named("CollectionType::Map"@),
            None,
        ),
    )
}

/// What the entries from the `i`-th on become when they are bound to the types of a map.
pub open spec fn bound_entries(
    entries: Seq<(Seq<char>, ValueView)>,
    i: int,
    key: ColumnTypeView,
    value: ColumnTypeView,
) -> Attempt<Seq<(CqlValueView, CqlValueView)>, CassErrorView>
    decreases entries, entries.len() - i,
{
    if i < 0 || i >= entries.len() {
        Attempt::Done(Seq::empty())
    } else {
        and_rest(
            as_entry(bound_text(entries[i].0, key), bound(entries[i].1, value)),
            bound_entries(entries, i + 1, key, value),
        )
    }
}

/// The fields from the `i`-th on, each with what the entry of its name becomes; a field without
/// an entry is left out.
pub open spec fn bound_fields(
    fields: Seq<(Seq<char>, ColumnTypeView)>,
    i: int,
    entries: Seq<(Seq<char>, ValueView)>,
) -> Attempt<Seq<(Seq<char>, Option<CqlValueView>)>, CassErrorView>
    decreases entries, fields.len() - i,
{
    if i < 0 || i >= fields.len() {
        Attempt::Done(Seq::empty())
    } else {
        match find_entry(entries, fields[i].0) {
            Some(at) => if 0 <= at < entries.len() {
                and_rest(
                    match bound(entries[at].1, fields[i].1) {
                        Attempt::Done(value) => Attempt::Done((fields[i].0, Some(value))),
                        Attempt::Failed(e) => Attempt::Failed(e),
                        Attempt::Refused => Attempt::Refused,
                    },
                    bound_fields(fields, i + 1, entries),
                )
            } else {
                Attempt::Refused
            },
            None => bound_fields(fields, i + 1, entries),
        }
    }
}

/// What is bound to the columns from the `i`-th on: the entry of the same name, and the empty
/// value where there is none.
pub open spec fn bound_columns(
    specs: Seq<ColumnSpecView>,
    i: int,
    entries: Seq<(Seq<char>, ValueView)>,
) -> Attempt<Seq<CqlValueView>, CassErrorView>
    decreases specs.len() - i,
{
    if i < 0 || i >= specs.len() {
        Attempt::Done(Seq::empty())
    } else {
        and_rest(
            match find_entry(entries, specs[i].name) {
                Some(at) => bound(entries[at].1, specs[i].typ),
                None => Attempt::Done(CqlValueView::Empty),
            },
            bound_columns(specs, i + 1, entries),
        )
    }
}

/// What is bound to the columns from the `i`-th on: the values in the same places.
pub open spec fn bound_in_order(
    items: Seq<ValueView>,
    specs: Seq<ColumnSpecView>,
    i: int,
) -> Attempt<Seq<CqlValueView>, CassErrorView>
    decreases specs.len() - i,
{
    if i < 0 || i >= items.len() || i >= specs.len() {
        Attempt::Done(Seq::empty())
    } else {
        and_rest(bound(items[i], specs[i].typ), bound_in_order(items, specs, i + 1))
    }
}

/// What is bound to the columns of a statement.
pub open spec fn bound_params(params: ValueView, specs: Seq<ColumnSpecView>) -> Attempt<
    Seq<CqlValueView>,
    CassErrorView,
> {
    match params {
        ValueView::Tuple(items) => if items.len() != specs.len() {
            Attempt::Failed(CassErrorView::InvalidNumberOfQueryParams)
        } else {
            bound_in_order(items, specs, 0)
        },
        ValueView::Vec(items) => bound_in_order(items, specs, 0),
        ValueView::Object(entries) => bound_columns(specs, 0, entries),
        ValueView::Struct(entries) => bound_columns(specs, 0, entries),
        _ => Attempt::Failed(CassErrorView::InvalidQueryParamsObject(params.kind())),
    }
}

/// The view of an outcome that is one value.
pub open spec fn cql_outcome(r: Attempt<CqlValue, CassError>) -> Attempt<
    CqlValueView,
    CassErrorView,
> {
    match r {
        Attempt::Done(v) => Attempt::Done(v@),
        Attempt::Failed(e) => Attempt::Failed(e@),
        Attempt::Refused => Attempt::Refused,
    }
}

/// The view of an outcome that is a sequence of values.
pub open spec fn cql_outcomes(r: Attempt<Vec<CqlValue>, CassError>) -> Attempt<
    Seq<CqlValueView>,
    CassErrorView,
> {
    match r {
        Attempt::Done(v) => Attempt::Done(cql_models(v@)),
        Attempt::Failed(e) => Attempt::Failed(e@),
        Attempt::Refused => Attempt::Refused,
    }
}

/// The view of an outcome that is a sequence of pairs.
pub open spec fn cql_pair_outcomes(r: Attempt<Vec<(CqlValue, CqlValue)>, CassError>) -> Attempt<
    Seq<(CqlValueView, CqlValueView)>,
    CassErrorView,
> {
    match r {
        Attempt::Done(v) => Attempt::Done(cql_pair_models(v@)),
        Attempt::Failed(e) => Attempt::Failed(e@),
        Attempt::Refused => Attempt::Refused,
    }
}

/// The view of an outcome that is a sequence of fields.
pub open spec fn cql_field_outcomes(
    r: Attempt<Vec<(String, Option<CqlValue>)>, CassError>,
) -> Attempt<Seq<(Seq<char>, Option<CqlValueView>)>, CassErrorView> {
    match r {
        Attempt::Done(v) => Attempt::Done(cql_field_models(v@)),
        Attempt::Failed(e) => Attempt::Failed(e@),
        Attempt::Refused => Attempt::Refused,
    }
}

/// Reports that a value cannot be bound to a column of the type.
fn refuse(value: &Value, typ: &ColumnType) -> (r: Attempt<CqlValue, CassError>)
    ensures
        cql_outcome(r) == mismatch(value@, typ@),
{
    Attempt::Failed(
        CassError(
            CassErrorKind::QueryParamConversion(
                value.duplicate(),
                ConversionTarget::Column(typ.duplicate()),
                None,
            ),
        ),
    )
}

/// Checks that an integer fits into a type with the given bounds.
fn convert_int(value: i64, min: i64, max: i64, typ: NativeType) -> (r: Result<i64, CassError>)
    ensures
        match r {
            Ok(i) => min <= value <= max && i == value,
            Err(e) => !(min <= value <= max) && e@ == CassErrorView::ValueOutOfRange(
                int_text(value as int),
                native_name(typ),
            ),
        },
{
    if min <= value && value <= max {
        Ok(value)
    } else {
        Err(CassError(CassErrorKind::ValueOutOfRange(i64_text(value), typ.name())))
    }
}

/// Binds a text to a `timeuuid` column, given what it parses to.
pub fn timeuuid_param(text: &String, parsed: Result<u128, String>) -> (r: Attempt<
    CqlValue,
    CassError,
>)
    ensures
        cql_outcome(r) == bound_timeuuid(
            text@,
            match parsed {
                Ok(uuid) => Ok(uuid),
                Err(e) => Err(e@),
            },
        ),
{
    match parsed {
        Ok(uuid) => Attempt::Done(CqlValue::Timeuuid(uuid)),
        Err(e) => Attempt::Failed(
            CassError(
                CassErrorKind::QueryParamConversion(
                    Value::String(text.clone()),
                    ConversionTarget::Named("NativeType::Timeuuid".to_owned()),
                    Some(e),
                ),
            ),
        ),
    }
}

/// Binds a text to an `inet` column, given what it parses to.
pub fn inet_param(text: &String, parsed: Result<String, String>) -> (r: Attempt<
    CqlValue,
    CassError,
>)
    ensures
        cql_outcome(r) == bound_inet(
            text@,
            match parsed {
                Ok(address) => Ok(address@),
                Err(e) => Err(e@),
            },
        ),
{
    match parsed {
        Ok(address) => Attempt::Done(CqlValue::Inet(address)),
        Err(e) => Attempt::Failed(
            CassError(
                CassErrorKind::QueryParamConversion(
                    Value::String(text.clone()),
                    ConversionTarget::Named("NativeType::Inet".to_owned()),
                    Some(e),
                ),
            ),
        ),
    }
}

/// Binds a text to a `decimal` column, given the mantissa and the scale that it parses to.
pub fn decimal_param(parsed: Option<(i128, u32)>) -> (r: Attempt<CqlValue, CassError>)
    ensures
        cql_outcome(r) == bound_decimal(parsed),
{
    match parsed {
        Some((mantissa, scale)) => if scale <= 0x7fff_ffff {
            Attempt::Done(
                CqlValue::Decimal { mantissa: i128_be_bytes(mantissa), scale: scale as i32 },
            )
        } else {
            Attempt::Refused
        },
        None => Attempt::Refused,
    }
}

/// Binds a text to a column of the type.
fn bind_text(text: &String, typ: &ColumnType) -> (r: Attempt<CqlValue, CassError>)
    ensures
        cql_outcome(r) == bound_text(text@, typ@),
{
    match typ {
        ColumnType::Native(NativeType::Timeuuid) => timeuuid_param(
            text,
            parse_timeuuid(text.as_str()),
        ),
        ColumnType::Native(NativeType::Text)
        | ColumnType::Native(NativeType::Ascii) => Attempt::Done(CqlValue::Text(text.clone())),
        ColumnType::Native(NativeType::Inet) => inet_param(text, parse_inet(text.as_str())),
        ColumnType::Native(NativeType::Decimal) => decimal_param(parse_decimal(text.as_str())),
        _ => refuse(&Value::String(text.clone()), typ),
    }
}

/// Binds an integer to a column of the type.
fn bind_integer(i: i64, typ: &ColumnType) -> (r: Attempt<CqlValue, CassError>)
    ensures
        cql_outcome(r) == bound_integer(i, typ@),
{
    match typ {
        ColumnType::Native(NativeType::TinyInt) => match convert_int(
            i,
            -0x80,
            0x7f,
            NativeType::TinyInt,
        ) {
            Ok(i) => Attempt::Done(CqlValue::TinyInt(i as i8)),
            Err(e) => Attempt::Failed(e),
        },
        ColumnType::Native(NativeType::SmallInt) => match convert_int(
            i,
            -0x8000,
            0x7fff,
            NativeType::SmallInt,
        ) {
            Ok(i) => Attempt::Done(CqlValue::SmallInt(i as i16)),
            Err(e) => Attempt::Failed(e),
        },
        ColumnType::Native(NativeType::Int) => match convert_int(
            i,
            -0x8000_0000,
            0x7fff_ffff,
            NativeType::Int,
        ) {
            Ok(i) => Attempt::Done(CqlValue::Int(i as i32)),
            Err(e) => Attempt::Failed(e),
        },
        ColumnType::Native(NativeType::BigInt) => Attempt::Done(CqlValue::BigInt(i)),
        ColumnType::Native(NativeType::Timestamp) => Attempt::Done(CqlValue::Timestamp(i)),
        ColumnType::Native(NativeType::Decimal) => Attempt::Done(
            CqlValue::Decimal { mantissa: i64_be_bytes(i), scale: 0 },
        ),
        _ => refuse(&Value::Integer(i), typ),
    }
}

/// Binds a byte to a column of the type.
fn bind_byte(b: u8, typ: &ColumnType) -> (r: Attempt<CqlValue, CassError>)
    ensures
        cql_outcome(r) == bound_byte(b, typ@),
{
    match typ {
        ColumnType::Native(NativeType::TinyInt) => {
            let signed: i8 = if b < 128 {
                b as i8
            } else {
                (b as i16 - 256) as i8
            };
            Attempt::Done(CqlValue::TinyInt(signed))
        },
        ColumnType::Native(NativeType::SmallInt) => Attempt::Done(CqlValue::SmallInt(b as i16)),
        ColumnType::Native(NativeType::Int) => Attempt::Done(CqlValue::Int(b as i32)),
        ColumnType::Native(NativeType::BigInt) => Attempt::Done(CqlValue::BigInt(b as i64)),
        _ => refuse(&Value::Byte(b), typ),
    }
}

/// Takes the bytes out of a vector of bytes.
fn bind_bytes(items: &Vec<Value>) -> (r: Option<Vec<u8>>)
    ensures
        match r {
            Some(bytes) => all_bytes(models(items@)) && bytes@ == bytes_of(models(items@)),
            None => !all_bytes(models(items@)),
        },
{
    let mut bytes: Vec<u8> = Vec::new();
    let mut i: usize = 0;
    while i < items.len()
        invariant
            i <= items.len(),
            bytes.len() == i,
            forall|k: int|
                0 <= k < i ==> (#[trigger] items[k]).model() == ValueView::Byte(bytes[k]),
        decreases items.len() - i,
    {
        match &items[i] {
            Value::Byte(b) => {
                bytes.push(*b);
                i += 1;
            },
            _ => {
                assert(!(models(items@)[i as int] is Byte));
                return None;
            },
        }
    }
    assert(bytes@ =~= bytes_of(models(items@)));
    Some(bytes)
}

/// Binds values to the element type of a collection.
fn bind_items(items: &Vec<Value>, element: &ColumnType) -> (r: Attempt<Vec<CqlValue>, CassError>)
    ensures
        cql_outcomes(r) == bound_items(models(items@), 0, element@),
    decreases items, 1nat,
{
    let mut done: Vec<CqlValue> = Vec::new();
    let mut i: usize = 0;
    assert(cql_models(done@) =~= Seq::empty());
    proof {
        lemma_after_nothing(bound_items(models(items@), 0, element@));
    }
    while i < items.len()
        invariant
            i <= items.len(),
            bound_items(models(items@), 0, element@) == after(
                cql_models(done@),
                bound_items(models(items@), i as int, element@),
            ),
        decreases items.len() - i,
    {
        assert(decreases_to!(items@ => items@[i as int]));
        let ghost before = cql_models(done@);
        match bind_value(&items[i], element) {
            Attempt::Done(value) => {
                proof {
                    lemma_after_push(before, value@, bound_items(models(items@), i + 1, element@));
                }
                let ghost pushed = value@;
                done.push(value);
                assert(cql_models(done@) =~= before.push(pushed));
                i += 1;
            },
            Attempt::Failed(e) => {
                return Attempt::Failed(e);
            },
            Attempt::Refused => {
                return Attempt::Refused;
            },
        }
    }
    proof {
        lemma_after_all::<CqlValueView, CassErrorView>(cql_models(done@));
    }
    Attempt::Done(done)
}

/// Binds pairs to the types of a map.
fn bind_pairs(items: &Vec<Value>, key_type: &ColumnType, value_type: &ColumnType) -> (r: Attempt<
    Vec<(CqlValue, CqlValue)>,
    CassError,
>)
    ensures
        cql_pair_outcomes(r) == bound_pairs(models(items@), 0, key_type@, value_type@),
    decreases items, 1nat,
{
    let mut done: Vec<(CqlValue, CqlValue)> = Vec::new();
    let mut i: usize = 0;
    assert(cql_pair_models(done@) =~= Seq::empty());
    proof {
        lemma_after_nothing(bound_pairs(models(items@), 0, key_type@, value_type@));
    }
    while i < items.len()
        invariant
            i <= items.len(),
            bound_pairs(models(items@), 0, key_type@, value_type@) == after(
                cql_pair_models(done@),
                bound_pairs(models(items@), i as int, key_type@, value_type@),
            ),
        decreases items.len() - i,
    {
        broadcast use Value::lemma_parts;

        assert(decreases_to!(items@ => items@[i as int]));
        let ghost before = cql_pair_models(done@);
        assert(models(items@)[i as int] == items[i as int].model());
        match &items[i] {
            Value::Tuple(parts) if parts.len() == 2 => {
                assert(decreases_to!(items@[i as int] => parts@));
                assert(decreases_to!(parts@ => parts@[0]));
                assert(decreases_to!(parts@ => parts@[1]));
                let key = match bind_value(&parts[0], key_type) {
                    Attempt::Done(key) => key,
                    Attempt::Failed(e) => {
                        return Attempt::Failed(e);
                    },
                    Attempt::Refused => {
                        return Attempt::Refused;
                    },
                };
                let value = match bind_value(&parts[1], value_type) {
                    Attempt::Done(value) => value,
                    Attempt::Failed(e) => {
                        return Attempt::Failed(e);
                    },
                    Attempt::Refused => {
                        return Attempt::Refused;
                    },
                };
                let ghost pushed = (key@, value@);
                proof {
                    lemma_after_push(
                        before,
                        pushed,
                        bound_pairs(models(items@), i + 1, key_type@, value_type@),
                    );
                }
                done.push((key, value));
                assert(cql_pair_models(done@) =~= before.push(pushed));
                i += 1;
            },
            other => {
                return Attempt::Failed(
                    CassError(
                        CassErrorKind::QueryParamConversion(
                            other.duplicate(),
                            ConversionTarget::Named("CollectionType::Map".to_owned()),
                            None,
                        ),
                    ),
                );
            },
        }
    }
    proof {
        lemma_after_all::<(CqlValueView, CqlValueView), CassErrorView>(cql_pair_models(done@));
    }
    Attempt::Done(done)
}

/// Binds the entries of an object to the types of a map.
fn bind_entries(
    entries: &Vec<(String, Value)>,
    key_type: &ColumnType,
    value_type: &ColumnType,
) -> (r: Attempt<Vec<(CqlValue, CqlValue)>, CassError>)
    ensures
        cql_pair_outcomes(r) == bound_entries(entry_models(entries@), 0, key_type@, value_type@),
    decreases entries, 1nat,
{
    let mut done: Vec<(CqlValue, CqlValue)> = Vec::new();
    let mut i: usize = 0;
    assert(cql_pair_models(done@) =~= Seq::empty());
    proof {
        lemma_after_nothing(bound_entries(entry_models(entries@), 0, key_type@, value_type@));
    }
    while i < entries.len()
        invariant
            i <= entries.len(),
            bound_entries(entry_models(entries@), 0, key_type@, value_type@) == after(
                cql_pair_models(done@),
                bound_entries(entry_models(entries@), i as int, key_type@, value_type@),
            ),
        decreases entries.len() - i,
    {
        assert(decreases_to!(entries@ => entries@[i as int]));
        assert(decreases_to!(entries@[i as int] => entries@[i as int].1));
        let ghost before = cql_pair_models(done@);
        let key = match bind_text(&entries[i].0, key_type) {
            Attempt::Done(key) => key,
            Attempt::Failed(e) => {
                return Attempt::Failed(e);
            },
            Attempt::Refused => {
                return Attempt::Refused;
            },
        };
        let value = match bind_value(&entries[i].1, value_type) {
            Attempt::Done(value) => value,
            Attempt::Failed(e) => {
                return Attempt::Failed(e);
            },
            Attempt::Refused => {
                return Attempt::Refused;
            },
        };
        let ghost pushed = (key@, value@);
        proof {
            lemma_after_push(
                before,
                pushed,
                bound_entries(entry_models(entries@), i + 1, key_type@, value_type@),
            );
        }
        done.push((key, value));
        assert(cql_pair_models(done@) =~= before.push(pushed));
        i += 1;
    }
    proof {
        lemma_after_all::<(CqlValueView, CqlValueView), CassErrorView>(cql_pair_models(done@));
    }
    Attempt::Done(done)
}

/// Binds the entries of an object or a struct to the fields of a user-defined type.
fn read_fields(entries: &Vec<(String, Value)>, fields: &Vec<(String, ColumnType)>) -> (r: Attempt<
    Vec<(String, Option<CqlValue>)>,
    CassError,
>)
    ensures
        cql_field_outcomes(r) == bound_fields(field_models(fields@), 0, entry_models(entries@)),
    decreases entries, 1nat,
{
    let mut done: Vec<(String, Option<CqlValue>)> = Vec::new();
    let mut i: usize = 0;
    assert(cql_field_models(done@) =~= Seq::empty());
    proof {
        lemma_after_nothing(bound_fields(field_models(fields@), 0, entry_models(entries@)));
    }
    while i < fields.len()
        invariant
            i <= fields.len(),
            bound_fields(field_models(fields@), 0, entry_models(entries@)) == after(
                cql_field_models(done@),
                bound_fields(field_models(fields@), i as int, entry_models(entries@)),
            ),
        decreases fields.len() - i,
    {
        let ghost before = cql_field_models(done@);
        match get_entry(entries, &fields[i].0) {
            Some(at) => {
                assert(decreases_to!(entries@ => entries@[at as int]));
                assert(decreases_to!(entries@[at as int] => entries@[at as int].1));
                match bind_value(&entries[at].1, &fields[i].1) {
                    Attempt::Done(value) => {
                        let ghost pushed = (fields[i as int].0@, Some(value@));
                        proof {
                            lemma_after_push(
                                before,
                                pushed,
                                bound_fields(
                                    field_models(fields@),
                                    i + 1,
                                    entry_models(entries@),
                                ),
                            );
                        }
                        done.push((fields[i].0.clone(), Some(value)));
                        assert(cql_field_models(done@) =~= before.push(pushed));
                    },
                    Attempt::Failed(e) => {
                        return Attempt::Failed(e);
                    },
                    Attempt::Refused => {
                        return Attempt::Refused;
                    },
                }
            },
            None => {},
        }
        i += 1;
    }
    proof {
        lemma_after_all::<(Seq<char>, Option<CqlValueView>), CassErrorView>(
            cql_field_models(done@),
        );
    }
    Attempt::Done(done)
}

/// Binds the entries of an object or a struct to a user-defined type.
fn bind_user_defined(entries: &Vec<(String, Value)>, definition: &UserDefinedType) -> (r: Attempt<
    CqlValue,
    CassError,
>)
    ensures
        cql_outcome(r) == match bound_fields(
            definition.model().field_types,
            0,
            entry_models(entries@),
        ) {
            Attempt::Done(fields) => Attempt::Done(
                CqlValueView::UserDefinedType {
                    keyspace: definition.model().keyspace,
                    name: definition.model().name,
                    fields,
                },
            ),
            Attempt::Failed(e) => Attempt::Failed(e),
            Attempt::Refused => Attempt::Refused,
        },
    decreases entries, 2nat,
{
    broadcast use CqlValue::lemma_parts, UserDefinedType::lemma_parts;

    match read_fields(entries, &definition.field_types) {
        Attempt::Done(fields) => Attempt::Done(
            CqlValue::UserDefinedType {
                keyspace: definition.keyspace.clone(),
                name: definition.name.clone(),
                fields,
            },
        ),
        Attempt::Failed(e) => Attempt::Failed(e),
        Attempt::Refused => Attempt::Refused,
    }
}

/// Binds a value to a column of the type; refuses a text that is no decimal number, and what is
/// no byte in a blob.
pub fn bind_value(value: &Value, typ: &ColumnType) -> (r: Attempt<CqlValue, CassError>)
    ensures
        cql_outcome(r) == bound(value@, typ@),
    decreases value, 0nat,
{
    broadcast use Value::lemma_parts, CqlValue::lemma_parts;

    match value {
        Value::Bool(b) => match typ {
            ColumnType::Native(NativeType::Boolean) => Attempt::Done(CqlValue::Boolean(*b)),
            _ => refuse(value, typ),
        },
        Value::Byte(b) => bind_byte(*b, typ),
        Value::Integer(i) => bind_integer(*i, typ),
        Value::Float(f) => match typ {
            ColumnType::Native(NativeType::Float) => Attempt::Done(
                CqlValue::Float(Float::Rounded(Box::new(f.duplicate()))),
            ),
            ColumnType::Native(NativeType::Double) => Attempt::Done(
                CqlValue::Double(f.duplicate()),
            ),
            ColumnType::Native(NativeType::Decimal) => Attempt::Done(
                CqlValue::DecimalOf(f.duplicate()),
            ),
            _ => refuse(value, typ),
        },
        Value::String(text) => bind_text(text, typ),
        Value::Bytes(bytes) => match typ {
            ColumnType::Native(NativeType::Blob) => Attempt::Done(
                CqlValue::Blob(copy_bytes(bytes)),
            ),
            _ => refuse(value, typ),
        },
        Value::Option(Some(inner)) => bind_value(inner, typ),
        Value::Option(None) => Attempt::Done(CqlValue::Empty),
        Value::Vec(items) => match typ {
            ColumnType::Native(NativeType::Blob) => match bind_bytes(items) {
                Some(bytes) => Attempt::Done(CqlValue::Blob(bytes)),
                None => Attempt::Refused,
            },
            ColumnType::Collection { frozen: false, typ: collection } => {
                assert(typ@->Collection_typ == collection.model());
                match collection {
                    CollectionType::ListOf(element) => match bind_items(items, element) {
                        Attempt::Done(items) => Attempt::Done(CqlValue::ListOf(items)),
                        Attempt::Failed(e) => Attempt::Failed(e),
                        Attempt::Refused => Attempt::Refused,
                    },
                    CollectionType::SetOf(element) => match bind_items(items, element) {
                        Attempt::Done(items) => Attempt::Done(CqlValue::SetOf(items)),
                        Attempt::Failed(e) => Attempt::Failed(e),
                        Attempt::Refused => Attempt::Refused,
                    },
                    CollectionType::MapOf(key, value) => match bind_pairs(items, key, value) {
                        Attempt::Done(entries) => Attempt::Done(CqlValue::MapOf(entries)),
                        Attempt::Failed(e) => Attempt::Failed(e),
                        Attempt::Refused => Attempt::Refused,
                    },
                }
            },
            _ => refuse(value, typ),
        },
        Value::Object(entries) => match typ {
            ColumnType::Collection { frozen: false, typ: collection } => {
                assert(typ@->Collection_typ == collection.model());
                match collection {
                    CollectionType::MapOf(key, value) => match bind_entries(entries, key, value) {
                        Attempt::Done(entries) => Attempt::Done(CqlValue::MapOf(entries)),
                        Attempt::Failed(e) => Attempt::Failed(e),
                        Attempt::Refused => Attempt::Refused,
                    },
                    _ => refuse(value, typ),
                }
            },
            ColumnType::UserDefinedType { frozen: false, definition } => bind_user_defined(
                entries,
                definition,
            ),
            _ => refuse(value, typ),
        },
        Value::Struct(entries) => match typ {
            ColumnType::UserDefinedType { frozen: false, definition } => bind_user_defined(
                entries,
                definition,
            ),
            _ => refuse(value, typ),
        },
        Value::Uuid(uuid) => match typ {
            ColumnType::Native(NativeType::Uuid) => Attempt::Done(CqlValue::Uuid(*uuid)),
            _ => refuse(value, typ),
        },
        Value::Any(_) => match typ {
            ColumnType::Native(NativeType::Uuid) => Attempt::Failed(
                CassError(
                    CassErrorKind::QueryParamConversion(
                        value.duplicate(),
                        ConversionTarget::Named("NativeType::Uuid".to_owned()),
                        None,
                    ),
                ),
            ),
            _ => refuse(value, typ),
        },
        Value::Tuple(_) => refuse(value, typ),
        Value::Other(_) => refuse(value, typ),
    }
}

/// Binds the entries of an object or a struct to the columns of a statement.
fn read_params(entries: &Vec<(String, Value)>, specs: &Vec<ColumnSpec>) -> (r: Attempt<
    Vec<CqlValue>,
    CassError,
>)
    ensures
        cql_outcomes(r) == bound_columns(spec_models(specs@), 0, entry_models(entries@)),
{
    let mut done: Vec<CqlValue> = Vec::new();
    let mut i: usize = 0;
    assert(cql_models(done@) =~= Seq::empty());
    proof {
        lemma_after_nothing(bound_columns(spec_models(specs@), 0, entry_models(entries@)));
    }
    while i < specs.len()
        invariant
            i <= specs.len(),
            bound_columns(spec_models(specs@), 0, entry_models(entries@)) == after(
                cql_models(done@),
                bound_columns(spec_models(specs@), i as int, entry_models(entries@)),
            ),
        decreases specs.len() - i,
    {
        let ghost before = cql_models(done@);
        let param = match get_entry(entries, &specs[i].name) {
            Some(at) => bind_value(&entries[at].1, &specs[i].typ),
            None => Attempt::Done(CqlValue::Empty),
        };
        match param {
            Attempt::Done(value) => {
                proof {
                    lemma_after_push(
                        before,
                        value@,
                        bound_columns(spec_models(specs@), i + 1, entry_models(entries@)),
                    );
                }
                let ghost pushed = value@;
                done.push(value);
                assert(cql_models(done@) =~= before.push(pushed));
                i += 1;
            },
            Attempt::Failed(e) => {
                return Attempt::Failed(e);
            },
            Attempt::Refused => {
                return Attempt::Refused;
            },
        }
    }
    proof {
        lemma_after_all::<CqlValueView, CassErrorView>(cql_models(done@));
    }
    Attempt::Done(done)
}

/// Binds values to the columns in the same places, as long as there are both.
fn bind_in_order(items: &Vec<Value>, specs: &Vec<ColumnSpec>) -> (r: Attempt<
    Vec<CqlValue>,
    CassError,
>)
    ensures
        cql_outcomes(r) == bound_in_order(models(items@), spec_models(specs@), 0),
{
    let mut done: Vec<CqlValue> = Vec::new();
    let mut i: usize = 0;
    assert(cql_models(done@) =~= Seq::empty());
    proof {
        lemma_after_nothing(bound_in_order(models(items@), spec_models(specs@), 0));
    }
    while i < specs.len() && i < items.len()
        invariant
            i <= specs.len(),
            bound_in_order(models(items@), spec_models(specs@), 0) == after(
                cql_models(done@),
                bound_in_order(models(items@), spec_models(specs@), i as int),
            ),
        decreases specs.len() - i,
    {
        let ghost before = cql_models(done@);
        match bind_value(&items[i], &specs[i].typ) {
            Attempt::Done(value) => {
                proof {
                    lemma_after_push(
                        before,
                        value@,
                        bound_in_order(models(items@), spec_models(specs@), i + 1),
                    );
                }
                let ghost pushed = value@;
                done.push(value);
                assert(cql_models(done@) =~= before.push(pushed));
                i += 1;
            },
            Attempt::Failed(e) => {
                return Attempt::Failed(e);
            },
            Attempt::Refused => {
                return Attempt::Refused;
            },
        }
    }
    proof {
        lemma_after_all::<CqlValueView, CassErrorView>(cql_models(done@));
    }
    Attempt::Done(done)
}

/// Binds parameters passed as a single script value to the arguments of a statement; refuses
/// what `bind_value` refuses.
pub fn bind_params(params: &Value, specs: &Vec<ColumnSpec>) -> (r: Attempt<
    Vec<CqlValue>,
    CassError,
>)
    ensures
        cql_outcomes(r) == bound_params(params@, spec_models(specs@)),
{
    broadcast use Value::lemma_parts;

    match params {
        Value::Tuple(items) => if items.len() != specs.len() {
            Attempt::Failed(CassError(CassErrorKind::InvalidNumberOfQueryParams))
        } else {
            bind_in_order(items, specs)
        },
        Value::Vec(items) => bind_in_order(items, specs),
        Value::Object(entries) => read_params(entries, specs),
        Value::Struct(entries) => read_params(entries, specs),
        other => Attempt::Failed(CassError(CassErrorKind::InvalidQueryParamsObject(other.kind()))),
    }
}

/// Binds parameters passed as a single script value to the arguments of a statement.
/// The `params` value can be a tuple, a vector, a struct or an object.
pub fn to_scylla_query_params(params: &Value, specs: &Vec<ColumnSpec>) -> (r: Result<
    Vec<CqlValue>,
    CassError,
>)
    requires
        !(bound_params(params@, spec_models(specs@)) is Refused),
    ensures
        bound_params(params@, spec_models(specs@)) == cql_outcomes(
            match r {
                Ok(v) => Attempt::Done(v),
                Err(e) => Attempt::Failed(e),
            },
        ),
{
    match bind_params(params, specs) {
        Attempt::Done(v) => Ok(v),
        Attempt::Failed(e) => Err(e),
        Attempt::Refused => {
            assert(false);
            Err(CassError(CassErrorKind::InvalidNumberOfQueryParams))
        },
    }
}

} // verus!
