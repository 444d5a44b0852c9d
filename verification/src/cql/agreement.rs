//! Decoding bytes directly gives what converting the CQL value in them gives.
use vstd::prelude::*;
use vstd::utf8::{decode_utf8, valid_utf8};

use crate::attempt::{and_rest, Attempt};
use crate::value::{put_entry, FloatView, ValueView};
use super::cass_error::CassErrorView;
use super::column::{CollectionTypeView, ColumnTypeView, NativeType};
use super::convert::{converted, converted_fields, converted_items, converted_option};
use super::convert::{converted_options, converted_pairs, number_error, number_outcome};
use super::cql_value::CqlValueView;
use super::deserialize::{decoded, decoded_fields, decoded_list, decoded_map, decoded_tuple};
use super::deserialize::{decoded_vector, lenient_split, may_be_empty, native_value};
use super::deserialize::{vector_size_fits, vector_split, DeserializeError, LAST_NANOSECOND};
use super::driver::{duration_of_bytes, inet_of_bytes};
use super::wire::{be_int, be_nat, bytes_split, int_split, lemma_be_nat_bound, lemma_pow256};

verus! {

/// The bytes of a native type hold the value.
pub open spec fn holds_native(typ: NativeType, bytes: Seq<u8>, value: CqlValueView) -> bool {
    match value {
        CqlValueView::Ascii(s) => typ == NativeType::Ascii && valid_utf8(bytes) && s == decode_utf8(
            bytes,
        ) && forall|i: int| 0 <= i < bytes.len() ==> bytes[i] < 128,
        CqlValueView::Text(s) => typ == NativeType::Text && valid_utf8(bytes) && s == decode_utf8(
            bytes,
        ),
        CqlValueView::Boolean(b) => typ == NativeType::Boolean && bytes.len() == 1 && b == (bytes[0]
            != 0),
        CqlValueView::TinyInt(i) => typ == NativeType::TinyInt && bytes.len() == 1 && i == be_int(
            bytes,
        ),
        CqlValueView::SmallInt(i) => typ == NativeType::SmallInt && bytes.len() == 2 && i == be_int(
            bytes,
        ),
        CqlValueView::Int(i) => typ == NativeType::Int && bytes.len() == 4 && i == be_int(bytes),
        CqlValueView::BigInt(i) => typ == NativeType::BigInt && bytes.len() == 8 && i == be_int(
            bytes,
        ),
        CqlValueView::Counter(i) => typ == NativeType::Counter && bytes.len() == 8 && i == be_int(
            bytes,
        ),
        CqlValueView::Timestamp(i) => typ == NativeType::Timestamp && bytes.len() == 8 && i
            == be_int(bytes),
        CqlValueView::Time(i) => typ == NativeType::Time && bytes.len() == 8 && i == be_int(bytes)
            && 0 <= i <= LAST_NANOSECOND,
        CqlValueView::Date(d) => typ == NativeType::Date && bytes.len() == 4 && d == be_nat(bytes),
        CqlValueView::Float(FloatView::Single(bits)) => typ == NativeType::Float && bytes.len() == 4
            && bits == be_nat(bytes),
        CqlValueView::Double(FloatView::Double(bits)) => typ == NativeType::Double && bytes.len()
            == 8 && bits == be_nat(bytes),
        CqlValueView::Blob(b) => typ == NativeType::Blob && b == bytes,
        CqlValueView::Uuid(u) => typ == NativeType::Uuid && bytes.len() == 16 && u == be_nat(bytes),
        CqlValueView::Timeuuid(u) => typ == NativeType::Timeuuid && bytes.len() == 16 && u == be_nat(
            bytes,
        ),
        CqlValueView::Inet(address) => typ == NativeType::Inet && inet_of_bytes(bytes) == Some(
            address,
        ),
        CqlValueView::Varint(b) => typ == NativeType::Varint && b == bytes,
        CqlValueView::Decimal { mantissa, scale } => typ == NativeType::Decimal && int_split(bytes)
            == Some((scale as int, mantissa)),
        CqlValueView::Duration { months, days, nanoseconds } => typ == NativeType::Duration
            && duration_of_bytes(bytes) == Some((months, days, nanoseconds)),
        _ => false,
    }
}

/// The bytes of a column hold the value. An empty column of a type that cannot be empty holds the
/// empty value.
pub open spec fn holds(typ: ColumnTypeView, bytes: Seq<u8>, value: CqlValueView) -> bool
    decreases value, 0nat,
{
    if bytes.len() == 0 && !may_be_empty(typ) {
        value is Empty
    } else {
        match typ {
            ColumnTypeView::Native(native) => holds_native(native, bytes, value),
            ColumnTypeView::Collection {
                typ: CollectionTypeView::ListOf(element),
                ..
            } => match value {
                CqlValueView::ListOf(items) => match int_split(bytes) {
                    Some((count, rest)) => count == items.len() && holds_items(
                        *element,
                        rest,
                        items,
                        0,
                    ),
                    None => false,
                },
                _ => false,
            },
            ColumnTypeView::Collection {
                typ: CollectionTypeView::SetOf(element),
                ..
            } => match value {
                CqlValueView::SetOf(items) => match int_split(bytes) {
                    Some((count, rest)) => count == items.len() && holds_items(
                        *element,
                        rest,
                        items,
                        0,
                    ),
                    None => false,
                },
                _ => false,
            },
            ColumnTypeView::Collection {
                typ: CollectionTypeView::MapOf(key, element),
                ..
            } => match value {
                CqlValueView::MapOf(items) => match int_split(bytes) {
                    Some((count, rest)) => count == items.len() && holds_pairs(
                        *key,
                        *element,
                        rest,
                        items,
                        0,
                    ),
                    None => false,
                },
                _ => false,
            },
            ColumnTypeView::Vector { typ: element, dimensions } => match value {
                CqlValueView::Vector(items) => dimensions == items.len() && vector_size_fits(
                    *element,
                ) && holds_vector(*element, bytes, items, 0),
                _ => false,
            },
            ColumnTypeView::UserDefinedType { definition, .. } => match value {
                CqlValueView::UserDefinedType {
                    fields,
                    ..
                } => definition.field_types.len() == fields.len() && holds_fields(
                    definition.field_types,
                    bytes,
                    fields,
                    0,
                ),
                _ => false,
            },
            ColumnTypeView::Tuple(types) => match value {
                CqlValueView::Tuple(items) => types.len() == items.len() && holds_tuple(
                    types,
                    bytes,
                    items,
                    0,
                ),
                _ => false,
            },
        }
    }
}

/// The bytes of a column that may be null hold the value that may be null.
pub open spec fn holds_option(
    typ: ColumnTypeView,
    bytes: Option<Seq<u8>>,
    value: Option<CqlValueView>,
) -> bool
    decreases value, 1nat,
{
    match bytes {
        Some(bytes) => match value {
            Some(value) => holds(typ, bytes, value),
            None => false,
        },
        None => value is None,
    }
}

/// The bytes hold the length-prefixed elements from the `i`-th on.
pub open spec fn holds_items(
    element: ColumnTypeView,
    bytes: Seq<u8>,
    items: Seq<CqlValueView>,
    i: int,
) -> bool
    decreases items, items.len() - i,
{
    if i < 0 || i >= items.len() {
        true
    } else {
        match bytes_split(bytes) {
            Some((Some(item), rest)) => holds(element, item, items[i]) && holds_items(
                element,
                rest,
                items,
                i + 1,
            ),
            _ => false,
        }
    }
}

/// The bytes hold the length-prefixed keys and values from the `i`-th on.
pub open spec fn holds_pairs(
    key: ColumnTypeView,
    value: ColumnTypeView,
    bytes: Seq<u8>,
    items: Seq<(CqlValueView, CqlValueView)>,
    i: int,
) -> bool
    decreases items, items.len() - i,
{
    if i < 0 || i >= items.len() {
        true
    } else {
        match bytes_split(bytes) {
            Some((Some(first), rest)) => match bytes_split(rest) {
                Some((Some(second), rest)) => {
                    &&& holds(key, first, items[i].0)
                    &&& holds(value, second, items[i].1)
                    &&& holds_pairs(key, value, rest, items, i + 1)
                },
                _ => false,
            },
            _ => false,
        }
    }
}

/// The bytes hold the elements of a vector from the `i`-th on.
pub open spec fn holds_vector(
    element: ColumnTypeView,
    bytes: Seq<u8>,
    items: Seq<CqlValueView>,
    i: int,
) -> bool
    decreases items, items.len() - i,
{
    if i < 0 || i >= items.len() {
        true
    } else {
        match vector_split(element, bytes) {
            Some((Some(item), rest)) => holds(element, item, items[i]) && holds_vector(
                element,
                rest,
                items,
                i + 1,
            ),
            _ => false,
        }
    }
}

/// The bytes hold the fields from the `i`-th on, each null where nothing is left.
pub open spec fn holds_fields(
    types: Seq<(Seq<char>, ColumnTypeView)>,
    bytes: Seq<u8>,
    fields: Seq<(Seq<char>, Option<CqlValueView>)>,
    i: int,
) -> bool
    decreases fields, fields.len() - i,
{
    if i < 0 || i >= fields.len() {
        true
    } else {
        match lenient_split(bytes) {
            Some((item, rest)) => {
                &&& types[i].0 == fields[i].0
                &&& holds_option(types[i].1, item, fields[i].1)
                &&& holds_fields(types, rest, fields, i + 1)
            },
            None => false,
        }
    }
}

/// The bytes hold the elements of a tuple from the `i`-th on, each null where nothing is left.
pub open spec fn holds_tuple(
    types: Seq<ColumnTypeView>,
    bytes: Seq<u8>,
    items: Seq<Option<CqlValueView>>,
    i: int,
) -> bool
    decreases items, items.len() - i,
{
    if i < 0 || i >= items.len() {
        true
    } else {
        match lenient_split(bytes) {
            Some((item, rest)) => holds_option(types[i], item, items[i]) && holds_tuple(
                types,
                rest,
                items,
                i + 1,
            ),
            None => false,
        }
    }
}

/// The outcome of decoding, with the error as the conversion tells it.
pub open spec fn told<T>(r: Attempt<T, DeserializeError>) -> Attempt<T, CassErrorView> {
    match r {
        Attempt::Done(v) => Attempt::Done(v),
        Attempt::Failed(e) => Attempt::Failed(number_error(e)),
        Attempt::Refused => Attempt::Refused,
    }
}

/// Telling the outcome for a sequence is telling those for its first element and for the rest.
proof fn lemma_told_rest<T>(
    first: Attempt<T, DeserializeError>,
    rest: Attempt<Seq<T>, DeserializeError>,
)
    ensures
        told(and_rest(first, rest)) == and_rest(told(first), told(rest)),
{
}

/// A column that may be null decodes directly to what converting the value that it holds gives:
/// the same value, or the same error. Going through the CQL value makes no difference.
pub proof fn direct_decoding_agrees(
    typ: ColumnTypeView,
    bytes: Option<Seq<u8>>,
    value: Option<CqlValueView>,
)
    requires
        holds_option(typ, bytes, value),
    ensures
        converted_option(value) == number_outcome(decoded(typ, bytes)),
{
    match value {
        Some(value) => {
            lemma_agrees(typ, bytes->Some_0, value);
        },
        None => {},
    }
}

/// The same for a native type.
proof fn lemma_native_agrees(typ: NativeType, bytes: Seq<u8>, value: CqlValueView)
    requires
        holds_native(typ, bytes, value),
    ensures
        converted(value) == number_outcome(native_value(typ, bytes)),
{
    lemma_be_nat_bound(bytes);
    lemma_pow256();
}

/// The same for a column that is not null.
proof fn lemma_agrees(typ: ColumnTypeView, bytes: Seq<u8>, value: CqlValueView)
    requires
        holds(typ, bytes, value),
    ensures
        converted(value) == number_outcome(decoded(typ, Some(bytes))),
    decreases value, 0nat,
{
    if bytes.len() == 0 && !may_be_empty(typ) {
    } else {
        match typ {
            ColumnTypeView::Native(native) => {
                lemma_native_agrees(native, bytes, value);
            },
            ColumnTypeView::Collection { typ: collection, .. } => {
                let (count, rest) = int_split(bytes)->Some_0;
                match collection {
                    CollectionTypeView::ListOf(element) => {
                        lemma_items_agree(*element, rest, value->ListOf_0, 0);
                    },
                    CollectionTypeView::SetOf(element) => {
                        lemma_items_agree(*element, rest, value->SetOf_0, 0);
                    },
                    CollectionTypeView::MapOf(key, element) => {
                        lemma_pairs_agree(collection, rest, value->MapOf_0, 0);
                    },
                }
            },
            ColumnTypeView::Vector { typ: element, .. } => {
                lemma_vector_agrees(*element, bytes, value->Vector_0, 0);
            },
            ColumnTypeView::UserDefinedType { definition, .. } => {
                lemma_fields_agree(
                    definition.field_types,
                    bytes,
                    value->fields,
                    0,
                    Seq::empty(),
                );
            },
            ColumnTypeView::Tuple(types) => {
                lemma_tuple_agrees(types, bytes, value->Tuple_0, 0);
            },
        }
    }
}

/// The same for a column that may be null.
proof fn lemma_option_agrees(
    typ: ColumnTypeView,
    bytes: Option<Seq<u8>>,
    value: Option<CqlValueView>,
)
    requires
        holds_option(typ, bytes, value),
    ensures
        converted_option(value) == number_outcome(decoded(typ, bytes)),
    decreases value, 1nat,
{
    match value {
        Some(value) => {
            lemma_agrees(typ, bytes->Some_0, value);
        },
        None => {},
    }
}

/// The same for length-prefixed elements.
proof fn lemma_items_agree(
    element: ColumnTypeView,
    bytes: Seq<u8>,
    items: Seq<CqlValueView>,
    i: int,
)
    requires
        0 <= i <= items.len(),
        holds_items(element, bytes, items, i),
    ensures
        converted_items(items, i) == told(
            decoded_list(element, (items.len() - i) as nat, bytes),
        ),
    decreases items, items.len() - i,
{
    if i < items.len() {
        let (item, rest) = bytes_split(bytes)->Some_0;
        lemma_agrees(element, item->Some_0, items[i]);
        lemma_items_agree(element, rest, items, i + 1);
        lemma_told_rest(
            decoded(element, item),
            decoded_list(element, (items.len() - (i + 1)) as nat, rest),
        );
    }
}

/// The same for length-prefixed keys and values.
proof fn lemma_pairs_agree(
    collection: CollectionTypeView,
    bytes: Seq<u8>,
    items: Seq<(CqlValueView, CqlValueView)>,
    i: int,
)
    requires
        0 <= i <= items.len(),
        collection is MapOf,
        holds_pairs(*collection->MapOf_0, *collection->MapOf_1, bytes, items, i),
    ensures
        converted_pairs(items, i) == told(
            decoded_map(collection, (items.len() - i) as nat, bytes),
        ),
    decreases items, items.len() - i,
{
    if i < items.len() {
        let key = *collection->MapOf_0;
        let value = *collection->MapOf_1;
        let (first, after_key) = bytes_split(bytes)->Some_0;
        let (second, rest) = bytes_split(after_key)->Some_0;
        lemma_agrees(key, first->Some_0, items[i].0);
        lemma_agrees(value, second->Some_0, items[i].1);
        lemma_pairs_agree(collection, rest, items, i + 1);
        lemma_told_rest(
            super::deserialize::as_pair(decoded(key, first), decoded(value, second)),
            decoded_map(collection, (items.len() - (i + 1)) as nat, rest),
        );
    }
}

/// The same for the elements of a vector.
proof fn lemma_vector_agrees(
    element: ColumnTypeView,
    bytes: Seq<u8>,
    items: Seq<CqlValueView>,
    i: int,
)
    requires
        0 <= i <= items.len(),
        holds_vector(element, bytes, items, i),
    ensures
        converted_items(items, i) == told(
            decoded_vector(element, (items.len() - i) as nat, bytes),
        ),
    decreases items, items.len() - i,
{
    if i < items.len() {
        let (item, rest) = vector_split(element, bytes)->Some_0;
        lemma_agrees(element, item->Some_0, items[i]);
        lemma_vector_agrees(element, rest, items, i + 1);
        lemma_told_rest(
            decoded(element, item),
            decoded_vector(element, (items.len() - (i + 1)) as nat, rest),
        );
    }
}

/// The same for fields.
proof fn lemma_fields_agree(
    types: Seq<(Seq<char>, ColumnTypeView)>,
    bytes: Seq<u8>,
    fields: Seq<(Seq<char>, Option<CqlValueView>)>,
    i: int,
    entries: Seq<(Seq<char>, ValueView)>,
)
    requires
        0 <= i <= fields.len(),
        types.len() == fields.len(),
        holds_fields(types, bytes, fields, i),
    ensures
        converted_fields(fields, i, entries) == told(decoded_fields(types, i, bytes, entries)),
    decreases fields, fields.len() - i,
{
    if i < fields.len() {
        let (item, rest) = lenient_split(bytes)->Some_0;
        lemma_option_agrees(types[i].1, item, fields[i].1);
        match decoded(types[i].1, item) {
            Attempt::Done(value) => {
                lemma_fields_agree(
                    types,
                    rest,
                    fields,
                    i + 1,
                    put_entry(entries, fields[i].0, value),
                );
            },
            _ => {},
        }
    }
}

/// The same for the elements of a tuple.
proof fn lemma_tuple_agrees(
    types: Seq<ColumnTypeView>,
    bytes: Seq<u8>,
    items: Seq<Option<CqlValueView>>,
    i: int,
)
    requires
        0 <= i <= items.len(),
        types.len() == items.len(),
        holds_tuple(types, bytes, items, i),
    ensures
        converted_options(items, i) == told(decoded_tuple(types, i, bytes)),
    decreases items, items.len() - i,
{
    if i < items.len() {
        let (item, rest) = lenient_split(bytes)->Some_0;
        lemma_option_agrees(types[i], item, items[i]);
        lemma_tuple_agrees(types, rest, items, i + 1);
        lemma_told_rest(decoded(types[i], item), decoded_tuple(types, i + 1, rest));
    }
}

} // verus!
