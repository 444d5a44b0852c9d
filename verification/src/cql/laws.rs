//! What binding, conversion and decoding promise together.
use vstd::prelude::*;

use crate::attempt::{after, and_rest, Attempt};
use crate::decimal::{decimal_of_text, decimal_text, whole_decimal_is_plain};
use crate::text::int_text;
use crate::value::{distinct_names, find_entry, lemma_find_entry, lemma_find_entry_unique};
use crate::value::{put_entry, ValueView};
use super::bind::{all_bytes, bound, bound_columns, bound_decimal, bound_fields, bound_in_order};
use super::bind::{bound_items, bound_pairs, bound_params, bytes_of};
use super::cass_error::CassErrorView;
use super::column::{CollectionTypeView, ColumnSpecView, ColumnTypeView, NativeType};
use super::convert::{as_pair, as_vec, converted, converted_fields, converted_items};
use super::convert::{converted_option, converted_pairs};
use super::cql_value::CqlValueView;
use super::deserialize::{byte_values, kept_mantissa};
use super::wire::{lemma_pow256, lemma_twos_complement, lemma_twos_complement_end};
use super::wire::twos_complement;

verus! {

/// The bounds of a native integer type.
pub open spec fn integer_fits(i: i64, typ: NativeType) -> bool {
    match typ {
        NativeType::TinyInt => -0x80 <= i <= 0x7f,
        NativeType::SmallInt => -0x8000 <= i <= 0x7fff,
        NativeType::Int => -0x8000_0000 <= i <= 0x7fff_ffff,
        NativeType::BigInt | NativeType::Timestamp => true,
        _ => false,
    }
}

/// A column of the type holds the value as it is.
pub open spec fn fits(value: ValueView, typ: ColumnTypeView) -> bool
    decreases value,
{
    match value {
        ValueView::Bool(_) => typ == ColumnTypeView::Native(NativeType::Boolean),
        ValueView::Integer(i) => typ matches ColumnTypeView::Native(native) && integer_fits(
            i,
            native,
        ),
        ValueView::Float(_) => typ == ColumnTypeView::Native(NativeType::Double),
        ValueView::String(_) => typ == ColumnTypeView::Native(NativeType::Text) || typ
            == ColumnTypeView::Native(NativeType::Ascii),
        ValueView::Option(None) => true,
        ValueView::Vec(items) => match typ {
            ColumnTypeView::Native(NativeType::Blob) => all_bytes(items),
            ColumnTypeView::Collection {
                frozen: false,
                typ: CollectionTypeView::ListOf(element),
            } => forall|i: int| 0 <= i < items.len() ==> fits(#[trigger] items[i], *element),
            ColumnTypeView::Collection {
                frozen: false,
                typ: CollectionTypeView::SetOf(element),
            } => forall|i: int| 0 <= i < items.len() ==> fits(#[trigger] items[i], *element),
            ColumnTypeView::Collection {
                frozen: false,
                typ: CollectionTypeView::MapOf(key, value),
            } => forall|i: int|
                0 <= i < items.len() ==> match #[trigger] items[i] {
                    ValueView::Tuple(parts) => parts.len() == 2 && fits(parts[0], *key) && fits(
                        parts[1],
                        *value,
                    ),
                    _ => false,
                },
            _ => false,
        },
        ValueView::Object(entries) => match typ {
            ColumnTypeView::UserDefinedType { frozen: false, definition } => {
                &&& entries.len() == definition.field_types.len()
                &&& distinct_names(entries)
                &&& forall|i: int|
                    0 <= i < entries.len() ==> (#[trigger] entries[i]).0
                        == definition.field_types[i].0 && fits(
                        entries[i].1,
                        definition.field_types[i].1,
                    )
            },
            _ => false,
        },
        _ => false,
    }
}

/// A value that a column holds as it is can be bound to the column, and what was bound converts
/// back to the value.
pub proof fn bound_values_read_back(value: ValueView, typ: ColumnTypeView)
    requires
        fits(value, typ),
    ensures
        bound(value, typ) matches Attempt::Done(cql) && converted(cql) == Attempt::<
            ValueView,
            CassErrorView,
        >::Done(value),
    decreases value, 0nat,
{
    match value {
        ValueView::Vec(items) => match typ {
            ColumnTypeView::Native(NativeType::Blob) => {
                assert(byte_values(bytes_of(items)) =~= items);
            },
            ColumnTypeView::Collection {
                frozen: false,
                typ: CollectionTypeView::ListOf(element),
            } => {
                lemma_items_read_back(items, 0, *element);
                let cql = bound_items(items, 0, *element)->Done_0;
                assert(items.skip(0) =~= items);
                assert(converted(CqlValueView::ListOf(cql)) == as_vec(converted_items(cql, 0)));
            },
            ColumnTypeView::Collection {
                frozen: false,
                typ: CollectionTypeView::SetOf(element),
            } => {
                lemma_items_read_back(items, 0, *element);
                let cql = bound_items(items, 0, *element)->Done_0;
                assert(items.skip(0) =~= items);
                assert(converted(CqlValueView::SetOf(cql)) == as_vec(converted_items(cql, 0)));
            },
            ColumnTypeView::Collection {
                frozen: false,
                typ: CollectionTypeView::MapOf(key, value_type),
            } => {
                lemma_pairs_read_back(items, 0, *key, *value_type);
                let cql = bound_pairs(items, 0, *key, *value_type)->Done_0;
                assert(items.skip(0) =~= items);
                assert(converted(CqlValueView::MapOf(cql)) == as_vec(converted_pairs(cql, 0)));
            },
            _ => {},
        },
        ValueView::Object(entries) => match typ {
            ColumnTypeView::UserDefinedType { frozen: false, definition } => {
                lemma_fields_read_back(entries, 0, definition.field_types);
                let fields = bound_fields(definition.field_types, 0, entries)->Done_0;
                lemma_fields_convert(fields, 0, entries);
                assert(converted_fields(fields, 0, Seq::empty()) == Attempt::<
                    Seq<(Seq<char>, ValueView)>,
                    CassErrorView,
                >::Done(entries)) by {
                    assert(entries.take(0) =~= Seq::empty());
                }
            },
            _ => {},
        },
        _ => {},
    }
}

/// The elements from the `i`-th on read back.
proof fn lemma_items_read_back(items: Seq<ValueView>, i: int, element: ColumnTypeView)
    requires
        0 <= i <= items.len(),
        forall|k: int| 0 <= k < items.len() ==> fits(#[trigger] items[k], element),
    ensures
        bound_items(items, i, element) matches Attempt::Done(cql) && converted_items(cql, 0)
            == Attempt::<Seq<ValueView>, CassErrorView>::Done(items.skip(i)),
    decreases items, items.len() - i,
{
    if i < items.len() {
        bound_values_read_back(items[i], element);
        lemma_items_read_back(items, i + 1, element);
        let first = bound(items[i], element)->Done_0;
        let rest = bound_items(items, i + 1, element)->Done_0;
        let all = seq![first] + rest;
        assert(bound_items(items, i, element) == Attempt::<Seq<CqlValueView>, CassErrorView>::Done(
            all,
        ));
        lemma_converted_items_shift(first, rest, 0);
        assert(all[0] == first);
        assert(converted_items(all, 0) == and_rest(converted(first), converted_items(all, 1)));
        assert(seq![items[i]] + items.skip(i + 1) =~= items.skip(i));
    } else {
        assert(items.skip(i) =~= Seq::empty());
    }
}

/// Converting after the first element is converting the rest.
proof fn lemma_converted_items_shift(first: CqlValueView, rest: Seq<CqlValueView>, i: int)
    requires
        0 <= i <= rest.len(),
    ensures
        converted_items(seq![first] + rest, i + 1) == converted_items(rest, i),
    decreases rest.len() - i,
{
    let all = seq![first] + rest;
    if i < rest.len() {
        lemma_converted_items_shift(first, rest, i + 1);
        assert(all[i + 1] == rest[i]);
    }
}

/// The pairs from the `i`-th on read back.
proof fn lemma_pairs_read_back(
    items: Seq<ValueView>,
    i: int,
    key: ColumnTypeView,
    value: ColumnTypeView,
)
    requires
        0 <= i <= items.len(),
        forall|k: int|
            0 <= k < items.len() ==> match #[trigger] items[k] {
                ValueView::Tuple(parts) => parts.len() == 2 && fits(parts[0], key) && fits(
                    parts[1],
                    value,
                ),
                _ => false,
            },
    ensures
        bound_pairs(items, i, key, value) matches Attempt::Done(cql) && converted_pairs(cql, 0)
            == Attempt::<Seq<ValueView>, CassErrorView>::Done(items.skip(i)),
    decreases items, items.len() - i,
{
    if i < items.len() {
        let parts = items[i]->Tuple_0;
        assert(items[i] is Tuple);
        assert(decreases_to!(items => items[i]));
        assert(decreases_to!(items[i] => items[i]->Tuple_0));
        assert(decreases_to!(parts => parts[0]));
        assert(decreases_to!(parts => parts[1]));
        bound_values_read_back(parts[0], key);
        bound_values_read_back(parts[1], value);
        lemma_pairs_read_back(items, i + 1, key, value);
        let first = (bound(parts[0], key)->Done_0, bound(parts[1], value)->Done_0);
        let rest = bound_pairs(items, i + 1, key, value)->Done_0;
        let all = seq![first] + rest;
        assert(bound_pairs(items, i, key, value) == Attempt::<
            Seq<(CqlValueView, CqlValueView)>,
            CassErrorView,
        >::Done(all));
        lemma_converted_pairs_shift(first, rest, 0);
        assert(all[0] == first);
        assert(converted_pairs(all, 0) == and_rest(
            as_pair(converted(first.0), converted(first.1)),
            converted_pairs(all, 1),
        ));
        assert(seq![parts[0], parts[1]] =~= parts);
        assert(seq![items[i]] + items.skip(i + 1) =~= items.skip(i));
    } else {
        assert(items.skip(i) =~= Seq::empty());
    }
}

/// Converting after the first pair is converting the rest.
proof fn lemma_converted_pairs_shift(
    first: (CqlValueView, CqlValueView),
    rest: Seq<(CqlValueView, CqlValueView)>,
    i: int,
)
    requires
        0 <= i <= rest.len(),
    ensures
        converted_pairs(seq![first] + rest, i + 1) == converted_pairs(rest, i),
    decreases rest.len() - i,
{
    let all = seq![first] + rest;
    if i < rest.len() {
        lemma_converted_pairs_shift(first, rest, i + 1);
        assert(all[i + 1] == rest[i]);
    }
}

/// A field holds a value that converts to the entry of the same name.
spec fn field_reads_back(
    field: (Seq<char>, Option<CqlValueView>),
    entry: (Seq<char>, ValueView),
) -> bool {
    field.0 == entry.0 && (match field.1 {
        Some(cql) => converted(cql) == Attempt::<ValueView, CassErrorView>::Done(entry.1),
        None => false,
    })
}

/// The fields from the `i`-th on are bound under their names, each to what reads back as its
/// entry.
proof fn lemma_fields_read_back(
    entries: Seq<(Seq<char>, ValueView)>,
    i: int,
    fields: Seq<(Seq<char>, ColumnTypeView)>,
)
    requires
        0 <= i <= fields.len(),
        entries.len() == fields.len(),
        distinct_names(entries),
        forall|k: int|
            0 <= k < entries.len() ==> (#[trigger] entries[k]).0 == fields[k].0 && fits(
                entries[k].1,
                fields[k].1,
            ),
    ensures
        bound_fields(fields, i, entries) matches Attempt::Done(values) && values.len()
            == fields.len() - i && forall|k: int|
            0 <= k < values.len() ==> field_reads_back(#[trigger] values[k], entries[i + k]),
    decreases entries, fields.len() - i,
{
    if i < fields.len() {
        lemma_find_entry_unique(entries, fields[i].0, i);
        assert(decreases_to!(entries => entries[i]));
        assert(decreases_to!(entries[i] => entries[i].1));
        bound_values_read_back(entries[i].1, fields[i].1);
        lemma_fields_read_back(entries, i + 1, fields);
        let value = bound(entries[i].1, fields[i].1)->Done_0;
        let first = (fields[i].0, Some(value));
        let rest = bound_fields(fields, i + 1, entries)->Done_0;
        let all = seq![first] + rest;
        assert(bound_fields(fields, i, entries) == Attempt::<
            Seq<(Seq<char>, Option<CqlValueView>)>,
            CassErrorView,
        >::Done(all));
        assert forall|k: int| 0 <= k < all.len() implies field_reads_back(
            #[trigger] all[k],
            entries[i + k],
        ) by {
            if k > 0 {
                assert(all[k] == rest[k - 1]);
            }
        }
    }
}

/// Fields that read back as the entries convert to them.
proof fn lemma_fields_convert(
    fields: Seq<(Seq<char>, Option<CqlValueView>)>,
    i: int,
    entries: Seq<(Seq<char>, ValueView)>,
)
    requires
        0 <= i <= fields.len(),
        entries.len() == fields.len(),
        distinct_names(entries),
        forall|k: int|
            0 <= k < fields.len() ==> field_reads_back(#[trigger] fields[k], entries[k]),
    ensures
        converted_fields(fields, i, entries.take(i)) == Attempt::<
            Seq<(Seq<char>, ValueView)>,
            CassErrorView,
        >::Done(entries),
    decreases fields.len() - i,
{
    if i < fields.len() {
        lemma_fields_convert(fields, i + 1, entries);
        assert(converted_option(fields[i].1) == Attempt::<ValueView, CassErrorView>::Done(
            entries[i].1,
        ));
        lemma_find_entry(entries.take(i), entries[i].0);
        match find_entry(entries.take(i), entries[i].0) {
            Some(at) => {
                assert(entries.take(i)[at] == entries[at]);
            },
            None => {},
        }
        assert(put_entry(entries.take(i), entries[i].0, entries[i].1) =~= entries.take(i + 1));
    } else {
        assert(entries.take(i) =~= entries);
    }
}

/// An integer that is bound to a `decimal` column converts back to its numeral.
pub proof fn bound_integers_read_back_as_decimals(i: i64)
    ensures
        bound(ValueView::Integer(i), ColumnTypeView::Native(NativeType::Decimal)) matches Attempt::Done(
            cql,
        ) && converted(cql) == Attempt::<ValueView, CassErrorView>::Done(
            ValueView::String(int_text(i as int)),
        ),
{
    lemma_pow256();
    lemma_twos_complement(i as int, 8);
    let mantissa = twos_complement(i as int, 8);
    assert(mantissa.skip(0) =~= mantissa);
    assert(kept_mantissa(mantissa) == i);
    whole_decimal_is_plain(i as int);
}

/// A decimal number that is bound to a `decimal` column converts back to how it is written, for
/// every mantissa of 64 bits and every scale that can be written; and so does every text that
/// denotes such a number.
pub proof fn bound_decimals_read_back(text: Seq<char>, mantissa: i128, scale: u32)
    requires
        i64::MIN <= mantissa <= i64::MAX,
        scale <= 28,
    ensures
        bound_decimal(Some((mantissa, scale))) matches Attempt::Done(cql) && converted(cql)
            == Attempt::<ValueView, CassErrorView>::Done(
            ValueView::String(decimal_text(mantissa as int, scale as nat)),
        ),
        decimal_of_text(text) == Some((mantissa, scale)) ==> bound(
            ValueView::String(text),
            ColumnTypeView::Native(NativeType::Decimal),
        ) == bound_decimal(Some((mantissa, scale))),
{
    let bytes = twos_complement(mantissa as int, 16);
    lemma_pow256();
    lemma_twos_complement_end(mantissa as int);
    lemma_twos_complement(mantissa as int, 8);
    assert(kept_mantissa(bytes) == mantissa);
}

/// A value that is present is bound as itself, and one that is not as the empty value, whatever
/// the type of the column.
pub proof fn options_are_transparent(value: ValueView, typ: ColumnTypeView)
    ensures
        bound(ValueView::Option(Some(Box::new(value))), typ) == bound(value, typ),
        bound(ValueView::Option(None), typ) == Attempt::<CqlValueView, CassErrorView>::Done(
            CqlValueView::Empty,
        ),
{
}

/// The values under the names of the columns, in their order.
pub open spec fn named(specs: Seq<ColumnSpecView>, items: Seq<ValueView>) -> Seq<
    (Seq<char>, ValueView),
> {
    Seq::new(specs.len(), |i: int| (specs[i].name, items[i]))
}

/// Parameters can be passed by name or by place: an object binds like the tuple of its values in
/// the order of the columns.
pub proof fn names_bind_like_places(specs: Seq<ColumnSpecView>, items: Seq<ValueView>)
    requires
        items.len() == specs.len(),
        distinct_names(named(specs, items)),
    ensures
        bound_params(ValueView::Object(named(specs, items)), specs) == bound_params(
            ValueView::Tuple(items),
            specs,
        ),
        bound_params(ValueView::Struct(named(specs, items)), specs) == bound_params(
            ValueView::Tuple(items),
            specs,
        ),
        bound_params(ValueView::Vec(items), specs) == bound_params(ValueView::Tuple(items), specs),
{
    lemma_names_bind_like_places(specs, items, 0);
}

/// The same from the `i`-th column on.
proof fn lemma_names_bind_like_places(specs: Seq<ColumnSpecView>, items: Seq<ValueView>, i: int)
    requires
        0 <= i <= specs.len(),
        items.len() == specs.len(),
        distinct_names(named(specs, items)),
    ensures
        bound_columns(specs, i, named(specs, items)) == bound_in_order(items, specs, i),
    decreases specs.len() - i,
{
    if i < specs.len() {
        lemma_names_bind_like_places(specs, items, i + 1);
        assert(named(specs, items)[i].0 == specs[i].name);
        lemma_find_entry_unique(named(specs, items), specs[i].name, i);
    }
}

/// Parameters that are passed by name bind every column.
pub proof fn every_column_is_bound(
    specs: Seq<ColumnSpecView>,
    entries: Seq<(Seq<char>, ValueView)>,
)
    ensures
        bound_params(ValueView::Object(entries), specs) matches Attempt::Done(values)
            ==> values.len() == specs.len(),
{
    lemma_every_column_is_bound(specs, 0, entries);
}

/// The same from the `i`-th column on.
proof fn lemma_every_column_is_bound(
    specs: Seq<ColumnSpecView>,
    i: int,
    entries: Seq<(Seq<char>, ValueView)>,
)
    requires
        0 <= i <= specs.len(),
    ensures
        bound_columns(specs, i, entries) matches Attempt::Done(values) ==> values.len()
            == specs.len() - i,
    decreases specs.len() - i,
{
    if i < specs.len() {
        lemma_every_column_is_bound(specs, i + 1, entries);
    }
}

/// A column without an entry of its name gets the empty value.
pub proof fn missing_params_are_empty(
    specs: Seq<ColumnSpecView>,
    entries: Seq<(Seq<char>, ValueView)>,
    at: int,
)
    requires
        0 <= at < specs.len(),
        forall|k: int| 0 <= k < entries.len() ==> (#[trigger] entries[k]).0 != specs[at].name,
    ensures
        bound_params(ValueView::Object(entries), specs) matches Attempt::Done(values)
            ==> values.len() == specs.len() && values[at] == CqlValueView::Empty,
{
    lemma_every_column_is_bound(specs, 0, entries);
    lemma_missing_params_are_empty(specs, 0, entries, at);
}

/// The same from the `i`-th column on.
proof fn lemma_missing_params_are_empty(
    specs: Seq<ColumnSpecView>,
    i: int,
    entries: Seq<(Seq<char>, ValueView)>,
    at: int,
)
    requires
        0 <= i <= at < specs.len(),
        forall|k: int| 0 <= k < entries.len() ==> (#[trigger] entries[k]).0 != specs[at].name,
    ensures
        bound_columns(specs, i, entries) matches Attempt::Done(values) ==> values.len()
            == specs.len() - i && values[at - i] == CqlValueView::Empty,
    decreases specs.len() - i,
{
    lemma_every_column_is_bound(specs, i, entries);
    lemma_find_entry(entries, specs[i].name);
    if i < at {
        lemma_missing_params_are_empty(specs, i + 1, entries, at);
    }
}

} // verus!
