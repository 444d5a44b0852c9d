//! What collections, user-defined values and parameters bind to and convert to, part by part.
use vstd::prelude::*;

use crate::attempt::{all_done_before, comes_of_each, lemma_comes_of_first, Attempt};
use crate::value::{entries_of_each, find_entry, has_name, is_object_of, lemma_find_entry};
use crate::value::{lemma_object_of_nothing, lemma_object_step, object_of_each, paired, put_entry};
use crate::value::{results_of, vec_of_each, ValueView};
use super::bind::{bound, bound_columns, bound_entries, bound_fields, bound_in_order, bound_items};
use super::bind::{bound_pairs, bound_params};
use super::cass_error::{CassErrorView, ConversionTargetView};
use super::column::{CollectionTypeView, ColumnSpecView, ColumnTypeView, UserDefinedTypeView};
use super::convert::{converted, converted_fields, converted_items, converted_options};
use super::convert::converted_pairs;
use super::cql_value::CqlValueView;
use super::natives::{Bound, Converted};

verus! {

/// A column of lists of the type.
pub open spec fn list_of(element: ColumnTypeView) -> ColumnTypeView {
    ColumnTypeView::Collection { frozen: false, typ: CollectionTypeView::ListOf(Box::new(element)) }
}

/// A column of sets of the type.
pub open spec fn set_of(element: ColumnTypeView) -> ColumnTypeView {
    ColumnTypeView::Collection { frozen: false, typ: CollectionTypeView::SetOf(Box::new(element)) }
}

/// A column of maps between the types.
pub open spec fn map_of(key: ColumnTypeView, value: ColumnTypeView) -> ColumnTypeView {
    ColumnTypeView::Collection {
        frozen: false,
        typ: CollectionTypeView::MapOf(Box::new(key), Box::new(value)),
    }
}

/// What each element binds to.
pub open spec fn bound_each(items: Seq<ValueView>, element: ColumnTypeView) -> Seq<Bound> {
    Seq::new(items.len(), |k: int| bound(items[k], element))
}

/// The elements of a bound list or set, or why there are none.
pub open spec fn elements(whole: Bound) -> Attempt<Seq<CqlValueView>, CassErrorView> {
    match whole {
        Attempt::Done(CqlValueView::ListOf(items)) => Attempt::Done(items),
        Attempt::Done(CqlValueView::SetOf(items)) => Attempt::Done(items),
        Attempt::Failed(e) => Attempt::Failed(e),
        _ => Attempt::Refused,
    }
}

/// A vector binds to a list and to a set element by element, in order, each to the type of the
/// elements.
pub proof fn lists_bind_element_by_element(items: Seq<ValueView>, element: ColumnTypeView)
    ensures
        ({
            let list = bound(ValueView::Vec(items), list_of(element));
            let set = bound(ValueView::Vec(items), set_of(element));
            &&& comes_of_each(bound_each(items, element), elements(list))
            &&& comes_of_each(bound_each(items, element), elements(set))
            &&& list matches Attempt::Done(value) ==> value is ListOf
            &&& set matches Attempt::Done(value) ==> value is SetOf
        }),
{
    lemma_bound_items(items, 0, element);
    assert(bound_each(items, element).skip(0) =~= bound_each(items, element));
}

/// The same from the `i`-th element on.
proof fn lemma_bound_items(items: Seq<ValueView>, i: int, element: ColumnTypeView)
    requires
        0 <= i <= items.len(),
    ensures
        comes_of_each(bound_each(items, element).skip(i), bound_items(items, i, element)),
    decreases items.len() - i,
{
    let each = bound_each(items, element);
    if i < items.len() {
        lemma_bound_items(items, i + 1, element);
        lemma_comes_of_first(each[i], each.skip(i + 1), bound_items(items, i + 1, element));
        assert(seq![each[i]] + each.skip(i + 1) =~= each.skip(i));
    }
}

/// A bound key with its bound value, where both are there; else what the first that is missing
/// gave.
pub open spec fn entry_of(key: Bound, value: Bound) -> Attempt<
    (CqlValueView, CqlValueView),
    CassErrorView,
> {
    if key is Done && value is Done {
        Attempt::Done((key->Done_0, value->Done_0))
    } else {
        match (if key is Done {
            value
        } else {
            key
        }) {
            Attempt::Failed(e) => Attempt::Failed(e),
            _ => Attempt::Refused,
        }
    }
}

/// What each pair binds to. Whatever is no pair is reported.
pub open spec fn bound_each_pair(
    items: Seq<ValueView>,
    key: ColumnTypeView,
    value: ColumnTypeView,
) -> Seq<Attempt<(CqlValueView, CqlValueView), CassErrorView>> {
    Seq::new(
        items.len(),
        |k: int|
            if items[k] is Tuple && items[k]->Tuple_0.len() == 2 {
                entry_of(bound(items[k]->Tuple_0[0], key), bound(items[k]->Tuple_0[1], value))
            } else {
                Attempt::Failed(
                    CassErrorView::QueryParamConversion(
                        items[k],
                        ConversionTargetView::Named("CollectionType::Map"@),
                        None,
                    ),
                )
            },
    )
}

/// The entries of a bound map, or why there are none.
pub open spec fn entries_bound(whole: Bound) -> Attempt<
    Seq<(CqlValueView, CqlValueView)>,
    CassErrorView,
> {
    match whole {
        Attempt::Done(CqlValueView::MapOf(items)) => Attempt::Done(items),
        Attempt::Failed(e) => Attempt::Failed(e),
        _ => Attempt::Refused,
    }
}

/// A vector of pairs binds to a map entry by entry, in order: the first part of each pair to the
/// type of the keys, and the second to the type of the values.
pub proof fn maps_bind_pair_by_pair(
    items: Seq<ValueView>,
    key: ColumnTypeView,
    value: ColumnTypeView,
)
    ensures
        comes_of_each(
            bound_each_pair(items, key, value),
            entries_bound(bound(ValueView::Vec(items), map_of(key, value))),
        ),
        bound(ValueView::Vec(items), map_of(key, value)) matches Attempt::Done(map) ==> map
            is MapOf,
{
    lemma_bound_pairs(items, 0, key, value);
    assert(bound_each_pair(items, key, value).skip(0) =~= bound_each_pair(items, key, value));
}

/// The same from the `i`-th pair on.
proof fn lemma_bound_pairs(
    items: Seq<ValueView>,
    i: int,
    key: ColumnTypeView,
    value: ColumnTypeView,
)
    requires
        0 <= i <= items.len(),
    ensures
        comes_of_each(
            bound_each_pair(items, key, value).skip(i),
            bound_pairs(items, i, key, value),
        ),
    decreases items.len() - i,
{
    let each = bound_each_pair(items, key, value);
    if i < items.len() {
        lemma_bound_pairs(items, i + 1, key, value);
        lemma_comes_of_first(each[i], each.skip(i + 1), bound_pairs(items, i + 1, key, value));
        assert(seq![each[i]] + each.skip(i + 1) =~= each.skip(i));
    }
}

/// The entries of an object as pairs of a name and a value.
pub open spec fn as_pairs(entries: Seq<(Seq<char>, ValueView)>) -> Seq<ValueView> {
    Seq::new(
        entries.len(),
        |k: int| ValueView::Tuple(seq![ValueView::String(entries[k].0), entries[k].1]),
    )
}

/// An object binds to a map like the vector of its names and values: every name keeps its own
/// value.
pub proof fn objects_bind_like_their_pairs(
    entries: Seq<(Seq<char>, ValueView)>,
    key: ColumnTypeView,
    value: ColumnTypeView,
)
    ensures
        bound(ValueView::Object(entries), map_of(key, value)) == bound(
            ValueView::Vec(as_pairs(entries)),
            map_of(key, value),
        ),
{
    lemma_entries_bind_like_pairs(entries, 0, key, value);
}

/// The same from the `i`-th entry on.
proof fn lemma_entries_bind_like_pairs(
    entries: Seq<(Seq<char>, ValueView)>,
    i: int,
    key: ColumnTypeView,
    value: ColumnTypeView,
)
    requires
        0 <= i <= entries.len(),
    ensures
        bound_entries(entries, i, key, value) == bound_pairs(as_pairs(entries), i, key, value),
    decreases entries.len() - i,
{
    if i < entries.len() {
        lemma_entries_bind_like_pairs(entries, i + 1, key, value);
        let parts = seq![ValueView::String(entries[i].0), entries[i].1];
        assert(as_pairs(entries)[i] == ValueView::Tuple(parts));
        assert(parts[0] == ValueView::String(entries[i].0));
        assert(parts[1] == entries[i].1);
        assert(parts.len() == 2);
        assert(bound(parts[0], key) == super::bind::bound_text(entries[i].0, key));
        let first = super::bind::as_entry(bound(parts[0], key), bound(parts[1], value));
        assert(bound_entries(entries, i, key, value) == crate::attempt::and_rest(
            first,
            bound_entries(entries, i + 1, key, value),
        ));
        assert(bound_pairs(as_pairs(entries), i, key, value) == crate::attempt::and_rest(
            first,
            bound_pairs(as_pairs(entries), i + 1, key, value),
        ));
    }
}

/// The fields of a type for which an object has an entry.
pub open spec fn fields_given(
    fields: Seq<(Seq<char>, ColumnTypeView)>,
    entries: Seq<(Seq<char>, ValueView)>,
) -> Seq<(Seq<char>, ColumnTypeView)> {
    fields.filter(|field: (Seq<char>, ColumnTypeView)| has_name(entries, field.0))
}

/// The value of the first entry of a name.
pub open spec fn value_under(entries: Seq<(Seq<char>, ValueView)>, name: Seq<char>) -> ValueView {
    entries[choose|e: int|
        0 <= e < entries.len() && (#[trigger] entries[e]).0 == name && forall|j: int|
            0 <= j < e ==> (#[trigger] entries[j]).0 != name].1
}

/// `find_entry` leads to the value of the first entry of a name, if there is one.
proof fn lemma_value_under(entries: Seq<(Seq<char>, ValueView)>, name: Seq<char>)
    ensures
        has_name(entries, name) == (find_entry(entries, name) is Some),
        find_entry(entries, name) matches Some(at) ==> 0 <= at < entries.len() && entries[at].1
            == value_under(entries, name),
{
    lemma_find_entry(entries, name);
    match find_entry(entries, name) {
        Some(at) => {
            assert(entries[at].0 == name);
            let e = choose|e: int|
                0 <= e < entries.len() && (#[trigger] entries[e]).0 == name && forall|j: int|
                    0 <= j < e ==> (#[trigger] entries[j]).0 != name;
            assert(entries[e].0 == name);
            if e < at {
                assert(entries[e].0 != name);
            } else if at < e {
                assert(entries[at].0 != name);
            }
        },
        None => {},
    }
}

/// What each field binds to that is given.
pub open spec fn bound_each_field(
    fields: Seq<(Seq<char>, ColumnTypeView)>,
    entries: Seq<(Seq<char>, ValueView)>,
) -> Seq<Attempt<(Seq<char>, Option<CqlValueView>), CassErrorView>> {
    Seq::new(
        fields.len(),
        |k: int|
            match bound(value_under(entries, fields[k].0), fields[k].1) {
                Attempt::Done(value) => Attempt::Done((fields[k].0, Some(value))),
                Attempt::Failed(e) => Attempt::Failed(e),
                Attempt::Refused => Attempt::Refused,
            },
    )
}

/// The fields of a bound user-defined value, or why there are none.
pub open spec fn fields_bound(whole: Bound) -> Attempt<
    Seq<(Seq<char>, Option<CqlValueView>)>,
    CassErrorView,
> {
    match whole {
        Attempt::Done(CqlValueView::UserDefinedType { fields, .. }) => Attempt::Done(fields),
        Attempt::Failed(e) => Attempt::Failed(e),
        _ => Attempt::Refused,
    }
}

/// An object binds to a user-defined type field by field, in the order of the type: each entry to
/// the type of the field of its name. Fields without an entry are left out. A struct binds like an
/// object.
pub proof fn objects_bind_field_by_field(
    entries: Seq<(Seq<char>, ValueView)>,
    definition: UserDefinedTypeView,
)
    ensures
        ({
            let typ = ColumnTypeView::UserDefinedType { frozen: false, definition };
            let whole = bound(ValueView::Object(entries), typ);
            &&& comes_of_each(
                bound_each_field(fields_given(definition.field_types, entries), entries),
                fields_bound(whole),
            )
            &&& whole matches Attempt::Done(value) ==> (value matches CqlValueView::UserDefinedType {
                keyspace,
                name,
                ..
            } && keyspace == definition.keyspace && name == definition.name)
            &&& bound(ValueView::Struct(entries), typ) == whole
        }),
{
    let fields = definition.field_types;
    assert(fields.skip(0) =~= fields);
    lemma_bound_fields(fields, 0, entries);
}

/// The fields that are given, with one more field in front.
proof fn lemma_fields_given(
    fields: Seq<(Seq<char>, ColumnTypeView)>,
    i: int,
    entries: Seq<(Seq<char>, ValueView)>,
)
    requires
        0 <= i <= fields.len(),
    ensures
        fields_given(fields.skip(i), entries) == (if i == fields.len() {
            Seq::empty()
        } else if has_name(entries, fields[i].0) {
            seq![fields[i]] + fields_given(fields.skip(i + 1), entries)
        } else {
            fields_given(fields.skip(i + 1), entries)
        }),
{
    let given = |field: (Seq<char>, ColumnTypeView)| has_name(entries, field.0);
    reveal(Seq::filter);
    assert(Seq::<(Seq<char>, ColumnTypeView)>::empty().filter(given) =~= Seq::empty());
    if i < fields.len() {
        let first = seq![fields[i]];
        let rest = fields.skip(i + 1);
        assert(fields.skip(i) =~= first + rest);
        Seq::filter_distributes_over_add(first, rest, given);
        assert(first.drop_last() =~= Seq::empty());
        assert(first.last() == fields[i]);
        assert(first.filter(given) =~= (if given(fields[i]) {
            first
        } else {
            Seq::empty()
        }));
        assert(Seq::<(Seq<char>, ColumnTypeView)>::empty() + rest.filter(given) =~= rest.filter(
            given,
        ));
    } else {
        assert(fields.skip(i) =~= Seq::empty());
    }
}

/// What one field binds to.
spec fn field_bound(
    field: (Seq<char>, ColumnTypeView),
    value: ValueView,
) -> Attempt<(Seq<char>, Option<CqlValueView>), CassErrorView> {
    match bound(value, field.1) {
        Attempt::Done(value) => Attempt::Done((field.0, Some(value))),
        Attempt::Failed(e) => Attempt::Failed(e),
        Attempt::Refused => Attempt::Refused,
    }
}

/// The first of the fields from the `i`-th on.
proof fn lemma_first_field(
    fields: Seq<(Seq<char>, ColumnTypeView)>,
    i: int,
    entries: Seq<(Seq<char>, ValueView)>,
)
    requires
        0 <= i < fields.len(),
    ensures
        bound_fields(fields, i, entries) == (if has_name(entries, fields[i].0) {
            crate::attempt::and_rest(
                field_bound(fields[i], value_under(entries, fields[i].0)),
                bound_fields(fields, i + 1, entries),
            )
        } else {
            bound_fields(fields, i + 1, entries)
        }),
{
    lemma_value_under(entries, fields[i].0);
}

/// What the fields bind to that are given, with one more field in front.
proof fn lemma_first_field_given(
    field: (Seq<char>, ColumnTypeView),
    later: Seq<(Seq<char>, ColumnTypeView)>,
    entries: Seq<(Seq<char>, ValueView)>,
)
    ensures
        bound_each_field(seq![field] + later, entries) == seq![
            field_bound(field, value_under(entries, field.0)),
        ] + bound_each_field(later, entries),
{
    let all = seq![field] + later;
    let left = bound_each_field(all, entries);
    let right = seq![field_bound(field, value_under(entries, field.0))] + bound_each_field(
        later,
        entries,
    );
    assert forall|k: int| 0 <= k < left.len() implies left[k] == right[k] by {
        if k > 0 {
            assert(all[k] == later[k - 1]);
            assert(right[k] == bound_each_field(later, entries)[k - 1]);
        } else {
            assert(all[0] == field);
        }
    }
    assert(left =~= right);
}

/// The same from the `i`-th field on.
#[verifier::spinoff_prover]
#[verifier::rlimit(40)]
proof fn lemma_bound_fields(
    fields: Seq<(Seq<char>, ColumnTypeView)>,
    i: int,
    entries: Seq<(Seq<char>, ValueView)>,
)
    requires
        0 <= i <= fields.len(),
    ensures
        comes_of_each(
            bound_each_field(fields_given(fields.skip(i), entries), entries),
            bound_fields(fields, i, entries),
        ),
    decreases fields.len() - i,
{
    lemma_fields_given(fields, i, entries);
    if i < fields.len() {
        let later = fields_given(fields.skip(i + 1), entries);
        lemma_bound_fields(fields, i + 1, entries);
        lemma_first_field(fields, i, entries);
        if has_name(entries, fields[i].0) {
            lemma_first_field_given(fields[i], later, entries);
            lemma_comes_of_first(
                field_bound(fields[i], value_under(entries, fields[i].0)),
                bound_each_field(later, entries),
                bound_fields(fields, i + 1, entries),
            );
        }
    } else {
        assert(bound_each_field(Seq::empty(), entries) =~= Seq::empty());
    }
}

/// What each value binds to in the column of its place.
pub open spec fn bound_each_place(items: Seq<ValueView>, specs: Seq<ColumnSpecView>) -> Seq<Bound> {
    Seq::new(
        if items.len() < specs.len() {
            items.len()
        } else {
            specs.len()
        },
        |k: int| bound(items[k], specs[k].typ),
    )
}

/// What each column gets under its name, and the empty value where nothing has that name.
pub open spec fn bound_each_name(
    entries: Seq<(Seq<char>, ValueView)>,
    specs: Seq<ColumnSpecView>,
) -> Seq<Bound> {
    Seq::new(
        specs.len(),
        |k: int|
            if has_name(entries, specs[k].name) {
                bound(value_under(entries, specs[k].name), specs[k].typ)
            } else {
                Attempt::Done(CqlValueView::Empty)
            },
    )
}

/// The parameters of a statement bind column by column, in the order of the columns, each to the
/// type of its column: those of a tuple and of a vector by their places, those of an object and of
/// a struct by their names. A tuple has to be as long as the statement has columns.
pub proof fn params_bind_column_by_column(
    items: Seq<ValueView>,
    entries: Seq<(Seq<char>, ValueView)>,
    specs: Seq<ColumnSpecView>,
)
    ensures
        comes_of_each(bound_each_place(items, specs), bound_params(ValueView::Vec(items), specs)),
        if items.len() == specs.len() {
            comes_of_each(
                bound_each_place(items, specs),
                bound_params(ValueView::Tuple(items), specs),
            )
        } else {
            bound_params(ValueView::Tuple(items), specs) == Attempt::<
                Seq<CqlValueView>,
                CassErrorView,
            >::Failed(CassErrorView::InvalidNumberOfQueryParams)
        },
        comes_of_each(
            bound_each_name(entries, specs),
            bound_params(ValueView::Object(entries), specs),
        ),
        comes_of_each(
            bound_each_name(entries, specs),
            bound_params(ValueView::Struct(entries), specs),
        ),
{
    lemma_bound_in_order(items, specs, 0);
    assert(bound_each_place(items, specs).skip(0) =~= bound_each_place(items, specs));
    lemma_bound_columns(specs, 0, entries);
    assert(bound_each_name(entries, specs).skip(0) =~= bound_each_name(entries, specs));
}

/// The same by place from the `i`-th column on.
proof fn lemma_bound_in_order(items: Seq<ValueView>, specs: Seq<ColumnSpecView>, i: int)
    requires
        0 <= i <= bound_each_place(items, specs).len(),
    ensures
        comes_of_each(bound_each_place(items, specs).skip(i), bound_in_order(items, specs, i)),
    decreases specs.len() - i,
{
    let each = bound_each_place(items, specs);
    if i < each.len() {
        lemma_bound_in_order(items, specs, i + 1);
        lemma_comes_of_first(each[i], each.skip(i + 1), bound_in_order(items, specs, i + 1));
        assert(seq![each[i]] + each.skip(i + 1) =~= each.skip(i));
    }
}

/// The same by name from the `i`-th column on.
proof fn lemma_bound_columns(
    specs: Seq<ColumnSpecView>,
    i: int,
    entries: Seq<(Seq<char>, ValueView)>,
)
    requires
        0 <= i <= specs.len(),
    ensures
        comes_of_each(
            bound_each_name(entries, specs).skip(i),
            bound_columns(specs, i, entries),
        ),
    decreases specs.len() - i,
{
    let each = bound_each_name(entries, specs);
    if i < specs.len() {
        lemma_bound_columns(specs, i + 1, entries);
        lemma_value_under(entries, specs[i].name);
        lemma_comes_of_first(each[i], each.skip(i + 1), bound_columns(specs, i + 1, entries));
        assert(seq![each[i]] + each.skip(i + 1) =~= each.skip(i));
    }
}

/// What is neither a tuple, a vector, an object nor a struct is no set of parameters.
pub proof fn other_values_are_no_params(params: ValueView, specs: Seq<ColumnSpecView>)
    requires
        !(params is Tuple || params is Vec || params is Object || params is Struct),
    ensures
        bound_params(params, specs) == Attempt::<Seq<CqlValueView>, CassErrorView>::Failed(
            CassErrorView::InvalidQueryParamsObject(params.kind()),
        ),
{
}

/// What each element converts to.
pub open spec fn converted_each(items: Seq<CqlValueView>) -> Seq<Converted> {
    Seq::new(items.len(), |k: int| converted(items[k]))
}

/// What each element converts to, and null where there is none.
pub open spec fn converted_each_option(items: Seq<Option<CqlValueView>>) -> Seq<Converted> {
    Seq::new(
        items.len(),
        |k: int|
            match items[k] {
                Some(value) => converted(value),
                None => Attempt::Done(ValueView::Option(None)),
            },
    )
}

/// What each entry of a map converts to.
pub open spec fn converted_each_pair(
    items: Seq<(CqlValueView, CqlValueView)>,
) -> Seq<Converted> {
    Seq::new(items.len(), |k: int| paired(converted(items[k].0), converted(items[k].1)))
}

/// Lists, sets, vectors, maps and tuples convert part by part, in order.
pub proof fn collections_convert_part_by_part(
    items: Seq<CqlValueView>,
    pairs: Seq<(CqlValueView, CqlValueView)>,
    options: Seq<Option<CqlValueView>>,
)
    ensures
        vec_of_each(converted_each(items), converted(CqlValueView::ListOf(items))),
        vec_of_each(converted_each(items), converted(CqlValueView::SetOf(items))),
        vec_of_each(converted_each(items), converted(CqlValueView::Vector(items))),
        vec_of_each(converted_each_pair(pairs), converted(CqlValueView::MapOf(pairs))),
        vec_of_each(converted_each_option(options), converted(CqlValueView::Tuple(options))),
{
    lemma_converted_items(items, 0);
    lemma_converted_pairs(pairs, 0);
    lemma_converted_options(options, 0);
    assert(converted_each(items).skip(0) =~= converted_each(items));
    assert(converted_each_pair(pairs).skip(0) =~= converted_each_pair(pairs));
    assert(converted_each_option(options).skip(0) =~= converted_each_option(options));
}

/// The same from the `i`-th element on.
proof fn lemma_converted_items(items: Seq<CqlValueView>, i: int)
    requires
        0 <= i <= items.len(),
    ensures
        comes_of_each(converted_each(items).skip(i), converted_items(items, i)),
    decreases items.len() - i,
{
    let each = converted_each(items);
    if i < items.len() {
        lemma_converted_items(items, i + 1);
        lemma_comes_of_first(each[i], each.skip(i + 1), converted_items(items, i + 1));
        assert(seq![each[i]] + each.skip(i + 1) =~= each.skip(i));
    }
}

/// The same from the `i`-th entry on.
proof fn lemma_converted_pairs(items: Seq<(CqlValueView, CqlValueView)>, i: int)
    requires
        0 <= i <= items.len(),
    ensures
        comes_of_each(converted_each_pair(items).skip(i), converted_pairs(items, i)),
    decreases items.len() - i,
{
    let each = converted_each_pair(items);
    if i < items.len() {
        lemma_converted_pairs(items, i + 1);
        lemma_comes_of_first(each[i], each.skip(i + 1), converted_pairs(items, i + 1));
        assert(seq![each[i]] + each.skip(i + 1) =~= each.skip(i));
    }
}

/// The same from the `i`-th element on, where elements may be null.
proof fn lemma_converted_options(items: Seq<Option<CqlValueView>>, i: int)
    requires
        0 <= i <= items.len(),
    ensures
        comes_of_each(converted_each_option(items).skip(i), converted_options(items, i)),
    decreases items.len() - i,
{
    let each = converted_each_option(items);
    if i < items.len() {
        assert(each[i] == super::convert::converted_option(items[i]));
        lemma_converted_options(items, i + 1);
        lemma_comes_of_first(each[i], each.skip(i + 1), converted_options(items, i + 1));
        assert(seq![each[i]] + each.skip(i + 1) =~= each.skip(i));
    }
}

/// The names of the fields of a value.
pub open spec fn names_of_fields(fields: Seq<(Seq<char>, Option<CqlValueView>)>) -> Seq<Seq<char>> {
    Seq::new(fields.len(), |k: int| fields[k].0)
}

/// The values of the fields of a value.
pub open spec fn values_of_fields(
    fields: Seq<(Seq<char>, Option<CqlValueView>)>,
) -> Seq<Option<CqlValueView>> {
    Seq::new(fields.len(), |k: int| fields[k].1)
}

/// A user-defined value converts to an object field by field: the value of each field stands under
/// the name of that field.
pub proof fn user_defined_values_convert_field_by_field(
    keyspace: Seq<char>,
    name: Seq<char>,
    fields: Seq<(Seq<char>, Option<CqlValueView>)>,
)
    ensures
        object_of_each(
            names_of_fields(fields),
            converted_each_option(values_of_fields(fields)),
            converted(CqlValueView::UserDefinedType { keyspace, name, fields }),
        ),
{
    lemma_object_of_nothing();
    assert(names_of_fields(fields).take(0) =~= Seq::empty());
    assert(results_of(converted_each_option(values_of_fields(fields))).take(0) =~= Seq::empty());
    lemma_converted_fields(fields, 0, Seq::empty());
}

/// The same from the `i`-th field on.
proof fn lemma_converted_fields(
    fields: Seq<(Seq<char>, Option<CqlValueView>)>,
    i: int,
    entries: Seq<(Seq<char>, ValueView)>,
)
    requires
        0 <= i <= fields.len(),
        all_done_before(converted_each_option(values_of_fields(fields)), i),
        is_object_of(
            names_of_fields(fields).take(i),
            results_of(converted_each_option(values_of_fields(fields))).take(i),
            entries,
        ),
    ensures
        entries_of_each(
            names_of_fields(fields),
            converted_each_option(values_of_fields(fields)),
            converted_fields(fields, i, entries),
        ),
    decreases fields.len() - i,
{
    let names = names_of_fields(fields);
    let each = converted_each_option(values_of_fields(fields));
    let values = results_of(each);
    if i < fields.len() {
        assert(each[i] == super::convert::converted_option(fields[i].1));
        match each[i] {
            Attempt::Done(value) => {
                lemma_object_step(names, values, i, entries);
                lemma_converted_fields(fields, i + 1, put_entry(entries, fields[i].0, value));
            },
            _ => {},
        }
    } else {
        assert(names.take(i) =~= names);
        assert(values.take(i) =~= values);
    }
}

} // verus!
