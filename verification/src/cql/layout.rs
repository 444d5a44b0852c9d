//! How values are laid out in the bytes of a frame, and what the bytes decode to.
use vstd::prelude::*;

use crate::attempt::{all_done_before, comes_of_each, lemma_comes_of_first, Attempt};
use crate::value::{entries_of_each, is_object_of, lemma_object_of_nothing, lemma_object_step};
use crate::value::{object_of_each, paired, put_entry, results_of, vec_of_each, ValueView};
use super::column::{CollectionTypeView, ColumnSpecView, ColumnTypeView};
use super::deserialize::{as_pair, decoded, decoded_columns, decoded_fields, decoded_list};
use super::deserialize::{decoded_map, decoded_tuple, decoded_vector, vector_size_fits};
use super::deserialize::DeserializeError;
use super::wire::{bytes_split, lemma_pow256, lemma_twos_complement, raw_split, twos_complement};
use super::wire::vint_split;

verus! {

/// What a column decodes to, or why it does not.
pub type Decoded = Attempt<ValueView, DeserializeError>;

/// The bytes of a part that may be null: its length, and then the part itself. A part that is null
/// has a negative length.
pub open spec fn cell(item: Option<Seq<u8>>) -> Seq<u8> {
    match item {
        Some(bytes) => twos_complement(bytes.len() as int, 4) + bytes,
        None => twos_complement(-1, 4),
    }
}

/// The parts one after the other.
pub open spec fn cells(items: Seq<Option<Seq<u8>>>) -> Seq<u8>
    decreases items.len(),
{
    if items.len() == 0 {
        Seq::empty()
    } else {
        cell(items[0]) + cells(items.skip(1))
    }
}

/// The keys and the values one after the other.
pub open spec fn pair_cells(items: Seq<(Option<Seq<u8>>, Option<Seq<u8>>)>) -> Seq<u8>
    decreases items.len(),
{
    if items.len() == 0 {
        Seq::empty()
    } else {
        cell(items[0].0) + cell(items[0].1) + pair_cells(items.skip(1))
    }
}

/// The elements one after the other, without their lengths.
pub open spec fn joined_bytes(items: Seq<Seq<u8>>) -> Seq<u8>
    decreases items.len(),
{
    if items.len() == 0 {
        Seq::empty()
    } else {
        items[0] + joined_bytes(items.skip(1))
    }
}

/// The length of the part is a 32-bit number.
pub open spec fn cell_fits(item: Option<Seq<u8>>) -> bool {
    item matches Some(bytes) ==> bytes.len() <= i32::MAX
}

/// All parts have a length of 32 bits.
pub open spec fn cells_fit(items: Seq<Option<Seq<u8>>>) -> bool {
    forall|k: int| 0 <= k < items.len() ==> cell_fits(#[trigger] items[k])
}

/// The part in that place, and null where there are fewer.
pub open spec fn cell_at(items: Seq<Option<Seq<u8>>>, k: int) -> Option<Seq<u8>> {
    if k < items.len() {
        items[k]
    } else {
        None
    }
}

/// The part in front is read whole, and what follows it is left.
pub proof fn cells_are_read_one_by_one(item: Option<Seq<u8>>, rest: Seq<u8>)
    requires
        cell_fits(item),
    ensures
        bytes_split(cell(item) + rest) == Some((item, rest)),
{
    let all = cell(item) + rest;
    lemma_pow256();
    match item {
        Some(bytes) => {
            lemma_twos_complement(bytes.len() as int, 4);
            assert(all.take(4) =~= twos_complement(bytes.len() as int, 4));
            assert(all.skip(4) =~= bytes + rest);
            assert((bytes + rest).take(bytes.len() as int) =~= bytes);
            assert((bytes + rest).skip(bytes.len() as int) =~= rest);
        },
        None => {
            lemma_twos_complement(-1, 4);
            assert(all.take(4) =~= twos_complement(-1, 4));
            assert(all.skip(4) =~= rest);
        },
    }
}

/// A part with any negative length is null.
pub proof fn negative_lengths_are_null(len: int, rest: Seq<u8>)
    requires
        -0x8000_0000 <= len < 0,
    ensures
        bytes_split(twos_complement(len, 4) + rest) == Some((None::<Seq<u8>>, rest)),
{
    let all = twos_complement(len, 4) + rest;
    lemma_pow256();
    lemma_twos_complement(len, 4);
    assert(all.take(4) =~= twos_complement(len, 4));
    assert(all.skip(4) =~= rest);
}

/// A part that is cut short is not read.
pub proof fn short_cells_are_not_read(item: Option<Seq<u8>>, kept: int)
    requires
        cell_fits(item),
        0 <= kept < cell(item).len(),
    ensures
        bytes_split(cell(item).take(kept)) is None,
{
    let short = cell(item).take(kept);
    lemma_pow256();
    match item {
        Some(bytes) => {
            lemma_twos_complement(bytes.len() as int, 4);
            if kept >= 4 {
                assert(short.take(4) =~= twos_complement(bytes.len() as int, 4));
            }
        },
        None => {
            lemma_twos_complement(-1, 4);
        },
    }
}

/// A part takes at least the bytes of its length.
proof fn lemma_cell_len(item: Option<Seq<u8>>)
    requires
        cell_fits(item),
    ensures
        cell(item).len() >= 4,
{
    lemma_pow256();
    match item {
        Some(bytes) => lemma_twos_complement(bytes.len() as int, 4),
        None => lemma_twos_complement(-1, 4),
    }
}

/// The first of the parts from the `i`-th on, and those that follow.
proof fn lemma_cells_from(items: Seq<Option<Seq<u8>>>, i: int)
    requires
        0 <= i < items.len(),
        cells_fit(items),
    ensures
        cells(items.skip(i)) == cell(items[i]) + cells(items.skip(i + 1)),
        cells(items.skip(i)).len() > 0,
        bytes_split(cells(items.skip(i))) == Some((items[i], cells(items.skip(i + 1)))),
{
    assert(items.skip(i)[0] == items[i]);
    assert(items.skip(i).skip(1) =~= items.skip(i + 1));
    cells_are_read_one_by_one(items[i], cells(items.skip(i + 1)));
    lemma_cell_len(items[i]);
}

/// What each column of a row decodes to.
pub open spec fn column_outcomes(
    specs: Seq<ColumnSpecView>,
    items: Seq<Option<Seq<u8>>>,
) -> Seq<Decoded> {
    Seq::new(specs.len(), |k: int| decoded(specs[k].typ, items[k]))
}

/// The names of columns.
pub open spec fn column_names(specs: Seq<ColumnSpecView>) -> Seq<Seq<char>> {
    Seq::new(specs.len(), |k: int| specs[k].name)
}

/// A row decodes column by column: the cell of each column decodes with the type of that column,
/// and its value stands under the name of that column. Where a column has no value, the first such
/// column tells why.
pub proof fn rows_hold_the_values_of_their_cells(
    specs: Seq<ColumnSpecView>,
    items: Seq<Option<Seq<u8>>>,
)
    requires
        items.len() == specs.len(),
        cells_fit(items),
    ensures
        entries_of_each(
            column_names(specs),
            column_outcomes(specs, items),
            decoded_columns(specs, 0, cells(items), Seq::empty()),
        ),
{
    assert(items.skip(0) =~= items);
    lemma_object_of_nothing();
    assert(column_names(specs).take(0) =~= Seq::empty());
    assert(results_of(column_outcomes(specs, items)).take(0) =~= Seq::empty());
    lemma_columns(specs, items, 0, Seq::empty());
}

/// The same for every column by itself: where the row decodes, there is an entry under the name of
/// the column, and where no other column has that name, it holds what the cell of the column
/// decodes to with the type of the column.
pub proof fn columns_hold_the_values_of_their_cells(
    specs: Seq<ColumnSpecView>,
    items: Seq<Option<Seq<u8>>>,
    row: Seq<(Seq<char>, ValueView)>,
    k: int,
)
    requires
        items.len() == specs.len(),
        cells_fit(items),
        decoded_columns(specs, 0, cells(items), Seq::empty()) == Attempt::<
            Seq<(Seq<char>, ValueView)>,
            DeserializeError,
        >::Done(row),
        0 <= k < specs.len(),
        forall|j: int| 0 <= j < specs.len() && j != k ==> (#[trigger] specs[j]).name
            != specs[k].name,
    ensures
        exists|e: int|
            0 <= e < row.len() && (#[trigger] row[e]).0 == specs[k].name && decoded(
                specs[k].typ,
                items[k],
            ) == Attempt::<ValueView, DeserializeError>::Done(row[e].1),
{
    reveal(is_object_of);
    rows_hold_the_values_of_their_cells(specs, items);
    let names = column_names(specs);
    let each = column_outcomes(specs, items);
    assert(names[k] == specs[k].name);
    assert(crate::value::has_name(row, names[k]));
    let e = choose|e: int| 0 <= e < row.len() && (#[trigger] row[e]).0 == names[k];
    assert(crate::value::is_last_of(names, results_of(each), row[e]));
    let j = choose|j: int|
        0 <= j < names.len() && (#[trigger] names[j]) == row[e].0 && results_of(each)[j] == row[e].1
            && (forall|m: int| j < m < names.len() ==> (#[trigger] names[m]) != row[e].0);
    assert(specs[j].name == specs[k].name);
    assert(each[k] is Done);
}

/// The same from the `i`-th column on.
#[verifier::spinoff_prover]
#[verifier::rlimit(40)]
proof fn lemma_columns(
    specs: Seq<ColumnSpecView>,
    items: Seq<Option<Seq<u8>>>,
    i: int,
    entries: Seq<(Seq<char>, ValueView)>,
)
    requires
        0 <= i <= specs.len(),
        items.len() == specs.len(),
        cells_fit(items),
        all_done_before(column_outcomes(specs, items), i),
        is_object_of(
            column_names(specs).take(i),
            results_of(column_outcomes(specs, items)).take(i),
            entries,
        ),
    ensures
        entries_of_each(
            column_names(specs),
            column_outcomes(specs, items),
            decoded_columns(specs, i, cells(items.skip(i)), entries),
        ),
    decreases specs.len() - i,
{
    let names = column_names(specs);
    let each = column_outcomes(specs, items);
    let values = results_of(each);
    if i < specs.len() {
        lemma_cells_from(items, i);
        assert(each[i] == decoded(specs[i].typ, items[i]));
        match each[i] {
            Attempt::Done(value) => {
                lemma_object_step(names, values, i, entries);
                lemma_columns(specs, items, i + 1, put_entry(entries, specs[i].name, value));
            },
            _ => {},
        }
    } else {
        assert(names.take(i) =~= names);
        assert(values.take(i) =~= values);
    }
}

/// What each element of a list decodes to.
pub open spec fn item_outcomes(
    element: ColumnTypeView,
    items: Seq<Option<Seq<u8>>>,
) -> Seq<Decoded> {
    Seq::new(items.len(), |k: int| decoded(element, items[k]))
}

/// A list and a set decode element by element, in order, each element with the type of the
/// elements.
pub proof fn lists_hold_the_values_of_their_cells(
    element: ColumnTypeView,
    items: Seq<Option<Seq<u8>>>,
    frozen: bool,
)
    requires
        items.len() <= i32::MAX,
        cells_fit(items),
    ensures
        vec_of_each(
            item_outcomes(element, items),
            decoded(
                ColumnTypeView::Collection {
                    frozen,
                    typ: CollectionTypeView::ListOf(Box::new(element)),
                },
                Some(twos_complement(items.len() as int, 4) + cells(items)),
            ),
        ),
        vec_of_each(
            item_outcomes(element, items),
            decoded(
                ColumnTypeView::Collection {
                    frozen,
                    typ: CollectionTypeView::SetOf(Box::new(element)),
                },
                Some(twos_complement(items.len() as int, 4) + cells(items)),
            ),
        ),
{
    lemma_count(items.len(), cells(items));
    assert(items.skip(0) =~= items);
    lemma_list(element, items, 0);
    assert(item_outcomes(element, items).skip(0) =~= item_outcomes(element, items));
}

/// The number of elements is read, and what follows it is left.
proof fn lemma_count(count: nat, rest: Seq<u8>)
    requires
        count <= i32::MAX,
    ensures
        super::wire::int_split(twos_complement(count as int, 4) + rest) == Some((count as int, rest)),
        (twos_complement(count as int, 4) + rest).len() > 0,
{
    lemma_pow256();
    lemma_twos_complement(count as int, 4);
    let all = twos_complement(count as int, 4) + rest;
    assert(all.take(4) =~= twos_complement(count as int, 4));
    assert(all.skip(4) =~= rest);
}

/// The same from the `i`-th element on.
proof fn lemma_list(element: ColumnTypeView, items: Seq<Option<Seq<u8>>>, i: int)
    requires
        0 <= i <= items.len(),
        cells_fit(items),
    ensures
        comes_of_each(
            item_outcomes(element, items).skip(i),
            decoded_list(element, (items.len() - i) as nat, cells(items.skip(i))),
        ),
    decreases items.len() - i,
{
    let each = item_outcomes(element, items);
    if i < items.len() {
        lemma_cells_from(items, i);
        lemma_list(element, items, i + 1);
        lemma_comes_of_first(
            each[i],
            each.skip(i + 1),
            decoded_list(element, (items.len() - (i + 1)) as nat, cells(items.skip(i + 1))),
        );
        assert(seq![each[i]] + each.skip(i + 1) =~= each.skip(i));
    }
}

/// What each entry of a map decodes to.
pub open spec fn pair_outcomes(
    key: ColumnTypeView,
    value: ColumnTypeView,
    items: Seq<(Option<Seq<u8>>, Option<Seq<u8>>)>,
) -> Seq<Decoded> {
    Seq::new(
        items.len(),
        |k: int| paired(decoded(key, items[k].0), decoded(value, items[k].1)),
    )
}

/// All keys and values have a length of 32 bits.
pub open spec fn pair_cells_fit(items: Seq<(Option<Seq<u8>>, Option<Seq<u8>>)>) -> bool {
    forall|k: int|
        0 <= k < items.len() ==> cell_fits((#[trigger] items[k]).0) && cell_fits(items[k].1)
}

/// A map decodes to its entries, in order: each is the pair of its key, decoded with the type of
/// the keys, and its value, decoded with the type of the values.
pub proof fn maps_hold_the_values_of_their_cells(
    key: ColumnTypeView,
    value: ColumnTypeView,
    items: Seq<(Option<Seq<u8>>, Option<Seq<u8>>)>,
    frozen: bool,
)
    requires
        items.len() <= i32::MAX,
        pair_cells_fit(items),
    ensures
        vec_of_each(
            pair_outcomes(key, value, items),
            decoded(
                ColumnTypeView::Collection {
                    frozen,
                    typ: CollectionTypeView::MapOf(Box::new(key), Box::new(value)),
                },
                Some(twos_complement(items.len() as int, 4) + pair_cells(items)),
            ),
        ),
{
    lemma_count(items.len(), pair_cells(items));
    assert(items.skip(0) =~= items);
    lemma_map(key, value, items, 0);
    assert(pair_outcomes(key, value, items).skip(0) =~= pair_outcomes(key, value, items));
}

/// The same from the `i`-th entry on.
proof fn lemma_map(
    key: ColumnTypeView,
    value: ColumnTypeView,
    items: Seq<(Option<Seq<u8>>, Option<Seq<u8>>)>,
    i: int,
)
    requires
        0 <= i <= items.len(),
        pair_cells_fit(items),
    ensures
        comes_of_each(
            pair_outcomes(key, value, items).skip(i),
            decoded_map(
                CollectionTypeView::MapOf(Box::new(key), Box::new(value)),
                (items.len() - i) as nat,
                pair_cells(items.skip(i)),
            ),
        ),
    decreases items.len() - i,
{
    let each = pair_outcomes(key, value, items);
    let collection = CollectionTypeView::MapOf(Box::new(key), Box::new(value));
    if i < items.len() {
        let rest = pair_cells(items.skip(i + 1));
        assert(items.skip(i)[0] == items[i]);
        assert(items.skip(i).skip(1) =~= items.skip(i + 1));
        assert(pair_cells(items.skip(i)) =~= cell(items[i].0) + (cell(items[i].1) + rest));
        cells_are_read_one_by_one(items[i].0, cell(items[i].1) + rest);
        cells_are_read_one_by_one(items[i].1, rest);
        lemma_map(key, value, items, i + 1);
        lemma_comes_of_first(
            each[i],
            each.skip(i + 1),
            decoded_map(collection, (items.len() - (i + 1)) as nat, rest),
        );
        assert(each[i] == as_pair(decoded(key, items[i].0), decoded(value, items[i].1)));
        assert(seq![each[i]] + each.skip(i + 1) =~= each.skip(i));
    }
}

/// What each element of a tuple decodes to, those that are missing as null.
pub open spec fn tuple_outcomes(
    types: Seq<ColumnTypeView>,
    items: Seq<Option<Seq<u8>>>,
) -> Seq<Decoded> {
    Seq::new(types.len(), |k: int| decoded(types[k], cell_at(items, k)))
}

/// A tuple decodes element by element, in order, each with its own type; elements that are missing
/// at the end count as null.
pub proof fn tuples_hold_the_values_of_their_cells(
    types: Seq<ColumnTypeView>,
    items: Seq<Option<Seq<u8>>>,
)
    requires
        0 < items.len() <= types.len(),
        cells_fit(items),
    ensures
        vec_of_each(
            tuple_outcomes(types, items),
            decoded(ColumnTypeView::Tuple(types), Some(cells(items))),
        ),
{
    assert(items.skip(0) =~= items);
    lemma_cells_from(items, 0);
    lemma_tuple(types, items, 0);
    assert(tuple_outcomes(types, items).skip(0) =~= tuple_outcomes(types, items));
}

/// The parts from the `i`-th on, none where there are fewer.
spec fn cells_left(items: Seq<Option<Seq<u8>>>, i: int) -> Seq<u8> {
    if i < items.len() {
        cells(items.skip(i))
    } else {
        Seq::empty()
    }
}

/// The part in front of those from the `i`-th on, null where there are fewer.
proof fn lemma_cells_left(items: Seq<Option<Seq<u8>>>, i: int)
    requires
        0 <= i,
        cells_fit(items),
    ensures
        super::deserialize::lenient_split(cells_left(items, i)) == Some(
            (cell_at(items, i), cells_left(items, i + 1)),
        ),
{
    if i < items.len() {
        lemma_cells_from(items, i);
        if i + 1 == items.len() {
            assert(items.skip(i + 1) =~= Seq::empty());
        }
    }
}

/// The same from the `i`-th element on.
proof fn lemma_tuple(types: Seq<ColumnTypeView>, items: Seq<Option<Seq<u8>>>, i: int)
    requires
        0 <= i <= types.len(),
        cells_fit(items),
    ensures
        comes_of_each(
            tuple_outcomes(types, items).skip(i),
            decoded_tuple(types, i, cells_left(items, i)),
        ),
    decreases types.len() - i,
{
    let each = tuple_outcomes(types, items);
    if i < types.len() {
        lemma_cells_left(items, i);
        lemma_tuple(types, items, i + 1);
        lemma_comes_of_first(
            each[i],
            each.skip(i + 1),
            decoded_tuple(types, i + 1, cells_left(items, i + 1)),
        );
        assert(seq![each[i]] + each.skip(i + 1) =~= each.skip(i));
    }
}

/// What each field decodes to, those that are missing as null.
pub open spec fn field_outcomes(
    fields: Seq<(Seq<char>, ColumnTypeView)>,
    items: Seq<Option<Seq<u8>>>,
) -> Seq<Decoded> {
    Seq::new(fields.len(), |k: int| decoded(fields[k].1, cell_at(items, k)))
}

/// The names of fields.
pub open spec fn field_names(fields: Seq<(Seq<char>, ColumnTypeView)>) -> Seq<Seq<char>> {
    Seq::new(fields.len(), |k: int| fields[k].0)
}

/// A user-defined value decodes field by field: each with its own type and under its own name;
/// fields that are missing at the end count as null.
pub proof fn fields_hold_the_values_of_their_cells(
    definition: super::column::UserDefinedTypeView,
    items: Seq<Option<Seq<u8>>>,
    frozen: bool,
)
    requires
        0 < items.len() <= definition.field_types.len(),
        cells_fit(items),
    ensures
        object_of_each(
            field_names(definition.field_types),
            field_outcomes(definition.field_types, items),
            decoded(
                ColumnTypeView::UserDefinedType { frozen, definition },
                Some(cells(items)),
            ),
        ),
{
    let fields = definition.field_types;
    assert(items.skip(0) =~= items);
    lemma_cells_from(items, 0);
    lemma_object_of_nothing();
    assert(field_names(fields).take(0) =~= Seq::empty());
    assert(results_of(field_outcomes(fields, items)).take(0) =~= Seq::empty());
    lemma_fields(fields, items, 0, Seq::empty());
}

/// The same from the `i`-th field on.
#[verifier::spinoff_prover]
#[verifier::rlimit(40)]
proof fn lemma_fields(
    fields: Seq<(Seq<char>, ColumnTypeView)>,
    items: Seq<Option<Seq<u8>>>,
    i: int,
    entries: Seq<(Seq<char>, ValueView)>,
)
    requires
        0 <= i <= fields.len(),
        cells_fit(items),
        all_done_before(field_outcomes(fields, items), i),
        is_object_of(
            field_names(fields).take(i),
            results_of(field_outcomes(fields, items)).take(i),
            entries,
        ),
    ensures
        entries_of_each(
            field_names(fields),
            field_outcomes(fields, items),
            decoded_fields(fields, i, cells_left(items, i), entries),
        ),
    decreases fields.len() - i,
{
    let names = field_names(fields);
    let each = field_outcomes(fields, items);
    let values = results_of(each);
    if i < fields.len() {
        lemma_cells_left(items, i);
        assert(each[i] == decoded(fields[i].1, cell_at(items, i)));
        match each[i] {
            Attempt::Done(value) => {
                lemma_object_step(names, values, i, entries);
                lemma_fields(fields, items, i + 1, put_entry(entries, fields[i].0, value));
            },
            _ => {},
        }
    } else {
        assert(names.take(i) =~= names);
        assert(values.take(i) =~= values);
    }
}

/// What each element of a vector decodes to.
pub open spec fn element_outcomes(element: ColumnTypeView, items: Seq<Seq<u8>>) -> Seq<Decoded> {
    Seq::new(items.len(), |k: int| decoded(element, Some(items[k])))
}

/// A vector of elements of a fixed size decodes element by element, in order.
pub proof fn vectors_hold_the_values_of_their_elements(
    element: ColumnTypeView,
    items: Seq<Seq<u8>>,
    size: nat,
)
    requires
        0 < items.len() <= u16::MAX,
        0 < size,
        element.vector_size() == Some(size),
        vector_size_fits(element),
        forall|k: int| 0 <= k < items.len() ==> (#[trigger] items[k]).len() == size,
    ensures
        vec_of_each(
            element_outcomes(element, items),
            decoded(
                ColumnTypeView::Vector {
                    typ: Box::new(element),
                    dimensions: items.len() as u16,
                },
                Some(joined_bytes(items)),
            ),
        ),
{
    assert(items.skip(0) =~= items);
    lemma_vector(element, items, size, 0);
    assert(element_outcomes(element, items).skip(0) =~= element_outcomes(element, items));
    assert(joined_bytes(items).len() > 0) by {
        assert(items[0].len() == size);
    }
}

/// The same from the `i`-th element on.
proof fn lemma_vector(element: ColumnTypeView, items: Seq<Seq<u8>>, size: nat, i: int)
    requires
        0 <= i <= items.len(),
        0 < size,
        element.vector_size() == Some(size),
        forall|k: int| 0 <= k < items.len() ==> (#[trigger] items[k]).len() == size,
    ensures
        comes_of_each(
            element_outcomes(element, items).skip(i),
            decoded_vector(element, (items.len() - i) as nat, joined_bytes(items.skip(i))),
        ),
    decreases items.len() - i,
{
    let each = element_outcomes(element, items);
    if i < items.len() {
        let rest = joined_bytes(items.skip(i + 1));
        let all = joined_bytes(items.skip(i));
        assert(items.skip(i)[0] == items[i]);
        assert(items.skip(i).skip(1) =~= items.skip(i + 1));
        assert(all == items[i] + rest);
        assert(items[i].len() == size);
        assert(all.take(size as int) =~= items[i]);
        assert(all.skip(size as int) =~= rest);
        assert(raw_split(all, size) == Some((Some(items[i]), rest)));
        lemma_vector(element, items, size, i + 1);
        lemma_comes_of_first(
            each[i],
            each.skip(i + 1),
            decoded_vector(element, (items.len() - (i + 1)) as nat, rest),
        );
        assert(seq![each[i]] + each.skip(i + 1) =~= each.skip(i));
    }
}

/// An element of a fixed size that is cut short fails the vector.
pub proof fn short_elements_are_not_read(element: ColumnTypeView, bytes: Seq<u8>, dimensions: u16)
    requires
        element.vector_size() matches Some(size) && 0 < bytes.len() < size,
        vector_size_fits(element),
        dimensions > 0,
    ensures
        decoded(
            ColumnTypeView::Vector { typ: Box::new(element), dimensions },
            Some(bytes),
        ) == Decoded::Failed(DeserializeError::BadItem),
{
}

/// Bytes in front of an element that tell its length, whatever follows them.
pub open spec fn tells_length(prefix: Seq<u8>, len: nat) -> bool {
    forall|rest: Seq<u8>| vint_split(#[trigger] (prefix + rest)) == Some((len, rest))
}

/// The elements one after the other, each behind the bytes that tell its length.
pub open spec fn joined_with_lengths(prefixes: Seq<Seq<u8>>, items: Seq<Seq<u8>>) -> Seq<u8>
    decreases items.len(),
{
    if items.len() == 0 {
        Seq::empty()
    } else {
        prefixes[0] + (items[0] + joined_with_lengths(prefixes.skip(1), items.skip(1)))
    }
}

/// A vector of elements of any other size decodes element by element, in order, where each tells
/// its length in front of itself.
pub proof fn vectors_hold_elements_that_tell_their_length(
    element: ColumnTypeView,
    prefixes: Seq<Seq<u8>>,
    items: Seq<Seq<u8>>,
)
    requires
        0 < items.len() <= u16::MAX,
        prefixes.len() == items.len(),
        element.vector_size() is None,
        vector_size_fits(element),
        forall|k: int|
            0 <= k < items.len() ==> 0 < (#[trigger] items[k]).len() <= usize::MAX
                && tells_length(prefixes[k], items[k].len()),
    ensures
        vec_of_each(
            element_outcomes(element, items),
            decoded(
                ColumnTypeView::Vector {
                    typ: Box::new(element),
                    dimensions: items.len() as u16,
                },
                Some(joined_with_lengths(prefixes, items)),
            ),
        ),
{
    assert(items.skip(0) =~= items);
    assert(prefixes.skip(0) =~= prefixes);
    lemma_vector_with_lengths(element, prefixes, items, 0);
    assert(element_outcomes(element, items).skip(0) =~= element_outcomes(element, items));
    assert(joined_with_lengths(prefixes, items).len() > 0) by {
        assert(items[0].len() > 0);
    }
}

/// The same from the `i`-th element on.
proof fn lemma_vector_with_lengths(
    element: ColumnTypeView,
    prefixes: Seq<Seq<u8>>,
    items: Seq<Seq<u8>>,
    i: int,
)
    requires
        0 <= i <= items.len(),
        prefixes.len() == items.len(),
        element.vector_size() is None,
        forall|k: int|
            0 <= k < items.len() ==> 0 < (#[trigger] items[k]).len() <= usize::MAX
                && tells_length(prefixes[k], items[k].len()),
    ensures
        comes_of_each(
            element_outcomes(element, items).skip(i),
            decoded_vector(
                element,
                (items.len() - i) as nat,
                joined_with_lengths(prefixes.skip(i), items.skip(i)),
            ),
        ),
    decreases items.len() - i,
{
    let each = element_outcomes(element, items);
    if i < items.len() {
        let rest = joined_with_lengths(prefixes.skip(i + 1), items.skip(i + 1));
        let behind = items[i] + rest;
        let all = joined_with_lengths(prefixes.skip(i), items.skip(i));
        assert(items.skip(i)[0] == items[i]);
        assert(prefixes.skip(i)[0] == prefixes[i]);
        assert(items.skip(i).skip(1) =~= items.skip(i + 1));
        assert(prefixes.skip(i).skip(1) =~= prefixes.skip(i + 1));
        assert(all == prefixes[i] + behind);
        assert(tells_length(prefixes[i], items[i].len()));
        assert(vint_split(all) == Some((items[i].len(), behind)));
        assert(behind.take(items[i].len() as int) =~= items[i]);
        assert(behind.skip(items[i].len() as int) =~= rest);
        assert(raw_split(behind, items[i].len()) == Some((Some(items[i]), rest)));
        lemma_vector_with_lengths(element, prefixes, items, i + 1);
        lemma_comes_of_first(
            each[i],
            each.skip(i + 1),
            decoded_vector(element, (items.len() - (i + 1)) as nat, rest),
        );
        assert(seq![each[i]] + each.skip(i + 1) =~= each.skip(i));
    }
}

} // verus!
