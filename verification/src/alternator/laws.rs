//! What values and attributes are converted to, part by part.
use vstd::prelude::*;

use crate::attempt::{all_ok_before, lemma_ok_of_first, ok_of_each};
use crate::numeral::integers_read_back;
use crate::text::int_text;
use crate::value::{FloatView, ValueView};
use super::alternator_error::AlternatorErrorView;
use super::types::{attribute_entries_of, attribute_of, attributes_of, elements_of, number_value};
use super::types::{number_values, set_of, value_entries_of, value_of, values_of};
use super::types::{AttributeView, NumberView, SetKind, BSET_KEY, NSET_KEY, SSET_KEY};

verus! {

/// The attribute of a value, or why there is none.
pub type Stored = Result<AttributeView, AlternatorErrorView>;

/// The value of an attribute, or why there is none.
pub type Restored = Result<ValueView, AlternatorErrorView>;

/// Simple values are stored as attributes of their own types; numbers are stored as texts. A value
/// that is present is stored as itself, and one that is not as null.
pub proof fn simple_values_are_stored(
    b: bool,
    i: i64,
    f: FloatView,
    text: Seq<char>,
    bytes: Seq<u8>,
    inner: ValueView,
)
    ensures
        attribute_of(ValueView::Bool(b)) == Stored::Ok(AttributeView::Bool(b)),
        attribute_of(ValueView::Integer(i)) == Stored::Ok(
            AttributeView::N(NumberView::Text(int_text(i as int))),
        ),
        attribute_of(ValueView::Float(f)) == Stored::Ok(AttributeView::N(NumberView::Float(f))),
        attribute_of(ValueView::String(text)) == Stored::Ok(AttributeView::S(text)),
        attribute_of(ValueView::Bytes(bytes)) == Stored::Ok(AttributeView::B(bytes)),
        attribute_of(ValueView::Option(None)) == Stored::Ok(AttributeView::Null(true)),
        attribute_of(ValueView::Option(Some(Box::new(inner)))) == attribute_of(inner),
{
}

/// Values of other kinds cannot be stored, and are told.
pub proof fn other_values_are_not_stored(value: ValueView)
    requires
        value is Byte || value is Tuple || value is Struct || value is Uuid || value is Any || value
            is Other,
    ensures
        attribute_of(value) == Stored::Err(AlternatorErrorView::UnsupportedValue(value)),
{
}

/// The attribute of each value.
pub open spec fn stored_each(items: Seq<ValueView>) -> Seq<Stored> {
    Seq::new(items.len(), |k: int| attribute_of(items[k]))
}

/// A vector is stored as the list of the attributes of its elements, in order.
pub proof fn vectors_are_stored_element_by_element(items: Seq<ValueView>)
    ensures
        match attribute_of(ValueView::Vec(items)) {
            Ok(attribute) => attribute matches AttributeView::L(list) && ok_of_each(
                stored_each(items),
                Ok::<Seq<AttributeView>, AlternatorErrorView>(list),
            ),
            Err(e) => ok_of_each(
                stored_each(items),
                Err::<Seq<AttributeView>, AlternatorErrorView>(e),
            ),
        },
{
    lemma_attributes(items, 0);
    assert(stored_each(items).skip(0) =~= stored_each(items));
}

/// The same from the `i`-th element on.
proof fn lemma_attributes(items: Seq<ValueView>, i: int)
    requires
        0 <= i <= items.len(),
    ensures
        ok_of_each(stored_each(items).skip(i), attributes_of(items, i)),
    decreases items.len() - i,
{
    let each = stored_each(items);
    if i < items.len() {
        lemma_attributes(items, i + 1);
        lemma_ok_of_first(each[i], each.skip(i + 1), attributes_of(items, i + 1));
        assert(seq![each[i]] + each.skip(i + 1) =~= each.skip(i));
    }
}

/// The attribute of each entry, under its name.
pub open spec fn stored_each_entry(
    entries: Seq<(Seq<char>, ValueView)>,
) -> Seq<Result<(Seq<char>, AttributeView), AlternatorErrorView>> {
    Seq::new(
        entries.len(),
        |k: int|
            match attribute_of(entries[k].1) {
                Ok(attribute) => Ok((entries[k].0, attribute)),
                Err(e) => Err(e),
            },
    )
}

/// An object is stored as the map of the attributes of its entries, each under its own name, unless
/// its only entry has one of the three keys that stand for a set.
pub proof fn objects_are_stored_entry_by_entry(entries: Seq<(Seq<char>, ValueView)>)
    requires
        entries.len() == 1 ==> entries[0].0 != "__sset"@ && entries[0].0 != "__nset"@
            && entries[0].0 != "__bset"@,
    ensures
        match attribute_of(ValueView::Object(entries)) {
            Ok(attribute) => attribute matches AttributeView::M(map) && ok_of_each(
                stored_each_entry(entries),
                Ok::<Seq<(Seq<char>, AttributeView)>, AlternatorErrorView>(map),
            ),
            Err(e) => ok_of_each(
                stored_each_entry(entries),
                Err::<Seq<(Seq<char>, AttributeView)>, AlternatorErrorView>(e),
            ),
        },
{
    assert(set_of(entries) is None);
    lemma_attribute_entries(entries, 0);
    assert(stored_each_entry(entries).skip(0) =~= stored_each_entry(entries));
}

/// The same from the `i`-th entry on.
proof fn lemma_attribute_entries(entries: Seq<(Seq<char>, ValueView)>, i: int)
    requires
        0 <= i <= entries.len(),
    ensures
        ok_of_each(stored_each_entry(entries).skip(i), attribute_entries_of(entries, i)),
    decreases entries.len() - i,
{
    let each = stored_each_entry(entries);
    if i < entries.len() {
        lemma_attribute_entries(entries, i + 1);
        lemma_ok_of_first(each[i], each.skip(i + 1), attribute_entries_of(entries, i + 1));
        assert(seq![each[i]] + each.skip(i + 1) =~= each.skip(i));
    }
}

/// The attribute of each element of a set, where it is one that the set takes.
spec fn element_each(kind: SetKind, items: Seq<ValueView>) -> Seq<Stored> {
    Seq::new(
        items.len(),
        |k: int|
            match attribute_of(items[k]) {
                Ok(attribute) => if super::types::is_element(kind, attribute) {
                    Ok(attribute)
                } else {
                    Err(
                        AlternatorErrorView::InvalidSetElement {
                            key: super::types::set_key(kind),
                            item: items[k],
                        },
                    )
                },
                Err(e) => Err(e),
            },
    )
}

/// The same for the elements of a set.
proof fn lemma_elements(kind: SetKind, items: Seq<ValueView>, i: int)
    requires
        0 <= i <= items.len(),
    ensures
        ok_of_each(element_each(kind, items).skip(i), elements_of(kind, items, i)),
    decreases items.len() - i,
{
    let each = element_each(kind, items);
    if i < items.len() {
        lemma_elements(kind, items, i + 1);
        lemma_ok_of_first(each[i], each.skip(i + 1), elements_of(kind, items, i + 1));
        assert(seq![each[i]] + each.skip(i + 1) =~= each.skip(i));
    }
}

/// The object with a single entry.
pub open spec fn single(key: Seq<char>, value: ValueView) -> ValueView {
    ValueView::Object(seq![(key, value)])
}

/// The three keys that stand for sets are those, and differ from one another.
proof fn lemma_keys()
    ensures
        SSET_KEY@ == "__sset"@,
        NSET_KEY@ == "__nset"@,
        BSET_KEY@ == "__bset"@,
        "__sset"@ != "__nset"@,
        "__sset"@ != "__bset"@,
        "__nset"@ != "__bset"@,
{
    reveal_strlit("__sset");
    reveal_strlit("__nset");
    reveal_strlit("__bset");
    assert("__sset"@[2] == 's');
    assert("__nset"@[2] == 'n');
    assert("__bset"@[2] == 'b');
}

/// A set of strings, of numbers and of byte strings is stored with the very elements of its vector,
/// in order.
pub proof fn sets_are_stored_element_by_element(
    texts: Seq<Seq<char>>,
    numbers: Seq<i64>,
    blobs: Seq<Seq<u8>>,
)
    ensures
        attribute_of(
            single(
                "__sset"@,
                ValueView::Vec(Seq::new(texts.len(), |k: int| ValueView::String(texts[k]))),
            ),
        ) == Stored::Ok(AttributeView::Ss(texts)),
        attribute_of(
            single(
                "__nset"@,
                ValueView::Vec(Seq::new(numbers.len(), |k: int| ValueView::Integer(numbers[k]))),
            ),
        ) == Stored::Ok(
            AttributeView::Ns(
                Seq::new(numbers.len(), |k: int| NumberView::Text(int_text(numbers[k] as int))),
            ),
        ),
        attribute_of(
            single(
                "__bset"@,
                ValueView::Vec(Seq::new(blobs.len(), |k: int| ValueView::Bytes(blobs[k]))),
            ),
        ) == Stored::Ok(AttributeView::Bs(blobs)),
{
    lemma_keys();
    let strings = Seq::new(texts.len(), |k: int| ValueView::String(texts[k]));
    let integers = Seq::new(numbers.len(), |k: int| ValueView::Integer(numbers[k]));
    let bytes = Seq::new(blobs.len(), |k: int| ValueView::Bytes(blobs[k]));
    lemma_all_elements(SetKind::Strings, strings);
    lemma_all_elements(SetKind::Numbers, integers);
    lemma_all_elements(SetKind::Bytes, bytes);
    let s = elements_of(SetKind::Strings, strings, 0)->Ok_0;
    let n = elements_of(SetKind::Numbers, integers, 0)->Ok_0;
    let b = elements_of(SetKind::Bytes, bytes, 0)->Ok_0;
    assert(Seq::new(s.len(), |i: int| s[i]->S_0) =~= texts) by {
        assert forall|k: int| 0 <= k < texts.len() implies s[k]->S_0 == texts[k] by {
            assert(attribute_of(strings[k]) == Stored::Ok(s[k]));
        }
    }
    assert(Seq::new(n.len(), |i: int| n[i]->N_0) =~= Seq::new(
        numbers.len(),
        |k: int| NumberView::Text(int_text(numbers[k] as int)),
    )) by {
        assert forall|k: int| 0 <= k < numbers.len() implies n[k]->N_0 == NumberView::Text(
            int_text(numbers[k] as int),
        ) by {
            assert(attribute_of(integers[k]) == Stored::Ok(n[k]));
        }
    }
    assert(Seq::new(b.len(), |i: int| b[i]->B_0) =~= blobs) by {
        assert forall|k: int| 0 <= k < blobs.len() implies b[k]->B_0 == blobs[k] by {
            assert(attribute_of(bytes[k]) == Stored::Ok(b[k]));
        }
    }
}

/// Elements of the right type are all taken.
proof fn lemma_all_elements(kind: SetKind, items: Seq<ValueView>)
    requires
        forall|k: int|
            0 <= k < items.len() ==> match kind {
                SetKind::Strings => (#[trigger] items[k]) is String,
                SetKind::Numbers => items[k] is Integer,
                SetKind::Bytes => items[k] is Bytes,
            },
    ensures
        elements_of(kind, items, 0) matches Ok(elements) && elements.len() == items.len()
            && forall|k: int|
            0 <= k < items.len() ==> attribute_of(#[trigger] items[k]) == Stored::Ok(elements[k]),
{
    lemma_elements(kind, items, 0);
    let each = element_each(kind, items);
    assert(each.skip(0) =~= each);
    assert forall|k: int| 0 <= k < each.len() implies (#[trigger] each[k]) is Ok by {
        assert(match kind {
            SetKind::Strings => (items[k]) is String,
            SetKind::Numbers => items[k] is Integer,
            SetKind::Bytes => items[k] is Bytes,
        });
    }
    match elements_of(kind, items, 0) {
        Ok(elements) => {
            assert forall|k: int| 0 <= k < items.len() implies attribute_of(#[trigger] items[k])
                == Stored::Ok(elements[k]) by {
                assert(each[k] == Stored::Ok(elements[k]));
            }
        },
        Err(_) => {},
    }
}

/// A set that holds something else than a vector is told with its key.
pub proof fn sets_hold_vectors(value: ValueView)
    requires
        !(value is Vec),
    ensures
        attribute_of(single("__sset"@, value)) == Stored::Err(
            (AlternatorErrorView::ExpectedVector { key: "__sset"@ }),
        ),
        attribute_of(single("__nset"@, value)) == Stored::Err(
            (AlternatorErrorView::ExpectedVector { key: "__nset"@ }),
        ),
        attribute_of(single("__bset"@, value)) == Stored::Err(
            (AlternatorErrorView::ExpectedVector { key: "__bset"@ }),
        ),
{
    lemma_keys();
}

/// The first element of a set that is of another type is told, with the key of the set.
pub proof fn sets_hold_elements_of_their_type(items: Seq<ValueView>, k: int)
    requires
        0 <= k < items.len(),
    ensures
        ({
            let set = ValueView::Vec(items);
            &&& (forall|j: int| 0 <= j < k ==> (#[trigger] items[j]) is String) && (items[k]
                is Integer || items[k] is Float || items[k] is Bytes || items[k] is Bool)
                ==> attribute_of(single("__sset"@, set)) == Stored::Err(
                (AlternatorErrorView::InvalidSetElement { key: "__sset"@, item: items[k] }),
            )
            &&& (forall|j: int| 0 <= j < k ==> (#[trigger] items[j]) is Integer) && (items[k]
                is String || items[k] is Bytes || items[k] is Bool) ==> attribute_of(
                single("__nset"@, set),
            ) == Stored::Err(
                (AlternatorErrorView::InvalidSetElement { key: "__nset"@, item: items[k] }),
            )
            &&& (forall|j: int| 0 <= j < k ==> (#[trigger] items[j]) is Bytes) && (items[k]
                is Integer || items[k] is Float || items[k] is String || items[k] is Bool)
                ==> attribute_of(single("__bset"@, set)) == Stored::Err(
                (AlternatorErrorView::InvalidSetElement { key: "__bset"@, item: items[k] }),
            )
        }),
{
    lemma_keys();
    let strings = element_each(SetKind::Strings, items);
    let numbers = element_each(SetKind::Numbers, items);
    let blobs = element_each(SetKind::Bytes, items);
    if strings[k] is Err && (forall|j: int| 0 <= j < k ==> (#[trigger] items[j]) is String) {
        assert(all_ok_before(strings, k));
        lemma_first_error(SetKind::Strings, items, k);
    }
    if numbers[k] is Err && (forall|j: int| 0 <= j < k ==> (#[trigger] items[j]) is Integer) {
        assert(all_ok_before(numbers, k));
        lemma_first_error(SetKind::Numbers, items, k);
    }
    if blobs[k] is Err && (forall|j: int| 0 <= j < k ==> (#[trigger] items[j]) is Bytes) {
        assert(all_ok_before(blobs, k));
        lemma_first_error(SetKind::Bytes, items, k);
    }
}

/// The first error among the elements is that of the set.
proof fn lemma_first_error(kind: SetKind, items: Seq<ValueView>, k: int)
    requires
        0 <= k < items.len(),
        element_each(kind, items)[k] is Err,
        all_ok_before(element_each(kind, items), k),
    ensures
        elements_of(kind, items, 0) == Err::<Seq<AttributeView>, AlternatorErrorView>(
            element_each(kind, items)[k]->Err_0,
        ),
{
    let each = element_each(kind, items);
    lemma_elements(kind, items, 0);
    assert(each.skip(0) =~= each);
    match elements_of(kind, items, 0) {
        Ok(elements) => {
            assert(each[k] == Stored::Ok(elements[k]));
        },
        Err(e) => {
            let j = choose|j: int|
                0 <= j < each.len() && (#[trigger] each[j]) == Stored::Err(e) && all_ok_before(
                    each,
                    j,
                );
            if j < k {
                assert(each[j] is Ok);
            } else if k < j {
                assert(each[k] is Ok);
            }
        },
    }
}

/// Simple attributes are read as values of their own types.
pub proof fn simple_attributes_are_read(
    b: bool,
    f: FloatView,
    i: i64,
    text: Seq<char>,
    bytes: Seq<u8>,
)
    ensures
        value_of(AttributeView::Bool(b)) == Restored::Ok(ValueView::Bool(b)),
        value_of(AttributeView::S(text)) == Restored::Ok(ValueView::String(text)),
        value_of(AttributeView::B(bytes)) == Restored::Ok(ValueView::Bytes(bytes)),
        value_of(AttributeView::Null(b)) == Restored::Ok(ValueView::Option(None)),
        value_of(AttributeView::N(NumberView::Float(f))) == Restored::Ok(ValueView::Float(f)),
        value_of(AttributeView::N(NumberView::Text(int_text(i as int)))) == Restored::Ok(
            ValueView::Integer(i),
        ),
        value_of(AttributeView::Other(text)) == Restored::Err(
            AlternatorErrorView::UnsupportedAttribute(text),
        ),
{
    integers_read_back(i);
}

/// The text of a number is read as an integer where it denotes one of 64 bits, as a float where it
/// denotes another number, and is told where it denotes none.
pub proof fn number_texts_are_read(text: Seq<char>)
    ensures
        value_of(AttributeView::N(NumberView::Text(text))) == (match crate::numeral::i64_of_text(
            text,
        ) {
            Some(i) => Restored::Ok(ValueView::Integer(i)),
            None => if crate::numeral::is_float_text(text) {
                Restored::Ok(ValueView::Float(FloatView::Numeral(text)))
            } else {
                Restored::Err(AlternatorErrorView::InvalidNumber(text))
            },
        }),
{
}

/// The value of each attribute.
pub open spec fn restored_each(items: Seq<AttributeView>) -> Seq<Restored> {
    Seq::new(items.len(), |k: int| value_of(items[k]))
}

/// The value of each entry, under its name.
pub open spec fn restored_each_entry(
    entries: Seq<(Seq<char>, AttributeView)>,
) -> Seq<Result<(Seq<char>, ValueView), AlternatorErrorView>> {
    Seq::new(
        entries.len(),
        |k: int|
            match value_of(entries[k].1) {
                Ok(value) => Ok((entries[k].0, value)),
                Err(e) => Err(e),
            },
    )
}

/// A list is read as the vector of the values of its elements, and a map as the object of the
/// values of its entries, each under its own name, in order.
pub proof fn lists_and_maps_are_read_part_by_part(
    items: Seq<AttributeView>,
    entries: Seq<(Seq<char>, AttributeView)>,
)
    ensures
        match value_of(AttributeView::L(items)) {
            Ok(value) => value matches ValueView::Vec(values) && ok_of_each(
                restored_each(items),
                Ok::<Seq<ValueView>, AlternatorErrorView>(values),
            ),
            Err(e) => ok_of_each(
                restored_each(items),
                Err::<Seq<ValueView>, AlternatorErrorView>(e),
            ),
        },
        match value_of(AttributeView::M(entries)) {
            Ok(value) => value matches ValueView::Object(values) && ok_of_each(
                restored_each_entry(entries),
                Ok::<Seq<(Seq<char>, ValueView)>, AlternatorErrorView>(values),
            ),
            Err(e) => ok_of_each(
                restored_each_entry(entries),
                Err::<Seq<(Seq<char>, ValueView)>, AlternatorErrorView>(e),
            ),
        },
{
    lemma_values(items, 0);
    assert(restored_each(items).skip(0) =~= restored_each(items));
    lemma_value_entries(entries, 0);
    assert(restored_each_entry(entries).skip(0) =~= restored_each_entry(entries));
}

/// The same from the `i`-th element on.
proof fn lemma_values(items: Seq<AttributeView>, i: int)
    requires
        0 <= i <= items.len(),
    ensures
        ok_of_each(restored_each(items).skip(i), values_of(items, i)),
    decreases items.len() - i,
{
    let each = restored_each(items);
    if i < items.len() {
        lemma_values(items, i + 1);
        lemma_ok_of_first(each[i], each.skip(i + 1), values_of(items, i + 1));
        assert(seq![each[i]] + each.skip(i + 1) =~= each.skip(i));
    }
}

/// The same from the `i`-th entry on.
proof fn lemma_value_entries(entries: Seq<(Seq<char>, AttributeView)>, i: int)
    requires
        0 <= i <= entries.len(),
    ensures
        ok_of_each(restored_each_entry(entries).skip(i), value_entries_of(entries, i)),
    decreases entries.len() - i,
{
    let each = restored_each_entry(entries);
    if i < entries.len() {
        lemma_value_entries(entries, i + 1);
        lemma_ok_of_first(each[i], each.skip(i + 1), value_entries_of(entries, i + 1));
        assert(seq![each[i]] + each.skip(i + 1) =~= each.skip(i));
    }
}

/// The value of each number.
pub open spec fn restored_each_number(items: Seq<NumberView>) -> Seq<Restored> {
    Seq::new(items.len(), |k: int| value_of(AttributeView::N(items[k])))
}

/// A set is read as an object with the key of its kind, whose vector holds the very elements of the
/// set, in order.
pub proof fn sets_are_read_element_by_element(
    texts: Seq<Seq<char>>,
    numbers: Seq<NumberView>,
    blobs: Seq<Seq<u8>>,
)
    ensures
        value_of(AttributeView::Ss(texts)) == Restored::Ok(
            single(
                "__sset"@,
                ValueView::Vec(Seq::new(texts.len(), |k: int| ValueView::String(texts[k]))),
            ),
        ),
        value_of(AttributeView::Bs(blobs)) == Restored::Ok(
            single(
                "__bset"@,
                ValueView::Vec(Seq::new(blobs.len(), |k: int| ValueView::Bytes(blobs[k]))),
            ),
        ),
        match value_of(AttributeView::Ns(numbers)) {
            Ok(value) => exists|values: Seq<ValueView>|
                value == #[trigger] single("__nset"@, ValueView::Vec(values)) && ok_of_each(
                    restored_each_number(numbers),
                    Ok::<Seq<ValueView>, AlternatorErrorView>(values),
                ),
            Err(e) => ok_of_each(
                restored_each_number(numbers),
                Err::<Seq<ValueView>, AlternatorErrorView>(e),
            ),
        },
{
    lemma_keys();
    lemma_number_values(numbers, 0);
    assert(restored_each_number(numbers).skip(0) =~= restored_each_number(numbers));
    assert(Seq::new(texts.len(), |i: int| ValueView::String(texts[i])) =~= Seq::new(
        texts.len(),
        |k: int| ValueView::String(texts[k]),
    ));
    assert(Seq::new(blobs.len(), |i: int| ValueView::Bytes(blobs[i])) =~= Seq::new(
        blobs.len(),
        |k: int| ValueView::Bytes(blobs[k]),
    ));
    match number_values(numbers, 0) {
        Ok(values) => {
            assert(value_of(AttributeView::Ns(numbers)) == Restored::Ok(
                single("__nset"@, ValueView::Vec(values)),
            ));
        },
        Err(_) => {},
    }
}

/// The same from the `i`-th number on.
proof fn lemma_number_values(items: Seq<NumberView>, i: int)
    requires
        0 <= i <= items.len(),
    ensures
        ok_of_each(restored_each_number(items).skip(i), number_values(items, i)),
    decreases items.len() - i,
{
    let each = restored_each_number(items);
    if i < items.len() {
        assert(each[i] == number_value(items[i]));
        lemma_number_values(items, i + 1);
        lemma_ok_of_first(each[i], each.skip(i + 1), number_values(items, i + 1));
        assert(seq![each[i]] + each.skip(i + 1) =~= each.skip(i));
    }
}

} // verus!
