//! The dynamic values that workload scripts pass to and get from the database.
use vstd::prelude::*;

use crate::attempt::{all_done_before, comes_of_each, Attempt};

verus! {

/// A floating-point number, described by where it was read from.
///
/// The library carries such numbers without computing with them.
#[derive(Debug, PartialEq)]
pub enum Float {
    /// The bits of an IEEE-754 single precision number.
    Single(u32),
    /// The bits of an IEEE-754 double precision number.
    Double(u64),
    /// A numeral that denotes the number.
    Numeral(String),
    /// The single precision number nearest to another number.
    Rounded(Box<Float>),
}

/// What a [`Float`] stands for.
pub enum FloatView {
    Single(u32),
    Double(u64),
    Numeral(Seq<char>),
    Rounded(Box<FloatView>),
}

impl Float {
    pub open spec fn model(self) -> FloatView
        decreases self,
    {
        match self {
            Float::Single(bits) => FloatView::Single(bits),
            Float::Double(bits) => FloatView::Double(bits),
            Float::Numeral(text) => FloatView::Numeral(text@),
            Float::Rounded(f) => FloatView::Rounded(Box::new((*f).model())),
        }
    }

    /// Makes a copy of the number.
    pub fn duplicate(&self) -> (r: Float)
        ensures
            r@ == self@,
        decreases self,
    {
        match self {
            Float::Single(bits) => Float::Single(*bits),
            Float::Double(bits) => Float::Double(*bits),
            Float::Numeral(text) => Float::Numeral(text.clone()),
            Float::Rounded(f) => Float::Rounded(Box::new(f.duplicate())),
        }
    }
}

impl View for Float {
    type V = FloatView;

    open spec fn view(&self) -> FloatView {
        self.model()
    }
}

/// A value of the scripting language.
#[derive(Debug, PartialEq)]
pub enum Value {
    Bool(bool),
    Byte(u8),
    Integer(i64),
    Float(Float),
    String(String),
    Bytes(Vec<u8>),
    Vec(Vec<Value>),
    Tuple(Vec<Value>),
    /// The entries of an object, in the order in which the object is walked.
    Object(Vec<(String, Value)>),
    /// The fields of a struct, in the order in which they are walked.
    Struct(Vec<(String, Value)>),
    Option(Option<Box<Value>>),
    /// A native object that holds a UUID.
    Uuid(u128),
    /// Any other native object, with its description.
    Any(String),
    /// A value of any other type, with its description.
    Other(String),
}

/// What a [`Value`] stands for.
pub enum ValueView {
    Bool(bool),
    Byte(u8),
    Integer(i64),
    Float(FloatView),
    String(Seq<char>),
    Bytes(Seq<u8>),
    Vec(Seq<ValueView>),
    Tuple(Seq<ValueView>),
    Object(Seq<(Seq<char>, ValueView)>),
    Struct(Seq<(Seq<char>, ValueView)>),
    Option(Option<Box<ValueView>>),
    Uuid(u128),
    Any(Seq<char>),
    Other(Seq<char>),
}

/// The type of a [`Value`], as far as errors tell it.
#[derive(Debug, PartialEq, Eq, Clone, Copy)]
pub enum ValueKind {
    Bool,
    Byte,
    Integer,
    Float,
    String,
    Bytes,
    Vec,
    Tuple,
    Object,
    Struct,
    Option,
    Any,
    Other,
}

impl ValueView {
    /// The type of the value.
    pub open spec fn kind(self) -> ValueKind {
        match self {
            ValueView::Bool(_) => ValueKind::Bool,
            ValueView::Byte(_) => ValueKind::Byte,
            ValueView::Integer(_) => ValueKind::Integer,
            ValueView::Float(_) => ValueKind::Float,
            ValueView::String(_) => ValueKind::String,
            ValueView::Bytes(_) => ValueKind::Bytes,
            ValueView::Vec(_) => ValueKind::Vec,
            ValueView::Tuple(_) => ValueKind::Tuple,
            ValueView::Object(_) => ValueKind::Object,
            ValueView::Struct(_) => ValueKind::Struct,
            ValueView::Option(_) => ValueKind::Option,
            ValueView::Uuid(_) => ValueKind::Any,
            ValueView::Any(_) => ValueKind::Any,
            ValueView::Other(_) => ValueKind::Other,
        }
    }
}

/// The views of a sequence of values.
pub open spec fn models(items: Seq<Value>) -> Seq<ValueView> {
    Seq::new(items.len(), |i: int| items[i].model())
}

/// The views of a sequence of named values.
pub open spec fn entry_models(entries: Seq<(String, Value)>) -> Seq<(Seq<char>, ValueView)> {
    Seq::new(entries.len(), |i: int| (entries[i].0@, entries[i].1.model()))
}

impl Value {
    pub open spec fn model(self) -> ValueView
        decreases self,
    {
        match self {
            Value::Bool(b) => ValueView::Bool(b),
            Value::Byte(b) => ValueView::Byte(b),
            Value::Integer(i) => ValueView::Integer(i),
            Value::Float(f) => ValueView::Float(f.model()),
            Value::String(s) => ValueView::String(s@),
            Value::Bytes(b) => ValueView::Bytes(b@),
            Value::Vec(v) => ValueView::Vec(
                Seq::new(
                    v@.len(),
                    |i: int|
                        if 0 <= i < v@.len() {
                            v@[i].model()
                        } else {
                            arbitrary()
                        },
                ),
            ),
            Value::Tuple(v) => ValueView::Tuple(
                Seq::new(
                    v@.len(),
                    |i: int|
                        if 0 <= i < v@.len() {
                            v@[i].model()
                        } else {
                            arbitrary()
                        },
                ),
            ),
            Value::Object(v) => ValueView::Object(
                Seq::new(
                    v@.len(),
                    |i: int|
                        if 0 <= i < v@.len() {
                            (v@[i].0@, v@[i].1.model())
                        } else {
                            arbitrary()
                        },
                ),
            ),
            Value::Struct(v) => ValueView::Struct(
                Seq::new(
                    v@.len(),
                    |i: int|
                        if 0 <= i < v@.len() {
                            (v@[i].0@, v@[i].1.model())
                        } else {
                            arbitrary()
                        },
                ),
            ),
            Value::Option(None) => ValueView::Option(None),
            Value::Option(Some(v)) => ValueView::Option(Some(Box::new((*v).model()))),
            Value::Uuid(u) => ValueView::Uuid(u),
            Value::Any(s) => ValueView::Any(s@),
            Value::Other(s) => ValueView::Other(s@),
        }
    }

    /// The view of a value with parts, over the views of its parts.
    pub broadcast proof fn lemma_parts(self)
        ensures
            (#[trigger] self.model()) == (match self {
                Value::Vec(v) => ValueView::Vec(models(v@)),
                Value::Tuple(v) => ValueView::Tuple(models(v@)),
                Value::Object(v) => ValueView::Object(entry_models(v@)),
                Value::Struct(v) => ValueView::Struct(entry_models(v@)),
                _ => self.model(),
            }),
    {
        match self {
            Value::Vec(v) => {
                assert(self.model()->Vec_0 =~= models(v@));
            },
            Value::Tuple(v) => {
                assert(self.model()->Tuple_0 =~= models(v@));
            },
            Value::Object(v) => {
                assert(self.model()->Object_0 =~= entry_models(v@));
            },
            Value::Struct(v) => {
                assert(self.model()->Struct_0 =~= entry_models(v@));
            },
            _ => {},
        }
    }

    /// Tells the type of the value.
    pub fn kind(&self) -> (r: ValueKind)
        ensures
            r == self@.kind(),
    {
        match self {
            Value::Bool(_) => ValueKind::Bool,
            Value::Byte(_) => ValueKind::Byte,
            Value::Integer(_) => ValueKind::Integer,
            Value::Float(_) => ValueKind::Float,
            Value::String(_) => ValueKind::String,
            Value::Bytes(_) => ValueKind::Bytes,
            Value::Vec(_) => ValueKind::Vec,
            Value::Tuple(_) => ValueKind::Tuple,
            Value::Object(_) => ValueKind::Object,
            Value::Struct(_) => ValueKind::Struct,
            Value::Option(_) => ValueKind::Option,
            Value::Uuid(_) => ValueKind::Any,
            Value::Any(_) => ValueKind::Any,
            Value::Other(_) => ValueKind::Other,
        }
    }

    /// Makes a deep copy of the value.
    pub fn duplicate(&self) -> (r: Value)
        ensures
            r@ == self@,
        decreases self,
    {
        broadcast use Value::lemma_parts;

        match self {
            Value::Bool(b) => Value::Bool(*b),
            Value::Byte(b) => Value::Byte(*b),
            Value::Integer(i) => Value::Integer(*i),
            Value::Float(f) => Value::Float(f.duplicate()),
            Value::String(s) => Value::String(s.clone()),
            Value::Bytes(b) => Value::Bytes(copy_bytes(b)),
            Value::Vec(v) => {
                let copies = Value::duplicate_all(v);
                Value::Vec(copies)
            },
            Value::Tuple(v) => {
                let copies = Value::duplicate_all(v);
                Value::Tuple(copies)
            },
            Value::Object(v) => {
                let copies = Value::duplicate_entries(v);
                Value::Object(copies)
            },
            Value::Struct(v) => {
                let copies = Value::duplicate_entries(v);
                Value::Struct(copies)
            },
            Value::Option(None) => Value::Option(None),
            Value::Option(Some(v)) => Value::Option(Some(Box::new(v.duplicate()))),
            Value::Uuid(u) => Value::Uuid(*u),
            Value::Any(s) => Value::Any(s.clone()),
            Value::Other(s) => Value::Other(s.clone()),
        }
    }

    /// Makes deep copies of values.
    pub fn duplicate_all(items: &Vec<Value>) -> (r: Vec<Value>)
        ensures
            models(r@) == models(items@),
        decreases items,
    {
        let mut copies: Vec<Value> = Vec::new();
        let mut i: usize = 0;
        while i < items.len()
            invariant
                i <= items.len(),
                copies.len() == i,
                forall|k: int| 0 <= k < i ==> (#[trigger] copies[k]).model() == items[k].model(),
            decreases items.len() - i,
        {
            assert(decreases_to!(items@ => items@[i as int]));
            copies.push(items[i].duplicate());
            i += 1;
        }
        assert(models(copies@) =~= models(items@));
        copies
    }

    /// Makes deep copies of named values.
    pub fn duplicate_entries(entries: &Vec<(String, Value)>) -> (r: Vec<(String, Value)>)
        ensures
            entry_models(r@) == entry_models(entries@),
        decreases entries,
    {
        let mut copies: Vec<(String, Value)> = Vec::new();
        let mut i: usize = 0;
        while i < entries.len()
            invariant
                i <= entries.len(),
                copies.len() == i,
                forall|k: int|
                    0 <= k < i ==> (#[trigger] copies[k]).0@ == entries[k].0@
                        && copies[k].1.model() == entries[k].1.model(),
            decreases entries.len() - i,
        {
            assert(decreases_to!(entries@ => entries@[i as int]));
            assert(decreases_to!(entries@[i as int] => entries@[i as int].1));
            copies.push((entries[i].0.clone(), entries[i].1.duplicate()));
            i += 1;
        }
        assert(entry_models(copies@) =~= entry_models(entries@));
        copies
    }
}

impl View for Value {
    type V = ValueView;

    open spec fn view(&self) -> ValueView {
        self.model()
    }
}

/// Makes a copy of a byte string.
pub fn copy_bytes(bytes: &Vec<u8>) -> (r: Vec<u8>)
    ensures
        r@ == bytes@,
{
    let mut copy: Vec<u8> = Vec::new();
    let mut i: usize = 0;
    while i < bytes.len()
        invariant
            i <= bytes.len(),
            copy@ == bytes@.take(i as int),
        decreases bytes.len() - i,
    {
        copy.push(bytes[i]);
        i += 1;
        assert(bytes@.take(i as int) =~= bytes@.take(i - 1).push(bytes@[i - 1]));
    }
    assert(bytes@.take(bytes@.len() as int) =~= bytes@);
    copy
}

/// The position of the first entry under a name, if there is one.
pub open spec fn find_entry(entries: Seq<(Seq<char>, ValueView)>, name: Seq<char>) -> Option<int>
    decreases entries.len(),
{
    if entries.len() == 0 {
        None
    } else {
        match find_entry(entries.drop_last(), name) {
            Some(i) => Some(i),
            None => if entries.last().0 == name {
                Some(entries.len() - 1)
            } else {
                None
            },
        }
    }
}

/// What putting a value under a name makes of the entries of an object: an entry of that name
/// is replaced where it stands, else the new entry comes last.
pub open spec fn put_entry(
    entries: Seq<(Seq<char>, ValueView)>,
    name: Seq<char>,
    value: ValueView,
) -> Seq<(Seq<char>, ValueView)> {
    match find_entry(entries, name) {
        Some(i) => entries.update(i, (name, value)),
        None => entries.push((name, value)),
    }
}

/// The names of the entries differ from one another.
pub open spec fn distinct_names(entries: Seq<(Seq<char>, ValueView)>) -> bool {
    forall|i: int, j: int|
        0 <= i < j < entries.len() ==> (#[trigger] entries[i]).0 != (#[trigger] entries[j]).0
}

/// `find_entry` gives an entry of that name, and none only where no entry has it.
pub proof fn lemma_find_entry(entries: Seq<(Seq<char>, ValueView)>, name: Seq<char>)
    ensures
        match find_entry(entries, name) {
            Some(i) => {
                &&& 0 <= i < entries.len()
                &&& entries[i].0 == name
                &&& forall|k: int| 0 <= k < i ==> (#[trigger] entries[k]).0 != name
            },
            None => forall|k: int| 0 <= k < entries.len() ==> (#[trigger] entries[k]).0 != name,
        },
    decreases entries.len(),
{
    if entries.len() > 0 {
        let head = entries.drop_last();
        lemma_find_entry(head, name);
        assert forall|k: int| 0 <= k < head.len() implies head[k] == entries[k] by {}
        match find_entry(head, name) {
            Some(i) => {
                assert forall|k: int| 0 <= k < i implies (#[trigger] entries[k]).0 != name by {
                    assert(head[k].0 != name);
                }
            },
            None => {
                assert forall|k: int| 0 <= k < entries.len() - 1 implies (#[trigger] entries[k]).0
                    != name by {
                    assert(head[k].0 != name);
                }
            },
        }
    }
}

/// The entry that `find_entry` gives is the only candidate: a position that holds the name with
/// none before it is the one found.
pub proof fn lemma_find_entry_unique(
    entries: Seq<(Seq<char>, ValueView)>,
    name: Seq<char>,
    at: int,
)
    requires
        0 <= at < entries.len(),
        entries[at].0 == name,
        forall|k: int| 0 <= k < at ==> (#[trigger] entries[k]).0 != name,
    ensures
        find_entry(entries, name) == Some(at),
{
    lemma_find_entry(entries, name);
}

/// Putting a value under a name keeps the names of an object distinct.
pub proof fn put_entry_keeps_names_distinct(
    entries: Seq<(Seq<char>, ValueView)>,
    name: Seq<char>,
    value: ValueView,
)
    requires
        distinct_names(entries),
    ensures
        distinct_names(put_entry(entries, name, value)),
{
    lemma_find_entry(entries, name);
}

/// An object has the named values: every name has one entry, which holds the last value of that
/// name. Where the names differ, the entries are those values, in the same order.
#[verifier::opaque]
pub open spec fn is_object_of(
    names: Seq<Seq<char>>,
    values: Seq<ValueView>,
    entries: Seq<(Seq<char>, ValueView)>,
) -> bool {
    &&& distinct_names(entries)
    &&& forall|k: int| 0 <= k < names.len() ==> has_name(entries, #[trigger] names[k])
    &&& forall|e: int| 0 <= e < entries.len() ==> is_last_of(names, values, #[trigger] entries[e])
    &&& names.no_duplicates() ==> entries == Seq::new(
        names.len(),
        |k: int| (names[k], values[k]),
    )
}

/// There is an entry of the name.
pub open spec fn has_name(entries: Seq<(Seq<char>, ValueView)>, name: Seq<char>) -> bool {
    exists|e: int| 0 <= e < entries.len() && (#[trigger] entries[e]).0 == name
}

/// The entry holds the last of the values that have its name.
pub open spec fn is_last_of(
    names: Seq<Seq<char>>,
    values: Seq<ValueView>,
    entry: (Seq<char>, ValueView),
) -> bool {
    exists|k: int|
        0 <= k < names.len() && (#[trigger] names[k]) == entry.0 && values[k] == entry.1 && (
        forall|j: int| k < j < names.len() ==> (#[trigger] names[j]) != entry.0)
}

/// Putting one more value under its name into an object.
pub proof fn lemma_object_grows(
    names: Seq<Seq<char>>,
    values: Seq<ValueView>,
    entries: Seq<(Seq<char>, ValueView)>,
    name: Seq<char>,
    value: ValueView,
)
    requires
        names.len() == values.len(),
        is_object_of(names, values, entries),
    ensures
        is_object_of(names.push(name), values.push(value), put_entry(entries, name, value)),
{
    reveal(is_object_of);
    let more_names = names.push(name);
    let more_values = values.push(value);
    let more = put_entry(entries, name, value);
    put_entry_keeps_names_distinct(entries, name, value);
    lemma_find_entry(entries, name);
    let at = match find_entry(entries, name) {
        Some(i) => i,
        None => entries.len() as int,
    };
    assert(more[at] == (name, value));
    assert forall|k: int| 0 <= k < more_names.len() implies has_name(
        more,
        #[trigger] more_names[k],
    ) by {
        if k == names.len() {
            assert(more[at].0 == name);
        } else {
            assert(more_names[k] == names[k]);
            let e = choose|e: int| 0 <= e < entries.len() && (#[trigger] entries[e]).0 == names[k];
            assert(more[e].0 == names[k]);
        }
    }
    assert forall|e: int| 0 <= e < more.len() implies is_last_of(
        more_names,
        more_values,
        #[trigger] more[e],
    ) by {
        if e == at {
            assert(more_names[names.len() as int] == name);
            assert(more_values[names.len() as int] == value);
        } else {
            assert(more[e] == entries[e]);
            let k = choose|k: int|
                0 <= k < names.len() && (#[trigger] names[k]) == entries[e].0 && values[k]
                    == entries[e].1 && (forall|j: int|
                    k < j < names.len() ==> (#[trigger] names[j]) != entries[e].0);
            assert(more_names[k] == names[k] && more_values[k] == values[k]);
            assert(entries[e].0 != name);
            assert forall|j: int| k < j < more_names.len() implies (#[trigger] more_names[j])
                != more[e].0 by {
                if j < names.len() {
                    assert(more_names[j] == names[j]);
                }
            }
        }
    }
    if more_names.no_duplicates() {
        assert(names.no_duplicates()) by {
            assert forall|i: int, j: int|
                0 <= i < names.len() && 0 <= j < names.len() && i != j implies names[i]
                != names[j] by {
                assert(more_names[i] != more_names[j]);
            }
        }
        if find_entry(entries, name) is Some {
            assert(entries[at].0 == names[at]);
            assert(more_names[at] != more_names[names.len() as int]);
            assert(false);
        }
        assert(more =~= Seq::new(
            more_names.len(),
            |k: int| (more_names[k], more_values[k]),
        ));
    }
}

/// An object without values is empty.
pub proof fn lemma_object_of_nothing()
    ensures
        is_object_of(Seq::empty(), Seq::empty(), Seq::empty()),
{
    reveal(is_object_of);
    assert(Seq::<(Seq<char>, ValueView)>::empty() =~= Seq::new(
        0,
        |k: int| (Seq::<Seq<char>>::empty()[k], Seq::<ValueView>::empty()[k]),
    ));
}

/// One more named value, in order.
pub proof fn lemma_object_step(
    names: Seq<Seq<char>>,
    values: Seq<ValueView>,
    i: int,
    entries: Seq<(Seq<char>, ValueView)>,
)
    requires
        0 <= i < names.len(),
        names.len() == values.len(),
        is_object_of(names.take(i), values.take(i), entries),
    ensures
        is_object_of(
            names.take(i + 1),
            values.take(i + 1),
            put_entry(entries, names[i], values[i]),
        ),
{
    lemma_object_grows(names.take(i), values.take(i), entries, names[i], values[i]);
    assert(names.take(i).push(names[i]) =~= names.take(i + 1));
    assert(values.take(i).push(values[i]) =~= values.take(i + 1));
}

/// The results of operations that all gave one.
pub open spec fn results_of<T, E>(each: Seq<Attempt<T, E>>) -> Seq<T> {
    Seq::new(each.len(), |k: int| each[k]->Done_0)
}

/// The entries of an object come of the operations on its parts: each part gave its own value,
/// which stands under its own name, or else the first that gave none decides.
pub open spec fn entries_of_each<E>(
    names: Seq<Seq<char>>,
    each: Seq<Attempt<ValueView, E>>,
    whole: Attempt<Seq<(Seq<char>, ValueView)>, E>,
) -> bool {
    match whole {
        Attempt::Done(entries) => all_done_before(each, each.len() as int) && is_object_of(
            names,
            results_of(each),
            entries,
        ),
        Attempt::Failed(e) => exists|k: int|
            0 <= k < each.len() && (#[trigger] each[k]) == Attempt::<ValueView, E>::Failed(e)
                && all_done_before(each, k),
        Attempt::Refused => exists|k: int|
            0 <= k < each.len() && (#[trigger] each[k]) is Refused && all_done_before(each, k),
    }
}

/// An object comes of the operations on its parts.
pub open spec fn object_of_each<E>(
    names: Seq<Seq<char>>,
    each: Seq<Attempt<ValueView, E>>,
    whole: Attempt<ValueView, E>,
) -> bool {
    match whole {
        Attempt::Done(value) => value matches ValueView::Object(entries) && entries_of_each(
            names,
            each,
            Attempt::<Seq<(Seq<char>, ValueView)>, E>::Done(entries),
        ),
        Attempt::Failed(e) => entries_of_each(
            names,
            each,
            Attempt::<Seq<(Seq<char>, ValueView)>, E>::Failed(e),
        ),
        Attempt::Refused => entries_of_each(
            names,
            each,
            Attempt::<Seq<(Seq<char>, ValueView)>, E>::Refused,
        ),
    }
}

/// A vector comes of the operations on its elements.
pub open spec fn vec_of_each<E>(
    each: Seq<Attempt<ValueView, E>>,
    whole: Attempt<ValueView, E>,
) -> bool {
    match whole {
        Attempt::Done(value) => value matches ValueView::Vec(items) && comes_of_each(
            each,
            Attempt::<Seq<ValueView>, E>::Done(items),
        ),
        Attempt::Failed(e) => comes_of_each(each, Attempt::<Seq<ValueView>, E>::Failed(e)),
        Attempt::Refused => comes_of_each(each, Attempt::<Seq<ValueView>, E>::Refused),
    }
}

/// The pair of two values, where both are there; else what the first that is missing gave.
pub open spec fn paired<E>(
    first: Attempt<ValueView, E>,
    second: Attempt<ValueView, E>,
) -> Attempt<ValueView, E> {
    if first is Done && second is Done {
        Attempt::Done(ValueView::Tuple(seq![first->Done_0, second->Done_0]))
    } else if first is Done {
        second
    } else {
        first
    }
}

/// Finds the value under a name.
pub fn get_entry<'a>(entries: &'a Vec<(String, Value)>, name: &String) -> (r: Option<usize>)
    ensures
        match r {
            Some(i) => i < entries.len() && find_entry(entry_models(entries@), name@) == Some(
                i as int,
            ),
            None => find_entry(entry_models(entries@), name@) is None,
        },
{
    let mut i: usize = 0;
    while i < entries.len()
        invariant
            i <= entries.len(),
            forall|k: int| 0 <= k < i ==> (#[trigger] entries[k]).0@ != name@,
        decreases entries.len() - i,
    {
        if entries[i].0 == *name {
            proof {
                lemma_find_entry_unique(entry_models(entries@), name@, i as int);
            }
            return Some(i);
        }
        i += 1;
    }
    proof {
        lemma_find_entry(entry_models(entries@), name@);
    }
    None
}

/// Puts a value under a name into the entries of an object.
pub fn insert_entry(entries: &mut Vec<(String, Value)>, name: String, value: Value)
    ensures
        entry_models(final(entries)@) == put_entry(entry_models(old(entries)@), name@, value@),
{
    let ghost before = entry_models(entries@);
    let ghost (n, v) = (name@, value@);
    match get_entry(entries, &name) {
        Some(i) => {
            entries.set(i, (name, value));
            assert(entry_models(entries@) =~= before.update(i as int, (n, v)));
        },
        None => {
            entries.push((name, value));
            assert(entry_models(entries@) =~= before.push((n, v)));
        },
    }
}

/// The type of a value is that of its variant. An identifier is of the same type as any other value
/// that is foreign to a script, and no two other variants share a type.
pub proof fn kinds_are_told_apart(value: ValueView)
    ensures
        value.kind() == ValueKind::Bool <==> value is Bool,
        value.kind() == ValueKind::Byte <==> value is Byte,
        value.kind() == ValueKind::Integer <==> value is Integer,
        value.kind() == ValueKind::Float <==> value is Float,
        value.kind() == ValueKind::String <==> value is String,
        value.kind() == ValueKind::Bytes <==> value is Bytes,
        value.kind() == ValueKind::Vec <==> value is Vec,
        value.kind() == ValueKind::Tuple <==> value is Tuple,
        value.kind() == ValueKind::Object <==> value is Object,
        value.kind() == ValueKind::Struct <==> value is Struct,
        value.kind() == ValueKind::Option <==> value is Option,
        value.kind() == ValueKind::Any <==> value is Uuid || value is Any,
        value.kind() == ValueKind::Other <==> value is Other,
{
}

} // verus!
