//! Conversion between script values and Alternator attributes.
use vstd::prelude::*;

use crate::attempt::{lemma_ok_after_all, lemma_ok_after_nothing, lemma_ok_after_push};
use crate::attempt::{ok_after, ok_and_rest};
use crate::numeral::{i64_of_text, integers_read_back, is_float, is_float_text, parse_i64};
use crate::text::{i64_text, int_text, same_text, texts};
use crate::value::{copy_bytes, entry_models, models, Float, FloatView, Value, ValueView};
use super::alternator_error::{AlternatorError, AlternatorErrorKind, AlternatorErrorView};
use super::alternator_error::ConversionProblem;

verus! {

/// The key of an object that stands for a set of strings.
pub const SSET_KEY: &'static str = "__sset";

/// The key of an object that stands for a set of numbers.
pub const NSET_KEY: &'static str = "__nset";

/// The key of an object that stands for a set of byte strings.
pub const BSET_KEY: &'static str = "__bset";

/// A number, which Alternator represents as a text.
#[derive(Debug, PartialEq)]
pub enum Number {
    /// The text itself.
    Text(String),
    /// The shortest text that denotes the float, with a decimal point or an exponent to tell it
    /// from an integer.
    Float(Float),
}

/// An attribute of an item.
#[derive(Debug, PartialEq)]
pub enum AttributeValue {
    Bool(bool),
    N(Number),
    S(String),
    B(Vec<u8>),
    L(Vec<AttributeValue>),
    /// The entries of a map, in the order in which the map is walked.
    M(Vec<(String, AttributeValue)>),
    Null(bool),
    Ss(Vec<String>),
    Ns(Vec<Number>),
    Bs(Vec<Vec<u8>>),
    /// An attribute of any other type, with its description.
    Other(String),
}

/// What a [`Number`] stands for.
pub enum NumberView {
    Text(Seq<char>),
    Float(FloatView),
}

/// What an [`AttributeValue`] stands for.
pub enum AttributeView {
    Bool(bool),
    N(NumberView),
    S(Seq<char>),
    B(Seq<u8>),
    L(Seq<AttributeView>),
    M(Seq<(Seq<char>, AttributeView)>),
    Null(bool),
    Ss(Seq<Seq<char>>),
    Ns(Seq<NumberView>),
    Bs(Seq<Seq<u8>>),
    Other(Seq<char>),
}

impl View for Number {
    type V = NumberView;

    open spec fn view(&self) -> NumberView {
        match self {
            Number::Text(s) => NumberView::Text(s@),
            Number::Float(f) => NumberView::Float(f@),
        }
    }
}

/// The views of numbers.
pub open spec fn number_models(numbers: Seq<Number>) -> Seq<NumberView> {
    Seq::new(numbers.len(), |i: int| numbers[i]@)
}

/// The views of byte strings.
pub open spec fn bytes_models(items: Seq<Vec<u8>>) -> Seq<Seq<u8>> {
    Seq::new(items.len(), |i: int| items[i]@)
}

/// The views of attributes.
pub open spec fn attribute_models(items: Seq<AttributeValue>) -> Seq<AttributeView> {
    Seq::new(items.len(), |i: int| items[i].model())
}

/// The views of the entries of a map.
pub open spec fn attribute_entry_models(items: Seq<(String, AttributeValue)>) -> Seq<
    (Seq<char>, AttributeView),
> {
    Seq::new(items.len(), |i: int| (items[i].0@, items[i].1.model()))
}

impl AttributeValue {
    pub open spec fn model(self) -> AttributeView
        decreases self,
    {
        match self {
            AttributeValue::Bool(b) => AttributeView::Bool(b),
            AttributeValue::N(n) => AttributeView::N(n@),
            AttributeValue::S(s) => AttributeView::S(s@),
            AttributeValue::B(b) => AttributeView::B(b@),
            AttributeValue::L(items) => AttributeView::L(
                Seq::new(
                    items@.len(),
                    |i: int|
                        if 0 <= i < items@.len() {
                            items@[i].model()
                        } else {
                            arbitrary()
                        },
                ),
            ),
            AttributeValue::M(entries) => AttributeView::M(
                Seq::new(
                    entries@.len(),
                    |i: int|
                        if 0 <= i < entries@.len() {
                            (entries@[i].0@, entries@[i].1.model())
                        } else {
                            arbitrary()
                        },
                ),
            ),
            AttributeValue::Null(b) => AttributeView::Null(b),
            AttributeValue::Ss(items) => AttributeView::Ss(texts(items@)),
            AttributeValue::Ns(items) => AttributeView::Ns(number_models(items@)),
            AttributeValue::Bs(items) => AttributeView::Bs(bytes_models(items@)),
            AttributeValue::Other(s) => AttributeView::Other(s@),
        }
    }

    /// The view of an attribute with parts, over the views of its parts.
    pub broadcast proof fn lemma_parts(self)
        ensures
            (#[trigger] self.model()) == (match self {
                AttributeValue::L(items) => AttributeView::L(attribute_models(items@)),
                AttributeValue::M(entries) => AttributeView::M(attribute_entry_models(entries@)),
                _ => self.model(),
            }),
    {
        match self {
            AttributeValue::L(items) => {
                assert(self.model()->L_0 =~= attribute_models(items@));
            },
            AttributeValue::M(entries) => {
                assert(self.model()->M_0 =~= attribute_entry_models(entries@));
            },
            _ => {},
        }
    }
}

impl View for AttributeValue {
    type V = AttributeView;

    open spec fn view(&self) -> AttributeView {
        self.model()
    }
}

/// The sets that Alternator has.
#[derive(Debug, Clone, Copy, PartialEq, Eq, Structural)]
pub enum SetKind {
    Strings,
    Numbers,
    Bytes,
}

/// The key of an object that stands for a set.
pub open spec fn set_key(kind: SetKind) -> Seq<char> {
    match kind {
        SetKind::Strings => SSET_KEY@,
        SetKind::Numbers => NSET_KEY@,
        SetKind::Bytes => BSET_KEY@,
    }
}

/// The set that the entries of an object stand for: there is just one entry, and it has one of
/// the special keys.
pub open spec fn set_of(entries: Seq<(Seq<char>, ValueView)>) -> Option<SetKind> {
    if entries.len() != 1 {
        None
    } else if entries[0].0 == SSET_KEY@ {
        Some(SetKind::Strings)
    } else if entries[0].0 == NSET_KEY@ {
        Some(SetKind::Numbers)
    } else if entries[0].0 == BSET_KEY@ {
        Some(SetKind::Bytes)
    } else {
        None
    }
}

/// The attribute can be an element of the set.
pub open spec fn is_element(kind: SetKind, attribute: AttributeView) -> bool {
    match kind {
        SetKind::Strings => attribute is S,
        SetKind::Numbers => attribute is N,
        SetKind::Bytes => attribute is B,
    }
}

/// The set of the given elements.
pub open spec fn set_attribute(kind: SetKind, elements: Seq<AttributeView>) -> AttributeView {
    match kind {
        SetKind::Strings => AttributeView::Ss(Seq::new(elements.len(), |i: int| elements[i]->S_0)),
        SetKind::Numbers => AttributeView::Ns(Seq::new(elements.len(), |i: int| elements[i]->N_0)),
        SetKind::Bytes => AttributeView::Bs(Seq::new(elements.len(), |i: int| elements[i]->B_0)),
    }
}

/// The attribute of a value.
pub open spec fn attribute_of(value: ValueView) -> Result<AttributeView, AlternatorErrorView>
    decreases value, 0nat,
{
    match value {
        ValueView::Bool(b) => Ok(AttributeView::Bool(b)),
        ValueView::Integer(i) => Ok(AttributeView::N(NumberView::Text(int_text(i as int)))),
        ValueView::Float(f) => Ok(AttributeView::N(NumberView::Float(f))),
        ValueView::String(s) => Ok(AttributeView::S(s)),
        ValueView::Bytes(b) => Ok(AttributeView::B(b)),
        ValueView::Vec(items) => match attributes_of(items, 0) {
            Ok(items) => Ok(AttributeView::L(items)),
            Err(e) => Err(e),
        },
        ValueView::Object(entries) => match set_of(entries) {
            Some(kind) => if entries.len() == 1 {
                match entries[0].1 {
                    ValueView::Vec(items) => match elements_of(kind, items, 0) {
                        Ok(elements) => Ok(set_attribute(kind, elements)),
                        Err(e) => Err(e),
                    },
                    _ => Err(AlternatorErrorView::ExpectedVector { key: set_key(kind) }),
                }
            } else {
                Err(AlternatorErrorView::UnsupportedValue(value))
            },
            None => match attribute_entries_of(entries, 0) {
                Ok(entries) => Ok(AttributeView::M(entries)),
                Err(e) => Err(e),
            },
        },
        ValueView::Option(Some(inner)) => attribute_of(*inner),
        ValueView::Option(None) => Ok(AttributeView::Null(true)),
        _ => Err(AlternatorErrorView::UnsupportedValue(value)),
    }
}

/// The attributes of the values from the `i`-th on.
pub open spec fn attributes_of(items: Seq<ValueView>, i: int) -> Result<
    Seq<AttributeView>,
    AlternatorErrorView,
>
    decreases items, items.len() - i,
{
    if i < 0 || i >= items.len() {
        Ok(Seq::empty())
    } else {
        ok_and_rest(attribute_of(items[i]), attributes_of(items, i + 1))
    }
}

/// The attributes of the elements of a set from the `i`-th on.
pub open spec fn elements_of(kind: SetKind, items: Seq<ValueView>, i: int) -> Result<
    Seq<AttributeView>,
    AlternatorErrorView,
>
    decreases items, items.len() - i,
{
    if i < 0 || i >= items.len() {
        Ok(Seq::empty())
    } else {
        ok_and_rest(
            match attribute_of(items[i]) {
                Ok(attribute) => if is_element(kind, attribute) {
                    Ok(attribute)
                } else {
                    Err(
                        AlternatorErrorView::InvalidSetElement {
                            key: set_key(kind),
                            item: items[i],
                        },
                    )
                },
                Err(e) => Err(e),
            },
            elements_of(kind, items, i + 1),
        )
    }
}

/// The attributes of the entries of an object from the `i`-th on.
pub open spec fn attribute_entries_of(entries: Seq<(Seq<char>, ValueView)>, i: int) -> Result<
    Seq<(Seq<char>, AttributeView)>,
    AlternatorErrorView,
>
    decreases entries, entries.len() - i,
{
    if i < 0 || i >= entries.len() {
        Ok(Seq::empty())
    } else {
        ok_and_rest(
            match attribute_of(entries[i].1) {
                Ok(attribute) => Ok((entries[i].0, attribute)),
                Err(e) => Err(e),
            },
            attribute_entries_of(entries, i + 1),
        )
    }
}

/// The value of a number: an integer if its text denotes one, and else a float.
pub open spec fn number_value(number: NumberView) -> Result<ValueView, AlternatorErrorView> {
    match number {
        NumberView::Float(f) => Ok(ValueView::Float(f)),
        NumberView::Text(s) => match i64_of_text(s) {
            Some(i) => Ok(ValueView::Integer(i)),
            None => if is_float_text(s) {
                Ok(ValueView::Float(FloatView::Numeral(s)))
            } else {
                Err(AlternatorErrorView::InvalidNumber(s))
            },
        },
    }
}

/// The object that stands for a set.
pub open spec fn set_value(kind: SetKind, items: Seq<ValueView>) -> ValueView {
    ValueView::Object(seq![(set_key(kind), ValueView::Vec(items))])
}

/// The value of an attribute.
pub open spec fn value_of(attribute: AttributeView) -> Result<ValueView, AlternatorErrorView>
    decreases attribute, 0nat,
{
    match attribute {
        AttributeView::Bool(b) => Ok(ValueView::Bool(b)),
        AttributeView::N(n) => number_value(n),
        AttributeView::S(s) => Ok(ValueView::String(s)),
        AttributeView::B(b) => Ok(ValueView::Bytes(b)),
        AttributeView::L(items) => match values_of(items, 0) {
            Ok(items) => Ok(ValueView::Vec(items)),
            Err(e) => Err(e),
        },
        AttributeView::M(entries) => match value_entries_of(entries, 0) {
            Ok(entries) => Ok(ValueView::Object(entries)),
            Err(e) => Err(e),
        },
        AttributeView::Null(_) => Ok(ValueView::Option(None)),
        AttributeView::Ss(items) => Ok(
            set_value(
                SetKind::Strings,
                Seq::new(items.len(), |i: int| ValueView::String(items[i])),
            ),
        ),
        AttributeView::Ns(items) => match number_values(items, 0) {
            Ok(items) => Ok(set_value(SetKind::Numbers, items)),
            Err(e) => Err(e),
        },
        AttributeView::Bs(items) => Ok(
            set_value(
                SetKind::Bytes,
                Seq::new(items.len(), |i: int| ValueView::Bytes(items[i])),
            ),
        ),
        AttributeView::Other(s) => Err(AlternatorErrorView::UnsupportedAttribute(s)),
    }
}

/// The values of the attributes from the `i`-th on.
pub open spec fn values_of(items: Seq<AttributeView>, i: int) -> Result<
    Seq<ValueView>,
    AlternatorErrorView,
>
    decreases items, items.len() - i,
{
    if i < 0 || i >= items.len() {
        Ok(Seq::empty())
    } else {
        ok_and_rest(value_of(items[i]), values_of(items, i + 1))
    }
}

/// The values of the entries of a map from the `i`-th on.
pub open spec fn value_entries_of(entries: Seq<(Seq<char>, AttributeView)>, i: int) -> Result<
    Seq<(Seq<char>, ValueView)>,
    AlternatorErrorView,
>
    decreases entries, entries.len() - i,
{
    if i < 0 || i >= entries.len() {
        Ok(Seq::empty())
    } else {
        ok_and_rest(
            match value_of(entries[i].1) {
                Ok(value) => Ok((entries[i].0, value)),
                Err(e) => Err(e),
            },
            value_entries_of(entries, i + 1),
        )
    }
}

/// The values of the numbers from the `i`-th on.
pub open spec fn number_values(items: Seq<NumberView>, i: int) -> Result<
    Seq<ValueView>,
    AlternatorErrorView,
>
    decreases items.len() - i,
{
    if i < 0 || i >= items.len() {
        Ok(Seq::empty())
    } else {
        ok_and_rest(number_value(items[i]), number_values(items, i + 1))
    }
}

/// The view of a result that is one attribute.
pub open spec fn attribute_result(r: Result<AttributeValue, AlternatorError>) -> Result<
    AttributeView,
    AlternatorErrorView,
> {
    match r {
        Ok(v) => Ok(v@),
        Err(e) => Err(e@),
    }
}

/// The view of a result that is a sequence of attributes.
pub open spec fn attribute_results(r: Result<Vec<AttributeValue>, AlternatorError>) -> Result<
    Seq<AttributeView>,
    AlternatorErrorView,
> {
    match r {
        Ok(v) => Ok(attribute_models(v@)),
        Err(e) => Err(e@),
    }
}

/// The view of a result that is the entries of a map.
pub open spec fn attribute_entry_results(
    r: Result<Vec<(String, AttributeValue)>, AlternatorError>,
) -> Result<Seq<(Seq<char>, AttributeView)>, AlternatorErrorView> {
    match r {
        Ok(v) => Ok(attribute_entry_models(v@)),
        Err(e) => Err(e@),
    }
}

/// The view of a result that is one value.
pub open spec fn value_result(r: Result<Value, AlternatorError>) -> Result<
    ValueView,
    AlternatorErrorView,
> {
    match r {
        Ok(v) => Ok(v@),
        Err(e) => Err(e@),
    }
}

/// The view of a result that is a sequence of values.
pub open spec fn value_results(r: Result<Vec<Value>, AlternatorError>) -> Result<
    Seq<ValueView>,
    AlternatorErrorView,
> {
    match r {
        Ok(v) => Ok(models(v@)),
        Err(e) => Err(e@),
    }
}

/// The view of a result that is the entries of an object.
pub open spec fn value_entry_results(r: Result<Vec<(String, Value)>, AlternatorError>) -> Result<
    Seq<(Seq<char>, ValueView)>,
    AlternatorErrorView,
> {
    match r {
        Ok(v) => Ok(entry_models(v@)),
        Err(e) => Err(e@),
    }
}

/// Tells the key of an object that stands for a set.
fn key_of(kind: SetKind) -> (r: &'static str)
    ensures
        r@ == set_key(kind),
{
    match kind {
        SetKind::Strings => SSET_KEY,
        SetKind::Numbers => NSET_KEY,
        SetKind::Bytes => BSET_KEY,
    }
}

/// Tells which set an object stands for.
fn find_set(entries: &Vec<(String, Value)>) -> (r: Option<SetKind>)
    ensures
        r == set_of(entry_models(entries@)),
{
    if entries.len() != 1 {
        return None;
    }
    assert(entry_models(entries@)[0].0 == entries[0].0@);
    let key = entries[0].0.as_str();
    if same_text(key, SSET_KEY) {
        Some(SetKind::Strings)
    } else if same_text(key, NSET_KEY) {
        Some(SetKind::Numbers)
    } else if same_text(key, BSET_KEY) {
        Some(SetKind::Bytes)
    } else {
        None
    }
}

/// Converts the elements of a vector.
fn vec_to_alternator(items: &Vec<Value>) -> (r: Result<Vec<AttributeValue>, AlternatorError>)
    ensures
        attribute_results(r) == attributes_of(models(items@), 0),
    decreases items, 1nat,
{
    let mut done: Vec<AttributeValue> = Vec::new();
    let mut i: usize = 0;
    assert(attribute_models(done@) =~= Seq::empty());
    proof {
        lemma_ok_after_nothing(attributes_of(models(items@), 0));
    }
    while i < items.len()
        invariant
            i <= items.len(),
            attributes_of(models(items@), 0) == ok_after(
                attribute_models(done@),
                attributes_of(models(items@), i as int),
            ),
        decreases items.len() - i,
    {
        assert(decreases_to!(items@ => items@[i as int]));
        let ghost before = attribute_models(done@);
        match rune_value_to_alternator_attribute(&items[i]) {
            Ok(attribute) => {
                let ghost pushed = attribute@;
                proof {
                    lemma_ok_after_push(before, pushed, attributes_of(models(items@), i + 1));
                }
                done.push(attribute);
                assert(attribute_models(done@) =~= before.push(pushed));
                i += 1;
            },
            Err(e) => {
                return Err(e);
            },
        }
    }
    proof {
        lemma_ok_after_all::<AttributeView, AlternatorErrorView>(attribute_models(done@));
    }
    Ok(done)
}

/// The elements of a set, one list for each type.
struct Elements {
    strings: Vec<String>,
    numbers: Vec<Number>,
    bytes: Vec<Vec<u8>>,
}

impl Elements {
    /// The set of these elements.
    spec fn set(self, kind: SetKind) -> AttributeView {
        match kind {
            SetKind::Strings => AttributeView::Ss(texts(self.strings@)),
            SetKind::Numbers => AttributeView::Ns(number_models(self.numbers@)),
            SetKind::Bytes => AttributeView::Bs(bytes_models(self.bytes@)),
        }
    }

    /// Adds an element; tells whether it is of the type of the set.
    fn push(&mut self, kind: SetKind, attribute: AttributeValue, Ghost(so_far): Ghost<
        Seq<AttributeView>,
    >) -> (r: bool)
        requires
            old(self).set(kind) == set_attribute(kind, so_far),
        ensures
            r == is_element(kind, attribute@),
            r ==> final(self).set(kind) == set_attribute(kind, so_far.push(attribute@)),
    {
        let ghost added = attribute@;
        match (kind, attribute) {
            (SetKind::Strings, AttributeValue::S(s)) => {
                self.strings.push(s);
                assert(texts(self.strings@) =~= texts(old(self).strings@).push(added->S_0));
                assert(self.set(kind)->Ss_0 =~= set_attribute(kind, so_far.push(added))->Ss_0);
                true
            },
            (SetKind::Numbers, AttributeValue::N(n)) => {
                self.numbers.push(n);
                assert(number_models(self.numbers@) =~= number_models(old(self).numbers@).push(
                    added->N_0,
                ));
                assert(self.set(kind)->Ns_0 =~= set_attribute(kind, so_far.push(added))->Ns_0);
                true
            },
            (SetKind::Bytes, AttributeValue::B(b)) => {
                self.bytes.push(b);
                assert(bytes_models(self.bytes@) =~= bytes_models(old(self).bytes@).push(
                    added->B_0,
                ));
                assert(self.set(kind)->Bs_0 =~= set_attribute(kind, so_far.push(added))->Bs_0);
                true
            },
            _ => false,
        }
    }
}

/// Converts the vector of the elements of a set.
fn rune_set_to_alternator(value: &Value, kind: SetKind) -> (r: Result<
    AttributeValue,
    AlternatorError,
>)
    ensures
        attribute_result(r) == (match value@ {
            ValueView::Vec(items) => match elements_of(kind, items, 0) {
                Ok(elements) => Ok(set_attribute(kind, elements)),
                Err(e) => Err(e),
            },
            _ => Err(AlternatorErrorView::ExpectedVector { key: set_key(kind) }),
        }),
    decreases value, 1nat,
{
    broadcast use Value::lemma_parts;

    let items = match value {
        Value::Vec(items) => items,
        _ => {
            return Err(
                AlternatorError::new(
                    AlternatorErrorKind::ConversionError(
                        ConversionProblem::ExpectedVector { key: key_of(kind).to_owned() },
                    ),
                ),
            );
        },
    };
    let mut elements = Elements { strings: Vec::new(), numbers: Vec::new(), bytes: Vec::new() };
    let ghost mut so_far: Seq<AttributeView> = Seq::empty();
    let mut i: usize = 0;
    proof {
        lemma_ok_after_nothing(elements_of(kind, models(items@), 0));
        assert(texts(elements.strings@) =~= Seq::empty());
        assert(number_models(elements.numbers@) =~= Seq::empty());
        assert(bytes_models(elements.bytes@) =~= Seq::empty());
        assert(set_attribute(SetKind::Strings, so_far)->Ss_0 =~= Seq::empty());
        assert(set_attribute(SetKind::Numbers, so_far)->Ns_0 =~= Seq::empty());
        assert(set_attribute(SetKind::Bytes, so_far)->Bs_0 =~= Seq::empty());
    }
    while i < items.len()
        invariant
            decreases_to!(value => items@),
            i <= items.len(),
            elements.set(kind) == set_attribute(kind, so_far),
            elements_of(kind, models(items@), 0) == ok_after(
                so_far,
                elements_of(kind, models(items@), i as int),
            ),
            value@ == ValueView::Vec(models(items@)),
        decreases items.len() - i,
    {
        assert(decreases_to!(items@ => items@[i as int]));
        match rune_value_to_alternator_attribute(&items[i]) {
            Ok(attribute) => {
                let ghost pushed = attribute@;
                if !elements.push(kind, attribute, Ghost(so_far)) {
                    return Err(
                        AlternatorError::new(
                            AlternatorErrorKind::ConversionError(
                                ConversionProblem::InvalidSetElement {
                                    key: key_of(kind).to_owned(),
                                    item: items[i].duplicate(),
                                },
                            ),
                        ),
                    );
                }
                proof {
                    lemma_ok_after_push(
                        so_far,
                        pushed,
                        elements_of(kind, models(items@), i + 1),
                    );
                    so_far = so_far.push(pushed);
                }
                i += 1;
            },
            Err(e) => {
                return Err(e);
            },
        }
    }
    proof {
        lemma_ok_after_all::<AttributeView, AlternatorErrorView>(so_far);
    }
    Ok(
        match kind {
            SetKind::Strings => AttributeValue::Ss(elements.strings),
            SetKind::Numbers => AttributeValue::Ns(elements.numbers),
            SetKind::Bytes => AttributeValue::Bs(elements.bytes),
        },
    )
}

/// Converts a script value to an attribute.
pub fn rune_value_to_alternator_attribute(v: &Value) -> (r: Result<AttributeValue, AlternatorError>)
    ensures
        attribute_result(r) == attribute_of(v@),
    decreases v, 0nat,
{
    broadcast use Value::lemma_parts, AttributeValue::lemma_parts;

    match v {
        Value::Bool(b) => Ok(AttributeValue::Bool(*b)),
        Value::Integer(i) => Ok(AttributeValue::N(Number::Text(i64_text(*i)))),
        Value::Float(f) => Ok(AttributeValue::N(Number::Float(f.duplicate()))),
        Value::String(s) => Ok(AttributeValue::S(s.clone())),
        Value::Bytes(b) => Ok(AttributeValue::B(copy_bytes(b))),
        Value::Vec(items) => match vec_to_alternator(items) {
            Ok(items) => Ok(AttributeValue::L(items)),
            Err(e) => Err(e),
        },
        Value::Object(entries) => match find_set(entries) {
            Some(kind) => {
                assert(entry_models(entries@)[0].1 == entries[0].1@);
                assert(decreases_to!(v => entries@));
                assert(decreases_to!(entries@ => entries@[0]));
                assert(decreases_to!(entries@[0] => entries@[0].1));
                rune_set_to_alternator(&entries[0].1, kind)
            },
            None => match rune_object_to_alternator_map(entries) {
                Ok(entries) => Ok(AttributeValue::M(entries)),
                Err(e) => Err(e),
            },
        },
        Value::Option(Some(inner)) => rune_value_to_alternator_attribute(inner),
        Value::Option(None) => Ok(AttributeValue::Null(true)),
        _ => Err(
            AlternatorError::new(
                AlternatorErrorKind::ConversionError(
                    ConversionProblem::UnsupportedValue(v.duplicate()),
                ),
            ),
        ),
    }
}

/// Converts the entries of an object to those of a map.
pub fn rune_object_to_alternator_map(o: &Vec<(String, Value)>) -> (r: Result<
    Vec<(String, AttributeValue)>,
    AlternatorError,
>)
    ensures
        attribute_entry_results(r) == attribute_entries_of(entry_models(o@), 0),
    decreases o, 1nat,
{
    let mut done: Vec<(String, AttributeValue)> = Vec::new();
    let mut i: usize = 0;
    assert(attribute_entry_models(done@) =~= Seq::empty());
    proof {
        lemma_ok_after_nothing(attribute_entries_of(entry_models(o@), 0));
    }
    while i < o.len()
        invariant
            i <= o.len(),
            attribute_entries_of(entry_models(o@), 0) == ok_after(
                attribute_entry_models(done@),
                attribute_entries_of(entry_models(o@), i as int),
            ),
        decreases o.len() - i,
    {
        assert(decreases_to!(o@ => o@[i as int]));
        assert(decreases_to!(o@[i as int] => o@[i as int].1));
        let ghost before = attribute_entry_models(done@);
        match rune_value_to_alternator_attribute(&o[i].1) {
            Ok(attribute) => {
                let ghost pushed = (o[i as int].0@, attribute@);
                proof {
                    lemma_ok_after_push(
                        before,
                        pushed,
                        attribute_entries_of(entry_models(o@), i + 1),
                    );
                }
                done.push((o[i].0.clone(), attribute));
                assert(attribute_entry_models(done@) =~= before.push(pushed));
                i += 1;
            },
            Err(e) => {
                return Err(e);
            },
        }
    }
    proof {
        lemma_ok_after_all::<(Seq<char>, AttributeView), AlternatorErrorView>(
            attribute_entry_models(done@),
        );
    }
    Ok(done)
}

/// Converts a number.
fn number_to_value(number: &Number) -> (r: Result<Value, AlternatorError>)
    ensures
        value_result(r) == number_value(number@),
{
    match number {
        Number::Float(f) => Ok(Value::Float(f.duplicate())),
        Number::Text(s) => match parse_i64(s.as_str()) {
            Some(i) => Ok(Value::Integer(i)),
            None => if is_float(s.as_str()) {
                Ok(Value::Float(Float::Numeral(s.clone())))
            } else {
                Err(
                    AlternatorError::new(
                        AlternatorErrorKind::ConversionError(
                            ConversionProblem::InvalidNumber(s.clone()),
                        ),
                    ),
                )
            },
        },
    }
}

/// Converts numbers.
fn numbers_to_values(numbers: &Vec<Number>) -> (r: Result<Vec<Value>, AlternatorError>)
    ensures
        value_results(r) == number_values(number_models(numbers@), 0),
{
    let mut done: Vec<Value> = Vec::new();
    let mut i: usize = 0;
    assert(models(done@) =~= Seq::empty());
    proof {
        lemma_ok_after_nothing(number_values(number_models(numbers@), 0));
    }
    while i < numbers.len()
        invariant
            i <= numbers.len(),
            number_values(number_models(numbers@), 0) == ok_after(
                models(done@),
                number_values(number_models(numbers@), i as int),
            ),
        decreases numbers.len() - i,
    {
        let ghost before = models(done@);
        match number_to_value(&numbers[i]) {
            Ok(value) => {
                let ghost pushed = value@;
                proof {
                    lemma_ok_after_push(
                        before,
                        pushed,
                        number_values(number_models(numbers@), i + 1),
                    );
                }
                done.push(value);
                assert(models(done@) =~= before.push(pushed));
                i += 1;
            },
            Err(e) => {
                return Err(e);
            },
        }
    }
    proof {
        lemma_ok_after_all::<ValueView, AlternatorErrorView>(models(done@));
    }
    Ok(done)
}

/// Makes the object that stands for a set of converted elements.
fn alternator_set_to_rune(kind: SetKind, items: Vec<Value>) -> (r: Value)
    ensures
        r@ == set_value(kind, models(items@)),
{
    broadcast use Value::lemma_parts;

    let mut entries: Vec<(String, Value)> = Vec::new();
    let ghost elements = models(items@);
    entries.push((key_of(kind).to_owned(), Value::Vec(items)));
    assert(entry_models(entries@) =~= set_value(kind, elements)->Object_0);
    Value::Object(entries)
}

/// Converts the elements of a list.
fn list_to_values(items: &Vec<AttributeValue>) -> (r: Result<Vec<Value>, AlternatorError>)
    ensures
        value_results(r) == values_of(attribute_models(items@), 0),
    decreases items, 1nat,
{
    let mut done: Vec<Value> = Vec::new();
    let mut i: usize = 0;
    assert(models(done@) =~= Seq::empty());
    proof {
        lemma_ok_after_nothing(values_of(attribute_models(items@), 0));
    }
    while i < items.len()
        invariant
            i <= items.len(),
            values_of(attribute_models(items@), 0) == ok_after(
                models(done@),
                values_of(attribute_models(items@), i as int),
            ),
        decreases items.len() - i,
    {
        assert(decreases_to!(items@ => items@[i as int]));
        let ghost before = models(done@);
        match alternator_attribute_to_rune_value(&items[i]) {
            Ok(value) => {
                let ghost pushed = value@;
                proof {
                    lemma_ok_after_push(before, pushed, values_of(attribute_models(items@), i + 1));
                }
                done.push(value);
                assert(models(done@) =~= before.push(pushed));
                i += 1;
            },
            Err(e) => {
                return Err(e);
            },
        }
    }
    proof {
        lemma_ok_after_all::<ValueView, AlternatorErrorView>(models(done@));
    }
    Ok(done)
}

/// Converts the entries of a map.
fn map_to_entries(map: &Vec<(String, AttributeValue)>) -> (r: Result<
    Vec<(String, Value)>,
    AlternatorError,
>)
    ensures
        value_entry_results(r) == value_entries_of(attribute_entry_models(map@), 0),
    decreases map, 1nat,
{
    let mut done: Vec<(String, Value)> = Vec::new();
    let mut i: usize = 0;
    assert(entry_models(done@) =~= Seq::empty());
    proof {
        lemma_ok_after_nothing(value_entries_of(attribute_entry_models(map@), 0));
    }
    while i < map.len()
        invariant
            i <= map.len(),
            value_entries_of(attribute_entry_models(map@), 0) == ok_after(
                entry_models(done@),
                value_entries_of(attribute_entry_models(map@), i as int),
            ),
        decreases map.len() - i,
    {
        assert(decreases_to!(map@ => map@[i as int]));
        assert(decreases_to!(map@[i as int] => map@[i as int].1));
        let ghost before = entry_models(done@);
        match alternator_attribute_to_rune_value(&map[i].1) {
            Ok(value) => {
                let ghost pushed = (map[i as int].0@, value@);
                proof {
                    lemma_ok_after_push(
                        before,
                        pushed,
                        value_entries_of(attribute_entry_models(map@), i + 1),
                    );
                }
                done.push((map[i].0.clone(), value));
                assert(entry_models(done@) =~= before.push(pushed));
                i += 1;
            },
            Err(e) => {
                return Err(e);
            },
        }
    }
    proof {
        lemma_ok_after_all::<(Seq<char>, ValueView), AlternatorErrorView>(entry_models(done@));
    }
    Ok(done)
}

/// Converts an attribute to a script value.
pub fn alternator_attribute_to_rune_value(attr: &AttributeValue) -> (r: Result<
    Value,
    AlternatorError,
>)
    ensures
        value_result(r) == value_of(attr@),
    decreases attr, 0nat,
{
    broadcast use Value::lemma_parts, AttributeValue::lemma_parts;

    match attr {
        AttributeValue::Bool(b) => Ok(Value::Bool(*b)),
        AttributeValue::N(n) => number_to_value(n),
        AttributeValue::S(s) => Ok(Value::String(s.clone())),
        AttributeValue::B(b) => Ok(Value::Bytes(copy_bytes(b))),
        AttributeValue::L(items) => match list_to_values(items) {
            Ok(items) => Ok(Value::Vec(items)),
            Err(e) => Err(e),
        },
        AttributeValue::M(map) => match map_to_entries(map) {
            Ok(entries) => Ok(Value::Object(entries)),
            Err(e) => Err(e),
        },
        AttributeValue::Null(_) => Ok(Value::Option(None)),
        AttributeValue::Ss(items) => {
            let mut values: Vec<Value> = Vec::new();
            let mut i: usize = 0;
            while i < items.len()
                invariant
                    i <= items.len(),
                    values.len() == i,
                    forall|k: int|
                        0 <= k < i ==> (#[trigger] values[k])@ == ValueView::String(items[k]@),
                decreases items.len() - i,
            {
                values.push(Value::String(items[i].clone()));
                i += 1;
            }
            assert(models(values@) =~= Seq::new(
                items@.len(),
                |i: int| ValueView::String(texts(items@)[i]),
            ));
            Ok(alternator_set_to_rune(SetKind::Strings, values))
        },
        AttributeValue::Ns(items) => match numbers_to_values(items) {
            Ok(values) => Ok(alternator_set_to_rune(SetKind::Numbers, values)),
            Err(e) => Err(e),
        },
        AttributeValue::Bs(items) => {
            let mut values: Vec<Value> = Vec::new();
            let mut i: usize = 0;
            while i < items.len()
                invariant
                    i <= items.len(),
                    values.len() == i,
                    forall|k: int|
                        0 <= k < i ==> (#[trigger] values[k])@ == ValueView::Bytes(items[k]@),
                decreases items.len() - i,
            {
                values.push(Value::Bytes(copy_bytes(&items[i])));
                i += 1;
            }
            assert(models(values@) =~= Seq::new(
                items@.len(),
                |i: int| ValueView::Bytes(bytes_models(items@)[i]),
            ));
            Ok(alternator_set_to_rune(SetKind::Bytes, values))
        },
        AttributeValue::Other(s) => Err(
            AlternatorError::new(
                AlternatorErrorKind::ConversionError(
                    ConversionProblem::UnsupportedAttribute(s.clone()),
                ),
            ),
        ),
    }
}

/// Converts the entries of a map to a script object.
pub fn alternator_map_to_rune_object(map: &Vec<(String, AttributeValue)>) -> (r: Result<
    Value,
    AlternatorError,
>)
    ensures
        value_result(r) == (match value_entries_of(attribute_entry_models(map@), 0) {
            Ok(entries) => Ok(ValueView::Object(entries)),
            Err(e) => Err(e),
        }),
{
    broadcast use Value::lemma_parts;

    match map_to_entries(map) {
        Ok(entries) => Ok(Value::Object(entries)),
        Err(e) => Err(e),
    }
}

/// The value is an element of the set.
pub open spec fn is_set_item(kind: SetKind, value: ValueView) -> bool {
    match kind {
        SetKind::Strings => value is String,
        SetKind::Numbers => value is Integer || value is Float,
        SetKind::Bytes => value is Bytes,
    }
}

/// Alternator can store the value as it is.
pub open spec fn storable(value: ValueView) -> bool
    decreases value,
{
    match value {
        ValueView::Bool(_) => true,
        ValueView::Integer(_) => true,
        ValueView::Float(_) => true,
        ValueView::String(_) => true,
        ValueView::Bytes(_) => true,
        ValueView::Option(None) => true,
        ValueView::Vec(items) => forall|i: int|
            0 <= i < items.len() ==> storable(#[trigger] items[i]),
        ValueView::Object(entries) => match set_of(entries) {
            Some(kind) => match entries[0].1 {
                ValueView::Vec(items) => forall|i: int|
                    0 <= i < items.len() ==> is_set_item(kind, #[trigger] items[i]),
                _ => false,
            },
            None => forall|i: int| 0 <= i < entries.len() ==> storable((#[trigger] entries[i]).1),
        },
        _ => false,
    }
}

/// A value that Alternator can store has an attribute, and the attribute has the value again.
pub proof fn stored_values_read_back(value: ValueView)
    requires
        storable(value),
    ensures
        attribute_of(value) matches Ok(attribute) && value_of(attribute) == Ok::<
            ValueView,
            AlternatorErrorView,
        >(value),
    decreases value, 0nat,
{
    match value {
        ValueView::Integer(i) => {
            integers_read_back(i);
        },
        ValueView::Vec(items) => {
            lemma_items_read_back(items, 0);
            let attributes = attributes_of(items, 0)->Ok_0;
            assert(items.skip(0) =~= items);
            assert(value_of(AttributeView::L(attributes)) == Ok::<ValueView, AlternatorErrorView>(
                ValueView::Vec(values_of(attributes, 0)->Ok_0),
            ));
        },
        ValueView::Object(entries) => match set_of(entries) {
            Some(kind) => {
                let items = entries[0].1->Vec_0;
                lemma_elements_read_back(kind, items, 0);
                let elements = elements_of(kind, items, 0)->Ok_0;
                assert(set_value(kind, items)->Object_0 =~= entries);
                match kind {
                    SetKind::Strings => {
                        assert(Seq::new(
                            elements.len(),
                            |i: int| ValueView::String(set_attribute(kind, elements)->Ss_0[i]),
                        ) =~= items);
                    },
                    SetKind::Numbers => {
                        let numbers = set_attribute(kind, elements)->Ns_0;
                        lemma_numbers_read_back(numbers, items, 0);
                        assert(items.skip(0) =~= items);
                    },
                    SetKind::Bytes => {
                        assert(Seq::new(
                            elements.len(),
                            |i: int| ValueView::Bytes(set_attribute(kind, elements)->Bs_0[i]),
                        ) =~= items);
                    },
                }
            },
            None => {
                lemma_entries_read_back(entries, 0);
                let attributes = attribute_entries_of(entries, 0)->Ok_0;
                assert(entries.skip(0) =~= entries);
                assert(value_of(AttributeView::M(attributes)) == Ok::<
                    ValueView,
                    AlternatorErrorView,
                >(ValueView::Object(value_entries_of(attributes, 0)->Ok_0)));
            },
        },
        _ => {},
    }
}

/// The values from the `i`-th on read back.
proof fn lemma_items_read_back(items: Seq<ValueView>, i: int)
    requires
        0 <= i <= items.len(),
        forall|k: int| 0 <= k < items.len() ==> storable(#[trigger] items[k]),
    ensures
        attributes_of(items, i) matches Ok(attributes) && values_of(attributes, 0) == Ok::<
            Seq<ValueView>,
            AlternatorErrorView,
        >(items.skip(i)),
    decreases items, items.len() - i,
{
    if i < items.len() {
        stored_values_read_back(items[i]);
        lemma_items_read_back(items, i + 1);
        let first = attribute_of(items[i])->Ok_0;
        let rest = attributes_of(items, i + 1)->Ok_0;
        let all = seq![first] + rest;
        assert(attributes_of(items, i) == Ok::<Seq<AttributeView>, AlternatorErrorView>(all));
        lemma_values_shift(first, rest, 0);
        assert(all[0] == first);
        assert(values_of(all, 0) == ok_and_rest(value_of(first), values_of(all, 1)));
        assert(seq![items[i]] + items.skip(i + 1) =~= items.skip(i));
    } else {
        assert(items.skip(i) =~= Seq::empty());
    }
}

/// Converting after the first attribute is converting the rest.
proof fn lemma_values_shift(first: AttributeView, rest: Seq<AttributeView>, i: int)
    requires
        0 <= i <= rest.len(),
    ensures
        values_of(seq![first] + rest, i + 1) == values_of(rest, i),
    decreases rest.len() - i,
{
    let all = seq![first] + rest;
    if i < rest.len() {
        lemma_values_shift(first, rest, i + 1);
        assert(all[i + 1] == rest[i]);
    }
}

/// The entries from the `i`-th on read back.
proof fn lemma_entries_read_back(entries: Seq<(Seq<char>, ValueView)>, i: int)
    requires
        0 <= i <= entries.len(),
        forall|k: int| 0 <= k < entries.len() ==> storable((#[trigger] entries[k]).1),
    ensures
        attribute_entries_of(entries, i) matches Ok(attributes) && value_entries_of(attributes, 0)
            == Ok::<Seq<(Seq<char>, ValueView)>, AlternatorErrorView>(entries.skip(i)),
    decreases entries, entries.len() - i,
{
    if i < entries.len() {
        assert(decreases_to!(entries => entries[i]));
        assert(decreases_to!(entries[i] => entries[i].1));
        stored_values_read_back(entries[i].1);
        lemma_entries_read_back(entries, i + 1);
        let first = (entries[i].0, attribute_of(entries[i].1)->Ok_0);
        let rest = attribute_entries_of(entries, i + 1)->Ok_0;
        let all = seq![first] + rest;
        assert(attribute_entries_of(entries, i) == Ok::<
            Seq<(Seq<char>, AttributeView)>,
            AlternatorErrorView,
        >(all));
        lemma_value_entries_shift(first, rest, 0);
        assert(all[0] == first);
        assert(value_entries_of(all, 0) == ok_and_rest(
            Ok::<(Seq<char>, ValueView), AlternatorErrorView>(entries[i]),
            value_entries_of(all, 1),
        ));
        assert(seq![entries[i]] + entries.skip(i + 1) =~= entries.skip(i));
    } else {
        assert(entries.skip(i) =~= Seq::empty());
    }
}

/// Converting after the first entry is converting the rest.
proof fn lemma_value_entries_shift(
    first: (Seq<char>, AttributeView),
    rest: Seq<(Seq<char>, AttributeView)>,
    i: int,
)
    requires
        0 <= i <= rest.len(),
    ensures
        value_entries_of(seq![first] + rest, i + 1) == value_entries_of(rest, i),
    decreases rest.len() - i,
{
    let all = seq![first] + rest;
    if i < rest.len() {
        lemma_value_entries_shift(first, rest, i + 1);
        assert(all[i + 1] == rest[i]);
    }
}

/// The elements of a set from the `i`-th on have attributes of its type.
proof fn lemma_elements_read_back(kind: SetKind, items: Seq<ValueView>, i: int)
    requires
        0 <= i <= items.len(),
        forall|k: int| 0 <= k < items.len() ==> is_set_item(kind, #[trigger] items[k]),
    ensures
        elements_of(kind, items, i) matches Ok(elements) && elements.len() == items.len() - i
            && forall|k: int|
            0 <= k < elements.len() ==> is_element(kind, #[trigger] elements[k]) && attribute_of(
                items[i + k],
            ) == Ok::<AttributeView, AlternatorErrorView>(elements[k]),
    decreases items.len() - i,
{
    if i < items.len() {
        lemma_elements_read_back(kind, items, i + 1);
        let rest = elements_of(kind, items, i + 1)->Ok_0;
        let first = attribute_of(items[i])->Ok_0;
        assert(is_element(kind, first));
        let all = seq![first] + rest;
        assert(elements_of(kind, items, i) == Ok::<Seq<AttributeView>, AlternatorErrorView>(all));
        assert forall|k: int| 0 <= k < all.len() implies is_element(kind, #[trigger] all[k])
            && attribute_of(items[i + k]) == Ok::<AttributeView, AlternatorErrorView>(all[k]) by {
            if k > 0 {
                assert(all[k] == rest[k - 1]);
            }
        }
    }
}

/// The numbers from the `i`-th on read back.
proof fn lemma_numbers_read_back(numbers: Seq<NumberView>, items: Seq<ValueView>, i: int)
    requires
        0 <= i <= items.len(),
        numbers.len() == items.len(),
        forall|k: int|
            0 <= k < items.len() ==> is_set_item(SetKind::Numbers, #[trigger] items[k])
                && attribute_of(items[k]) == Ok::<AttributeView, AlternatorErrorView>(
                AttributeView::N(numbers[k]),
            ),
    ensures
        number_values(numbers, i) == Ok::<Seq<ValueView>, AlternatorErrorView>(items.skip(i)),
    decreases items.len() - i,
{
    if i < items.len() {
        lemma_numbers_read_back(numbers, items, i + 1);
        match items[i] {
            ValueView::Integer(n) => {
                integers_read_back(n);
            },
            _ => {},
        }
        assert(number_value(numbers[i]) == Ok::<ValueView, AlternatorErrorView>(items[i]));
        assert(seq![items[i]] + items.skip(i + 1) =~= items.skip(i));
    } else {
        assert(items.skip(i) =~= Seq::empty());
    }
}

} // verus!
