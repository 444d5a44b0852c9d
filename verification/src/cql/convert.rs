//! Conversion of CQL values to script values.
use vstd::prelude::*;

use crate::attempt::{after, and_rest, Attempt};
use crate::attempt::{lemma_after_all, lemma_after_nothing, lemma_after_push};
use crate::text::{i64_text, int_text};
use crate::value::{entry_models, insert_entry, models, put_entry};
use crate::value::{Value, ValueView};
use super::cass_error::{CassError, CassErrorKind, CassErrorView};
use super::cql_value::{cql_field_models, cql_models, cql_option_model, cql_option_models};
use super::cql_value::{cql_pair_models, CqlValue, CqlValueView};
use super::deserialize::{blob_to_values, byte_values, decimal_to_value, duration_to_value};
use super::deserialize::{decimal_value, duration_value, null_value};
use super::deserialize::{value_outcome, varint_to_value, varint_value, DeserializeError};
use super::driver::{format_timeuuid, format_uuid, uuid_text};

verus! {

/// The error that reports what is wrong with the bytes of a number.
pub open spec fn number_error(e: DeserializeError) -> CassErrorView {
    match e {
        DeserializeError::NegativeScale(scale) => CassErrorView::ValueOutOfRange(
            int_text(scale as int),
            "u32"@,
        ),
        _ => CassErrorView::Error("Varint is too large to fit into an i64"@),
    }
}

/// The outcome for a number that is read from bytes.
pub open spec fn number_outcome(r: Attempt<ValueView, DeserializeError>) -> Attempt<
    ValueView,
    CassErrorView,
> {
    match r {
        Attempt::Done(v) => Attempt::Done(v),
        Attempt::Failed(e) => Attempt::Failed(number_error(e)),
        Attempt::Refused => Attempt::Refused,
    }
}

/// The elements as one value.
pub open spec fn as_vec(items: Attempt<Seq<ValueView>, CassErrorView>) -> Attempt<
    ValueView,
    CassErrorView,
> {
    match items {
        Attempt::Done(items) => Attempt::Done(ValueView::Vec(items)),
        Attempt::Failed(e) => Attempt::Failed(e),
        Attempt::Refused => Attempt::Refused,
    }
}

/// A key and its value as one value.
pub open spec fn as_pair(
    key: Attempt<ValueView, CassErrorView>,
    value: Attempt<ValueView, CassErrorView>,
) -> Attempt<ValueView, CassErrorView> {
    match key {
        Attempt::Done(key) => match value {
            Attempt::Done(value) => Attempt::Done(ValueView::Tuple(seq![key, value])),
            other => other,
        },
        other => other,
    }
}

/// What a CQL value is to a script.
pub open spec fn converted(value: CqlValueView) -> Attempt<ValueView, CassErrorView>
    decreases value, 0nat,
{
    match value {
        CqlValueView::Ascii(s) => Attempt::Done(ValueView::String(s)),
        CqlValueView::Text(s) => Attempt::Done(ValueView::String(s)),
        CqlValueView::Boolean(b) => Attempt::Done(ValueView::Bool(b)),
        CqlValueView::TinyInt(i) => Attempt::Done(ValueView::Integer(i as i64)),
        CqlValueView::SmallInt(i) => Attempt::Done(ValueView::Integer(i as i64)),
        CqlValueView::Int(i) => Attempt::Done(ValueView::Integer(i as i64)),
        CqlValueView::BigInt(i) => Attempt::Done(ValueView::Integer(i)),
        CqlValueView::Counter(i) => Attempt::Done(ValueView::Integer(i)),
        CqlValueView::Timestamp(i) => Attempt::Done(ValueView::Integer(i)),
        CqlValueView::Date(d) => Attempt::Done(ValueView::Integer(d as i64)),
        CqlValueView::Time(i) => Attempt::Done(ValueView::Integer(i)),
        CqlValueView::Float(f) => Attempt::Done(ValueView::Float(f)),
        CqlValueView::Double(f) => Attempt::Done(ValueView::Float(f)),
        CqlValueView::Blob(bytes) => Attempt::Done(ValueView::Vec(byte_values(bytes))),
        CqlValueView::Uuid(u) => Attempt::Done(ValueView::String(uuid_text(u as nat))),
        CqlValueView::Timeuuid(u) => Attempt::Done(ValueView::String(uuid_text(u as nat))),
        CqlValueView::Inet(address) => Attempt::Done(ValueView::String(address)),
        CqlValueView::Vector(items) => as_vec(converted_items(items, 0)),
        CqlValueView::ListOf(items) => as_vec(converted_items(items, 0)),
        CqlValueView::SetOf(items) => as_vec(converted_items(items, 0)),
        CqlValueView::MapOf(items) => as_vec(converted_pairs(items, 0)),
        CqlValueView::Tuple(items) => as_vec(converted_options(items, 0)),
        CqlValueView::UserDefinedType { fields, .. } => match converted_fields(
            fields,
            0,
            Seq::empty(),
        ) {
            Attempt::Done(entries) => Attempt::Done(ValueView::Object(entries)),
            Attempt::Failed(e) => Attempt::Failed(e),
            Attempt::Refused => Attempt::Refused,
        },
        CqlValueView::Varint(bytes) => number_outcome(varint_value(bytes)),
        CqlValueView::Decimal { mantissa, scale } => number_outcome(
            decimal_value(mantissa, scale),
        ),
        CqlValueView::DecimalOf(_) => Attempt::Refused,
        CqlValueView::Duration { months, days, nanoseconds } => Attempt::Done(
            duration_value(months, days, nanoseconds),
        ),
        CqlValueView::Empty => Attempt::Done(null_value()),
    }
}

/// What a CQL value that may be null is to a script.
pub open spec fn converted_option(value: Option<CqlValueView>) -> Attempt<ValueView, CassErrorView>
    decreases value, 1nat,
{
    match value {
        Some(value) => converted(value),
        None => Attempt::Done(null_value()),
    }
}

/// What the elements from the `i`-th on are to a script.
pub open spec fn converted_items(items: Seq<CqlValueView>, i: int) -> Attempt<
    Seq<ValueView>,
    CassErrorView,
>
    decreases items, items.len() - i,
{
    if i < 0 || i >= items.len() {
        Attempt::Done(Seq::empty())
    } else {
        and_rest(converted(items[i]), converted_items(items, i + 1))
    }
}

/// What the elements from the `i`-th on are to a script, where each may be null.
pub open spec fn converted_options(items: Seq<Option<CqlValueView>>, i: int) -> Attempt<
    Seq<ValueView>,
    CassErrorView,
>
    decreases items, items.len() - i,
{
    if i < 0 || i >= items.len() {
        Attempt::Done(Seq::empty())
    } else {
        and_rest(converted_option(items[i]), converted_options(items, i + 1))
    }
}

/// What the entries of a map from the `i`-th on are to a script.
pub open spec fn converted_pairs(items: Seq<(CqlValueView, CqlValueView)>, i: int) -> Attempt<
    Seq<ValueView>,
    CassErrorView,
>
    decreases items, items.len() - i,
{
    if i < 0 || i >= items.len() {
        Attempt::Done(Seq::empty())
    } else {
        and_rest(
            as_pair(converted(items[i].0), converted(items[i].1)),
            converted_pairs(items, i + 1),
        )
    }
}

/// What the fields from the `i`-th on are to a script, put into the entries of those before.
pub open spec fn converted_fields(
    fields: Seq<(Seq<char>, Option<CqlValueView>)>,
    i: int,
    entries: Seq<(Seq<char>, ValueView)>,
) -> Attempt<Seq<(Seq<char>, ValueView)>, CassErrorView>
    decreases fields, fields.len() - i,
{
    if i < 0 || i >= fields.len() {
        Attempt::Done(entries)
    } else {
        match converted_option(fields[i].1) {
            Attempt::Done(value) => converted_fields(
                fields,
                i + 1,
                put_entry(entries, fields[i].0, value),
            ),
            Attempt::Failed(e) => Attempt::Failed(e),
            Attempt::Refused => Attempt::Refused,
        }
    }
}

/// The view of an outcome that is one value.
pub open spec fn script_outcome(r: Attempt<Value, CassError>) -> Attempt<
    ValueView,
    CassErrorView,
> {
    match r {
        Attempt::Done(v) => Attempt::Done(v@),
        Attempt::Failed(e) => Attempt::Failed(e@),
        Attempt::Refused => Attempt::Refused,
    }
}

/// The view of an outcome that is a sequence of values.
pub open spec fn script_outcomes(r: Attempt<Vec<Value>, CassError>) -> Attempt<
    Seq<ValueView>,
    CassErrorView,
> {
    match r {
        Attempt::Done(v) => Attempt::Done(models(v@)),
        Attempt::Failed(e) => Attempt::Failed(e@),
        Attempt::Refused => Attempt::Refused,
    }
}

/// The view of an outcome that is a sequence of entries.
pub open spec fn script_entries(r: Attempt<Vec<(String, Value)>, CassError>) -> Attempt<
    Seq<(Seq<char>, ValueView)>,
    CassErrorView,
> {
    match r {
        Attempt::Done(v) => Attempt::Done(entry_models(v@)),
        Attempt::Failed(e) => Attempt::Failed(e@),
        Attempt::Refused => Attempt::Refused,
    }
}

/// Reports what is wrong with the bytes of a number.
fn to_number_error(e: DeserializeError) -> (r: CassError)
    ensures
        r@ == number_error(e),
{
    match e {
        DeserializeError::NegativeScale(scale) => CassError(
            CassErrorKind::ValueOutOfRange(i64_text(scale as i64), "u32".to_owned()),
        ),
        _ => CassError::error("Varint is too large to fit into an i64"),
    }
}

/// Converts a number that was read from bytes.
fn to_number_outcome(r: Attempt<Value, DeserializeError>) -> (converted: Attempt<Value, CassError>)
    ensures
        script_outcome(converted) == number_outcome(value_outcome(r)),
{
    match r {
        Attempt::Done(v) => Attempt::Done(v),
        Attempt::Failed(e) => Attempt::Failed(to_number_error(e)),
        Attempt::Refused => Attempt::Refused,
    }
}

/// Converts the elements of a collection.
fn convert_items(items: &Vec<CqlValue>) -> (r: Attempt<Vec<Value>, CassError>)
    ensures
        script_outcomes(r) == converted_items(cql_models(items@), 0),
    decreases items, 1nat,
{
    let mut done: Vec<Value> = Vec::new();
    let mut i: usize = 0;
    assert(models(done@) =~= Seq::empty());
    proof {
        lemma_after_nothing(converted_items(cql_models(items@), 0));
    }
    while i < items.len()
        invariant
            i <= items.len(),
            converted_items(cql_models(items@), 0) == after(
                models(done@),
                converted_items(cql_models(items@), i as int),
            ),
        decreases items.len() - i,
    {
        assert(decreases_to!(items@ => items@[i as int]));
        let ghost before = models(done@);
        match convert_value(&items[i]) {
            Attempt::Done(value) => {
                proof {
                    lemma_after_push(before, value@, converted_items(cql_models(items@), i + 1));
                }
                let ghost pushed = value@;
                done.push(value);
                assert(models(done@) =~= before.push(pushed));
                i += 1;
            },
            Attempt::Failed(e) => {
                return Attempt::Failed(e);
            },
            Attempt::Refused => {
                return Attempt::Refused;
            },
        }
    }
    proof {
        lemma_after_all::<ValueView, CassErrorView>(models(done@));
    }
    Attempt::Done(done)
}

/// Converts the elements of a tuple.
fn convert_options(items: &Vec<Option<CqlValue>>) -> (r: Attempt<Vec<Value>, CassError>)
    ensures
        script_outcomes(r) == converted_options(cql_option_models(items@), 0),
    decreases items, 1nat,
{
    let mut done: Vec<Value> = Vec::new();
    let mut i: usize = 0;
    assert(models(done@) =~= Seq::empty());
    proof {
        lemma_after_nothing(converted_options(cql_option_models(items@), 0));
    }
    while i < items.len()
        invariant
            i <= items.len(),
            converted_options(cql_option_models(items@), 0) == after(
                models(done@),
                converted_options(cql_option_models(items@), i as int),
            ),
        decreases items.len() - i,
    {
        assert(decreases_to!(items@ => items@[i as int]));
        let ghost before = models(done@);
        let item = match &items[i] {
            Some(item) => {
                assert(decreases_to!(items@[i as int] => *item));
                convert_value(item)
            },
            None => Attempt::Done(Value::Option(None)),
        };
        assert(script_outcome(item) == converted_option(cql_option_model(items[i as int])));
        match item {
            Attempt::Done(value) => {
                proof {
                    lemma_after_push(
                        before,
                        value@,
                        converted_options(cql_option_models(items@), i + 1),
                    );
                }
                let ghost pushed = value@;
                done.push(value);
                assert(models(done@) =~= before.push(pushed));
                i += 1;
            },
            Attempt::Failed(e) => {
                return Attempt::Failed(e);
            },
            Attempt::Refused => {
                return Attempt::Refused;
            },
        }
    }
    proof {
        lemma_after_all::<ValueView, CassErrorView>(models(done@));
    }
    Attempt::Done(done)
}

/// Converts the entries of a map to pairs.
fn convert_pairs(items: &Vec<(CqlValue, CqlValue)>) -> (r: Attempt<Vec<Value>, CassError>)
    ensures
        script_outcomes(r) == converted_pairs(cql_pair_models(items@), 0),
    decreases items, 1nat,
{
    let mut done: Vec<Value> = Vec::new();
    let mut i: usize = 0;
    assert(models(done@) =~= Seq::empty());
    proof {
        lemma_after_nothing(converted_pairs(cql_pair_models(items@), 0));
    }
    while i < items.len()
        invariant
            i <= items.len(),
            converted_pairs(cql_pair_models(items@), 0) == after(
                models(done@),
                converted_pairs(cql_pair_models(items@), i as int),
            ),
        decreases items.len() - i,
    {
        broadcast use Value::lemma_parts;

        assert(decreases_to!(items@ => items@[i as int]));
        assert(decreases_to!(items@[i as int] => items@[i as int].0));
        assert(decreases_to!(items@[i as int] => items@[i as int].1));
        let ghost before = models(done@);
        let key = match convert_value(&items[i].0) {
            Attempt::Done(key) => key,
            Attempt::Failed(e) => {
                return Attempt::Failed(e);
            },
            Attempt::Refused => {
                return Attempt::Refused;
            },
        };
        let value = match convert_value(&items[i].1) {
            Attempt::Done(value) => value,
            Attempt::Failed(e) => {
                return Attempt::Failed(e);
            },
            Attempt::Refused => {
                return Attempt::Refused;
            },
        };
        let ghost pair_view = ValueView::Tuple(seq![key@, value@]);
        let mut pair: Vec<Value> = Vec::new();
        pair.push(key);
        pair.push(value);
        assert(models(pair@) =~= pair_view->Tuple_0);
        proof {
            lemma_after_push(before, pair_view, converted_pairs(cql_pair_models(items@), i + 1));
        }
        done.push(Value::Tuple(pair));
        assert(models(done@) =~= before.push(pair_view));
        i += 1;
    }
    proof {
        lemma_after_all::<ValueView, CassErrorView>(models(done@));
    }
    Attempt::Done(done)
}

/// Converts the fields of a user-defined value to entries.
fn convert_fields(fields: &Vec<(String, Option<CqlValue>)>) -> (r: Attempt<
    Vec<(String, Value)>,
    CassError,
>)
    ensures
        script_entries(r) == converted_fields(cql_field_models(fields@), 0, Seq::empty()),
    decreases fields, 1nat,
{
    let mut entries: Vec<(String, Value)> = Vec::new();
    let mut i: usize = 0;
    assert(entry_models(entries@) =~= Seq::empty());
    while i < fields.len()
        invariant
            i <= fields.len(),
            converted_fields(cql_field_models(fields@), 0, Seq::empty()) == converted_fields(
                cql_field_models(fields@),
                i as int,
                entry_models(entries@),
            ),
        decreases fields.len() - i,
    {
        assert(decreases_to!(fields@ => fields@[i as int]));
        assert(decreases_to!(fields@[i as int] => fields@[i as int].1));
        let field = match &fields[i].1 {
            Some(value) => {
                assert(decreases_to!(fields@[i as int].1 => *value));
                convert_value(value)
            },
            None => Attempt::Done(Value::Option(None)),
        };
        assert(script_outcome(field) == converted_option(cql_option_model(fields[i as int].1)));
        match field {
            Attempt::Done(value) => {
                insert_entry(&mut entries, fields[i].0.clone(), value);
                i += 1;
            },
            Attempt::Failed(e) => {
                return Attempt::Failed(e);
            },
            Attempt::Refused => {
                return Attempt::Refused;
            },
        }
    }
    Attempt::Done(entries)
}

/// Makes one script value of converted elements.
fn vec_of(items: Attempt<Vec<Value>, CassError>) -> (r: Attempt<Value, CassError>)
    ensures
        script_outcome(r) == as_vec(script_outcomes(items)),
{
    broadcast use Value::lemma_parts;

    match items {
        Attempt::Done(items) => Attempt::Done(Value::Vec(items)),
        Attempt::Failed(e) => Attempt::Failed(e),
        Attempt::Refused => Attempt::Refused,
    }
}

/// Converts a CQL value to a script value; refuses what the database does not return.
pub fn convert_value(value: &CqlValue) -> (r: Attempt<Value, CassError>)
    ensures
        script_outcome(r) == converted(value@),
    decreases value, 0nat,
{
    broadcast use Value::lemma_parts, CqlValue::lemma_parts;

    match value {
        CqlValue::Ascii(s) => Attempt::Done(Value::String(s.clone())),
        CqlValue::Text(s) => Attempt::Done(Value::String(s.clone())),
        CqlValue::Boolean(b) => Attempt::Done(Value::Bool(*b)),
        CqlValue::TinyInt(i) => Attempt::Done(Value::Integer(*i as i64)),
        CqlValue::SmallInt(i) => Attempt::Done(Value::Integer(*i as i64)),
        CqlValue::Int(i) => Attempt::Done(Value::Integer(*i as i64)),
        CqlValue::BigInt(i) => Attempt::Done(Value::Integer(*i)),
        CqlValue::Counter(i) => Attempt::Done(Value::Integer(*i)),
        CqlValue::Timestamp(i) => Attempt::Done(Value::Integer(*i)),
        CqlValue::Date(d) => Attempt::Done(Value::Integer(*d as i64)),
        CqlValue::Time(i) => Attempt::Done(Value::Integer(*i)),
        CqlValue::Float(f) => Attempt::Done(Value::Float(f.duplicate())),
        CqlValue::Double(f) => Attempt::Done(Value::Float(f.duplicate())),
        CqlValue::Blob(bytes) => Attempt::Done(Value::Vec(blob_to_values(bytes.as_slice()))),
        CqlValue::Uuid(u) => Attempt::Done(Value::String(format_uuid(*u))),
        CqlValue::Timeuuid(u) => Attempt::Done(Value::String(format_timeuuid(*u))),
        CqlValue::Inet(address) => Attempt::Done(Value::String(address.clone())),
        CqlValue::Vector(items) => vec_of(convert_items(items)),
        CqlValue::ListOf(items) => vec_of(convert_items(items)),
        CqlValue::SetOf(items) => vec_of(convert_items(items)),
        CqlValue::MapOf(items) => vec_of(convert_pairs(items)),
        CqlValue::Tuple(items) => vec_of(convert_options(items)),
        CqlValue::UserDefinedType { fields, .. } => match convert_fields(fields) {
            Attempt::Done(entries) => Attempt::Done(Value::Object(entries)),
            Attempt::Failed(e) => Attempt::Failed(e),
            Attempt::Refused => Attempt::Refused,
        },
        CqlValue::Varint(bytes) => to_number_outcome(varint_to_value(bytes.as_slice())),
        CqlValue::Decimal { mantissa, scale } => to_number_outcome(
            decimal_to_value(mantissa.as_slice(), *scale),
        ),
        CqlValue::DecimalOf(_) => Attempt::Refused,
        CqlValue::Duration { months, days, nanoseconds } => Attempt::Done(
            duration_to_value(*months, *days, *nanoseconds),
        ),
        CqlValue::Empty => Attempt::Done(Value::Option(None)),
    }
}

/// Converts a CQL value that may be null to a script value.
pub fn cql_value_to_rune_value(value: Option<&CqlValue>) -> (r: Result<Value, CassError>)
    requires
        value matches Some(v) ==> !(converted(v@) is Refused),
    ensures
        match value {
            Some(v) => converted(v@) == script_outcome(
                match r {
                    Ok(v) => Attempt::Done(v),
                    Err(e) => Attempt::Failed(e),
                },
            ),
            None => r matches Ok(v) && v@ == null_value(),
        },
{
    match value {
        Some(value) => match convert_value(value) {
            Attempt::Done(v) => Ok(v),
            Attempt::Failed(e) => Err(e),
            Attempt::Refused => {
                assert(false);
                Err(CassError::error(""))
            },
        },
        None => Ok(Value::Option(None)),
    }
}

} // verus!
