use latte::alternator::alternator_error::{
    AlternatorError, AlternatorErrorKind, ConversionProblem,
};
use latte::alternator::config::DbConnectionConf;
use latte::alternator::types::{
    alternator_attribute_to_rune_value, alternator_map_to_rune_object,
    rune_object_to_alternator_map, rune_value_to_alternator_attribute, AttributeValue, Number,
    BSET_KEY, NSET_KEY, SSET_KEY,
};
use latte::value::{Float, Value};

fn text(s: &str) -> Value {
    Value::String(s.to_string())
}

fn number(s: &str) -> Number {
    Number::Text(s.to_string())
}

fn set(key: &str, items: Vec<Value>) -> Value {
    Value::Object(vec![(key.to_string(), Value::Vec(items))])
}

fn problem(problem: ConversionProblem) -> AlternatorError {
    AlternatorError::new(AlternatorErrorKind::ConversionError(problem))
}

/// A value becomes an attribute, and the attribute becomes the value again.
fn stored(value: Value, attribute: AttributeValue) {
    assert_eq!(rune_value_to_alternator_attribute(&value), Ok(attribute));
    let attribute = rune_value_to_alternator_attribute(&value).unwrap();
    assert_eq!(alternator_attribute_to_rune_value(&attribute), Ok(value));
}

#[test]
fn stored_values_read_back() {
    stored(Value::Bool(true), AttributeValue::Bool(true));
    stored(Value::Integer(-42), AttributeValue::N(number("-42")));
    stored(Value::Integer(i64::MIN), AttributeValue::N(number("-9223372036854775808")));
    stored(text("x"), AttributeValue::S("x".to_string()));
    stored(Value::Bytes(vec![1, 2]), AttributeValue::B(vec![1, 2]));
    stored(Value::Option(None), AttributeValue::Null(true));
    let float = || Float::Double(1.0f64.to_bits());
    stored(Value::Float(float()), AttributeValue::N(Number::Float(float())));
    stored(
        Value::Vec(vec![Value::Integer(1), text("a")]),
        AttributeValue::L(vec![
            AttributeValue::N(number("1")),
            AttributeValue::S("a".to_string()),
        ]),
    );
    stored(
        Value::Object(vec![("k".to_string(), Value::Integer(1))]),
        AttributeValue::M(vec![("k".to_string(), AttributeValue::N(number("1")))]),
    );
    stored(set(SSET_KEY, vec![text("a")]), AttributeValue::Ss(vec!["a".to_string()]));
    stored(
        set(NSET_KEY, vec![Value::Integer(1), Value::Float(float())]),
        AttributeValue::Ns(vec![number("1"), Number::Float(float())]),
    );
    stored(set(BSET_KEY, vec![Value::Bytes(vec![7])]), AttributeValue::Bs(vec![vec![7]]));
}

#[test]
fn options_store_what_they_hold() {
    assert_eq!(
        rune_value_to_alternator_attribute(&Value::Option(Some(Box::new(Value::Integer(1))))),
        Ok(AttributeValue::N(number("1")))
    );
}

#[test]
fn a_special_key_among_others_is_an_ordinary_one() {
    let object = Value::Object(vec![
        (SSET_KEY.to_string(), Value::Integer(1)),
        ("other".to_string(), Value::Integer(2)),
    ]);
    assert!(matches!(rune_value_to_alternator_attribute(&object), Ok(AttributeValue::M(_))));
}

#[test]
fn sets_hold_elements_of_one_type() {
    let mixed = set(SSET_KEY, vec![text("a"), Value::Integer(1)]);
    assert_eq!(
        rune_value_to_alternator_attribute(&mixed),
        Err(problem(ConversionProblem::InvalidSetElement {
            key: SSET_KEY.to_string(),
            item: Value::Integer(1)
        }))
    );
    let no_vector = Value::Object(vec![(BSET_KEY.to_string(), Value::Integer(1))]);
    assert_eq!(
        rune_value_to_alternator_attribute(&no_vector),
        Err(problem(ConversionProblem::ExpectedVector { key: BSET_KEY.to_string() }))
    );
    // An element that cannot be converted at all comes first.
    let unsupported = set(NSET_KEY, vec![Value::Byte(1)]);
    assert_eq!(
        rune_value_to_alternator_attribute(&unsupported),
        Err(problem(ConversionProblem::UnsupportedValue(Value::Byte(1))))
    );
}

#[test]
fn numbers_are_integers_or_floats() {
    let read = |s: &str| alternator_attribute_to_rune_value(&AttributeValue::N(number(s)));
    assert_eq!(read("+7"), Ok(Value::Integer(7)));
    assert_eq!(read("1.5e3"), Ok(Value::Float(Float::Numeral("1.5e3".to_string()))));
    assert_eq!(
        read("9223372036854775808"),
        Ok(Value::Float(Float::Numeral("9223372036854775808".to_string())))
    );
    assert_eq!(read("seven"), Err(problem(ConversionProblem::InvalidNumber("seven".to_string()))));
    assert_eq!(read(""), Err(problem(ConversionProblem::InvalidNumber("".to_string()))));
}

#[test]
fn maps_and_objects_convert_entry_by_entry() {
    let entries = vec![("a".to_string(), Value::Bool(false)), ("b".to_string(), text("x"))];
    let map = rune_object_to_alternator_map(&entries).unwrap();
    assert_eq!(
        map,
        vec![
            ("a".to_string(), AttributeValue::Bool(false)),
            ("b".to_string(), AttributeValue::S("x".to_string())),
        ]
    );
    assert_eq!(alternator_map_to_rune_object(&map), Ok(Value::Object(entries)));
    assert_eq!(
        rune_object_to_alternator_map(&vec![("a".to_string(), Value::Tuple(vec![]))]),
        Err(problem(ConversionProblem::UnsupportedValue(Value::Tuple(vec![]))))
    );
    assert_eq!(
        alternator_map_to_rune_object(&vec![(
            "a".to_string(),
            AttributeValue::Other("new".to_string())
        )]),
        Err(problem(ConversionProblem::UnsupportedAttribute("new".to_string())))
    );
    assert_eq!(
        alternator_attribute_to_rune_value(&AttributeValue::Null(false)),
        Ok(Value::Option(None))
    );
}

#[test]
fn alternator_errors_are_told() {
    let told = |kind| AlternatorError::new(kind).string_display();
    assert_eq!(
        AlternatorError::failed_to_connect(
            &vec!["h1".to_string(), "h2".to_string()],
            "refused".to_string()
        )
        .string_display(),
        "Failed to connect to Alternator at h1: refused"
    );
    assert_eq!(
        AlternatorError::failed_to_connect(&vec![], "refused".to_string()),
        AlternatorError(AlternatorErrorKind::FailedToConnect("".into(), "refused".into()))
    );
    assert_eq!(
        AlternatorError::query_retries_exceeded(3).string_display(),
        "QueryRetriesExceeded: Max retry attempts (3) reached"
    );
    assert_eq!(told(AlternatorErrorKind::Overloaded("busy".into())), "Overloaded: busy");
    assert_eq!(
        told(AlternatorErrorKind::PartitionRowPresetNotFound("p".into())),
        "Partition row preset not found: p"
    );
    assert_eq!(told(AlternatorErrorKind::CustomError("c".into())), "c");
    assert_eq!(told(AlternatorErrorKind::Error("e".into())), "e");
    let of = |p| problem(p).string_display();
    assert_eq!(
        of(ConversionProblem::InvalidNumber("x".into())),
        "Invalid number format: x"
    );
    assert_eq!(
        of(ConversionProblem::ExpectedVector { key: "__sset".into() }),
        "Expected a vector of elements for __sset"
    );
    assert_eq!(
        of(ConversionProblem::InvalidSetElement { key: "__sset".into(), item: text("x") }),
        "Invalid element type found in set __sset: "
    );
    assert_eq!(
        of(ConversionProblem::UnsupportedValue(text("x"))),
        "Unsupported Rune Value type for: "
    );
    assert_eq!(
        of(ConversionProblem::UnsupportedAttribute("x".into())),
        "Unsupported Alternator AttributeValue type: x"
    );
}

#[test]
fn alternator_has_no_settings_of_its_own() {
    assert_eq!(DbConnectionConf::default(), DbConnectionConf {});
}
