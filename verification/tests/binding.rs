use latte::attempt::Attempt;
use latte::cql::bind::{
    bind_params, bind_value, decimal_param, inet_param, timeuuid_param, to_scylla_query_params,
};
use latte::cql::cass_error::{CassError, CassErrorKind, ConversionTarget};
use latte::cql::column::{CollectionType, ColumnSpec, ColumnType, NativeType, UserDefinedType};
use latte::cql::convert::{convert_value, cql_value_to_rune_value};
use latte::cql::cql_value::CqlValue;
use latte::value::{Float, Value, ValueKind};

fn native(native: NativeType) -> ColumnType {
    ColumnType::Native(native)
}

fn text(s: &str) -> Value {
    Value::String(s.to_string())
}

fn column(name: &str, typ: ColumnType) -> ColumnSpec {
    ColumnSpec { name: name.to_string(), typ }
}

fn failure(kind: CassErrorKind) -> Attempt<CqlValue, CassError> {
    Attempt::Failed(CassError(kind))
}

fn collection(typ: CollectionType) -> ColumnType {
    ColumnType::Collection { frozen: false, typ }
}

/// A value binds, and what was bound converts back to the value.
fn reads_back(value: Value, typ: ColumnType) {
    match bind_value(&value, &typ) {
        Attempt::Done(cql) => assert_eq!(convert_value(&cql), Attempt::Done(value)),
        other => panic!("{:?} binds to {:?}", value, other),
    }
}

#[test]
fn integers_bind_where_they_fit() {
    assert_eq!(
        bind_value(&Value::Integer(-128), &native(NativeType::TinyInt)),
        Attempt::Done(CqlValue::TinyInt(-128))
    );
    assert_eq!(
        bind_value(&Value::Integer(128), &native(NativeType::TinyInt)),
        failure(CassErrorKind::ValueOutOfRange("128".to_string(), "TinyInt".to_string()))
    );
    assert_eq!(
        bind_value(&Value::Integer(-32769), &native(NativeType::SmallInt)),
        failure(CassErrorKind::ValueOutOfRange("-32769".to_string(), "SmallInt".to_string()))
    );
    assert_eq!(
        bind_value(&Value::Integer(2147483648), &native(NativeType::Int)),
        failure(CassErrorKind::ValueOutOfRange("2147483648".to_string(), "Int".to_string()))
    );
    assert_eq!(
        bind_value(&Value::Integer(i64::MIN), &native(NativeType::BigInt)),
        Attempt::Done(CqlValue::BigInt(i64::MIN))
    );
    assert_eq!(
        bind_value(&Value::Integer(5), &native(NativeType::Timestamp)),
        Attempt::Done(CqlValue::Timestamp(5))
    );
}

#[test]
fn bytes_bind_to_integers() {
    assert_eq!(
        bind_value(&Value::Byte(200), &native(NativeType::TinyInt)),
        Attempt::Done(CqlValue::TinyInt(-56))
    );
    assert_eq!(
        bind_value(&Value::Byte(200), &native(NativeType::SmallInt)),
        Attempt::Done(CqlValue::SmallInt(200))
    );
    assert_eq!(
        bind_value(&Value::Byte(200), &native(NativeType::Int)),
        Attempt::Done(CqlValue::Int(200))
    );
    assert_eq!(
        bind_value(&Value::Byte(200), &native(NativeType::BigInt)),
        Attempt::Done(CqlValue::BigInt(200))
    );
}

#[test]
fn decimals_bind_as_mantissa_and_scale() {
    assert_eq!(
        bind_value(&Value::Integer(-2), &native(NativeType::Decimal)),
        Attempt::Done(CqlValue::Decimal { mantissa: (-2i64).to_be_bytes().to_vec(), scale: 0 })
    );
    assert_eq!(
        bind_value(&text("-12.50"), &native(NativeType::Decimal)),
        Attempt::Done(CqlValue::Decimal { mantissa: (-1250i128).to_be_bytes().to_vec(), scale: 2 })
    );
    assert_eq!(bind_value(&text("twelve"), &native(NativeType::Decimal)), Attempt::Refused);
    assert_eq!(
        decimal_param(Some((i128::MIN, 3))),
        Attempt::Done(CqlValue::Decimal { mantissa: i128::MIN.to_be_bytes().to_vec(), scale: 3 })
    );
    assert_eq!(decimal_param(Some((1, u32::MAX))), Attempt::Refused);
    assert_eq!(decimal_param(None), Attempt::Refused);
    let float = Float::Double(0.5f64.to_bits());
    assert_eq!(
        bind_value(&Value::Float(float.duplicate()), &native(NativeType::Decimal)),
        Attempt::Done(CqlValue::DecimalOf(float))
    );
}

#[test]
fn an_integer_bound_as_a_decimal_reads_back_as_its_numeral() {
    for i in [0, 7, -7, i64::MAX, i64::MIN] {
        match bind_value(&Value::Integer(i), &native(NativeType::Decimal)) {
            Attempt::Done(cql) => {
                assert_eq!(convert_value(&cql), Attempt::Done(Value::String(i.to_string())))
            }
            other => panic!("{:?}", other),
        }
    }
}

#[test]
fn floats_are_rounded_for_float_columns_only() {
    let float = Float::Double(0.1f64.to_bits());
    assert_eq!(
        bind_value(&Value::Float(float.duplicate()), &native(NativeType::Float)),
        Attempt::Done(CqlValue::Float(Float::Rounded(Box::new(float.duplicate()))))
    );
    assert_eq!(
        bind_value(&Value::Float(float.duplicate()), &native(NativeType::Double)),
        Attempt::Done(CqlValue::Double(float))
    );
}

#[test]
fn texts_bind_to_what_they_denote() {
    assert_eq!(
        bind_value(&text("abc"), &native(NativeType::Ascii)),
        Attempt::Done(CqlValue::Text("abc".to_string()))
    );
    assert_eq!(
        bind_value(&text("8e14e760-7fa8-11eb-bc66-000000000001"), &native(NativeType::Timeuuid)),
        Attempt::Done(CqlValue::Timeuuid(0x8e14e760_7fa8_11eb_bc66_000000000001))
    );
    assert_eq!(
        bind_value(&text("0:0:0:0:0:0:0:1"), &native(NativeType::Inet)),
        Attempt::Done(CqlValue::Inet("::1".to_string()))
    );
    assert_eq!(
        bind_value(&text("::"), &native(NativeType::Uuid)),
        failure(CassErrorKind::QueryParamConversion(
            text("::"),
            ConversionTarget::Column(native(NativeType::Uuid)),
            None
        ))
    );
}

#[test]
fn texts_that_denote_nothing_are_reported_with_the_reason() {
    match bind_value(&text("x"), &native(NativeType::Timeuuid)) {
        Attempt::Failed(CassError(CassErrorKind::QueryParamConversion(value, target, Some(_)))) => {
            assert_eq!(value, text("x"));
            assert_eq!(target, ConversionTarget::Named("NativeType::Timeuuid".to_string()));
        }
        other => panic!("{:?}", other),
    }
    assert_eq!(
        bind_value(&text("1.2.3"), &native(NativeType::Inet)),
        failure(CassErrorKind::QueryParamConversion(
            text("1.2.3"),
            ConversionTarget::Named("NativeType::Inet".to_string()),
            Some("invalid IP address syntax".to_string())
        ))
    );
    assert_eq!(
        timeuuid_param(&"t".to_string(), Err("bad".to_string())),
        failure(CassErrorKind::QueryParamConversion(
            text("t"),
            ConversionTarget::Named("NativeType::Timeuuid".to_string()),
            Some("bad".to_string())
        ))
    );
    assert_eq!(
        inet_param(&"t".to_string(), Ok("1.1.1.1".to_string())),
        Attempt::Done(CqlValue::Inet("1.1.1.1".to_string()))
    );
}

#[test]
fn blobs_bind_from_bytes_and_vectors_of_bytes() {
    let blob = native(NativeType::Blob);
    assert_eq!(
        bind_value(&Value::Bytes(vec![1, 2]), &blob),
        Attempt::Done(CqlValue::Blob(vec![1, 2]))
    );
    assert_eq!(
        bind_value(&Value::Vec(vec![Value::Byte(3)]), &blob),
        Attempt::Done(CqlValue::Blob(vec![3]))
    );
    assert_eq!(bind_value(&Value::Vec(vec![Value::Integer(3)]), &blob), Attempt::Refused);
}

#[test]
fn options_are_looked_through() {
    let typ = native(NativeType::Int);
    assert_eq!(
        bind_value(&Value::Option(Some(Box::new(Value::Integer(1)))), &typ),
        Attempt::Done(CqlValue::Int(1))
    );
    assert_eq!(bind_value(&Value::Option(None), &typ), Attempt::Done(CqlValue::Empty));
}

#[test]
fn collections_bind_element_by_element() {
    let ints = || Box::new(native(NativeType::Int));
    let items = Value::Vec(vec![Value::Integer(1), Value::Option(None)]);
    assert_eq!(
        bind_value(&items, &collection(CollectionType::ListOf(ints()))),
        Attempt::Done(CqlValue::ListOf(vec![CqlValue::Int(1), CqlValue::Empty]))
    );
    assert_eq!(
        bind_value(&items, &collection(CollectionType::SetOf(ints()))),
        Attempt::Done(CqlValue::SetOf(vec![CqlValue::Int(1), CqlValue::Empty]))
    );
    let frozen = ColumnType::Collection { frozen: true, typ: CollectionType::ListOf(ints()) };
    assert_eq!(
        bind_value(&items, &frozen),
        failure(CassErrorKind::QueryParamConversion(
            items.duplicate(),
            ConversionTarget::Column(frozen.duplicate()),
            None
        ))
    );
    assert_eq!(
        bind_value(
            &Value::Vec(vec![Value::Bool(true)]),
            &collection(CollectionType::ListOf(ints()))
        ),
        failure(CassErrorKind::QueryParamConversion(
            Value::Bool(true),
            ConversionTarget::Column(native(NativeType::Int)),
            None
        ))
    );
}

#[test]
fn maps_bind_from_pairs_and_objects() {
    let map = collection(CollectionType::MapOf(
        Box::new(native(NativeType::Text)),
        Box::new(native(NativeType::Int)),
    ));
    let bound = CqlValue::MapOf(vec![(CqlValue::Text("k".to_string()), CqlValue::Int(1))]);
    let pairs = Value::Vec(vec![Value::Tuple(vec![text("k"), Value::Integer(1)])]);
    assert_eq!(bind_value(&pairs, &map), Attempt::Done(bound.duplicate()));
    let object = Value::Object(vec![("k".to_string(), Value::Integer(1))]);
    assert_eq!(bind_value(&object, &map), Attempt::Done(bound));
    let triple = Value::Tuple(vec![text("k"), Value::Integer(1), Value::Integer(2)]);
    assert_eq!(
        bind_value(&Value::Vec(vec![triple.duplicate()]), &map),
        failure(CassErrorKind::QueryParamConversion(
            triple,
            ConversionTarget::Named("CollectionType::Map".to_string()),
            None
        ))
    );
}

fn person() -> ColumnType {
    ColumnType::UserDefinedType {
        frozen: false,
        definition: UserDefinedType {
            name: "person".to_string(),
            keyspace: "ks".to_string(),
            field_types: vec![
                ("name".to_string(), native(NativeType::Text)),
                ("age".to_string(), native(NativeType::Int)),
            ],
        },
    }
}

#[test]
fn objects_and_structs_bind_to_user_defined_types() {
    let entries = || vec![("age".to_string(), Value::Integer(3)), ("x".to_string(), text("y"))];
    let bound = CqlValue::UserDefinedType {
        keyspace: "ks".to_string(),
        name: "person".to_string(),
        fields: vec![("age".to_string(), Some(CqlValue::Int(3)))],
    };
    assert_eq!(
        bind_value(&Value::Object(entries()), &person()),
        Attempt::Done(bound.duplicate())
    );
    assert_eq!(bind_value(&Value::Struct(entries()), &person()), Attempt::Done(bound));
}

#[test]
fn uuids_bind_from_native_objects_only() {
    let typ = native(NativeType::Uuid);
    assert_eq!(bind_value(&Value::Uuid(9), &typ), Attempt::Done(CqlValue::Uuid(9)));
    assert_eq!(
        bind_value(&Value::Any("thing".to_string()), &typ),
        failure(CassErrorKind::QueryParamConversion(
            Value::Any("thing".to_string()),
            ConversionTarget::Named("NativeType::Uuid".to_string()),
            None
        ))
    );
    assert_eq!(
        bind_value(&Value::Uuid(9), &native(NativeType::Text)),
        failure(CassErrorKind::QueryParamConversion(
            Value::Uuid(9),
            ConversionTarget::Column(native(NativeType::Text)),
            None
        ))
    );
}

#[test]
fn bound_values_read_back_as_they_were() {
    reads_back(Value::Bool(true), native(NativeType::Boolean));
    reads_back(Value::Integer(-5), native(NativeType::SmallInt));
    reads_back(Value::Integer(1_600_000_000_000), native(NativeType::Timestamp));
    reads_back(Value::Float(Float::Double(3)), native(NativeType::Double));
    reads_back(text("t"), native(NativeType::Text));
    reads_back(Value::Vec(vec![Value::Byte(1), Value::Byte(2)]), native(NativeType::Blob));
    reads_back(
        Value::Vec(vec![Value::Vec(vec![Value::Integer(1)]), Value::Option(None)]),
        collection(CollectionType::ListOf(Box::new(collection(CollectionType::SetOf(Box::new(
            native(NativeType::Int),
        )))))),
    );
    reads_back(
        Value::Vec(vec![Value::Tuple(vec![text("a"), Value::Integer(1)])]),
        collection(CollectionType::MapOf(
            Box::new(native(NativeType::Text)),
            Box::new(native(NativeType::BigInt)),
        )),
    );
    reads_back(
        Value::Object(vec![("name".to_string(), text("n")), ("age".to_string(), Value::Integer(2))]),
        person(),
    );
}

#[test]
fn parameters_bind_by_place_and_by_name() {
    let specs = || vec![column("a", native(NativeType::Int)), column("b", native(NativeType::Text))];
    let bound = || vec![CqlValue::Int(1), CqlValue::Text("x".to_string())];
    let items = || vec![Value::Integer(1), text("x")];
    let entries =
        || vec![("b".to_string(), text("x")), ("a".to_string(), Value::Integer(1))];
    assert_eq!(to_scylla_query_params(&Value::Tuple(items()), &specs()), Ok(bound()));
    assert_eq!(to_scylla_query_params(&Value::Vec(items()), &specs()), Ok(bound()));
    assert_eq!(to_scylla_query_params(&Value::Object(entries()), &specs()), Ok(bound()));
    assert_eq!(to_scylla_query_params(&Value::Struct(entries()), &specs()), Ok(bound()));
}

#[test]
fn missing_parameters_are_empty_by_name_and_absent_by_place() {
    let specs = vec![column("a", native(NativeType::Int)), column("b", native(NativeType::Text))];
    assert_eq!(
        to_scylla_query_params(&Value::Object(vec![("b".to_string(), text("x"))]), &specs),
        Ok(vec![CqlValue::Empty, CqlValue::Text("x".to_string())])
    );
    assert_eq!(
        to_scylla_query_params(&Value::Vec(vec![Value::Integer(1)]), &specs),
        Ok(vec![CqlValue::Int(1)])
    );
    assert_eq!(
        to_scylla_query_params(&Value::Tuple(vec![Value::Integer(1)]), &specs),
        Err(CassError(CassErrorKind::InvalidNumberOfQueryParams))
    );
    assert_eq!(
        to_scylla_query_params(&Value::Integer(1), &specs),
        Err(CassError(CassErrorKind::InvalidQueryParamsObject(ValueKind::Integer)))
    );
    assert_eq!(
        bind_params(&Value::Tuple(vec![text("x"), text("y")]), &vec![
            column("a", native(NativeType::Decimal)),
            column("b", native(NativeType::Text))
        ]),
        Attempt::Refused
    );
}

#[test]
fn cql_values_convert_to_script_values() {
    assert_eq!(cql_value_to_rune_value(None), Ok(Value::Option(None)));
    assert_eq!(cql_value_to_rune_value(Some(&CqlValue::Empty)), Ok(Value::Option(None)));
    assert_eq!(
        cql_value_to_rune_value(Some(&CqlValue::Date(4294967295))),
        Ok(Value::Integer(4294967295))
    );
    assert_eq!(
        cql_value_to_rune_value(Some(&CqlValue::Uuid(0xa))),
        Ok(text("00000000-0000-0000-0000-00000000000a"))
    );
    assert_eq!(
        cql_value_to_rune_value(Some(&CqlValue::Timeuuid(1 << 127))),
        Ok(text("80000000-0000-0000-0000-000000000000"))
    );
    assert_eq!(
        cql_value_to_rune_value(Some(&CqlValue::Varint(vec![0; 9]))),
        Err(CassError(CassErrorKind::Error(
            "Varint is too large to fit into an i64".to_string()
        )))
    );
    assert_eq!(
        cql_value_to_rune_value(Some(&CqlValue::Decimal { mantissa: vec![1], scale: -3 })),
        Err(CassError(CassErrorKind::ValueOutOfRange("-3".to_string(), "u32".to_string())))
    );
    assert_eq!(convert_value(&CqlValue::Varint(vec![])), Attempt::Refused);
    assert_eq!(
        convert_value(&CqlValue::Decimal { mantissa: vec![1], scale: 29 }),
        Attempt::Refused
    );
    assert_eq!(convert_value(&CqlValue::DecimalOf(Float::Double(0))), Attempt::Refused);
    assert_eq!(
        cql_value_to_rune_value(Some(&CqlValue::UserDefinedType {
            keyspace: "k".to_string(),
            name: "n".to_string(),
            fields: vec![
                ("a".to_string(), Some(CqlValue::Int(1))),
                ("b".to_string(), None),
                ("a".to_string(), Some(CqlValue::Int(2))),
            ],
        })),
        Ok(Value::Object(vec![
            ("a".to_string(), Value::Integer(2)),
            ("b".to_string(), Value::Option(None)),
        ]))
    );
    assert_eq!(
        cql_value_to_rune_value(Some(&CqlValue::Tuple(vec![None, Some(CqlValue::Boolean(true))]))),
        Ok(Value::Vec(vec![Value::Option(None), Value::Bool(true)]))
    );
}

#[test]
fn a_decimal_text_reads_back_as_it_is_written() {
    for (text_in, text_out) in [
        ("12.50", "12.50"),
        ("-0.001", "-0.001"),
        ("+7", "7"),
        ("-9223372036854775808", "-9223372036854775808"),
        ("9.223372036854775807", "9.223372036854775807"),
        ("0.0000000000000000000000000001", "0.0000000000000000000000000001"),
    ] {
        match bind_value(&text(text_in), &native(NativeType::Decimal)) {
            Attempt::Done(cql) => {
                assert_eq!(convert_value(&cql), Attempt::Done(text(text_out)))
            }
            other => panic!("{:?}", other),
        }
    }
}
