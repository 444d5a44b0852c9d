use latte::attempt::Attempt;
use latte::cql::column::{CollectionType, ColumnSpec, ColumnType, NativeType, UserDefinedType};
use latte::cql::convert::convert_value;
use latte::cql::cql_value::CqlValue;
use latte::cql::deserialize::{DeserializeError, RuneRow, RuneValue};
use latte::value::{Float, Value};
use scylla::deserialize::value::DeserializeValue;
use scylla::frame::response::result as driver;
use scylla::serialize::value::SerializeValue;
use scylla::serialize::writers::CellWriter;
use scylla::value::CqlValue as Driver;

/// The column type of the driver.
fn driver_type(typ: &ColumnType) -> driver::ColumnType<'static> {
    match typ {
        ColumnType::Native(native) => driver::ColumnType::Native(driver_native(*native)),
        ColumnType::Collection { frozen, typ } => driver::ColumnType::Collection {
            frozen: *frozen,
            typ: match typ {
                CollectionType::ListOf(t) => driver::CollectionType::List(Box::new(driver_type(t))),
                CollectionType::SetOf(t) => driver::CollectionType::Set(Box::new(driver_type(t))),
                CollectionType::MapOf(k, v) => {
                    driver::CollectionType::Map(Box::new(driver_type(k)), Box::new(driver_type(v)))
                }
            },
        },
        ColumnType::Vector { typ, dimensions } => driver::ColumnType::Vector {
            typ: Box::new(driver_type(typ)),
            dimensions: *dimensions,
        },
        ColumnType::UserDefinedType { frozen, definition } => driver::ColumnType::UserDefinedType {
            frozen: *frozen,
            definition: std::sync::Arc::new(driver::UserDefinedType {
                name: definition.name.clone().into(),
                keyspace: definition.keyspace.clone().into(),
                field_types: definition
                    .field_types
                    .iter()
                    .map(|(name, typ)| (name.clone().into(), driver_type(typ)))
                    .collect(),
            }),
        },
        ColumnType::Tuple(types) => {
            driver::ColumnType::Tuple(types.iter().map(driver_type).collect())
        }
    }
}

fn driver_native(native: NativeType) -> driver::NativeType {
    match native {
        NativeType::Ascii => driver::NativeType::Ascii,
        NativeType::Boolean => driver::NativeType::Boolean,
        NativeType::Blob => driver::NativeType::Blob,
        NativeType::Counter => driver::NativeType::Counter,
        NativeType::Date => driver::NativeType::Date,
        NativeType::Decimal => driver::NativeType::Decimal,
        NativeType::Double => driver::NativeType::Double,
        NativeType::Duration => driver::NativeType::Duration,
        NativeType::Float => driver::NativeType::Float,
        NativeType::Int => driver::NativeType::Int,
        NativeType::BigInt => driver::NativeType::BigInt,
        NativeType::Text => driver::NativeType::Text,
        NativeType::Timestamp => driver::NativeType::Timestamp,
        NativeType::Inet => driver::NativeType::Inet,
        NativeType::SmallInt => driver::NativeType::SmallInt,
        NativeType::TinyInt => driver::NativeType::TinyInt,
        NativeType::Time => driver::NativeType::Time,
        NativeType::Timeuuid => driver::NativeType::Timeuuid,
        NativeType::Uuid => driver::NativeType::Uuid,
        NativeType::Varint => driver::NativeType::Varint,
    }
}

/// The value of the library that stands for a value of the driver.
fn library_value(value: &Driver) -> CqlValue {
    match value {
        Driver::Ascii(s) => CqlValue::Ascii(s.clone()),
        Driver::Boolean(b) => CqlValue::Boolean(*b),
        Driver::Blob(b) => CqlValue::Blob(b.clone()),
        Driver::Counter(c) => CqlValue::Counter(c.0),
        Driver::Decimal(d) => {
            let (mantissa, scale) = d.as_signed_be_bytes_slice_and_exponent();
            CqlValue::Decimal { mantissa: mantissa.to_vec(), scale }
        }
        Driver::Date(d) => CqlValue::Date(d.0),
        Driver::Double(f) => CqlValue::Double(Float::Double(f.to_bits())),
        Driver::Duration(d) => CqlValue::Duration {
            months: d.months,
            days: d.days,
            nanoseconds: d.nanoseconds,
        },
        Driver::Empty => CqlValue::Empty,
        Driver::Float(f) => CqlValue::Float(Float::Single(f.to_bits())),
        Driver::Int(i) => CqlValue::Int(*i),
        Driver::BigInt(i) => CqlValue::BigInt(*i),
        Driver::Text(s) => CqlValue::Text(s.clone()),
        Driver::Timestamp(t) => CqlValue::Timestamp(t.0),
        Driver::Inet(a) => CqlValue::Inet(a.to_string()),
        Driver::List(items) => CqlValue::ListOf(items.iter().map(library_value).collect()),
        Driver::Set(items) => CqlValue::SetOf(items.iter().map(library_value).collect()),
        Driver::Vector(items) => CqlValue::Vector(items.iter().map(library_value).collect()),
        Driver::Map(items) => CqlValue::MapOf(
            items.iter().map(|(k, v)| (library_value(k), library_value(v))).collect(),
        ),
        Driver::Tuple(items) => CqlValue::Tuple(
            items.iter().map(|item| item.as_ref().map(library_value)).collect(),
        ),
        Driver::UserDefinedType { keyspace, name, fields } => CqlValue::UserDefinedType {
            keyspace: keyspace.clone(),
            name: name.clone(),
            fields: fields
                .iter()
                .map(|(name, value)| (name.clone(), value.as_ref().map(library_value)))
                .collect(),
        },
        Driver::SmallInt(i) => CqlValue::SmallInt(*i),
        Driver::TinyInt(i) => CqlValue::TinyInt(*i),
        Driver::Time(t) => CqlValue::Time(t.0),
        Driver::Timeuuid(u) => CqlValue::Timeuuid(u.as_u128()),
        Driver::Uuid(u) => CqlValue::Uuid(u.as_u128()),
        Driver::Varint(v) => CqlValue::Varint(v.as_signed_bytes_be_slice().to_vec()),
        _ => unreachable!(),
    }
}

/// What the driver writes for a value, without the length in front.
fn written(value: &Driver, typ: &ColumnType) -> Vec<u8> {
    let mut cell = Vec::new();
    value.serialize(&driver_type(typ), CellWriter::new(&mut cell)).unwrap();
    cell.split_off(4)
}

/// What the library makes of bytes that the driver decodes too.
fn via_driver(typ: &ColumnType, bytes: &[u8]) -> Option<Attempt<Value, String>> {
    let driver_type = driver_type(typ);
    let slice = scylla::deserialize::FrameSlice::new_borrowed(bytes);
    let value = Driver::deserialize(&driver_type, Some(slice)).ok()?;
    Some(match convert_value(&library_value(&value)) {
        Attempt::Done(v) => Attempt::Done(v),
        Attempt::Failed(e) => Attempt::Failed(format!("{:?}", e)),
        Attempt::Refused => Attempt::Refused,
    })
}

/// Decodes bytes with the library, and checks that going through a value of the driver gives
/// the same.
fn decode_both_ways(typ: &ColumnType, bytes: &[u8]) -> Attempt<Value, DeserializeError> {
    let decoded = RuneValue::decode(typ, Some(bytes));
    match (&decoded, via_driver(typ, bytes)) {
        (Attempt::Done(v), Some(Attempt::Done(w))) => assert_eq!(*v, w),
        (Attempt::Refused, Some(Attempt::Refused)) => {}
        (Attempt::Failed(_), None) => {}
        (Attempt::Failed(DeserializeError::VarintTooLarge), Some(Attempt::Failed(_))) => {}
        (Attempt::Failed(DeserializeError::NegativeScale(_)), Some(Attempt::Failed(_))) => {}
        (a, b) => panic!("{:?} decodes to {:?}, and by the driver to {:?}", bytes, a, b),
    }
    decoded
}

fn native(native: NativeType) -> ColumnType {
    ColumnType::Native(native)
}

fn list(element: ColumnType) -> ColumnType {
    ColumnType::Collection { frozen: false, typ: CollectionType::ListOf(Box::new(element)) }
}

fn text(s: &str) -> Value {
    Value::String(s.to_string())
}

fn null() -> Value {
    Value::Option(None)
}

#[test]
fn integers_of_every_width_decode() {
    assert_eq!(
        decode_both_ways(&native(NativeType::TinyInt), &[0x80]),
        Attempt::Done(Value::Integer(-128))
    );
    assert_eq!(
        decode_both_ways(&native(NativeType::SmallInt), &[0xff, 0xfe]),
        Attempt::Done(Value::Integer(-2))
    );
    assert_eq!(
        decode_both_ways(&native(NativeType::Int), &[0x7f, 0xff, 0xff, 0xff]),
        Attempt::Done(Value::Integer(2147483647))
    );
    for typ in [NativeType::BigInt, NativeType::Counter, NativeType::Timestamp] {
        assert_eq!(
            decode_both_ways(&native(typ), &[0x80, 0, 0, 0, 0, 0, 0, 0]),
            Attempt::Done(Value::Integer(i64::MIN))
        );
    }
    assert_eq!(
        decode_both_ways(&native(NativeType::Date), &[0x80, 0, 0, 1]),
        Attempt::Done(Value::Integer(2147483649))
    );
}

#[test]
fn values_of_fixed_size_need_their_size() {
    for (typ, size) in [
        (NativeType::Boolean, 1),
        (NativeType::TinyInt, 1),
        (NativeType::SmallInt, 2),
        (NativeType::Int, 4),
        (NativeType::Float, 4),
        (NativeType::Date, 4),
        (NativeType::BigInt, 8),
        (NativeType::Counter, 8),
        (NativeType::Timestamp, 8),
        (NativeType::Double, 8),
        (NativeType::Time, 8),
        (NativeType::Uuid, 16),
        (NativeType::Timeuuid, 16),
    ] {
        let bytes = vec![0; size + 1];
        assert_eq!(
            decode_both_ways(&native(typ), &bytes),
            Attempt::Failed(DeserializeError::ByteLengthMismatch { expected: size, got: size + 1 })
        );
        assert!(matches!(decode_both_ways(&native(typ), &bytes[1..]), Attempt::Done(_)));
    }
}

#[test]
fn floats_keep_their_bits() {
    assert_eq!(
        decode_both_ways(&native(NativeType::Float), &1.5f32.to_be_bytes()),
        Attempt::Done(Value::Float(Float::Single(1.5f32.to_bits())))
    );
    assert_eq!(
        decode_both_ways(&native(NativeType::Double), &(-0.1f64).to_be_bytes()),
        Attempt::Done(Value::Float(Float::Double((-0.1f64).to_bits())))
    );
}

#[test]
fn a_boolean_is_any_nonzero_byte() {
    assert_eq!(decode_both_ways(&native(NativeType::Boolean), &[0]), Attempt::Done(Value::Bool(false)));
    assert_eq!(decode_both_ways(&native(NativeType::Boolean), &[7]), Attempt::Done(Value::Bool(true)));
}

#[test]
fn a_time_lies_within_the_day() {
    let last: i64 = 86_399_999_999_999;
    assert_eq!(
        decode_both_ways(&native(NativeType::Time), &last.to_be_bytes()),
        Attempt::Done(Value::Integer(last))
    );
    assert_eq!(
        decode_both_ways(&native(NativeType::Time), &(last + 1).to_be_bytes()),
        Attempt::Failed(DeserializeError::ValueOverflow)
    );
    assert_eq!(
        decode_both_ways(&native(NativeType::Time), &(-1i64).to_be_bytes()),
        Attempt::Failed(DeserializeError::ValueOverflow)
    );
}

#[test]
fn texts_decode_to_themselves() {
    assert_eq!(
        decode_both_ways(&native(NativeType::Text), "zażółć".as_bytes()),
        Attempt::Done(text("zażółć"))
    );
    assert_eq!(decode_both_ways(&native(NativeType::Text), b""), Attempt::Done(text("")));
    assert_eq!(decode_both_ways(&native(NativeType::Ascii), b"plain"), Attempt::Done(text("plain")));
    assert_eq!(
        decode_both_ways(&native(NativeType::Ascii), "ż".as_bytes()),
        Attempt::Failed(DeserializeError::ExpectedAscii)
    );
    assert_eq!(
        decode_both_ways(&native(NativeType::Text), &[0xff]),
        Attempt::Failed(DeserializeError::InvalidUtf8)
    );
}

#[test]
fn blobs_become_vectors_of_bytes() {
    assert_eq!(
        decode_both_ways(&native(NativeType::Blob), &[1, 255]),
        Attempt::Done(Value::Vec(vec![Value::Byte(1), Value::Byte(255)]))
    );
    assert_eq!(decode_both_ways(&native(NativeType::Blob), &[]), Attempt::Done(Value::Vec(vec![])));
}

#[test]
fn identifiers_are_written_with_hyphens() {
    let bytes: Vec<u8> = (0..16).map(|i| i * 17).collect();
    for typ in [NativeType::Uuid, NativeType::Timeuuid] {
        assert_eq!(
            decode_both_ways(&native(typ), &bytes),
            Attempt::Done(text("00112233-4455-6677-8899-aabbccddeeff"))
        );
    }
}

#[test]
fn addresses_have_four_or_sixteen_bytes() {
    assert_eq!(
        decode_both_ways(&native(NativeType::Inet), &[127, 0, 0, 1]),
        Attempt::Done(text("127.0.0.1"))
    );
    let mut bytes = [0u8; 16];
    bytes[15] = 1;
    assert_eq!(decode_both_ways(&native(NativeType::Inet), &bytes), Attempt::Done(text("::1")));
    assert_eq!(
        decode_both_ways(&native(NativeType::Inet), &[1, 2, 3]),
        Attempt::Failed(DeserializeError::BadInetLength)
    );
}

#[test]
fn varints_fit_into_64_bits() {
    assert_eq!(
        decode_both_ways(&native(NativeType::Varint), &[0xff]),
        Attempt::Done(Value::Integer(-1))
    );
    assert_eq!(
        decode_both_ways(&native(NativeType::Varint), &[0x00, 0xff]),
        Attempt::Done(Value::Integer(255))
    );
    assert_eq!(
        decode_both_ways(&native(NativeType::Varint), &[0x80, 0, 0, 0, 0, 0, 0, 0]),
        Attempt::Done(Value::Integer(i64::MIN))
    );
    assert_eq!(
        decode_both_ways(&native(NativeType::Varint), &[0; 9]),
        Attempt::Failed(DeserializeError::VarintTooLarge)
    );
}

#[test]
fn decimals_are_written_with_their_scale() {
    let decimal = |scale: i32, mantissa: &[u8]| {
        let mut bytes = scale.to_be_bytes().to_vec();
        bytes.extend_from_slice(mantissa);
        decode_both_ways(&native(NativeType::Decimal), &bytes)
    };
    assert_eq!(decimal(2, &12345i64.to_be_bytes()), Attempt::Done(text("123.45")));
    assert_eq!(decimal(3, &(-5i64).to_be_bytes()), Attempt::Done(text("-0.005")));
    assert_eq!(decimal(0, &0i64.to_be_bytes()), Attempt::Done(text("0")));
    assert_eq!(decimal(2, &0i64.to_be_bytes()), Attempt::Done(text("0.00")));
    assert_eq!(decimal(0, &i64::MIN.to_be_bytes()), Attempt::Done(text("-9223372036854775808")));
    // A shorter mantissa is taken as an unsigned number, and of a longer one the end is kept.
    assert_eq!(decimal(0, &[0xff]), Attempt::Done(text("255")));
    assert_eq!(decimal(0, &7i128.to_be_bytes()), Attempt::Done(text("7")));
    assert_eq!(decimal(28, &1i64.to_be_bytes()), Attempt::Done(text("0.0000000000000000000000000001")));
    assert_eq!(decimal(29, &1i64.to_be_bytes()), Attempt::Refused);
    assert_eq!(
        decimal(-1, &1i64.to_be_bytes()),
        Attempt::Failed(DeserializeError::NegativeScale(-1))
    );
    assert_eq!(
        decode_both_ways(&native(NativeType::Decimal), &[0, 0, 0]),
        Attempt::Failed(DeserializeError::BadDecimalScale)
    );
}

#[test]
fn durations_become_objects() {
    let value = Driver::Duration(scylla::value::CqlDuration {
        months: -1,
        days: 300,
        nanoseconds: i64::MAX,
    });
    let bytes = written(&value, &native(NativeType::Duration));
    assert_eq!(
        decode_both_ways(&native(NativeType::Duration), &bytes),
        Attempt::Done(Value::Object(vec![
            ("months".to_string(), Value::Integer(-1)),
            ("days".to_string(), Value::Integer(300)),
            ("nanoseconds".to_string(), Value::Integer(i64::MAX)),
        ]))
    );
    assert_eq!(
        decode_both_ways(&native(NativeType::Duration), &[0, 0]),
        Attempt::Failed(DeserializeError::BadDuration)
    );
}

#[test]
fn nothing_and_emptiness_decode_to_null() {
    for typ in [native(NativeType::Int), native(NativeType::Varint), list(native(NativeType::Int))] {
        assert_eq!(RuneValue::decode(&typ, None), Attempt::Done(null()));
        assert_eq!(decode_both_ways(&typ, &[]), Attempt::Done(null()));
    }
    assert_eq!(RuneValue::decode(&native(NativeType::Text), None), Attempt::Done(null()));
}

#[test]
fn lists_decode_element_by_element() {
    let typ = list(native(NativeType::Int));
    let bytes = written(&Driver::List(vec![Driver::Int(1), Driver::Int(-2)]), &typ);
    assert_eq!(
        decode_both_ways(&typ, &bytes),
        Attempt::Done(Value::Vec(vec![Value::Integer(1), Value::Integer(-2)]))
    );
    let set = ColumnType::Collection {
        frozen: true,
        typ: CollectionType::SetOf(Box::new(native(NativeType::Text))),
    };
    let bytes = written(&Driver::Set(vec![Driver::Text("a".into())]), &set);
    assert_eq!(decode_both_ways(&set, &bytes), Attempt::Done(Value::Vec(vec![text("a")])));
    // The count is missing or negative, an element is cut short, or is null.
    assert_eq!(decode_both_ways(&typ, &[0, 0, 0]), Attempt::Failed(DeserializeError::BadCount));
    assert_eq!(
        decode_both_ways(&typ, &[0xff, 0xff, 0xff, 0xff]),
        Attempt::Failed(DeserializeError::BadCount)
    );
    assert_eq!(
        decode_both_ways(&typ, &[0, 0, 0, 1, 0, 0, 0, 4, 0]),
        Attempt::Failed(DeserializeError::BadItem)
    );
    let with_null = [0, 0, 0, 1, 0xff, 0xff, 0xff, 0xff];
    assert_eq!(
        RuneValue::decode(&typ, Some(&with_null)),
        Attempt::Done(Value::Vec(vec![null()]))
    );
    // What follows the last element is ignored.
    assert_eq!(decode_both_ways(&typ, &[0, 0, 0, 0, 9]), Attempt::Done(Value::Vec(vec![])));
    // An element that cannot be decoded comes before one that is cut short.
    assert_eq!(
        decode_both_ways(&typ, &[0, 0, 0, 2, 0, 0, 0, 1, 5]),
        Attempt::Failed(DeserializeError::ByteLengthMismatch { expected: 4, got: 1 })
    );
}

#[test]
fn maps_decode_to_pairs() {
    let typ = ColumnType::Collection {
        frozen: false,
        typ: CollectionType::MapOf(
            Box::new(native(NativeType::Text)),
            Box::new(native(NativeType::BigInt)),
        ),
    };
    let bytes = written(
        &Driver::Map(vec![
            (Driver::Text("x".into()), Driver::BigInt(1)),
            (Driver::Text("y".into()), Driver::BigInt(2)),
        ]),
        &typ,
    );
    assert_eq!(
        decode_both_ways(&typ, &bytes),
        Attempt::Done(Value::Vec(vec![
            Value::Tuple(vec![text("x"), Value::Integer(1)]),
            Value::Tuple(vec![text("y"), Value::Integer(2)]),
        ]))
    );
    assert_eq!(
        decode_both_ways(&typ, &bytes[..bytes.len() - 1]),
        Attempt::Failed(DeserializeError::BadItem)
    );
}

#[test]
fn vectors_decode_by_the_size_of_their_elements() {
    let fixed = ColumnType::Vector { typ: Box::new(native(NativeType::Float)), dimensions: 2 };
    let bytes = written(&Driver::Vector(vec![Driver::Float(0.5), Driver::Float(-1.0)]), &fixed);
    assert_eq!(bytes.len(), 8);
    assert_eq!(
        decode_both_ways(&fixed, &bytes),
        Attempt::Done(Value::Vec(vec![
            Value::Float(Float::Single(0.5f32.to_bits())),
            Value::Float(Float::Single((-1.0f32).to_bits())),
        ]))
    );
    assert_eq!(decode_both_ways(&fixed, &bytes[..7]), Attempt::Failed(DeserializeError::BadItem));

    let variable = ColumnType::Vector { typ: Box::new(native(NativeType::Text)), dimensions: 3 };
    let long = "y".repeat(300);
    let longer = "z".repeat(70_000);
    let bytes = written(
        &Driver::Vector(vec![
            Driver::Text("x".into()),
            Driver::Text(long.clone()),
            Driver::Text(longer.clone()),
        ]),
        &variable,
    );
    assert_eq!(
        decode_both_ways(&variable, &bytes),
        Attempt::Done(Value::Vec(vec![text("x"), text(&long), text(&longer)]))
    );
    assert_eq!(decode_both_ways(&variable, &[0xff, 0]), Attempt::Failed(DeserializeError::BadItem));

    let nested = ColumnType::Vector {
        typ: Box::new(ColumnType::Vector { typ: Box::new(native(NativeType::Int)), dimensions: 2 }),
        dimensions: 2,
    };
    let bytes: Vec<u8> = [1i32, 2, 3, 4].iter().flat_map(|i| i.to_be_bytes()).collect();
    assert_eq!(
        decode_both_ways(&nested, &bytes),
        Attempt::Done(Value::Vec(vec![
            Value::Vec(vec![Value::Integer(1), Value::Integer(2)]),
            Value::Vec(vec![Value::Integer(3), Value::Integer(4)]),
        ]))
    );
}

#[test]
fn missing_fields_and_elements_are_null() {
    let udt = ColumnType::UserDefinedType {
        frozen: false,
        definition: UserDefinedType {
            name: "pair".to_string(),
            keyspace: "ks".to_string(),
            field_types: vec![
                ("a".to_string(), native(NativeType::TinyInt)),
                ("b".to_string(), native(NativeType::Text)),
            ],
        },
    };
    let bytes = [0, 0, 0, 1, 5];
    assert_eq!(
        decode_both_ways(&udt, &bytes),
        Attempt::Done(Value::Object(vec![
            ("a".to_string(), Value::Integer(5)),
            ("b".to_string(), null()),
        ]))
    );
    let tuple = ColumnType::Tuple(vec![
        native(NativeType::TinyInt),
        native(NativeType::Text),
        native(NativeType::Int),
    ]);
    assert_eq!(
        decode_both_ways(&tuple, &bytes),
        Attempt::Done(Value::Vec(vec![Value::Integer(5), null(), null()]))
    );
    assert_eq!(decode_both_ways(&tuple, &[0, 0, 0]), Attempt::Failed(DeserializeError::BadItem));
    assert_eq!(decode_both_ways(&udt, &[0, 0, 0]), Attempt::Failed(DeserializeError::BadItem));
}

#[test]
fn rows_decode_column_by_column() {
    let column = |name: &str, typ| ColumnSpec { name: name.to_string(), typ };
    let specs = vec![
        column("id", native(NativeType::TinyInt)),
        column("name", native(NativeType::Text)),
        column("id", native(NativeType::TinyInt)),
    ];
    let bytes = [0, 0, 0, 1, 7, 0xff, 0xff, 0xff, 0xff, 0, 0, 0, 1, 8];
    // A name that comes twice is kept once, with the later value.
    assert_eq!(
        RuneRow::deserialize(&specs, &bytes),
        Ok(RuneRow(vec![
            ("id".to_string(), Value::Integer(8)),
            ("name".to_string(), null()),
        ]))
    );
    assert_eq!(RuneRow::deserialize(&specs, &bytes[..4]), Err(DeserializeError::BadItem));
    let mut entries = vec![("name".to_string(), null())];
    assert_eq!(RuneRow::decode_column(&mut entries, &specs[0], Some(&[9])), Attempt::Done(()));
    assert_eq!(entries[1], ("id".to_string(), Value::Integer(9)));
    assert_eq!(
        RuneRow::decode_column(&mut entries, &specs[0], Some(&[9, 9])),
        Attempt::Failed(DeserializeError::ByteLengthMismatch { expected: 1, got: 2 })
    );
    assert_eq!(entries.len(), 2);
    assert_eq!(
        RuneValue::deserialize(&native(NativeType::TinyInt), Some(&[1])),
        Ok(RuneValue(Value::Integer(1)))
    );
}
