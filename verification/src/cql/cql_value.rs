//! The values that CQL statements are bound to and that query results hold.
use vstd::prelude::*;

use crate::value::{copy_bytes, Float, FloatView};

verus! {

/// A CQL value.
#[derive(Debug, PartialEq)]
pub enum CqlValue {
    Ascii(String),
    Boolean(bool),
    Blob(Vec<u8>),
    Counter(i64),
    /// A decimal number: the big-endian two's complement bytes of its mantissa, and its scale.
    Decimal { mantissa: Vec<u8>, scale: i32 },
    /// The decimal number that a float stands for. It occurs as a parameter only: the database
    /// returns every decimal as a mantissa and a scale.
    DecimalOf(Float),
    /// Days since the epoch, plus 2^31.
    Date(u32),
    Double(Float),
    Duration { months: i32, days: i32, nanoseconds: i64 },
    Empty,
    Float(Float),
    Int(i32),
    BigInt(i64),
    Text(String),
    /// Milliseconds since the epoch.
    Timestamp(i64),
    /// An IP address in its canonical notation.
    Inet(String),
    ListOf(Vec<CqlValue>),
    MapOf(Vec<(CqlValue, CqlValue)>),
    SetOf(Vec<CqlValue>),
    UserDefinedType {
        keyspace: String,
        name: String,
        fields: Vec<(String, Option<CqlValue>)>,
    },
    SmallInt(i16),
    TinyInt(i8),
    /// Nanoseconds since midnight.
    Time(i64),
    Timeuuid(u128),
    Tuple(Vec<Option<CqlValue>>),
    Uuid(u128),
    /// The big-endian two's complement bytes of an integer.
    Varint(Vec<u8>),
    Vector(Vec<CqlValue>),
}

/// What a [`CqlValue`] stands for.
pub enum CqlValueView {
    Ascii(Seq<char>),
    Boolean(bool),
    Blob(Seq<u8>),
    Counter(i64),
    Decimal { mantissa: Seq<u8>, scale: i32 },
    DecimalOf(FloatView),
    Date(u32),
    Double(FloatView),
    Duration { months: i32, days: i32, nanoseconds: i64 },
    Empty,
    Float(FloatView),
    Int(i32),
    BigInt(i64),
    Text(Seq<char>),
    Timestamp(i64),
    Inet(Seq<char>),
    ListOf(Seq<CqlValueView>),
    MapOf(Seq<(CqlValueView, CqlValueView)>),
    SetOf(Seq<CqlValueView>),
    UserDefinedType {
        keyspace: Seq<char>,
        name: Seq<char>,
        fields: Seq<(Seq<char>, Option<CqlValueView>)>,
    },
    SmallInt(i16),
    TinyInt(i8),
    Time(i64),
    Timeuuid(u128),
    Tuple(Seq<Option<CqlValueView>>),
    Uuid(u128),
    Varint(Seq<u8>),
    Vector(Seq<CqlValueView>),
}

/// The views of a sequence of values.
pub open spec fn cql_models(items: Seq<CqlValue>) -> Seq<CqlValueView> {
    Seq::new(items.len(), |i: int| items[i].model())
}

/// The views of the entries of a map.
pub open spec fn cql_pair_models(items: Seq<(CqlValue, CqlValue)>) -> Seq<
    (CqlValueView, CqlValueView),
> {
    Seq::new(items.len(), |i: int| (items[i].0.model(), items[i].1.model()))
}

/// The view of a value that may be null.
pub open spec fn cql_option_model(item: Option<CqlValue>) -> Option<CqlValueView> {
    match item {
        Some(v) => Some(v.model()),
        None => None,
    }
}

/// The views of the elements of a tuple.
pub open spec fn cql_option_models(items: Seq<Option<CqlValue>>) -> Seq<Option<CqlValueView>> {
    Seq::new(items.len(), |i: int| cql_option_model(items[i]))
}

/// The views of the fields of a user-defined value.
pub open spec fn cql_field_models(items: Seq<(String, Option<CqlValue>)>) -> Seq<
    (Seq<char>, Option<CqlValueView>),
> {
    Seq::new(items.len(), |i: int| (items[i].0@, cql_option_model(items[i].1)))
}

impl CqlValue {
    pub open spec fn model(self) -> CqlValueView
        decreases self,
    {
        match self {
            CqlValue::Ascii(s) => CqlValueView::Ascii(s@),
            CqlValue::Boolean(b) => CqlValueView::Boolean(b),
            CqlValue::Blob(b) => CqlValueView::Blob(b@),
            CqlValue::Counter(i) => CqlValueView::Counter(i),
            CqlValue::Decimal { mantissa, scale } => CqlValueView::Decimal {
                mantissa: mantissa@,
                scale,
            },
            CqlValue::DecimalOf(f) => CqlValueView::DecimalOf(f.model()),
            CqlValue::Date(d) => CqlValueView::Date(d),
            CqlValue::Double(f) => CqlValueView::Double(f.model()),
            CqlValue::Duration { months, days, nanoseconds } => CqlValueView::Duration {
                months,
                days,
                nanoseconds,
            },
            CqlValue::Empty => CqlValueView::Empty,
            CqlValue::Float(f) => CqlValueView::Float(f.model()),
            CqlValue::Int(i) => CqlValueView::Int(i),
            CqlValue::BigInt(i) => CqlValueView::BigInt(i),
            CqlValue::Text(s) => CqlValueView::Text(s@),
            CqlValue::Timestamp(i) => CqlValueView::Timestamp(i),
            CqlValue::Inet(s) => CqlValueView::Inet(s@),
            CqlValue::ListOf(v) => CqlValueView::ListOf(
                Seq::new(
                    v@.len(),
                    |i: int|
                        if 0 <= i < v@.len() {
                            v@[i].model()
                        } else {
                            arbitrary()
                        },
                ),
            ),
            CqlValue::MapOf(v) => CqlValueView::MapOf(
                Seq::new(
                    v@.len(),
                    |i: int|
                        if 0 <= i < v@.len() {
                            (v@[i].0.model(), v@[i].1.model())
                        } else {
                            arbitrary()
                        },
                ),
            ),
            CqlValue::SetOf(v) => CqlValueView::SetOf(
                Seq::new(
                    v@.len(),
                    |i: int|
                        if 0 <= i < v@.len() {
                            v@[i].model()
                        } else {
                            arbitrary()
                        },
                ),
            ),
            CqlValue::UserDefinedType { keyspace, name, fields } => CqlValueView::UserDefinedType {
                keyspace: keyspace@,
                name: name@,
                fields: Seq::new(
                    fields@.len(),
                    |i: int|
                        if 0 <= i < fields@.len() {
                            (
                                fields@[i].0@,
                                match fields@[i].1 {
                                    Some(v) => Some(v.model()),
                                    None => None,
                                },
                            )
                        } else {
                            arbitrary()
                        },
                ),
            },
            CqlValue::SmallInt(i) => CqlValueView::SmallInt(i),
            CqlValue::TinyInt(i) => CqlValueView::TinyInt(i),
            CqlValue::Time(i) => CqlValueView::Time(i),
            CqlValue::Timeuuid(u) => CqlValueView::Timeuuid(u),
            CqlValue::Tuple(v) => CqlValueView::Tuple(
                Seq::new(
                    v@.len(),
                    |i: int|
                        if 0 <= i < v@.len() {
                            match v@[i] {
                                Some(v) => Some(v.model()),
                                None => None,
                            }
                        } else {
                            arbitrary()
                        },
                ),
            ),
            CqlValue::Uuid(u) => CqlValueView::Uuid(u),
            CqlValue::Varint(b) => CqlValueView::Varint(b@),
            CqlValue::Vector(v) => CqlValueView::Vector(
                Seq::new(
                    v@.len(),
                    |i: int|
                        if 0 <= i < v@.len() {
                            v@[i].model()
                        } else {
                            arbitrary()
                        },
                ),
            ),
        }
    }

    /// The view of a value with parts, over the views of its parts.
    pub broadcast proof fn lemma_parts(self)
        ensures
            (#[trigger] self.model()) == (match self {
                CqlValue::ListOf(v) => CqlValueView::ListOf(cql_models(v@)),
                CqlValue::SetOf(v) => CqlValueView::SetOf(cql_models(v@)),
                CqlValue::Vector(v) => CqlValueView::Vector(cql_models(v@)),
                CqlValue::MapOf(v) => CqlValueView::MapOf(cql_pair_models(v@)),
                CqlValue::Tuple(v) => CqlValueView::Tuple(cql_option_models(v@)),
                CqlValue::UserDefinedType {
                    keyspace,
                    name,
                    fields,
                } => CqlValueView::UserDefinedType {
                    keyspace: keyspace@,
                    name: name@,
                    fields: cql_field_models(fields@),
                },
                _ => self.model(),
            }),
    {
        match self {
            CqlValue::ListOf(v) => {
                assert(self.model()->ListOf_0 =~= cql_models(v@));
            },
            CqlValue::SetOf(v) => {
                assert(self.model()->SetOf_0 =~= cql_models(v@));
            },
            CqlValue::Vector(v) => {
                assert(self.model()->Vector_0 =~= cql_models(v@));
            },
            CqlValue::MapOf(v) => {
                assert(self.model()->MapOf_0 =~= cql_pair_models(v@));
            },
            CqlValue::Tuple(v) => {
                assert(self.model()->Tuple_0 =~= cql_option_models(v@));
            },
            CqlValue::UserDefinedType { keyspace, name, fields } => {
                assert(self.model()->UserDefinedType_fields =~= cql_field_models(fields@));
            },
            _ => {},
        }
    }

    /// Makes a deep copy of the value.
    pub fn duplicate(&self) -> (r: CqlValue)
        ensures
            r@ == self@,
        decreases self,
    {
        broadcast use CqlValue::lemma_parts;

        match self {
            CqlValue::Ascii(s) => CqlValue::Ascii(s.clone()),
            CqlValue::Boolean(b) => CqlValue::Boolean(*b),
            CqlValue::Blob(b) => CqlValue::Blob(copy_bytes(b)),
            CqlValue::Counter(i) => CqlValue::Counter(*i),
            CqlValue::Decimal { mantissa, scale } => CqlValue::Decimal {
                mantissa: copy_bytes(mantissa),
                scale: *scale,
            },
            CqlValue::DecimalOf(f) => CqlValue::DecimalOf(f.duplicate()),
            CqlValue::Date(d) => CqlValue::Date(*d),
            CqlValue::Double(f) => CqlValue::Double(f.duplicate()),
            CqlValue::Duration { months, days, nanoseconds } => CqlValue::Duration {
                months: *months,
                days: *days,
                nanoseconds: *nanoseconds,
            },
            CqlValue::Empty => CqlValue::Empty,
            CqlValue::Float(f) => CqlValue::Float(f.duplicate()),
            CqlValue::Int(i) => CqlValue::Int(*i),
            CqlValue::BigInt(i) => CqlValue::BigInt(*i),
            CqlValue::Text(s) => CqlValue::Text(s.clone()),
            CqlValue::Timestamp(i) => CqlValue::Timestamp(*i),
            CqlValue::Inet(s) => CqlValue::Inet(s.clone()),
            CqlValue::ListOf(v) => CqlValue::ListOf(CqlValue::duplicate_all(v)),
            CqlValue::MapOf(v) => {
                let mut copies: Vec<(CqlValue, CqlValue)> = Vec::new();
                let mut i: usize = 0;
                while i < v.len()
                    invariant
                        decreases_to!(self => v@),
                        i <= v.len(),
                        copies.len() == i,
                        forall|k: int|
                            0 <= k < i ==> (#[trigger] copies[k]).0.model() == v[k].0.model()
                                && copies[k].1.model() == v[k].1.model(),
                    decreases v.len() - i,
                {
                    assert(decreases_to!(v@ => v@[i as int]));
                    assert(decreases_to!(v@[i as int] => v@[i as int].0));
                    assert(decreases_to!(v@[i as int] => v@[i as int].1));
                    copies.push((v[i].0.duplicate(), v[i].1.duplicate()));
                    i += 1;
                }
                assert(cql_pair_models(copies@) =~= cql_pair_models(v@));
                CqlValue::MapOf(copies)
            },
            CqlValue::SetOf(v) => CqlValue::SetOf(CqlValue::duplicate_all(v)),
            CqlValue::UserDefinedType { keyspace, name, fields } => {
                let mut copies: Vec<(String, Option<CqlValue>)> = Vec::new();
                let mut i: usize = 0;
                while i < fields.len()
                    invariant
                        decreases_to!(self => fields@),
                        i <= fields.len(),
                        copies.len() == i,
                        forall|k: int|
                            0 <= k < i ==> (#[trigger] copies[k]).0@ == fields[k].0@
                                && cql_option_model(copies[k].1) == cql_option_model(fields[k].1),
                    decreases fields.len() - i,
                {
                    assert(decreases_to!(fields@ => fields@[i as int]));
                    assert(decreases_to!(fields@[i as int] => fields@[i as int].1));
                    let copy = match &fields[i].1 {
                        Some(v) => {
                            assert(decreases_to!(fields@[i as int].1 => *v));
                            Some(v.duplicate())
                        },
                        None => None,
                    };
                    copies.push((fields[i].0.clone(), copy));
                    i += 1;
                }
                assert(cql_field_models(copies@) =~= cql_field_models(fields@));
                CqlValue::UserDefinedType {
                    keyspace: keyspace.clone(),
                    name: name.clone(),
                    fields: copies,
                }
            },
            CqlValue::SmallInt(i) => CqlValue::SmallInt(*i),
            CqlValue::TinyInt(i) => CqlValue::TinyInt(*i),
            CqlValue::Time(i) => CqlValue::Time(*i),
            CqlValue::Timeuuid(u) => CqlValue::Timeuuid(*u),
            CqlValue::Tuple(v) => {
                let mut copies: Vec<Option<CqlValue>> = Vec::new();
                let mut i: usize = 0;
                while i < v.len()
                    invariant
                        decreases_to!(self => v@),
                        i <= v.len(),
                        copies.len() == i,
                        forall|k: int|
                            0 <= k < i ==> cql_option_model(#[trigger] copies[k])
                                == cql_option_model(v[k]),
                    decreases v.len() - i,
                {
                    assert(decreases_to!(v@ => v@[i as int]));
                    let copy = match &v[i] {
                        Some(item) => {
                            assert(decreases_to!(v@[i as int] => *item));
                            Some(item.duplicate())
                        },
                        None => None,
                    };
                    copies.push(copy);
                    i += 1;
                }
                assert(cql_option_models(copies@) =~= cql_option_models(v@));
                CqlValue::Tuple(copies)
            },
            CqlValue::Uuid(u) => CqlValue::Uuid(*u),
            CqlValue::Varint(b) => CqlValue::Varint(copy_bytes(b)),
            CqlValue::Vector(v) => CqlValue::Vector(CqlValue::duplicate_all(v)),
        }
    }

    /// Makes deep copies of values.
    pub fn duplicate_all(items: &Vec<CqlValue>) -> (r: Vec<CqlValue>)
        ensures
            cql_models(r@) == cql_models(items@),
        decreases items,
    {
        let mut copies: Vec<CqlValue> = Vec::new();
        let mut i: usize = 0;
        while i < items.len()
            invariant
                i <= items.len(),
                copies.len() == i,
                forall|k: int| 0 <= k < i ==> (#[trigger] copies[k]).model() == items[k].model(),
            decreases items.len() - i,
        {
            assert(decreases_to!(items@ => items@[i as int]));
            copies.push(items[i].duplicate());
            i += 1;
        }
        assert(cql_models(copies@) =~= cql_models(items@));
        copies
    }
}

impl View for CqlValue {
    type V = CqlValueView;

    open spec fn view(&self) -> CqlValueView {
        self.model()
    }
}

} // verus!
