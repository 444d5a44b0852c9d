//! The types of CQL columns.
use vstd::prelude::*;

verus! {

/// A CQL type without parameters.
#[derive(Debug, Clone, Copy, PartialEq, Eq, Structural)]
pub enum NativeType {
    Ascii,
    Boolean,
    Blob,
    Counter,
    Date,
    Decimal,
    Double,
    Duration,
    Float,
    Int,
    BigInt,
    Text,
    Timestamp,
    Inet,
    SmallInt,
    TinyInt,
    Time,
    Timeuuid,
    Uuid,
    Varint,
}

/// A CQL type whose values hold any number of elements.
#[derive(Debug, PartialEq)]
pub enum CollectionType {
    ListOf(Box<ColumnType>),
    MapOf(Box<ColumnType>, Box<ColumnType>),
    SetOf(Box<ColumnType>),
}

/// The definition of a user-defined type.
#[derive(Debug, PartialEq)]
pub struct UserDefinedType {
    pub name: String,
    pub keyspace: String,
    pub field_types: Vec<(String, ColumnType)>,
}

/// The type of a column.
#[allow(inconsistent_fields)]
#[derive(Debug, PartialEq)]
pub enum ColumnType {
    Native(NativeType),
    Collection { frozen: bool, typ: CollectionType },
    Vector { typ: Box<ColumnType>, dimensions: u16 },
    UserDefinedType { frozen: bool, definition: UserDefinedType },
    Tuple(Vec<ColumnType>),
}

/// The name and the type of a column.
#[derive(Debug, PartialEq)]
pub struct ColumnSpec {
    pub name: String,
    pub typ: ColumnType,
}

/// What a [`CollectionType`] stands for.
pub enum CollectionTypeView {
    ListOf(Box<ColumnTypeView>),
    MapOf(Box<ColumnTypeView>, Box<ColumnTypeView>),
    SetOf(Box<ColumnTypeView>),
}

/// What a [`UserDefinedType`] stands for.
pub struct UserDefinedTypeView {
    pub name: Seq<char>,
    pub keyspace: Seq<char>,
    pub field_types: Seq<(Seq<char>, ColumnTypeView)>,
}

/// What a [`ColumnType`] stands for.
#[allow(inconsistent_fields)]
pub enum ColumnTypeView {
    Native(NativeType),
    Collection { frozen: bool, typ: CollectionTypeView },
    Vector { typ: Box<ColumnTypeView>, dimensions: u16 },
    UserDefinedType { frozen: bool, definition: UserDefinedTypeView },
    Tuple(Seq<ColumnTypeView>),
}

/// What a [`ColumnSpec`] stands for.
pub struct ColumnSpecView {
    pub name: Seq<char>,
    pub typ: ColumnTypeView,
}

/// The name of a native type.
pub open spec fn native_name(typ: NativeType) -> Seq<char> {
    match typ {
        NativeType::Ascii => "Ascii"@,
        NativeType::Boolean => "Boolean"@,
        NativeType::Blob => "Blob"@,
        NativeType::Counter => "Counter"@,
        NativeType::Date => "Date"@,
        NativeType::Decimal => "Decimal"@,
        NativeType::Double => "Double"@,
        NativeType::Duration => "Duration"@,
        NativeType::Float => "Float"@,
        NativeType::Int => "Int"@,
        NativeType::BigInt => "BigInt"@,
        NativeType::Text => "Text"@,
        NativeType::Timestamp => "Timestamp"@,
        NativeType::Inet => "Inet"@,
        NativeType::SmallInt => "SmallInt"@,
        NativeType::TinyInt => "TinyInt"@,
        NativeType::Time => "Time"@,
        NativeType::Timeuuid => "Timeuuid"@,
        NativeType::Uuid => "Uuid"@,
        NativeType::Varint => "Varint"@,
    }
}

/// The number of bytes that a vector spends on an element of the native type, where it spends
/// the same on each.
pub open spec fn native_vector_size(typ: NativeType) -> Option<nat> {
    match typ {
        NativeType::Boolean => Some(1nat),
        NativeType::Float | NativeType::Int => Some(4nat),
        NativeType::Double | NativeType::BigInt | NativeType::Timestamp => Some(8nat),
        NativeType::Timeuuid | NativeType::Uuid => Some(16nat),
        _ => None,
    }
}

impl ColumnTypeView {
    /// The number of bytes that a vector spends on an element of this type, where it spends the
    /// same on each.
    pub open spec fn vector_size(self) -> Option<nat>
        decreases self,
    {
        match self {
            ColumnTypeView::Native(native) => native_vector_size(native),
            ColumnTypeView::Vector { typ, dimensions } => match (*typ).vector_size() {
                Some(size) => Some(size * (dimensions as nat)),
                None => None,
            },
            _ => None,
        }
    }
}

impl NativeType {
    /// Tells the name of the type.
    pub fn name(&self) -> (r: String)
        ensures
            r@ == native_name(*self),
    {
        let name = match self {
            NativeType::Ascii => "Ascii",
            NativeType::Boolean => "Boolean",
            NativeType::Blob => "Blob",
            NativeType::Counter => "Counter",
            NativeType::Date => "Date",
            NativeType::Decimal => "Decimal",
            NativeType::Double => "Double",
            NativeType::Duration => "Duration",
            NativeType::Float => "Float",
            NativeType::Int => "Int",
            NativeType::BigInt => "BigInt",
            NativeType::Text => "Text",
            NativeType::Timestamp => "Timestamp",
            NativeType::Inet => "Inet",
            NativeType::SmallInt => "SmallInt",
            NativeType::TinyInt => "TinyInt",
            NativeType::Time => "Time",
            NativeType::Timeuuid => "Timeuuid",
            NativeType::Uuid => "Uuid",
            NativeType::Varint => "Varint",
        };
        name.to_owned()
    }

    /// Tells how many bytes a vector spends on each element of the type, if always the same.
    pub fn vector_size(&self) -> (r: Option<usize>)
        ensures
            match r {
                Some(size) => native_vector_size(*self) == Some(size as nat),
                None => native_vector_size(*self) is None,
            },
    {
        match self {
            NativeType::Boolean => Some(1),
            NativeType::Float | NativeType::Int => Some(4),
            NativeType::Double | NativeType::BigInt | NativeType::Timestamp => Some(8),
            NativeType::Timeuuid | NativeType::Uuid => Some(16),
            _ => None,
        }
    }
}

/// The views of a sequence of types.
pub open spec fn type_models(types: Seq<ColumnType>) -> Seq<ColumnTypeView> {
    Seq::new(types.len(), |i: int| types[i].model())
}

/// The views of the fields of a user-defined type.
pub open spec fn field_models(fields: Seq<(String, ColumnType)>) -> Seq<
    (Seq<char>, ColumnTypeView),
> {
    Seq::new(fields.len(), |i: int| (fields[i].0@, fields[i].1.model()))
}

/// The views of a sequence of column specifications.
pub open spec fn spec_models(specs: Seq<ColumnSpec>) -> Seq<ColumnSpecView> {
    Seq::new(specs.len(), |i: int| specs[i].model())
}

impl CollectionType {
    pub open spec fn model(self) -> CollectionTypeView
        decreases self,
    {
        match self {
            CollectionType::ListOf(t) => CollectionTypeView::ListOf(Box::new((*t).model())),
            CollectionType::MapOf(k, v) => CollectionTypeView::MapOf(
                Box::new((*k).model()),
                Box::new((*v).model()),
            ),
            CollectionType::SetOf(t) => CollectionTypeView::SetOf(Box::new((*t).model())),
        }
    }

    /// Makes a deep copy of the type.
    pub fn duplicate(&self) -> (r: CollectionType)
        ensures
            r.model() == self.model(),
        decreases self,
    {
        match self {
            CollectionType::ListOf(t) => CollectionType::ListOf(Box::new(t.duplicate())),
            CollectionType::MapOf(k, v) => CollectionType::MapOf(
                Box::new(k.duplicate()),
                Box::new(v.duplicate()),
            ),
            CollectionType::SetOf(t) => CollectionType::SetOf(Box::new(t.duplicate())),
        }
    }
}

impl UserDefinedType {
    pub open spec fn model(self) -> UserDefinedTypeView
        decreases self,
    {
        UserDefinedTypeView {
            name: self.name@,
            keyspace: self.keyspace@,
            field_types: Seq::new(
                self.field_types@.len(),
                |i: int|
                    if 0 <= i < self.field_types@.len() {
                        (self.field_types@[i].0@, self.field_types@[i].1.model())
                    } else {
                        arbitrary()
                    },
            ),
        }
    }

    /// The view of the definition, over the views of its fields.
    pub broadcast proof fn lemma_parts(self)
        ensures
            (#[trigger] self.model()).field_types == field_models(self.field_types@),
    {
        assert(self.model().field_types =~= field_models(self.field_types@));
    }

    /// Makes a deep copy of the definition.
    pub fn duplicate(&self) -> (r: UserDefinedType)
        ensures
            r.model() == self.model(),
        decreases self,
    {
        broadcast use UserDefinedType::lemma_parts;

        let mut field_types: Vec<(String, ColumnType)> = Vec::new();
        let mut i: usize = 0;
        while i < self.field_types.len()
            invariant
                decreases_to!(self => self.field_types@),
                i <= self.field_types.len(),
                field_types.len() == i,
                forall|k: int|
                    0 <= k < i ==> (#[trigger] field_types[k]).0@ == self.field_types[k].0@
                        && field_types[k].1.model() == self.field_types[k].1.model(),
            decreases self.field_types.len() - i,
        {
            assert(decreases_to!(self.field_types@ => self.field_types@[i as int]));
            assert(decreases_to!(self.field_types@[i as int] => self.field_types@[i as int].1));
            field_types.push((self.field_types[i].0.clone(), self.field_types[i].1.duplicate()));
            i += 1;
        }
        assert(field_models(field_types@) =~= field_models(self.field_types@));
        UserDefinedType {
            name: self.name.clone(),
            keyspace: self.keyspace.clone(),
            field_types,
        }
    }
}

impl ColumnType {
    pub open spec fn model(self) -> ColumnTypeView
        decreases self,
    {
        match self {
            ColumnType::Native(t) => ColumnTypeView::Native(t),
            ColumnType::Collection { frozen, typ } => ColumnTypeView::Collection {
                frozen,
                typ: typ.model(),
            },
            ColumnType::Vector { typ, dimensions } => ColumnTypeView::Vector {
                typ: Box::new((*typ).model()),
                dimensions,
            },
            ColumnType::UserDefinedType { frozen, definition } => ColumnTypeView::UserDefinedType {
                frozen,
                definition: definition.model(),
            },
            ColumnType::Tuple(types) => ColumnTypeView::Tuple(
                Seq::new(
                    types@.len(),
                    |i: int|
                        if 0 <= i < types@.len() {
                            types@[i].model()
                        } else {
                            arbitrary()
                        },
                ),
            ),
        }
    }

    /// The view of a tuple type, over the views of its elements.
    pub broadcast proof fn lemma_parts(self)
        ensures
            (#[trigger] self.model()) == (match self {
                ColumnType::Tuple(types) => ColumnTypeView::Tuple(type_models(types@)),
                _ => self.model(),
            }),
    {
        match self {
            ColumnType::Tuple(types) => {
                assert(self.model()->Tuple_0 =~= type_models(types@));
            },
            _ => {},
        }
    }

    /// Makes a deep copy of the type.
    pub fn duplicate(&self) -> (r: ColumnType)
        ensures
            r@ == self@,
        decreases self,
    {
        broadcast use ColumnType::lemma_parts;

        match self {
            ColumnType::Native(t) => ColumnType::Native(*t),
            ColumnType::Collection { frozen, typ } => ColumnType::Collection {
                frozen: *frozen,
                typ: typ.duplicate(),
            },
            ColumnType::Vector { typ, dimensions } => ColumnType::Vector {
                typ: Box::new(typ.duplicate()),
                dimensions: *dimensions,
            },
            ColumnType::UserDefinedType { frozen, definition } => ColumnType::UserDefinedType {
                frozen: *frozen,
                definition: definition.duplicate(),
            },
            ColumnType::Tuple(types) => {
                let mut copies: Vec<ColumnType> = Vec::new();
                let mut i: usize = 0;
                while i < types.len()
                    invariant
                        decreases_to!(self => types@),
                        i <= types.len(),
                        copies.len() == i,
                        forall|k: int|
                            0 <= k < i ==> (#[trigger] copies[k]).model() == types[k].model(),
                    decreases types.len() - i,
                {
                    assert(decreases_to!(types@ => types@[i as int]));
                    copies.push(types[i].duplicate());
                    i += 1;
                }
                assert(type_models(copies@) =~= type_models(types@));
                ColumnType::Tuple(copies)
            },
        }
    }
}

impl View for ColumnType {
    type V = ColumnTypeView;

    open spec fn view(&self) -> ColumnTypeView {
        self.model()
    }
}

impl ColumnSpec {
    pub open spec fn model(self) -> ColumnSpecView {
        ColumnSpecView { name: self.name@, typ: self.typ@ }
    }
}

impl View for ColumnSpec {
    type V = ColumnSpecView;

    open spec fn view(&self) -> ColumnSpecView {
        self.model()
    }
}

/// A vector spends on an element what an element of that type always takes, and on an element that
/// is a vector itself what all its elements take together. Elements of any other type have no size
/// in common.
pub proof fn vector_elements_have_the_size_of_their_type(
    native: NativeType,
    element: ColumnTypeView,
    dimensions: u16,
)
    ensures
        ColumnTypeView::Native(native).vector_size() == (if native == NativeType::Boolean {
            Some(1nat)
        } else if native == NativeType::Int || native == NativeType::Float {
            Some(4nat)
        } else if native == NativeType::BigInt || native == NativeType::Double || native
            == NativeType::Timestamp {
            Some(8nat)
        } else if native == NativeType::Uuid || native == NativeType::Timeuuid {
            Some(16nat)
        } else {
            None
        }),
        (ColumnTypeView::Vector { typ: Box::new(element), dimensions }).vector_size() == (
        match element.vector_size() {
            Some(size) => Some((size * (dimensions as nat)) as nat),
            None => None,
        }),
        element is Collection || element is UserDefinedType || element is Tuple
            ==> element.vector_size() is None,
{
}

} // verus!
