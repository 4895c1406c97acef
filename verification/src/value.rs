//! Field values: the closed set of shapes that the wire can carry, their
//! mathematical model, and the bytes that stand for them.

use crate::primitive::{be_bytes, binary_wire, unsigned};
use vstd::prelude::*;

verus! {

/// The type tags of the wire.
#[derive(Clone, Copy, Debug, PartialEq, Eq, Structural)]
pub enum WireType {
    Bool,
    Byte,
    Double,
    I16,
    I32,
    I64,
    Binary,
    Struct,
    MapOf,
    SetOf,
    ListOf,
}

impl WireType {
    /// The byte that announces this type on the wire.
    pub open spec fn tag(self) -> u8 {
        match self {
            WireType::Bool => 2,
            WireType::Byte => 3,
            WireType::Double => 4,
            WireType::I16 => 6,
            WireType::I32 => 8,
            WireType::I64 => 10,
            WireType::Binary => 11,
            WireType::Struct => 12,
            WireType::MapOf => 13,
            WireType::SetOf => 14,
            WireType::ListOf => 15,
        }
    }

    /// The type that the byte `tag` announces, if it announces one.
    pub open spec fn of_tag(tag: u8) -> Option<WireType> {
        if tag == 2 {
            Some(WireType::Bool)
        } else if tag == 3 {
            Some(WireType::Byte)
        } else if tag == 4 {
            Some(WireType::Double)
        } else if tag == 6 {
            Some(WireType::I16)
        } else if tag == 8 {
            Some(WireType::I32)
        } else if tag == 10 {
            Some(WireType::I64)
        } else if tag == 11 {
            Some(WireType::Binary)
        } else if tag == 12 {
            Some(WireType::Struct)
        } else if tag == 13 {
            Some(WireType::MapOf)
        } else if tag == 14 {
            Some(WireType::SetOf)
        } else if tag == 15 {
            Some(WireType::ListOf)
        } else {
            None
        }
    }

    /// The tag byte of this type.
    pub fn to_tag(self) -> (tag: u8)
        ensures
            tag == self.tag(),
            tag != 0,
            WireType::of_tag(tag) == Some(self),
    {
        match self {
            WireType::Bool => 2,
            WireType::Byte => 3,
            WireType::Double => 4,
            WireType::I16 => 6,
            WireType::I32 => 8,
            WireType::I64 => 10,
            WireType::Binary => 11,
            WireType::Struct => 12,
            WireType::MapOf => 13,
            WireType::SetOf => 14,
            WireType::ListOf => 15,
        }
    }

    /// The type that a tag byte announces; `None` for a byte that is no tag
    /// of a value.
    pub fn from_tag(tag: u8) -> (t: Option<WireType>)
        ensures
            t == WireType::of_tag(tag),
            t matches Some(w) ==> w.tag() == tag,
    {
        match tag {
            2 => Some(WireType::Bool),
            3 => Some(WireType::Byte),
            4 => Some(WireType::Double),
            6 => Some(WireType::I16),
            8 => Some(WireType::I32),
            10 => Some(WireType::I64),
            11 => Some(WireType::Binary),
            12 => Some(WireType::Struct),
            13 => Some(WireType::MapOf),
            14 => Some(WireType::SetOf),
            15 => Some(WireType::ListOf),
            _ => None,
        }
    }
}

/// The mathematical model of a field value.
pub enum Value {
    Bool(bool),
    Byte(i8),
    I16(i16),
    I32(i32),
    I64(i64),
    /// The 64 bits of an IEEE-754 double.
    Double(u64),
    Binary(Seq<u8>),
    /// The element type, then the elements in order.
    ListOf(WireType, Seq<Value>),
    SetOf(WireType, Seq<Value>),
    /// The key type, the value type, then the pairs in order.
    MapOf(WireType, WireType, Seq<(Value, Value)>),
    /// The fields in order, each with its identifier.
    Struct(Seq<(i16, Value)>),
}

/// One field of a structure: its identifier and what it holds.
#[derive(Debug, PartialEq, Eq)]
pub struct Field {
    pub id: i16,
    pub value: FieldValue,
}

/// One pair of a mapping.
#[derive(Debug, PartialEq, Eq)]
pub struct Entry {
    pub key: FieldValue,
    pub value: FieldValue,
}

/// A value as the wire carries it.
///
/// A double is held as its 64 bits. Strings and byte buffers share one
/// shape, `Binary`. A list, a set and a mapping carry the types of their
/// elements beside the elements, in the order of the wire.
#[derive(Debug, PartialEq, Eq)]
pub enum FieldValue {
    Bool(bool),
    Byte(i8),
    I16(i16),
    I32(i32),
    I64(i64),
    Double(u64),
    Binary(Vec<u8>),
    ListOf(WireType, Vec<FieldValue>),
    SetOf(WireType, Vec<FieldValue>),
    MapOf(WireType, WireType, Vec<Entry>),
    Struct(Vec<Field>),
}

impl View for FieldValue {
    type V = Value;

    open spec fn view(&self) -> Value
        decreases self,
    {
        match self {
            FieldValue::Bool(b) => Value::Bool(*b),
            FieldValue::Byte(v) => Value::Byte(*v),
            FieldValue::I16(v) => Value::I16(*v),
            FieldValue::I32(v) => Value::I32(*v),
            FieldValue::I64(v) => Value::I64(*v),
            FieldValue::Double(bits) => Value::Double(*bits),
            FieldValue::Binary(content) => Value::Binary(content@),
            FieldValue::ListOf(t, items) => Value::ListOf(
                *t,
                view_of_items(items@),
            ),
            FieldValue::SetOf(t, items) => Value::SetOf(
                *t,
                view_of_items(items@),
            ),
            FieldValue::MapOf(k, v, entries) => Value::MapOf(
                *k,
                *v,
                view_of_entries(entries@),
            ),
            FieldValue::Struct(fields) => Value::Struct(view_of_fields(fields@)),
        }
    }
}

/// The models of the elements of a list or a set, in order. (The branch
/// outside the range is never read; it is there for the proof that the
/// model of a value is well defined.)
pub open spec fn view_of_items(items: Seq<FieldValue>) -> Seq<Value>
    decreases items,
{
    Seq::new(
        items.len(),
        |i: int|
            if 0 <= i < items.len() {
                items[i]@
            } else {
                Value::Bool(false)
            },
    )
}

/// The models of the pairs of a mapping, in order.
pub open spec fn view_of_entries(entries: Seq<Entry>) -> Seq<(Value, Value)>
    decreases entries,
{
    Seq::new(
        entries.len(),
        |i: int|
            if 0 <= i < entries.len() {
                (entries[i].key@, entries[i].value@)
            } else {
                (Value::Bool(false), Value::Bool(false))
            },
    )
}

/// The models of the fields of a structure, in order.
pub open spec fn view_of_fields(fields: Seq<Field>) -> Seq<(i16, Value)>
    decreases fields,
{
    Seq::new(
        fields.len(),
        |i: int|
            if 0 <= i < fields.len() {
                (fields[i].id, fields[i].value@)
            } else {
                (0i16, Value::Bool(false))
            },
    )
}

impl View for Field {
    type V = (i16, Value);

    open spec fn view(&self) -> (i16, Value) {
        (self.id, self.value@)
    }
}

impl View for Entry {
    type V = (Value, Value);

    open spec fn view(&self) -> (Value, Value) {
        (self.key@, self.value@)
    }
}

impl Value {
    /// The wire type of this value.
    pub open spec fn wire_type(self) -> WireType {
        match self {
            Value::Bool(_) => WireType::Bool,
            Value::Byte(_) => WireType::Byte,
            Value::I16(_) => WireType::I16,
            Value::I32(_) => WireType::I32,
            Value::I64(_) => WireType::I64,
            Value::Double(_) => WireType::Double,
            Value::Binary(_) => WireType::Binary,
            Value::ListOf(_, _) => WireType::ListOf,
            Value::SetOf(_, _) => WireType::SetOf,
            Value::MapOf(_, _, _) => WireType::MapOf,
            Value::Struct(_) => WireType::Struct,
        }
    }

    /// Whether the value can stand on the wire: every length fits the
    /// four-byte signed count, and the elements of a collection have the
    /// type that the collection announces.
    pub open spec fn well_formed(self) -> bool
        decreases self,
    {
        match self {
            Value::Binary(content) => content.len() <= i32::MAX,
            Value::ListOf(t, items) => items_well_formed(t, items),
            Value::SetOf(t, items) => items_well_formed(t, items),
            Value::MapOf(k, v, entries) => entries_well_formed(k, v, entries),
            Value::Struct(fields) => fields_well_formed(fields),
            _ => true,
        }
    }

    /// The bytes that stand for this value on the wire.
    pub open spec fn wire(self) -> Seq<u8>
        decreases self,
    {
        match self {
            Value::Bool(b) => seq![if b { 1u8 } else { 0u8 }],
            Value::Byte(v) => seq![unsigned(v as int, 1) as u8],
            Value::I16(v) => be_bytes(unsigned(v as int, 2), 2),
            Value::I32(v) => be_bytes(unsigned(v as int, 4), 4),
            Value::I64(v) => be_bytes(unsigned(v as int, 8), 8),
            Value::Double(bits) => be_bytes(bits as int, 8),
            Value::Binary(content) => binary_wire(content),
            Value::ListOf(t, items) => collection_wire(t, items),
            Value::SetOf(t, items) => collection_wire(t, items),
            Value::MapOf(k, v, entries) => seq![k.tag(), v.tag()] + be_bytes(
                entries.len() as int,
                4,
            ) + wire_of_entries(entries),
            Value::Struct(fields) => wire_of_fields(fields) + seq![0u8],
        }
    }
}

/// Whether the elements of a list or a set fit the count, have the type `t`
/// and can stand on the wire.
pub open spec fn items_well_formed(t: WireType, items: Seq<Value>) -> bool
    decreases items,
{
    &&& items.len() <= i32::MAX
    &&& forall|i: int|
        0 <= i < items.len() ==> (#[trigger] items[i]).wire_type() == t && items[i].well_formed()
}

/// Whether the pairs of a mapping fit the count, have the types `k` and `v`
/// and can stand on the wire.
pub open spec fn entries_well_formed(k: WireType, v: WireType, entries: Seq<(Value, Value)>) -> bool
    decreases entries,
{
    &&& entries.len() <= i32::MAX
    &&& forall|i: int|
        0 <= i < entries.len() ==> {
            &&& (#[trigger] entries[i]).0.wire_type() == k
            &&& entries[i].1.wire_type() == v
            &&& entries[i].0.well_formed()
            &&& entries[i].1.well_formed()
        }
}

/// Whether every field of a structure can stand on the wire.
pub open spec fn fields_well_formed(fields: Seq<(i16, Value)>) -> bool
    decreases fields,
{
    forall|i: int| 0 <= i < fields.len() ==> (#[trigger] fields[i]).1.well_formed()
}

/// A list or a set on the wire: the element type, the count in four bytes,
/// then the elements.
pub open spec fn collection_wire(t: WireType, items: Seq<Value>) -> Seq<u8>
    decreases items, 1nat,
{
    seq![t.tag()] + be_bytes(items.len() as int, 4) + wire_of_items(items)
}

/// The elements of a list or a set, one after the other.
pub open spec fn wire_of_items(items: Seq<Value>) -> Seq<u8>
    decreases items, 0nat,
{
    if items.len() == 0 {
        Seq::empty()
    } else {
        wire_of_items(items.drop_last()) + items.last().wire()
    }
}

/// The pairs of a mapping, one after the other, each key before its value.
pub open spec fn wire_of_entries(entries: Seq<(Value, Value)>) -> Seq<u8>
    decreases entries,
{
    if entries.len() == 0 {
        Seq::empty()
    } else {
        wire_of_entries(entries.drop_last()) + entries.last().0.wire() + entries.last().1.wire()
    }
}

/// The header of a field: its type tag, then its identifier in two bytes.
pub open spec fn field_header(t: WireType, id: i16) -> Seq<u8> {
    seq![t.tag()] + be_bytes(unsigned(id as int, 2), 2)
}

/// The fields of a structure, one after the other, without the stop byte.
pub open spec fn wire_of_fields(fields: Seq<(i16, Value)>) -> Seq<u8>
    decreases fields,
{
    if fields.len() == 0 {
        Seq::empty()
    } else {
        wire_of_fields(fields.drop_last()) + field_header(
            fields.last().1.wire_type(),
            fields.last().0,
        ) + fields.last().1.wire()
    }
}

} // verus!
