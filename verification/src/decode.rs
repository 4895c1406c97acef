//! Decoding of field values: what a run of bytes means, and the function
//! that finds it out.

use crate::error::ProtocolError;
use crate::primitive::{
    announced_len, be_value, lemma_be_value_range, lemma_radix, signed, take_binary, take_bool,
    take_byte, take_i16, take_i32, take_i64, take_i8, unsigned,
};
use crate::value::{
    view_of_entries, view_of_fields, view_of_items, Entry, Field, FieldValue, Value, WireType,
};
use vstd::prelude::*;

verus! {

/// What the bytes from some position on hold, in the model.
pub enum Parsed<T> {
    /// A whole value, and the position after it.
    Complete(T, int),
    /// The start of a value: more bytes are needed.
    Incomplete,
    /// No value, whatever bytes follow.
    Malformed(ProtocolError),
}

/// What a decoder found from some position on.
#[derive(Debug, PartialEq, Eq)]
pub enum Decoded<T> {
    /// A whole value, and the position after it.
    Complete { value: T, next: usize },
    /// The start of a value: more bytes are needed.
    Incomplete,
    /// No value, whatever bytes follow.
    Malformed(ProtocolError),
}

impl<T> Decoded<T> {
    /// This outcome in the model, the value seen through `model`.
    pub open spec fn parsed_as<U>(self, model: spec_fn(T) -> U) -> Parsed<U> {
        match self {
            Decoded::Complete { value, next } => Parsed::Complete(model(value), next as int),
            Decoded::Incomplete => Parsed::Incomplete,
            Decoded::Malformed(e) => Parsed::Malformed(e),
        }
    }
}

/// The signed number that the `n` bytes at `pos` hold.
pub open spec fn scalar_at(bytes: Seq<u8>, pos: int, n: nat) -> int {
    signed(be_value(bytes, pos, n), n)
}

/// A byte string at `pos`: four bytes of length, then the content.
pub open spec fn parse_binary(bytes: Seq<u8>, pos: int) -> Parsed<Seq<u8>> {
    if pos < 0 || pos + 4 > bytes.len() {
        Parsed::Incomplete
    } else if announced_len(bytes, pos) < 0 {
        Parsed::Malformed(ProtocolError::NegativeLength)
    } else if pos + 4 + announced_len(bytes, pos) > bytes.len() {
        Parsed::Incomplete
    } else {
        Parsed::Complete(
            bytes.subrange(pos + 4, pos + 4 + announced_len(bytes, pos)),
            pos + 4 + announced_len(bytes, pos),
        )
    }
}

/// The header of a list or a set at `pos`: the element type and the count.
pub open spec fn parse_collection_header(bytes: Seq<u8>, pos: int) -> Parsed<(WireType, int)> {
    if pos < 0 || pos + 1 > bytes.len() {
        Parsed::Incomplete
    } else if WireType::of_tag(bytes[pos]) is None {
        Parsed::Malformed(ProtocolError::UnknownType)
    } else if pos + 5 > bytes.len() {
        Parsed::Incomplete
    } else if announced_len(bytes, pos + 1) < 0 {
        Parsed::Malformed(ProtocolError::NegativeLength)
    } else {
        Parsed::Complete(
            (WireType::of_tag(bytes[pos]).unwrap(), announced_len(bytes, pos + 1)),
            pos + 5,
        )
    }
}

/// The header of a mapping at `pos`: the key type, the value type and the
/// count.
pub open spec fn parse_mapping_header(bytes: Seq<u8>, pos: int) -> Parsed<
    (WireType, WireType, int),
> {
    if pos < 0 || pos + 1 > bytes.len() {
        Parsed::Incomplete
    } else if WireType::of_tag(bytes[pos]) is None {
        Parsed::Malformed(ProtocolError::UnknownType)
    } else if pos + 2 > bytes.len() {
        Parsed::Incomplete
    } else if WireType::of_tag(bytes[pos + 1]) is None {
        Parsed::Malformed(ProtocolError::UnknownType)
    } else if pos + 6 > bytes.len() {
        Parsed::Incomplete
    } else if announced_len(bytes, pos + 2) < 0 {
        Parsed::Malformed(ProtocolError::NegativeLength)
    } else {
        Parsed::Complete(
            (
                WireType::of_tag(bytes[pos]).unwrap(),
                WireType::of_tag(bytes[pos + 1]).unwrap(),
                announced_len(bytes, pos + 2),
            ),
            pos + 6,
        )
    }
}

/// The value of type `t` that starts at `pos`.
pub open spec fn parse_value(t: WireType, bytes: Seq<u8>, pos: int) -> Parsed<Value>
    decreases bytes.len() - pos, 2int,
{
    if pos < 0 || pos > bytes.len() {
        Parsed::Incomplete
    } else {
        match t {
            WireType::Bool => if pos + 1 <= bytes.len() {
                Parsed::Complete(Value::Bool(bytes[pos] != 0), pos + 1)
            } else {
                Parsed::Incomplete
            },
            WireType::Byte => if pos + 1 <= bytes.len() {
                Parsed::Complete(Value::Byte(scalar_at(bytes, pos, 1) as i8), pos + 1)
            } else {
                Parsed::Incomplete
            },
            WireType::I16 => if pos + 2 <= bytes.len() {
                Parsed::Complete(Value::I16(scalar_at(bytes, pos, 2) as i16), pos + 2)
            } else {
                Parsed::Incomplete
            },
            WireType::I32 => if pos + 4 <= bytes.len() {
                Parsed::Complete(Value::I32(scalar_at(bytes, pos, 4) as i32), pos + 4)
            } else {
                Parsed::Incomplete
            },
            WireType::I64 => if pos + 8 <= bytes.len() {
                Parsed::Complete(Value::I64(scalar_at(bytes, pos, 8) as i64), pos + 8)
            } else {
                Parsed::Incomplete
            },
            WireType::Double => if pos + 8 <= bytes.len() {
                Parsed::Complete(Value::Double(be_value(bytes, pos, 8) as u64), pos + 8)
            } else {
                Parsed::Incomplete
            },
            WireType::Binary => match parse_binary(bytes, pos) {
                Parsed::Complete(content, next) => Parsed::Complete(Value::Binary(content), next),
                Parsed::Incomplete => Parsed::Incomplete,
                Parsed::Malformed(e) => Parsed::Malformed(e),
            },
            WireType::ListOf => parse_list(bytes, pos),
            WireType::SetOf => parse_set(bytes, pos),
            WireType::MapOf => parse_mapping(bytes, pos),
            WireType::Struct => parse_struct(bytes, pos),
        }
    }
}

/// The list that starts at `pos`.
pub open spec fn parse_list(bytes: Seq<u8>, pos: int) -> Parsed<Value>
    decreases bytes.len() - pos, 1int,
{
    match parse_collection_header(bytes, pos) {
        Parsed::Complete(header, start) => match parse_items(
            header.0,
            bytes,
            start,
            header.1,
            Seq::empty(),
        ) {
            Parsed::Complete(items, next) => Parsed::Complete(Value::ListOf(header.0, items), next),
            Parsed::Incomplete => Parsed::Incomplete,
            Parsed::Malformed(e) => Parsed::Malformed(e),
        },
        Parsed::Incomplete => Parsed::Incomplete,
        Parsed::Malformed(e) => Parsed::Malformed(e),
    }
}

/// The set that starts at `pos`.
pub open spec fn parse_set(bytes: Seq<u8>, pos: int) -> Parsed<Value>
    decreases bytes.len() - pos, 1int,
{
    match parse_collection_header(bytes, pos) {
        Parsed::Complete(header, start) => match parse_items(
            header.0,
            bytes,
            start,
            header.1,
            Seq::empty(),
        ) {
            Parsed::Complete(items, next) => Parsed::Complete(Value::SetOf(header.0, items), next),
            Parsed::Incomplete => Parsed::Incomplete,
            Parsed::Malformed(e) => Parsed::Malformed(e),
        },
        Parsed::Incomplete => Parsed::Incomplete,
        Parsed::Malformed(e) => Parsed::Malformed(e),
    }
}

/// The mapping that starts at `pos`.
pub open spec fn parse_mapping(bytes: Seq<u8>, pos: int) -> Parsed<Value>
    decreases bytes.len() - pos, 1int,
{
    match parse_mapping_header(bytes, pos) {
        Parsed::Complete(header, start) => match parse_entries(
            header.0,
            header.1,
            bytes,
            start,
            header.2,
            Seq::empty(),
        ) {
            Parsed::Complete(entries, next) => Parsed::Complete(
                Value::MapOf(header.0, header.1, entries),
                next,
            ),
            Parsed::Incomplete => Parsed::Incomplete,
            Parsed::Malformed(e) => Parsed::Malformed(e),
        },
        Parsed::Incomplete => Parsed::Incomplete,
        Parsed::Malformed(e) => Parsed::Malformed(e),
    }
}

/// The structure that starts at `pos`.
pub open spec fn parse_struct(bytes: Seq<u8>, pos: int) -> Parsed<Value>
    decreases bytes.len() - pos, 1int,
{
    match parse_fields(bytes, pos, Seq::empty()) {
        Parsed::Complete(fields, next) => Parsed::Complete(Value::Struct(fields), next),
        Parsed::Incomplete => Parsed::Incomplete,
        Parsed::Malformed(e) => Parsed::Malformed(e),
    }
}

/// The `n` elements of type `t` that start at `pos`, after the elements
/// `done` that were read before.
pub open spec fn parse_items(
    t: WireType,
    bytes: Seq<u8>,
    pos: int,
    n: int,
    done: Seq<Value>,
) -> Parsed<Seq<Value>>
    decreases bytes.len() - pos, n + 3,
{
    if pos < 0 || pos > bytes.len() {
        Parsed::Incomplete
    } else if n <= 0 {
        Parsed::Complete(done, pos)
    } else {
        match parse_value(t, bytes, pos) {
            Parsed::Complete(item, next) => if pos < next <= bytes.len() {
                parse_items(t, bytes, next, n - 1, done.push(item))
            } else {
                Parsed::Incomplete
            },
            Parsed::Incomplete => Parsed::Incomplete,
            Parsed::Malformed(e) => Parsed::Malformed(e),
        }
    }
}

/// The `n` pairs with keys of type `k` and values of type `v` that start at
/// `pos`, after the pairs `done` that were read before.
pub open spec fn parse_entries(
    k: WireType,
    v: WireType,
    bytes: Seq<u8>,
    pos: int,
    n: int,
    done: Seq<(Value, Value)>,
) -> Parsed<Seq<(Value, Value)>>
    decreases bytes.len() - pos, n + 3,
{
    if pos < 0 || pos > bytes.len() {
        Parsed::Incomplete
    } else if n <= 0 {
        Parsed::Complete(done, pos)
    } else {
        match parse_value(k, bytes, pos) {
            Parsed::Complete(key, mid) => if pos < mid <= bytes.len() {
                match parse_value(v, bytes, mid) {
                    Parsed::Complete(value, next) => if mid < next <= bytes.len() {
                        parse_entries(k, v, bytes, next, n - 1, done.push((key, value)))
                    } else {
                        Parsed::Incomplete
                    },
                    Parsed::Incomplete => Parsed::Incomplete,
                    Parsed::Malformed(e) => Parsed::Malformed(e),
                }
            } else {
                Parsed::Incomplete
            },
            Parsed::Incomplete => Parsed::Incomplete,
            Parsed::Malformed(e) => Parsed::Malformed(e),
        }
    }
}

/// The fields that start at `pos`, up to the stop byte, after the fields
/// `done` that were read before.
pub open spec fn parse_fields(bytes: Seq<u8>, pos: int, done: Seq<(i16, Value)>) -> Parsed<
    Seq<(i16, Value)>,
>
    decreases bytes.len() - pos, 0int,
{
    if pos < 0 || pos >= bytes.len() {
        Parsed::Incomplete
    } else if bytes[pos] == 0 {
        Parsed::Complete(done, pos + 1)
    } else if WireType::of_tag(bytes[pos]) is None {
        Parsed::Malformed(ProtocolError::UnknownType)
    } else if pos + 3 > bytes.len() {
        Parsed::Incomplete
    } else {
        match parse_value(WireType::of_tag(bytes[pos]).unwrap(), bytes, pos + 3) {
            Parsed::Complete(value, next) => if pos + 3 < next <= bytes.len() {
                parse_fields(
                    bytes,
                    next,
                    done.push((scalar_at(bytes, pos + 1, 2) as i16, value)),
                )
            } else {
                Parsed::Incomplete
            },
            Parsed::Incomplete => Parsed::Incomplete,
            Parsed::Malformed(e) => Parsed::Malformed(e),
        }
    }
}

/// The 64 bits of the signed integer `v`, as an unsigned number.
pub fn i64_to_bits(v: i64) -> (bits: u64)
    ensures
        bits as int == unsigned(v as int, 8),
{
    proof {
        lemma_radix();
    }
    if v >= 0 {
        v as u64
    } else {
        let low: u64 = (v + i64::MAX + 1) as u64;
        low + 0x8000_0000_0000_0000
    }
}

/// Reads a byte string at `pos`.
pub fn decode_binary(bytes: &[u8], pos: usize) -> (r: Decoded<Vec<u8>>)
    ensures
        r.parsed_as(|content: Vec<u8>| content@) == parse_binary(bytes@, pos as int),
        r matches Decoded::Complete { next, .. } ==> pos + 4 <= next <= bytes@.len(),
{
    if pos > bytes.len() {
        return Decoded::Incomplete;
    }
    match take_i32(bytes, pos) {
        None => Decoded::Incomplete,
        Some(n) => {
            if n < 0 {
                Decoded::Malformed(ProtocolError::NegativeLength)
            } else if n as usize > bytes.len() - pos - 4 {
                Decoded::Incomplete
            } else {
                match take_binary(bytes, pos) {
                    Some(content) => Decoded::Complete {
                        value: content,
                        next: pos + 4 + n as usize,
                    },
                    None => Decoded::Incomplete,
                }
            }
        },
    }
}

/// Reads the header of a list or a set at `pos`.
fn decode_collection_header(bytes: &[u8], pos: usize) -> (r: Decoded<(WireType, i32)>)
    ensures
        r.parsed_as(|h: (WireType, i32)| (h.0, h.1 as int)) == parse_collection_header(
            bytes@,
            pos as int,
        ),
        r matches Decoded::Complete { value, next } ==> next == pos + 5 && next <= bytes@.len()
            && value.1 >= 0,
{
    if pos > bytes.len() {
        return Decoded::Incomplete;
    }
    let tag: u8 = match take_byte(bytes, pos) {
        None => {
            return Decoded::Incomplete;
        },
        Some(tag) => tag,
    };
    let element: WireType = match WireType::from_tag(tag) {
        None => {
            return Decoded::Malformed(ProtocolError::UnknownType);
        },
        Some(t) => t,
    };
    match take_i32(bytes, pos + 1) {
        None => Decoded::Incomplete,
        Some(n) => {
            if n < 0 {
                Decoded::Malformed(ProtocolError::NegativeLength)
            } else {
                Decoded::Complete { value: (element, n), next: pos + 5 }
            }
        },
    }
}

/// Reads the header of a mapping at `pos`.
fn decode_mapping_header(bytes: &[u8], pos: usize) -> (r: Decoded<(WireType, WireType, i32)>)
    ensures
        r.parsed_as(|h: (WireType, WireType, i32)| (h.0, h.1, h.2 as int))
            == parse_mapping_header(bytes@, pos as int),
        r matches Decoded::Complete { value, next } ==> next == pos + 6 && next <= bytes@.len()
            && value.2 >= 0,
{
    if pos > bytes.len() {
        return Decoded::Incomplete;
    }
    let key_tag: u8 = match take_byte(bytes, pos) {
        None => {
            return Decoded::Incomplete;
        },
        Some(tag) => tag,
    };
    let key: WireType = match WireType::from_tag(key_tag) {
        None => {
            return Decoded::Malformed(ProtocolError::UnknownType);
        },
        Some(t) => t,
    };
    let value_tag: u8 = match take_byte(bytes, pos + 1) {
        None => {
            return Decoded::Incomplete;
        },
        Some(tag) => tag,
    };
    let value: WireType = match WireType::from_tag(value_tag) {
        None => {
            return Decoded::Malformed(ProtocolError::UnknownType);
        },
        Some(t) => t,
    };
    match take_i32(bytes, pos + 2) {
        None => Decoded::Incomplete,
        Some(n) => {
            if n < 0 {
                Decoded::Malformed(ProtocolError::NegativeLength)
            } else {
                Decoded::Complete { value: (key, value, n), next: pos + 6 }
            }
        },
    }
}

impl FieldValue {
    /// Reads the value of type `t` that starts at `pos`.
    ///
    /// The outcome is `Incomplete` when the bytes end inside the value, so
    /// that a caller may read on and try again, and `Malformed` when no
    /// further byte could make a value of them.
    pub fn decode(bytes: &[u8], pos: usize, t: WireType) -> (r: Decoded<FieldValue>)
        ensures
            r.parsed_as(|v: FieldValue| v@) == parse_value(t, bytes@, pos as int),
            r matches Decoded::Complete { next, .. } ==> pos < next <= bytes@.len(),
        decreases bytes@.len() - pos, 2int,
    {
        if pos > bytes.len() {
            return Decoded::Incomplete;
        }
        match t {
            WireType::Bool => match take_bool(bytes, pos) {
                Some(b) => Decoded::Complete { value: FieldValue::Bool(b), next: pos + 1 },
                None => Decoded::Incomplete,
            },
            WireType::Byte => match take_i8(bytes, pos) {
                Some(v) => Decoded::Complete { value: FieldValue::Byte(v), next: pos + 1 },
                None => Decoded::Incomplete,
            },
            WireType::I16 => match take_i16(bytes, pos) {
                Some(v) => Decoded::Complete { value: FieldValue::I16(v), next: pos + 2 },
                None => Decoded::Incomplete,
            },
            WireType::I32 => match take_i32(bytes, pos) {
                Some(v) => Decoded::Complete { value: FieldValue::I32(v), next: pos + 4 },
                None => Decoded::Incomplete,
            },
            WireType::I64 => match take_i64(bytes, pos) {
                Some(v) => Decoded::Complete { value: FieldValue::I64(v), next: pos + 8 },
                None => Decoded::Incomplete,
            },
            WireType::Double => match take_i64(bytes, pos) {
                Some(v) => {
                    proof {
                        lemma_radix();
                        lemma_be_value_range(bytes@, pos as int, 8);
                    }
                    Decoded::Complete { value: FieldValue::Double(i64_to_bits(v)), next: pos + 8 }
                },
                None => Decoded::Incomplete,
            },
            WireType::Binary => match decode_binary(bytes, pos) {
                Decoded::Complete { value, next } => Decoded::Complete {
                    value: FieldValue::Binary(value),
                    next,
                },
                Decoded::Incomplete => Decoded::Incomplete,
                Decoded::Malformed(e) => Decoded::Malformed(e),
            },
            WireType::ListOf => decode_list(bytes, pos),
            WireType::SetOf => decode_set(bytes, pos),
            WireType::MapOf => decode_mapping(bytes, pos),
            WireType::Struct => decode_struct(bytes, pos),
        }
    }
}

/// Reads the list that starts at `pos`.
fn decode_list(bytes: &[u8], pos: usize) -> (r: Decoded<FieldValue>)
    requires
        pos <= bytes@.len(),
    ensures
        r.parsed_as(|v: FieldValue| v@) == parse_list(bytes@, pos as int),
        r matches Decoded::Complete { next, .. } ==> pos < next <= bytes@.len(),
    decreases bytes@.len() - pos, 1int,
{
    match decode_collection_header(bytes, pos) {
        Decoded::Complete { value: header, next: start } => match decode_items(
            bytes,
            start,
            header.0,
            header.1,
        ) {
            Decoded::Complete { value, next } => Decoded::Complete {
                value: FieldValue::ListOf(header.0, value),
                next,
            },
            Decoded::Incomplete => Decoded::Incomplete,
            Decoded::Malformed(e) => Decoded::Malformed(e),
        },
        Decoded::Incomplete => Decoded::Incomplete,
        Decoded::Malformed(e) => Decoded::Malformed(e),
    }
}

/// Reads the set that starts at `pos`.
fn decode_set(bytes: &[u8], pos: usize) -> (r: Decoded<FieldValue>)
    requires
        pos <= bytes@.len(),
    ensures
        r.parsed_as(|v: FieldValue| v@) == parse_set(bytes@, pos as int),
        r matches Decoded::Complete { next, .. } ==> pos < next <= bytes@.len(),
    decreases bytes@.len() - pos, 1int,
{
    match decode_collection_header(bytes, pos) {
        Decoded::Complete { value: header, next: start } => match decode_items(
            bytes,
            start,
            header.0,
            header.1,
        ) {
            Decoded::Complete { value, next } => Decoded::Complete {
                value: FieldValue::SetOf(header.0, value),
                next,
            },
            Decoded::Incomplete => Decoded::Incomplete,
            Decoded::Malformed(e) => Decoded::Malformed(e),
        },
        Decoded::Incomplete => Decoded::Incomplete,
        Decoded::Malformed(e) => Decoded::Malformed(e),
    }
}

/// Reads the mapping that starts at `pos`.
fn decode_mapping(bytes: &[u8], pos: usize) -> (r: Decoded<FieldValue>)
    requires
        pos <= bytes@.len(),
    ensures
        r.parsed_as(|v: FieldValue| v@) == parse_mapping(bytes@, pos as int),
        r matches Decoded::Complete { next, .. } ==> pos < next <= bytes@.len(),
    decreases bytes@.len() - pos, 1int,
{
    match decode_mapping_header(bytes, pos) {
        Decoded::Complete { value: header, next: start } => match decode_entries(
            bytes,
            start,
            header.0,
            header.1,
            header.2,
        ) {
            Decoded::Complete { value, next } => Decoded::Complete {
                value: FieldValue::MapOf(header.0, header.1, value),
                next,
            },
            Decoded::Incomplete => Decoded::Incomplete,
            Decoded::Malformed(e) => Decoded::Malformed(e),
        },
        Decoded::Incomplete => Decoded::Incomplete,
        Decoded::Malformed(e) => Decoded::Malformed(e),
    }
}

/// Reads the structure that starts at `pos`.
fn decode_struct(bytes: &[u8], pos: usize) -> (r: Decoded<FieldValue>)
    requires
        pos <= bytes@.len(),
    ensures
        r.parsed_as(|v: FieldValue| v@) == parse_struct(bytes@, pos as int),
        r matches Decoded::Complete { next, .. } ==> pos < next <= bytes@.len(),
    decreases bytes@.len() - pos, 1int,
{
    match decode_fields(bytes, pos) {
        Decoded::Complete { value, next } => Decoded::Complete {
            value: FieldValue::Struct(value),
            next,
        },
        Decoded::Incomplete => Decoded::Incomplete,
        Decoded::Malformed(e) => Decoded::Malformed(e),
    }
}

/// Reads `n` elements of type `t` from `pos` on.
fn decode_items(bytes: &[u8], pos: usize, t: WireType, n: i32) -> (r: Decoded<Vec<FieldValue>>)
    requires
        pos <= bytes@.len(),
    ensures
        r.parsed_as(|items: Vec<FieldValue>| view_of_items(items@)) == parse_items(
            t,
            bytes@,
            pos as int,
            n as int,
            Seq::empty(),
        ),
        r matches Decoded::Complete { next, .. } ==> pos <= next <= bytes@.len(),
    decreases bytes@.len() - pos, n + 3,
{
    let mut items: Vec<FieldValue> = Vec::new();
    let mut at: usize = pos;
    let mut left: i32 = n;
    assert(view_of_items(items@) =~= Seq::empty());
    while left > 0
        invariant
            pos <= at <= bytes@.len(),
            left <= n,
            parse_items(t, bytes@, pos as int, n as int, Seq::empty()) == parse_items(
                t,
                bytes@,
                at as int,
                left as int,
                view_of_items(items@),
            ),
        decreases left,
    {
        match FieldValue::decode(bytes, at, t) {
            Decoded::Complete { value, next } => {
                assert(view_of_items(items@.push(value)) =~= view_of_items(items@).push(value@));
                items.push(value);
                at = next;
                left = left - 1;
            },
            Decoded::Incomplete => {
                return Decoded::Incomplete;
            },
            Decoded::Malformed(e) => {
                return Decoded::Malformed(e);
            },
        }
    }
    Decoded::Complete { value: items, next: at }
}

/// Reads `n` pairs with keys of type `k` and values of type `v` from `pos`
/// on.
fn decode_entries(bytes: &[u8], pos: usize, k: WireType, v: WireType, n: i32) -> (r: Decoded<
    Vec<Entry>,
>)
    requires
        pos <= bytes@.len(),
    ensures
        r.parsed_as(|entries: Vec<Entry>| view_of_entries(entries@)) == parse_entries(
            k,
            v,
            bytes@,
            pos as int,
            n as int,
            Seq::empty(),
        ),
        r matches Decoded::Complete { next, .. } ==> pos <= next <= bytes@.len(),
    decreases bytes@.len() - pos, n + 3,
{
    let mut entries: Vec<Entry> = Vec::new();
    let mut at: usize = pos;
    let mut left: i32 = n;
    assert(view_of_entries(entries@) =~= Seq::empty());
    while left > 0
        invariant
            pos <= at <= bytes@.len(),
            left <= n,
            parse_entries(k, v, bytes@, pos as int, n as int, Seq::empty()) == parse_entries(
                k,
                v,
                bytes@,
                at as int,
                left as int,
                view_of_entries(entries@),
            ),
        decreases left,
    {
        let key = match FieldValue::decode(bytes, at, k) {
            Decoded::Complete { value, next } => {
                at = next;
                value
            },
            Decoded::Incomplete => {
                return Decoded::Incomplete;
            },
            Decoded::Malformed(e) => {
                return Decoded::Malformed(e);
            },
        };
        let value = match FieldValue::decode(bytes, at, v) {
            Decoded::Complete { value, next } => {
                at = next;
                value
            },
            Decoded::Incomplete => {
                return Decoded::Incomplete;
            },
            Decoded::Malformed(e) => {
                return Decoded::Malformed(e);
            },
        };
        assert(view_of_entries(entries@.push(Entry { key, value })) =~= view_of_entries(
            entries@,
        ).push((key@, value@)));
        entries.push(Entry { key, value });
        left = left - 1;
    }
    Decoded::Complete { value: entries, next: at }
}

/// Reads fields from `pos` on, up to the stop byte.
fn decode_fields(bytes: &[u8], pos: usize) -> (r: Decoded<Vec<Field>>)
    requires
        pos <= bytes@.len(),
    ensures
        r.parsed_as(|fields: Vec<Field>| view_of_fields(fields@)) == parse_fields(
            bytes@,
            pos as int,
            Seq::empty(),
        ),
        r matches Decoded::Complete { next, .. } ==> pos < next <= bytes@.len(),
    decreases bytes@.len() - pos, 0int,
{
    let mut fields: Vec<Field> = Vec::new();
    let mut at: usize = pos;
    let total: usize = bytes.len();
    assert(view_of_fields(fields@) =~= Seq::empty());
    loop
        invariant
            pos <= at <= bytes@.len() == total,
            parse_fields(bytes@, pos as int, Seq::empty()) == parse_fields(
                bytes@,
                at as int,
                view_of_fields(fields@),
            ),
        decreases bytes@.len() - at,
    {
        let tag: u8 = match take_byte(bytes, at) {
            None => {
                return Decoded::Incomplete;
            },
            Some(tag) => tag,
        };
        if tag == 0 {
            return Decoded::Complete { value: fields, next: at + 1 };
        }
        let t: WireType = match WireType::from_tag(tag) {
            None => {
                return Decoded::Malformed(ProtocolError::UnknownType);
            },
            Some(t) => t,
        };
        let id: i16 = match take_i16(bytes, at + 1) {
            None => {
                return Decoded::Incomplete;
            },
            Some(id) => id,
        };
        match FieldValue::decode(bytes, at + 3, t) {
            Decoded::Complete { value, next } => {
                assert(view_of_fields(fields@.push(Field { id, value })) =~= view_of_fields(
                    fields@,
                ).push((id, value@)));
                fields.push(Field { id, value });
                at = next;
            },
            Decoded::Incomplete => {
                return Decoded::Incomplete;
            },
            Decoded::Malformed(e) => {
                return Decoded::Malformed(e);
            },
        }
    }
}

} // verus!
