//! Encoding of field values.

use crate::primitive::{
    lemma_radix, put_binary, put_bool, put_byte, put_i16, put_i32, put_i64, put_i8, unsigned,
};
use crate::value::{
    collection_wire, entries_well_formed, field_header, fields_well_formed, items_well_formed,
    view_of_entries, view_of_fields, view_of_items, wire_of_entries, wire_of_fields,
    wire_of_items, Entry, Field, FieldValue, WireType,
};
use vstd::prelude::*;

verus! {

/// The signed 64-bit integer with the same bits as `bits`.
pub fn bits_to_i64(bits: u64) -> (v: i64)
    ensures
        unsigned(v as int, 8) == bits,
{
    proof {
        lemma_radix();
    }
    if bits < 0x8000_0000_0000_0000 {
        bits as i64
    } else {
        let low: i64 = (bits - 0x8000_0000_0000_0000) as i64;
        low - i64::MAX - 1
    }
}

impl FieldValue {
    /// The wire type of this value.
    pub fn wire_type(&self) -> (t: WireType)
        ensures
            t == self@.wire_type(),
    {
        match self {
            FieldValue::Bool(_) => WireType::Bool,
            FieldValue::Byte(_) => WireType::Byte,
            FieldValue::I16(_) => WireType::I16,
            FieldValue::I32(_) => WireType::I32,
            FieldValue::I64(_) => WireType::I64,
            FieldValue::Double(_) => WireType::Double,
            FieldValue::Binary(_) => WireType::Binary,
            FieldValue::ListOf(_, _) => WireType::ListOf,
            FieldValue::SetOf(_, _) => WireType::SetOf,
            FieldValue::MapOf(_, _, _) => WireType::MapOf,
            FieldValue::Struct(_) => WireType::Struct,
        }
    }

    /// Whether this value can stand on the wire.
    pub fn is_well_formed(&self) -> (ok: bool)
        ensures
            ok == self@.well_formed(),
        decreases self,
    {
        match self {
            FieldValue::Binary(content) => content.len() <= i32::MAX as usize,
            FieldValue::ListOf(t, items) => check_items(*t, items),
            FieldValue::SetOf(t, items) => check_items(*t, items),
            FieldValue::MapOf(k, v, entries) => check_entries(*k, *v, entries),
            FieldValue::Struct(fields) => check_fields(fields),
            _ => true,
        }
    }

    /// The bytes of this value; `None` where the value cannot stand on the
    /// wire.
    pub fn to_bytes(&self) -> (r: Option<Vec<u8>>)
        ensures
            match r {
                Some(bytes) => self@.well_formed() && bytes@ == self@.wire(),
                None => !self@.well_formed(),
            },
    {
        if !self.is_well_formed() {
            return None;
        }
        let mut bytes: Vec<u8> = Vec::new();
        self.encode(&mut bytes);
        assert(bytes@ =~= self@.wire());
        Some(bytes)
    }

    /// Appends the bytes of this value to `out`.
    pub fn encode(&self, out: &mut Vec<u8>)
        requires
            self@.well_formed(),
        ensures
            final(out)@ == old(out)@ + self@.wire(),
        decreases self,
    {
        match self {
            FieldValue::Bool(b) => {
                put_bool(out, *b);
                assert(old(out)@.push(if *b { 1u8 } else { 0u8 }) =~= old(out)@ + self@.wire());
            },
            FieldValue::Byte(v) => {
                put_i8(out, *v);
                assert(old(out)@.push(unsigned(*v as int, 1) as u8) =~= old(out)@ + self@.wire());
            },
            FieldValue::I16(v) => put_i16(out, *v),
            FieldValue::I32(v) => put_i32(out, *v),
            FieldValue::I64(v) => put_i64(out, *v),
            FieldValue::Double(bits) => put_i64(out, bits_to_i64(*bits)),
            FieldValue::Binary(content) => put_binary(out, content.as_slice()),
            FieldValue::ListOf(t, items) => encode_collection(*t, items, out),
            FieldValue::SetOf(t, items) => encode_collection(*t, items, out),
            FieldValue::MapOf(k, v, entries) => {
                put_byte(out, k.to_tag());
                put_byte(out, v.to_tag());
                put_i32(out, entries.len() as i32);
                proof {
                    lemma_radix();
                }
                encode_entries(entries, out);
                assert(final(out)@ =~= old(out)@ + self@.wire());
            },
            FieldValue::Struct(fields) => {
                encode_fields(fields, out);
                put_byte(out, 0);
                assert(final(out)@ =~= old(out)@ + self@.wire());
            },
        }
    }
}

/// Whether the elements fit the count, have the type `t` and can stand on
/// the wire.
fn check_items(t: WireType, items: &Vec<FieldValue>) -> (ok: bool)
    ensures
        ok == items_well_formed(t, view_of_items(items@)),
    decreases items, 0nat,
{
    let ghost models = view_of_items(items@);
    if items.len() > i32::MAX as usize {
        return false;
    }
    let mut i: usize = 0;
    while i < items.len()
        invariant
            i <= items@.len(),
            models == view_of_items(items@),
            forall|j: int|
                0 <= j < i ==> (#[trigger] models[j]).wire_type() == t && models[j].well_formed(),
        decreases items@.len() - i,
    {
        assert(models[i as int] == items@[i as int]@);
        if !(items[i].wire_type() == t && items[i].is_well_formed()) {
            return false;
        }
        i += 1;
    }
    true
}

/// Whether the pairs fit the count, have the types `k` and `v` and can stand
/// on the wire.
fn check_entries(k: WireType, v: WireType, entries: &Vec<Entry>) -> (ok: bool)
    ensures
        ok == entries_well_formed(k, v, view_of_entries(entries@)),
    decreases entries, 0nat,
{
    let ghost models = view_of_entries(entries@);
    if entries.len() > i32::MAX as usize {
        return false;
    }
    let mut i: usize = 0;
    while i < entries.len()
        invariant
            i <= entries@.len(),
            models == view_of_entries(entries@),
            forall|j: int|
                0 <= j < i ==> {
                    &&& (#[trigger] models[j]).0.wire_type() == k
                    &&& models[j].1.wire_type() == v
                    &&& models[j].0.well_formed()
                    &&& models[j].1.well_formed()
                },
        decreases entries@.len() - i,
    {
        let e = &entries[i];
        assert(models[i as int] == (e.key@, e.value@));
        if !(e.key.wire_type() == k && e.value.wire_type() == v && e.key.is_well_formed()
            && e.value.is_well_formed()) {
            return false;
        }
        i += 1;
    }
    true
}

/// Whether every field can stand on the wire.
fn check_fields(fields: &Vec<Field>) -> (ok: bool)
    ensures
        ok == fields_well_formed(view_of_fields(fields@)),
    decreases fields, 0nat,
{
    let ghost models = view_of_fields(fields@);
    let mut i: usize = 0;
    while i < fields.len()
        invariant
            i <= fields@.len(),
            models == view_of_fields(fields@),
            forall|j: int| 0 <= j < i ==> (#[trigger] models[j]).1.well_formed(),
        decreases fields@.len() - i,
    {
        assert(models[i as int] == (fields@[i as int].id, fields@[i as int].value@));
        if !fields[i].value.is_well_formed() {
            return false;
        }
        i += 1;
    }
    true
}

/// Appends a list or a set: the element type, the count, the elements.
fn encode_collection(t: WireType, items: &Vec<FieldValue>, out: &mut Vec<u8>)
    requires
        items_well_formed(t, view_of_items(items@)),
    ensures
        final(out)@ == old(out)@ + collection_wire(t, view_of_items(items@)),
    decreases items, 1nat,
{
    put_byte(out, t.to_tag());
    put_i32(out, items.len() as i32);
    encode_items(items, out);
    assert(final(out)@ =~= old(out)@ + collection_wire(t, view_of_items(items@)));
}

/// Appends the elements of a list or a set.
fn encode_items(items: &Vec<FieldValue>, out: &mut Vec<u8>)
    requires
        forall|i: int|
            0 <= i < items@.len() ==> (#[trigger] view_of_items(items@)[i]).well_formed(),
    ensures
        final(out)@ == old(out)@ + wire_of_items(view_of_items(items@)),
    decreases items, 0nat,
{
    let ghost models = view_of_items(items@);
    let mut i: usize = 0;
    assert(old(out)@ + wire_of_items(models.take(0)) =~= old(out)@);
    while i < items.len()
        invariant
            i <= items@.len(),
            models == view_of_items(items@),
            forall|j: int| 0 <= j < items@.len() ==> (#[trigger] models[j]).well_formed(),
            out@ == old(out)@ + wire_of_items(models.take(i as int)),
        decreases items@.len() - i,
    {
        assert(models[i as int] == items@[i as int]@);
        items[i].encode(out);
        proof {
            let next = models.take(i + 1);
            assert(next.drop_last() =~= models.take(i as int));
            assert(next.last() == models[i as int]);
            assert(out@ =~= old(out)@ + wire_of_items(next));
        }
        i += 1;
    }
    assert(models.take(i as int) =~= models);
}

/// Appends the pairs of a mapping.
fn encode_entries(entries: &Vec<Entry>, out: &mut Vec<u8>)
    requires
        forall|i: int|
            0 <= i < entries@.len() ==> (#[trigger] view_of_entries(entries@)[i]).0.well_formed()
                && view_of_entries(entries@)[i].1.well_formed(),
    ensures
        final(out)@ == old(out)@ + wire_of_entries(view_of_entries(entries@)),
    decreases entries, 0nat,
{
    let ghost models = view_of_entries(entries@);
    let mut i: usize = 0;
    assert(old(out)@ + wire_of_entries(models.take(0)) =~= old(out)@);
    while i < entries.len()
        invariant
            i <= entries@.len(),
            models == view_of_entries(entries@),
            forall|j: int|
                0 <= j < entries@.len() ==> (#[trigger] models[j]).0.well_formed()
                    && models[j].1.well_formed(),
            out@ == old(out)@ + wire_of_entries(models.take(i as int)),
        decreases entries@.len() - i,
    {
        assert(models[i as int] == (entries@[i as int].key@, entries@[i as int].value@));
        entries[i].key.encode(out);
        entries[i].value.encode(out);
        proof {
            let next = models.take(i + 1);
            assert(next.drop_last() =~= models.take(i as int));
            assert(next.last() == models[i as int]);
            assert(out@ =~= old(out)@ + wire_of_entries(next));
        }
        i += 1;
    }
    assert(models.take(i as int) =~= models);
}

/// Appends the fields of a structure, without the stop byte.
fn encode_fields(fields: &Vec<Field>, out: &mut Vec<u8>)
    requires
        forall|i: int|
            0 <= i < fields@.len() ==> (#[trigger] view_of_fields(fields@)[i]).1.well_formed(),
    ensures
        final(out)@ == old(out)@ + wire_of_fields(view_of_fields(fields@)),
    decreases fields, 0nat,
{
    let ghost models = view_of_fields(fields@);
    let mut i: usize = 0;
    assert(old(out)@ + wire_of_fields(models.take(0)) =~= old(out)@);
    while i < fields.len()
        invariant
            i <= fields@.len(),
            models == view_of_fields(fields@),
            forall|j: int| 0 <= j < fields@.len() ==> (#[trigger] models[j]).1.well_formed(),
            out@ == old(out)@ + wire_of_fields(models.take(i as int)),
        decreases fields@.len() - i,
    {
        assert(models[i as int] == (fields@[i as int].id, fields@[i as int].value@));
        let ghost before = out@;
        put_byte(out, fields[i].value.wire_type().to_tag());
        put_i16(out, fields[i].id);
        assert(out@ =~= before + field_header(models[i as int].1.wire_type(), models[i as int].0));
        fields[i].value.encode(out);
        proof {
            let next = models.take(i + 1);
            assert(next.drop_last() =~= models.take(i as int));
            assert(next.last() == models[i as int]);
            assert(out@ =~= old(out)@ + wire_of_fields(next));
        }
        i += 1;
    }
    assert(models.take(i as int) =~= models);
}

} // verus!
