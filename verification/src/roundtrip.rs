//! Decoding undoes encoding: the bytes of a well-formed value, wherever they
//! stand in a buffer, are read back as that value.

use crate::decode::{
    parse_binary, parse_collection_header, parse_entries, parse_fields, parse_items, parse_list,
    parse_mapping, parse_mapping_header, parse_set, parse_struct, parse_value, scalar_at, Parsed,
};
use crate::primitive::{
    announced_len, be_bytes, binary_wire, lemma_be_bytes_len, lemma_be_value_of_bytes,
    lemma_radix, lemma_signed_unsigned, radix, unsigned,
};
use crate::value::{
    collection_wire, field_header, fields_well_formed, items_well_formed,
    wire_of_entries, wire_of_fields, wire_of_items, Value, WireType,
};
use vstd::prelude::*;

verus! {

/// Whether `bytes` holds the run `run` from `pos` on.
pub open spec fn holds(bytes: Seq<u8>, pos: int, run: Seq<u8>) -> bool {
    &&& 0 <= pos
    &&& pos + run.len() <= bytes.len()
    &&& bytes.subrange(pos, pos + run.len()) == run
}

/// A buffer that holds two runs in a row holds each of them.
pub proof fn lemma_holds_split(bytes: Seq<u8>, pos: int, first: Seq<u8>, second: Seq<u8>)
    requires
        holds(bytes, pos, first + second),
    ensures
        holds(bytes, pos, first),
        holds(bytes, pos + first.len(), second),
{
    let whole = bytes.subrange(pos, pos + (first + second).len());
    assert forall|i: int| 0 <= i < first.len() implies bytes[pos + i] == first[i] by {
        assert(whole[i] == (first + second)[i]);
    }
    assert(bytes.subrange(pos, pos + first.len()) =~= first);
    assert forall|i: int| 0 <= i < second.len() implies bytes[pos + first.len() + i]
        == second[i] by {
        assert(whole[first.len() + i] == (first + second)[first.len() + i]);
    }
    assert(bytes.subrange(pos + first.len(), pos + first.len() + second.len()) =~= second);
}

/// Every type is found again from its tag, and no tag is the stop byte.
pub proof fn lemma_tag_of_type(t: WireType)
    ensures
        WireType::of_tag(t.tag()) == Some(t),
        t.tag() != 0,
{
}

/// A buffer that holds the bytes of the signed number `x` of `n` bytes
/// holds `x` at that place.
pub proof fn lemma_scalar_at(bytes: Seq<u8>, pos: int, x: int, n: nat)
    requires
        n == 1 || n == 2 || n == 4 || n == 8,
        -radix(n) <= 2 * x < radix(n),
        holds(bytes, pos, be_bytes(unsigned(x, n), n)),
    ensures
        pos + n <= bytes.len(),
        scalar_at(bytes, pos, n) == x,
{
    lemma_radix();
    lemma_signed_unsigned(x, n);
    lemma_be_bytes_len(unsigned(x, n), n);
    lemma_be_value_of_bytes(bytes, pos, unsigned(x, n), n);
}

/// A buffer that holds a byte string on the wire yields its content.
pub proof fn lemma_parse_binary(bytes: Seq<u8>, pos: int, content: Seq<u8>)
    requires
        content.len() <= i32::MAX,
        holds(bytes, pos, binary_wire(content)),
    ensures
        parse_binary(bytes, pos) == Parsed::Complete(content, pos + 4 + content.len()),
        binary_wire(content).len() == 4 + content.len(),
{
    lemma_radix();
    let n = content.len() as int;
    lemma_be_bytes_len(n, 4);
    lemma_holds_split(bytes, pos, be_bytes(n, 4), content);
    assert(unsigned(n, 4) == n);
    lemma_scalar_at(bytes, pos, n, 4);
    assert(announced_len(bytes, pos) == n);
}

/// The elements of a non-empty sequence on the wire are the first element,
/// then the others.
pub proof fn lemma_items_first(items: Seq<Value>)
    requires
        items.len() > 0,
    ensures
        wire_of_items(items) == items[0].wire() + wire_of_items(items.skip(1)),
    decreases items.len(),
{
    if items.len() == 1 {
        assert(items.drop_last() =~= Seq::<Value>::empty());
        assert(items.skip(1) =~= Seq::<Value>::empty());
        assert(wire_of_items(items) =~= items[0].wire() + wire_of_items(items.skip(1)));
    } else {
        lemma_items_first(items.drop_last());
        assert(items.drop_last().skip(1) =~= items.skip(1).drop_last());
        assert(items.skip(1).last() == items.last());
        assert(wire_of_items(items) =~= items[0].wire() + wire_of_items(items.skip(1)));
    }
}

/// The pairs of a non-empty mapping on the wire are the first pair, then
/// the others.
pub proof fn lemma_entries_first(entries: Seq<(Value, Value)>)
    requires
        entries.len() > 0,
    ensures
        wire_of_entries(entries) == entries[0].0.wire() + entries[0].1.wire() + wire_of_entries(
            entries.skip(1),
        ),
    decreases entries.len(),
{
    if entries.len() == 1 {
        assert(entries.drop_last() =~= Seq::<(Value, Value)>::empty());
        assert(entries.skip(1) =~= Seq::<(Value, Value)>::empty());
        assert(wire_of_entries(entries) =~= entries[0].0.wire() + entries[0].1.wire()
            + wire_of_entries(entries.skip(1)));
    } else {
        lemma_entries_first(entries.drop_last());
        assert(entries.drop_last().skip(1) =~= entries.skip(1).drop_last());
        assert(entries.skip(1).last() == entries.last());
        assert(wire_of_entries(entries) =~= entries[0].0.wire() + entries[0].1.wire()
            + wire_of_entries(entries.skip(1)));
    }
}

/// The fields of a non-empty structure on the wire are the first field,
/// then the others.
pub proof fn lemma_fields_first(fields: Seq<(i16, Value)>)
    requires
        fields.len() > 0,
    ensures
        wire_of_fields(fields) == field_header(fields[0].1.wire_type(), fields[0].0)
            + fields[0].1.wire() + wire_of_fields(fields.skip(1)),
    decreases fields.len(),
{
    if fields.len() == 1 {
        assert(fields.drop_last() =~= Seq::<(i16, Value)>::empty());
        assert(fields.skip(1) =~= Seq::<(i16, Value)>::empty());
        assert(wire_of_fields(fields) =~= field_header(fields[0].1.wire_type(), fields[0].0)
            + fields[0].1.wire() + wire_of_fields(fields.skip(1)));
    } else {
        lemma_fields_first(fields.drop_last());
        assert(fields.drop_last().skip(1) =~= fields.skip(1).drop_last());
        assert(fields.skip(1).last() == fields.last());
        assert(wire_of_fields(fields) =~= field_header(fields[0].1.wire_type(), fields[0].0)
            + fields[0].1.wire() + wire_of_fields(fields.skip(1)));
    }
}

/// Round trip: a buffer that holds the bytes of a well-formed value at
/// `pos` is read there as that value, and the reading ends where the bytes
/// end. What stands before and after the value does not matter.
pub proof fn lemma_parse_wire(v: Value, bytes: Seq<u8>, pos: int)
    requires
        v.well_formed(),
        holds(bytes, pos, v.wire()),
    ensures
        parse_value(v.wire_type(), bytes, pos) == Parsed::Complete(v, pos + v.wire().len()),
        v.wire().len() > 0,
    decreases v,
{
    lemma_radix();
    match v {
        Value::Bool(b) => {
            assert(bytes[pos] == bytes.subrange(pos, pos + 1)[0]);
        },
        Value::Byte(x) => {
            assert(be_bytes(unsigned(x as int, 1), 1) =~= seq![unsigned(x as int, 1) as u8]) by {
                reveal_with_fuel(be_bytes, 2);
            }
            lemma_scalar_at(bytes, pos, x as int, 1);
        },
        Value::I16(x) => {
            lemma_be_bytes_len(unsigned(x as int, 2), 2);
            lemma_scalar_at(bytes, pos, x as int, 2);
        },
        Value::I32(x) => {
            lemma_be_bytes_len(unsigned(x as int, 4), 4);
            lemma_scalar_at(bytes, pos, x as int, 4);
        },
        Value::I64(x) => {
            lemma_be_bytes_len(unsigned(x as int, 8), 8);
            lemma_scalar_at(bytes, pos, x as int, 8);
        },
        Value::Double(bits) => {
            lemma_be_bytes_len(bits as int, 8);
            lemma_be_value_of_bytes(bytes, pos, bits as int, 8);
        },
        Value::Binary(content) => {
            lemma_parse_binary(bytes, pos, content);
        },
        Value::ListOf(t, items) => {
            lemma_parse_collection(t, items, bytes, pos);
        },
        Value::SetOf(t, items) => {
            lemma_parse_collection(t, items, bytes, pos);
        },
        Value::MapOf(k, w, entries) => {
            let n = entries.len() as int;
            let head = seq![k.tag(), w.tag()] + be_bytes(n, 4);
            lemma_be_bytes_len(n, 4);
            lemma_tag_of_type(k);
            lemma_tag_of_type(w);
            lemma_holds_split(bytes, pos, head, wire_of_entries(entries));
            lemma_holds_split(bytes, pos, seq![k.tag(), w.tag()], be_bytes(n, 4));
            assert(bytes[pos] == bytes.subrange(pos, pos + 2)[0]);
            assert(bytes[pos + 1] == bytes.subrange(pos, pos + 2)[1]);
            assert(unsigned(n, 4) == n);
            lemma_scalar_at(bytes, pos + 2, n, 4);
            assert(parse_mapping_header(bytes, pos) == Parsed::Complete((k, w, n), pos + 6));
            lemma_parse_entries(k, w, entries, bytes, pos + 6, Seq::empty());
            assert(Seq::<(Value, Value)>::empty() + entries =~= entries);
            assert(parse_mapping(bytes, pos) == Parsed::Complete(v, pos + v.wire().len()));
        },
        Value::Struct(fields) => {
            lemma_parse_fields(fields, bytes, pos, Seq::empty());
            assert(Seq::<(i16, Value)>::empty() + fields =~= fields);
            assert(parse_struct(bytes, pos) == Parsed::Complete(v, pos + v.wire().len()));
        },
    }
}

/// The header and the elements of a list or a set are read back.
proof fn lemma_parse_collection(t: WireType, items: Seq<Value>, bytes: Seq<u8>, pos: int)
    requires
        items_well_formed(t, items),
        holds(bytes, pos, collection_wire(t, items)),
    ensures
        parse_list(bytes, pos) == Parsed::Complete(
            Value::ListOf(t, items),
            pos + collection_wire(t, items).len(),
        ),
        parse_set(bytes, pos) == Parsed::Complete(
            Value::SetOf(t, items),
            pos + collection_wire(t, items).len(),
        ),
        collection_wire(t, items).len() > 0,
    decreases items, 1nat,
{
    lemma_radix();
    let n = items.len() as int;
    let head = seq![t.tag()] + be_bytes(n, 4);
    lemma_be_bytes_len(n, 4);
    lemma_tag_of_type(t);
    lemma_holds_split(bytes, pos, head, wire_of_items(items));
    lemma_holds_split(bytes, pos, seq![t.tag()], be_bytes(n, 4));
    assert(bytes[pos] == bytes.subrange(pos, pos + 1)[0]);
    assert(unsigned(n, 4) == n);
    lemma_scalar_at(bytes, pos + 1, n, 4);
    assert(parse_collection_header(bytes, pos) == Parsed::Complete((t, n), pos + 5));
    lemma_parse_items(t, items, bytes, pos + 5, Seq::empty());
    assert(Seq::<Value>::empty() + items =~= items);
}

/// The elements of a list or a set are read back one after the other.
proof fn lemma_parse_items(
    t: WireType,
    rest: Seq<Value>,
    bytes: Seq<u8>,
    pos: int,
    done: Seq<Value>,
)
    requires
        forall|i: int|
            0 <= i < rest.len() ==> (#[trigger] rest[i]).wire_type() == t && rest[i].well_formed(),
        holds(bytes, pos, wire_of_items(rest)),
    ensures
        parse_items(t, bytes, pos, rest.len() as int, done) == Parsed::Complete(
            done + rest,
            pos + wire_of_items(rest).len(),
        ),
    decreases rest, 0nat,
{
    if rest.len() == 0 {
        assert(done + rest =~= done);
    } else {
        let first = rest[0];
        let others = rest.skip(1);
        lemma_items_first(rest);
        lemma_holds_split(bytes, pos, first.wire(), wire_of_items(others));
        lemma_parse_wire(first, bytes, pos);
        assert forall|i: int| 0 <= i < others.len() implies (#[trigger] others[i]).wire_type() == t
            && others[i].well_formed() by {
            assert(others[i] == rest[i + 1]);
        }
        lemma_parse_items(t, others, bytes, pos + first.wire().len(), done.push(first));
        assert(done.push(first) + others =~= done + rest);
    }
}

/// The pairs of a mapping are read back one after the other.
proof fn lemma_parse_entries(
    k: WireType,
    w: WireType,
    rest: Seq<(Value, Value)>,
    bytes: Seq<u8>,
    pos: int,
    done: Seq<(Value, Value)>,
)
    requires
        forall|i: int|
            0 <= i < rest.len() ==> {
                &&& (#[trigger] rest[i]).0.wire_type() == k
                &&& rest[i].1.wire_type() == w
                &&& rest[i].0.well_formed()
                &&& rest[i].1.well_formed()
            },
        holds(bytes, pos, wire_of_entries(rest)),
    ensures
        parse_entries(k, w, bytes, pos, rest.len() as int, done) == Parsed::Complete(
            done + rest,
            pos + wire_of_entries(rest).len(),
        ),
    decreases rest, 0nat,
{
    if rest.len() == 0 {
        assert(done + rest =~= done);
    } else {
        let first = rest[0];
        let others = rest.skip(1);
        lemma_entries_first(rest);
        lemma_holds_split(
            bytes,
            pos,
            first.0.wire() + first.1.wire(),
            wire_of_entries(others),
        );
        lemma_holds_split(bytes, pos, first.0.wire(), first.1.wire());
        lemma_parse_wire(first.0, bytes, pos);
        lemma_parse_wire(first.1, bytes, pos + first.0.wire().len());
        assert forall|i: int| 0 <= i < others.len() implies {
            &&& (#[trigger] others[i]).0.wire_type() == k
            &&& others[i].1.wire_type() == w
            &&& others[i].0.well_formed()
            &&& others[i].1.well_formed()
        } by {
            assert(others[i] == rest[i + 1]);
        }
        lemma_parse_entries(
            k,
            w,
            others,
            bytes,
            pos + first.0.wire().len() + first.1.wire().len(),
            done.push(first),
        );
        assert(done.push(first) + others =~= done + rest);
    }
}

/// The fields of a structure are read back one after the other, up to the
/// stop byte.
proof fn lemma_parse_fields(
    rest: Seq<(i16, Value)>,
    bytes: Seq<u8>,
    pos: int,
    done: Seq<(i16, Value)>,
)
    requires
        fields_well_formed(rest),
        holds(bytes, pos, wire_of_fields(rest) + seq![0u8]),
    ensures
        parse_fields(bytes, pos, done) == Parsed::Complete(
            done + rest,
            pos + wire_of_fields(rest).len() + 1,
        ),
    decreases rest, 0nat,
{
    lemma_radix();
    if rest.len() == 0 {
        assert(done + rest =~= done);
        assert(bytes[pos] == bytes.subrange(pos, pos + 1)[0]);
    } else {
        let first = rest[0];
        let others = rest.skip(1);
        let t = first.1.wire_type();
        let header = field_header(t, first.0);
        lemma_fields_first(rest);
        lemma_tag_of_type(t);
        lemma_be_bytes_len(unsigned(first.0 as int, 2), 2);
        assert(wire_of_fields(rest) + seq![0u8] =~= header + (first.1.wire() + (wire_of_fields(
            others,
        ) + seq![0u8])));
        lemma_holds_split(
            bytes,
            pos,
            header,
            first.1.wire() + (wire_of_fields(others) + seq![0u8]),
        );
        lemma_holds_split(bytes, pos, seq![t.tag()], be_bytes(unsigned(first.0 as int, 2), 2));
        assert(bytes[pos] == bytes.subrange(pos, pos + 1)[0]);
        lemma_scalar_at(bytes, pos + 1, first.0 as int, 2);
        lemma_holds_split(bytes, pos + 3, first.1.wire(), wire_of_fields(others) + seq![0u8]);
        lemma_parse_wire(first.1, bytes, pos + 3);
        assert forall|i: int| 0 <= i < others.len() implies (#[trigger] others[i]).1.well_formed(
        ) by {
            assert(others[i] == rest[i + 1]);
        }
        lemma_parse_fields(others, bytes, pos + 3 + first.1.wire().len(), done.push(first));
        assert(done.push(first) + others =~= done + rest);
    }
}

} // verus!
