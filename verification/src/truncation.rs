//! A buffer that ends inside a value, a header or a reply never reads as a
//! whole one: the answer is that more bytes are needed.

use crate::client::{received, ClientModel};
use crate::decode::{
    parse_binary, parse_collection_header, parse_entries, parse_fields, parse_items, parse_list,
    parse_mapping, parse_mapping_header, parse_set, parse_struct, parse_value, Parsed,
};
use crate::error::{IoError, RpcErrorModel};
use crate::frame::{lemma_method_name, parse_reply, Method, OutcomeModel, ReplyModel};
use crate::laws::{reply_body, reply_frame};
use crate::message::{
    header_wire, lemma_parse_header, parse_header, version_and_kind, MessageKind,
};
use crate::primitive::{
    announced_len, be_bytes, binary_wire, lemma_be_bytes_len, lemma_radix, unsigned,
};
use crate::roundtrip::{
    holds, lemma_entries_first, lemma_fields_first, lemma_holds_split, lemma_items_first,
    lemma_parse_binary, lemma_parse_wire, lemma_scalar_at, lemma_tag_of_type,
};
use crate::value::{
    collection_wire, field_header, fields_well_formed, items_well_formed,
    wire_of_entries, wire_of_fields, wire_of_items, Value, WireType,
};
use vstd::prelude::*;
use vstd::utf8::{encode_utf8, encode_utf8_valid_utf8};

verus! {

/// Whether `bytes` ends inside the run `run` that starts at `pos`: what
/// there is from `pos` on is the start of the run, and not all of it.
pub open spec fn cut_short(bytes: Seq<u8>, pos: int, run: Seq<u8>) -> bool {
    &&& 0 <= pos <= bytes.len()
    &&& bytes.len() < pos + run.len()
    &&& bytes.subrange(pos, bytes.len() as int) == run.subrange(0, bytes.len() - pos)
}

/// A buffer that ends inside two runs in a row either ends inside the
/// first, or holds the first and ends inside the second.
pub proof fn lemma_cut_split(bytes: Seq<u8>, pos: int, first: Seq<u8>, second: Seq<u8>)
    requires
        cut_short(bytes, pos, first + second),
    ensures
        bytes.len() < pos + first.len() ==> cut_short(bytes, pos, first),
        bytes.len() >= pos + first.len() ==> holds(bytes, pos, first) && cut_short(
            bytes,
            pos + first.len(),
            second,
        ),
{
    let have = bytes.len() - pos;
    let whole = first + second;
    assert forall|i: int| 0 <= i < have implies bytes[pos + i] == whole[i] by {
        assert(bytes.subrange(pos, bytes.len() as int)[i] == whole.subrange(0, have)[i]);
    }
    if bytes.len() < pos + first.len() {
        assert(bytes.subrange(pos, bytes.len() as int) =~= first.subrange(0, have));
    } else {
        assert forall|i: int| 0 <= i < first.len() implies bytes[pos + i] == first[i] by {
            assert(whole[i] == first[i]);
        }
        assert(bytes.subrange(pos, pos + first.len()) =~= first);
        assert forall|i: int| 0 <= i < have - first.len() implies bytes[pos + first.len() + i]
            == second[i] by {
            assert(whole[first.len() + i] == second[i]);
        }
        assert(bytes.subrange(pos + first.len(), bytes.len() as int) =~= second.subrange(
            0,
            have - first.len(),
        ));
    }
}

/// A buffer that ends inside a byte string on the wire does not yield it.
pub proof fn lemma_binary_cut_short(bytes: Seq<u8>, pos: int, content: Seq<u8>)
    requires
        content.len() <= i32::MAX,
        cut_short(bytes, pos, binary_wire(content)),
    ensures
        parse_binary(bytes, pos) == Parsed::<Seq<u8>>::Incomplete,
{
    lemma_radix();
    let n = content.len() as int;
    lemma_be_bytes_len(n, 4);
    lemma_cut_split(bytes, pos, be_bytes(n, 4), content);
    if bytes.len() >= pos + 4 {
        assert(unsigned(n, 4) == n);
        lemma_scalar_at(bytes, pos, n, 4);
        assert(announced_len(bytes, pos) == n);
    }
}

/// A buffer that ends inside the bytes of a well-formed value is not read
/// as a value of that type: it is incomplete.
pub proof fn lemma_value_cut_short(v: Value, bytes: Seq<u8>, pos: int)
    requires
        v.well_formed(),
        cut_short(bytes, pos, v.wire()),
    ensures
        parse_value(v.wire_type(), bytes, pos) == Parsed::<Value>::Incomplete,
    decreases v,
{
    lemma_radix();
    match v {
        Value::Bool(b) => {},
        Value::Byte(x) => {},
        Value::I16(x) => {
            lemma_be_bytes_len(unsigned(x as int, 2), 2);
        },
        Value::I32(x) => {
            lemma_be_bytes_len(unsigned(x as int, 4), 4);
        },
        Value::I64(x) => {
            lemma_be_bytes_len(unsigned(x as int, 8), 8);
        },
        Value::Double(bits) => {
            lemma_be_bytes_len(bits as int, 8);
        },
        Value::Binary(content) => {
            lemma_binary_cut_short(bytes, pos, content);
        },
        Value::ListOf(t, items) => {
            lemma_collection_cut_short(t, items, bytes, pos);
        },
        Value::SetOf(t, items) => {
            lemma_collection_cut_short(t, items, bytes, pos);
        },
        Value::MapOf(k, w, entries) => {
            let n = entries.len() as int;
            let types = seq![k.tag(), w.tag()];
            let head = types + be_bytes(n, 4);
            lemma_be_bytes_len(n, 4);
            lemma_tag_of_type(k);
            lemma_tag_of_type(w);
            lemma_cut_split(bytes, pos, head, wire_of_entries(entries));
            if bytes.len() < pos + 6 {
                lemma_cut_split(bytes, pos, types, be_bytes(n, 4));
                if bytes.len() < pos + 2 {
                    assert(types =~= seq![k.tag()] + seq![w.tag()]);
                    lemma_cut_split(bytes, pos, seq![k.tag()], seq![w.tag()]);
                    if bytes.len() >= pos + 1 {
                        assert(bytes[pos] == bytes.subrange(pos, pos + 1)[0]);
                    }
                } else {
                    assert(bytes[pos] == bytes.subrange(pos, pos + 2)[0]);
                    assert(bytes[pos + 1] == bytes.subrange(pos, pos + 2)[1]);
                }
                assert(parse_mapping_header(bytes, pos) == Parsed::<
                    (WireType, WireType, int),
                >::Incomplete);
            } else {
                lemma_holds_split(bytes, pos, types, be_bytes(n, 4));
                assert(bytes[pos] == bytes.subrange(pos, pos + 2)[0]);
                assert(bytes[pos + 1] == bytes.subrange(pos, pos + 2)[1]);
                assert(unsigned(n, 4) == n);
                lemma_scalar_at(bytes, pos + 2, n, 4);
                assert(parse_mapping_header(bytes, pos) == Parsed::Complete((k, w, n), pos + 6));
                lemma_entries_cut_short(k, w, entries, bytes, pos + 6, Seq::empty());
            }
            assert(parse_mapping(bytes, pos) == Parsed::<Value>::Incomplete);
        },
        Value::Struct(fields) => {
            lemma_fields_cut_short(fields, bytes, pos, Seq::empty());
            assert(parse_struct(bytes, pos) == Parsed::<Value>::Incomplete);
        },
    }
}

/// A buffer that ends inside a list or a set is incomplete.
proof fn lemma_collection_cut_short(t: WireType, items: Seq<Value>, bytes: Seq<u8>, pos: int)
    requires
        items_well_formed(t, items),
        cut_short(bytes, pos, collection_wire(t, items)),
    ensures
        parse_list(bytes, pos) == Parsed::<Value>::Incomplete,
        parse_set(bytes, pos) == Parsed::<Value>::Incomplete,
    decreases items, 1nat,
{
    lemma_radix();
    let n = items.len() as int;
    let head = seq![t.tag()] + be_bytes(n, 4);
    lemma_be_bytes_len(n, 4);
    lemma_tag_of_type(t);
    lemma_cut_split(bytes, pos, head, wire_of_items(items));
    if bytes.len() < pos + 5 {
        lemma_cut_split(bytes, pos, seq![t.tag()], be_bytes(n, 4));
        if bytes.len() >= pos + 1 {
            assert(bytes[pos] == bytes.subrange(pos, pos + 1)[0]);
        }
        assert(parse_collection_header(bytes, pos) == Parsed::<(WireType, int)>::Incomplete);
    } else {
        lemma_holds_split(bytes, pos, seq![t.tag()], be_bytes(n, 4));
        assert(bytes[pos] == bytes.subrange(pos, pos + 1)[0]);
        assert(unsigned(n, 4) == n);
        lemma_scalar_at(bytes, pos + 1, n, 4);
        assert(parse_collection_header(bytes, pos) == Parsed::Complete((t, n), pos + 5));
        lemma_items_cut_short(t, items, bytes, pos + 5, Seq::empty());
    }
}

/// A buffer that ends inside the elements of a list or a set is incomplete.
proof fn lemma_items_cut_short(
    t: WireType,
    rest: Seq<Value>,
    bytes: Seq<u8>,
    pos: int,
    done: Seq<Value>,
)
    requires
        forall|i: int|
            0 <= i < rest.len() ==> (#[trigger] rest[i]).wire_type() == t && rest[i].well_formed(),
        cut_short(bytes, pos, wire_of_items(rest)),
    ensures
        parse_items(t, bytes, pos, rest.len() as int, done) == Parsed::<Seq<Value>>::Incomplete,
    decreases rest, 0nat,
{
    assert(rest.len() > 0);
    let first = rest[0];
    let others = rest.skip(1);
    lemma_items_first(rest);
    lemma_cut_split(bytes, pos, first.wire(), wire_of_items(others));
    if bytes.len() < pos + first.wire().len() {
        lemma_value_cut_short(first, bytes, pos);
    } else {
        lemma_parse_wire(first, bytes, pos);
        assert forall|i: int| 0 <= i < others.len() implies (#[trigger] others[i]).wire_type() == t
            && others[i].well_formed() by {
            assert(others[i] == rest[i + 1]);
        }
        lemma_items_cut_short(t, others, bytes, pos + first.wire().len(), done.push(first));
    }
}

/// A buffer that ends inside the pairs of a mapping is incomplete.
proof fn lemma_entries_cut_short(
    k: WireType,
    w: WireType,
    rest: Seq<(Value, Value)>,
    bytes: Seq<u8>,
    pos: int,
    done: Seq<(Value, Value)>,
)
    requires
        forall|i: int|
            0 <= i < rest.len() ==> {
                &&& (#[trigger] rest[i]).0.wire_type() == k
                &&& rest[i].1.wire_type() == w
                &&& rest[i].0.well_formed()
                &&& rest[i].1.well_formed()
            },
        cut_short(bytes, pos, wire_of_entries(rest)),
    ensures
        parse_entries(k, w, bytes, pos, rest.len() as int, done) == Parsed::<
            Seq<(Value, Value)>,
        >::Incomplete,
    decreases rest, 0nat,
{
    assert(rest.len() > 0);
    let first = rest[0];
    let others = rest.skip(1);
    lemma_entries_first(rest);
    lemma_cut_split(bytes, pos, first.0.wire() + first.1.wire(), wire_of_entries(others));
    if bytes.len() < pos + first.0.wire().len() + first.1.wire().len() {
        lemma_cut_split(bytes, pos, first.0.wire(), first.1.wire());
        if bytes.len() < pos + first.0.wire().len() {
            lemma_value_cut_short(first.0, bytes, pos);
        } else {
            lemma_parse_wire(first.0, bytes, pos);
            lemma_value_cut_short(first.1, bytes, pos + first.0.wire().len());
        }
    } else {
        lemma_holds_split(bytes, pos, first.0.wire(), first.1.wire());
        lemma_parse_wire(first.0, bytes, pos);
        lemma_parse_wire(first.1, bytes, pos + first.0.wire().len());
        assert forall|i: int| 0 <= i < others.len() implies {
            &&& (#[trigger] others[i]).0.wire_type() == k
            &&& others[i].1.wire_type() == w
            &&& others[i].0.well_formed()
            &&& others[i].1.well_formed()
        } by {
            assert(others[i] == rest[i + 1]);
        }
        lemma_entries_cut_short(
            k,
            w,
            others,
            bytes,
            pos + first.0.wire().len() + first.1.wire().len(),
            done.push(first),
        );
    }
}

/// A buffer that ends inside the fields of a structure, or before its stop
/// byte, is incomplete.
proof fn lemma_fields_cut_short(
    rest: Seq<(i16, Value)>,
    bytes: Seq<u8>,
    pos: int,
    done: Seq<(i16, Value)>,
)
    requires
        fields_well_formed(rest),
        cut_short(bytes, pos, wire_of_fields(rest) + seq![0u8]),
    ensures
        parse_fields(bytes, pos, done) == Parsed::<Seq<(i16, Value)>>::Incomplete,
    decreases rest, 0nat,
{
    lemma_radix();
    if rest.len() > 0 {
        let first = rest[0];
        let others = rest.skip(1);
        let t = first.1.wire_type();
        let number = be_bytes(unsigned(first.0 as int, 2), 2);
        let header = field_header(t, first.0);
        let tail = wire_of_fields(others) + seq![0u8];
        lemma_fields_first(rest);
        lemma_tag_of_type(t);
        lemma_be_bytes_len(unsigned(first.0 as int, 2), 2);
        assert(wire_of_fields(rest) + seq![0u8] =~= header + (first.1.wire() + tail));
        lemma_cut_split(bytes, pos, header, first.1.wire() + tail);
        if bytes.len() < pos + 3 {
            lemma_cut_split(bytes, pos, seq![t.tag()], number);
            if bytes.len() >= pos + 1 {
                assert(bytes[pos] == bytes.subrange(pos, pos + 1)[0]);
            }
        } else {
            lemma_holds_split(bytes, pos, seq![t.tag()], number);
            assert(bytes[pos] == bytes.subrange(pos, pos + 1)[0]);
            lemma_scalar_at(bytes, pos + 1, first.0 as int, 2);
            lemma_cut_split(bytes, pos + 3, first.1.wire(), tail);
            if bytes.len() < pos + 3 + first.1.wire().len() {
                lemma_value_cut_short(first.1, bytes, pos + 3);
            } else {
                lemma_parse_wire(first.1, bytes, pos + 3);
                assert forall|i: int|
                    0 <= i < others.len() implies (#[trigger] others[i]).1.well_formed() by {
                    assert(others[i] == rest[i + 1]);
                }
                lemma_fields_cut_short(
                    others,
                    bytes,
                    pos + 3 + first.1.wire().len(),
                    done.push(first),
                );
            }
        }
    }
}

/// A buffer that ends inside a header is incomplete.
pub proof fn lemma_header_cut_short(
    kind: MessageKind,
    name: Seq<char>,
    sequence: i32,
    bytes: Seq<u8>,
    pos: int,
)
    requires
        encode_utf8(name).len() <= i32::MAX,
        cut_short(bytes, pos, header_wire(kind, name, sequence)),
    ensures
        parse_header(bytes, pos) matches Parsed::Incomplete,
{
    lemma_radix();
    let raw = encode_utf8(name);
    let number = be_bytes(unsigned(sequence as int, 4), 4);
    lemma_be_bytes_len(unsigned(sequence as int, 4), 4);
    lemma_be_bytes_len(raw.len() as int, 4);
    lemma_cut_split(bytes, pos, version_and_kind(kind) + binary_wire(raw), number);
    if bytes.len() < pos + 8 + raw.len() {
        lemma_cut_split(bytes, pos, version_and_kind(kind), binary_wire(raw));
        if bytes.len() >= pos + 4 {
            let marker = bytes.subrange(pos, pos + 4);
            assert(bytes[pos] == marker[0] && bytes[pos + 1] == marker[1] && bytes[pos + 3]
                == marker[3]);
            lemma_binary_cut_short(bytes, pos + 4, raw);
        }
    } else {
        lemma_holds_split(bytes, pos, version_and_kind(kind), binary_wire(raw));
        let marker = bytes.subrange(pos, pos + 4);
        assert(bytes[pos] == marker[0] && bytes[pos + 1] == marker[1] && bytes[pos + 3]
            == marker[3]);
        lemma_parse_binary(bytes, pos + 4, raw);
        encode_utf8_valid_utf8(name);
    }
}

/// Mid-call disconnect: what a host has sent of a reply before it stopped,
/// as long as it is not all of it, is never read as a reply, whole or in
/// part. The client asks for more; told that the connection is closed, it
/// ends the call with an I/O error and keeps its identity.
pub proof fn lemma_reply_cut_short(
    client: ClientModel,
    method: Method,
    reply: ReplyModel,
    bytes: Seq<u8>,
)
    requires
        client.outstanding == Some(method),
        reply_body(reply).well_formed(),
        cut_short(bytes, 0, reply_frame(method, client.sequence, reply)),
    ensures
        parse_reply(bytes, method, client.sequence) == OutcomeModel::Pending,
        received(client, bytes, false) == (client, OutcomeModel::Pending),
        received(client, bytes, true) == (
            ClientModel { uuid: client.uuid, sequence: client.sequence, outstanding: None },
            OutcomeModel::Finished(Err(RpcErrorModel::Io(IoError::UnexpectedEof))),
        ),
{
    let head = header_wire(MessageKind::Reply, method.name(), client.sequence);
    let body = reply_body(reply);
    lemma_method_name(method);
    lemma_cut_split(bytes, 0, head, body.wire());
    if bytes.len() < head.len() {
        lemma_header_cut_short(MessageKind::Reply, method.name(), client.sequence, bytes, 0);
    } else {
        lemma_parse_header(MessageKind::Reply, method.name(), client.sequence, bytes, 0);
        lemma_value_cut_short(body, bytes, head.len() as int);
    }
}

} // verus!
