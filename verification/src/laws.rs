//! What holds of whole exchanges: a reply that a host built is read back as
//! it was built, whatever its status code; an exception comes back as an
//! exception; fields that a schema does not know change nothing.

use crate::decode::{parse_value, Parsed};
use crate::error::{ProtocolError, RpcErrorModel};
use crate::frame::{
    body_outcome, call_frame, lemma_method_name, parse_reply, reply_of, Method, OutcomeModel,
    ReplyModel, Request,
};
use crate::message::{header_wire, lemma_parse_header, MessageKind};
use crate::reply::{
    columns_from, exception_of, find_field, response_of, row_of, rows_from, rows_of, status_of,
    text_of, ExceptionModel,
};
use crate::roundtrip::{holds, lemma_holds_split, lemma_parse_wire};
use crate::schema::{
    column_entry, info_value, row_value, rows_value, text_value, ExtensionInfo, ResponseModel,
    RowModel, StatusModel,
};
use crate::value::{Value, WireType};
use vstd::prelude::*;
use vstd::utf8::{encode_utf8_decode_utf8, encode_utf8_valid_utf8};

verus! {

/// A status as a host writes it: the code in field 1, then the message in
/// field 2 and the identity in field 3, each only where the status has it.
pub open spec fn status_value(status: StatusModel) -> Value {
    Value::Struct(
        seq![(1i16, Value::I32(status.code))] + (match status.message {
            Some(message) => seq![(2i16, text_value(message))],
            None => Seq::empty(),
        }) + (match status.uuid {
            Some(uuid) => seq![(3i16, Value::I64(uuid))],
            None => Seq::empty(),
        }),
    )
}

/// A response as a host writes it: the status in field 1, the rows in
/// field 2.
pub open spec fn response_value(response: ResponseModel) -> Value {
    Value::Struct(
        seq![(1i16, status_value(response.status)), (2i16, rows_value(response.rows))],
    )
}

/// An exception as a host writes it: the message in field 1, the kind in
/// field 2.
pub open spec fn exception_value(exception: ExceptionModel) -> Value {
    Value::Struct(
        seq![(1i16, text_value(exception.message)), (2i16, Value::I32(exception.kind))],
    )
}

/// The body of a reply message: the value that the method returns, in
/// field 0.
pub open spec fn reply_body(reply: ReplyModel) -> Value {
    Value::Struct(
        seq![
            (
                0i16,
                match reply {
                    ReplyModel::Status(status) => status_value(status),
                    ReplyModel::Response(response) => response_value(response),
                },
            ),
        ],
    )
}

/// The frame by which a host answers the call of `method` with the number
/// `sequence`.
pub open spec fn reply_frame(method: Method, sequence: i32, reply: ReplyModel) -> Seq<u8> {
    header_wire(MessageKind::Reply, method.name(), sequence) + reply_body(reply).wire()
}

/// The frame by which a host refuses the call of `method` with the number
/// `sequence`.
pub open spec fn exception_frame(method: Method, sequence: i32, exception: ExceptionModel) -> Seq<
    u8,
> {
    header_wire(MessageKind::Exception, method.name(), sequence) + exception_value(
        exception,
    ).wire()
}

/// Text that was written as a value is read back as it was.
pub proof fn lemma_text_round_trip(text: Seq<char>)
    ensures
        text_of(text_value(text)) == Ok::<Seq<char>, ProtocolError>(text),
{
    encode_utf8_valid_utf8(text);
    encode_utf8_decode_utf8(text);
}

/// A status that was written as a value is read back as it was, whatever
/// its code.
pub proof fn lemma_status_round_trip(status: StatusModel)
    ensures
        status_of(status_value(status)) == Ok::<StatusModel, ProtocolError>(status),
{
    reveal_with_fuel(find_field, 4);
    let code = (1i16, Value::I32(status.code));
    let fields = status_value(status)->Struct_0;
    match status.message {
        Some(message) => {
            lemma_text_round_trip(message);
            let text = (2i16, text_value(message));
            match status.uuid {
                Some(uuid) => {
                    let id = (3i16, Value::I64(uuid));
                    assert(fields =~= seq![code, text, id]);
                    assert(fields.drop_last() =~= seq![code, text]);
                    assert(fields.drop_last().drop_last() =~= seq![code]);
                    assert(find_field(fields, 3) == Some(id.1));
                    assert(find_field(fields, 2) == Some(text.1));
                    assert(find_field(fields, 1) == Some(code.1));
                },
                None => {
                    assert(fields =~= seq![code, text]);
                    assert(fields.drop_last() =~= seq![code]);
                    assert(fields.drop_last().drop_last() =~= Seq::<(i16, Value)>::empty());
                    assert(find_field(fields, 3) is None);
                    assert(find_field(fields, 2) == Some(text.1));
                    assert(find_field(fields, 1) == Some(code.1));
                },
            }
        },
        None => {
            match status.uuid {
                Some(uuid) => {
                    let id = (3i16, Value::I64(uuid));
                    assert(fields =~= seq![code, id]);
                    assert(fields.drop_last() =~= seq![code]);
                    assert(fields.drop_last().drop_last() =~= Seq::<(i16, Value)>::empty());
                    assert(find_field(fields, 3) == Some(id.1));
                    assert(find_field(fields, 2) is None);
                    assert(find_field(fields, 1) == Some(code.1));
                },
                None => {
                    assert(fields =~= seq![code]);
                    assert(fields.drop_last() =~= Seq::<(i16, Value)>::empty());
                    assert(find_field(fields, 3) is None);
                    assert(find_field(fields, 2) is None);
                    assert(find_field(fields, 1) == Some(code.1));
                },
            }
        },
    }
}

/// The columns of a row that was written as a mapping are read back from
/// any place on.
proof fn lemma_columns_from(row: RowModel, at: int, done: RowModel)
    requires
        0 <= at <= row.len(),
    ensures
        columns_from(row.map_values(|c: (Seq<char>, Seq<char>)| column_entry(c)), at, done) == Ok::<
            RowModel,
            ProtocolError,
        >(done + row.skip(at)),
    decreases row.len() - at,
{
    let entries = row.map_values(|c: (Seq<char>, Seq<char>)| column_entry(c));
    if at >= row.len() {
        assert(done + row.skip(at) =~= done);
    } else {
        assert(entries[at] == column_entry(row[at]));
        lemma_text_round_trip(row[at].0);
        lemma_text_round_trip(row[at].1);
        lemma_columns_from(row, at + 1, done.push(row[at]));
        assert(done.push(row[at]) + row.skip(at + 1) =~= done + row.skip(at));
    }
}

/// A row that was written as a value is read back as it was.
pub proof fn lemma_row_round_trip(row: RowModel)
    ensures
        row_of(row_value(row)) == Ok::<RowModel, ProtocolError>(row),
{
    lemma_columns_from(row, 0, Seq::empty());
    assert(Seq::<(Seq<char>, Seq<char>)>::empty() + row.skip(0) =~= row);
}

/// The rows of a list that was written are read back from any place on.
proof fn lemma_rows_from(rows: Seq<RowModel>, at: int, done: Seq<RowModel>)
    requires
        0 <= at <= rows.len(),
    ensures
        rows_from(rows.map_values(|r: RowModel| row_value(r)), at, done) == Ok::<
            Seq<RowModel>,
            ProtocolError,
        >(done + rows.skip(at)),
    decreases rows.len() - at,
{
    let items = rows.map_values(|r: RowModel| row_value(r));
    if at >= rows.len() {
        assert(done + rows.skip(at) =~= done);
    } else {
        assert(items[at] == row_value(rows[at]));
        lemma_row_round_trip(rows[at]);
        lemma_rows_from(rows, at + 1, done.push(rows[at]));
        assert(done.push(rows[at]) + rows.skip(at + 1) =~= done + rows.skip(at));
    }
}

/// Rows that were written as a value are read back as they were, in their
/// order.
pub proof fn lemma_rows_round_trip(rows: Seq<RowModel>)
    ensures
        rows_of(rows_value(rows)) == Ok::<Seq<RowModel>, ProtocolError>(rows),
{
    lemma_rows_from(rows, 0, Seq::empty());
    assert(Seq::<RowModel>::empty() + rows.skip(0) =~= rows);
}

/// A response that was written as a value is read back as it was, whatever
/// the code of its status.
pub proof fn lemma_response_round_trip(response: ResponseModel)
    ensures
        response_of(response_value(response)) == Ok::<ResponseModel, ProtocolError>(response),
{
    reveal_with_fuel(find_field, 3);
    let fields = response_value(response)->Struct_0;
    assert(fields.drop_last() =~= seq![(1i16, status_value(response.status))]);
    assert(find_field(fields, 2) == Some(rows_value(response.rows)));
    assert(find_field(fields, 1) == Some(status_value(response.status)));
    lemma_status_round_trip(response.status);
    lemma_rows_round_trip(response.rows);
}

/// An exception that was written as a value is read back as it was.
pub proof fn lemma_exception_round_trip(exception: ExceptionModel)
    ensures
        exception_of(exception_value(exception)) == Ok::<ExceptionModel, ProtocolError>(
            exception,
        ),
{
    reveal_with_fuel(find_field, 3);
    let fields = exception_value(exception)->Struct_0;
    assert(fields.drop_last() =~= seq![(1i16, text_value(exception.message))]);
    assert(find_field(fields, 2) == Some(Value::I32(exception.kind)));
    assert(find_field(fields, 1) == Some(text_value(exception.message)));
    lemma_text_round_trip(exception.message);
}

/// Status transparency: the frame by which a host answers a call is read as
/// that answer, a status for register, ping and deregister and a response
/// for a query, whatever status code it carries. A code other than 0 never
/// turns a reply into an error.
pub proof fn lemma_reply_round_trip(
    method: Method,
    sequence: i32,
    reply: ReplyModel,
    bytes: Seq<u8>,
)
    requires
        (method == Method::Query) == (reply is Response),
        reply_body(reply).well_formed(),
        holds(bytes, 0, reply_frame(method, sequence, reply)),
    ensures
        parse_reply(bytes, method, sequence) == OutcomeModel::Finished(Ok(reply)),
{
    let head = header_wire(MessageKind::Reply, method.name(), sequence);
    let body = reply_body(reply);
    lemma_method_name(method);
    lemma_holds_split(bytes, 0, head, body.wire());
    lemma_parse_header(MessageKind::Reply, method.name(), sequence, bytes, 0);
    lemma_parse_wire(body, bytes, head.len() as int);
    assert(parse_value(WireType::Struct, bytes, head.len() as int) == Parsed::Complete(
        body,
        (head.len() + body.wire().len()) as int,
    ));
    reveal_with_fuel(find_field, 2);
    let fields = body->Struct_0;
    assert(fields.len() == 1);
    assert(find_field(fields, 0) == Some(fields[0].1));
    match reply {
        ReplyModel::Status(status) => {
            lemma_status_round_trip(status);
        },
        ReplyModel::Response(response) => {
            lemma_response_round_trip(response);
        },
    }
    assert(reply_of(method, body) == Ok::<ReplyModel, ProtocolError>(reply));
    assert(body_outcome(MessageKind::Reply, method, body) == Ok::<ReplyModel, RpcErrorModel>(
        reply,
    ));
}

/// The frame by which a host refuses a call is read as an application
/// exception with the host's message and kind, never as a reply.
pub proof fn lemma_exception_reply(
    method: Method,
    sequence: i32,
    exception: ExceptionModel,
    bytes: Seq<u8>,
)
    requires
        exception_value(exception).well_formed(),
        holds(bytes, 0, exception_frame(method, sequence, exception)),
    ensures
        parse_reply(bytes, method, sequence) == OutcomeModel::Finished(
            Err(RpcErrorModel::ApplicationException(exception)),
        ),
{
    let head = header_wire(MessageKind::Exception, method.name(), sequence);
    let body = exception_value(exception);
    lemma_method_name(method);
    lemma_holds_split(bytes, 0, head, body.wire());
    lemma_parse_header(MessageKind::Exception, method.name(), sequence, bytes, 0);
    lemma_parse_wire(body, bytes, head.len() as int);
    assert(parse_value(WireType::Struct, bytes, head.len() as int) == Parsed::Complete(
        body,
        (head.len() + body.wire().len()) as int,
    ));
    lemma_exception_round_trip(exception);
}

/// A field with another identifier, put anywhere among the fields, does not
/// change which field is found for `id`.
pub proof fn lemma_find_field_insert(
    fields: Seq<(i16, Value)>,
    at: int,
    extra: (i16, Value),
    id: i16,
)
    requires
        0 <= at <= fields.len(),
        extra.0 != id,
    ensures
        find_field(fields.insert(at, extra), id) == find_field(fields, id),
    decreases fields.len(),
{
    let longer = fields.insert(at, extra);
    if at == fields.len() {
        assert(longer.last() == extra);
        assert(longer.drop_last() =~= fields);
    } else {
        assert(longer.last() == fields.last());
        assert(longer.drop_last() =~= fields.drop_last().insert(at, extra));
        if fields.last().0 != id {
            lemma_find_field_insert(fields.drop_last(), at, extra, id);
        }
    }
}

/// Unknown-field tolerance: a structure with one more field, whose
/// identifier the schema does not know, is read as the structure without
/// it. This holds of a status (fields 1 to 3), of a response and of an
/// exception (fields 1 and 2), and of the body of a reply (field 0),
/// wherever the field stands and whatever it holds.
pub proof fn lemma_unknown_field_ignored(
    fields: Seq<(i16, Value)>,
    at: int,
    extra: (i16, Value),
    method: Method,
)
    requires
        0 <= at <= fields.len(),
    ensures
        extra.0 != 1 && extra.0 != 2 && extra.0 != 3 ==> status_of(
            Value::Struct(fields.insert(at, extra)),
        ) == status_of(Value::Struct(fields)),
        extra.0 != 1 && extra.0 != 2 ==> response_of(Value::Struct(fields.insert(at, extra)))
            == response_of(Value::Struct(fields)),
        extra.0 != 1 && extra.0 != 2 ==> exception_of(Value::Struct(fields.insert(at, extra)))
            == exception_of(Value::Struct(fields)),
        extra.0 != 0 ==> reply_of(method, Value::Struct(fields.insert(at, extra))) == reply_of(
            method,
            Value::Struct(fields),
        ),
{
    if extra.0 != 0 {
        lemma_find_field_insert(fields, at, extra, 0);
    }
    if extra.0 != 1 {
        lemma_find_field_insert(fields, at, extra, 1);
    }
    if extra.0 != 2 {
        lemma_find_field_insert(fields, at, extra, 2);
    }
    if extra.0 != 3 {
        lemma_find_field_insert(fields, at, extra, 3);
    }
}

/// Encoding is a function of what is encoded: two identities with the same
/// texts have the same bytes, and two requests with the same content have
/// the same frame under one sequence number. Nothing else, neither time nor
/// an order of iteration, has a part in the bytes.
pub proof fn lemma_same_content_same_bytes(
    first: ExtensionInfo,
    second: ExtensionInfo,
    sequence: i32,
    one: Request,
    other: Request,
)
    ensures
        first@ == second@ ==> info_value(first@).wire() == info_value(second@).wire(),
        one@ == other@ ==> call_frame(sequence, one@) == call_frame(sequence, other@),
{
}

} // verus!
