//! Whole messages: the frame of a call, and what a run of bytes means as
//! the reply to it.

use crate::decode::{parse_value, Decoded, Parsed};
use crate::error::{ProtocolError, RpcError, RpcErrorModel};
use crate::message::{
    decode_header, header_wire, parse_header, put_message_begin, MessageHeader, MessageKind,
};
use crate::reply::{
    exception_of, field_by_id, find_field, response_of, status_of, ApplicationException,
};
use crate::schema::{
    info_value, registry_value, text_to_value, text_value, CategoryModel, ExtensionInfo,
    ExtensionRegistry, ExtensionResponse, ExtensionStatus, InfoModel, ResponseModel, StatusModel,
};
use crate::value::{view_of_fields, Field, FieldValue, Value, WireType};
use vstd::prelude::*;
use vstd::utf8::{encode_utf8, is_ascii_chars, is_ascii_chars_encode_utf8};

verus! {

/// The four operations of the service.
#[derive(Clone, Copy, Debug, PartialEq, Eq, Structural)]
pub enum Method {
    RegisterExtension,
    Ping,
    DeregisterExtension,
    Query,
}

impl Method {
    /// The name of the method on the wire.
    pub open spec fn name(self) -> Seq<char> {
        match self {
            Method::RegisterExtension => "registerExtension"@,
            Method::Ping => "ping"@,
            Method::DeregisterExtension => "deregisterExtension"@,
            Method::Query => "query"@,
        }
    }

    /// The name of the method on the wire.
    pub fn as_str(self) -> (name: &'static str)
        ensures
            name@ == self.name(),
    {
        match self {
            Method::RegisterExtension => "registerExtension",
            Method::Ping => "ping",
            Method::DeregisterExtension => "deregisterExtension",
            Method::Query => "query",
        }
    }
}

/// The name of a method is plain ASCII, one byte for each character, and
/// short.
pub proof fn lemma_method_name(method: Method)
    ensures
        encode_utf8(method.name()).len() == method.name().len(),
        method.name().len() <= 19,
{
    reveal_strlit("registerExtension");
    reveal_strlit("ping");
    reveal_strlit("deregisterExtension");
    reveal_strlit("query");
    assert(is_ascii_chars(method.name()));
    is_ascii_chars_encode_utf8(method.name());
}

/// A call with its arguments.
#[derive(Clone, Debug, PartialEq, Eq)]
pub enum Request {
    Register { info: ExtensionInfo, registry: ExtensionRegistry },
    Ping,
    Deregister { uuid: i64 },
    Query { sql: String },
}

/// The model of a `Request`.
pub enum RequestModel {
    Register { info: InfoModel, registry: Seq<CategoryModel> },
    Ping,
    Deregister { uuid: i64 },
    Query { sql: Seq<char> },
}

impl View for Request {
    type V = RequestModel;

    open spec fn view(&self) -> RequestModel {
        match self {
            Request::Register { info, registry } => RequestModel::Register {
                info: info@,
                registry: registry@,
            },
            Request::Ping => RequestModel::Ping,
            Request::Deregister { uuid } => RequestModel::Deregister { uuid: *uuid },
            Request::Query { sql } => RequestModel::Query { sql: sql@ },
        }
    }
}

impl RequestModel {
    /// The method that this request calls.
    pub open spec fn method(self) -> Method {
        match self {
            RequestModel::Register { .. } => Method::RegisterExtension,
            RequestModel::Ping => Method::Ping,
            RequestModel::Deregister { .. } => Method::DeregisterExtension,
            RequestModel::Query { .. } => Method::Query,
        }
    }

    /// The arguments of this request as a structure: each argument is a
    /// field, numbered from 1 in the order of the method's signature.
    pub open spec fn args(self) -> Value {
        match self {
            RequestModel::Register { info, registry } => Value::Struct(
                seq![(1i16, info_value(info)), (2i16, registry_value(registry))],
            ),
            RequestModel::Ping => Value::Struct(Seq::empty()),
            RequestModel::Deregister { uuid } => Value::Struct(seq![(1i16, Value::I64(uuid))]),
            RequestModel::Query { sql } => Value::Struct(seq![(1i16, text_value(sql))]),
        }
    }
}

/// The frame of a call: the header of kind call with the method's name and
/// the sequence number, then the arguments.
pub open spec fn call_frame(sequence: i32, request: RequestModel) -> Seq<u8> {
    header_wire(MessageKind::Call, request.method().name(), sequence) + request.args().wire()
}

impl Request {
    /// The method that this request calls.
    pub fn method(&self) -> (m: Method)
        ensures
            m == self@.method(),
    {
        match self {
            Request::Register { .. } => Method::RegisterExtension,
            Request::Ping => Method::Ping,
            Request::Deregister { .. } => Method::DeregisterExtension,
            Request::Query { .. } => Method::Query,
        }
    }

    /// The arguments of this request as a structure.
    pub fn to_args(&self) -> (v: FieldValue)
        ensures
            v@ == self@.args(),
    {
        let mut fields: Vec<Field> = Vec::new();
        match self {
            Request::Register { info, registry } => {
                fields.push(Field { id: 1, value: info.to_value() });
                fields.push(Field { id: 2, value: registry.to_value() });
            },
            Request::Ping => {},
            Request::Deregister { uuid } => {
                fields.push(Field { id: 1, value: FieldValue::I64(*uuid) });
            },
            Request::Query { sql } => {
                fields.push(Field { id: 1, value: text_to_value(sql.as_str()) });
            },
        }
        assert(view_of_fields(fields@) =~= self@.args()->Struct_0);
        FieldValue::Struct(fields)
    }
}

/// Builds the frame of a call.
///
/// The frame depends on the sequence number and the request alone: the same
/// call gives the same bytes. A request with a text or a collection that is
/// too long for the wire's four-byte signed count gives `TooLong`.
pub fn encode_call(sequence: i32, request: &Request) -> (r: Result<Vec<u8>, ProtocolError>)
    ensures
        match r {
            Ok(frame) => request@.args().well_formed() && frame@ == call_frame(
                sequence,
                request@,
            ),
            Err(e) => !request@.args().well_formed() && e == ProtocolError::TooLong,
        },
{
    let args = request.to_args();
    if !args.is_well_formed() {
        return Err(ProtocolError::TooLong);
    }
    let mut frame: Vec<u8> = Vec::new();
    proof {
        lemma_method_name(request@.method());
    }
    put_message_begin(&mut frame, MessageKind::Call, request.method().as_str(), sequence);
    args.encode(&mut frame);
    assert(frame@ =~= call_frame(sequence, request@));
    Ok(frame)
}

/// What a call brought back.
#[derive(Clone, Debug, PartialEq, Eq)]
pub enum Reply {
    /// The answer to register, ping and deregister.
    Status(ExtensionStatus),
    /// The answer to a query.
    Response(ExtensionResponse),
}

/// The model of a `Reply`.
pub enum ReplyModel {
    Status(StatusModel),
    Response(ResponseModel),
}

impl View for Reply {
    type V = ReplyModel;

    open spec fn view(&self) -> ReplyModel {
        match self {
            Reply::Status(s) => ReplyModel::Status(s@),
            Reply::Response(r) => ReplyModel::Response(r@),
        }
    }
}

/// How far the reply to a call has come.
#[derive(Debug, PartialEq, Eq)]
pub enum Outcome {
    /// The bytes end inside the frame: more are needed.
    Pending,
    /// The frame is whole, or can no longer become a reply: the call is
    /// over, with a reply or with an error.
    Finished(Result<Reply, RpcError>),
}

/// The model of an `Outcome`.
pub enum OutcomeModel {
    Pending,
    Finished(Result<ReplyModel, RpcErrorModel>),
}

impl View for Outcome {
    type V = OutcomeModel;

    open spec fn view(&self) -> OutcomeModel {
        match self {
            Outcome::Pending => OutcomeModel::Pending,
            Outcome::Finished(Ok(reply)) => OutcomeModel::Finished(Ok(reply@)),
            Outcome::Finished(Err(e)) => OutcomeModel::Finished(Err(e@)),
        }
    }
}

/// The reply that the body of a reply message holds: the value that the
/// method returns stands in field 0, a response for a query and a status
/// for the other methods.
pub open spec fn reply_of(method: Method, body: Value) -> Result<ReplyModel, ProtocolError> {
    match body {
        Value::Struct(fields) => match find_field(fields, 0) {
            None => Err(ProtocolError::MissingField),
            Some(v) => if method == Method::Query {
                match response_of(v) {
                    Ok(response) => Ok(ReplyModel::Response(response)),
                    Err(e) => Err(e),
                }
            } else {
                match status_of(v) {
                    Ok(status) => Ok(ReplyModel::Status(status)),
                    Err(e) => Err(e),
                }
            },
        },
        _ => Err(ProtocolError::TypeMismatch),
    }
}

/// What the body of a message of kind `kind` means to the call of
/// `method`: an exception is an error of its own, a reply is read by its
/// schema.
pub open spec fn body_outcome(kind: MessageKind, method: Method, body: Value) -> Result<
    ReplyModel,
    RpcErrorModel,
> {
    if kind == MessageKind::Exception {
        match exception_of(body) {
            Ok(exception) => Err(RpcErrorModel::ApplicationException(exception)),
            Err(e) => Err(RpcErrorModel::Protocol(e)),
        }
    } else {
        match reply_of(method, body) {
            Ok(reply) => Ok(reply),
            Err(e) => Err(RpcErrorModel::Protocol(e)),
        }
    }
}

/// What `bytes` mean as the answer to the call of `method` with the number
/// `sequence`.
///
/// The header is checked as soon as it is whole: first the kind, which must
/// be reply or exception, then the sequence number, then the method's name.
/// Then the body is read: the structure of an exception where the kind is
/// exception, else the result of the method.
pub open spec fn parse_reply(bytes: Seq<u8>, method: Method, sequence: i32) -> OutcomeModel {
    match parse_header(bytes, 0) {
        Parsed::Incomplete => OutcomeModel::Pending,
        Parsed::Malformed(e) => OutcomeModel::Finished(Err(RpcErrorModel::Protocol(e))),
        Parsed::Complete(header, body_at) => if header.kind == MessageKind::Call || header.kind
            == MessageKind::OneWay {
            OutcomeModel::Finished(
                Err(RpcErrorModel::Protocol(ProtocolError::UnexpectedMessageKind)),
            )
        } else if header.sequence != sequence {
            OutcomeModel::Finished(Err(RpcErrorModel::Protocol(ProtocolError::SequenceMismatch)))
        } else if header.name != method.name() {
            OutcomeModel::Finished(Err(RpcErrorModel::Protocol(ProtocolError::WrongMethod)))
        } else {
            match parse_value(WireType::Struct, bytes, body_at) {
                Parsed::Incomplete => OutcomeModel::Pending,
                Parsed::Malformed(e) => OutcomeModel::Finished(Err(RpcErrorModel::Protocol(e))),
                Parsed::Complete(body, _) => OutcomeModel::Finished(
                    body_outcome(header.kind, method, body),
                ),
            }
        },
    }
}

/// Reads the result of `method` out of the body of a reply message.
fn reply_from_body(method: Method, body: &FieldValue) -> (r: Result<Reply, ProtocolError>)
    ensures
        match r {
            Ok(reply) => reply_of(method, body@) == Ok::<ReplyModel, ProtocolError>(reply@),
            Err(e) => reply_of(method, body@) == Err::<ReplyModel, ProtocolError>(e),
        },
{
    let fields: &Vec<Field> = match body {
        FieldValue::Struct(fields) => fields,
        _ => {
            return Err(ProtocolError::TypeMismatch);
        },
    };
    match field_by_id(fields, 0) {
        None => Err(ProtocolError::MissingField),
        Some(v) => {
            if method == Method::Query {
                match ExtensionResponse::from_value(v) {
                    Ok(response) => Ok(Reply::Response(response)),
                    Err(e) => Err(e),
                }
            } else {
                match ExtensionStatus::from_value(v) {
                    Ok(status) => Ok(Reply::Status(status)),
                    Err(e) => Err(e),
                }
            }
        },
    }
}

/// Reads what the body of a message means to the call of `method`.
fn outcome_from_body(kind: MessageKind, method: Method, body: &FieldValue) -> (r: Result<
    Reply,
    RpcError,
>)
    ensures
        (Outcome::Finished(r))@ == OutcomeModel::Finished(body_outcome(kind, method, body@)),
{
    if kind == MessageKind::Exception {
        match ApplicationException::from_value(body) {
            Ok(exception) => Err(RpcError::ApplicationException(exception)),
            Err(e) => Err(RpcError::Protocol(e)),
        }
    } else {
        match reply_from_body(method, body) {
            Ok(reply) => Ok(reply),
            Err(e) => Err(RpcError::Protocol(e)),
        }
    }
}

/// Reads `bytes` as the answer to the call of `method` with the number
/// `sequence`.
///
/// `Pending` says that the bytes end inside the frame, so that the caller
/// reads on and asks again with more. A reply is handed out whatever its
/// status code: a code other than 0 is a reply, not an error.
pub fn decode_reply(bytes: &[u8], method: Method, sequence: i32) -> (r: Outcome)
    ensures
        r@ == parse_reply(bytes@, method, sequence),
{
    let (header, body_at): (MessageHeader, usize) = match decode_header(bytes, 0) {
        Decoded::Incomplete => {
            return Outcome::Pending;
        },
        Decoded::Malformed(e) => {
            return Outcome::Finished(Err(RpcError::Protocol(e)));
        },
        Decoded::Complete { value, next } => (value, next),
    };
    if header.kind == MessageKind::Call || header.kind == MessageKind::OneWay {
        return Outcome::Finished(Err(RpcError::Protocol(ProtocolError::UnexpectedMessageKind)));
    }
    if header.sequence != sequence {
        return Outcome::Finished(Err(RpcError::Protocol(ProtocolError::SequenceMismatch)));
    }
    if header.name != method.as_str().to_owned() {
        return Outcome::Finished(Err(RpcError::Protocol(ProtocolError::WrongMethod)));
    }
    match FieldValue::decode(bytes, body_at, WireType::Struct) {
        Decoded::Incomplete => Outcome::Pending,
        Decoded::Malformed(e) => Outcome::Finished(Err(RpcError::Protocol(e))),
        Decoded::Complete { value, .. } => Outcome::Finished(
            outcome_from_body(header.kind, method, &value),
        ),
    }
}

} // verus!
