//! The session of one extension with the host: which call is outstanding,
//! the sequence number, and the identity that the host assigned.
//!
//! The client moves no bytes itself. An operation hands out the frame to
//! send; `receive` is given what has come back so far and says whether the
//! reply is whole. The caller writes the frame, reads from the connection,
//! and calls `receive` again until the call is over.

use crate::error::{IoError, ProtocolError, RpcError, RpcErrorModel};
use crate::frame::{
    call_frame, decode_reply, encode_call, parse_reply, Method, Outcome, OutcomeModel, Reply,
    ReplyModel, Request, RequestModel,
};
use crate::schema::{CategoryModel, ExtensionInfo, ExtensionRegistry, InfoModel};
use crate::value::Value;
use vstd::prelude::*;

verus! {

/// The model of a client.
pub struct ClientModel {
    /// The identity that the host assigned; 0 before any registration.
    pub uuid: i64,
    /// The sequence number of the last call.
    pub sequence: i32,
    /// The method whose reply is awaited, if a call is outstanding.
    pub outstanding: Option<Method>,
}

/// The client of the extension manager.
#[derive(Debug)]
pub struct OsqueryClient {
    uuid: i64,
    sequence: i32,
    outstanding: Option<Method>,
}

impl View for OsqueryClient {
    type V = ClientModel;

    closed spec fn view(&self) -> ClientModel {
        ClientModel { uuid: self.uuid, sequence: self.sequence, outstanding: self.outstanding }
    }
}

/// The sequence number after `sequence`: one more, and 0 after the largest.
pub open spec fn next_sequence(sequence: i32) -> i32 {
    if sequence == i32::MAX {
        0
    } else {
        (sequence + 1) as i32
    }
}

/// The request by which an extension called `name` registers: version
/// 0.0.1, both SDK versions 0.0.0, and no plugins.
pub open spec fn registration(name: Seq<char>) -> RequestModel {
    RequestModel::Register {
        info: InfoModel {
            name,
            version: "0.0.1"@,
            sdk_version: "0.0.0"@,
            min_sdk_version: "0.0.0"@,
        },
        registry: Seq::<CategoryModel>::empty(),
    }
}

/// The client after it has started `request`, where the request can stand
/// on the wire: the next sequence number, and the call outstanding.
pub open spec fn started(client: ClientModel, request: RequestModel) -> ClientModel {
    ClientModel {
        uuid: client.uuid,
        sequence: next_sequence(client.sequence),
        outstanding: Some(request.method()),
    }
}

/// The identity after the call of `method` ended with `result`: the one
/// that the status of a registration carries, where it carries one, and the
/// old one in every other case.
pub open spec fn uuid_after(
    uuid: i64,
    method: Method,
    result: Result<ReplyModel, RpcErrorModel>,
) -> i64 {
    match result {
        Ok(ReplyModel::Status(status)) => if method == Method::RegisterExtension
            && status.uuid is Some {
            status.uuid.unwrap()
        } else {
            uuid
        },
        _ => uuid,
    }
}

/// The client after `bytes` have come back, and what it reports.
///
/// With no call outstanding the bytes are an error. A frame that is not
/// whole leaves the call outstanding, unless the connection is closed: then
/// the call ends with an I/O error. A whole frame ends the call.
pub open spec fn received(client: ClientModel, bytes: Seq<u8>, closed: bool) -> (
    ClientModel,
    OutcomeModel,
) {
    match client.outstanding {
        None => (
            client,
            OutcomeModel::Finished(
                Err(RpcErrorModel::Protocol(ProtocolError::NoCallOutstanding)),
            ),
        ),
        Some(method) => match parse_reply(bytes, method, client.sequence) {
            OutcomeModel::Pending => if closed {
                (
                    ClientModel {
                        uuid: client.uuid,
                        sequence: client.sequence,
                        outstanding: None,
                    },
                    OutcomeModel::Finished(Err(RpcErrorModel::Io(IoError::UnexpectedEof))),
                )
            } else {
                (client, OutcomeModel::Pending)
            },
            OutcomeModel::Finished(result) => (
                ClientModel {
                    uuid: uuid_after(client.uuid, method, result),
                    sequence: client.sequence,
                    outstanding: None,
                },
                OutcomeModel::Finished(result),
            ),
        },
    }
}

impl OsqueryClient {
    /// A client that has not registered: the identity is 0 and no call is
    /// outstanding.
    pub fn new() -> (client: OsqueryClient)
        ensures
            client@ == (ClientModel { uuid: 0, sequence: 0, outstanding: None }),
    {
        OsqueryClient { uuid: 0, sequence: 0, outstanding: None }
    }

    /// The identity that the host assigned; 0 before any registration.
    pub fn uuid(&self) -> (uuid: i64)
        ensures
            uuid == self@.uuid,
    {
        self.uuid
    }

    /// The sequence number of the last call.
    pub fn sequence(&self) -> (sequence: i32)
        ensures
            sequence == self@.sequence,
    {
        self.sequence
    }

    /// The method whose reply is awaited, if a call is outstanding.
    pub fn outstanding(&self) -> (method: Option<Method>)
        ensures
            method == self@.outstanding,
    {
        self.outstanding
    }

    /// Starts a call: hands out its frame, under the next sequence number,
    /// and awaits its reply from then on. A request that cannot stand on
    /// the wire starts nothing.
    pub fn start(&mut self, request: &Request) -> (r: Result<Vec<u8>, ProtocolError>)
        ensures
            match r {
                Ok(frame) => {
                    &&& request@.args().well_formed()
                    &&& final(self)@ == started(old(self)@, request@)
                    &&& frame@ == call_frame(final(self)@.sequence, request@)
                },
                Err(e) => {
                    &&& !request@.args().well_formed()
                    &&& e == ProtocolError::TooLong
                    &&& final(self)@ == old(self)@
                },
            },
    {
        let sequence: i32 = if self.sequence == i32::MAX {
            0
        } else {
            self.sequence + 1
        };
        match encode_call(sequence, request) {
            Ok(frame) => {
                self.sequence = sequence;
                self.outstanding = Some(request.method());
                Ok(frame)
            },
            Err(e) => Err(e),
        }
    }

    /// Starts the registration of an extension called `name`, with version
    /// 0.0.1, SDK versions 0.0.0 and no plugins, and hands out the frame to
    /// send. A name too long for the wire starts nothing.
    pub fn register_extension(&mut self, name: &str) -> (r: Result<Vec<u8>, ProtocolError>)
        ensures
            match r {
                Ok(frame) => {
                    &&& registration(name@).args().well_formed()
                    &&& final(self)@ == started(old(self)@, registration(name@))
                    &&& frame@ == call_frame(final(self)@.sequence, registration(name@))
                },
                Err(e) => {
                    &&& !registration(name@).args().well_formed()
                    &&& e == ProtocolError::TooLong
                    &&& final(self)@ == old(self)@
                },
            },
    {
        let request = Request::Register {
            info: ExtensionInfo {
                name: name.to_owned(),
                version: "0.0.1".to_owned(),
                sdk_version: "0.0.0".to_owned(),
                min_sdk_version: "0.0.0".to_owned(),
            },
            registry: ExtensionRegistry::empty(),
        };
        assert(request@ == registration(name@));
        self.start(&request)
    }

    /// Starts a ping and hands out the frame to send.
    pub fn ping(&mut self) -> (frame: Vec<u8>)
        ensures
            final(self)@ == started(old(self)@, RequestModel::Ping),
            frame@ == call_frame(final(self)@.sequence, RequestModel::Ping),
    {
        let request = Request::Ping;
        assert(request@.args().well_formed()) by {
            reveal_with_fuel(Value::well_formed, 2);
        }
        match self.start(&request) {
            Ok(frame) => frame,
            Err(_) => Vec::new(),
        }
    }

    /// Starts the deregistration of this session, under the identity that
    /// the host assigned, and hands out the frame to send.
    pub fn deregister_extension(&mut self) -> (frame: Vec<u8>)
        ensures
            final(self)@ == started(
                old(self)@,
                RequestModel::Deregister { uuid: old(self)@.uuid },
            ),
            frame@ == call_frame(
                final(self)@.sequence,
                RequestModel::Deregister { uuid: old(self)@.uuid },
            ),
    {
        let request = Request::Deregister { uuid: self.uuid };
        assert(request@.args().well_formed()) by {
            reveal_with_fuel(Value::well_formed, 2);
        }
        match self.start(&request) {
            Ok(frame) => frame,
            Err(_) => Vec::new(),
        }
    }

    /// Starts a query and hands out the frame to send. The text is passed
    /// on as it is. A text too long for the wire starts nothing.
    pub fn query(&mut self, query: &str) -> (r: Result<Vec<u8>, ProtocolError>)
        ensures
            match r {
                Ok(frame) => {
                    &&& (RequestModel::Query { sql: query@ }).args().well_formed()
                    &&& final(self)@ == started(old(self)@, RequestModel::Query { sql: query@ })
                    &&& frame@ == call_frame(
                        final(self)@.sequence,
                        RequestModel::Query { sql: query@ },
                    )
                },
                Err(e) => {
                    &&& !(RequestModel::Query { sql: query@ }).args().well_formed()
                    &&& e == ProtocolError::TooLong
                    &&& final(self)@ == old(self)@
                },
            },
    {
        let request = Request::Query { sql: query.to_owned() };
        self.start(&request)
    }

    /// Takes what has come back since the outstanding call was sent: all
    /// the bytes read so far, and whether the connection was closed after
    /// them.
    ///
    /// `Pending` asks for more bytes. `Finished` ends the call, with the
    /// reply or with the error. The reply of a registration sets the
    /// identity, where its status carries one; nothing else changes it. A
    /// status code other than 0 is part of the reply and no error.
    pub fn receive(&mut self, bytes: &[u8], closed: bool) -> (r: Outcome)
        ensures
            (final(self)@, r@) == received(old(self)@, bytes@, closed),
    {
        let method: Method = match self.outstanding {
            None => {
                return Outcome::Finished(
                    Err(RpcError::Protocol(ProtocolError::NoCallOutstanding)),
                );
            },
            Some(method) => method,
        };
        match decode_reply(bytes, method, self.sequence) {
            Outcome::Pending => {
                if closed {
                    self.outstanding = None;
                    Outcome::Finished(Err(RpcError::Io(IoError::UnexpectedEof)))
                } else {
                    Outcome::Pending
                }
            },
            Outcome::Finished(result) => {
                self.outstanding = None;
                if method == Method::RegisterExtension {
                    match &result {
                        Ok(Reply::Status(status)) => match status.uuid {
                            Some(uuid) => {
                                self.uuid = uuid;
                            },
                            None => {},
                        },
                        _ => {},
                    }
                }
                Outcome::Finished(result)
            },
        }
    }
}

} // verus!
