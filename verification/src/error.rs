//! What can go wrong in a call.

use crate::reply::{ApplicationException, ExceptionModel};
use vstd::prelude::*;

verus! {

/// A frame that cannot be understood, or that is not the one awaited.
#[derive(Clone, Copy, Debug, PartialEq, Eq, Structural)]
pub enum ProtocolError {
    /// The message does not start with the version marker.
    BadVersion,
    /// The byte for the message kind names no kind.
    UnknownMessageKind,
    /// A type tag names no type.
    UnknownType,
    /// A length or a count is negative.
    NegativeLength,
    /// A string is not UTF-8.
    InvalidUtf8,
    /// A known field carries a value of another type than its schema says.
    TypeMismatch,
    /// A field that the schema requires is absent.
    MissingField,
    /// A call or a one-way message came where a reply was awaited.
    UnexpectedMessageKind,
    /// The reply carries another sequence number than the call.
    SequenceMismatch,
    /// The reply names another method than the call.
    WrongMethod,
    /// Bytes came although no call is outstanding.
    NoCallOutstanding,
    /// A text or a collection of a request is too long for the four-byte
    /// signed count of the wire.
    TooLong,
}

/// A failure of the transport in the middle of a call.
#[derive(Clone, Copy, Debug, PartialEq, Eq, Structural)]
pub enum IoError {
    /// The peer closed the connection before the frame was complete.
    UnexpectedEof,
    /// The connection was reset or the pipe broke.
    ConnectionLost,
    /// Any other failure that the transport reported.
    Other,
}

/// Why a call gave no reply.
#[derive(Clone, Debug, PartialEq, Eq)]
pub enum RpcError {
    /// The transport failed in the middle of the call.
    Io(IoError),
    /// The frame that came is malformed or is not the one awaited.
    Protocol(ProtocolError),
    /// The host answered with an exception in place of a reply.
    ApplicationException(ApplicationException),
}

/// The model of an `RpcError`.
pub enum RpcErrorModel {
    Io(IoError),
    Protocol(ProtocolError),
    ApplicationException(ExceptionModel),
}

impl View for RpcError {
    type V = RpcErrorModel;

    open spec fn view(&self) -> RpcErrorModel {
        match self {
            RpcError::Io(e) => RpcErrorModel::Io(*e),
            RpcError::Protocol(e) => RpcErrorModel::Protocol(*e),
            RpcError::ApplicationException(x) => RpcErrorModel::ApplicationException(x@),
        }
    }
}

} // verus!
