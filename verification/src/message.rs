//! The envelope of a message: version marker, kind, method name and
//! sequence number.

use crate::decode::{decode_binary, parse_binary, scalar_at, Decoded, Parsed};
use crate::error::ProtocolError;
use crate::primitive::{
    be_bytes, binary_wire, lemma_be_bytes_len, lemma_radix, take_i32, text_from_utf8, unsigned,
};
use crate::roundtrip::{holds, lemma_holds_split, lemma_parse_binary, lemma_scalar_at};
use thrift::protocol::{
    TBinaryOutputProtocol, TMessageIdentifier, TMessageType, TOutputProtocol,
};
use vstd::prelude::*;
use vstd::utf8::{
    decode_utf8, encode_utf8, encode_utf8_decode_utf8, encode_utf8_valid_utf8, valid_utf8,
};

verus! {

/// The kinds of message.
#[derive(Clone, Copy, Debug, PartialEq, Eq, Structural)]
pub enum MessageKind {
    Call,
    Reply,
    Exception,
    OneWay,
}

impl MessageKind {
    /// The byte that stands for this kind in the header.
    pub open spec fn code(self) -> u8 {
        match self {
            MessageKind::Call => 1,
            MessageKind::Reply => 2,
            MessageKind::Exception => 3,
            MessageKind::OneWay => 4,
        }
    }

    /// The kind that the byte `code` stands for, if it stands for one.
    pub open spec fn of_code(code: u8) -> Option<MessageKind> {
        if code == 1 {
            Some(MessageKind::Call)
        } else if code == 2 {
            Some(MessageKind::Reply)
        } else if code == 3 {
            Some(MessageKind::Exception)
        } else if code == 4 {
            Some(MessageKind::OneWay)
        } else {
            None
        }
    }

    /// The kind that a byte of the header stands for.
    pub fn from_code(code: u8) -> (kind: Option<MessageKind>)
        ensures
            kind == MessageKind::of_code(code),
    {
        match code {
            1 => Some(MessageKind::Call),
            2 => Some(MessageKind::Reply),
            3 => Some(MessageKind::Exception),
            4 => Some(MessageKind::OneWay),
            _ => None,
        }
    }
}

/// The model of a header.
pub struct HeaderModel {
    pub kind: MessageKind,
    pub name: Seq<char>,
    pub sequence: i32,
}

/// The header of a message.
#[derive(Clone, Debug, PartialEq, Eq)]
pub struct MessageHeader {
    pub kind: MessageKind,
    /// The name of the method that is called or answered.
    pub name: String,
    /// The number by which a reply is matched to its call.
    pub sequence: i32,
}

impl View for MessageHeader {
    type V = HeaderModel;

    open spec fn view(&self) -> HeaderModel {
        HeaderModel { kind: self.kind, name: self.name@, sequence: self.sequence }
    }
}

/// The two bytes of the version marker, the byte that the strict form
/// leaves empty, and the kind.
pub open spec fn version_and_kind(kind: MessageKind) -> Seq<u8> {
    seq![0x80u8, 0x01u8, 0x00u8, kind.code()]
}

/// A header on the wire: marker and kind, the name as a byte string, the
/// sequence number in four bytes.
pub open spec fn header_wire(kind: MessageKind, name: Seq<char>, sequence: i32) -> Seq<u8> {
    version_and_kind(kind) + binary_wire(encode_utf8(name)) + be_bytes(
        unsigned(sequence as int, 4),
        4,
    )
}

/// The header that starts at `pos`.
pub open spec fn parse_header(bytes: Seq<u8>, pos: int) -> Parsed<HeaderModel> {
    if pos < 0 || pos + 4 > bytes.len() {
        Parsed::Incomplete
    } else if bytes[pos] != 0x80 || bytes[pos + 1] != 0x01 {
        Parsed::Malformed(ProtocolError::BadVersion)
    } else if MessageKind::of_code(bytes[pos + 3]) is None {
        Parsed::Malformed(ProtocolError::UnknownMessageKind)
    } else {
        match parse_binary(bytes, pos + 4) {
            Parsed::Complete(raw, after_name) => if !valid_utf8(raw) {
                Parsed::Malformed(ProtocolError::InvalidUtf8)
            } else if after_name + 4 > bytes.len() {
                Parsed::Incomplete
            } else {
                Parsed::Complete(
                    HeaderModel {
                        kind: MessageKind::of_code(bytes[pos + 3]).unwrap(),
                        name: decode_utf8(raw),
                        sequence: scalar_at(bytes, after_name, 4) as i32,
                    },
                    after_name + 4,
                )
            },
            Parsed::Incomplete => Parsed::Incomplete,
            Parsed::Malformed(e) => Parsed::Malformed(e),
        }
    }
}

/// Appends a header with `TOutputProtocol::write_message_begin` of the
/// strict binary protocol: the 32-bit word `0x80010000` with the kind in its
/// low byte, the name as a length-prefixed string, and the sequence number.
/// The write goes into a vector and cannot fail, so its result is dropped.
#[verifier::external_body]
pub(crate) fn put_message_begin(out: &mut Vec<u8>, kind: MessageKind, name: &str, sequence: i32)
    requires
        encode_utf8(name@).len() <= i32::MAX,
    ensures
        final(out)@ == old(out)@ + header_wire(kind, name@, sequence),
{
    let message_type = match kind {
        MessageKind::Call => TMessageType::Call,
        MessageKind::Reply => TMessageType::Reply,
        MessageKind::Exception => TMessageType::Exception,
        MessageKind::OneWay => TMessageType::OneWay,
    };
    let identifier = TMessageIdentifier::new(name, message_type, sequence);
    let _ = TBinaryOutputProtocol::new(out, true).write_message_begin(&identifier);
}

/// Reads the header that starts at `pos`.
pub fn decode_header(bytes: &[u8], pos: usize) -> (r: Decoded<MessageHeader>)
    ensures
        r.parsed_as(|h: MessageHeader| h@) == parse_header(bytes@, pos as int),
        r matches Decoded::Complete { next, .. } ==> pos + 12 <= next <= bytes@.len(),
{
    if pos > bytes.len() || bytes.len() - pos < 4 {
        return Decoded::Incomplete;
    }
    if bytes[pos] != 0x80 || bytes[pos + 1] != 0x01 {
        return Decoded::Malformed(ProtocolError::BadVersion);
    }
    let kind: MessageKind = match MessageKind::from_code(bytes[pos + 3]) {
        None => {
            return Decoded::Malformed(ProtocolError::UnknownMessageKind);
        },
        Some(kind) => kind,
    };
    match decode_binary(bytes, pos + 4) {
        Decoded::Complete { value: raw, next: after_name } => {
            let name: String = match text_from_utf8(raw) {
                None => {
                    return Decoded::Malformed(ProtocolError::InvalidUtf8);
                },
                Some(name) => name,
            };
            match take_i32(bytes, after_name) {
                None => Decoded::Incomplete,
                Some(sequence) => Decoded::Complete {
                    value: MessageHeader { kind, name, sequence },
                    next: after_name + 4,
                },
            }
        },
        Decoded::Incomplete => Decoded::Incomplete,
        Decoded::Malformed(e) => Decoded::Malformed(e),
    }
}

/// Sequence integrity: a buffer that holds a header at `pos` is read there
/// as that header, with the kind, the name and the sequence number that
/// were written.
pub proof fn lemma_parse_header(
    kind: MessageKind,
    name: Seq<char>,
    sequence: i32,
    bytes: Seq<u8>,
    pos: int,
)
    requires
        encode_utf8(name).len() <= i32::MAX,
        holds(bytes, pos, header_wire(kind, name, sequence)),
    ensures
        parse_header(bytes, pos) == Parsed::Complete(
            HeaderModel { kind, name, sequence },
            pos + header_wire(kind, name, sequence).len(),
        ),
        header_wire(kind, name, sequence).len() == 12 + encode_utf8(name).len(),
{
    let raw = encode_utf8(name);
    let number = be_bytes(unsigned(sequence as int, 4), 4);
    lemma_radix();
    lemma_be_bytes_len(unsigned(sequence as int, 4), 4);
    lemma_be_bytes_len(raw.len() as int, 4);
    lemma_holds_split(bytes, pos, version_and_kind(kind) + binary_wire(raw), number);
    lemma_holds_split(bytes, pos, version_and_kind(kind), binary_wire(raw));
    let marker = bytes.subrange(pos, pos + 4);
    assert(bytes[pos] == marker[0] && bytes[pos + 1] == marker[1] && bytes[pos + 3] == marker[3]);
    lemma_parse_binary(bytes, pos + 4, raw);
    encode_utf8_valid_utf8(name);
    encode_utf8_decode_utf8(name);
    lemma_scalar_at(bytes, pos + 8 + raw.len(), sequence as int, 4);
}

} // verus!
