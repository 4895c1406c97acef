//! Big-endian scalars and length-prefixed byte strings, as Thrift's binary
//! protocol lays them out, and the calls into the `thrift` crate that write
//! and read them.
//!
//! The functions at the end of this file are not verified: each makes one
//! call into `thrift` (or `std`), and its contract says what that call is
//! documented to do. The writers append to a vector, where no write fails,
//! so they drop the result of the call. The readers read from a slice, where
//! the only failure is the end of the input.

use thrift::protocol::{TBinaryInputProtocol, TBinaryOutputProtocol};
use thrift::protocol::{TInputProtocol, TOutputProtocol};
use thrift::TConfiguration;
use vstd::prelude::*;
use vstd::utf8::{decode_utf8, valid_utf8};

verus! {

/// 256 to the power `n`: the number of values that `n` bytes can hold.
pub open spec fn radix(n: nat) -> int
    decreases n,
{
    if n == 0 {
        1
    } else {
        256 * radix((n - 1) as nat)
    }
}

/// The two's-complement reading of the signed `v` as an unsigned number of
/// `n` bytes.
pub open spec fn unsigned(v: int, n: nat) -> int {
    if v < 0 {
        v + radix(n)
    } else {
        v
    }
}

/// The signed number that the unsigned `u` of `n` bytes stands for.
pub open spec fn signed(u: int, n: nat) -> int {
    if 2 * u >= radix(n) {
        u - radix(n)
    } else {
        u
    }
}

/// The `n` low bytes of `u`, most significant first.
pub open spec fn be_bytes(u: int, n: nat) -> Seq<u8>
    decreases n,
{
    if n == 0 {
        Seq::empty()
    } else {
        be_bytes(u / 256, (n - 1) as nat).push((u % 256) as u8)
    }
}

/// The unsigned number whose big-endian bytes are the `n` bytes of `bytes`
/// from `at` on.
pub open spec fn be_value(bytes: Seq<u8>, at: int, n: nat) -> int
    decreases n,
{
    if n == 0 {
        0
    } else {
        be_value(bytes, at, (n - 1) as nat) * 256 + bytes[at + n - 1]
    }
}

/// A byte string on the wire: its length in four bytes, then the bytes.
pub open spec fn binary_wire(content: Seq<u8>) -> Seq<u8> {
    be_bytes(content.len() as int, 4) + content
}

/// The length that the four bytes at `at` announce, as a signed number.
pub open spec fn announced_len(bytes: Seq<u8>, at: int) -> int {
    signed(be_value(bytes, at, 4), 4)
}

/// The values of `radix` for the widths that occur on the wire.
pub proof fn lemma_radix()
    ensures
        radix(1) == 0x100,
        radix(2) == 0x1_0000,
        radix(4) == 0x1_0000_0000,
        radix(8) == 0x1_0000_0000_0000_0000,
{
    reveal_with_fuel(radix, 9);
}

/// `be_bytes(u, n)` has `n` bytes.
pub proof fn lemma_be_bytes_len(u: int, n: nat)
    ensures
        be_bytes(u, n).len() == n,
    decreases n,
{
    if n > 0 {
        lemma_be_bytes_len(u / 256, (n - 1) as nat);
    }
}

/// A number read from `n` bytes lies below `radix(n)`.
pub proof fn lemma_be_value_range(bytes: Seq<u8>, at: int, n: nat)
    ensures
        0 <= be_value(bytes, at, n) < radix(n),
    decreases n,
{
    if n > 0 {
        lemma_be_value_range(bytes, at, (n - 1) as nat);
    }
}

/// Reading back the bytes of a number gives the number.
pub proof fn lemma_be_value_of_bytes(bytes: Seq<u8>, at: int, u: int, n: nat)
    requires
        0 <= u < radix(n),
        0 <= at,
        at + n <= bytes.len(),
        bytes.subrange(at, at + n) == be_bytes(u, n),
    ensures
        be_value(bytes, at, n) == u,
    decreases n,
{
    if n > 0 {
        let m = (n - 1) as nat;
        lemma_be_bytes_len(u / 256, m);
        assert(bytes.subrange(at, at + m) == be_bytes(u / 256, m)) by {
            assert(bytes.subrange(at, at + m) =~= bytes.subrange(at, at + n).drop_last());
            assert(be_bytes(u, n).drop_last() =~= be_bytes(u / 256, m));
        }
        assert(bytes[at + m] == bytes.subrange(at, at + n)[m as int]);
        lemma_be_value_of_bytes(bytes, at, u / 256, m);
    }
}

/// A signed number survives the passage through its unsigned reading.
pub proof fn lemma_signed_unsigned(v: int, n: nat)
    requires
        -radix(n) <= 2 * v < radix(n),
    ensures
        0 <= unsigned(v, n) < radix(n),
        signed(unsigned(v, n), n) == v,
{
}

/// Appends one byte with `TOutputProtocol::write_byte`, which hands the byte
/// to the transport as it is.
#[verifier::external_body]
pub(crate) fn put_byte(out: &mut Vec<u8>, b: u8)
    ensures
        final(out)@ == old(out)@.push(b),
{
    let _ = TBinaryOutputProtocol::new(out, true).write_byte(b);
}

/// Appends a boolean with `TOutputProtocol::write_bool`: one byte, 1 for
/// true and 0 for false.
#[verifier::external_body]
pub(crate) fn put_bool(out: &mut Vec<u8>, b: bool)
    ensures
        final(out)@ == old(out)@.push(if b { 1u8 } else { 0u8 }),
{
    let _ = TBinaryOutputProtocol::new(out, true).write_bool(b);
}

/// Appends a signed byte with `TOutputProtocol::write_i8`: the byte in two's
/// complement.
#[verifier::external_body]
pub(crate) fn put_i8(out: &mut Vec<u8>, v: i8)
    ensures
        final(out)@ == old(out)@.push((unsigned(v as int, 1) as u8)),
{
    let _ = TBinaryOutputProtocol::new(out, true).write_i8(v);
}

/// Appends a 16-bit integer with `TOutputProtocol::write_i16`: two bytes,
/// two's complement, most significant first.
#[verifier::external_body]
pub(crate) fn put_i16(out: &mut Vec<u8>, v: i16)
    ensures
        final(out)@ == old(out)@ + be_bytes(unsigned(v as int, 2), 2),
{
    let _ = TBinaryOutputProtocol::new(out, true).write_i16(v);
}

/// Appends a 32-bit integer with `TOutputProtocol::write_i32`: four bytes,
/// two's complement, most significant first.
#[verifier::external_body]
pub(crate) fn put_i32(out: &mut Vec<u8>, v: i32)
    ensures
        final(out)@ == old(out)@ + be_bytes(unsigned(v as int, 4), 4),
{
    let _ = TBinaryOutputProtocol::new(out, true).write_i32(v);
}

/// Appends a 64-bit integer with `TOutputProtocol::write_i64`: eight bytes,
/// two's complement, most significant first.
#[verifier::external_body]
pub(crate) fn put_i64(out: &mut Vec<u8>, v: i64)
    ensures
        final(out)@ == old(out)@ + be_bytes(unsigned(v as int, 8), 8),
{
    let _ = TBinaryOutputProtocol::new(out, true).write_i64(v);
}

/// Appends a byte string with `TOutputProtocol::write_bytes`: the length as
/// a 32-bit integer, then the bytes. The length must fit the prefix.
#[verifier::external_body]
pub(crate) fn put_binary(out: &mut Vec<u8>, content: &[u8])
    requires
        content@.len() <= i32::MAX,
    ensures
        final(out)@ == old(out)@ + binary_wire(content@),
{
    let _ = TBinaryOutputProtocol::new(out, true).write_bytes(content);
}

/// Reads the byte at `pos` with `TInputProtocol::read_byte`, which fails
/// only when no byte is left.
#[verifier::external_body]
pub(crate) fn take_byte(bytes: &[u8], pos: usize) -> (r: Option<u8>)
    requires
        pos <= bytes@.len(),
    ensures
        pos < bytes@.len() ==> r == Some(bytes@[pos as int]),
        pos >= bytes@.len() ==> r is None,
{
    TBinaryInputProtocol::new(&bytes[pos..], true).read_byte().ok()
}

/// Reads a boolean at `pos` with `TInputProtocol::read_bool`: one byte,
/// false when it is 0 and true otherwise; it fails only when no byte is left.
#[verifier::external_body]
pub(crate) fn take_bool(bytes: &[u8], pos: usize) -> (r: Option<bool>)
    requires
        pos <= bytes@.len(),
    ensures
        pos < bytes@.len() ==> r == Some(bytes@[pos as int] != 0),
        pos >= bytes@.len() ==> r is None,
{
    TBinaryInputProtocol::new(&bytes[pos..], true).read_bool().ok()
}

/// Reads a signed byte at `pos` with `TInputProtocol::read_i8`; it fails
/// only when no byte is left.
#[verifier::external_body]
pub(crate) fn take_i8(bytes: &[u8], pos: usize) -> (r: Option<i8>)
    requires
        pos <= bytes@.len(),
    ensures
        pos < bytes@.len() ==> r is Some && r.unwrap() as int == signed(
            be_value(bytes@, pos as int, 1),
            1,
        ),
        pos >= bytes@.len() ==> r is None,
{
    TBinaryInputProtocol::new(&bytes[pos..], true).read_i8().ok()
}

/// Reads a 16-bit integer at `pos` with `TInputProtocol::read_i16`: two
/// bytes, most significant first; it fails only when fewer are left.
#[verifier::external_body]
pub(crate) fn take_i16(bytes: &[u8], pos: usize) -> (r: Option<i16>)
    requires
        pos <= bytes@.len(),
    ensures
        pos + 2 <= bytes@.len() ==> r is Some && r.unwrap() as int == signed(
            be_value(bytes@, pos as int, 2),
            2,
        ),
        pos + 2 > bytes@.len() ==> r is None,
{
    TBinaryInputProtocol::new(&bytes[pos..], true).read_i16().ok()
}

/// Reads a 32-bit integer at `pos` with `TInputProtocol::read_i32`: four
/// bytes, most significant first; it fails only when fewer are left.
#[verifier::external_body]
pub(crate) fn take_i32(bytes: &[u8], pos: usize) -> (r: Option<i32>)
    requires
        pos <= bytes@.len(),
    ensures
        pos + 4 <= bytes@.len() ==> r is Some && r.unwrap() as int == signed(
            be_value(bytes@, pos as int, 4),
            4,
        ),
        pos + 4 > bytes@.len() ==> r is None,
{
    TBinaryInputProtocol::new(&bytes[pos..], true).read_i32().ok()
}

/// Reads a 64-bit integer at `pos` with `TInputProtocol::read_i64`: eight
/// bytes, most significant first; it fails only when fewer are left.
#[verifier::external_body]
pub(crate) fn take_i64(bytes: &[u8], pos: usize) -> (r: Option<i64>)
    requires
        pos <= bytes@.len(),
    ensures
        pos + 8 <= bytes@.len() ==> r is Some && r.unwrap() as int == signed(
            be_value(bytes@, pos as int, 8),
            8,
        ),
        pos + 8 > bytes@.len() ==> r is None,
{
    TBinaryInputProtocol::new(&bytes[pos..], true).read_i64().ok()
}

/// Reads a byte string at `pos` with `TInputProtocol::read_bytes`, under a
/// configuration without size limits: the length in four bytes, then that
/// many bytes. The caller has seen that the length is not negative and that
/// the bytes are there, so the call allocates no more than the input holds.
#[verifier::external_body]
pub(crate) fn take_binary(bytes: &[u8], pos: usize) -> (r: Option<Vec<u8>>)
    requires
        pos + 4 <= bytes@.len(),
        0 <= announced_len(bytes@, pos as int),
        pos + 4 + announced_len(bytes@, pos as int) <= bytes@.len(),
    ensures
        r is Some,
        r.unwrap()@ == bytes@.subrange(pos + 4, pos + 4 + announced_len(bytes@, pos as int)),
{
    TBinaryInputProtocol::with_config(&bytes[pos..], true, TConfiguration::no_limits())
        .read_bytes()
        .ok()
}

/// Turns bytes into text with `String::from_utf8`, which succeeds exactly
/// on valid UTF-8 and then holds the characters that the bytes encode.
#[verifier::external_body]
pub(crate) fn text_from_utf8(raw: Vec<u8>) -> (r: Option<String>)
    ensures
        valid_utf8(raw@) ==> r is Some && r.unwrap()@ == decode_utf8(raw@),
        !valid_utf8(raw@) ==> r is None,
{
    String::from_utf8(raw).ok()
}

} // verus!
