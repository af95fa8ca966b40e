//! The bytes on the wire: length-prefixed frames and the header that opens
//! each physical connection. All integers are big-endian.

use vstd::prelude::*;
use vstd::slice::{slice_subrange, slice_to_vec};
use vstd::arithmetic::div_mod::lemma_fundamental_div_mod;
use byteorder::{BigEndian, ByteOrder};
use crate::error::TransportError;

verus! {

/// The number that the bytes `b` spell, most significant first.
pub open spec fn be_value(b: Seq<u8>) -> nat
    decreases b.len(),
{
    if b.len() == 0 {
        0
    } else {
        be_value(b.drop_last()) * 256 + b.last() as nat
    }
}

/// The `k` bytes that spell `n`, most significant first.
pub open spec fn be_bytes(n: nat, k: nat) -> Seq<u8>
    decreases k,
{
    if k == 0 {
        Seq::empty()
    } else {
        be_bytes(n / 256, (k - 1) as nat).push((n % 256) as u8)
    }
}

pub open spec fn pow256(k: nat) -> nat
    decreases k,
{
    if k == 0 {
        1
    } else {
        256 * pow256((k - 1) as nat)
    }
}

/// Reading back the `k` bytes of a number below `256^k` gives the number.
pub proof fn lemma_be_round_trip(n: nat, k: nat)
    requires
        n < pow256(k),
    ensures
        be_bytes(n, k).len() == k,
        be_value(be_bytes(n, k)) == n,
    decreases k,
{
    if k > 0 {
        let p = pow256((k - 1) as nat);
        lemma_fundamental_div_mod(n as int, 256);
        assert(n / 256 < p) by (nonlinear_arith)
            requires
                n < 256 * p,
                n == 256 * (n / 256) + n % 256,
                n % 256 >= 0,
        ;
        lemma_be_round_trip(n / 256, (k - 1) as nat);
        assert(be_bytes(n, k).drop_last() =~= be_bytes(n / 256, (k - 1) as nat));
    }
}

proof fn lemma_pow256_values()
    ensures
        pow256(4) == 0x1_0000_0000,
        pow256(8) == 0x1_0000_0000_0000_0000,
{
    assert(pow256(0) == 1);
    assert(pow256(1) == 256);
    assert(pow256(2) == 0x1_0000);
    assert(pow256(3) == 0x100_0000);
    assert(pow256(4) == 0x1_0000_0000);
    assert(pow256(5) == 0x100_0000_0000);
    assert(pow256(6) == 0x1_0000_0000_0000);
    assert(pow256(7) == 0x100_0000_0000_0000);
    assert(pow256(8) == 0x1_0000_0000_0000_0000);
}

/// Relies on byteorder's `BigEndian::write_u32`: the four bytes of `n`, most
/// significant first.
#[verifier::external_body]
fn be_u32(n: u32) -> (r: Vec<u8>)
    ensures
        r@ == be_bytes(n as nat, 4),
{
    let mut b = vec![0u8; 4];
    BigEndian::write_u32(&mut b, n);
    b
}

/// Relies on byteorder's `BigEndian::write_u64`: the eight bytes of `n`, most
/// significant first.
#[verifier::external_body]
fn be_u64(n: u64) -> (r: Vec<u8>)
    ensures
        r@ == be_bytes(n as nat, 8),
{
    let mut b = vec![0u8; 8];
    BigEndian::write_u64(&mut b, n);
    b
}

/// Relies on byteorder's `BigEndian::read_u32`: the number spelled by the
/// first four bytes of `b`. It panics on fewer than four.
#[verifier::external_body]
fn read_be_u32(b: &[u8]) -> (r: u32)
    requires
        b@.len() >= 4,
    ensures
        r as nat == be_value(b@.take(4)),
{
    BigEndian::read_u32(b)
}

/// Relies on byteorder's `BigEndian::read_u64`: the number spelled by the
/// first eight bytes of `b`. It panics on fewer than eight.
#[verifier::external_body]
fn read_be_u64(b: &[u8]) -> (r: u64)
    requires
        b@.len() >= 8,
    ensures
        r as nat == be_value(b@.take(8)),
{
    BigEndian::read_u64(b)
}

/// The bytes that carry `payload`: its length in four bytes, then the payload.
pub open spec fn frame_of(payload: Seq<u8>) -> Seq<u8> {
    be_bytes(payload.len(), 4) + payload
}

/// The payload of the frame that `b` starts with, and the number of bytes that
/// frame takes; `None` where `b` holds no whole frame.
pub open spec fn parse_frame(b: Seq<u8>) -> Option<(Seq<u8>, nat)> {
    if b.len() < 4 {
        None
    } else {
        let n = be_value(b.take(4));
        if b.len() < 4 + n {
            None
        } else {
            Some((b.subrange(4, 4 + n as int), 4 + n))
        }
    }
}

/// Frames `payload` for the wire.
pub fn encode_frame(payload: &[u8]) -> (r: Vec<u8>)
    requires
        payload@.len() <= u32::MAX,
    ensures
        r@ == frame_of(payload@),
{
    let mut r = be_u32(payload.len() as u32);
    let mut body = slice_to_vec(payload);
    r.append(&mut body);
    r
}

/// The payload length announced by a frame's four-byte prefix.
pub fn frame_length(prefix: &[u8]) -> (r: Result<usize, TransportError>)
    ensures
        prefix@.len() >= 4 ==> r == Ok::<usize, TransportError>(be_value(prefix@.take(4)) as usize),
        prefix@.len() < 4 ==> r == Err::<usize, TransportError>(TransportError::ShortRead),
{
    if prefix.len() < 4 {
        Err(TransportError::ShortRead)
    } else {
        Ok(read_be_u32(prefix) as usize)
    }
}

/// Whether `r` is what decoding the frame at the start of `b` gives.
pub open spec fn decodes_frame(b: Seq<u8>, r: Result<(Vec<u8>, usize), TransportError>) -> bool {
    match parse_frame(b) {
        Some((p, used)) => r is Ok && r->Ok_0.0@ == p && r->Ok_0.1 == used,
        None => r == Err::<(Vec<u8>, usize), TransportError>(TransportError::ShortRead),
    }
}

/// Takes the frame that `bytes` starts with: its payload, and how many bytes
/// it took. `ShortRead` where no whole frame is there.
pub fn decode_frame(bytes: &[u8]) -> (r: Result<(Vec<u8>, usize), TransportError>)
    ensures
        decodes_frame(bytes@, r),
{
    if bytes.len() < 4 {
        return Err(TransportError::ShortRead);
    }
    let n = read_be_u32(bytes) as usize;
    if bytes.len() - 4 < n {
        return Err(TransportError::ShortRead);
    }
    let payload = slice_to_vec(slice_subrange(bytes, 4, 4 + n));
    Ok((payload, 4 + n))
}

/// Whatever follows it, a frame reads back as the payload it was made from.
pub proof fn lemma_frame_round_trip(payload: Seq<u8>, rest: Seq<u8>)
    requires
        payload.len() <= u32::MAX,
    ensures
        parse_frame(frame_of(payload) + rest) == Some((payload, 4 + payload.len())),
{
    lemma_pow256_values();
    lemma_be_round_trip(payload.len(), 4);
    let b = frame_of(payload) + rest;
    assert(b.take(4) =~= be_bytes(payload.len(), 4));
    assert(b.subrange(4, 4 + payload.len() as int) =~= payload);
}

/// Which way a secure connection carries data; its tag is the header's last byte.
#[derive(Debug, Clone, Copy, PartialEq, Eq, Structural)]
pub enum StreamRole {
    /// Tag 0: the lower party id sends, the higher one receives.
    LowToHigh,
    /// Tag 1: the higher party id sends, the lower one receives.
    HighToLow,
}

/// The header that the initiating party writes first on a new connection.
#[derive(Debug, Clone, Copy, PartialEq, Eq, Structural)]
pub struct Handshake {
    /// The lane the connection belongs to.
    pub lane: u64,
    /// The party id of the initiator.
    pub origin: u64,
    /// The direction, on secure transports only.
    pub role: Option<StreamRole>,
}

pub open spec fn role_tag(r: StreamRole) -> u8 {
    match r {
        StreamRole::LowToHigh => 0,
        StreamRole::HighToLow => 1,
    }
}

pub open spec fn handshake_bytes(h: Handshake) -> Seq<u8> {
    be_bytes(h.lane as nat, 8) + be_bytes(h.origin as nat, 8) + match h.role {
        Some(r) => seq![role_tag(r)],
        None => Seq::empty(),
    }
}

/// What reading a header from `b` gives; a header with a role tag where
/// `with_role` holds.
pub open spec fn parse_handshake(b: Seq<u8>, with_role: bool) -> Result<Handshake, TransportError> {
    if b.len() < (if with_role { 17int } else { 16int }) {
        Err(TransportError::ShortRead)
    } else {
        let lane = be_value(b.take(8)) as u64;
        let origin = be_value(b.subrange(8, 16)) as u64;
        if !with_role {
            Ok(Handshake { lane, origin, role: None })
        } else if b[16] == 0 {
            Ok(Handshake { lane, origin, role: Some(StreamRole::LowToHigh) })
        } else if b[16] == 1 {
            Ok(Handshake { lane, origin, role: Some(StreamRole::HighToLow) })
        } else {
            Err(TransportError::HandshakeFailed)
        }
    }
}

/// The bytes of a connection header.
pub fn encode_handshake(h: &Handshake) -> (r: Vec<u8>)
    ensures
        r@ == handshake_bytes(*h),
{
    let mut r = be_u64(h.lane);
    let mut origin = be_u64(h.origin);
    r.append(&mut origin);
    match h.role {
        Some(StreamRole::LowToHigh) => r.push(0u8),
        Some(StreamRole::HighToLow) => r.push(1u8),
        None => {},
    }
    proof {
        assert(r@ =~= handshake_bytes(*h));
    }
    r
}

/// Reads a connection header from the start of `bytes`.
pub fn decode_handshake(bytes: &[u8], with_role: bool) -> (r: Result<Handshake, TransportError>)
    ensures
        r == parse_handshake(bytes@, with_role),
{
    let need: usize = if with_role { 17 } else { 16 };
    if bytes.len() < need {
        return Err(TransportError::ShortRead);
    }
    let lane = read_be_u64(bytes);
    let rest = slice_subrange(bytes, 8, bytes.len());
    let origin = read_be_u64(rest);
    assert(rest@.take(8) =~= bytes@.subrange(8, 16));
    if !with_role {
        Ok(Handshake { lane, origin, role: None })
    } else if bytes[16] == 0 {
        Ok(Handshake { lane, origin, role: Some(StreamRole::LowToHigh) })
    } else if bytes[16] == 1 {
        Ok(Handshake { lane, origin, role: Some(StreamRole::HighToLow) })
    } else {
        Err(TransportError::HandshakeFailed)
    }
}

/// A connection header reads back as the header it was written from.
pub proof fn lemma_handshake_round_trip(h: Handshake)
    ensures
        parse_handshake(handshake_bytes(h), h.role is Some) == Ok::<Handshake, TransportError>(h),
{
    lemma_pow256_values();
    lemma_be_round_trip(h.lane as nat, 8);
    lemma_be_round_trip(h.origin as nat, 8);
    let b = handshake_bytes(h);
    assert(b.take(8) =~= be_bytes(h.lane as nat, 8));
    assert(b.subrange(8, 16) =~= be_bytes(h.origin as nat, 8));
}

} // verus!
