//! The wire format: one 8-byte payload per datagram, holding the
//! millisecond timestamp as an unsigned 64-bit big-endian integer.

use vstd::prelude::*;

verus! {

/// The eight bytes of `v` in big-endian (network) order.
pub open spec fn be_bytes_of(v: u64) -> Seq<u8> {
    seq![
        ((v >> 56) & 0xff) as u8,
        ((v >> 48) & 0xff) as u8,
        ((v >> 40) & 0xff) as u8,
        ((v >> 32) & 0xff) as u8,
        ((v >> 24) & 0xff) as u8,
        ((v >> 16) & 0xff) as u8,
        ((v >> 8) & 0xff) as u8,
        (v & 0xff) as u8,
    ]
}

/// The unsigned 64-bit value of eight big-endian bytes.
pub open spec fn be_val(b: Seq<u8>) -> u64
    recommends
        b.len() == 8,
{
    ((b[0] as u64) << 56) | ((b[1] as u64) << 48) | ((b[2] as u64) << 40) | ((b[3] as u64) << 32)
        | ((b[4] as u64) << 24) | ((b[5] as u64) << 16) | ((b[6] as u64) << 8) | (b[7] as u64)
}

/// Serializes a millisecond timestamp as exactly 8 bytes, big-endian.
pub fn encode_ts_ms(v: u64) -> (r: [u8; 8])
    ensures
        r@ == be_bytes_of(v),
{
    proof {
        assert((v >> 56) & 0xff < 256 && (v >> 48) & 0xff < 256 && (v >> 40) & 0xff < 256 && (v
            >> 32) & 0xff < 256 && (v >> 24) & 0xff < 256 && (v >> 16) & 0xff < 256 && (v >> 8)
            & 0xff < 256 && v & 0xff < 256) by (bit_vector);
    }
    let r: [u8; 8] = [
        ((v >> 56) & 0xff) as u8,
        ((v >> 48) & 0xff) as u8,
        ((v >> 40) & 0xff) as u8,
        ((v >> 32) & 0xff) as u8,
        ((v >> 24) & 0xff) as u8,
        ((v >> 16) & 0xff) as u8,
        ((v >> 8) & 0xff) as u8,
        (v & 0xff) as u8,
    ];
    proof {
        assert(r@ =~= be_bytes_of(v));
    }
    r
}

/// Reads back the millisecond timestamp from an 8-byte payload.
pub fn decode_ts_ms(b: &[u8; 8]) -> (v: u64)
    ensures
        v == be_val(b@),
{
    ((b[0] as u64) << 56) | ((b[1] as u64) << 48) | ((b[2] as u64) << 40) | ((b[3] as u64) << 32)
        | ((b[4] as u64) << 24) | ((b[5] as u64) << 16) | ((b[6] as u64) << 8) | (b[7] as u64)
}

/// Round trip: decoding the encoding of any timestamp gives the
/// timestamp back.
pub proof fn lemma_ts_round_trip(v: u64)
    ensures
        be_val(be_bytes_of(v)) == v,
{
    let b = be_bytes_of(v);
    assert((((((v >> 56) & 0xff) as u8) as u64) << 56) | (((((v >> 48) & 0xff) as u8) as u64)
        << 48) | (((((v >> 40) & 0xff) as u8) as u64) << 40) | (((((v >> 32) & 0xff) as u8) as u64)
        << 32) | (((((v >> 24) & 0xff) as u8) as u64) << 24) | (((((v >> 16) & 0xff) as u8) as u64)
        << 16) | (((((v >> 8) & 0xff) as u8) as u64) << 8) | (((v & 0xff) as u8) as u64) == v)
        by (bit_vector);
}

/// Encoding is injective: distinct timestamps give distinct payloads.
pub proof fn lemma_encode_injective(a: u64, b: u64)
    requires
        be_bytes_of(a) == be_bytes_of(b),
    ensures
        a == b,
{
    lemma_ts_round_trip(a);
    lemma_ts_round_trip(b);
}

} // verus!
