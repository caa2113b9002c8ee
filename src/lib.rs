//! Binary codec of a key-value store: order-preserving fixed-width number
//! encodings, a status register with engine and user segments, and the raw
//! value format that appends a timestamp and a status register to a payload.
use vstd::prelude::*;

pub mod bytes;
pub mod key;
pub mod number;
pub mod status_code;

pub use key::Key;
pub use status_code::StatusCode;

use bytes::{be_bytes, be_value, lemma_be_round_trip, lemma_pow256_widths};
use number::{decode_u64, encode_u64, U64_SIZE};
use status_code::{has_flag, IS_TOMBSTONE_BIT};
use vstd::slice::slice_subrange;

verus! {

/// Width of the trailer that follows the payload: a timestamp and a status
/// register of eight bytes each.
pub const TRAILER_SIZE: usize = 16;

/// The timestamp that is written: an absent one is written as zero.
pub open spec fn ts_or_zero(ts: Option<u64>) -> u64 {
    match ts {
        Some(t) => t,
        None => 0,
    }
}

/// The status register that is written: the value's own register, with the
/// deletion flag added when the value is marked as a tombstone.
pub open spec fn folded_status(status: u64, tombstone: bool) -> u64 {
    if tombstone {
        status | IS_TOMBSTONE_BIT
    } else {
        status
    }
}

/// The trailer that follows the payload: the timestamp, then the status
/// register, each as eight big-endian bytes.
pub open spec fn trailer_bytes(ts: Option<u64>, status: u64, tombstone: bool) -> Seq<u8> {
    be_bytes(ts_or_zero(ts) as nat, 8) + be_bytes(folded_status(status, tombstone) as nat, 8)
}

/// The stored form of a value: the payload verbatim, then the trailer.
pub open spec fn raw_value_bytes(
    payload: Seq<u8>,
    ts: Option<u64>,
    status: u64,
    tombstone: bool,
) -> Seq<u8> {
    payload + trailer_bytes(ts, status, tombstone)
}

/// The result of decoding `bytes`: `None` exactly when no trailer fits;
/// otherwise the payload is everything before the last sixteen bytes, the
/// timestamp the eight before the last eight, the status register the last
/// eight, and the value is a tombstone exactly when that register carries the
/// deletion flag.
pub open spec fn decodes_as(bytes: Seq<u8>, r: Option<RawValue<&[u8]>>) -> bool {
    match r {
        None => bytes.len() < 16,
        Some(v) => {
            let n = bytes.len();
            &&& n >= 16
            &&& v.user_value@ == bytes.subrange(0, n - 16)
            &&& v.ts == Some(be_value(bytes.subrange(n - 16, n - 8)) as u64)
            &&& v.status.bits == be_value(bytes.subrange(n - 8, n as int))
            &&& v.tombstone == has_flag(v.status.bits, IS_TOMBSTONE_BIT)
        },
    }
}

/// A value with its timestamp and status, before encoding or after decoding.
#[derive(Debug, Clone, Copy, PartialEq, Eq)]
pub struct RawValue<T> {
    /// The user value.
    pub user_value: T,
    /// The unix timestamp.
    pub ts: Option<u64>,
    /// The status code.
    pub status: StatusCode,
    /// The tombstone status.
    pub tombstone: bool,
}

impl<T> RawValue<T> {
    /// The value is live: it is not marked as a tombstone, and its status
    /// register does not carry the deletion flag.
    pub fn is_valid(&self) -> (r: bool)
        ensures
            r == (!self.tombstone && !has_flag(self.status.bits, IS_TOMBSTONE_BIT)),
    {
        !self.tombstone && !self.status.is_tombstone()
    }
}

/// A stored-value format.
pub trait KvFormat: Clone + Copy + 'static + Send + Sync {
    fn decode_raw_value(bytes: &[u8]) -> (r: Option<RawValue<&[u8]>>)
        ensures
            decodes_as(bytes@, r),
    ;

    fn encode_raw_value(value: RawValue<&[u8]>) -> (r: Vec<u8>)
        ensures
            r@ == raw_value_bytes(
                value.user_value@,
                value.ts,
                value.status.bits,
                value.tombstone,
            ),
    ;

    fn encode_raw_value_owned(value: RawValue<Vec<u8>>) -> (r: Vec<u8>)
        ensures
            r@ == raw_value_bytes(
                value.user_value@,
                value.ts,
                value.status.bits,
                value.tombstone,
            ),
    ;

    fn decode_raw_key(key: &Key) -> (r: Vec<u8>)
        ensures
            r@ == key@,
    {
        let raw = key.as_raw();
        let r = raw.clone();
        assert(r@ =~= raw@);
        r
    }

    fn encode_raw_key(key: &[u8]) -> (r: Key)
        ensures
            r@ == key@,
    {
        Key::from_raw(key)
    }
}

/// The first stored-value format.
#[derive(Debug, Default, Clone, Copy)]
pub struct ApiV1;

/// Appends the trailer of a value to `buf`: shared by both encoders.
fn append_trailer(buf: &mut Vec<u8>, ts: Option<u64>, status: StatusCode, tombstone: bool)
    ensures
        final(buf)@ == old(buf)@ + trailer_bytes(ts, status.bits, tombstone),
{
    let t = match ts {
        Some(t) => t,
        None => 0,
    };
    encode_u64(buf, t);
    let mut folded = status;
    if tombstone {
        folded.insert(StatusCode::tombstone());
    }
    encode_u64(buf, folded.bits());
    assert(final(buf)@ =~= old(buf)@ + trailer_bytes(ts, status.bits, tombstone));
}

impl KvFormat for ApiV1 {
    fn decode_raw_value(bytes: &[u8]) -> (r: Option<RawValue<&[u8]>>) {
        let len = bytes.len();
        if len < TRAILER_SIZE {
            return None;
        }
        let rest_len = len - U64_SIZE;
        let mut status_slice = slice_subrange(bytes, rest_len, len);
        assert(status_slice@.subrange(0, 8) =~= bytes@.subrange(len - 8, len as int));
        let s = match decode_u64(&mut status_slice) {
            Ok(s) => s,
            Err(_) => 0,
        };
        let status = StatusCode::from(s);
        let tombstone = status.is_tombstone();

        let rest_len = rest_len - U64_SIZE;
        let mut ts_slice = slice_subrange(bytes, rest_len, rest_len + U64_SIZE);
        assert(ts_slice@.subrange(0, 8) =~= bytes@.subrange(len - 16, len - 8));
        let ts = match decode_u64(&mut ts_slice) {
            Ok(t) => t,
            Err(_) => 0,
        };
        Some(
            RawValue {
                user_value: slice_subrange(bytes, 0, rest_len),
                ts: Some(ts),
                status,
                tombstone,
            },
        )
    }

    fn encode_raw_value(value: RawValue<&[u8]>) -> (r: Vec<u8>) {
        let mut buf = vstd::slice::slice_to_vec(value.user_value);
        append_trailer(&mut buf, value.ts, value.status, value.tombstone);
        buf
    }

    fn encode_raw_value_owned(value: RawValue<Vec<u8>>) -> (r: Vec<u8>) {
        let mut value = value;
        value.user_value.reserve(U64_SIZE + U64_SIZE);
        append_trailer(&mut value.user_value, value.ts, value.status, value.tombstone);
        value.user_value
    }
}

/// Raw value round trip: decoding the bytes that either encoder writes for
/// a payload, a timestamp and a status register gives back the payload, the
/// timestamp with an absent one read as zero, and the status register with
/// the deletion flag folded in; the decoded value is a tombstone exactly when
/// it was marked as one or its register already carried the flag.
pub proof fn lemma_raw_value_round_trip(
    payload: Seq<u8>,
    ts: Option<u64>,
    status: u64,
    tombstone: bool,
)
    ensures
        ({
            let b = raw_value_bytes(payload, ts, status, tombstone);
            let n = b.len();
            &&& n == payload.len() + 16
            &&& b.subrange(0, n - 16) == payload
            &&& be_value(b.subrange(n - 16, n - 8)) == ts_or_zero(ts)
            &&& be_value(b.subrange(n - 8, n as int)) == folded_status(status, tombstone)
            &&& has_flag(folded_status(status, tombstone), IS_TOMBSTONE_BIT) <==> (tombstone
                || has_flag(status, IS_TOMBSTONE_BIT))
        }),
{
    let t = be_bytes(ts_or_zero(ts) as nat, 8);
    let s = be_bytes(folded_status(status, tombstone) as nat, 8);
    lemma_pow256_widths();
    lemma_be_round_trip(ts_or_zero(ts) as nat, 8);
    lemma_be_round_trip(folded_status(status, tombstone) as nat, 8);
    let b = raw_value_bytes(payload, ts, status, tombstone);
    let n = b.len();
    assert(b.subrange(0, n - 16) =~= payload);
    assert(b.subrange(n - 16, n - 8) =~= t);
    assert(b.subrange(n - 8, n as int) =~= s);
    assert(has_flag(status | 0x2000_0000_0000_0000u64, 0x2000_0000_0000_0000u64)) by (bit_vector);
}

} // verus!
