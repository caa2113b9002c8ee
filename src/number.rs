//! Fixed-width number codec. Unsigned integers are written big-endian; signed
//! 64-bit integers and 64-bit float bit patterns go through an
//! order-preserving transform first, so that their encodings sort as the
//! numbers do. The 32- and 16-bit signed integers are written little-endian
//! with no transform, a layout that existing data depends on.
use crate::bytes::{
    be_bytes, be_value, le_bytes, le_value, lemma_be_bytes_order, lemma_be_round_trip,
    lemma_le_round_trip, lemma_pow256_widths, lex_lt, pow256,
};
use byteorder::{BigEndian, ByteOrder, LittleEndian};
use vstd::prelude::*;

verus! {

pub const SIGN_MARK: u64 = 0x8000000000000000;

pub const U64_SIZE: usize = 8;

pub const I64_SIZE: usize = 8;

pub const F64_SIZE: usize = 8;

/// The only way decoding can fail: fewer bytes remain than the width read.
#[derive(Debug, Clone, Copy, PartialEq, Eq, Structural)]
pub enum Error {
    EncoderUnexpectedEOF,
}

pub type Result<T, E = Error> = core::result::Result<T, E>;

/// `after` is what remains of `before` once its first `n` bytes are taken.
pub open spec fn consumed(before: Seq<u8>, after: Seq<u8>, n: nat) -> bool {
    n <= before.len() && after == before.subrange(n as int, before.len() as int)
}

/// The unsigned key that a signed 64-bit integer is stored as: the value
/// shifted up by 2^63, so that `i64::MIN` becomes zero.
pub open spec fn i64_order_key(v: i64) -> nat {
    (v + 0x8000_0000_0000_0000) as nat
}

/// The unsigned key that a 64-bit float bit pattern is stored as:
/// non-negative patterns move above every negative one, and negative patterns
/// are reversed among themselves.
pub open spec fn f64_order_key(bits: u64) -> nat {
    if bits < SIGN_MARK {
        (bits + SIGN_MARK) as nat
    } else {
        (0xFFFF_FFFF_FFFF_FFFFu64 - bits) as nat
    }
}

/// The float bit pattern stored under key `k`: inverse of `f64_order_key`.
pub open spec fn f64_bits_of_key(k: u64) -> u64 {
    if k >= SIGN_MARK {
        (k - SIGN_MARK) as u64
    } else {
        (0xFFFF_FFFF_FFFF_FFFFu64 - k) as u64
    }
}

/// The bit pattern is an IEEE-754 double NaN: all exponent bits set and a
/// non-zero fraction.
pub open spec fn f64_bits_is_nan(bits: u64) -> bool {
    (bits & 0x7FF0_0000_0000_0000u64) == 0x7FF0_0000_0000_0000u64 && (bits
        & 0x000F_FFFF_FFFF_FFFFu64) != 0
}

/// Numeric `<` between the two non-NaN doubles with these bit patterns: a
/// non-negative double grows with its pattern, a negative one shrinks with
/// it, every negative double is below every non-negative one, and `-0.0`
/// equals `+0.0`.
pub open spec fn f64_bits_lt(a: u64, b: u64) -> bool {
    if a < SIGN_MARK && b < SIGN_MARK {
        a < b
    } else if a >= SIGN_MARK && b >= SIGN_MARK {
        a > b
    } else if a >= SIGN_MARK {
        !(a == SIGN_MARK && b == 0)
    } else {
        false
    }
}

/// Relies on byteorder's `BigEndian::read_u64`: the first eight bytes of
/// `buf`, most significant first. It panics on a shorter slice.
#[verifier::external_body]
fn read_be_u64(buf: &[u8]) -> (r: u64)
    requires
        buf@.len() >= 8,
    ensures
        r as nat == be_value(buf@.subrange(0, 8)),
{
    BigEndian::read_u64(buf)
}

/// Relies on byteorder's `BigEndian::read_u32`: the first four bytes of
/// `buf`, most significant first. It panics on a shorter slice.
#[verifier::external_body]
fn read_be_u32(buf: &[u8]) -> (r: u32)
    requires
        buf@.len() >= 4,
    ensures
        r as nat == be_value(buf@.subrange(0, 4)),
{
    BigEndian::read_u32(buf)
}

/// Relies on byteorder's `BigEndian::read_u16`: the first two bytes of
/// `buf`, most significant first. It panics on a shorter slice.
#[verifier::external_body]
fn read_be_u16(buf: &[u8]) -> (r: u16)
    requires
        buf@.len() >= 2,
    ensures
        r as nat == be_value(buf@.subrange(0, 2)),
{
    BigEndian::read_u16(buf)
}

/// Relies on byteorder's `LittleEndian::read_i32`: the first four bytes of
/// `buf`, least significant first, as a two's-complement value. It panics on
/// a shorter slice.
#[verifier::external_body]
fn read_le_i32(buf: &[u8]) -> (r: i32)
    requires
        buf@.len() >= 4,
    ensures
        r as u32 as nat == le_value(buf@.subrange(0, 4)),
{
    LittleEndian::read_i32(buf)
}

/// Relies on byteorder's `LittleEndian::read_i16`: the first two bytes of
/// `buf`, least significant first, as a two's-complement value. It panics on
/// a shorter slice.
#[verifier::external_body]
fn read_le_i16(buf: &[u8]) -> (r: i16)
    requires
        buf@.len() >= 2,
    ensures
        r as u16 as nat == le_value(buf@.subrange(0, 2)),
{
    LittleEndian::read_i16(buf)
}

/// Relies on byteorder's `BigEndian::write_u64`: the eight bytes of `v`,
/// most significant first.
#[verifier::external_body]
fn be_u64_bytes(v: u64) -> (r: [u8; 8])
    ensures
        r@ == be_bytes(v as nat, 8),
{
    let mut b = [0u8; 8];
    BigEndian::write_u64(&mut b, v);
    b
}

/// Relies on byteorder's `BigEndian::write_u32`: the four bytes of `v`,
/// most significant first.
#[verifier::external_body]
fn be_u32_bytes(v: u32) -> (r: [u8; 4])
    ensures
        r@ == be_bytes(v as nat, 4),
{
    let mut b = [0u8; 4];
    BigEndian::write_u32(&mut b, v);
    b
}

/// Relies on byteorder's `BigEndian::write_u16`: the two bytes of `v`, most
/// significant first.
#[verifier::external_body]
fn be_u16_bytes(v: u16) -> (r: [u8; 2])
    ensures
        r@ == be_bytes(v as nat, 2),
{
    let mut b = [0u8; 2];
    BigEndian::write_u16(&mut b, v);
    b
}

/// Relies on byteorder's `LittleEndian::write_i32`: the four bytes of the
/// two's-complement pattern of `v`, least significant first.
#[verifier::external_body]
fn le_i32_bytes(v: i32) -> (r: [u8; 4])
    ensures
        r@ == le_bytes(v as u32 as nat, 4),
{
    let mut b = [0u8; 4];
    LittleEndian::write_i32(&mut b, v);
    b
}

/// Relies on byteorder's `LittleEndian::write_i16`: the two bytes of the
/// two's-complement pattern of `v`, least significant first.
#[verifier::external_body]
fn le_i16_bytes(v: i16) -> (r: [u8; 2])
    ensures
        r@ == le_bytes(v as u16 as nat, 2),
{
    let mut b = [0u8; 2];
    LittleEndian::write_i16(&mut b, v);
    b
}


/// Maps a signed 64-bit integer onto the unsigned range, keeping its order.
pub fn order_encode_i64(v: i64) -> (r: u64)
    ensures
        r as nat == i64_order_key(v),
{
    let u = v as u64;
    proof {
        if v >= 0 {
            assert(v >= 0 ==> v as u64 == v && (v as u64) ^ 0x8000000000000000u64 == (v as u64)
                + 0x8000000000000000u64) by (bit_vector);
        } else {
            assert(v < 0 ==> (v as u64) ^ 0x8000000000000000u64 == ((v + 0x7FFF_FFFF_FFFF_FFFFi64
                + 1i64) as u64)) by (bit_vector);
        }
    }
    u ^ SIGN_MARK
}

/// Inverse of `order_encode_i64`.
pub fn order_decode_i64(u: u64) -> (r: i64)
    ensures
        r as int == u as int - 0x8000_0000_0000_0000,
{
    let x = u ^ SIGN_MARK;
    proof {
        if u < SIGN_MARK {
            assert(u < 0x8000000000000000u64 ==> ((u ^ 0x8000000000000000u64) as i64) == (u as i64)
                - 0x7FFF_FFFF_FFFF_FFFFi64 - 1i64) by (bit_vector);
        } else {
            assert(u >= 0x8000000000000000u64 ==> u ^ 0x8000000000000000u64 == u
                - 0x8000000000000000u64) by (bit_vector);
        }
    }
    x as i64
}

/// Maps the bit pattern of a 64-bit float onto a key whose unsigned order is
/// the float's numeric order: a pattern with the sign bit clear gets it set,
/// one with the sign bit set is complemented.
pub fn order_encode_f64_bits(u: u64) -> (r: u64)
    ensures
        r as nat == f64_order_key(u),
{
    if u & SIGN_MARK == 0 {
        assert(u & 0x8000000000000000u64 == 0 ==> u | 0x8000000000000000u64 == u
            + 0x8000000000000000u64 && u < 0x8000000000000000u64) by (bit_vector);
        u | SIGN_MARK
    } else {
        assert(u & 0x8000000000000000u64 != 0 ==> !u == 0xFFFF_FFFF_FFFF_FFFFu64 - u
            && u >= 0x8000000000000000u64) by (bit_vector);
        !u
    }
}

/// Inverse of `order_encode_f64_bits`: the top bit of the key tells which
/// branch produced it.
pub fn order_decode_f64_bits(u: u64) -> (r: u64)
    ensures
        r == f64_bits_of_key(u),
{
    if u & SIGN_MARK > 0 {
        assert(u & 0x8000000000000000u64 > 0 ==> u & !0x8000000000000000u64 == u
            - 0x8000000000000000u64 && u >= 0x8000000000000000u64) by (bit_vector);
        u & (!SIGN_MARK)
    } else {
        assert(u & 0x8000000000000000u64 == 0 ==> !u == 0xFFFF_FFFF_FFFF_FFFFu64 - u
            && u < 0x8000000000000000u64) by (bit_vector);
        !u
    }
}

/// Takes the first `size` bytes off the front of `data` and returns them;
/// fails, leaving `data` as it was, when fewer than `size` remain.
pub fn read_num_bytes<'a>(size: usize, data: &mut &'a [u8]) -> (r: Result<&'a [u8]>)
    ensures
        match r {
            Ok(buf) => consumed(old(data)@, final(data)@, size as nat) && buf@ == old(
                data,
            )@.subrange(0, size as int),
            Err(e) => old(data)@.len() < size && e == Error::EncoderUnexpectedEOF && final(data)@
                == old(data)@,
        },
{
    if data.len() >= size {
        let buf = vstd::slice::slice_subrange(*data, 0, size);
        *data = vstd::slice::slice_subrange(*data, size, data.len());
        return Ok(buf);
    }
    Err(Error::EncoderUnexpectedEOF)
}

/// Reads a big-endian `u64` off the front of `data`.
pub fn decode_u64(data: &mut &[u8]) -> (r: Result<u64>)
    ensures
        match r {
            Ok(v) => consumed(old(data)@, final(data)@, 8) && v as nat == be_value(
                old(data)@.subrange(0, 8),
            ),
            Err(e) => old(data)@.len() < 8 && e == Error::EncoderUnexpectedEOF && final(data)@
                == old(data)@,
        },
{
    let buf = read_num_bytes(U64_SIZE, data)?;
    assert(buf@.subrange(0, 8) =~= buf@);
    Ok(read_be_u64(buf))
}

/// Reads a signed 64-bit integer stored under its order key.
pub fn decode_i64(data: &mut &[u8]) -> (r: Result<i64>)
    ensures
        match r {
            Ok(v) => consumed(old(data)@, final(data)@, 8) && v as int == be_value(
                old(data)@.subrange(0, 8),
            ) - 0x8000_0000_0000_0000,
            Err(e) => old(data)@.len() < 8 && e == Error::EncoderUnexpectedEOF && final(data)@
                == old(data)@,
        },
{
    let u = decode_u64(data)?;
    Ok(order_decode_i64(u))
}

/// Decodes the bit pattern of a 64-bit float stored under its order key.
pub fn decode_f64_bits(data: &mut &[u8]) -> (r: Result<u64>)
    ensures
        match r {
            Ok(bits) => consumed(old(data)@, final(data)@, 8) && bits == f64_bits_of_key(
                be_value(old(data)@.subrange(0, 8)) as u64,
            ),
            Err(e) => old(data)@.len() < 8 && e == Error::EncoderUnexpectedEOF && final(data)@
                == old(data)@,
        },
{
    let u = decode_u64(data)?;
    Ok(order_decode_f64_bits(u))
}

/// Reads a big-endian `u32` off the front of `data`.
pub fn decode_u32(data: &mut &[u8]) -> (r: Result<u32>)
    ensures
        match r {
            Ok(v) => consumed(old(data)@, final(data)@, 4) && v as nat == be_value(
                old(data)@.subrange(0, 4),
            ),
            Err(e) => old(data)@.len() < 4 && e == Error::EncoderUnexpectedEOF && final(data)@
                == old(data)@,
        },
{
    let buf = read_num_bytes(4, data)?;
    assert(buf@.subrange(0, 4) =~= buf@);
    Ok(read_be_u32(buf))
}

/// Reads a little-endian `i32` off the front of `data`.
pub fn decode_i32(data: &mut &[u8]) -> (r: Result<i32>)
    ensures
        match r {
            Ok(v) => consumed(old(data)@, final(data)@, 4) && v as u32 as nat == le_value(
                old(data)@.subrange(0, 4),
            ),
            Err(e) => old(data)@.len() < 4 && e == Error::EncoderUnexpectedEOF && final(data)@
                == old(data)@,
        },
{
    let buf = read_num_bytes(4, data)?;
    assert(buf@.subrange(0, 4) =~= buf@);
    Ok(read_le_i32(buf))
}

/// Reads a big-endian `u16` off the front of `data`.
pub fn decode_u16(data: &mut &[u8]) -> (r: Result<u16>)
    ensures
        match r {
            Ok(v) => consumed(old(data)@, final(data)@, 2) && v as nat == be_value(
                old(data)@.subrange(0, 2),
            ),
            Err(e) => old(data)@.len() < 2 && e == Error::EncoderUnexpectedEOF && final(data)@
                == old(data)@,
        },
{
    let buf = read_num_bytes(2, data)?;
    assert(buf@.subrange(0, 2) =~= buf@);
    Ok(read_be_u16(buf))
}

/// Reads a little-endian `i16` off the front of `data`.
pub fn decode_i16(data: &mut &[u8]) -> (r: Result<i16>)
    ensures
        match r {
            Ok(v) => consumed(old(data)@, final(data)@, 2) && v as u16 as nat == le_value(
                old(data)@.subrange(0, 2),
            ),
            Err(e) => old(data)@.len() < 2 && e == Error::EncoderUnexpectedEOF && final(data)@
                == old(data)@,
        },
{
    let buf = read_num_bytes(2, data)?;
    assert(buf@.subrange(0, 2) =~= buf@);
    Ok(read_le_i16(buf))
}

/// Appends the eight bytes of `v`, most significant first.
pub fn encode_u64(buf: &mut Vec<u8>, v: u64)
    ensures
        final(buf)@ == old(buf)@ + be_bytes(v as nat, 8),
{
    let b = be_u64_bytes(v);
    buf.extend_from_slice(&b);
    assert(final(buf)@ =~= old(buf)@ + b@);
}

/// Appends the order-preserving encoding of a signed 64-bit integer.
pub fn encode_i64(buf: &mut Vec<u8>, v: i64)
    ensures
        final(buf)@ == old(buf)@ + be_bytes(i64_order_key(v), 8),
{
    let u = order_encode_i64(v);
    encode_u64(buf, u);
}

/// Appends the order-preserving encoding of a 64-bit float, given its bit
/// pattern.
pub fn encode_f64_bits(buf: &mut Vec<u8>, bits: u64)
    ensures
        final(buf)@ == old(buf)@ + be_bytes(f64_order_key(bits), 8),
{
    let u = order_encode_f64_bits(bits);
    encode_u64(buf, u);
}

/// Appends the four bytes of `v`, most significant first.
pub fn encode_u32(buf: &mut Vec<u8>, v: u32)
    ensures
        final(buf)@ == old(buf)@ + be_bytes(v as nat, 4),
{
    let b = be_u32_bytes(v);
    buf.extend_from_slice(&b);
    assert(final(buf)@ =~= old(buf)@ + b@);
}

/// Appends the four bytes of `v`'s two's-complement pattern, least
/// significant first.
pub fn encode_i32(buf: &mut Vec<u8>, v: i32)
    ensures
        final(buf)@ == old(buf)@ + le_bytes(v as u32 as nat, 4),
{
    let b = le_i32_bytes(v);
    buf.extend_from_slice(&b);
    assert(final(buf)@ =~= old(buf)@ + b@);
}

/// Appends the two bytes of `v`, most significant first.
pub fn encode_u16(buf: &mut Vec<u8>, v: u16)
    ensures
        final(buf)@ == old(buf)@ + be_bytes(v as nat, 2),
{
    let b = be_u16_bytes(v);
    buf.extend_from_slice(&b);
    assert(final(buf)@ =~= old(buf)@ + b@);
}

/// Appends the two bytes of `v`'s two's-complement pattern, least
/// significant first.
pub fn encode_i16(buf: &mut Vec<u8>, v: i16)
    ensures
        final(buf)@ == old(buf)@ + le_bytes(v as u16 as nat, 2),
{
    let b = le_i16_bytes(v);
    buf.extend_from_slice(&b);
    assert(final(buf)@ =~= old(buf)@ + b@);
}

/// The first `n` bytes of `be_bytes(v, n) + rest` read back as `v`, and what
/// follows them is `rest`.
proof fn lemma_be_prefix(v: nat, n: nat, rest: Seq<u8>)
    requires
        v < pow256(n),
    ensures
        (be_bytes(v, n) + rest).subrange(0, n as int) == be_bytes(v, n),
        be_value((be_bytes(v, n) + rest).subrange(0, n as int)) == v,
        consumed(be_bytes(v, n) + rest, rest, n),
{
    lemma_be_round_trip(v, n);
    assert((be_bytes(v, n) + rest).subrange(0, n as int) =~= be_bytes(v, n));
    assert((be_bytes(v, n) + rest).subrange(n as int, (be_bytes(v, n) + rest).len() as int)
        =~= rest);
}

/// The first `n` bytes of `le_bytes(v, n) + rest` read back as `v`, and what
/// follows them is `rest`.
proof fn lemma_le_prefix(v: nat, n: nat, rest: Seq<u8>)
    requires
        v < pow256(n),
    ensures
        le_value((le_bytes(v, n) + rest).subrange(0, n as int)) == v,
        consumed(le_bytes(v, n) + rest, rest, n),
{
    lemma_le_round_trip(v, n);
    assert((le_bytes(v, n) + rest).subrange(0, n as int) =~= le_bytes(v, n));
    assert((le_bytes(v, n) + rest).subrange(n as int, (le_bytes(v, n) + rest).len() as int)
        =~= rest);
}

/// Round trip of `u64`: `decode_u64` on what `encode_u64` wrote, followed by
/// any bytes, returns `v` and consumes exactly the eight bytes written.
pub proof fn lemma_round_trip_u64(v: u64, rest: Seq<u8>)
    ensures
        be_bytes(v as nat, 8).len() == 8,
        be_value((be_bytes(v as nat, 8) + rest).subrange(0, 8)) == v,
        consumed(be_bytes(v as nat, 8) + rest, rest, 8),
{
    lemma_pow256_widths();
    lemma_be_round_trip(v as nat, 8);
    lemma_be_prefix(v as nat, 8, rest);
}

/// Round trip of `i64`: `decode_i64` on what `encode_i64` wrote, followed by
/// any bytes, returns `v` and consumes exactly the eight bytes written.
pub proof fn lemma_round_trip_i64(v: i64, rest: Seq<u8>)
    ensures
        be_bytes(i64_order_key(v), 8).len() == 8,
        be_value((be_bytes(i64_order_key(v), 8) + rest).subrange(0, 8)) - 0x8000_0000_0000_0000
            == v,
        consumed(be_bytes(i64_order_key(v), 8) + rest, rest, 8),
{
    lemma_pow256_widths();
    lemma_be_round_trip(i64_order_key(v), 8);
    lemma_be_prefix(i64_order_key(v), 8, rest);
}

/// Round trip of the float bit pattern: `decode_f64_bits` on what
/// `encode_f64_bits` wrote, followed by any bytes, returns `bits` and
/// consumes exactly the eight bytes written.
pub proof fn lemma_round_trip_f64_bits(bits: u64, rest: Seq<u8>)
    ensures
        be_bytes(f64_order_key(bits), 8).len() == 8,
        f64_bits_of_key(be_value((be_bytes(f64_order_key(bits), 8) + rest).subrange(0, 8)) as u64)
            == bits,
        consumed(be_bytes(f64_order_key(bits), 8) + rest, rest, 8),
{
    lemma_pow256_widths();
    lemma_be_round_trip(f64_order_key(bits), 8);
    lemma_be_prefix(f64_order_key(bits), 8, rest);
}

/// Round trip of `u32`: `decode_u32` on what `encode_u32` wrote, followed by
/// any bytes, returns `v` and consumes exactly the four bytes written.
pub proof fn lemma_round_trip_u32(v: u32, rest: Seq<u8>)
    ensures
        be_bytes(v as nat, 4).len() == 4,
        be_value((be_bytes(v as nat, 4) + rest).subrange(0, 4)) == v,
        consumed(be_bytes(v as nat, 4) + rest, rest, 4),
{
    lemma_pow256_widths();
    lemma_be_round_trip(v as nat, 4);
    lemma_be_prefix(v as nat, 4, rest);
}

/// Round trip of `u16`: `decode_u16` on what `encode_u16` wrote, followed by
/// any bytes, returns `v` and consumes exactly the two bytes written.
pub proof fn lemma_round_trip_u16(v: u16, rest: Seq<u8>)
    ensures
        be_bytes(v as nat, 2).len() == 2,
        be_value((be_bytes(v as nat, 2) + rest).subrange(0, 2)) == v,
        consumed(be_bytes(v as nat, 2) + rest, rest, 2),
{
    lemma_pow256_widths();
    lemma_be_round_trip(v as nat, 2);
    lemma_be_prefix(v as nat, 2, rest);
}

/// Round trip of `i32`: the only value that `decode_i32` can return on what
/// `encode_i32` wrote, followed by any bytes, is `v`, and exactly the four
/// bytes written are consumed.
pub proof fn lemma_round_trip_i32(v: i32, rest: Seq<u8>)
    ensures
        le_bytes(v as u32 as nat, 4).len() == 4,
        forall|x: i32|
            #[trigger] (x as u32) as nat == le_value(
                (le_bytes(v as u32 as nat, 4) + rest).subrange(0, 4),
            ) ==> x == v,
        consumed(le_bytes(v as u32 as nat, 4) + rest, rest, 4),
{
    lemma_pow256_widths();
    lemma_le_round_trip(v as u32 as nat, 4);
    lemma_le_prefix(v as u32 as nat, 4, rest);
    assert forall|x: i32| #[trigger] (x as u32) as nat == (v as u32) as nat implies x == v by {
        assert(x as u32 == v as u32 ==> x == v) by (bit_vector);
    }
}

/// Round trip of `i16`: the only value that `decode_i16` can return on what
/// `encode_i16` wrote, followed by any bytes, is `v`, and exactly the two
/// bytes written are consumed.
pub proof fn lemma_round_trip_i16(v: i16, rest: Seq<u8>)
    ensures
        le_bytes(v as u16 as nat, 2).len() == 2,
        forall|x: i16|
            #[trigger] (x as u16) as nat == le_value(
                (le_bytes(v as u16 as nat, 2) + rest).subrange(0, 2),
            ) ==> x == v,
        consumed(le_bytes(v as u16 as nat, 2) + rest, rest, 2),
{
    lemma_pow256_widths();
    lemma_le_round_trip(v as u16 as nat, 2);
    lemma_le_prefix(v as u16 as nat, 2, rest);
    assert forall|x: i16| #[trigger] (x as u16) as nat == (v as u16) as nat implies x == v by {
        assert(x as u16 == v as u16 ==> x == v) by (bit_vector);
    }
}

/// Order preservation of `i64`: when `a < b`, the bytes that `encode_i64`
/// writes for `a` sort strictly before those it writes for `b`.
pub proof fn lemma_order_preserving_i64(a: i64, b: i64)
    requires
        a < b,
    ensures
        lex_lt(be_bytes(i64_order_key(a), 8), be_bytes(i64_order_key(b), 8)),
{
    lemma_pow256_widths();
    lemma_be_bytes_order(i64_order_key(a), i64_order_key(b), 8);
}

/// Order preservation of 64-bit floats: when the double with bit pattern `a`
/// is numerically below the one with pattern `b`, neither being NaN, the
/// bytes that `encode_f64_bits` writes for `a` sort strictly before those it
/// writes for `b`.
pub proof fn lemma_order_preserving_f64(a: u64, b: u64)
    requires
        !f64_bits_is_nan(a),
        !f64_bits_is_nan(b),
        f64_bits_lt(a, b),
    ensures
        lex_lt(be_bytes(f64_order_key(a), 8), be_bytes(f64_order_key(b), 8)),
{
    lemma_pow256_widths();
    lemma_be_bytes_order(f64_order_key(a), f64_order_key(b), 8);
}

} // verus!
