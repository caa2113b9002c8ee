//! A 64-bit status register: the high half is reserved for the engine's own
//! flags, the low half is left to the user.
use vstd::prelude::*;
use vstd::string::StringExecFns;

verus! {

pub const SYSTEM_STATUS_BITS: u64 = 0xffff_ffff_0000_0000;

pub const USER_STATUS_BITS: u64 = 0x0000_0000_ffff_ffff;

pub const IS_ERROR_BIT: u64 = 0x8000_0000_0000_0000;

pub const IS_UNCERTAIN_BIT: u64 = 0x4000_0000_0000_0000;

pub const IS_TOMBSTONE_BIT: u64 = 0x2000_0000_0000_0000;

/// A flag register. Every 64-bit pattern is a valid register.
#[derive(Debug, Clone, Copy, PartialEq, Eq, Structural, PartialOrd, Ord, Hash)]
pub struct StatusCode {
    pub bits: u64,
}

/// The uppercase hexadecimal digit of `d`, for `d < 16`.
pub open spec fn hex_digit(d: nat) -> char {
    if d < 10 {
        (48 + d) as char
    } else {
        (55 + d) as char
    }
}

/// `v` in uppercase hexadecimal, without prefix or leading zeros; zero is
/// written as a single `0`.
pub open spec fn upper_hex(v: nat) -> Seq<char>
    decreases v,
{
    if v < 16 {
        seq![hex_digit(v)]
    } else {
        upper_hex(v / 16).push(hex_digit(v % 16))
    }
}

/// Relies on std's `UpperHex` formatting of `u64` (`{:X}`): uppercase
/// hexadecimal digits with no prefix and no leading zeros.
#[verifier::external_body]
fn upper_hex_string(v: u64) -> (r: String)
    ensures
        r@ == upper_hex(v as nat),
{
    format!("{:X}", v)
}

/// The register `bits` holds every bit of `flag`.
pub open spec fn has_flag(bits: u64, flag: u64) -> bool {
    bits & flag == flag
}

impl StatusCode {
    /// Mask of the engine's segment.
    pub fn system_status_mask() -> (r: StatusCode)
        ensures
            r.bits == SYSTEM_STATUS_BITS,
    {
        StatusCode { bits: SYSTEM_STATUS_BITS }
    }

    /// Mask of the user's segment.
    pub fn user_status_mask() -> (r: StatusCode)
        ensures
            r.bits == USER_STATUS_BITS,
    {
        StatusCode { bits: USER_STATUS_BITS }
    }

    /// The flag of an error outcome.
    pub fn error() -> (r: StatusCode)
        ensures
            r.bits == IS_ERROR_BIT,
    {
        StatusCode { bits: IS_ERROR_BIT }
    }

    /// The flag of an uncertain outcome.
    pub fn uncertain() -> (r: StatusCode)
        ensures
            r.bits == IS_UNCERTAIN_BIT,
    {
        StatusCode { bits: IS_UNCERTAIN_BIT }
    }

    /// The flag of a logically deleted record.
    pub fn tombstone() -> (r: StatusCode)
        ensures
            r.bits == IS_TOMBSTONE_BIT,
    {
        StatusCode { bits: IS_TOMBSTONE_BIT }
    }

    /// No flag and no user status.
    pub fn good() -> (r: StatusCode)
        ensures
            r.bits == 0,
    {
        StatusCode { bits: 0 }
    }

    pub fn bits(&self) -> (r: u64)
        ensures
            r == self.bits,
    {
        self.bits
    }

    /// The register holding exactly `bits`.
    pub fn from_bits(bits: u64) -> (r: StatusCode)
        ensures
            r.bits == bits,
    {
        StatusCode { bits }
    }

    /// A register holding the user segment of `v`; whatever `v` has in the
    /// engine's segment is dropped.
    pub fn from_user_status(v: u64) -> (r: StatusCode)
        ensures
            r.bits == v & USER_STATUS_BITS,
    {
        StatusCode { bits: v & USER_STATUS_BITS }
    }

    pub fn is_empty(&self) -> (r: bool)
        ensures
            r == (self.bits == 0),
    {
        self.bits == 0
    }

    /// Every bit of `other` is set here.
    pub fn contains(&self, other: StatusCode) -> (r: bool)
        ensures
            r == has_flag(self.bits, other.bits),
    {
        self.bits & other.bits == other.bits
    }

    /// Sets every bit of `other`.
    pub fn insert(&mut self, other: StatusCode)
        ensures
            final(self).bits == old(self).bits | other.bits,
    {
        self.bits = self.bits | other.bits;
    }

    /// Clears every bit of `other`.
    pub fn remove(&mut self, other: StatusCode)
        ensures
            final(self).bits == old(self).bits & !other.bits,
    {
        self.bits = self.bits & !other.bits;
    }

    /// The bits set in both registers.
    pub fn bitand(&self, other: StatusCode) -> (r: StatusCode)
        ensures
            r.bits == self.bits & other.bits,
    {
        StatusCode { bits: self.bits & other.bits }
    }

    /// The bits set in either register.
    pub fn bitor(&self, other: StatusCode) -> (r: StatusCode)
        ensures
            r.bits == self.bits | other.bits,
    {
        StatusCode { bits: self.bits | other.bits }
    }

    /// Every bit flipped.
    pub fn not(&self) -> (r: StatusCode)
        ensures
            r.bits == !self.bits,
    {
        StatusCode { bits: !self.bits }
    }

    /// The user segment alone.
    pub fn user_status(&self) -> (r: StatusCode)
        ensures
            r.bits == self.bits & USER_STATUS_BITS,
    {
        StatusCode { bits: self.bits & StatusCode::user_status_mask().bits }
    }

    /// The engine's segment alone.
    pub fn system_status(&self) -> (r: StatusCode)
        ensures
            r.bits == self.bits & SYSTEM_STATUS_BITS,
    {
        StatusCode { bits: self.bits & StatusCode::system_status_mask().bits }
    }

    /// Tests if the status code is bad.
    pub fn is_bad(&self) -> (r: bool)
        ensures
            r == has_flag(self.bits, IS_ERROR_BIT),
    {
        self.contains(StatusCode::error())
    }

    /// Tests if the status code is uncertain.
    pub fn is_uncertain(&self) -> (r: bool)
        ensures
            r == has_flag(self.bits, IS_UNCERTAIN_BIT),
    {
        self.contains(StatusCode::uncertain())
    }

    /// Tests if the record is marked as logically deleted.
    pub fn is_tombstone(&self) -> (r: bool)
        ensures
            r == has_flag(self.bits, IS_TOMBSTONE_BIT),
    {
        self.contains(StatusCode::tombstone())
    }

    /// Tests if the status code is good, that is neither bad nor uncertain.
    pub fn is_good(&self) -> (r: bool)
        ensures
            r == (!has_flag(self.bits, IS_ERROR_BIT) && !has_flag(self.bits, IS_UNCERTAIN_BIT)),
    {
        !self.is_bad() && !self.is_uncertain()
    }

    /// Text form: the system segment, then the user segment, each in
    /// uppercase hexadecimal after `0x`.
    pub fn to_string(&self) -> (r: String)
        ensures
            r@ == seq!['0', 'x'] + upper_hex((self.bits & SYSTEM_STATUS_BITS) as nat) + seq![
                ' ',
                '0',
                'x',
            ] + upper_hex((self.bits & USER_STATUS_BITS) as nat),
    {
        let u = self.user_status();
        let s = self.system_status();
        let mut out = String::from_str("0x");
        out.append(upper_hex_string(s.bits()).as_str());
        out.append(" 0x");
        out.append(upper_hex_string(u.bits()).as_str());
        proof {
            reveal_strlit("0x");
            reveal_strlit(" 0x");
            assert(out@ =~= seq!['0', 'x'] + upper_hex(s.bits as nat) + seq![' ', '0', 'x']
                + upper_hex(u.bits as nat));
        }
        out
    }

    /// Clears the user segment; the engine's flags survive.
    pub fn clear(&mut self)
        ensures
            final(self).bits == old(self).bits & SYSTEM_STATUS_BITS,
    {
        *self = StatusCode { bits: self.bits & StatusCode::system_status_mask().bits };
    }
}

impl Default for StatusCode {
    fn default() -> (r: StatusCode)
        ensures
            r.bits == 0,
    {
        StatusCode::good()
    }
}

impl From<u64> for StatusCode {
    fn from(value: u64) -> (r: StatusCode) {
        StatusCode { bits: value }
    }
}

impl vstd::std_specs::convert::FromSpecImpl<u64> for StatusCode {
    open spec fn obeys_from_spec() -> bool {
        true
    }

    open spec fn from_spec(v: u64) -> StatusCode {
        StatusCode { bits: v }
    }
}

/// The integer view of a register shows its user segment only.
impl From<StatusCode> for u64 {
    fn from(status: StatusCode) -> (r: u64) {
        status.user_status().bits()
    }
}

impl vstd::std_specs::convert::FromSpecImpl<StatusCode> for u64 {
    open spec fn obeys_from_spec() -> bool {
        true
    }

    open spec fn from_spec(v: StatusCode) -> u64 {
        v.bits & USER_STATUS_BITS
    }
}

/// The two segments partition the register: for every register `x`, its
/// user status and its system status share no bit, and together they give
/// back `x`.
pub proof fn lemma_segments_partition(x: u64)
    ensures
        (x & USER_STATUS_BITS) | (x & SYSTEM_STATUS_BITS) == x,
        (x & USER_STATUS_BITS) & (x & SYSTEM_STATUS_BITS) == 0,
        USER_STATUS_BITS | SYSTEM_STATUS_BITS == 0xffff_ffff_ffff_ffffu64,
        USER_STATUS_BITS & SYSTEM_STATUS_BITS == 0,
{
    assert((x & 0x0000_0000_ffff_ffffu64) | (x & 0xffff_ffff_0000_0000u64) == x) by (bit_vector);
    assert((x & 0x0000_0000_ffff_ffffu64) & (x & 0xffff_ffff_0000_0000u64) == 0) by (bit_vector);
    assert(0x0000_0000_ffff_ffffu64 | 0xffff_ffff_0000_0000u64 == 0xffff_ffff_ffff_ffffu64)
        by (bit_vector);
    assert(0x0000_0000_ffff_ffffu64 & 0xffff_ffff_0000_0000u64 == 0) by (bit_vector);
}

} // verus!
