//! Bit-packed boolean attributes of a log record, stored in one byte.

use vstd::prelude::*;

verus! {

/// Bit 0: the player passed authentication.
pub const PLAYER_AUTH_BIT: u8 = 1;

/// Bit 1: the player is online, so the record carries an identity.
pub const IS_ONLINE_BIT: u8 = 2;

/// Every bit that has a meaning; bits 2 to 7 are reserved.
pub const DEFINED_BITS: u8 = 3;

/// `bits` sets no reserved bit.
pub open spec fn bits_defined(bits: u8) -> bool {
    bits & !DEFINED_BITS == 0
}

/// Every bit of `mask` is set in `bits`.
pub open spec fn bits_contain(bits: u8, mask: u8) -> bool {
    bits & mask == mask
}

/// `bits` announces an identity field.
pub open spec fn bits_online(bits: u8) -> bool {
    bits_contain(bits, IS_ONLINE_BIT)
}

/// The bytes without a reserved bit are 0, 1, 2 and 3, and of those 2 and 3
/// announce an identity.
pub proof fn lemma_defined_bits(bits: u8)
    ensures
        bits_defined(bits) <==> bits <= DEFINED_BITS,
        bits_defined(bits) ==> (bits_online(bits) <==> bits >= IS_ONLINE_BIT),
{
    assert(bits & !3u8 == 0 <==> bits <= 3) by (bit_vector);
    assert(bits <= 3 ==> (bits & 2u8 == 2u8 <==> bits >= 2)) by (bit_vector);
}

/// A set of record flags. Its view is the raw byte.
#[derive(Clone, Copy, Debug, PartialEq, Eq)]
pub struct LogFlags {
    bits: u8,
}

impl View for LogFlags {
    type V = u8;

    closed spec fn view(&self) -> u8 {
        self.bits
    }
}

impl LogFlags {
    /// The set holding only the "player authenticated" flag.
    pub fn player_auth() -> (flags: LogFlags)
        ensures
            flags@ == PLAYER_AUTH_BIT,
    {
        LogFlags { bits: PLAYER_AUTH_BIT }
    }

    /// The set holding only the "is online" flag.
    pub fn is_online() -> (flags: LogFlags)
        ensures
            flags@ == IS_ONLINE_BIT,
    {
        LogFlags { bits: IS_ONLINE_BIT }
    }

    /// The set with no flag.
    pub fn empty() -> (flags: LogFlags)
        ensures
            flags@ == 0,
    {
        LogFlags { bits: 0 }
    }

    /// Strict construction: fails on any reserved bit.
    pub fn from_bits(bits: u8) -> (flags: Option<LogFlags>)
        ensures
            flags is Some <==> bits_defined(bits),
            flags matches Some(f) ==> f@ == bits,
    {
        if bits & !DEFINED_BITS == 0 {
            Some(LogFlags { bits })
        } else {
            None
        }
    }

    /// Permissive construction: keeps every bit, reserved ones too.
    pub fn from_bits_retain(bits: u8) -> (flags: LogFlags)
        ensures
            flags@ == bits,
    {
        LogFlags { bits }
    }

    /// The raw byte.
    pub fn bits(&self) -> (bits: u8)
        ensures
            bits == self@,
    {
        self.bits
    }

    /// Whether every flag of `other` is set in `self`.
    pub fn contains(&self, other: LogFlags) -> (present: bool)
        ensures
            present == bits_contain(self@, other@),
    {
        self.bits & other.bits == other.bits
    }

    /// Sets every flag of `other` in `self`.
    pub fn insert(&mut self, other: LogFlags)
        ensures
            final(self)@ == old(self)@ | other@,
    {
        self.bits = self.bits | other.bits;
    }
}

} // verus!
