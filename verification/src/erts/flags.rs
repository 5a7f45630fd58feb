//! Process flags.
use vstd::prelude::*;

verus! {

/// Bit of the flag that makes exit signals arrive as EXIT messages.
pub const TRAP_EXIT_BIT: u32 = 0x0040_0000;

/// Bit of the flag that makes distributed sends asynchronous.
pub const ASYNC_DIST_BIT: u32 = 0x0400_0000;

/// A set of process flags, as bits of a `u32`.
#[derive(Clone, Copy, Debug, Default, Hash, PartialEq, Eq, PartialOrd, Ord, Structural)]
pub struct ProcessFlags {
    bits: u32,
}

impl View for ProcessFlags {
    type V = u32;

    closed spec fn view(&self) -> u32 {
        self.bits
    }
}

impl ProcessFlags {
    /// Returns `true` if every flag of `other` is set in `self`.
    pub open spec fn spec_contains(&self, other: ProcessFlags) -> bool {
        self@ & other@ == other@
    }

    /// The empty set of flags.
    pub fn empty() -> (r: ProcessFlags)
        ensures
            r@ == 0,
    {
        ProcessFlags { bits: 0 }
    }

    /// The flag that makes exit signals arrive as EXIT messages.
    pub fn trap_exit() -> (r: ProcessFlags)
        ensures
            r@ == TRAP_EXIT_BIT,
    {
        ProcessFlags { bits: TRAP_EXIT_BIT }
    }

    /// The flag that makes distributed sends asynchronous.
    pub fn async_dist() -> (r: ProcessFlags)
        ensures
            r@ == ASYNC_DIST_BIT,
    {
        ProcessFlags { bits: ASYNC_DIST_BIT }
    }

    /// The flags with the given bits.
    pub fn from_bits_retain(bits: u32) -> (r: ProcessFlags)
        ensures
            r@ == bits,
    {
        ProcessFlags { bits }
    }

    /// Returns the bits of these flags.
    pub fn bits(&self) -> (r: u32)
        ensures
            r == self@,
    {
        self.bits
    }

    /// Returns `true` if every flag of `other` is set.
    pub fn contains(&self, other: ProcessFlags) -> (r: bool)
        ensures
            r == self.spec_contains(other),
    {
        self.bits & other.bits == other.bits
    }

    /// Sets the flags of `other`.
    pub fn insert(&mut self, other: ProcessFlags)
        ensures
            final(self)@ == old(self)@ | other@,
    {
        self.bits = self.bits | other.bits;
    }

    /// Clears the flags of `other`.
    pub fn remove(&mut self, other: ProcessFlags)
        ensures
            final(self)@ == old(self)@ & !other@,
    {
        self.bits = self.bits & !other.bits;
    }

    /// Sets the flags of `other` if `value` holds, else clears them.
    pub fn set(&mut self, other: ProcessFlags, value: bool)
        ensures
            final(self)@ == if value {
                old(self)@ | other@
            } else {
                old(self)@ & !other@
            },
    {
        if value {
            self.insert(other);
        } else {
            self.remove(other);
        }
    }
}

/// Setting a flag makes it contained; clearing it makes it absent; neither
/// touches the other bits.
pub proof fn law_flag_set_clear(flags: u32, flag: u32, other: u32)
    requires
        flag & other == 0,
    ensures
        (flags | flag) & flag == flag,
        flag != 0 ==> (flags & !flag) & flag != flag,
        (flags | flag) & other == flags & other,
        (flags & !flag) & other == flags & other,
{
    assert((flags | flag) & flag == flag) by (bit_vector);
    assert(flag != 0 ==> (flags & !flag) & flag != flag) by (bit_vector);
    assert(flag & other == 0 ==> (flags | flag) & other == flags & other) by (bit_vector);
    assert(flag & other == 0 ==> (flags & !flag) & other == flags & other) by (bit_vector);
}

} // verus!
