//! The process table: a fixed-capacity table of processes keyed by PID.
use vstd::prelude::*;
use vstd::set_lib::*;
use std::sync::Arc;

use crate::types::pids::InternalPid;
use crate::types::pids::spec_pid;
use crate::types::pids::lemma_spec_pid;

verus! {

broadcast use lemma_spec_pid;

// -----------------------------------------------------------------------------
// Index mapping, as functions of the table layout
//
// A table of `2^(s + 4)` slots is laid out as `2^s` blocks of 16 slots. A
// base index `x` (a sequence number) lands in block `x mod 2^s`, at position
// `(x >> s) mod 16` inside the block, so that consecutive base indices fall
// in different blocks.
// -----------------------------------------------------------------------------

/// Mask of the block field: `2^s - 1`.
pub open spec fn mask_block(s: u64) -> u64 {
    ((1u64 << s) - 1) as u64
}

/// Mask of a whole slot number: `2^(s + 4) - 1`.
pub open spec fn mask_entry(s: u64) -> u64 {
    ((1u64 << ((s + 4) as u64)) - 1) as u64
}

/// The slot that base index `x` lands in.
pub open spec fn real_index(x: u64, s: u64) -> u64 {
    ((x & mask_block(s)) << 4u64) | ((x >> s) & 15u64)
}

/// The base index that PID data `d` stands for (the inverse of [`pid_data`]).
pub open spec fn base_index(d: u64, s: u64) -> u64 {
    (d & !mask_entry(s)) | ((d >> 4u64) & mask_block(s)) | ((d & 15u64) << s)
}

/// The PID data of base index `x`: its high bits, over its slot.
pub open spec fn pid_data(x: u64, s: u64) -> u64 {
    (x & !mask_entry(s)) | real_index(x, s)
}

/// Mask of the 60 data bits of a PID.
pub open spec fn data_mask() -> u64 {
    0x0FFF_FFFF_FFFF_FFFFu64
}

/// The PID bits of base index `x`.
pub open spec fn pid_of_base(x: u64, s: u64) -> u64 {
    (pid_data(x & data_mask(), s) << 4u64) | 3u64
}

/// The slot that PID bits `p` name.
pub open spec fn slot_of_pid(p: u64, s: u64) -> u64 {
    (p >> 4u64) & mask_entry(s)
}

/// The base index that PID bits `p` name.
pub open spec fn base_of_pid(p: u64, s: u64) -> u64 {
    base_index(p >> 4u64, s)
}

proof fn lemma_real_index_bound(x: u64, s: u64)
    requires
        s <= 23,
    ensures
        real_index(x, s) <= mask_entry(s),
        real_index(x, s) == real_index(x & mask_entry(s), s),
{
    assert(s <= 23 ==> (((x & (((1u64 << s) - 1) as u64)) << 4u64) | ((x >> s) & 15u64)) <= (((1u64
        << ((s + 4) as u64)) - 1) as u64)) by (bit_vector);
    assert(s <= 23 ==> (((x & (((1u64 << s) - 1) as u64)) << 4u64) | ((x >> s) & 15u64)) == ((((x & (((1u64
        << ((s + 4) as u64)) - 1) as u64)) & (((1u64 << s) - 1) as u64)) << 4u64) | (((x & (((1u64 << ((s
        + 4) as u64)) - 1) as u64)) >> s) & 15u64))) by (bit_vector);
}

proof fn lemma_base_pid_data(x: u64, s: u64)
    requires
        s <= 23,
    ensures
        base_index(pid_data(x, s), s) == x,
{
    assert(s <= 23 ==> {
        let me = (((1u64 << ((s + 4) as u64)) - 1) as u64);
        let mb = (((1u64 << s) - 1) as u64);
        let r = ((x & mb) << 4u64) | ((x >> s) & 15u64);
        let d = (x & !me) | r;
        ((d & !me) | ((d >> 4u64) & mb) | ((d & 15u64) << s)) == x
    }) by (bit_vector);
}

proof fn lemma_real_base_index(d: u64, s: u64)
    requires
        s <= 23,
    ensures
        real_index(base_index(d, s), s) == d & mask_entry(s),
{
    assert(s <= 23 ==> {
        let me = (((1u64 << ((s + 4) as u64)) - 1) as u64);
        let mb = (((1u64 << s) - 1) as u64);
        let x = (d & !me) | ((d >> 4u64) & mb) | ((d & 15u64) << s);
        (((x & mb) << 4u64) | ((x >> s) & 15u64)) == d & me
    }) by (bit_vector);
}

proof fn lemma_pid_roundtrip(x: u64, s: u64)
    requires
        s <= 23,
        x <= data_mask(),
    ensures
        base_of_pid(pid_of_base(x, s), s) == x,
        slot_of_pid(pid_of_base(x, s), s) == real_index(x, s),
{
    assert(s <= 23 && x <= 0x0FFF_FFFF_FFFF_FFFFu64 ==> {
        let me = (((1u64 << ((s + 4) as u64)) - 1) as u64);
        let mb = (((1u64 << s) - 1) as u64);
        let xm = x & 0x0FFF_FFFF_FFFF_FFFFu64;
        let r = ((xm & mb) << 4u64) | ((xm >> s) & 15u64);
        let p = ((((xm & !me) | r)) << 4u64) | 3u64;
        let d = p >> 4u64;
        &&& ((d & !me) | ((d >> 4u64) & mb) | ((d & 15u64) << s)) == x
        &&& d & me == (((x & mb) << 4u64) | ((x >> s) & 15u64))
    }) by (bit_vector);
}


proof fn lemma_real_injective(x1: u64, x2: u64, s: u64)
    requires
        s <= 23,
        x1 <= mask_entry(s),
        x2 <= mask_entry(s),
        real_index(x1, s) == real_index(x2, s),
    ensures
        x1 == x2,
{
    assert(s <= 23 && x1 <= (((1u64 << ((s + 4) as u64)) - 1) as u64) && x2 <= (((1u64 << ((s + 4)
        as u64)) - 1) as u64) && (((x1 & (((1u64 << s) - 1) as u64)) << 4u64) | ((x1 >> s) & 15u64)) == (((x2
        & (((1u64 << s) - 1) as u64)) << 4u64) | ((x2 >> s) & 15u64)) ==> x1 == x2) by (bit_vector);
}

proof fn lemma_mask_entry_bounds(s: u64)
    requires
        s <= 23,
    ensures
        15 <= mask_entry(s) < 0x1000_0000,
        mask_block(s) < 0x0080_0000,
        mask_entry(s) + 1 == (mask_block(s) + 1) * 16,
{
    assert(s <= 23 ==> 15u64 <= (((1u64 << ((s + 4) as u64)) - 1) as u64) && (((1u64 << ((s + 4)
        as u64)) - 1) as u64) < 0x1000_0000u64 && (((1u64 << s) - 1) as u64) < 0x0080_0000u64
        && (((1u64 << ((s + 4) as u64)) - 1) as u64) + 1 == ((((1u64 << s) - 1) as u64) + 1) * 16)
        by (bit_vector);
}

/// Positions `h + k1` and `h + k2` of a ring of `me + 1` slots differ for
/// different offsets below the ring size.
proof fn lemma_ring_distinct(h: u64, k1: u64, k2: u64, me: u64)
    requires
        me < 0x1000_0000,
        me & ((me + 1) as u64) == 0,
        h <= me,
        k1 <= me,
        k2 <= me,
        k1 != k2,
    ensures
        ((h + k1) as u64) & me != ((h + k2) as u64) & me,
{
    assert(me < 0x1000_0000u64 && me & ((me + 1) as u64) == 0 && h <= me && k1 <= me && k2 <= me && k1
        != k2 ==> ((h + k1) as u64) & me != ((h + k2) as u64) & me) by (bit_vector);
}

/// Advancing the ring head by one shifts every position by one.
proof fn lemma_ring_step(h: u64, k: u64, me: u64)
    requires
        me < 0x1000_0000,
        me & ((me + 1) as u64) == 0,
        h <= me,
        k <= me,
    ensures
        ((((h + 1) as u64) & me) + k) as u64 & me == ((h + k + 1) as u64) & me,
{
    assert(me < 0x1000_0000u64 && me & ((me + 1) as u64) == 0 && h <= me && k <= me ==> ((((((h + 1)
        as u64) & me) + k) as u64) & me) == (((h + k + 1) as u64) & me)) by (bit_vector);
}

/// The low bits of a counter advanced by one, wrapping at `2^64`, are the
/// low bits advanced by one.
proof fn lemma_counter_step(a: u64, next: u64, me: u64)
    requires
        me < 0x1000_0000,
        me & ((me + 1) as u64) == 0,
        a == 0xFFFF_FFFF_FFFF_FFFFu64 ==> next == 0,
        a != 0xFFFF_FFFF_FFFF_FFFFu64 ==> next == a + 1,
    ensures
        next & me == (((a & me) + 1) as u64) & me,
{
    assert(me < 0x1000_0000u64 && me & ((me + 1) as u64) == 0 && a == 0xFFFF_FFFF_FFFF_FFFFu64 ==> 0u64
        & me == ((((a & me) + 1) as u64) & me)) by (bit_vector);
    assert(me < 0x1000_0000u64 && me & ((me + 1) as u64) == 0 && a != 0xFFFF_FFFF_FFFF_FFFFu64 ==> (((a
        + 1) as u64) & me) == ((((a & me) + 1) as u64) & me)) by (bit_vector);
}

/// The mask of a table layout is one less than a power of two.
proof fn lemma_mask_entry_shape(s: u64)
    requires
        s <= 23,
    ensures
        mask_entry(s) & ((mask_entry(s) + 1) as u64) == 0,
{
    assert(s <= 23 ==> (((1u64 << ((s + 4) as u64)) - 1) as u64) & ((((((1u64 << ((s + 4) as u64)) - 1)
        as u64) + 1) as u64)) == 0) by (bit_vector);
}


/// Adding the table size and masking to the 60 data bits keeps the slot of
/// a base index, and stays below the data mask.
proof fn lemma_refresh(p: u64, s: u64)
    requires
        s <= 23,
    ensures
        base_of_pid(p, s) <= data_mask(),
        ((base_of_pid(p, s) + mask_entry(s) + 1) as u64) & data_mask() <= data_mask(),
        real_index(((base_of_pid(p, s) + mask_entry(s) + 1) as u64) & data_mask(), s) == slot_of_pid(p, s),
{
    assert(s <= 23 ==> {
        let me = (((1u64 << ((s + 4) as u64)) - 1) as u64);
        let mb = (((1u64 << s) - 1) as u64);
        let d = p >> 4u64;
        let y = (d & !me) | ((d >> 4u64) & mb) | ((d & 15u64) << s);
        let z = ((y + me + 1) as u64) & 0x0FFF_FFFF_FFFF_FFFFu64;
        &&& y <= 0x0FFF_FFFF_FFFF_FFFFu64
        &&& z <= 0x0FFF_FFFF_FFFF_FFFFu64
        &&& (((z & mb) << 4u64) | ((z >> s) & 15u64)) == d & me
    }) by (bit_vector);
}

proof fn lemma_and_le(y: u64, me: u64)
    ensures
        y & me <= me,
{
    assert(y & me <= me) by (bit_vector);
}

/// Ring bookkeeping of the free-slot queue: the tail and head of a ring of
/// `me + 1` positions, `c` apart.
proof fn lemma_ring_ends(t: u64, h: u64, c: u64, me: u64)
    requires
        me < 0x1000_0000,
        me & ((me + 1) as u64) == 0,
        t <= me,
        c <= me + 1,
        ((t + c) as u64) & me == h,
    ensures
        ((h + (me + 1 - c)) as u64) & me == t,
        c < me + 1 ==> ((t + c + 1) as u64) & me == (((h + 1) as u64) & me),
        c >= 1 ==> (((((t + 1) as u64) & me) + (c - 1)) as u64) & me == h,
        h <= me,
{
    assert(me < 0x1000_0000u64 && me & ((me + 1) as u64) == 0 && t <= me && c <= me + 1 && ((t + c)
        as u64) & me == h ==> {
        &&& ((h + (me + 1 - c)) as u64) & me == t
        &&& (c < me + 1 ==> ((t + c + 1) as u64) & me == (((h + 1) as u64) & me))
        &&& (c >= 1 ==> (((((t + 1) as u64) & me) + (c - 1)) as u64) & me == h)
        &&& h <= me
    }) by (bit_vector);
}

/// The first position of a ring is its head.
proof fn lemma_ring_head(a: u64, me: u64)
    requires
        me < 0x1000_0000,
        me & ((me + 1) as u64) == 0,
    ensures
        (((a & me) + 0) as u64) & me == a & me,
        ((((a & me) + me + 1) as u64) & me) == a & me,
        a & me <= me,
{
    assert(me < 0x1000_0000u64 && me & ((me + 1) as u64) == 0 ==> (((a & me) + 0) as u64) & me == a & me && ((((a & me) + me + 1)
        as u64) & me) == a & me && a & me <= me) by (bit_vector);
}

// -----------------------------------------------------------------------------
// Table sizes
// -----------------------------------------------------------------------------

/// Smallest number of entries a table holds.
pub const MIN_ENTRIES: usize = 16;

/// Largest number of entries a table holds.
pub const MAX_ENTRIES: usize = 134217728;

/// Number of entries of a table made by [`ProcessTable::new`].
pub const DEF_ENTRIES: usize = 1048576;

/// Marks a position of the free-slot ring whose slot id has been handed out.
pub const RESERVED: u64 = 0xFFFF_FFFF_FFFF_FFFF;

/// Size of a cache line, in bytes.
pub const CACHE_LINE: usize = 128;

/// Size of a table entry, in bytes.
pub const ENTRY_SIZE: usize = 8;

/// Number of table entries in one cache line.
pub const SLOT_COUNT: usize = 16;

/// The exponent of the table size chosen for `capacity`, searched upwards
/// from `k`: the least `k' >= k`, at most 27, with `capacity <= 2^k'`.
pub open spec fn size_shift_from(capacity: int, k: u64) -> u64
    decreases 27 - k,
{
    if k >= 27 || capacity <= (1u64 << k) {
        k
    } else {
        size_shift_from(capacity, (k + 1) as u64)
    }
}

/// The exponent of the size of a table asked to hold `capacity` entries.
pub open spec fn size_shift(capacity: int) -> u64 {
    size_shift_from(capacity, 4)
}

/// A power of two `2^j`, for `4 <= j <= 27`, gets a table of exactly its size.
proof fn lemma_size_shift_of_power(j: u64, k: u64)
    requires
        4 <= k <= j <= 27,
    ensures
        size_shift_from((1u64 << j) as int, k) == j,
    decreases j - k,
{
    if k < j {
        assert(k < j && j <= 27 ==> (1u64 << j) > (1u64 << k)) by (bit_vector);
        lemma_size_shift_of_power(j, (k + 1) as u64);
    }
}

proof fn lemma_shift_small(k: u64)
    requires
        k <= 27,
    ensures
        (1u64 << k) <= 0x0800_0000,
        k >= 4 ==> (1u64 << k) >= 16,
        k >= 4 ==> ((1u64 << k) - 1) as u64 == mask_entry((k - 4) as u64),
{
    assert(k <= 27 ==> (1u64 << k) <= 0x0800_0000u64 && (k >= 4 ==> (1u64 << k) >= 16u64) && (k >= 4 ==> (
        (1u64 << k) - 1) as u64 == (((1u64 << (((k - 4) as u64) + 4) as u64) - 1) as u64))) by (bit_vector);
}

/// The exponent chosen for `capacity` is the least `j >= k`, at most 27,
/// with `capacity <= 2^j`.
proof fn lemma_size_shift_least(capacity: int, k: u64)
    requires
        4 <= k <= 27,
    ensures
        k <= size_shift_from(capacity, k) <= 27,
        size_shift_from(capacity, k) < 27 ==> capacity <= (1u64 << size_shift_from(capacity, k)),
        size_shift_from(capacity, k) > k ==> capacity > (1u64 << ((size_shift_from(capacity, k) - 1) as u64)),
    decreases 27 - k,
{
    if k < 27 && !(capacity <= (1u64 << k)) {
        lemma_size_shift_least(capacity, (k + 1) as u64);
    }
}

/// The size of a table asked to hold `capacity` entries: the least power of
/// two no smaller than `capacity`, kept within [`MIN_ENTRIES`] and
/// [`MAX_ENTRIES`].
pub fn actual_capacity(capacity: usize) -> (r: usize)
    ensures
        r as u64 == 1u64 << size_shift(capacity as int),
        4 <= size_shift(capacity as int) <= 27,
{
    proof {
        lemma_size_shift_least(capacity as int, 4);
    }
    let ghost j = size_shift(capacity as int);
    if capacity < MIN_ENTRIES {
        proof {
            assert((1u64 << 4u64) == 16u64) by (bit_vector);
            assert(j == 4) by {
                if j > 4 {
                    assert((1u64 << ((j - 1) as u64)) >= 16u64) by (bit_vector)
                        requires
                            4 < j <= 27,
                    ;
                }
            }
        }
        return MIN_ENTRIES;
    }
    if capacity > MAX_ENTRIES {
        proof {
            assert((1u64 << 27u64) == 0x0800_0000u64) by (bit_vector);
            assert(j == 27) by {
                if j < 27 {
                    assert((1u64 << j) <= 0x0400_0000u64) by (bit_vector)
                        requires
                            j < 27,
                    ;
                }
            }
        }
        return MAX_ENTRIES;
    }
    // Round up to a power of two: spread the highest set bit of
    // `capacity - 1` to every lower bit, then add one.
    let mut v: u64 = (capacity - 1) as u64;
    v = v | (v >> 1u64);
    v = v | (v >> 2u64);
    v = v | (v >> 4u64);
    v = v | (v >> 8u64);
    v = v | (v >> 16u64);
    proof {
        let c = capacity as u64;
        assert(j == 27 || c <= (1u64 << j));
        assert(c <= 0x0800_0000u64);
        assert(c <= 0x0800_0000u64 && j == 27 ==> c <= (1u64 << j)) by (bit_vector);
        assert({
            let v0 = (c - 1) as u64;
            let v1 = v0 | (v0 >> 1u64);
            let v2 = v1 | (v1 >> 2u64);
            let v3 = v2 | (v2 >> 4u64);
            let v4 = v3 | (v3 >> 8u64);
            let v5 = v4 | (v4 >> 16u64);
            (v5 + 1) as u64 == (1u64 << j) && v5 < 0x1000_0000u64
        }) by (bit_vector)
            requires
                16 <= c <= 0x0800_0000u64,
                4 <= j <= 27,
                c <= (1u64 << j),
                j > 4 ==> c > (1u64 << ((j - 1) as u64)),
        ;
    }
    (v + 1) as usize
}

/// The number of bits needed to write `value`.
fn bit_width(value: u64) -> (r: u32)
    ensures
        r <= 64,
        r < 64 ==> value >> (r as u64) == 0,
        r > 0 ==> value >> ((r - 1) as u64) != 0,
{
    let mut r: u32 = 0;
    while r < 64 && (value >> (r as u64)) != 0
        invariant
            r <= 64,
            r > 0 ==> value >> ((r - 1) as u64) != 0,
        decreases 64 - r,
    {
        r = r + 1;
    }
    r
}

proof fn lemma_bit_width_of_mask(k: u64, r: u64)
    requires
        k <= 27,
        r <= 64,
        r < 64 ==> (((1u64 << k) - 1) as u64) >> r == 0,
        r > 0 ==> (((1u64 << k) - 1) as u64) >> ((r - 1) as u64) != 0,
    ensures
        r == k,
{
    assert(k <= 27 && r <= 64 && (r < 64 ==> (((1u64 << k) - 1) as u64) >> r == 0) && (r > 0 ==> (((1u64
        << k) - 1) as u64) >> ((r - 1) as u64) != 0) ==> r == k) by (bit_vector);
}

/// Rounds `value` up to a whole number of cache lines.
fn strict_align(value: usize) -> (r: usize)
    requires
        1 <= value <= 0x4000_0000,
    ensures
        r as int == ((value - 1) / CACHE_LINE as int + 1) * CACHE_LINE,
{
    ((value - 1) / CACHE_LINE + 1) * CACHE_LINE
}


// -----------------------------------------------------------------------------
// Table layout
// -----------------------------------------------------------------------------

/// Error returned by [`ProcessTable::insert`] when the table is full.
#[derive(Clone, Copy, Debug, PartialEq, Eq, Structural)]
pub struct ProcessTableFull;

impl ProcessTableFull {
    /// The error's message.
    pub fn to_string(&self) -> (r: String)
        ensures
            r@ == "too many processes"@,
    {
        String::from_str("too many processes")
    }
}

/// A value within a mask of low bits is left as it is by that mask.
proof fn lemma_mask_keeps(d: u64, me: u64)
    requires
        d <= me,
        me & ((me + 1) as u64) == 0,
    ensures
        d & me == d,
{
    assert(d & me == d) by (bit_vector)
        requires
            d <= me,
            me & ((me + 1) as u64) == 0,
    ;
}

/// The fixed layout of a table: its size and the masks and shifts that map
/// base indices and PIDs to slots.
pub struct ReadOnly {
    cap: usize,
    id_mask_entry: u32,
    id_mask_block: u32,
    id_mask_index: u32,
    id_shift_block: u32,
    id_shift_index: u32,
}

impl ReadOnly {
    /// The shift that places the low bits of a base index above the slot's
    /// block bits.
    pub closed spec fn s(&self) -> u64 {
        self.id_shift_index as u64
    }

    /// Number of slots of the table.
    pub closed spec fn spec_cap(&self) -> int {
        self.cap as int
    }

    /// The invariant: the masks and shifts agree with the size.
    pub closed spec fn wf(&self) -> bool {
        &&& self.id_shift_index <= 23
        &&& self.id_shift_block == 4
        &&& self.id_mask_index == 15
        &&& self.id_mask_block as u64 == mask_block(self.s())
        &&& self.id_mask_entry as u64 == mask_entry(self.s())
        &&& self.cap as int == mask_entry(self.s()) + 1
    }

    /// The base index that PID data `input` stands for.
    pub fn pid_data_to_base_index(&self, input: u64) -> (r: u64)
        requires
            self.wf(),
        ensures
            r == base_index(input, self.s()),
    {
        let mut value: u64 = input & !(self.id_mask_entry as u64);
        value = value | ((input >> self.id_shift_block) & self.id_mask_block as u64);
        value = value | ((input & self.id_mask_index as u64) << self.id_shift_index);
        value
    }

    /// The slot that PID data `input` names.
    pub fn pid_data_to_real_index(&self, input: u64) -> (r: u64)
        requires
            self.wf(),
        ensures
            r == input & mask_entry(self.s()),
            r < self.spec_cap(),
    {
        proof {
            lemma_mask_entry_bounds(self.s());
            let me = mask_entry(self.s());
            assert(input & me <= me) by (bit_vector);
        }
        input & self.id_mask_entry as u64
    }

    /// The slot that base index `input` lands in.
    pub fn base_index_to_real_index(&self, input: u64) -> (r: u64)
        requires
            self.wf(),
        ensures
            r == real_index(input, self.s()),
            r < self.spec_cap(),
    {
        proof {
            lemma_real_index_bound(input, self.s());
        }
        let mut value: u64 = 0;
        value = value | ((input & self.id_mask_block as u64) << self.id_shift_block);
        value = value | ((input >> self.id_shift_index) & self.id_mask_index as u64);
        proof {
            let s = self.s();
            assert((0u64 | ((input & (((1u64 << s) - 1) as u64)) << 4u64)) | ((input >> s) & 15u64) == (((input
                & (((1u64 << s) - 1) as u64)) << 4u64) | ((input >> s) & 15u64))) by (bit_vector);
        }
        value
    }

    /// The PID data of base index `input`.
    pub fn base_index_to_pid_data(&self, input: u64) -> (r: u64)
        requires
            self.wf(),
        ensures
            r == pid_data(input, self.s()),
    {
        let value: u64 = input & !(self.id_mask_entry as u64);
        let value: u64 = value | self.base_index_to_real_index(input);
        value
    }

    /// The PID of base index `input`.
    pub fn base_index_to_pid(&self, input: u64) -> (r: InternalPid)
        requires
            self.wf(),
        ensures
            r@ == pid_of_base(input, self.s()),
    {
        let value: u64 = input & 0x0FFF_FFFF_FFFF_FFFFu64;
        let value: u64 = self.base_index_to_pid_data(value);
        let value: u64 = (value << 4u64) | 3u64;
        InternalPid::from_bits(value)
    }

    /// The slot that `pid` names.
    pub fn pid_to_real_index(&self, input: InternalPid) -> (r: u64)
        requires
            self.wf(),
        ensures
            r == slot_of_pid(input@, self.s()),
            r < self.spec_cap(),
    {
        let value: u64 = input.into_bits() >> 4u64;
        self.pid_data_to_real_index(value)
    }

    /// The base index that `pid` names.
    pub fn pid_to_base_index(&self, input: InternalPid) -> (r: u64)
        requires
            self.wf(),
        ensures
            r == base_of_pid(input@, self.s()),
    {
        let value: u64 = input.into_bits() >> 4u64;
        self.pid_data_to_base_index(value)
    }
}

/// The volatile counters of a table.
struct Volatile {
    /// Number of entries, counting the slot a full-size table keeps back.
    len: u32,
    /// Sequence number of the next free-ring position to take a slot id from.
    aid: u64,
    /// Sequence number of the next free-ring position to return a slot id to.
    fid: u64,
}

/// Clones an `Arc` (`<Arc<T> as Clone>::clone`); the contract claims the
/// clone points to the same value.
#[verifier::external_body]
fn arc_clone<T>(value: &Arc<T>) -> (r: Arc<T>)
    ensures
        r == *value,
{
    Arc::clone(value)
}


// -----------------------------------------------------------------------------
// Process table
// -----------------------------------------------------------------------------

/// Fixed-capacity table of entries keyed by process identifier.
///
/// A table of `2^k` slots hands out slot ids from a ring of free ids. An id
/// is a base index: its low `k` bits select the slot, its higher bits count
/// how often the slot was reused. Inserting takes the id at the head of the
/// ring; removing an entry returns its slot, with the next generation's id,
/// to the tail. The PID of an entry encodes its id, so the table maps PIDs
/// back to slots.
///
/// A table of [`MAX_ENTRIES`] slots keeps one slot back, since it can only
/// yield `MAX_ENTRIES - 1` distinct identifiers.
pub struct ProcessTable<T> {
    volatile: Volatile,
    readonly: ReadOnly,
    concrete: Vec<Option<Arc<T>>>,
    abstract_ids: Vec<u64>,
    issued: Vec<u64>,
}

impl<T> View for ProcessTable<T> {
    type V = Map<int, T>;

    /// The entries of the table, by slot.
    closed spec fn view(&self) -> Map<int, T> {
        Map::new(|i: int| self.occupied().contains(i), |i: int| *self.concrete@[i]->0)
    }
}

impl<T> ProcessTable<T> {
    /// The shift of this table's layout.
    pub closed spec fn s(&self) -> u64 {
        self.readonly.s()
    }

    spec fn me(&self) -> u64 {
        mask_entry(self.s())
    }

    spec fn head(&self) -> u64 {
        self.volatile.aid & self.me()
    }

    spec fn tail(&self) -> u64 {
        self.volatile.fid & self.me()
    }

    /// Number of slots the table keeps back: one for a table of
    /// [`MAX_ENTRIES`] slots, else none.
    pub open spec fn reserved(&self) -> nat {
        if self.spec_capacity() == MAX_ENTRIES {
            1
        } else {
            0
        }
    }

    /// Number of slots this table holds.
    pub closed spec fn spec_capacity(&self) -> nat {
        self.readonly.cap as nat
    }

    /// The slot that `pid` names in this table.
    pub closed spec fn pid_slot(&self, pid: InternalPid) -> int {
        slot_of_pid(pid@, self.s()) as int
    }

    /// The PID that the next insertion hands out: the one the first free id
    /// encodes.
    pub closed spec fn next_pid(&self) -> InternalPid {
        spec_pid(pid_of_base(self.ring_at(0), self.s()))
    }

    /// The `(number, serial)` pair that `pid` translates to.
    pub closed spec fn pid_parts(&self, pid: InternalPid) -> (u32, u32) {
        let source = base_of_pid(pid@, self.s());
        ((source & 0x0FFF_FFFFu64) as u32, ((source >> 28u64) & 0xFFFF_FFFFu64) as u32)
    }

    /// The PID that base index `index` encodes.
    pub closed spec fn index_pid(&self, index: int) -> InternalPid {
        spec_pid(pid_of_base(index as u64, self.s()))
    }

    /// The PID each entry was handed out with, by slot.
    pub closed spec fn pids(&self) -> Map<int, InternalPid> {
        Map::new(|i: int| self.occupied().contains(i), |i: int| spec_pid(pid_of_base(self.issued@[i], self.s())))
    }

    /// The ids of the free ring, head first: the next insertion takes the
    /// first, and a removal appends the freed slot's next id.
    pub closed spec fn free_ids(&self) -> Seq<u64> {
        Seq::new(self.ring_len() as nat, |k: int| self.ring_at(k))
    }

    /// The PID that [`ProcessTable::keys`] lists for base index `index`: the
    /// PID of the entry in the slot the index lands in.
    pub open spec fn key_pid(&self, index: int) -> InternalPid {
        self.pids()[self.index_slot(index)]
    }

    /// The slot that base index `index` lands in.
    pub closed spec fn index_slot(&self, index: int) -> int {
        real_index(index as u64, self.s()) as int
    }

    /// Returns `true` if the slot that base index `index` lands in is in use.
    pub open spec fn key_in_use(&self, index: int) -> bool {
        self@.dom().contains(self.index_slot(index))
    }

    /// The PIDs that [`ProcessTable::keys`] lists among the first `n` base
    /// indices.
    pub open spec fn keys_upto(&self, n: int) -> Seq<InternalPid>
        decreases n,
    {
        if n <= 0 {
            Seq::empty()
        } else if self.key_in_use(n - 1) {
            self.keys_upto(n - 1).push(self.key_pid(n - 1))
        } else {
            self.keys_upto(n - 1)
        }
    }

    /// Number of free-ring positions that hold a slot id.
    spec fn ring_len(&self) -> int {
        self.readonly.cap - self.volatile.len + self.reserved()
    }

    /// The abstract-array position of the `k`-th ring entry after the head.
    spec fn pos(&self, k: int) -> int {
        real_index((((self.head() + k) as u64) & self.me()) as u64, self.s()) as int
    }

    /// The `k`-th ring entry after the head.
    spec fn ring_at(&self, k: int) -> u64 {
        self.abstract_ids@[self.pos(k)]
    }

    /// The slot of the `k`-th ring entry after the head.
    spec fn ring_slot(&self, k: int) -> int {
        real_index(self.ring_at(k), self.s()) as int
    }

    /// The slots in use.
    spec fn occupied(&self) -> Set<int> {
        Set::new(|i: int| 0 <= i < self.readonly.cap && self.concrete@[i] is Some)
    }

    /// The table's invariant.
    pub closed spec fn wf(&self) -> bool {
        &&& self.readonly.wf()
        &&& self.concrete@.len() == self.readonly.cap
        &&& self.abstract_ids@.len() == self.readonly.cap
        &&& self.reserved() <= self.volatile.len <= self.readonly.cap
        &&& ((self.tail() + (self.volatile.len - self.reserved())) as u64) & self.me() == self.head()
        &&& forall|k: int|
            0 <= k < self.ring_len() ==> #[trigger] self.ring_at(k) <= data_mask()
                && self.concrete@[real_index(self.ring_at(k), self.s()) as int] is None
        &&& forall|k1: int, k2: int|
            0 <= k1 < self.ring_len() && 0 <= k2 < self.ring_len() && k1 != k2 ==> #[trigger] self.ring_slot(
                k1,
            ) != #[trigger] self.ring_slot(k2)
        &&& forall|k: int| self.ring_len() <= k < self.readonly.cap ==> #[trigger] self.ring_at(k) == RESERVED
        &&& self.occupied().finite()
        &&& self.occupied().len() + self.reserved() == self.volatile.len
        &&& self.issued@.len() == self.readonly.cap
        &&& forall|i: int| #[trigger] self.occupied().contains(i) ==> self.issued@[i] <= data_mask()
            && real_index(self.issued@[i], self.s()) == i
    }

    proof fn lemma_layout(&self)
        requires
            self.readonly.wf(),
        ensures
            15 <= self.me() < 0x1000_0000,
            self.me() & ((self.me() + 1) as u64) == 0,
            self.readonly.cap == self.me() + 1,
            self.head() <= self.me(),
            self.tail() <= self.me(),
    {
        lemma_mask_entry_bounds(self.s());
        lemma_mask_entry_shape(self.s());
        lemma_ring_head(self.volatile.aid, self.me());
        lemma_ring_head(self.volatile.fid, self.me());
    }

    /// Distinct ring offsets below the table size sit at distinct positions.
    proof fn lemma_pos_distinct(&self, k1: int, k2: int)
        requires
            self.readonly.wf(),
            0 <= k1 < self.readonly.cap,
            0 <= k2 < self.readonly.cap,
            k1 != k2,
        ensures
            self.pos(k1) != self.pos(k2),
            self.pos(k1) < self.readonly.cap,
    {
        self.lemma_layout();
        let me = self.me();
        let h = self.head();
        lemma_ring_distinct(h, k1 as u64, k2 as u64, me);
        let x1 = ((h + k1) as u64) & me;
        let x2 = ((h + k2) as u64) & me;
        lemma_and_le(((h + k1) as u64), me);
        lemma_and_le(((h + k2) as u64), me);
        if real_index(x1, self.s()) == real_index(x2, self.s()) {
            lemma_real_injective(x1, x2, self.s());
        }
        lemma_real_index_bound(x1, self.s());
    }

    /// Creates a table with [`DEF_ENTRIES`] slots.
    pub fn new() -> (r: ProcessTable<T>)
        ensures
            r.wf(),
            r@ == Map::<int, T>::empty(),
            r.spec_capacity() == DEF_ENTRIES,
    {
        let r = Self::with_capacity(DEF_ENTRIES);
        proof {
            assert((1u64 << 20u64) == DEF_ENTRIES) by (bit_vector);
            lemma_size_shift_of_power(20, 4);
        }
        r
    }

    /// Creates a table with room for at least `capacity` entries: the least
    /// power of two no smaller than `capacity`, within [`MIN_ENTRIES`] and
    /// [`MAX_ENTRIES`].
    pub fn with_capacity(capacity: usize) -> (r: ProcessTable<T>)
        ensures
            r.wf(),
            r@ == Map::<int, T>::empty(),
            r.spec_capacity() == 1u64 << size_shift(capacity as int),
            (r.spec_capacity() == MAX_ENTRIES) == (capacity > MAX_ENTRIES / 2),
            MIN_ENTRIES <= r.spec_capacity() <= MAX_ENTRIES,
            r.spec_capacity() >= (if capacity <= MAX_ENTRIES {
                capacity
            } else {
                MAX_ENTRIES
            }),
            r.count() == r.reserved(),
    {
        let r = Self::alloc_table(capacity);
        proof {
            lemma_size_shift_least(capacity as int, 4);
            let k = size_shift(capacity as int);
            assert(4 <= k <= 27 ==> {
                &&& ((1u64 << k) == 0x800_0000u64) == (k == 27)
                &&& k < 27 ==> (1u64 << k) <= 0x400_0000u64
                &&& k == 27 ==> (1u64 << ((k - 1) as u64)) == 0x400_0000u64
                &&& 16u64 <= (1u64 << k) <= 0x800_0000u64
            }) by (bit_vector);
        }
        r
    }

    /// Returns the layout that maps this table's base indices and PIDs to
    /// slots.
    pub fn layout(&self) -> (r: &ReadOnly)
        requires
            self.wf(),
        ensures
            r.wf(),
            r.s() == self.s(),
    {
        &self.readonly
    }

    /// Returns the number of slots of the table.
    pub fn capacity(&self) -> (r: usize)
        requires
            self.wf(),
        ensures
            r == self.spec_capacity(),
    {
        self.readonly.cap
    }

    /// Returns the number of entries in the table, counting the slot that a
    /// table of [`MAX_ENTRIES`] slots keeps back.
    pub fn len(&self) -> (r: usize)
        requires
            self.wf(),
        ensures
            r == self@.dom().len() + self.reserved(),
    {
        proof {
            assert(self@.dom() =~= self.occupied());
        }
        self.volatile.len as usize
    }

    /// Returns `true` if the table counts no entries.
    pub fn is_empty(&self) -> (r: bool)
        requires
            self.wf(),
        ensures
            r == (self@.dom().len() + self.reserved() == 0),
    {
        self.len() == 0
    }

    fn alloc_concrete_array(count: usize) -> (r: Vec<Option<Arc<T>>>)
        ensures
            r@.len() == count,
            forall|i: int| 0 <= i < count ==> r@[i] is None,
    {
        let mut r: Vec<Option<Arc<T>>> = Vec::new();
        let mut offset: usize = 0;
        while offset < count
            invariant
                offset <= count,
                r@.len() == offset,
                forall|i: int| 0 <= i < offset ==> r@[i] is None,
            decreases count - offset,
        {
            r.push(None);
            offset = offset + 1;
        }
        r
    }

    /// An array of `count` ids, all zero until their slot is handed out.
    fn alloc_id_array(count: usize) -> (r: Vec<u64>)
        ensures
            r@.len() == count,
    {
        let mut r: Vec<u64> = Vec::new();
        let mut offset: usize = 0;
        while offset < count
            invariant
                offset <= count,
                r@.len() == offset,
            decreases count - offset,
        {
            r.push(0);
            offset = offset + 1;
        }
        r
    }

    /// Fills the abstract array: position `block * 16 + index` starts with
    /// base index `index * blocks + block`, the id whose slot it is.
    fn alloc_abstract_array(readonly: &ReadOnly, blocks: usize) -> (r: Vec<u64>)
        requires
            readonly.wf(),
            blocks * 16 == readonly.cap,
            blocks as u64 == mask_block(readonly.s()) + 1,
        ensures
            r@.len() == readonly.cap,
            forall|i: int| 0 <= i < readonly.cap ==> #[trigger] r@[i] <= data_mask() && real_index(r@[i], readonly.s()) == i,
    {
        proof {
            lemma_mask_entry_bounds(readonly.s());
        }
        assert(blocks <= 0x0080_0000);
        let mut r: Vec<u64> = Vec::new();
        let mut block: usize = 0;
        while block < blocks
            invariant
                readonly.wf(),
                blocks * 16 == readonly.cap,
                blocks as u64 == mask_block(readonly.s()) + 1,
                blocks <= 0x0080_0000,
                block <= blocks,
                r@.len() == block * 16,
                forall|i: int| 0 <= i < r@.len() ==> #[trigger] r@[i] <= data_mask() && real_index(r@[i], readonly.s()) == i,
            decreases blocks - block,
        {
            let mut index: usize = 0;
            while index < SLOT_COUNT
                invariant
                    readonly.wf(),
                    blocks * 16 == readonly.cap,
                    blocks as u64 == mask_block(readonly.s()) + 1,
                    blocks <= 0x0080_0000,
                    block < blocks,
                    index <= 16,
                    r@.len() == block * 16 + index,
                    forall|i: int| 0 <= i < r@.len() ==> #[trigger] r@[i] <= data_mask() && real_index(r@[i], readonly.s()) == i,
                decreases 16 - index,
            {
                assert(index * blocks + block < 0x1000_0000) by (nonlinear_arith)
                    requires
                        index < 16,
                        block < blocks,
                        blocks <= 0x0080_0000,
                ;
                let value: u64 = (index * blocks + block) as u64;
                proof {
                    let sh = readonly.s();
                    let b = block as u64;
                    let x = index as u64;
                    let bl = blocks as u64;
                    assert(sh <= 23 && x < 16 && b < bl && bl == (((1u64 << sh) - 1) as u64) + 1 ==> (((((x * bl + b)
                        as u64) & (((1u64 << sh) - 1) as u64)) << 4u64) | ((((x * bl + b) as u64) >> sh) & 15u64))
                        == ((b * 16 + x) as u64)) by (bit_vector);
                    assert(value == (x * bl + b) as u64);
                    assert(sh <= 23 && x < 16 && b < bl && bl == (((1u64 << sh) - 1) as u64) + 1 ==> ((x * bl + b)
                        as u64) <= 0x0FFF_FFFF_FFFF_FFFFu64) by (bit_vector);
                }
                let ghost before = r@;
                r.push(value);
                proof {
                    assert(r@[before.len() as int] == value);
                    assert(real_index(value, readonly.s()) as int == block * 16 + index);
                    assert forall|i: int| 0 <= i < r@.len() implies #[trigger] r@[i] <= data_mask() && real_index(
                        r@[i],
                        readonly.s(),
                    ) == i by {
                        if i < before.len() {
                            assert(r@[i] == before[i]);
                        }
                    }
                }
                index = index + 1;
            }
            block = block + 1;
        }
        r
    }

    fn alloc_table(capacity: usize) -> (r: ProcessTable<T>)
        ensures
            r.wf(),
            r@ == Map::<int, T>::empty(),
            r.spec_capacity() == 1u64 << size_shift(capacity as int),
    {
        // Determine size.
        let size: usize = actual_capacity(capacity);
        let ghost k = size_shift(capacity as int);
        proof {
            lemma_shift_small(k);
        }
        let bits: u32 = bit_width((size - 1) as u64);
        proof {
            lemma_bit_width_of_mask(k, bits as u64);
        }
        // Determine layout.
        let memory: usize = strict_align(size * ENTRY_SIZE);
        let blocks: usize = memory / CACHE_LINE;
        proof {
            let kk = k;
            assert(4 <= kk <= 27 ==> ((((1u64 << kk) * 8 - 1) / 128 + 1) * 128) / 128 == (1u64 << kk) / 16
                && (1u64 << kk) / 16 == (1u64 << ((kk - 4) as u64)) && (1u64 << kk) % 16 == 0)
                by (bit_vector);
        }
        // Determine format.
        let id_mask_entry: u32 = ((1u64 << bits) - 1) as u32;
        let id_mask_block: u32 = (blocks - 1) as u32;
        let id_mask_index: u32 = (SLOT_COUNT - 1) as u32;
        let id_shift_block: u32 = bit_width(id_mask_index as u64);
        let id_shift_index: u32 = bit_width(id_mask_block as u64);
        proof {
            assert(((1u64 << 4u64) - 1) as u64 == 15u64) by (bit_vector);
            lemma_bit_width_of_mask(4, id_shift_block as u64);
            lemma_bit_width_of_mask((k - 4) as u64, id_shift_index as u64);
            let j = (k - 4) as u64;
            assert(j <= 23 ==> (((1u64 << j) - 1) as u64) == mask_block(j) && (((1u64 << ((j + 4) as u64)) - 1)
                as u64) == mask_entry(j) && (1u64 << ((j + 4) as u64)) == mask_entry(j) + 1) by (bit_vector);
        }
        let readonly = ReadOnly {
            cap: size,
            id_mask_entry,
            id_mask_block,
            id_mask_index,
            id_shift_block,
            id_shift_index,
        };
        // Allocate.
        let concrete = Self::alloc_concrete_array(size);
        let abstract_ids = Self::alloc_abstract_array(&readonly, blocks);
        let issued = Self::alloc_id_array(size);
        // A table of the largest size keeps one slot back.
        let len: u32 = if size == MAX_ENTRIES {
            1
        } else {
            0
        };
        let this = ProcessTable {
            volatile: Volatile { len, aid: 0, fid: 0 },
            readonly,
            concrete,
            abstract_ids,
            issued,
        };
        proof {
            this.lemma_layout();
            let me = this.me();
            assert(0u64 & me == 0 && ((0u64 + 0) as u64) & me == 0) by (bit_vector);
            assert(this.occupied() =~= Set::<int>::empty());
            assert(this@ =~= Map::<int, T>::empty());
            assert forall|k: int| 0 <= k < this.ring_len() implies #[trigger] this.ring_at(k) <= data_mask()
                && this.concrete@[real_index(this.ring_at(k), this.s()) as int] is None by {
                if this.reserved() == 1 {
                    assert(this.ring_len() == this.readonly.cap);
                }
                this.lemma_pos_distinct(k, if k == 0 { 1 } else { 0 });
                assert(real_index(this.abstract_ids@[this.pos(k)], this.s()) == this.pos(k));
            }
            assert forall|k1: int, k2: int|
                0 <= k1 < this.ring_len() && 0 <= k2 < this.ring_len() && k1 != k2 implies #[trigger] this.ring_slot(
                k1,
            ) != #[trigger] this.ring_slot(k2) by {
                this.lemma_pos_distinct(k1, k2);
                this.lemma_pos_distinct(k2, k1);
                assert(real_index(this.abstract_ids@[this.pos(k1)], this.s()) == this.pos(k1));
                assert(real_index(this.abstract_ids@[this.pos(k2)], this.s()) == this.pos(k2));
            }
        }
        this
    }
}


impl<T> ProcessTable<T> {
    /// Number of entries the table counts, the slot it keeps back included.
    pub open spec fn count(&self) -> nat {
        self@.dom().len() + self.reserved()
    }

    proof fn lemma_view_dom(&self)
        ensures
            self@.dom() == self.occupied(),
            forall|i: int| #[trigger] self@.dom().contains(i) ==> self@[i] == *self.concrete@[i]->0,
    {
        assert(self@.dom() =~= self.occupied());
    }

    /// The head of the free ring holds a valid id of a vacant slot, and the
    /// PID made from that id names the same slot.
    proof fn lemma_head(&self)
        requires
            self.wf(),
            self.volatile.len < self.readonly.cap,
        ensures
            self.ring_at(0) <= data_mask(),
            0 <= self.ring_slot(0) < self.readonly.cap,
            self.concrete@[self.ring_slot(0)] is None,
            !self.occupied().contains(self.ring_slot(0)),
            self.pos(0) == real_index(self.volatile.aid, self.s()),
            0 <= self.pos(0) < self.readonly.cap,
            slot_of_pid(pid_of_base(self.ring_at(0), self.s()), self.s()) == self.ring_slot(0),
    {
        self.lemma_layout();
        assert(0 < self.ring_len());
        assert(self.ring_at(0) <= data_mask());
        lemma_real_index_bound(self.ring_at(0), self.s());
        lemma_real_index_bound(self.volatile.aid, self.s());
        lemma_ring_head(self.volatile.aid, self.me());
        lemma_pid_roundtrip(self.ring_at(0), self.s());
        self.lemma_pos_distinct(0, 1);
    }

    /// Taking the head of the free ring for a new entry keeps the invariant.
    proof fn lemma_insert_wf(old: &Self, new: &Self)
        requires
            old.wf(),
            old.volatile.len < old.readonly.cap,
            new.readonly == old.readonly,
            new.volatile.len == old.volatile.len + 1,
            new.volatile.fid == old.volatile.fid,
            old.volatile.aid == RESERVED ==> new.volatile.aid == 0,
            old.volatile.aid != RESERVED ==> new.volatile.aid == old.volatile.aid + 1,
            new.abstract_ids@ == old.abstract_ids@.update(old.pos(0), RESERVED),
            new.concrete@.len() == old.concrete@.len(),
            new.concrete@[old.ring_slot(0)] is Some,
            forall|i: int|
                0 <= i < old.readonly.cap && i != old.ring_slot(0) ==> new.concrete@[i]
                    == old.concrete@[i],
            new.issued@ == old.issued@.update(old.ring_slot(0), old.ring_at(0)),
        ensures
            new.wf(),
            new.occupied() == old.occupied().insert(old.ring_slot(0)),
            new.free_ids() == old.free_ids().subrange(1, old.free_ids().len() as int),
            new.pids() == old.pids().insert(old.ring_slot(0), old.next_pid()),
    {
        old.lemma_head();
        old.lemma_layout();
        new.lemma_layout();
        let me = old.me();
        let h = old.head();
        lemma_counter_step(old.volatile.aid, new.volatile.aid, me);
        assert(new.head() == ((h + 1) as u64) & me);
        assert(new.ring_len() == old.ring_len() - 1);
        // Positions of the new ring are those of the old one, one step on.
        assert forall|k: int| 0 <= k < new.readonly.cap implies #[trigger] new.pos(k) == old.pos(
            k + 1,
        ) by {
            lemma_ring_step(h, k as u64, me);
            if k + 1 == old.readonly.cap {
                lemma_ring_head(old.volatile.aid, me);
                assert(((h + k + 1) as u64) & me == ((h + 0) as u64) & me);
            }
        }
        assert forall|k: int| 0 <= k < new.readonly.cap implies #[trigger] new.ring_at(k) == (if k + 1
            == old.readonly.cap {
            RESERVED
        } else {
            old.ring_at(k + 1)
        }) by {
            if k + 1 == old.readonly.cap {
                lemma_ring_head(old.volatile.aid, me);
                assert(old.pos(old.readonly.cap as int) == old.pos(0));
                assert(new.pos(k) == old.pos(0));
            } else {
                old.lemma_pos_distinct(k + 1, 0);
            }
        }
        assert forall|k: int| 0 <= k < new.ring_len() implies #[trigger] new.ring_at(k) <= data_mask()
            && new.concrete@[real_index(new.ring_at(k), new.s()) as int] is None by {
            assert(new.ring_at(k) == old.ring_at(k + 1));
            assert(old.ring_slot(k + 1) != old.ring_slot(0));
            lemma_real_index_bound(old.ring_at(k + 1), old.s());
        }
        assert forall|k1: int, k2: int|
            0 <= k1 < new.ring_len() && 0 <= k2 < new.ring_len() && k1 != k2 implies #[trigger] new.ring_slot(
            k1,
        ) != #[trigger] new.ring_slot(k2) by {
            assert(new.ring_slot(k1) == old.ring_slot(k1 + 1));
            assert(new.ring_slot(k2) == old.ring_slot(k2 + 1));
        }
        assert forall|k: int| new.ring_len() <= k < new.readonly.cap implies #[trigger] new.ring_at(k)
            == RESERVED by {
            if k + 1 < old.readonly.cap {
                assert(old.ring_at(k + 1) == RESERVED);
            }
        }
        let c = (old.volatile.len - old.reserved()) as u64;
        lemma_ring_ends(old.tail(), h, c, me);
        assert(new.occupied() =~= old.occupied().insert(old.ring_slot(0)));
        assert forall|i: int| #[trigger] new.occupied().contains(i) implies new.issued@[i] <= data_mask()
            && real_index(new.issued@[i], new.s()) == i by {
            if i == old.ring_slot(0) {
                lemma_real_index_bound(old.ring_at(0), old.s());
            }
        }
        assert(new.free_ids() =~= old.free_ids().subrange(1, old.free_ids().len() as int));
        assert(new.pids() =~= old.pids().insert(old.ring_slot(0), old.next_pid()));
    }

    /// Returning the slot that `pid` names to the tail of the free ring keeps
    /// the invariant.
    proof fn lemma_remove_wf(old: &Self, new: &Self, pid: InternalPid, slot: int)
        requires
            old.wf(),
            slot == old.pid_slot(pid),
            old.concrete@[slot] is Some,
            new.readonly == old.readonly,
            new.volatile.len == old.volatile.len - 1,
            new.volatile.aid == old.volatile.aid,
            old.volatile.fid == RESERVED ==> new.volatile.fid == 0,
            old.volatile.fid != RESERVED ==> new.volatile.fid == old.volatile.fid + 1,
            new.abstract_ids@ == old.abstract_ids@.update(
                real_index(old.volatile.fid, old.s()) as int,
                ((base_of_pid(pid@, old.s()) + old.readonly.cap) as u64) & data_mask(),
            ),
            new.concrete@ == old.concrete@.update(slot, None),
            new.issued@ == old.issued@,
        ensures
            new.wf(),
            new.occupied() == old.occupied().remove(slot),
            new.free_ids() == old.free_ids().push(((base_of_pid(pid@, old.s()) + old.readonly.cap) as u64) & data_mask()),
            new.pids() == old.pids().remove(slot),
    {
        old.lemma_layout();
        new.lemma_layout();
        old.lemma_view_dom();
        let s = old.s();
        let me = old.me();
        let h = old.head();
        let t = old.tail();
        let c = (old.volatile.len - old.reserved()) as u64;
        lemma_refresh(pid@, s);
        lemma_real_index_bound(pid@ >> 4u64, s);
        lemma_and_le(pid@ >> 4u64, me);
        let data = ((base_of_pid(pid@, s) + old.readonly.cap) as u64) & data_mask();
        assert(real_index(data, s) == slot);
        // The slot was in use, so the ring is not full.
        assert(old.occupied().contains(slot));
        assert(old.occupied().len() >= 1) by {
            vstd::set_lib::lemma_len_subset(set![slot], old.occupied());
        }
        assert(c >= 1);
        assert(old.ring_len() < old.readonly.cap);
        lemma_ring_ends(t, h, c, me);
        lemma_counter_step(old.volatile.fid, new.volatile.fid, me);
        assert(new.tail() == ((t + 1) as u64) & me);
        // The tail sits just past the last ring entry.
        let rl = old.ring_len();
        assert(((h + (me + 1 - c)) as u64) & me == t);
        lemma_real_index_bound(old.volatile.fid, s);
        lemma_ring_head(old.volatile.fid, me);
        assert(old.pos(rl) == real_index(old.volatile.fid, s));
        assert forall|k: int| 0 <= k < new.readonly.cap implies #[trigger] new.ring_at(k) == (if k == rl {
            data
        } else {
            old.ring_at(k)
        }) by {
            assert(new.pos(k) == old.pos(k));
            if k != rl {
                old.lemma_pos_distinct(k, rl);
            }
        }
        assert forall|k: int| 0 <= k < new.ring_len() implies #[trigger] new.ring_at(k) <= data_mask()
            && new.concrete@[real_index(new.ring_at(k), new.s()) as int] is None by {
            if k < rl {
                assert(old.ring_at(k) <= data_mask());
                assert(old.concrete@[old.ring_slot(k)] is None);
                lemma_real_index_bound(old.ring_at(k), s);
            }
        }
        assert forall|k1: int, k2: int|
            0 <= k1 < new.ring_len() && 0 <= k2 < new.ring_len() && k1 != k2 implies #[trigger] new.ring_slot(
            k1,
        ) != #[trigger] new.ring_slot(k2) by {
            if k1 < rl && k2 < rl {
                assert(new.ring_slot(k1) == old.ring_slot(k1));
                assert(new.ring_slot(k2) == old.ring_slot(k2));
            } else if k1 < rl {
                assert(old.concrete@[old.ring_slot(k1)] is None);
            } else {
                assert(old.concrete@[old.ring_slot(k2)] is None);
            }
        }
        assert forall|k: int| new.ring_len() <= k < new.readonly.cap implies #[trigger] new.ring_at(k)
            == RESERVED by {
            assert(old.ring_at(k) == RESERVED);
        }
        assert(new.occupied() =~= old.occupied().remove(slot));
        assert(new.free_ids() =~= old.free_ids().push(data));
        assert(new.pids() =~= old.pids().remove(slot));
    }

    /// Inserts a new entry, made by `init` from the PID it is given.
    ///
    /// The entry takes the slot of the id at the head of the free ring, and
    /// `init` receives the PID that encodes that id ([`ProcessTable::next_pid`]).
    /// Fails with [`ProcessTableFull`] when the table counts as many entries
    /// as it has slots.
    pub fn insert<F>(&mut self, init: F) -> (r: Result<Arc<T>, ProcessTableFull>)
        where
            F: FnOnce(InternalPid) -> T,
        requires
            old(self).wf(),
            old(self).count() < old(self).spec_capacity() ==> init.requires((old(self).next_pid(),)),
        ensures
            final(self).wf(),
            final(self).spec_capacity() == old(self).spec_capacity(),
            final(self).reserved() == old(self).reserved(),
            forall|p: InternalPid| #[trigger] final(self).pid_slot(p) == old(self).pid_slot(p),
            old(self).count() >= old(self).spec_capacity() ==> r is Err && final(self)@ == old(self)@
                && final(self).pids() == old(self).pids() && final(self).free_ids() == old(self).free_ids(),
            old(self).count() < old(self).spec_capacity() ==> {
                &&& r is Ok
                &&& init.ensures((old(self).next_pid(),), *r->Ok_0)
                &&& !old(self)@.dom().contains(old(self).pid_slot(old(self).next_pid()))
                &&& final(self)@ == old(self)@.insert(old(self).pid_slot(old(self).next_pid()), *r->Ok_0)
                &&& final(self).pids() == old(self).pids().insert(old(self).pid_slot(old(self).next_pid()), old(self).next_pid())
                &&& final(self).free_ids() == old(self).free_ids().subrange(1, old(self).free_ids().len() as int)
                &&& final(self).count() == old(self).count() + 1
            },
    {
        proof {
            self.lemma_view_dom();
            self.lemma_layout();
        }
        // 1. Reserve a slot.
        if self.volatile.len >= self.readonly.cap as u32 {
            return Err(ProcessTableFull);
        }
        let ghost old_table = *self;
        proof {
            self.lemma_head();
        }
        // 2. Take the id at the head of the free ring.
        let base_index: u64 = self.volatile.aid;
        self.volatile.aid = if base_index == RESERVED {
            0
        } else {
            base_index + 1
        };
        let position: u64 = self.readonly.base_index_to_real_index(base_index);
        let mut taken: u64 = RESERVED;
        self.abstract_ids.set_and_swap(position as usize, &mut taken);
        assert(taken == old_table.ring_at(0));
        let slot: u64 = self.readonly.base_index_to_real_index(taken);
        // 3. Make the entry, then write it.
        let pid: InternalPid = self.readonly.base_index_to_pid(taken);
        let value: T = init(pid);
        let data: Arc<T> = Arc::new(value);
        self.concrete.set(slot as usize, Some(arc_clone(&data)));
        self.issued.set(slot as usize, taken);
        self.volatile.len = self.volatile.len + 1;
        proof {
            Self::lemma_insert_wf(&old_table, self);
            self.lemma_view_dom();
            assert(self@ =~= old_table@.insert(old_table.ring_slot(0), *data));
        }
        Ok(data)
    }

    /// The id that a slot freed by removing `pid` is returned with: the
    /// base index of `pid` advanced by one generation.
    fn refresh_data(&self, pid: InternalPid) -> (r: u64)
        requires
            self.wf(),
        ensures
            r == ((base_of_pid(pid@, self.s()) + self.readonly.cap) as u64) & data_mask(),
    {
        proof {
            self.lemma_layout();
            lemma_refresh(pid@, self.s());
        }
        let mut data: u64 = self.readonly.pid_to_base_index(pid);
        data = data + self.readonly.cap as u64;
        data = data & 0x0FFF_FFFF_FFFF_FFFFu64;
        // An id is never the reserved marker.
        if data == RESERVED {
            data = data + self.readonly.cap as u64;
            data = data & 0x0FFF_FFFF_FFFF_FFFFu64;
        }
        data
    }

    /// Removes and returns the entry in the slot that `pid` names, or
    /// `None` if that slot is vacant.
    ///
    /// Only the slot is checked, not the generation: a stale `pid` removes
    /// whatever entry has since taken its slot.
    pub fn remove(&mut self, pid: InternalPid) -> (r: Option<Arc<T>>)
        requires
            old(self).wf(),
        ensures
            final(self).wf(),
            final(self).spec_capacity() == old(self).spec_capacity(),
            final(self).reserved() == old(self).reserved(),
            forall|p: InternalPid| #[trigger] final(self).pid_slot(p) == old(self).pid_slot(p),
            final(self)@ == old(self)@.remove(old(self).pid_slot(pid)),
            old(self)@.dom().contains(old(self).pid_slot(pid)) ==> r is Some && *r->Some_0 == old(
                self,
            )@[old(self).pid_slot(pid)],
            !old(self)@.dom().contains(old(self).pid_slot(pid)) ==> r is None && final(self).count() == old(self).count()
                && final(self).pids() == old(self).pids() && final(self).free_ids() == old(self).free_ids(),
            old(self)@.dom().contains(old(self).pid_slot(pid)) ==> {
                &&& final(self).count() == old(self).count() - 1
                &&& final(self).pids() == old(self).pids().remove(old(self).pid_slot(pid))
                &&& final(self).free_ids() == old(self).free_ids().push(old(self).freed_id(pid))
            },
    {
        proof {
            self.lemma_view_dom();
            self.lemma_layout();
        }
        let index: u64 = self.readonly.pid_to_real_index(pid);
        if self.concrete[index as usize].is_none() {
            proof {
                assert(self@.remove(self.pid_slot(pid)) =~= self@);
            }
            return None;
        }
        let ghost old_table = *self;
        proof {
            lemma_and_le(pid@ >> 4u64, self.me());
            assert(self.occupied().contains(index as int));
            vstd::set_lib::lemma_len_subset(set![index as int], self.occupied());
        }
        let data: u64 = self.refresh_data(pid);
        // Return the slot, one generation on, to the tail of the free ring.
        let base_index: u64 = self.volatile.fid;
        self.volatile.fid = if base_index == RESERVED {
            0
        } else {
            base_index + 1
        };
        let position: u64 = self.readonly.base_index_to_real_index(base_index);
        self.abstract_ids.set(position as usize, data);
        self.volatile.len = self.volatile.len - 1;
        // Take the entry out.
        let mut taken: Option<Arc<T>> = None;
        self.concrete.set_and_swap(index as usize, &mut taken);
        proof {
            Self::lemma_remove_wf(&old_table, self, pid, index as int);
            self.lemma_view_dom();
            old_table.lemma_view_dom();
            assert(self@ =~= old_table@.remove(index as int));
        }
        taken
    }

    /// Returns `true` if the slot that `pid` names holds an entry.
    pub fn contains(&self, pid: InternalPid) -> (r: bool)
        requires
            self.wf(),
        ensures
            r == self@.dom().contains(self.pid_slot(pid)),
    {
        proof {
            self.lemma_view_dom();
        }
        let index: u64 = self.readonly.pid_to_real_index(pid);
        self.concrete[index as usize].is_some()
    }

    /// Returns the PID that the entry in the slot `pid` names was handed out
    /// with, if the slot is in use: `pid` itself exactly when `pid` is the
    /// entry's own PID and not a stale one for the same slot.
    pub fn issued_pid(&self, pid: InternalPid) -> (r: Option<InternalPid>)
        requires
            self.wf(),
        ensures
            r == (if self.pids().dom().contains(self.pid_slot(pid)) {
                Some(self.pids()[self.pid_slot(pid)])
            } else {
                None::<InternalPid>
            }),
    {
        let index: u64 = self.readonly.pid_to_real_index(pid);
        if self.concrete[index as usize].is_some() {
            let issued: InternalPid = self.readonly.base_index_to_pid(self.issued[index as usize]);
            proof {
                lemma_spec_pid(issued, issued@);
            }
            Some(issued)
        } else {
            None
        }
    }

    /// Returns the entry in the slot that `pid` names, if any.
    pub fn get(&self, pid: InternalPid) -> (r: Option<Arc<T>>)
        requires
            self.wf(),
        ensures
            self@.dom().contains(self.pid_slot(pid)) ==> r is Some && *r->Some_0 == self@[self.pid_slot(
                pid,
            )],
            !self@.dom().contains(self.pid_slot(pid)) ==> r is None,
    {
        proof {
            self.lemma_view_dom();
        }
        let index: u64 = self.readonly.pid_to_real_index(pid);
        match &self.concrete[index as usize] {
            Some(item) => Some(arc_clone(item)),
            None => None,
        }
    }

    /// Returns `true` if `index` is below the capacity and the slot that base
    /// index `index` lands in holds an entry.
    pub fn has(&self, index: usize) -> (r: bool)
        requires
            self.wf(),
        ensures
            r == (index < self.spec_capacity() && self.key_in_use(index as int)),
    {
        proof {
            self.lemma_view_dom();
        }
        if index < self.readonly.cap {
            let slot: u64 = self.readonly.base_index_to_real_index(index as u64);
            self.concrete[slot as usize].is_some()
        } else {
            false
        }
    }

    /// Returns the PIDs of the entries, in order of base index: for each base
    /// index below the capacity whose slot is in use, the PID of that index.
    pub fn keys(&self) -> (r: Vec<InternalPid>)
        requires
            self.wf(),
        ensures
            r@ == self.keys_upto(self.spec_capacity() as int),
            r@.len() == self@.dom().len(),
            forall|i: int| #[trigger] self.pids().dom().contains(i) ==> r@.contains(self.pids()[i]),
            forall|j: int| 0 <= j < r@.len() ==> self.pids().contains_value(#[trigger] r@[j]),
            r@.no_duplicates(),
    {
        proof {
            self.law_keys_count();
            self.law_keys_complete();
            self.lemma_layout();
            self.lemma_keys_distinct(self.readonly.cap as int);
        }
        let mut r: Vec<InternalPid> = Vec::new();
        let mut index: usize = 0;
        while index < self.readonly.cap
            invariant
                self.wf(),
                index <= self.readonly.cap,
                r@ == self.keys_upto(index as int),
            decreases self.readonly.cap - index,
        {
            if self.has(index) {
                let slot: u64 = self.readonly.base_index_to_real_index(index as u64);
                let pid: InternalPid = self.readonly.base_index_to_pid(self.issued[slot as usize]);
                proof {
                    self.lemma_view_dom();
                    lemma_spec_pid(pid, pid@);
                }
                r.push(pid);
            }
            index = index + 1;
        }
        r
    }

    /// Splits `pid` into its `(number, serial)` pair: the low 28 bits of the
    /// base index it names, and the 32 bits above them.
    pub fn translate_pid(&self, pid: InternalPid) -> (r: (u32, u32))
        requires
            self.wf(),
        ensures
            r == self.pid_parts(pid),
    {
        let source: u64 = self.readonly.pid_to_base_index(pid);
        let number: u32 = (source & 0x0FFF_FFFFu64) as u32;
        let serial: u32 = ((source >> 28u64) & 0xFFFF_FFFFu64) as u32;
        (number, serial)
    }
}


impl<T> ProcessTable<T> {
    /// The PID that an insertion hands out names a vacant slot; the entry
    /// inserted there is what a lookup of that slot gives, and removing it
    /// gives back the entries as they were before.
    pub proof fn law_insert_then_remove(&self, value: T)
        requires
            self.wf(),
            self.count() < self.spec_capacity(),
        ensures
            !self@.dom().contains(self.pid_slot(self.next_pid())),
            self@.insert(self.pid_slot(self.next_pid()), value)[self.pid_slot(self.next_pid())] == value,
            self@.insert(self.pid_slot(self.next_pid()), value).remove(self.pid_slot(self.next_pid())) == self@,
    {
        self.lemma_view_dom();
        assert(self.volatile.len < self.readonly.cap);
        self.lemma_head();
        let p = pid_of_base(self.ring_at(0), self.s());
        lemma_spec_pid(spec_pid(p), p);
        let slot = self.pid_slot(self.next_pid());
        assert(!self@.dom().contains(slot));
        assert(self@.insert(slot, value).remove(slot) =~= self@);
    }

    /// Every base index within the 60 data bits survives the trip to a PID
    /// and back: the PID names the slot the index lands in, and translates
    /// to the low 28 bits of the index and the 32 bits above them.
    pub proof fn law_pid_roundtrip(&self, index: int)
        requires
            self.wf(),
            0 <= index <= data_mask(),
        ensures
            self.pid_slot(self.index_pid(index)) == self.index_slot(index),
            self.pid_parts(self.index_pid(index)) == (
                ((index as u64) & 0x0FFF_FFFFu64) as u32,
                (((index as u64) >> 28u64) & 0xFFFF_FFFFu64) as u32,
            ),
    {
        let x = index as u64;
        lemma_pid_roundtrip(x, self.s());
        let p = pid_of_base(x, self.s());
        lemma_spec_pid(spec_pid(p), p);
        assert(self.pid_slot(self.index_pid(index)) == slot_of_pid(p, self.s()) as int);
        assert(base_of_pid(p, self.s()) == x);
    }
}


/// A slot number within a table names a base index within it.
proof fn lemma_base_index_bound(d: u64, s: u64)
    requires
        s <= 23,
        d <= mask_entry(s),
    ensures
        base_index(d, s) <= mask_entry(s),
{
    assert(s <= 23 && d <= (((1u64 << ((s + 4) as u64)) - 1) as u64) ==> ((d & !(((1u64 << ((s + 4) as u64))
        - 1) as u64)) | ((d >> 4u64) & (((1u64 << s) - 1) as u64)) | ((d & 15u64) << s)) <= (((1u64 << ((s
        + 4) as u64)) - 1) as u64)) by (bit_vector);
}

impl<T> ProcessTable<T> {
    /// The slots in use that the first `n` base indices land in.
    spec fn slots_upto(&self, n: int) -> Set<int> {
        Set::new(|i: int| self@.dom().contains(i) && exists|x: int| 0 <= x < n && #[trigger] self.index_slot(x) == i)
    }

    proof fn lemma_keys_count(&self, n: int)
        requires
            self.wf(),
            0 <= n <= self.readonly.cap,
        ensures
            self.slots_upto(n).finite(),
            self.keys_upto(n).len() == self.slots_upto(n).len(),
        decreases n,
    {
        self.lemma_layout();
        if n == 0 {
            assert(self.slots_upto(0) =~= Set::<int>::empty());
        } else {
            self.lemma_keys_count(n - 1);
            let before = self.slots_upto(n - 1);
            let slot = self.index_slot(n - 1);
            if self.key_in_use(n - 1) {
                assert(!before.contains(slot)) by {
                    if before.contains(slot) {
                        let x = choose|x: int| 0 <= x < n - 1 && #[trigger] self.index_slot(x) == slot;
                        lemma_real_injective(x as u64, (n - 1) as u64, self.s());
                    }
                }
                assert(self.slots_upto(n) =~= before.insert(slot));
            } else {
                assert(self.slots_upto(n) =~= before);
            }
        }
    }

    /// The keys of a table list one PID per entry: as many as the table
    /// has entries.
    pub proof fn law_keys_count(&self)
        requires
            self.wf(),
        ensures
            self.keys_upto(self.spec_capacity() as int).len() == self@.dom().len(),
    {
        self.lemma_layout();
        self.lemma_view_dom();
        let cap = self.readonly.cap as int;
        self.lemma_keys_count(cap);
        assert forall|i: int| #[trigger] self@.dom().contains(i) implies self.slots_upto(cap).contains(i) by {
            let d = i as u64;
            assert(0 <= i < cap);
            lemma_real_base_index(d, self.s());
            lemma_base_index_bound(d, self.s());
            let x = base_index(d, self.s()) as int;
            lemma_mask_keeps(d, self.me());
            assert(self.index_slot(x) == i);
        }
        assert(self.slots_upto(cap) =~= self@.dom());
    }
}

impl<T> ProcessTable<T> {
    /// The base index a slot freed by removing `pid` is returned to the free
    /// ring with: the base index of `pid`, one generation on.
    pub closed spec fn freed_id(&self, pid: InternalPid) -> u64 {
        ((base_of_pid(pid@, self.s()) + self.readonly.cap) as u64) & data_mask()
    }

    /// The base index that `pid` stands for.
    pub closed spec fn pid_id(&self, pid: InternalPid) -> u64 {
        base_of_pid(pid@, self.s())
    }

    /// A freed slot comes back under a new identity: the id it returns with
    /// lands in the slot `pid` names, but differs from the id of `pid`, so
    /// the PID the slot is next handed out with is not `pid`.
    pub proof fn law_reuse_new_generation(&self, pid: InternalPid)
        requires
            self.wf(),
        ensures
            self.index_slot(self.freed_id(pid) as int) == self.pid_slot(pid),
            self.freed_id(pid) != self.pid_id(pid),
            self.index_pid(self.freed_id(pid) as int) != pid,
    {
        let s = self.s();
        lemma_refresh(pid@, s);
        lemma_mask_entry_bounds(s);
        let b = base_of_pid(pid@, s);
        let cap = self.readonly.cap as u64;
        let f = self.freed_id(pid);
        assert(f != b) by (bit_vector)
            requires
                b <= 0x0FFF_FFFF_FFFF_FFFFu64,
                16 <= cap <= 0x1000_0000u64,
                f == ((b + cap) as u64) & 0x0FFF_FFFF_FFFF_FFFFu64,
        ;
        lemma_pid_roundtrip(f, s);
        lemma_spec_pid(spec_pid(pid_of_base(f, s)), pid_of_base(f, s));
        if spec_pid(pid_of_base(f, s)) == pid {
            assert(base_of_pid(pid_of_base(f, s), s) == b);
        }
    }
}

impl<T> ProcessTable<T> {
    /// Each entry has the PID it was handed out with, and that PID names the
    /// entry's slot.
    pub proof fn law_entry_pids(&self)
        requires
            self.wf(),
        ensures
            self.pids().dom() == self@.dom(),
            forall|i: int| #[trigger] self.pids().dom().contains(i) ==> self.pid_slot(self.pids()[i]) == i,
    {
        self.lemma_view_dom();
        assert(self.pids().dom() =~= self@.dom());
        assert forall|i: int| #[trigger] self.pids().dom().contains(i) implies self.pid_slot(self.pids()[i]) == i by {
            let x = self.issued@[i];
            lemma_pid_roundtrip(x, self.s());
            lemma_spec_pid(spec_pid(pid_of_base(x, self.s())), pid_of_base(x, self.s()));
        }
    }

    /// A table never counts more than its slots, and its free ring holds
    /// one id per vacant slot; the slot a table of [`MAX_ENTRIES`] slots
    /// keeps back is among them, so the ring holds `spec_capacity() -
    /// count()` ids that insertions can take, and the one kept back.
    pub proof fn law_room_is_free_ring(&self)
        requires
            self.wf(),
        ensures
            self.count() <= self.spec_capacity(),
            self.free_ids().len() == self.spec_capacity() - self@.dom().len(),
            self.free_ids().len() == self.spec_capacity() - self.count() + self.reserved(),
    {
        self.lemma_view_dom();
    }

    /// The next insertion hands out the PID of the first free id; a table
    /// that is not full has one.
    pub proof fn law_next_pid_is_first_free(&self)
        requires
            self.wf(),
            self.count() < self.spec_capacity(),
        ensures
            self.free_ids().len() > 0,
            self.next_pid() == self.index_pid(self.free_ids()[0] as int),
    {
        self.lemma_view_dom();
    }
}

impl<T> ProcessTable<T> {
    proof fn lemma_keys_members(&self, n: int)
        requires
            0 <= n,
        ensures
            forall|j: int| 0 <= j < self.keys_upto(n).len() ==> self.pids().contains_value(#[trigger] self.keys_upto(n)[j]),
            forall|x: int| 0 <= x < n && self.key_in_use(x) ==> self.keys_upto(n).contains(#[trigger] self.key_pid(x)),
        decreases n,
    {
        if n > 0 {
            self.lemma_keys_members(n - 1);
            let before = self.keys_upto(n - 1);
            let after = self.keys_upto(n);
            if self.key_in_use(n - 1) {
                assert forall|j: int| 0 <= j < after.len() implies self.pids().contains_value(#[trigger] after[j]) by {
                    if j < before.len() {
                        assert(after[j] == before[j]);
                    } else {
                        let slot = self.index_slot(n - 1);
                        assert(self.pids().dom().contains(slot));
                        assert(after[j] == self.pids()[slot]);
                    }
                }
                assert forall|x: int| 0 <= x < n && self.key_in_use(x) implies after.contains(#[trigger] self.key_pid(x)) by {
                    if x < n - 1 {
                        assert(before.contains(self.key_pid(x)));
                        let j = choose|j: int| 0 <= j < before.len() && before[j] == self.key_pid(x);
                        assert(after[j] == before[j]);
                    } else {
                        assert(after[before.len() as int] == self.key_pid(x));
                    }
                }
            } else {
                assert(after == before);
            }
        }
    }

    /// The base indices whose PIDs `keys_upto(n)` lists, in order.
    spec fn key_bases(&self, n: int) -> Seq<int>
        decreases n,
    {
        if n <= 0 {
            Seq::empty()
        } else if self.key_in_use(n - 1) {
            self.key_bases(n - 1).push(n - 1)
        } else {
            self.key_bases(n - 1)
        }
    }

    proof fn lemma_keys_from(&self, n: int)
        requires
            0 <= n,
        ensures
            self.key_bases(n).len() == self.keys_upto(n).len(),
            forall|j: int| 0 <= j < self.keys_upto(n).len() ==> {
                &&& 0 <= #[trigger] self.key_bases(n)[j] < n
                &&& self.key_in_use(self.key_bases(n)[j])
                &&& self.keys_upto(n)[j] == self.key_pid(self.key_bases(n)[j])
            },
        decreases n,
    {
        if n > 0 {
            self.lemma_keys_from(n - 1);
        }
    }

    proof fn lemma_keys_distinct(&self, n: int)
        requires
            self.wf(),
            0 <= n <= self.readonly.cap,
        ensures
            self.keys_upto(n).no_duplicates(),
        decreases n,
    {
        if n > 0 {
            self.lemma_keys_distinct(n - 1);
            self.lemma_keys_from(n - 1);
            self.law_entry_pids();
            self.lemma_layout();
            let before = self.keys_upto(n - 1);
            let after = self.keys_upto(n);
            if self.key_in_use(n - 1) {
                let p = self.key_pid(n - 1);
                assert(!before.contains(p)) by {
                    if before.contains(p) {
                        let j = choose|j: int| 0 <= j < before.len() && before[j] == p;
                        let x = self.key_bases(n - 1)[j];
                        assert(self.pids().dom().contains(self.index_slot(x)));
                        assert(self.pids().dom().contains(self.index_slot(n - 1)));
                        assert(self.index_slot(x) == self.index_slot(n - 1));
                        lemma_real_injective(x as u64, (n - 1) as u64, self.s());
                    }
                }
                assert forall|i: int, k: int| 0 <= i < after.len() && 0 <= k < after.len() && i != k implies after[i]
                    != after[k] by {
                    if i < before.len() && k < before.len() {
                        assert(after[i] == before[i] && after[k] == before[k]);
                    } else if i < before.len() {
                        assert(after[i] == before[i]);
                        assert(before.contains(after[i]));
                    } else {
                        assert(after[k] == before[k]);
                        assert(before.contains(after[k]));
                    }
                }
            } else {
                assert(after == before);
            }
        }
    }

    /// The keys are exactly the PIDs of the entries: each entry's PID is
    /// listed, and each listed PID is an entry's.
    pub proof fn law_keys_complete(&self)
        requires
            self.wf(),
        ensures
            forall|i: int| #[trigger] self.pids().dom().contains(i) ==> self.keys_upto(self.spec_capacity() as int).contains(
                self.pids()[i],
            ),
            forall|j: int|
                0 <= j < self.keys_upto(self.spec_capacity() as int).len() ==> self.pids().contains_value(
                    #[trigger] self.keys_upto(self.spec_capacity() as int)[j],
                ),
    {
        self.lemma_layout();
        self.lemma_view_dom();
        let cap = self.readonly.cap as int;
        self.lemma_keys_members(cap);
        let keys = self.keys_upto(cap);
        assert forall|i: int| #[trigger] self.pids().dom().contains(i) implies keys.contains(self.pids()[i]) by {
            let d = i as u64;
            lemma_real_base_index(d, self.s());
            lemma_base_index_bound(d, self.s());
            let x = base_index(d, self.s()) as int;
            lemma_mask_keeps(d, self.me());
            assert(self.index_slot(x) == i);
            assert(self.key_in_use(x));
            assert(keys.contains(self.key_pid(x)));
        }
    }
}

/// The size of a table asked for `capacity` entries, within the size
/// limits, is the least power of two no smaller than `capacity`.
pub proof fn law_table_size(capacity: int)
    requires
        MIN_ENTRIES <= capacity <= MAX_ENTRIES,
    ensures
        capacity <= (1u64 << size_shift(capacity)),
        size_shift(capacity) > 4 ==> (1u64 << ((size_shift(capacity) - 1) as u64)) < capacity,
{
    lemma_size_shift_least(capacity, 4);
    let j = size_shift(capacity);
    if j == 27 {
        assert((1u64 << 27u64) == 0x0800_0000u64) by (bit_vector);
    }
}

} // verus!
