//! References: unique identifiers of monitors, timers and aliases.
use vstd::prelude::*;

use crate::types::atom::Atom;
use crate::types::text::decimal;
use crate::types::text::push_decimal;

verus! {

/// Width of the low field of a reference word.
pub const REF_LOW_BITS: u32 = 18;

/// Mask of the low field of a reference word: the low 18 bits.
pub const REF_LOW_MASK: u32 = 0x0003_FFFF;

/// Mask of the middle field of a reference word: the 14 bits above the low field.
pub const REF_MID_MASK: u32 = 0xFFFC_0000;

/// The text of a reference with words `a`, `b`, `c` on node `node`:
/// `#Ref<node.c.b.a>`.
pub open spec fn ref_text_spec(node: u32, a: u32, b: u32, c: u32) -> Seq<char> {
    "#Ref<"@ + decimal(node as nat) + "."@ + decimal(c as nat) + "."@ + decimal(b as nat) + "."@
        + decimal(a as nat) + ">"@
}

/// Renders a reference as `#Ref<node.c.b.a>`.
fn ref_text(node: u32, a: u32, b: u32, c: u32) -> (r: String)
    ensures
        r@ == ref_text_spec(node, a, b, c),
{
    let mut out: String = String::from_str("#Ref<");
    push_decimal(&mut out, node as u64);
    out.append(".");
    push_decimal(&mut out, c as u64);
    out.append(".");
    push_decimal(&mut out, b as u64);
    out.append(".");
    push_decimal(&mut out, a as u64);
    out.append(">");
    out
}

/// The words of the reference packed from `thread` and `number`: the low 18
/// bits of `number`, then its next 14 bits under the thread's low 18 bits,
/// then its high 32 bits.
pub open spec fn packed_words(thread: u32, number: u64) -> (u32, u32, u32) {
    (
        (number & 0x0003_FFFFu64) as u32,
        ((number & 0xFFFC_0000u64) as u32) | (thread & 0x0003_FFFFu32),
        (number >> 32u64) as u32,
    )
}

/// The number held by reference words `a`, `b`, `c`.
pub open spec fn words_number(a: u32, b: u32, c: u32) -> u64 {
    ((a & 0x0003_FFFFu32) as u64) | ((b & 0xFFFC_0000u32) as u64) | ((c as u64) << 32u64)
}

// -----------------------------------------------------------------------------
// Local reference
// -----------------------------------------------------------------------------

/// Reference unique on this node: a number and the thread that made it,
/// spread over three 32-bit words.
#[derive(Clone, Copy, Debug, Hash, PartialEq, Eq, PartialOrd, Ord, Structural)]
pub struct LocalRef {
    a: u32,
    b: u32,
    c: u32,
}

impl View for LocalRef {
    type V = (u32, u32, u32);

    closed spec fn view(&self) -> (u32, u32, u32) {
        (self.a, self.b, self.c)
    }
}

impl LocalRef {
    /// Creates a reference from its three words, lowest first.
    pub fn from_bits(bits: [u32; 3]) -> (r: LocalRef)
        ensures
            r@ == (bits@[0], bits@[1], bits@[2]),
    {
        LocalRef { a: bits[0], b: bits[1], c: bits[2] }
    }

    /// Returns the three words of this reference, lowest first.
    pub fn into_bits(self) -> (r: [u32; 3])
        ensures
            r@ == seq![self@.0, self@.1, self@.2],
    {
        let r: [u32; 3] = [self.a, self.b, self.c];
        assert(r@ =~= seq![self@.0, self@.1, self@.2]);
        r
    }

    /// Creates the reference that thread `thread` makes as its `number`-th.
    ///
    /// Only the low 18 bits of `thread` are kept.
    pub fn new_from(thread: u32, number: u64) -> (r: LocalRef)
        ensures
            r@ == packed_words(thread, number),
    {
        let bits: [u32; 3] = LocalRef::pack_bits(thread, number);
        LocalRef::from_bits(bits)
    }

    /// Packs a thread id and a number into the three words of a reference.
    pub fn pack_bits(thread: u32, number: u64) -> (r: [u32; 3])
        ensures
            (r@[0], r@[1], r@[2]) == packed_words(thread, number),
            r@.len() == 3,
    {
        let a: u32 = (number & 0x0003_FFFFu64) as u32;
        let b: u32 = ((number & 0xFFFC_0000u64) as u32) | (thread & REF_LOW_MASK);
        let c: u32 = (number >> 32u64) as u32;
        [a, b, c]
    }

    /// Returns the thread id this reference was made by.
    pub fn thread(&self) -> (r: u32)
        ensures
            r == self@.1 & 0x0003_FFFFu32,
    {
        self.b & REF_LOW_MASK
    }

    /// Returns the number this reference holds.
    pub fn number(&self) -> (r: u64)
        ensures
            r == words_number(self@.0, self@.1, self@.2),
    {
        ((self.a & REF_LOW_MASK) as u64) | ((self.b & REF_MID_MASK) as u64) | ((self.c as u64) << 32u64)
    }

    /// Renders this reference as `#Ref<0.c.b.a>`.
    pub fn to_string(&self) -> (r: String)
        ensures
            r@ == ref_text_spec(0, self@.0, self@.1, self@.2),
    {
        ref_text(0, self.a, self.b, self.c)
    }
}

/// Packing a thread id and a number into a reference, then reading them
/// back, gives the number and the low 18 bits of the thread id.
pub proof fn law_ref_pack_roundtrip(thread: u32, number: u64)
    ensures
        words_number(packed_words(thread, number).0, packed_words(thread, number).1, packed_words(
            thread,
            number,
        ).2) == number,
        packed_words(thread, number).1 & 0x0003_FFFFu32 == thread & 0x0003_FFFFu32,
{
    assert(((((number & 0x0003_FFFFu64) as u32) & 0x0003_FFFFu32) as u64) | (((((number & 0xFFFC_0000u64)
        as u32) | (thread & 0x0003_FFFFu32)) & 0xFFFC_0000u32) as u64) | ((((number >> 32u64) as u32) as u64)
        << 32u64) == number) by (bit_vector);
    assert(((((number & 0xFFFC_0000u64) as u32) | (thread & 0x0003_FFFFu32)) & 0x0003_FFFFu32) == thread
        & 0x0003_FFFFu32) by (bit_vector);
}

// -----------------------------------------------------------------------------
// Typed references
// -----------------------------------------------------------------------------

/// Reference naming a process alias.
#[derive(Clone, Copy, Debug, Hash, PartialEq, Eq, PartialOrd, Ord, Structural)]
pub struct AliasRef {
    inner: LocalRef,
}

/// Reference naming a monitor.
#[derive(Clone, Copy, Debug, Hash, PartialEq, Eq, PartialOrd, Ord, Structural)]
pub struct MonitorRef {
    inner: LocalRef,
}

/// Reference naming a timer.
#[derive(Clone, Copy, Debug, Hash, PartialEq, Eq, PartialOrd, Ord, Structural)]
pub struct TimerRef {
    inner: LocalRef,
}

impl View for AliasRef {
    type V = (u32, u32, u32);

    closed spec fn view(&self) -> (u32, u32, u32) {
        self.inner@
    }
}

impl View for MonitorRef {
    type V = (u32, u32, u32);

    closed spec fn view(&self) -> (u32, u32, u32) {
        self.inner@
    }
}

impl View for TimerRef {
    type V = (u32, u32, u32);

    closed spec fn view(&self) -> (u32, u32, u32) {
        self.inner@
    }
}

impl AliasRef {
    /// Makes an alias reference of `inner`.
    pub fn new(inner: LocalRef) -> (r: AliasRef)
        ensures
            r@ == inner@,
    {
        AliasRef { inner }
    }

    /// Renders this reference as its underlying reference does.
    pub fn to_string(&self) -> (r: String)
        ensures
            r@ == ref_text_spec(0, self@.0, self@.1, self@.2),
    {
        self.inner.to_string()
    }
}

impl MonitorRef {
    /// Returns the three words of this reference, lowest first.
    pub fn words(&self) -> (r: (u32, u32, u32))
        ensures
            r == self@,
    {
        (self.inner.a, self.inner.b, self.inner.c)
    }

    /// Makes a monitor reference of `inner`.
    pub fn new(inner: LocalRef) -> (r: MonitorRef)
        ensures
            r@ == inner@,
    {
        MonitorRef { inner }
    }

    /// Renders this reference as its underlying reference does.
    pub fn to_string(&self) -> (r: String)
        ensures
            r@ == ref_text_spec(0, self@.0, self@.1, self@.2),
    {
        self.inner.to_string()
    }
}

impl TimerRef {
    /// Makes a timer reference of `inner`.
    pub fn new(inner: LocalRef) -> (r: TimerRef)
        ensures
            r@ == inner@,
    {
        TimerRef { inner }
    }

    /// Renders this reference as its underlying reference does.
    pub fn to_string(&self) -> (r: String)
        ensures
            r@ == ref_text_spec(0, self@.0, self@.1, self@.2),
    {
        self.inner.to_string()
    }
}

// -----------------------------------------------------------------------------
// Internal and external references
// -----------------------------------------------------------------------------

/// Reference unique on this node, made from the node-wide counter.
#[derive(Clone, Copy, Debug, Hash, PartialEq, Eq, PartialOrd, Ord, Structural)]
pub struct InternalRef {
    a: u32,
    b: u32,
    c: u32,
}

impl View for InternalRef {
    type V = (u32, u32, u32);

    closed spec fn view(&self) -> (u32, u32, u32) {
        (self.a, self.b, self.c)
    }
}

/// The first value of the node-wide reference counter, seeded from a clock
/// reading of `secs` seconds and `micros` microseconds.
pub open spec fn initial_counter(secs: u64, micros: u32) -> u64 {
    vstd::wrapping::u64_specs::wrapping_add(
        vstd::wrapping::u64_specs::wrapping_mul(secs | ((micros as u64) << 32u64), 268438039),
        micros as u64,
    )
}

/// The first value of a thread's reference counter, seeded from a clock
/// reading of `secs` seconds and `micros` microseconds past the second.
pub fn init_thread_ref(secs: u64, micros: u32) -> (r: u64)
    ensures
        r == initial_counter(secs, micros),
{
    InternalRef::initialize(secs, micros)
}

impl InternalRef {
    /// Creates a reference from its three words, lowest first.
    pub fn from_bits(bits: [u32; 3]) -> (r: InternalRef)
        ensures
            r@ == (bits@[0], bits@[1], bits@[2]),
    {
        InternalRef { a: bits[0], b: bits[1], c: bits[2] }
    }

    /// Returns the three words of this reference, lowest first.
    pub fn into_bits(self) -> (r: [u32; 3])
        ensures
            r@ == seq![self@.0, self@.1, self@.2],
    {
        let r: [u32; 3] = [self.a, self.b, self.c];
        assert(r@ =~= seq![self@.0, self@.1, self@.2]);
        r
    }

    /// Creates the reference numbered `global_id` by the node-wide counter,
    /// for thread `thread_id`.
    pub fn from_counter(global_id: u64, thread_id: u32) -> (r: InternalRef)
        ensures
            r@ == packed_words(thread_id, global_id),
    {
        let bits: [u32; 3] = InternalRef::pack_bits(global_id, thread_id);
        InternalRef::from_bits(bits)
    }

    /// Packs a counter value and a thread id into the three words of a reference.
    pub fn pack_bits(global_id: u64, thread_id: u32) -> (r: [u32; 3])
        ensures
            (r@[0], r@[1], r@[2]) == packed_words(thread_id, global_id),
            r@.len() == 3,
    {
        LocalRef::pack_bits(thread_id, global_id)
    }

    /// The first counter value, from a clock reading of `secs` seconds and
    /// `micros` microseconds past the second.
    pub fn initialize(secs: u64, micros: u32) -> (r: u64)
        ensures
            r == initial_counter(secs, micros),
    {
        let mut data: u64 = 0;
        data = data | secs;
        data = data | ((micros as u64) << 32u64);
        assert(0u64 | secs == secs) by (bit_vector);
        data = data.wrapping_mul(268438039);
        data = data.wrapping_add(micros as u64);
        data
    }

    /// Renders this reference as `#Ref<0.c.b.a>`.
    pub fn to_string(&self) -> (r: String)
        ensures
            r@ == ref_text_spec(0, self@.0, self@.1, self@.2),
    {
        ref_text(0, self.a, self.b, self.c)
    }
}

/// Reference made on another node.
#[derive(Clone, Copy, Debug, Hash, PartialEq, Eq, PartialOrd, Ord, Structural)]
pub struct ExternalRef {
    bits: InternalRef,
    node: Atom,
}

impl ExternalRef {
    /// The identifier made of `bits` and `node`.
    pub closed spec fn spec_new(bits: InternalRef, node: Atom) -> ExternalRef {
        ExternalRef { bits, node }
    }

    /// The reference this one holds.
    pub closed spec fn spec_bits(self) -> InternalRef {
        self.bits
    }

    /// The node this reference was made on.
    pub closed spec fn spec_node(self) -> Atom {
        self.node
    }

    /// Creates the reference `bits` of node `node`.
    pub fn new(bits: InternalRef, node: Atom) -> (r: ExternalRef)
        ensures
            r == ExternalRef::spec_new(bits, node),
            r.spec_bits() == bits,
            r.spec_node() == node,
    {
        ExternalRef { bits, node }
    }

    /// Creates the reference of the pair `(bits, node)`.
    pub fn from_pair(other: (InternalRef, Atom)) -> (r: ExternalRef)
        ensures
            r == ExternalRef::spec_new(other.0, other.1),
            r.spec_bits() == other.0,
            r.spec_node() == other.1,
    {
        ExternalRef::new(other.0, other.1)
    }

    /// Returns the reference this one holds.
    pub fn bits(&self) -> (r: InternalRef)
        ensures
            r == self.spec_bits(),
    {
        self.bits
    }

    /// Returns the node this reference was made on.
    pub fn node(&self) -> (r: Atom)
        ensures
            r == self.spec_node(),
    {
        self.node
    }

    /// Renders this reference as `#Ref<node.c.b.a>`, with the node's atom slot.
    pub fn to_string(&self) -> (r: String)
        ensures
            r@ == ref_text_spec(self.spec_node()@, self.spec_bits()@.0, self.spec_bits()@.1, self.spec_bits()@.2),
    {
        ref_text(self.node.into_slot(), self.bits.a, self.bits.b, self.bits.c)
    }
}

/// Two identifiers are equal exactly when their parts are: the same reference
/// part and the same node.
pub proof fn law_external_ref_parts(b1: InternalRef, n1: Atom, b2: InternalRef, n2: Atom)
    ensures
        ExternalRef::spec_new(b1, n1).spec_bits() == b1,
        ExternalRef::spec_new(b1, n1).spec_node() == n1,
        (ExternalRef::spec_new(b1, n1) == ExternalRef::spec_new(b2, n2)) == (b1 == b2 && n1 == n2),
{
}

} // verus!
