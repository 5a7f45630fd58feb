//! Process identifiers: local to this node, or naming a process elsewhere.
use vstd::prelude::*;

use crate::types::atom::Atom;
use crate::types::text::decimal;
use crate::types::text::push_decimal;

verus! {

// -----------------------------------------------------------------------------
// Internal PID
// -----------------------------------------------------------------------------

/// Bit width of the type tag of an [`InternalPid`].
pub const PID_TAG_BITS: u32 = 4;

/// Bit width of the data fields of an [`InternalPid`] (all but the tag).
pub const PID_DATA_BITS: u32 = 60;

/// Tag value marking an [`InternalPid`].
pub const PID_TAG_DATA: u64 = 3;

/// Mask of the tag field of an [`InternalPid`].
pub const PID_TAG_MASK: u64 = 15;

/// Bit width of the process table number field.
pub const PID_NUMBER_BITS: u32 = 28;

/// Bit width of the serial number field.
pub const PID_SERIAL_BITS: u32 = 32;

/// Identifier naming a process on the local node.
///
/// The 64 bits hold a 4-bit tag below 60 bits of data; the data holds the
/// process table number (28 bits) under the serial (32 bits).
#[derive(Clone, Copy, Debug, Hash, PartialEq, Eq, Ord, Structural)]
pub struct InternalPid {
    bits: u64,
}

impl View for InternalPid {
    type V = u64;

    closed spec fn view(&self) -> u64 {
        self.bits
    }
}

/// The PID with the given bits.
pub closed spec fn spec_pid(bits: u64) -> InternalPid {
    InternalPid { bits }
}

/// A PID is determined by its bits.
pub broadcast proof fn lemma_spec_pid(pid: InternalPid, bits: u64)
    ensures
        #[trigger] spec_pid(pid@) == pid,
        (#[trigger] spec_pid(bits))@ == bits,
{
}

impl InternalPid {
    /// Creates a PID from its raw encoded bits.
    pub fn from_bits(bits: u64) -> (r: InternalPid)
        ensures
            r@ == bits,
            r == spec_pid(bits),
    {
        InternalPid { bits }
    }

    /// Returns the raw encoded bits of this PID.
    pub fn into_bits(self) -> (r: u64)
        ensures
            r == self@,
    {
        self.bits
    }

    /// The sentinel PID naming no process.
    pub fn undefined() -> (r: InternalPid)
        ensures
            r@ == u64::MAX,
    {
        InternalPid { bits: u64::MAX }
    }
}

impl PartialOrd for InternalPid {
    /// PIDs are ordered by their bits.
    fn partial_cmp(&self, other: &InternalPid) -> (r: Option<std::cmp::Ordering>) {
        if self.bits < other.bits {
            Some(std::cmp::Ordering::Less)
        } else if self.bits == other.bits {
            Some(std::cmp::Ordering::Equal)
        } else {
            Some(std::cmp::Ordering::Greater)
        }
    }
}

impl vstd::std_specs::cmp::PartialOrdSpecImpl for InternalPid {
    open spec fn obeys_partial_cmp_spec() -> bool {
        true
    }

    open spec fn partial_cmp_spec(&self, other: &InternalPid) -> Option<std::cmp::Ordering> {
        if self@ < other@ {
            Some(std::cmp::Ordering::Less)
        } else if self@ == other@ {
            Some(std::cmp::Ordering::Equal)
        } else {
            Some(std::cmp::Ordering::Greater)
        }
    }
}

// -----------------------------------------------------------------------------
// External PID
// -----------------------------------------------------------------------------

/// Identifier naming a process on a remote node: a local PID and the node.
#[derive(Clone, Copy, Debug, Hash, PartialEq, Eq, PartialOrd, Ord, Structural)]
pub struct ExternalPid {
    bits: InternalPid,
    node: Atom,
}

impl ExternalPid {
    /// The identifier made of `bits` and `node`.
    pub closed spec fn spec_new(bits: InternalPid, node: Atom) -> ExternalPid {
        ExternalPid { bits, node }
    }

    /// The PID part, as the remote node knows it.
    pub closed spec fn spec_bits(self) -> InternalPid {
        self.bits
    }

    /// The node that spawned the process.
    pub closed spec fn spec_node(self) -> Atom {
        self.node
    }

    /// Creates an external PID from a PID and a node name.
    pub fn new(bits: InternalPid, node: Atom) -> (r: ExternalPid)
        ensures
            r == ExternalPid::spec_new(bits, node),
            r.spec_bits() == bits,
            r.spec_node() == node,
    {
        ExternalPid { bits, node }
    }

    /// Returns the PID part, without the node.
    pub fn bits(&self) -> (r: InternalPid)
        ensures
            r == self.spec_bits(),
    {
        self.bits
    }

    /// Returns the node that spawned the process.
    pub fn node(&self) -> (r: Atom)
        ensures
            r == self.spec_node(),
    {
        self.node
    }

    /// Creates an external PID from a `(pid, node)` pair.
    pub fn from_pair(other: (InternalPid, Atom)) -> (r: ExternalPid)
        ensures
            r == ExternalPid::spec_new(other.0, other.1),
            r.spec_bits() == other.0,
            r.spec_node() == other.1,
    {
        ExternalPid::new(other.0, other.1)
    }
}

/// Two identifiers are equal exactly when their parts are: the same PID
/// part and the same node.
pub proof fn law_external_pid_parts(b1: InternalPid, n1: Atom, b2: InternalPid, n2: Atom)
    ensures
        ExternalPid::spec_new(b1, n1).spec_bits() == b1,
        ExternalPid::spec_new(b1, n1).spec_node() == n1,
        (ExternalPid::spec_new(b1, n1) == ExternalPid::spec_new(b2, n2)) == (b1 == b2 && n1 == n2),
{
}

// -----------------------------------------------------------------------------
// Process ID trait
// -----------------------------------------------------------------------------

/// Trait implemented by the two process identifier representations.
pub trait ProcessId: Sized + Copy {
    /// Whether the identifier may name a process on another node.
    fn distributed() -> bool;

    /// Converts into the local PID representation, dropping any node.
    fn into_internal(self) -> InternalPid;

    /// Converts into the external representation, or `None` for a local PID.
    fn into_external(self) -> Option<ExternalPid>;

    /// Returns `true` if the identifier names a process of this node.
    fn is_internal(&self) -> bool;

    /// Returns `true` if the identifier names a process of another node.
    fn is_external(&self) -> bool;
}

impl ProcessId for InternalPid {
    fn distributed() -> (r: bool)
        ensures
            !r,
    {
        false
    }

    fn into_internal(self) -> (r: InternalPid)
        ensures
            r == self,
    {
        self
    }

    fn into_external(self) -> (r: Option<ExternalPid>)
        ensures
            r is None,
    {
        None
    }

    fn is_internal(&self) -> (r: bool)
        ensures
            r,
    {
        true
    }

    fn is_external(&self) -> (r: bool)
        ensures
            !r,
    {
        false
    }
}

impl ProcessId for ExternalPid {
    fn distributed() -> (r: bool)
        ensures
            r,
    {
        true
    }

    fn into_internal(self) -> (r: InternalPid)
        ensures
            r == self.spec_bits(),
    {
        self.bits
    }

    fn into_external(self) -> (r: Option<ExternalPid>)
        ensures
            r == Some(self),
    {
        Some(self)
    }

    fn is_internal(&self) -> (r: bool)
        ensures
            !r,
    {
        false
    }

    fn is_external(&self) -> (r: bool)
        ensures
            r,
    {
        true
    }
}

// -----------------------------------------------------------------------------
// Local PID
// -----------------------------------------------------------------------------

#[verifier::external_type_specification]
#[verifier::external_body]
pub struct ExDetached(ptab::Detached);

/// The raw bits of a `ptab::Detached` index.
pub uninterp spec fn detached_bits(index: ptab::Detached) -> usize;

/// The `(number, serial)` pair that `ptab::Detached::decompose` computes from
/// the raw bits of an index, for the default table parameters.
pub uninterp spec fn detached_decompose(bits: usize) -> (u32, u32);

/// `ptab::Detached::from_bits` keeps the bits it is given.
pub assume_specification[ptab::Detached::from_bits](bits: usize) -> (r: ptab::Detached)
    ensures
        detached_bits(r) == bits,
;

/// `ptab::Detached::into_bits` returns the bits the index was made from.
pub assume_specification[ptab::Detached::into_bits](index: ptab::Detached) -> (r: usize)
    ensures
        r == detached_bits(index),
;

/// Calls `ptab::Detached::decompose` with the default parameters; the
/// contract names its result as a function of the index bits.
#[verifier::external_body]
fn decompose_detached(index: ptab::Detached) -> (r: (u32, u32))
    ensures
        r == detached_decompose(detached_bits(index)),
{
    index.decompose::<ptab::config::DefaultParams>()
}

/// Bit width of the tag field of a [`LocalPid`].
pub const LOCAL_TAG_BITS: u32 = 4;

/// Mask of the tag field of a [`LocalPid`].
pub const LOCAL_TAG_MASK: usize = 15;

/// Tag value marking a [`LocalPid`].
pub const LOCAL_TAG_DATA: usize = 3;

/// Identifier naming a process on the local node, built from a `ptab` index.
///
/// The index bits sit above a 4-bit tag.
#[derive(Clone, Copy, Debug, Hash, PartialEq, Eq, PartialOrd, Ord, Structural)]
pub struct LocalPid {
    bits: usize,
}

impl View for LocalPid {
    type V = usize;

    closed spec fn view(&self) -> usize {
        self.bits
    }
}

/// The bits of the local PID made from the index bits `index`.
pub open spec fn local_pid_bits(index: usize) -> usize {
    ((index & local_data_mask()) << 4usize) | 3usize
}

/// Mask of the index bits a [`LocalPid`] can hold.
pub open spec fn local_data_mask() -> usize {
    (!0usize) >> 4usize
}

impl LocalPid {
    /// Creates a PID from its raw bits.
    pub fn from_bits(bits: usize) -> (r: LocalPid)
        ensures
            r@ == bits,
    {
        LocalPid { bits }
    }

    /// Returns the raw bits of this PID.
    pub fn into_bits(self) -> (r: usize)
        ensures
            r == self@,
    {
        self.bits
    }

    /// Returns the internal PID with the same bits.
    pub fn into_internal(self) -> (r: InternalPid)
        ensures
            r@ == self@ as u64,
    {
        InternalPid::from_bits(self.bits as u64)
    }

    /// The PID of the root process.
    pub closed spec fn spec_root_proc() -> LocalPid {
        LocalPid { bits: LOCAL_TAG_DATA }
    }

    /// The root process, which always gets the first table index.
    pub fn root_proc() -> (r: LocalPid)
        ensures
            r@ == LOCAL_TAG_DATA,
            r == LocalPid::spec_root_proc(),
    {
        let r = LocalPid::from_detached(ptab::Detached::from_bits(0));
        assert((((0usize & ((!0usize) >> 4usize)) << 4usize) | 3usize) == 3usize) by (bit_vector);
        r
    }

    /// Creates a PID from a table index.
    pub fn from_detached(index: ptab::Detached) -> (r: LocalPid)
        ensures
            r@ == local_pid_bits(detached_bits(index)),
    {
        let value: usize = index.into_bits() & ((!0usize) >> 4usize);
        let value: usize = (value << 4usize) | LOCAL_TAG_DATA;
        LocalPid::from_bits(value)
    }

    /// Returns the table index this PID was made from.
    pub fn into_detached(self) -> (r: ptab::Detached)
        ensures
            detached_bits(r) == self@ >> 4usize,
    {
        ptab::Detached::from_bits(self.bits >> 4usize)
    }

    /// Returns the `(number, serial)` pair of this PID's table index.
    pub fn decompose(self) -> (r: (u32, u32))
        ensures
            r == detached_decompose(self@ >> 4usize),
    {
        decompose_detached(self.into_detached())
    }
}

/// A local PID made from a table index gives that index back.
pub proof fn law_local_pid_detached_roundtrip(index: usize)
    requires
        index <= local_data_mask(),
    ensures
        local_pid_bits(index) >> 4usize == index,
{
    assert(index <= ((!0usize) >> 4usize) ==> ((((index & ((!0usize) >> 4usize)) << 4usize) | 3usize)
        >> 4usize) == index) by (bit_vector);
}


/// The text of a PID with table number `number` and serial `serial`:
/// `#PID<0.number.serial>`.
pub open spec fn pid_text_spec(number: u32, serial: u32) -> Seq<char> {
    "#PID<0."@ + decimal(number as nat) + "."@ + decimal(serial as nat) + ">"@
}

/// Renders a PID from its table number and serial, as `#PID<0.number.serial>`.
pub fn pid_text(number: u32, serial: u32) -> (r: String)
    ensures
        r@ == pid_text_spec(number, serial),
{
    let mut out: String = String::from_str("#PID<0.");
    push_decimal(&mut out, number as u64);
    out.append(".");
    push_decimal(&mut out, serial as u64);
    out.append(">");
    out
}

/// The text of a PID whose table translation is `parts`; `#PID<0.x.x>`
/// when there is none.
pub open spec fn pid_display(parts: Option<(u32, u32)>) -> Seq<char> {
    match parts {
        Some(p) => pid_text_spec(p.0, p.1),
        None => "#PID<0.x.x>"@,
    }
}

impl InternalPid {
    /// Renders this PID, given the `(number, serial)` pair that the process
    /// table translates it to, or `None` when no table is at hand; then the
    /// parts print as `x`: `#PID<0.x.x>`.
    pub fn to_string(&self, parts: Option<(u32, u32)>) -> (r: String)
        ensures
            r@ == pid_display(parts),
    {
        match parts {
            Some((number, serial)) => pid_text(number, serial),
            None => String::from_str("#PID<0.x.x>"),
        }
    }
}

impl LocalPid {
    /// Renders this PID as `#PID<0.number.serial>`, from the pair that its
    /// table index decomposes into.
    pub fn to_string(&self) -> (r: String)
        ensures
            r@ == pid_text_spec(detached_decompose(self@ >> 4usize).0, detached_decompose(self@ >> 4usize).1),
    {
        let (number, serial) = self.decompose();
        pid_text(number, serial)
    }
}

} // verus!
