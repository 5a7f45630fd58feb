//! Destinations of messages and monitors: a process or a registered name.
use vstd::prelude::*;
use vstd::std_specs::convert::FromSpecImpl;

use crate::types::atom::Atom;
use crate::types::atom::AtomTable;
use crate::types::pids::ExternalPid;
use crate::types::pids::InternalPid;
use crate::types::pids::LocalPid;
use crate::types::pids::detached_decompose;
use crate::types::pids::pid_display;
use crate::types::pids::pid_text_spec;

verus! {

// -----------------------------------------------------------------------------
// Local destination
// -----------------------------------------------------------------------------

/// A process on this node, named by PID or by registered name.
#[derive(Clone, Copy, Debug, Hash, PartialEq, Eq, PartialOrd, Ord, Structural)]
pub enum LocalDest {
    /// A process named by its PID.
    Proc(LocalPid),
    /// A process named by the name it is registered under.
    Name(Atom),
}

impl LocalDest {
    /// Returns `true` if this destination is a PID.
    pub fn is_proc(&self) -> (r: bool)
        ensures
            r == (*self is Proc),
    {
        matches!(self, LocalDest::Proc(_))
    }

    /// Returns `true` if this destination is a registered name.
    pub fn is_name(&self) -> (r: bool)
        ensures
            r == (*self is Name),
    {
        matches!(self, LocalDest::Name(_))
    }
}

impl LocalDest {
    /// Renders this destination: the PID's text, or the name's string in
    /// `atoms`.
    pub fn to_string(&self, atoms: &AtomTable) -> (r: String)
        requires
            atoms.wf(),
            *self is Name ==> self->Name_0@ < atoms@.len(),
        ensures
            *self is Proc ==> r@ == pid_text_spec(
                detached_decompose(self->Proc_0@ >> 4usize).0,
                detached_decompose(self->Proc_0@ >> 4usize).1,
            ),
            *self is Name ==> r@ == atoms@[self->Name_0@ as int],
    {
        match self {
            LocalDest::Proc(pid) => pid.to_string(),
            LocalDest::Name(name) => name.to_string(atoms),
        }
    }
}

impl From<LocalPid> for LocalDest {
    fn from(other: LocalPid) -> (r: LocalDest) {
        LocalDest::Proc(other)
    }
}

impl FromSpecImpl<LocalPid> for LocalDest {
    open spec fn obeys_from_spec() -> bool {
        true
    }

    open spec fn from_spec(v: LocalPid) -> LocalDest {
        LocalDest::Proc(v)
    }
}

impl From<Atom> for LocalDest {
    fn from(other: Atom) -> (r: LocalDest) {
        LocalDest::Name(other)
    }
}

impl FromSpecImpl<Atom> for LocalDest {
    open spec fn obeys_from_spec() -> bool {
        true
    }

    open spec fn from_spec(v: Atom) -> LocalDest {
        LocalDest::Name(v)
    }
}

// -----------------------------------------------------------------------------
// Internal destination
// -----------------------------------------------------------------------------

/// A process on this node, named by internal PID or by registered name.
#[derive(Clone, Copy, Debug, Hash, PartialEq, Eq, PartialOrd, Ord, Structural)]
pub enum InternalDest {
    /// A process named by its PID.
    Proc(InternalPid),
    /// A process named by the name it is registered under.
    Name(Atom),
}

impl InternalDest {
    /// Returns `true` if this destination is a PID.
    pub fn is_proc(&self) -> (r: bool)
        ensures
            r == (*self is Proc),
    {
        matches!(self, InternalDest::Proc(_))
    }

    /// Returns `true` if this destination is a registered name.
    pub fn is_name(&self) -> (r: bool)
        ensures
            r == (*self is Name),
    {
        matches!(self, InternalDest::Name(_))
    }
}

impl InternalDest {
    /// Renders this destination: the PID's text given its table translation
    /// `parts` (see [`InternalPid::to_string`]), or the name's string in
    /// `atoms`.
    pub fn to_string(&self, atoms: &AtomTable, parts: Option<(u32, u32)>) -> (r: String)
        requires
            atoms.wf(),
            *self is Name ==> self->Name_0@ < atoms@.len(),
        ensures
            *self is Proc ==> r@ == pid_display(parts),
            *self is Name ==> r@ == atoms@[self->Name_0@ as int],
    {
        match self {
            InternalDest::Proc(pid) => pid.to_string(parts),
            InternalDest::Name(name) => name.to_string(atoms),
        }
    }
}

impl From<InternalPid> for InternalDest {
    fn from(other: InternalPid) -> (r: InternalDest) {
        InternalDest::Proc(other)
    }
}

impl FromSpecImpl<InternalPid> for InternalDest {
    open spec fn obeys_from_spec() -> bool {
        true
    }

    open spec fn from_spec(v: InternalPid) -> InternalDest {
        InternalDest::Proc(v)
    }
}

impl From<Atom> for InternalDest {
    fn from(other: Atom) -> (r: InternalDest) {
        InternalDest::Name(other)
    }
}

impl FromSpecImpl<Atom> for InternalDest {
    open spec fn obeys_from_spec() -> bool {
        true
    }

    open spec fn from_spec(v: Atom) -> InternalDest {
        InternalDest::Name(v)
    }
}

// -----------------------------------------------------------------------------
// External destination
// -----------------------------------------------------------------------------

/// A process on this node or another, named by PID or by registered name.
#[derive(Clone, Copy, Debug, Hash, PartialEq, Eq, PartialOrd, Ord, Structural)]
pub enum ExternalDest {
    /// A process on this node, named by its PID.
    InternalProc(InternalPid),
    /// A process on this node, named by its registered name.
    InternalName(Atom),
    /// A process on another node, named by its PID.
    ExternalProc(ExternalPid),
    /// A process registered under a name (first) on a node (second).
    ExternalName(Atom, Atom),
}

impl ExternalDest {
    /// Returns `true` if this destination is a PID, local or remote.
    pub fn is_proc(&self) -> (r: bool)
        ensures
            r == (*self is InternalProc || *self is ExternalProc),
    {
        matches!(self, ExternalDest::InternalProc(_) | ExternalDest::ExternalProc(_))
    }

    /// Returns `true` if this destination is a PID on this node.
    pub fn is_internal_proc(&self) -> (r: bool)
        ensures
            r == (*self is InternalProc),
    {
        matches!(self, ExternalDest::InternalProc(_))
    }

    /// Returns `true` if this destination is a PID on another node.
    pub fn is_external_proc(&self) -> (r: bool)
        ensures
            r == (*self is ExternalProc),
    {
        matches!(self, ExternalDest::ExternalProc(_))
    }

    /// Returns `true` if this destination is a registered name, local or remote.
    pub fn is_name(&self) -> (r: bool)
        ensures
            r == (*self is InternalName || *self is ExternalName),
    {
        matches!(self, ExternalDest::InternalName(_) | ExternalDest::ExternalName(_, _))
    }

    /// Returns `true` if this destination is a name registered on this node.
    pub fn is_internal_name(&self) -> (r: bool)
        ensures
            r == (*self is InternalName),
    {
        matches!(self, ExternalDest::InternalName(_))
    }

    /// Returns `true` if this destination is a name registered on another node.
    pub fn is_external_name(&self) -> (r: bool)
        ensures
            r == (*self is ExternalName),
    {
        matches!(self, ExternalDest::ExternalName(_, _))
    }
}

impl ExternalDest {
    /// Renders this destination: a local PID's text given its table
    /// translation `parts`, or a name's string in `atoms`. A remote PID
    /// prints as its PID bits do locally; a remote name prints as the name.
    pub fn to_string(&self, atoms: &AtomTable, parts: Option<(u32, u32)>) -> (r: String)
        requires
            atoms.wf(),
            *self is InternalName ==> self->InternalName_0@ < atoms@.len(),
            *self is ExternalName ==> self->ExternalName_0@ < atoms@.len(),
        ensures
            *self is InternalProc || *self is ExternalProc ==> r@ == pid_display(parts),
            *self is InternalName ==> r@ == atoms@[self->InternalName_0@ as int],
            *self is ExternalName ==> r@ == atoms@[self->ExternalName_0@ as int],
    {
        match self {
            ExternalDest::InternalProc(pid) => pid.to_string(parts),
            ExternalDest::ExternalProc(pid) => pid.bits().to_string(parts),
            ExternalDest::InternalName(name) => name.to_string(atoms),
            ExternalDest::ExternalName(name, _node) => name.to_string(atoms),
        }
    }
}

impl From<InternalPid> for ExternalDest {
    fn from(other: InternalPid) -> (r: ExternalDest) {
        ExternalDest::InternalProc(other)
    }
}

impl FromSpecImpl<InternalPid> for ExternalDest {
    open spec fn obeys_from_spec() -> bool {
        true
    }

    open spec fn from_spec(v: InternalPid) -> ExternalDest {
        ExternalDest::InternalProc(v)
    }
}

impl From<ExternalPid> for ExternalDest {
    fn from(other: ExternalPid) -> (r: ExternalDest) {
        ExternalDest::ExternalProc(other)
    }
}

impl FromSpecImpl<ExternalPid> for ExternalDest {
    open spec fn obeys_from_spec() -> bool {
        true
    }

    open spec fn from_spec(v: ExternalPid) -> ExternalDest {
        ExternalDest::ExternalProc(v)
    }
}

impl From<Atom> for ExternalDest {
    fn from(other: Atom) -> (r: ExternalDest) {
        ExternalDest::InternalName(other)
    }
}

impl FromSpecImpl<Atom> for ExternalDest {
    open spec fn obeys_from_spec() -> bool {
        true
    }

    open spec fn from_spec(v: Atom) -> ExternalDest {
        ExternalDest::InternalName(v)
    }
}

impl From<(Atom, Atom)> for ExternalDest {
    fn from(other: (Atom, Atom)) -> (r: ExternalDest) {
        ExternalDest::ExternalName(other.0, other.1)
    }
}

impl FromSpecImpl<(Atom, Atom)> for ExternalDest {
    open spec fn obeys_from_spec() -> bool {
        true
    }

    open spec fn from_spec(v: (Atom, Atom)) -> ExternalDest {
        ExternalDest::ExternalName(v.0, v.1)
    }
}

impl From<InternalDest> for ExternalDest {
    fn from(other: InternalDest) -> (r: ExternalDest) {
        match other {
            InternalDest::Proc(pid) => ExternalDest::InternalProc(pid),
            InternalDest::Name(name) => ExternalDest::InternalName(name),
        }
    }
}

impl FromSpecImpl<InternalDest> for ExternalDest {
    open spec fn obeys_from_spec() -> bool {
        true
    }

    open spec fn from_spec(v: InternalDest) -> ExternalDest {
        match v {
            InternalDest::Proc(pid) => ExternalDest::InternalProc(pid),
            InternalDest::Name(name) => ExternalDest::InternalName(name),
        }
    }
}

} // verus!
