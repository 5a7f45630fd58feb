//! Exit reasons: why a process stopped.
use vstd::prelude::*;
use vstd::std_specs::convert::FromSpecImpl;

use crate::types::atom::Atom;

verus! {

/// Reason describing why a process stopped executing.
///
/// A reason is either an atom (the runtime's own reasons, `normal`, `killed`,
/// `noproc`, `noconn`, and symbolic ones of the application) or an arbitrary
/// value of the payload type `T`.
#[derive(Clone, Debug, PartialEq)]
pub enum Exit<T> {
    /// A reason named by an atom.
    Atom(Atom),
    /// A reason carried by a value.
    Term(T),
}

impl<T> Exit<T> {
    /// Returns `true` if this reason is the atom with slot `slot`.
    pub open spec fn is_atom_slot(&self, slot: u32) -> bool {
        self matches Exit::Atom(a) && a@ == slot
    }

    /// Normal termination.
    pub fn normal() -> (r: Exit<T>)
        ensures
            r == Exit::<T>::Atom(Atom::spec_from_slot(3)),
            r.is_atom_slot(3),
    {
        Exit::Atom(Atom::normal())
    }

    /// Forced termination.
    pub fn killed() -> (r: Exit<T>)
        ensures
            r == Exit::<T>::Atom(Atom::spec_from_slot(2)),
            r.is_atom_slot(2),
    {
        Exit::Atom(Atom::killed())
    }

    /// A monitored process that does not exist.
    pub fn noproc() -> (r: Exit<T>)
        ensures
            r == Exit::<T>::Atom(Atom::spec_from_slot(4)),
            r.is_atom_slot(4),
    {
        Exit::Atom(Atom::noproc())
    }

    /// A remote node that is no longer connected.
    pub fn noconn() -> (r: Exit<T>)
        ensures
            r == Exit::<T>::Atom(Atom::spec_from_slot(5)),
            r.is_atom_slot(5),
    {
        Exit::Atom(Atom::noconn())
    }

    /// Returns the atom of this reason, or `None` for a reason carried by a
    /// value.
    pub fn as_atom(&self) -> (r: Option<Atom>)
        ensures
            r == match self {
                Exit::Atom(a) => Some(*a),
                Exit::Term(_) => None::<Atom>,
            },
    {
        match self {
            Exit::Atom(atom) => Some(*atom),
            Exit::Term(_) => None,
        }
    }

    /// Returns `true` if this reason is normal termination.
    pub fn is_normal(&self) -> (r: bool)
        ensures
            r == self.is_atom_slot(3),
    {
        match self {
            Exit::Atom(atom) => atom.into_slot() == 3,
            Exit::Term(_) => false,
        }
    }

    /// Returns `true` if this reason is forced termination.
    pub fn is_killed(&self) -> (r: bool)
        ensures
            r == self.is_atom_slot(2),
    {
        match self {
            Exit::Atom(atom) => atom.into_slot() == 2,
            Exit::Term(_) => false,
        }
    }

    /// Returns `true` if this reason is a missing process.
    pub fn is_noproc(&self) -> (r: bool)
        ensures
            r == self.is_atom_slot(4),
    {
        match self {
            Exit::Atom(atom) => atom.into_slot() == 4,
            Exit::Term(_) => false,
        }
    }

    /// Returns `true` if this reason is a disconnected node.
    pub fn is_noconn(&self) -> (r: bool)
        ensures
            r == self.is_atom_slot(5),
    {
        match self {
            Exit::Atom(atom) => atom.into_slot() == 5,
            Exit::Term(_) => false,
        }
    }

    /// Returns `true` if this reason is the atom `kill`, the request to
    /// terminate unconditionally.
    pub fn is_kill(&self) -> (r: bool)
        ensures
            r == self.is_atom_slot(1),
    {
        match self {
            Exit::Atom(atom) => atom.into_slot() == 1,
            Exit::Term(_) => false,
        }
    }
}

impl<T> From<Atom> for Exit<T> {
    fn from(other: Atom) -> (r: Exit<T>) {
        Exit::Atom(other)
    }
}

impl<T> FromSpecImpl<Atom> for Exit<T> {
    open spec fn obeys_from_spec() -> bool {
        true
    }

    open spec fn from_spec(v: Atom) -> Exit<T> {
        Exit::Atom(v)
    }
}

} // verus!
