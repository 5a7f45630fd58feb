//! Names registered for processes on this node.
use vstd::prelude::*;

use crate::types::atom::Atom;
use crate::types::pids::InternalPid;

verus! {

/// Registered names, keyed by atom slot, holding PID bits.
#[verifier::external_body]
pub struct NameTable {
    map: hashbrown::HashMap<u32, u64>,
}

/// The name-to-PID pairs that a [`NameTable`] holds.
pub uninterp spec fn name_table_contents(table: NameTable) -> Map<u32, u64>;

/// Creates an empty `hashbrown::HashMap` with `HashMap::new`; the contract
/// claims it holds no pairs.
#[verifier::external_body]
fn name_table_new() -> (r: NameTable)
    ensures
        name_table_contents(r).dom() == Set::<u32>::empty(),
{
    NameTable { map: hashbrown::HashMap::new() }
}

/// Looks a key up with `hashbrown::HashMap::get` and copies the value out;
/// the contract claims it returns the value stored under `key`, if any.
#[verifier::external_body]
fn name_table_get(table: &NameTable, key: u32) -> (r: Option<u64>)
    ensures
        r is Some <==> name_table_contents(*table).dom().contains(key),
        r is Some ==> r->0 == name_table_contents(*table)[key],
{
    table.map.get(&key).copied()
}

/// Stores a pair with `hashbrown::HashMap::insert`; the contract claims the
/// key now maps to `value` and every other key is unchanged.
#[verifier::external_body]
fn name_table_insert(table: &mut NameTable, key: u32, value: u64)
    ensures
        name_table_contents(*final(table)) == name_table_contents(*old(table)).insert(key, value),
{
    table.map.insert(key, value);
}

/// Removes a key with `hashbrown::HashMap::remove`; the contract claims the
/// key is gone, every other key unchanged, and the removed value returned.
#[verifier::external_body]
fn name_table_remove(table: &mut NameTable, key: u32) -> (r: Option<u64>)
    ensures
        name_table_contents(*final(table)) == name_table_contents(*old(table)).remove(key),
        r is Some <==> name_table_contents(*old(table)).dom().contains(key),
        r is Some ==> r->0 == name_table_contents(*old(table))[key],
{
    table.map.remove(&key)
}

/// Lists the keys with `hashbrown::HashMap::keys`; the contract claims each
/// key is listed once, in an order it leaves open.
#[verifier::external_body]
fn name_table_keys(table: &NameTable) -> (r: Vec<u32>)
    ensures
        r@.no_duplicates(),
        r@.to_set() == name_table_contents(*table).dom(),
{
    table.map.keys().copied().collect()
}

/// The names registered on this node, each naming one process.
pub struct Registry {
    names: NameTable,
}

impl View for Registry {
    type V = Map<u32, u64>;

    /// The PID bits registered under each name, by atom slot.
    closed spec fn view(&self) -> Map<u32, u64> {
        name_table_contents(self.names)
    }
}

impl Registry {
    /// The invariant: no PID is registered under two names.
    pub open spec fn wf(&self) -> bool {
        forall|k1: u32, k2: u32|
            #[trigger] self@.dom().contains(k1) && #[trigger] self@.dom().contains(k2) && k1 != k2 ==> self@[k1] != self@[k2]
    }

    /// Creates a registry with no names.
    pub fn new() -> (r: Registry)
        ensures
            r.wf(),
            r@ == Map::<u32, u64>::empty(),
    {
        let r = Registry { names: name_table_new() };
        assert(r@ =~= Map::<u32, u64>::empty());
        r
    }

    /// Returns the PID registered under `name`, if any.
    pub fn whereis(&self, name: Atom) -> (r: Option<InternalPid>)
        ensures
            r is Some <==> self@.dom().contains(name@),
            r is Some ==> r->0@ == self@[name@],
    {
        match name_table_get(&self.names, name.into_slot()) {
            Some(bits) => Some(InternalPid::from_bits(bits)),
            None => None,
        }
    }

    /// Returns the registered names, each once, in no set order.
    pub fn names(&self) -> (r: Vec<Atom>)
        ensures
            r@.len() == self@.dom().len(),
            forall|i: int| 0 <= i < r@.len() ==> #[trigger] self@.dom().contains(r@[i]@),
            forall|i: int, j: int| 0 <= i < r@.len() && 0 <= j < r@.len() && i != j ==> #[trigger] r@[i]@ != #[trigger] r@[j]@,
            r@.map_values(|a: Atom| a@).to_set() == self@.dom(),
    {
        let keys: Vec<u32> = name_table_keys(&self.names);
        proof {
            keys@.unique_seq_to_set();
        }
        let mut r: Vec<Atom> = Vec::new();
        let mut i: usize = 0;
        while i < keys.len()
            invariant
                i <= keys@.len(),
                r@.len() == i,
                forall|j: int| 0 <= j < i ==> #[trigger] r@[j]@ == keys@[j],
            decreases keys@.len() - i,
        {
            r.push(Atom::from_slot(keys[i]));
            i = i + 1;
        }
        proof {
            assert forall|j: int| 0 <= j < r@.len() implies #[trigger] self@.dom().contains(r@[j]@) by {
                assert(keys@.to_set().contains(keys@[j]));
            }
            assert(r@.map_values(|a: Atom| a@) =~= keys@);
        }
        r
    }

    /// Returns the name `pid` is registered under, if any.
    pub fn name_of(&self, pid: InternalPid) -> (r: Option<Atom>)
        ensures
            r is Some ==> self@.dom().contains(r->0@) && self@[r->0@] == pid@,
            r is None ==> forall|k: u32| #[trigger] self@.dom().contains(k) ==> self@[k] != pid@,
    {
        let keys: Vec<u32> = name_table_keys(&self.names);
        let mut i: usize = 0;
        while i < keys.len()
            invariant
                i <= keys@.len(),
                keys@.to_set() == self@.dom(),
                forall|j: int| 0 <= j < i ==> self@[#[trigger] keys@[j]] != pid@,
            decreases keys@.len() - i,
        {
            match name_table_get(&self.names, keys[i]) {
                Some(bits) => {
                    if bits == pid.into_bits() {
                        proof {
                            assert(keys@.to_set().contains(keys@[i as int]));
                        }
                        return Some(Atom::from_slot(keys[i]));
                    }
                },
                None => {
                    proof {
                        assert(keys@.to_set().contains(keys@[i as int]));
                    }
                },
            }
            i = i + 1;
        }
        proof {
            assert forall|k: u32| #[trigger] self@.dom().contains(k) implies self@[k] != pid@ by {
                assert(keys@.to_set().contains(k));
                let j = choose|j: int| 0 <= j < keys@.len() && keys@[j] == k;
                assert(self@[keys@[j]] != pid@);
            }
        }
        None
    }

    /// Registers `pid` under `name`.
    pub fn insert(&mut self, name: Atom, pid: InternalPid)
        ensures
            final(self)@ == old(self)@.insert(name@, pid@),
    {
        name_table_insert(&mut self.names, name.into_slot(), pid.into_bits())
    }

    /// Removes `name`, returning the PID it was registered to.
    pub fn remove(&mut self, name: Atom) -> (r: Option<InternalPid>)
        ensures
            final(self)@ == old(self)@.remove(name@),
            r is Some <==> old(self)@.dom().contains(name@),
            r is Some ==> r->0@ == old(self)@[name@],
    {
        match name_table_remove(&mut self.names, name.into_slot()) {
            Some(bits) => Some(InternalPid::from_bits(bits)),
            None => None,
        }
    }
}


/// A registered name finds its PID until it is removed; removing it makes
/// the name free again.
pub proof fn law_register_whereis(names: Map<u32, u64>, name: u32, pid: u64)
    ensures
        names.insert(name, pid).dom().contains(name),
        names.insert(name, pid)[name] == pid,
        !names.insert(name, pid).remove(name).dom().contains(name),
        !names.dom().contains(name) ==> names.insert(name, pid).remove(name) == names,
{
    assert(!names.dom().contains(name) ==> names.insert(name, pid).remove(name) =~= names);
}

} // verus!
