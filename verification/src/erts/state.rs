//! Per-process state: links, monitors, and the process dictionary.
use vstd::prelude::*;

use crate::erts::dict::ProcessDict;
use crate::erts::flags::ProcessFlags;
use crate::erts::message::Message;
use crate::erts::signal::Signal;
use crate::types::atom::Atom;
use crate::types::exit::Exit;
use crate::types::dest::LocalDest;
use crate::types::pids::InternalPid;
use crate::types::pids::LocalPid;
use crate::types::refs::MonitorRef;

verus! {

// -----------------------------------------------------------------------------
// Links and monitors
// -----------------------------------------------------------------------------

/// State of a link to another process.
///
/// A link is enabled, or disabled while an unlink is in progress; a disabled
/// link remembers the id of that unlink.
#[derive(Clone, Copy, Debug, PartialEq, Eq, Structural)]
pub struct ProcLink {
    unlink: Option<u64>,
}

impl ProcLink {
    /// The id of the unlink in progress, if any.
    pub closed spec fn spec_unlink(&self) -> Option<u64> {
        self.unlink
    }

    /// Returns `true` if no unlink is in progress.
    pub open spec fn spec_enabled(&self) -> bool {
        self.spec_unlink() is None
    }

    /// An enabled link.
    pub closed spec fn spec_new() -> ProcLink {
        ProcLink { unlink: None }
    }

    /// A new link is enabled.
    pub proof fn lemma_new_enabled()
        ensures
            ProcLink::spec_new().spec_unlink() is None,
    {
    }

    /// Creates an enabled link.
    pub fn new() -> (r: ProcLink)
        ensures
            r == ProcLink::spec_new(),
            r.spec_unlink() is None,
    {
        ProcLink { unlink: None }
    }

    /// Returns `true` if the link is enabled.
    pub fn is_enabled(&self) -> (r: bool)
        ensures
            r == self.spec_enabled(),
    {
        self.unlink.is_none()
    }

    /// Returns `true` if the link is disabled, an unlink being in progress.
    pub fn is_disabled(&self) -> (r: bool)
        ensures
            r == !self.spec_enabled(),
    {
        !self.is_enabled()
    }

    /// Enables the link.
    pub fn enable(&mut self)
        ensures
            final(self).spec_unlink() is None,
    {
        self.unlink = None;
    }

    /// Disables the link for the unlink with id `unlink`.
    pub fn disable(&mut self, unlink: u64)
        ensures
            final(self).spec_unlink() == Some(unlink),
    {
        self.unlink = Some(unlink);
    }

    /// Returns `true` if an unlink is in progress and its id is `ulid`.
    pub fn matches(&self, ulid: u64) -> (r: bool)
        ensures
            r == (self.spec_unlink() == Some(ulid)),
    {
        match self.unlink {
            Some(id) => id == ulid,
            None => false,
        }
    }
}

/// State of a monitor: the process that made it and what it watches.
#[derive(Clone, Copy, Debug, PartialEq, Eq, Structural)]
pub struct ProcMonitor {
    origin: LocalPid,
    target: LocalDest,
}

impl ProcMonitor {
    /// The process that made the monitor.
    pub closed spec fn spec_origin(&self) -> LocalPid {
        self.origin
    }

    /// The destination the monitor watches.
    pub closed spec fn spec_target(&self) -> LocalDest {
        self.target
    }

    /// The monitor that `origin` holds on `target`.
    pub closed spec fn spec_new(origin: LocalPid, target: LocalDest) -> ProcMonitor {
        ProcMonitor { origin, target }
    }

    /// A monitor made of `origin` and `target` has them as its parts.
    pub proof fn lemma_spec_new_parts(origin: LocalPid, target: LocalDest)
        ensures
            ProcMonitor::spec_new(origin, target).spec_origin() == origin,
            ProcMonitor::spec_new(origin, target).spec_target() == target,
    {
    }

    /// Creates the monitor that `origin` holds on `target`.
    pub fn new(origin: LocalPid, target: LocalDest) -> (r: ProcMonitor)
        ensures
            r == ProcMonitor::spec_new(origin, target),
            r.spec_origin() == origin,
            r.spec_target() == target,
    {
        ProcMonitor { origin, target }
    }

    /// Returns the process that made the monitor.
    pub fn origin(&self) -> (r: LocalPid)
        ensures
            r == self.spec_origin(),
    {
        self.origin
    }

    /// Returns the destination the monitor watches.
    pub fn target(&self) -> (r: LocalDest)
        ensures
            r == self.spec_target(),
    {
        self.target
    }
}

/// The links of a process, keyed by the bits of the linked PID.
#[verifier::external_body]
pub struct LinkTable {
    map: hashbrown::HashMap<usize, ProcLink>,
}

/// The PID-bits-to-link pairs that a [`LinkTable`] holds.
pub uninterp spec fn link_table_contents(table: LinkTable) -> Map<usize, ProcLink>;

/// Creates an empty `hashbrown::HashMap` with `HashMap::new`; the contract
/// claims it holds no pairs.
#[verifier::external_body]
fn link_table_new() -> (r: LinkTable)
    ensures
        link_table_contents(r).dom() == Set::<usize>::empty(),
{
    LinkTable { map: hashbrown::HashMap::new() }
}

/// Looks a key up with `hashbrown::HashMap::get` and copies the value out;
/// the contract claims it returns the value stored under `key`, if any.
#[verifier::external_body]
fn link_table_get(table: &LinkTable, key: usize) -> (r: Option<ProcLink>)
    ensures
        r is Some <==> link_table_contents(*table).dom().contains(key),
        r is Some ==> r->0 == link_table_contents(*table)[key],
{
    table.map.get(&key).copied()
}

/// Stores a pair with `hashbrown::HashMap::insert`; the contract claims the
/// key now maps to `value` and every other key is unchanged.
#[verifier::external_body]
fn link_table_insert(table: &mut LinkTable, key: usize, value: ProcLink)
    ensures
        link_table_contents(*final(table)) == link_table_contents(*old(table)).insert(key, value),
{
    table.map.insert(key, value);
}

/// Removes a key with `hashbrown::HashMap::remove`; the contract claims the
/// key is gone, every other key unchanged, and the removed value returned.
#[verifier::external_body]
fn link_table_remove(table: &mut LinkTable, key: usize) -> (r: Option<ProcLink>)
    ensures
        link_table_contents(*final(table)) == link_table_contents(*old(table)).remove(key),
        r is Some <==> link_table_contents(*old(table)).dom().contains(key),
        r is Some ==> r->0 == link_table_contents(*old(table))[key],
{
    table.map.remove(&key)
}

impl LinkTable {
    /// The links, by the bits of the linked PID.
    pub open spec fn contents(&self) -> Map<usize, ProcLink> {
        link_table_contents(*self)
    }

    /// Creates a table with no links.
    pub fn new() -> (r: LinkTable)
        ensures
            r.contents() == Map::<usize, ProcLink>::empty(),
    {
        let r = link_table_new();
        assert(r.contents() =~= Map::<usize, ProcLink>::empty());
        r
    }

    /// Returns the link to `pid`, if any.
    pub fn get(&self, pid: LocalPid) -> (r: Option<ProcLink>)
        ensures
            r == self.contents().get(pid@),
    {
        link_table_get(self, pid.into_bits())
    }

    /// Sets the link to `pid`.
    pub fn insert(&mut self, pid: LocalPid, link: ProcLink)
        ensures
            final(self).contents() == old(self).contents().insert(pid@, link),
    {
        link_table_insert(self, pid.into_bits(), link)
    }

    /// Removes the link to `pid` and returns it, if any.
    pub fn remove(&mut self, pid: LocalPid) -> (r: Option<ProcLink>)
        ensures
            final(self).contents() == old(self).contents().remove(pid@),
            r == old(self).contents().get(pid@),
    {
        link_table_remove(self, pid.into_bits())
    }
}

/// The monitors of a process, keyed by the words of the monitor reference.
#[verifier::external_body]
pub struct MonitorTable {
    map: hashbrown::HashMap<(u32, u32, u32), ProcMonitor>,
}

/// The reference-words-to-monitor pairs that a [`MonitorTable`] holds.
pub uninterp spec fn monitor_table_contents(table: MonitorTable) -> Map<(u32, u32, u32), ProcMonitor>;

/// Creates an empty `hashbrown::HashMap` with `HashMap::new`; the contract
/// claims it holds no pairs.
#[verifier::external_body]
fn monitor_table_new() -> (r: MonitorTable)
    ensures
        monitor_table_contents(r).dom() == Set::<(u32, u32, u32)>::empty(),
{
    MonitorTable { map: hashbrown::HashMap::new() }
}

/// Looks a key up with `hashbrown::HashMap::get` and copies the value out;
/// the contract claims it returns the value stored under `key`, if any.
#[verifier::external_body]
fn monitor_table_get(table: &MonitorTable, key: (u32, u32, u32)) -> (r: Option<ProcMonitor>)
    ensures
        r is Some <==> monitor_table_contents(*table).dom().contains(key),
        r is Some ==> r->0 == monitor_table_contents(*table)[key],
{
    table.map.get(&key).copied()
}

/// Stores a pair with `hashbrown::HashMap::insert`; the contract claims the
/// key now maps to `value` and every other key is unchanged.
#[verifier::external_body]
fn monitor_table_insert(table: &mut MonitorTable, key: (u32, u32, u32), value: ProcMonitor)
    ensures
        monitor_table_contents(*final(table)) == monitor_table_contents(*old(table)).insert(key, value),
{
    table.map.insert(key, value);
}

/// Removes a key with `hashbrown::HashMap::remove`; the contract claims the
/// key is gone, every other key unchanged, and the removed value returned.
#[verifier::external_body]
fn monitor_table_remove(table: &mut MonitorTable, key: (u32, u32, u32)) -> (r: Option<ProcMonitor>)
    ensures
        monitor_table_contents(*final(table)) == monitor_table_contents(*old(table)).remove(key),
        r is Some <==> monitor_table_contents(*old(table)).dom().contains(key),
        r is Some ==> r->0 == monitor_table_contents(*old(table))[key],
{
    table.map.remove(&key)
}

impl MonitorTable {
    /// The monitors, by the words of their reference.
    pub open spec fn contents(&self) -> Map<(u32, u32, u32), ProcMonitor> {
        monitor_table_contents(*self)
    }

    /// Creates a table with no monitors.
    pub fn new() -> (r: MonitorTable)
        ensures
            r.contents() == Map::<(u32, u32, u32), ProcMonitor>::empty(),
    {
        let r = monitor_table_new();
        assert(r.contents() =~= Map::<(u32, u32, u32), ProcMonitor>::empty());
        r
    }

    /// Returns the monitor with reference `mref`, if any.
    pub fn get(&self, mref: MonitorRef) -> (r: Option<ProcMonitor>)
        ensures
            r == self.contents().get(mref@),
    {
        monitor_table_get(self, mref.words())
    }

    /// Sets the monitor with reference `mref`.
    pub fn insert(&mut self, mref: MonitorRef, monitor: ProcMonitor)
        ensures
            final(self).contents() == old(self).contents().insert(mref@, monitor),
    {
        monitor_table_insert(self, mref.words(), monitor)
    }

    /// Removes the monitor with reference `mref` and returns it, if any.
    pub fn remove(&mut self, mref: MonitorRef) -> (r: Option<ProcMonitor>)
        ensures
            final(self).contents() == old(self).contents().remove(mref@),
            r == old(self).contents().get(mref@),
    {
        monitor_table_remove(self, mref.words())
    }
}


// -----------------------------------------------------------------------------
// Process state
// -----------------------------------------------------------------------------

/// The state of a process that its signals act on, as mathematical values.
#[verifier::ext_equal]
pub struct ProcState<T> {
    /// The bits of the process flags.
    pub flags: u32,
    /// The links, by the bits of the linked PID.
    pub links: Map<usize, ProcLink>,
    /// The monitors this process made, by reference.
    pub monitor_send: Map<(u32, u32, u32), ProcMonitor>,
    /// The monitors watching this process, by reference.
    pub monitor_recv: Map<(u32, u32, u32), ProcMonitor>,
    /// The mailbox, oldest message first.
    pub inbox: Seq<Message<T>>,
    /// The signals this process sends, oldest first, each with the process
    /// to deliver it to.
    pub outbox: Seq<(LocalPid, Signal<T>)>,
}

/// Mutable state of a process.
pub struct ProcInternal<T> {
    /// Process flags.
    pub flags: ProcessFlags,
    /// Mailbox, oldest message first.
    pub inbox: Vec<Message<T>>,
    /// Linked processes.
    pub links: LinkTable,
    /// Monitors this process made.
    pub monitor_send: MonitorTable,
    /// Monitors watching this process.
    pub monitor_recv: MonitorTable,
    /// Signals to deliver to other processes, oldest first, each with its
    /// receiver.
    pub outbox: Vec<(LocalPid, Signal<T>)>,
    /// Process dictionary.
    pub dictionary: ProcessDict<T>,
    /// The process that handles this process's I/O.
    pub group_leader: LocalPid,
}

impl<T> ProcInternal<T> {
    /// The state that signals act on.
    pub open spec fn state(&self) -> ProcState<T> {
        ProcState {
            flags: self.flags@,
            links: self.links.contents(),
            monitor_send: self.monitor_send.contents(),
            monitor_recv: self.monitor_recv.contents(),
            inbox: self.inbox@,
            outbox: self.outbox@,
        }
    }

    /// Creates the state of a new process: no flags, links, monitors or
    /// messages, an empty dictionary, and the root process as group leader.
    pub fn new() -> (r: ProcInternal<T>)
        ensures
            r.state() == (ProcState::<T> {
                flags: 0,
                links: Map::empty(),
                monitor_send: Map::empty(),
                monitor_recv: Map::empty(),
                inbox: Seq::empty(),
                outbox: Seq::empty(),
            }),
            r.dictionary.wf(),
            r.dictionary.map() == Map::<u32, T>::empty(),
            r.group_leader == LocalPid::spec_root_proc(),
    {
        ProcInternal {
            flags: ProcessFlags::empty(),
            inbox: Vec::new(),
            outbox: Vec::new(),
            links: LinkTable::new(),
            monitor_send: MonitorTable::new(),
            monitor_recv: MonitorTable::new(),
            dictionary: ProcessDict::new(),
            group_leader: LocalPid::root_proc(),
        }
    }

    /// Takes the signals waiting in the outbox, oldest first, leaving it
    /// empty; the caller delivers each to its receiver.
    pub fn take_outbox(&mut self) -> (r: Vec<(LocalPid, Signal<T>)>)
        ensures
            r@ == old(self).outbox@,
            final(self).state() == (ProcState::<T> { outbox: Seq::empty(), ..old(self).state() }),
            final(self).dictionary == old(self).dictionary,
            final(self).group_leader == old(self).group_leader,
    {
        let mut out: Vec<(LocalPid, Signal<T>)> = Vec::new();
        std::mem::swap(&mut out, &mut self.outbox);
        out
    }

    /// Adds `message` to the end of the mailbox.
    pub fn send(&mut self, message: Message<T>)
        ensures
            final(self).state() == (ProcState::<T> { inbox: old(self).state().inbox.push(message), ..old(self).state() }),
            final(self).dictionary == old(self).dictionary,
            final(self).group_leader == old(self).group_leader,
    {
        self.inbox.push(message);
    }
}


/// The entry of a process in the node's process table: its PID, the
/// process that spawned it, its registered name and, once it terminates,
/// its exit reason.
pub struct ProcExternal<T> {
    mpid: InternalPid,
    root: Option<InternalPid>,
    name: Option<Atom>,
    exit: Option<Exit<T>>,
}

impl<T> ProcExternal<T> {
    /// The PID of the process.
    pub closed spec fn spec_mpid(&self) -> InternalPid {
        self.mpid
    }

    /// The process that spawned this one, if any.
    pub closed spec fn spec_root(&self) -> Option<InternalPid> {
        self.root
    }

    /// Returns the PID of the process.
    pub fn mpid(&self) -> (r: InternalPid)
        ensures
            r == self.spec_mpid(),
    {
        self.mpid
    }

    /// Returns the process that spawned this one, if any.
    pub fn root(&self) -> (r: Option<InternalPid>)
        ensures
            r == self.spec_root(),
    {
        self.root
    }

    /// The exit reason, once set.
    pub closed spec fn spec_exit(&self) -> Option<Exit<T>> {
        self.exit
    }

    /// The name the process is registered under, if any.
    pub closed spec fn spec_name(&self) -> Option<Atom> {
        self.name
    }

    /// Returns the name the process is registered under, if any.
    pub fn name(&self) -> (r: Option<Atom>)
        ensures
            r == self.spec_name(),
    {
        self.name
    }

    /// Records the name the process is registered under.
    pub fn set_name(&mut self, name: Option<Atom>)
        ensures
            final(self).spec_name() == name,
            final(self).spec_exit() == old(self).spec_exit(),
            final(self).spec_mpid() == old(self).spec_mpid(),
            final(self).spec_root() == old(self).spec_root(),
    {
        self.name = name;
    }

    /// Creates the entry of a running process `mpid`, spawned by `root`: no
    /// name, no exit reason.
    pub fn new(mpid: InternalPid, root: Option<InternalPid>) -> (r: ProcExternal<T>)
        ensures
            r.spec_mpid() == mpid,
            r.spec_root() == root,
            r.spec_name() is None,
            r.spec_exit() is None,
    {
        ProcExternal { mpid, root, name: None, exit: None }
    }

    /// Returns the exit reason, if the process has terminated.
    pub fn exit(&self) -> (r: Option<&Exit<T>>)
        ensures
            r is Some <==> self.spec_exit() is Some,
            r is Some ==> *r->0 == self.spec_exit()->0,
    {
        match &self.exit {
            Some(exit) => Some(exit),
            None => None,
        }
    }

    /// Sets the exit reason; it is set once, and a second reason is handed
    /// back as the error.
    pub fn set_exit(&mut self, exit: Exit<T>) -> (r: Result<(), Exit<T>>)
        ensures
            final(self).spec_name() == old(self).spec_name(),
            final(self).spec_mpid() == old(self).spec_mpid(),
            final(self).spec_root() == old(self).spec_root(),
            final(self).spec_exit() == exit_after_set(old(self).spec_exit(), exit),
            old(self).spec_exit() is None ==> r is Ok,
            old(self).spec_exit() is Some ==> r == Err::<(), Exit<T>>(exit),
    {
        if self.exit.is_some() {
            return Err(exit);
        }
        self.exit = Some(exit);
        Ok(())
    }
}

/// The exit reason after setting `exit` on a process whose reason was
/// `before`: the first reason set stays.
pub open spec fn exit_after_set<T>(before: Option<Exit<T>>, exit: Exit<T>) -> Option<Exit<T>> {
    match before {
        Some(first) => Some(first),
        None => Some(exit),
    }
}

/// The exit reason of a process is set once: whatever is set after the
/// first reason, the first stays.
pub proof fn law_exit_set_once<T>(first: Exit<T>, second: Exit<T>)
    ensures
        exit_after_set(exit_after_set(None, first), second) == Some(first),
{
}

} // verus!
