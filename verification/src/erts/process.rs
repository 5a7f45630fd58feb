//! The process API: what a process can do to itself, its dictionary, its
//! links and monitors, and the names of the node.
//!
//! Every call acts on the state it is handed: the calling process's task,
//! the node's process table and its name registry. A call that must reach
//! another process returns the signal to deliver to it.
use vstd::prelude::*;

use crate::error::Exception;
use crate::error::ExceptionClass;
use crate::error::ExceptionGroup;
use crate::erts::flags::ProcessFlags;
use crate::erts::message::DownMessage;
use crate::erts::message::Message;
use crate::erts::signal::deliver;
use crate::erts::registry::Registry;
use crate::erts::signal::ControlSignal;
use crate::erts::signal::MessageSignal;
use crate::erts::signal::Signal;
use crate::erts::signal::SignalDemonitor;
use crate::erts::signal::SignalExit;
use crate::erts::signal::SignalLink;
use crate::erts::signal::SignalMonitor;
use crate::erts::signal::SignalMonitorDown;
use crate::erts::signal::SignalSend;
use crate::erts::signal::SignalUnlink;
use crate::erts::spawn::SpawnConfig;
use crate::erts::spawn::SpawnHandle;
use crate::erts::state::ProcInternal;
use crate::erts::state::ProcLink;
use crate::erts::state::ProcMonitor;
use crate::erts::state::ProcExternal;
use crate::erts::state::ProcState;
use crate::erts::table::ProcessTable;
use crate::erts::table::ProcessTableFull;
use crate::types::atom::Atom;
use crate::types::dest::InternalDest;
use crate::types::dest::LocalDest;
use crate::types::exit::Exit;
use crate::types::pids::InternalPid;
use crate::types::pids::LocalPid;
use crate::types::refs::MonitorRef;

verus! {

broadcast use crate::types::pids::lemma_spec_pid;

/// The state of a running process that its own calls act on.
pub struct ProcessTask<T> {
    /// The PID of the process.
    pub mpid: LocalPid,
    /// The process that spawned this one, if any.
    pub root: Option<LocalPid>,
    /// The process's mutable state.
    pub internal: ProcInternal<T>,
}

impl<T> ProcessTask<T> {
    /// Creates the task of a new process `mpid`, spawned by `root`.
    pub fn new(mpid: LocalPid, root: Option<LocalPid>) -> (r: ProcessTask<T>)
        ensures
            r.mpid == mpid,
            r.root == root,
            r.internal.flags@ == 0,
            r.internal.links.contents() == Map::<usize, ProcLink>::empty(),
            r.internal.monitor_send.contents() == Map::<(u32, u32, u32), ProcMonitor>::empty(),
            r.internal.monitor_recv.contents() == Map::<(u32, u32, u32), ProcMonitor>::empty(),
            r.internal.inbox@ == Seq::<crate::erts::message::Message<T>>::empty(),
            r.internal.outbox@ == Seq::<(LocalPid, Signal<T>)>::empty(),
            r.internal.dictionary.wf(),
            r.internal.dictionary.map() == Map::<u32, T>::empty(),
    {
        ProcessTask { mpid, root, internal: ProcInternal::new() }
    }
}

/// Returns `true` if the task's dictionary keeps its invariant.
pub open spec fn task_wf<T>(task: &ProcessTask<T>) -> bool {
    task.internal.dictionary.wf()
}

/// The process API.
pub struct Process;

impl Process {
    // -------------------------------------------------------------------------
    // General
    // -------------------------------------------------------------------------

    /// Returns the PID of the calling process.
    pub fn this<T>(task: &ProcessTask<T>) -> (r: InternalPid)
        ensures
            r@ == task.mpid@ as u64,
    {
        task.mpid.into_internal()
    }

    /// Returns the PIDs of every process of the node, in table order: each
    /// entry's PID once, exiting processes included.
    pub fn list<T>(table: &ProcessTable<ProcExternal<T>>) -> (r: Vec<InternalPid>)
        requires
            table.wf(),
        ensures
            r@ == table.keys_upto(table.spec_capacity() as int),
            r@.len() == table@.dom().len(),
            forall|i: int| #[trigger] table.pids().dom().contains(i) ==> r@.contains(table.pids()[i]),
            forall|j: int| 0 <= j < r@.len() ==> table.pids().contains_value(#[trigger] r@[j]),
            forall|pid: InternalPid| #[trigger] is_alive(table, pid) ==> r@.contains(pid),
            r@.no_duplicates(),
    {
        table.keys()
    }

    /// Returns `true` if `pid` names a process that exists and is alive:
    /// one that is neither exiting nor exited.
    pub fn alive<T>(table: &ProcessTable<ProcExternal<T>>, pid: InternalPid) -> (r: bool)
        requires
            table.wf(),
        ensures
            r == is_alive(table, pid),
    {
        proof {
            table.law_entry_pids();
        }
        match table.issued_pid(pid) {
            Some(issued) => {
                if issued != pid {
                    return false;
                }
                match table.get(pid) {
                    Some(entry) => entry.exit().is_none(),
                    None => false,
                }
            },
            None => false,
        }
    }

    /// Returns the flags of the calling process.
    pub fn get_flags<T>(task: &ProcessTask<T>) -> (r: ProcessFlags)
        ensures
            r == task.internal.flags,
    {
        task.internal.flags
    }

    /// Replaces the flags of the calling process.
    pub fn set_flags<T>(task: &mut ProcessTask<T>, flags: ProcessFlags)
        ensures
            final(task).internal.flags == flags,
            final(task).internal.state() == (ProcState { flags: flags@, ..old(task).internal.state() }),
            final(task).internal.dictionary == old(task).internal.dictionary,
            final(task).mpid == old(task).mpid,
    {
        task.internal.flags = flags;
    }

    /// Sets the flags of `flag` if `value` holds, else clears them; returns
    /// whether they were all set before.
    pub fn set_flag<T>(task: &mut ProcessTask<T>, flag: ProcessFlags, value: bool) -> (r: bool)
        ensures
            r == old(task).internal.flags.spec_contains(flag),
            final(task).internal.flags@ == if value {
                old(task).internal.flags@ | flag@
            } else {
                old(task).internal.flags@ & !flag@
            },
            final(task).internal.state() == (ProcState { flags: final(task).internal.flags@, ..old(task).internal.state() }),
            final(task).internal.dictionary == old(task).internal.dictionary,
            final(task).mpid == old(task).mpid,
    {
        let before: bool = task.internal.flags.contains(flag);
        task.internal.flags.set(flag, value);
        before
    }

    /// The signal that carries exit reason `reason` from the calling process.
    pub fn exit<T>(task: &ProcessTask<T>, reason: Exit<T>) -> (r: Signal<T>)
        ensures
            r == Signal::Control(ControlSignal::Exit(SignalExit { from: task.mpid, exit: reason })),
    {
        Signal::Control(ControlSignal::Exit(SignalExit::new(task.mpid, reason)))
    }

    /// Sends `message` from the calling process to `dest`: returns the
    /// process it goes to, the PID itself or the one registered under the
    /// name, and the signal that carries it there.
    ///
    /// # Errors
    ///
    /// A `BadArg` exception when `dest` is a name that is not registered.
    pub fn send<T>(task: &ProcessTask<T>, registry: &Registry, dest: InternalDest, message: T) -> (r: Result<
        (InternalPid, Signal<T>),
        Exception,
    >)
        ensures
            r is Ok ==> r->Ok_0.1 == Signal::Message(MessageSignal::Send(SignalSend { from: task.mpid, data: message })),
            dest is Proc ==> r is Ok && r->Ok_0.0 == dest->Proc_0,
            dest is Name && registry@.dom().contains(dest->Name_0@) ==> r is Ok && r->Ok_0.0@ == registry@[dest->Name_0@],
            dest is Name && !registry@.dom().contains(dest->Name_0@) ==> r is Err && r->Err_0.spec_group() == ExceptionGroup::BadArg,
    {
        match Process::resolve(registry, dest) {
            Ok(pid) => Ok((pid, Signal::Message(MessageSignal::Send(SignalSend::new(task.mpid, message))))),
            Err(error) => Err(error),
        }
    }

    // -------------------------------------------------------------------------
    // Links and monitors
    // -------------------------------------------------------------------------

    /// Links the calling process to `pid`, returning the link request to
    /// deliver to `pid`.
    ///
    /// Linking a process to itself does nothing, and so does linking to a
    /// process linked already; a link being unlinked is enabled again.
    pub fn link<T>(task: &mut ProcessTask<T>, pid: LocalPid) -> (r: Option<Signal<T>>)
        ensures
            final(task).mpid == old(task).mpid,
            final(task).internal.dictionary == old(task).internal.dictionary,
            final(task).internal.state() == (ProcState {
                links: link_effect(old(task).internal.links.contents(), old(task).mpid, pid).0,
                ..old(task).internal.state()
            }),
            r == match link_effect(old(task).internal.links.contents(), old(task).mpid, pid).1 {
                Some(request) => Some(Signal::<T>::Control(ControlSignal::Link(request))),
                None => None,
            },
    {
        if pid == task.mpid {
            return None;
        }
        match task.internal.links.get(pid) {
            Some(link) => {
                if link.is_enabled() {
                    return None;
                }
            },
            None => {},
        }
        task.internal.links.insert(pid, ProcLink::new());
        Some(Signal::Control(ControlSignal::Link(SignalLink::new(task.mpid))))
    }

    /// Starts removing the link between the calling process and `pid`: the
    /// link is disabled for unlink `ulid`, and the unlink request to deliver
    /// to `pid` returned. Without an enabled link to `pid`, nothing happens.
    pub fn unlink<T>(task: &mut ProcessTask<T>, pid: LocalPid, ulid: u64) -> (r: Option<Signal<T>>)
        ensures
            final(task).mpid == old(task).mpid,
            final(task).internal.monitor_send == old(task).internal.monitor_send,
            final(task).internal.monitor_recv == old(task).internal.monitor_recv,
            final(task).internal.flags == old(task).internal.flags,
            final(task).internal.inbox == old(task).internal.inbox,
            final(task).internal.dictionary == old(task).internal.dictionary,
            old(task).internal.links.contents().dom().contains(pid@) && old(task).internal.links.contents()[pid@].spec_enabled()
                ==> r == Some(Signal::<T>::Control(ControlSignal::Unlink(SignalUnlink { from: old(task).mpid, ulid })))
                && final(task).internal.links.contents().dom() == old(task).internal.links.contents().dom()
                && final(task).internal.links.contents()[pid@].spec_unlink() == Some(ulid)
                && forall|k: usize| k != pid@ ==> #[trigger] final(task).internal.links.contents().get(k) == old(task).internal.links.contents().get(k),
            !(old(task).internal.links.contents().dom().contains(pid@) && old(task).internal.links.contents()[pid@].spec_enabled())
                ==> r is None && final(task).internal.links.contents() == old(task).internal.links.contents(),
    {
        match task.internal.links.get(pid) {
            Some(link) => {
                if link.is_enabled() {
                    let mut link: ProcLink = link;
                    link.disable(ulid);
                    task.internal.links.insert(pid, link);
                    proof {
                        assert(final(task).internal.links.contents().dom() =~= old(task).internal.links.contents().dom());
                    }
                    Some(Signal::Control(ControlSignal::Unlink(SignalUnlink::new(task.mpid, ulid))))
                } else {
                    None
                }
            },
            None => None,
        }
    }

    /// Starts a monitor of the calling process on `dest`, the destination
    /// that process `pid` stands for, under reference `mref`, and returns the
    /// monitor request to deliver to `pid`. When `pid` is not alive, no
    /// monitor is made: a DOWN message with reason `noproc` goes at once to
    /// the calling process's mailbox, and nothing is returned.
    pub fn monitor<T>(
        task: &mut ProcessTask<T>,
        table: &ProcessTable<ProcExternal<T>>,
        pid: LocalPid,
        dest: LocalDest,
        mref: MonitorRef,
    ) -> (r: Option<Signal<T>>)
        requires
            table.wf(),
        ensures
            final(task).mpid == old(task).mpid,
            final(task).internal.dictionary == old(task).internal.dictionary,
            is_alive(table, spec_internal(pid)) ==> {
                &&& final(task).internal.state() == (ProcState {
                    monitor_send: old(task).internal.monitor_send.contents().insert(
                        mref@,
                        ProcMonitor::spec_new(old(task).mpid, dest),
                    ),
                    ..old(task).internal.state()
                })
                &&& r == Some(Signal::<T>::Control(ControlSignal::Monitor(SignalMonitor { from: old(task).mpid, mref, dest })))
            },
            !is_alive(table, spec_internal(pid)) ==> {
                &&& final(task).internal.state() == deliver(
                    old(task).internal.state(),
                    Message::Down(DownMessage::spec_new(mref, dest, Exit::<T>::Atom(Atom::spec_from_slot(4)))),
                )
                &&& r is None
            },
    {
        if !Process::alive(table, pid.into_internal()) {
            task.internal.send(Message::Down(DownMessage::new(mref, dest, Exit::noproc())));
            return None;
        }
        task.internal.monitor_send.insert(mref, ProcMonitor::new(task.mpid, dest));
        Some(Signal::Control(ControlSignal::Monitor(SignalMonitor::new(task.mpid, mref, dest))))
    }

    /// Turns off the monitor `mref` of the calling process. Returns the
    /// destination it watched and the removal request to deliver there, or
    /// `None` if the monitor was off already.
    pub fn demonitor<T>(task: &mut ProcessTask<T>, mref: MonitorRef) -> (r: Option<(LocalDest, Signal<T>)>)
        ensures
            final(task).mpid == old(task).mpid,
            final(task).internal.monitor_recv == old(task).internal.monitor_recv,
            final(task).internal.links == old(task).internal.links,
            final(task).internal.flags == old(task).internal.flags,
            final(task).internal.inbox == old(task).internal.inbox,
            final(task).internal.dictionary == old(task).internal.dictionary,
            final(task).internal.monitor_send.contents() == old(task).internal.monitor_send.contents().remove(mref@),
            old(task).internal.monitor_send.contents().dom().contains(mref@) ==> r == Some((
                old(task).internal.monitor_send.contents()[mref@].spec_target(),
                Signal::<T>::Control(ControlSignal::Demonitor(SignalDemonitor { from: old(task).mpid, mref })),
            )),
            !old(task).internal.monitor_send.contents().dom().contains(mref@) ==> r is None,
    {
        match task.internal.monitor_send.remove(mref) {
            Some(monitor) => Some(
                (monitor.target(), Signal::Control(ControlSignal::Demonitor(SignalDemonitor::new(task.mpid, mref)))),
            ),
            None => None,
        }
    }

    // -------------------------------------------------------------------------
    // Spawning
    // -------------------------------------------------------------------------

    /// Spawns a process from `parent` with `options`: the new process takes
    /// the next PID of `table` and an entry there, starts with the flags the
    /// options ask for, and is linked to and monitored (reference `mref`) by
    /// its parent as they ask. Returns the new process's task and the
    /// spawn's handle.
    ///
    /// # Errors
    ///
    /// [`ProcessTableFull`] when the table has no room; nothing changes then.
    pub fn spawn_opt<T>(
        parent: &mut ProcessTask<T>,
        table: &mut ProcessTable<ProcExternal<T>>,
        options: SpawnConfig,
        mref: MonitorRef,
    ) -> (r: Result<(ProcessTask<T>, SpawnHandle), ProcessTableFull>)
        requires
            old(table).wf(),
            old(parent).internal.dictionary.wf(),
        ensures
            final(table).wf(),
            final(table).spec_capacity() == old(table).spec_capacity(),
            final(parent).mpid == old(parent).mpid,
            final(parent).root == old(parent).root,
            final(parent).internal.dictionary == old(parent).internal.dictionary,
            old(table).count() >= old(table).spec_capacity() ==> {
                &&& r is Err
                &&& final(table)@ == old(table)@
                &&& final(table).pids() == old(table).pids()
                &&& final(parent).internal.state() == old(parent).internal.state()
            },
            old(table).count() < old(table).spec_capacity() ==> {
                let pid = old(table).next_pid();
                let slot = old(table).pid_slot(pid);
                let child = r->Ok_0.0;
                &&& r is Ok
                &&& !old(table)@.dom().contains(slot)
                &&& forall|i: int| #[trigger] old(table).pids().dom().contains(i) ==> old(table).pids()[i] != pid
                &&& is_alive(&*old(table), spec_internal(old(parent).mpid)) ==> spec_internal(old(parent).mpid) != pid
                &&& final(table).pids() == old(table).pids().insert(slot, pid)
                &&& final(table)@.dom() == old(table)@.dom().insert(slot)
                &&& forall|i: int| #[trigger] old(table)@.dom().contains(i) ==> final(table)@[i] == old(table)@[i]
                &&& final(table)@[slot].spec_mpid() == pid
                &&& final(table)@[slot].spec_root() == Some(spec_internal(old(parent).mpid))
                &&& final(table)@[slot].spec_name() is None
                &&& final(table)@[slot].spec_exit() is None
                &&& is_alive(&*final(table), pid)
                &&& child.mpid@ == pid@ as usize
                &&& pid@ <= usize::MAX ==> spec_internal(child.mpid) == pid
                &&& child.root == Some(old(parent).mpid)
                &&& child.internal.dictionary.wf()
                &&& child.internal.dictionary.map() == Map::<u32, T>::empty()
                &&& child.internal.state() == spawned_state::<T>(options, old(parent).mpid, child.mpid, mref)
                &&& final(parent).internal.state() == spawner_state(old(parent).internal.state(), options, old(parent).mpid, child.mpid, mref)
                &&& r->Ok_0.1 == SpawnHandle::spec_for(options, pid, mref)
            },
    {
        let root: InternalPid = parent.mpid.into_internal();
        let make = move |pid: InternalPid| -> (e: ProcExternal<T>)
            ensures
                e.spec_mpid() == pid,
                e.spec_root() == Some(root),
                e.spec_name() is None,
                e.spec_exit() is None,
        {
            let entry: ProcExternal<T> = ProcExternal::new(pid, Some(root));
            entry
        };
        let inserted = table.insert(make);
        match inserted {
            Err(full) => Err(full),
            Ok(entry) => {
                proof {
                    old(table).law_entry_pids();
                }
                let pid: InternalPid = entry.mpid();
                let mut child: ProcessTask<T> = ProcessTask::new(LocalPid::from_bits(pid.into_bits() as usize), Some(parent.mpid));
                Process::setup_spawn(parent, &mut child, options, mref);
                let handle: SpawnHandle = SpawnHandle::for_spawn(options, pid, mref);
                Ok((child, handle))
            },
        }
    }

    /// Sets up a fresh process `child`, just spawned by `parent` with
    /// `options`: its flags, the link between the two and the parent's
    /// monitor on it (reference `mref`) as the options ask.
    fn setup_spawn<T>(parent: &mut ProcessTask<T>, child: &mut ProcessTask<T>, options: SpawnConfig, mref: MonitorRef)
        requires
            old(child).internal.state() == (ProcState::<T> {
                flags: 0,
                links: Map::empty(),
                monitor_send: Map::empty(),
                monitor_recv: Map::empty(),
                inbox: Seq::empty(),
                outbox: Seq::empty(),
            }),
        ensures
            final(parent).mpid == old(parent).mpid,
            final(parent).root == old(parent).root,
            final(parent).internal.dictionary == old(parent).internal.dictionary,
            final(child).mpid == old(child).mpid,
            final(child).root == old(child).root,
            final(child).internal.dictionary == old(child).internal.dictionary,
            final(child).internal.state() == spawned_state::<T>(options, old(parent).mpid, old(child).mpid, mref),
            final(parent).internal.state() == spawner_state(old(parent).internal.state(), options, old(parent).mpid, old(child).mpid, mref),
    {
        let trap: u32 = if options.trap_exit {
            crate::erts::flags::TRAP_EXIT_BIT
        } else {
            0
        };
        let dist: u32 = if options.async_dist {
            crate::erts::flags::ASYNC_DIST_BIT
        } else {
            0
        };
        child.internal.flags.insert(ProcessFlags::from_bits_retain(trap));
        child.internal.flags.insert(ProcessFlags::from_bits_retain(dist));
        proof {
            assert((0u32 | trap) | dist == trap | dist) by (bit_vector);
        }
        if options.link {
            parent.internal.links.insert(child.mpid, ProcLink::new());
            child.internal.links.insert(parent.mpid, ProcLink::new());
        }
        if options.monitor {
            let monitor: ProcMonitor = ProcMonitor::new(parent.mpid, LocalDest::Proc(child.mpid));
            parent.internal.monitor_send.insert(mref, monitor);
            child.internal.monitor_recv.insert(mref, monitor);
        }
    }

    // -------------------------------------------------------------------------
    // Name registration
    // -------------------------------------------------------------------------

    /// Registers `pid` under `name`.
    ///
    /// # Errors
    ///
    /// A `BadArg` exception when `pid` names no live process, when `pid` is
    /// registered under another name, or when `name` is registered to
    /// another PID. Registering a PID again under its own name succeeds and
    /// changes nothing.
    pub fn register<T>(
        registry: &mut Registry,
        table: &ProcessTable<ProcExternal<T>>,
        pid: InternalPid,
        name: Atom,
    ) -> (r: Result<(), Exception>)
        requires
            table.wf(),
            old(registry).wf(),
        ensures
            final(registry).wf(),
            r is Err <==> (!is_alive(table, pid) || (exists|k: u32|
                #[trigger] old(registry)@.dom().contains(k) && k != name@ && old(registry)@[k] == pid@) || (old(
                registry,
            )@.dom().contains(name@) && old(registry)@[name@] != pid@)),
            r is Err ==> r->Err_0.spec_group() == ExceptionGroup::BadArg && final(registry)@ == old(registry)@,
            r is Ok ==> final(registry)@ == old(registry)@.insert(name@, pid@),
    {
        if !Process::alive(table, pid) {
            return Err(Exception::new(ExceptionClass::Error, ExceptionGroup::BadArg, String::from_str("not alive")));
        }
        match registry.whereis(name) {
            Some(owner) => {
                if owner.into_bits() != pid.into_bits() {
                    return Err(Exception::new(ExceptionClass::Error, ExceptionGroup::BadArg, String::from_str("name taken")));
                }
                proof {
                    assert(registry@.insert(name@, pid@) =~= registry@);
                }
                Ok(())
            },
            None => {
                match registry.name_of(pid) {
                    Some(_) => Err(Exception::new(ExceptionClass::Error, ExceptionGroup::BadArg, String::from_str("already registered"))),
                    None => {
                        registry.insert(name, pid);
                        Ok(())
                    },
                }
            },
        }
    }

    /// Removes the registered `name`.
    ///
    /// # Errors
    ///
    /// A `BadArg` exception when `name` is not registered.
    pub fn unregister(registry: &mut Registry, name: Atom) -> (r: Result<(), Exception>)
        requires
            old(registry).wf(),
        ensures
            final(registry).wf(),
            r is Err <==> !old(registry)@.dom().contains(name@),
            r is Err ==> r->Err_0.spec_group() == ExceptionGroup::BadArg,
            final(registry)@ == old(registry)@.remove(name@),
    {
        match registry.remove(name) {
            Some(_) => Ok(()),
            None => {
                proof {
                    assert(old(registry)@.remove(name@) =~= old(registry)@);
                }
                Err(Exception::new(ExceptionClass::Error, ExceptionGroup::BadArg, String::from_str("not registered")))
            },
        }
    }

    /// Returns the process a destination on this node names: the PID
    /// itself, or the PID registered under the name.
    ///
    /// # Errors
    ///
    /// A `BadArg` exception for a name that is not registered.
    pub fn resolve(registry: &Registry, dest: InternalDest) -> (r: Result<InternalPid, Exception>)
        ensures
            dest is Proc ==> r == Ok::<InternalPid, Exception>(dest->Proc_0),
            dest is Name && registry@.dom().contains(dest->Name_0@) ==> r is Ok && r->Ok_0@ == registry@[dest->Name_0@],
            dest is Name && !registry@.dom().contains(dest->Name_0@) ==> r is Err && r->Err_0.spec_group() == ExceptionGroup::BadArg,
    {
        match dest {
            InternalDest::Proc(pid) => Ok(pid),
            InternalDest::Name(name) => match registry.whereis(name) {
                Some(pid) => Ok(pid),
                None => Err(Exception::new(ExceptionClass::Error, ExceptionGroup::BadArg, String::from_str("unregistered name"))),
            },
        }
    }

    /// Returns the PID registered under `name`, or `None`.
    pub fn whereis(registry: &Registry, name: Atom) -> (r: Option<InternalPid>)
        ensures
            r is Some <==> registry@.dom().contains(name@),
            r is Some ==> r->0@ == registry@[name@],
    {
        registry.whereis(name)
    }

    /// Returns the registered names, each once.
    pub fn registered(registry: &Registry) -> (r: Vec<Atom>)
        ensures
            r@.len() == registry@.dom().len(),
            forall|i: int| 0 <= i < r@.len() ==> #[trigger] registry@.dom().contains(r@[i]@),
            forall|i: int, j: int| 0 <= i < r@.len() && 0 <= j < r@.len() && i != j ==> #[trigger] r@[i]@ != #[trigger] r@[j]@,
            r@.map_values(|a: Atom| a@).to_set() == registry@.dom(),
    {
        registry.names()
    }

    // -------------------------------------------------------------------------
    // Process dictionary
    // -------------------------------------------------------------------------

    /// Stores `value` under `key` in the calling process's dictionary and
    /// returns the value stored there before.
    pub fn put<T>(task: &mut ProcessTask<T>, key: Atom, value: T) -> (r: Option<T>)
        requires
            task_wf(old(task)),
        ensures
            task_wf(final(task)),
            final(task).internal.dictionary.map() == old(task).internal.dictionary.map().insert(key@, value),
            r == old(task).internal.dictionary.map().get(key@),
            final(task).mpid == old(task).mpid,
            final(task).internal.state() == old(task).internal.state(),
    {
        task.internal.dictionary.insert(key, value)
    }

    /// Returns the value stored under `key`, or `None`.
    pub fn get<T>(task: &ProcessTask<T>, key: Atom) -> (r: Option<T>)
        where
            T: Clone,
        requires
            task_wf(task),
        ensures
            r is Some <==> task.internal.dictionary.map().dom().contains(key@),
            r is Some ==> cloned(task.internal.dictionary.map()[key@], r->0),
    {
        task.internal.dictionary.get(key)
    }

    /// Removes `key` and returns the value stored under it, or `None`.
    pub fn delete<T>(task: &mut ProcessTask<T>, key: Atom) -> (r: Option<T>)
        requires
            task_wf(old(task)),
        ensures
            task_wf(final(task)),
            final(task).internal.dictionary.map() == old(task).internal.dictionary.map().remove(key@),
            r == old(task).internal.dictionary.map().get(key@),
            final(task).mpid == old(task).mpid,
            final(task).internal.state() == old(task).internal.state(),
    {
        task.internal.dictionary.remove(key)
    }

    /// Empties the dictionary and returns the pairs it held, each once.
    pub fn clear<T>(task: &mut ProcessTask<T>) -> (r: Vec<(Atom, T)>)
        requires
            task_wf(old(task)),
        ensures
            task_wf(final(task)),
            final(task).internal.dictionary.map() == Map::<u32, T>::empty(),
            old(task).internal.dictionary.holds_pairs(r@),
            final(task).mpid == old(task).mpid,
            final(task).internal.state() == old(task).internal.state(),
    {
        task.internal.dictionary.clear()
    }

    /// Returns the pairs of the dictionary, each once.
    pub fn pairs<T>(task: &ProcessTask<T>) -> (r: Vec<(Atom, T)>)
        where
            T: Clone,
        requires
            task_wf(task),
        ensures
            task.internal.dictionary.lists_pairs(r@),
    {
        task.internal.dictionary.pairs()
    }

    /// Returns the keys of the dictionary, each once.
    pub fn keys<T>(task: &ProcessTask<T>) -> (r: Vec<Atom>)
        requires
            task_wf(task),
        ensures
            r@.len() == task.internal.dictionary.map().dom().len(),
            forall|i: int| 0 <= i < r@.len() ==> #[trigger] task.internal.dictionary.map().dom().contains(r@[i]@),
            forall|i: int, j: int| 0 <= i < r@.len() && 0 <= j < r@.len() && i != j ==> #[trigger] r@[i]@ != #[trigger] r@[j]@,
            r@.map_values(|a: Atom| a@).to_set() == task.internal.dictionary.map().dom(),
    {
        task.internal.dictionary.keys()
    }

    /// Returns the values of the dictionary, one per entry.
    pub fn values<T>(task: &ProcessTask<T>) -> (r: Vec<T>)
        where
            T: Clone,
        requires
            task_wf(task),
        ensures
            task.internal.dictionary.lists_values(r@),
    {
        task.internal.dictionary.values()
    }
}

/// The links of process `this` after it links to `pid`, holding `links`
/// before, and the link request it sends `pid`, if any.
pub open spec fn link_effect(links: Map<usize, ProcLink>, this: LocalPid, pid: LocalPid) -> (Map<usize, ProcLink>, Option<SignalLink>) {
    if pid == this || (links.dom().contains(pid@) && links[pid@].spec_enabled()) {
        (links, None)
    } else {
        (links.insert(pid@, ProcLink::spec_new()), Some(SignalLink { from: this }))
    }
}

/// Links are bidirectional: when a process links to another, it holds an
/// enabled link to it, and once the other handles the request, the other
/// holds a link back.
pub proof fn law_link_bidirectional<T>(a: LocalPid, a_links: Map<usize, ProcLink>, b: LocalPid, b_state: ProcState<T>)
    requires
        a != b,
    ensures
        link_effect(a_links, a, b).0.dom().contains(b@),
        link_effect(a_links, a, b).0[b@].spec_enabled(),
        link_effect(a_links, a, b).1 is Some ==> link_effect(a_links, a, b).1->0.outcome(b_state).0.links.dom().contains(a@),
{
    ProcLink::lemma_new_enabled();
}

/// The flags a process spawned with `options` starts with.
pub open spec fn spawn_flags(options: SpawnConfig) -> u32 {
    (if options.trap_exit {
        crate::erts::flags::TRAP_EXIT_BIT
    } else {
        0u32
    }) | (if options.async_dist {
        crate::erts::flags::ASYNC_DIST_BIT
    } else {
        0u32
    })
}

/// The state a process `child` starts with when `parent` spawns it with
/// `options`, the parent's monitor on it having reference `mref`.
pub open spec fn spawned_state<T>(options: SpawnConfig, parent: LocalPid, child: LocalPid, mref: MonitorRef) -> ProcState<T> {
    ProcState {
        flags: spawn_flags(options),
        links: if options.link {
            Map::empty().insert(parent@, ProcLink::spec_new())
        } else {
            Map::empty()
        },
        monitor_send: Map::empty(),
        monitor_recv: if options.monitor {
            Map::empty().insert(mref@, ProcMonitor::spec_new(parent, LocalDest::Proc(child)))
        } else {
            Map::empty()
        },
        inbox: Seq::empty(),
        outbox: Seq::empty(),
    }
}

/// The state of `parent`, in state `s` before, once it has spawned `child`
/// with `options`: linked to it and monitoring it (reference `mref`) as the
/// options ask.
pub open spec fn spawner_state<T>(
    s: ProcState<T>,
    options: SpawnConfig,
    parent: LocalPid,
    child: LocalPid,
    mref: MonitorRef,
) -> ProcState<T> {
    ProcState {
        links: if options.link {
            s.links.insert(child@, ProcLink::spec_new())
        } else {
            s.links
        },
        monitor_send: if options.monitor {
            s.monitor_send.insert(mref@, ProcMonitor::spec_new(parent, LocalDest::Proc(child)))
        } else {
            s.monitor_send
        },
        ..s
    }
}

/// Returns `true` if `pid` names a live process of `table`: the slot it
/// names holds the process handed out with `pid`, and that process has no
/// exit reason.
pub open spec fn is_alive<T>(table: &ProcessTable<ProcExternal<T>>, pid: InternalPid) -> bool {
    &&& table.pids().dom().contains(table.pid_slot(pid))
    &&& table.pids()[table.pid_slot(pid)] == pid
    &&& table@.dom().contains(table.pid_slot(pid))
    &&& table@[table.pid_slot(pid)].spec_exit() is None
}

proof fn lemma_spawn_flag_bits(t: bool, d: bool, tb: u32, db: u32, f: u32)
    by (bit_vector)
    requires
        tb == 0x0040_0000u32,
        db == 0x0400_0000u32,
        f == ((if t {
            tb
        } else {
            0u32
        }) | (if d {
            db
        } else {
            0u32
        })),
    ensures
        t == (f & tb == tb),
        d == (f & db == db),
        f & !tb & !db == 0,
{
}

/// A spawned process starts with exactly the flags its options ask for:
/// it traps exits exactly when `trap_exit` is set, sends asynchronously
/// exactly when `async_dist` is set, and holds no other flag.
pub proof fn law_spawn_flags<T>(options: SpawnConfig, parent: LocalPid, child: LocalPid, mref: MonitorRef)
    ensures
        ({
            let f = spawned_state::<T>(options, parent, child, mref).flags;
            &&& options.trap_exit == (f & crate::erts::flags::TRAP_EXIT_BIT == crate::erts::flags::TRAP_EXIT_BIT)
            &&& options.async_dist == (f & crate::erts::flags::ASYNC_DIST_BIT == crate::erts::flags::ASYNC_DIST_BIT)
            &&& f & !crate::erts::flags::TRAP_EXIT_BIT & !crate::erts::flags::ASYNC_DIST_BIT == 0
        }),
{
    let f = spawned_state::<T>(options, parent, child, mref).flags;
    lemma_spawn_flag_bits(
        options.trap_exit,
        options.async_dist,
        crate::erts::flags::TRAP_EXIT_BIT,
        crate::erts::flags::ASYNC_DIST_BIT,
        f,
    );
}

/// A parent that spawned a process with a monitor gets a DOWN message for
/// it: when the notice that the child terminated with `exit` reaches the
/// parent, a DOWN message with the spawn's reference `mref`, naming the
/// child and `exit`, goes to the end of the parent's mailbox, and the
/// monitor is gone.
pub proof fn law_spawn_monitor_down<T>(
    s: ProcState<T>,
    options: SpawnConfig,
    parent: LocalPid,
    child: LocalPid,
    mref: MonitorRef,
    exit: Exit<T>,
)
    requires
        options.monitor,
    ensures
        ({
            let spawned = spawner_state(s, options, parent, child, mref);
            let after = SignalMonitorDown { from: child, mref, exit }.outcome(spawned).0;
            &&& after.inbox == s.inbox.push(Message::Down(DownMessage::spec_new(mref, LocalDest::Proc(child), exit)))
            &&& !after.monitor_send.dom().contains(mref@)
        }),
{
    ProcMonitor::lemma_spec_new_parts(parent, LocalDest::Proc(child));
}

/// The internal PID with the bits of local PID `pid`.
pub open spec fn spec_internal(pid: LocalPid) -> InternalPid {
    crate::types::pids::spec_pid(pid@ as u64)
}

} // verus!
