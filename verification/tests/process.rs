use errai::error::ExceptionGroup;
use errai::erts::flags::ProcessFlags;
use errai::erts::process::Process;
use errai::erts::process::ProcessTask;
use errai::erts::registry::Registry;
use errai::erts::signal::ControlSignal;
use errai::erts::signal::Signal;
use errai::erts::spawn::SpawnConfig;
use errai::erts::spawn::SpawnHandle;
use errai::erts::table::ProcessTable;
use errai::erts::table::ProcessTableFull;
use errai::erts::state::ProcExternal;
use errai::erts::message::Message;
use errai::erts::signal::MessageSignal;
use errai::types::Atom;
use errai::types::AtomTable;
use errai::types::InternalDest;
use errai::types::InternalPid;
use errai::types::LocalDest;
use errai::types::LocalPid;
use errai::types::LocalRef;
use errai::types::MonitorRef;

type Task = ProcessTask<u32>;
type Table = ProcessTable<ProcExternal<u32>>;

fn pid(n: usize) -> LocalPid {
    LocalPid::from_bits((n << 4) | 3)
}

#[test]
fn process_this_and_flags() {
    let mut task = Task::new(pid(1), None);
    assert_eq!(Process::this(&task).into_bits(), (1 << 4) | 3);
    assert_eq!(Process::get_flags(&task), ProcessFlags::empty());
    assert!(!Process::set_flag(&mut task, ProcessFlags::trap_exit(), true));
    assert!(Process::set_flag(&mut task, ProcessFlags::trap_exit(), false));
    assert!(!Process::get_flags(&task).contains(ProcessFlags::trap_exit()));
    Process::set_flags(&mut task, ProcessFlags::async_dist());
    assert_eq!(Process::get_flags(&task).bits(), 1 << 26);
}

#[test]
fn process_dictionary() {
    let mut atoms = AtomTable::with_well_known();
    let key = Atom::new(&mut atoms, "key");
    let other = Atom::new(&mut atoms, "other");
    let mut task = Task::new(pid(1), None);
    assert_eq!(Process::put(&mut task, key, 1), None);
    assert_eq!(Process::put(&mut task, key, 2), Some(1));
    assert_eq!(Process::put(&mut task, other, 3), None);
    assert_eq!(Process::get(&task, key), Some(2));
    assert_eq!(Process::keys(&task).len(), 2);
    let mut values = Process::values(&task);
    values.sort();
    assert_eq!(values, vec![2, 3]);
    assert_eq!(Process::pairs(&task).len(), 2);
    assert_eq!(Process::delete(&mut task, key), Some(2));
    assert_eq!(Process::get(&task, key), None);
    assert_eq!(Process::clear(&mut task), vec![(other, 3)]);
    assert!(Process::keys(&task).is_empty());
}

#[test]
fn process_links() {
    let mut task = Task::new(pid(1), None);
    assert!(Process::link(&mut task, pid(1)).is_none());
    assert!(matches!(Process::link(&mut task, pid(2)), Some(Signal::Control(ControlSignal::Link(_)))));
    assert!(Process::link(&mut task, pid(2)).is_none());
    assert!(matches!(Process::unlink(&mut task, pid(2), 9), Some(Signal::Control(ControlSignal::Unlink(_)))));
    assert!(Process::unlink(&mut task, pid(2), 10).is_none());
    assert!(task.internal.links.get(pid(2)).unwrap().matches(9));
    assert!(Process::link(&mut task, pid(2)).is_some());
    assert!(task.internal.links.get(pid(2)).unwrap().is_enabled());
}

fn spawn(parent: &mut Task, table: &mut Table, options: SpawnConfig) -> (Task, SpawnHandle) {
    let mref = MonitorRef::new(LocalRef::new_from(0, 5));
    Process::spawn_opt(parent, table, options, mref).unwrap()
}

#[test]
fn process_monitors() {
    let mut table: Table = Table::with_capacity(16);
    let mut task = Task::new(pid(1), None);
    let (target, _) = spawn(&mut task, &mut table, SpawnConfig::new());
    let mref = MonitorRef::new(LocalRef::new_from(0, 1));
    let signal = Process::monitor(&mut task, &table, target.mpid, LocalDest::Proc(target.mpid), mref).unwrap();
    assert!(matches!(signal, Signal::Control(ControlSignal::Monitor(_))));
    assert!(task.internal.inbox.is_empty());
    let (dest, signal) = Process::demonitor(&mut task, mref).unwrap();
    assert_eq!(dest, LocalDest::Proc(target.mpid));
    assert!(matches!(signal, Signal::Control(ControlSignal::Demonitor(_))));
    assert!(Process::demonitor(&mut task, mref).is_none());
}

#[test]
fn process_monitor_of_missing_process_is_down_at_once() {
    let table: Table = Table::with_capacity(16);
    let mut task = Task::new(pid(1), None);
    let mref = MonitorRef::new(LocalRef::new_from(0, 2));
    assert!(Process::monitor(&mut task, &table, pid(2), LocalDest::Proc(pid(2)), mref).is_none());
    assert!(task.internal.monitor_send.get(mref).is_none());
    assert_eq!(task.internal.inbox.len(), 1);
    match &task.internal.inbox[0] {
        Message::Down(down) => {
            assert_eq!(*down.mref(), mref);
            assert!(down.exit().is_noproc());
        },
        _ => panic!("expected a DOWN message"),
    }
}

#[test]
fn process_spawn_options() {
    let mut table: Table = Table::with_capacity(16);
    let mut parent = Task::new(pid(1), None);
    let (child, handle) = spawn(&mut parent, &mut table, SpawnConfig::new_link());
    let child_pid: InternalPid = Process::this(&child);
    assert_eq!(handle, SpawnHandle::Process(child_pid));
    assert!(handle.is_process());
    assert_eq!(child.root, Some(pid(1)));
    assert!(Process::alive(&table, child_pid));
    assert_eq!(Process::list(&table), vec![child_pid]);
    assert_eq!(table.get(child_pid).unwrap().mpid(), child_pid);
    assert_eq!(table.get(child_pid).unwrap().root(), Some(pid(1).into_internal()));
    assert!(parent.internal.links.get(child.mpid).is_some());
    assert!(child.internal.links.get(pid(1)).is_some());
    let mref = MonitorRef::new(LocalRef::new_from(0, 5));
    let (other, handle) = spawn(&mut parent, &mut table, SpawnConfig::new_monitor());
    assert_ne!(other.mpid, child.mpid);
    assert_eq!(handle, SpawnHandle::Monitor(other.mpid.into_internal(), mref));
    assert!(handle.is_monitor());
    assert!(parent.internal.monitor_send.get(mref).is_some());
    assert!(other.internal.monitor_recv.get(mref).is_some());
    assert!(other.internal.links.get(pid(1)).is_none());
    let mut options = SpawnConfig::new();
    options.trap_exit = true;
    let (third, _) = spawn(&mut parent, &mut table, options);
    assert!(third.internal.flags.contains(ProcessFlags::trap_exit()));
    assert_eq!(Process::list(&table).len(), 3);
}

#[test]
fn process_spawn_into_full_table() {
    let mut table: Table = Table::with_capacity(16);
    let mut parent = Task::new(pid(1), None);
    for _ in 0..16 {
        spawn(&mut parent, &mut table, SpawnConfig::new_link());
    }
    let mref = MonitorRef::new(LocalRef::new_from(0, 5));
    assert_eq!(Process::spawn_opt(&mut parent, &mut table, SpawnConfig::new(), mref).err(), Some(ProcessTableFull));
    assert_eq!(Process::list(&table).len(), 16);
}

#[test]
fn process_alive_after_slot_reuse() {
    let mut table: Table = Table::with_capacity(16);
    let mut parent = Task::new(pid(1), None);
    let mut pids: Vec<InternalPid> = Vec::new();
    for _ in 0..16 {
        let (child, _) = spawn(&mut parent, &mut table, SpawnConfig::new());
        pids.push(Process::this(&child));
    }
    let first: InternalPid = pids[0];
    assert!(table.remove(first).is_some());
    assert!(!Process::alive(&table, first));
    let (child, _) = spawn(&mut parent, &mut table, SpawnConfig::new());
    let again: InternalPid = Process::this(&child);
    assert!(table.contains(first));
    assert!(!Process::alive(&table, first));
    assert!(Process::alive(&table, again));
    let list: Vec<InternalPid> = Process::list(&table);
    assert!(list.contains(&again));
    assert!(!list.contains(&first));
}

#[test]
fn process_registry() {
    let mut atoms = AtomTable::with_well_known();
    let name = Atom::new(&mut atoms, "logger");
    let other = Atom::new(&mut atoms, "other");
    let mut table: Table = Table::with_capacity(16);
    let mut registry = Registry::new();
    let mut parent = Task::new(pid(1), None);
    let (child, _) = spawn(&mut parent, &mut table, SpawnConfig::new());
    let live: InternalPid = Process::this(&child);
    let dead = InternalPid::from_bits(((5u64) << 4) | 3);
    assert_eq!(Process::register(&mut registry, &table, dead, name).unwrap_err().group(), ExceptionGroup::BadArg);
    assert!(Process::register(&mut registry, &table, live, name).is_ok());
    assert!(Process::register(&mut registry, &table, live, name).is_ok());
    assert!(Process::register(&mut registry, &table, live, other).is_err());
    assert_eq!(Process::whereis(&registry, name), Some(live));
    assert_eq!(Process::registered(&registry), vec![name]);
    assert!(Process::unregister(&mut registry, name).is_ok());
    assert!(Process::unregister(&mut registry, name).is_err());
    assert_eq!(Process::whereis(&registry, name), None);
    assert!(Process::alive(&table, live));
    assert_eq!(Process::list(&table), vec![live]);
}

#[test]
fn process_resolve_destination() {
    let mut atoms = AtomTable::with_well_known();
    let name = Atom::new(&mut atoms, "server");
    let mut table: Table = Table::with_capacity(16);
    let mut registry = Registry::new();
    let mut parent = Task::new(pid(1), None);
    let (child, _) = spawn(&mut parent, &mut table, SpawnConfig::new());
    let live: InternalPid = Process::this(&child);
    let direct = InternalPid::from_bits(0x43);
    assert_eq!(Process::resolve(&registry, InternalDest::from(direct)).unwrap(), direct);
    assert_eq!(Process::resolve(&registry, InternalDest::from(name)).unwrap_err().group(), ExceptionGroup::BadArg);
    assert!(Process::register(&mut registry, &table, live, name).is_ok());
    assert_eq!(Process::resolve(&registry, InternalDest::from(name)).unwrap(), live);
}

#[test]
fn process_send_resolves_names() {
    let mut atoms = AtomTable::with_well_known();
    let name = Atom::new(&mut atoms, "server");
    let mut table: Table = Table::with_capacity(16);
    let mut registry = Registry::new();
    let mut parent = Task::new(pid(1), None);
    let (child, _) = spawn(&mut parent, &mut table, SpawnConfig::new());
    let live: InternalPid = Process::this(&child);
    let error = Process::send(&parent, &registry, InternalDest::from(name), 7u32).unwrap_err();
    assert_eq!(error.group(), ExceptionGroup::BadArg);
    assert!(Process::register(&mut registry, &table, live, name).is_ok());
    let (to, signal) = Process::send(&parent, &registry, InternalDest::from(name), 7u32).unwrap();
    assert_eq!(to, live);
    match signal {
        Signal::Message(MessageSignal::Send(send)) => {
            assert_eq!(send.from, pid(1));
            assert_eq!(send.data, 7);
        },
        _ => panic!("expected a message"),
    }
    let (to, _) = Process::send(&parent, &registry, InternalDest::from(live), 8u32).unwrap();
    assert_eq!(to, live);
}

#[test]
fn process_link_is_bidirectional() {
    let mut a = Task::new(pid(1), None);
    let mut b = Task::new(pid(2), None);
    let request = Process::link(&mut a, pid(2)).unwrap();
    assert!(request.recv(pid(2), &mut b.internal).is_none());
    assert!(a.internal.links.get(pid(2)).unwrap().is_enabled());
    assert!(b.internal.links.get(pid(1)).unwrap().is_enabled());
}

#[test]
fn process_unlink_protocol() {
    let mut a = Task::new(pid(1), None);
    let mut b = Task::new(pid(2), None);
    let request = Process::link(&mut a, pid(2)).unwrap();
    assert!(request.recv(pid(2), &mut b.internal).is_none());
    let request = Process::unlink(&mut a, pid(2), 7).unwrap();
    assert!(a.internal.links.get(pid(2)).unwrap().matches(7));
    assert!(request.recv(pid(2), &mut b.internal).is_none());
    assert!(b.internal.links.get(pid(1)).is_none());
    assert_eq!(b.internal.outbox.len(), 1);
    let (to, ack) = b.internal.outbox.remove(0);
    assert_eq!(to, pid(1));
    assert!(ack.recv(pid(1), &mut a.internal).is_none());
    assert!(a.internal.links.get(pid(2)).is_none());
}
