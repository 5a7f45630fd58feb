use errai::erts::flags::ProcessFlags;
use errai::erts::message::Message;
use errai::erts::signal::ControlSignal;
use errai::erts::signal::MessageSignal;
use errai::erts::signal::Signal;
use errai::erts::signal::SignalDemonitor;
use errai::erts::signal::SignalExit;
use errai::erts::signal::SignalLink;
use errai::erts::signal::SignalLinkExit;
use errai::erts::signal::SignalMonitor;
use errai::erts::signal::SignalMonitorDown;
use errai::erts::signal::SignalSend;
use errai::erts::signal::SignalUnlink;
use errai::erts::signal::SignalUnlinkAck;
use errai::erts::state::ProcInternal;
use errai::erts::state::ProcLink;
use errai::types::Atom;
use errai::types::Exit;
use errai::types::LocalDest;
use errai::types::LocalPid;
use errai::types::LocalRef;
use errai::types::MonitorRef;

type State = ProcInternal<u32>;

fn pid(n: usize) -> LocalPid {
    LocalPid::from_bits((n << 4) | 3)
}

fn mref(n: u64) -> MonitorRef {
    MonitorRef::new(LocalRef::new_from(0, n))
}

fn trapping() -> State {
    let mut state = State::new();
    state.flags.insert(ProcessFlags::trap_exit());
    state
}

#[test]
fn exit_kill_cannot_be_trapped() {
    let mut state = trapping();
    let out = SignalExit::new(pid(2), Exit::from(Atom::kill())).recv(pid(1), &mut state);
    assert!(out.unwrap().is_killed());
    assert!(state.inbox.is_empty());
}

#[test]
fn exit_trapped_becomes_message() {
    let mut state = trapping();
    let out = SignalExit::new(pid(2), Exit::<u32>::Term(7)).recv(pid(1), &mut state);
    assert!(out.is_none());
    assert_eq!(state.inbox.len(), 1);
    match &state.inbox[0] {
        Message::Exit(message) => {
            assert_eq!(message.from(), pid(2));
            assert_eq!(*message.exit(), Exit::Term(7));
        },
        _ => panic!("expected an EXIT message"),
    }
}

#[test]
fn exit_normal_from_other_ignored() {
    let mut state = State::new();
    let out = SignalExit::new(pid(2), Exit::normal()).recv(pid(1), &mut state);
    assert!(out.is_none());
    assert!(state.inbox.is_empty());
}

#[test]
fn exit_normal_from_self_terminates() {
    let mut state = State::new();
    let out = SignalExit::new(pid(1), Exit::normal()).recv(pid(1), &mut state);
    assert!(out.unwrap().is_normal());
}

#[test]
fn exit_custom_terminates_untrapped() {
    let mut state = State::new();
    let out = SignalExit::new(pid(2), Exit::<u32>::Term(9)).recv(pid(1), &mut state);
    assert_eq!(out, Some(Exit::Term(9)));
}

#[test]
fn link_then_link_exit_propagates() {
    let mut state = State::new();
    assert!(SignalLink::new(pid(2)).recv(&mut state).is_none());
    assert!(SignalLink::new(pid(2)).recv(&mut state).is_none());
    assert_eq!(state.links.get(pid(2)), Some(ProcLink::new()));
    let out = SignalLinkExit::new(pid(2), Exit::<u32>::Term(3)).recv(&mut state);
    assert_eq!(out, Some(Exit::Term(3)));
    let out = SignalLinkExit::new(pid(2), Exit::<u32>::normal()).recv(&mut state);
    assert!(out.is_none());
}

#[test]
fn link_exit_without_link_ignored() {
    let mut state = State::new();
    let out = SignalLinkExit::new(pid(5), Exit::<u32>::killed()).recv(&mut state);
    assert!(out.is_none());
}

#[test]
fn link_exit_trapped_becomes_message() {
    let mut state = trapping();
    SignalLink::new(pid(2)).recv(&mut state);
    let out = SignalLinkExit::new(pid(2), Exit::<u32>::Term(4)).recv(&mut state);
    assert!(out.is_none());
    assert!(state.inbox[0].is_exit());
}

#[test]
fn unlink_removes_enabled_link() {
    let mut state = State::new();
    SignalLink::new(pid(2)).recv(&mut state);
    SignalUnlink::new(pid(2), 11).recv(pid(1), &mut state);
    assert_eq!(state.links.get(pid(2)), None);
    assert_eq!(state.outbox.len(), 1);
    assert_eq!(state.outbox[0].0, pid(2));
    match &state.outbox[0].1 {
        Signal::Control(ControlSignal::UnlinkAck(ack)) => {
            assert_eq!(ack.from, pid(1));
            assert_eq!(ack.ulid, 11);
        },
        _ => panic!("expected an unlink acknowledgement"),
    }
}

#[test]
fn unlink_ack_needs_matching_id() {
    let mut state = State::new();
    let mut link = ProcLink::new();
    link.disable(5);
    state.links.insert(pid(2), link);
    SignalUnlink::new(pid(2), 5).recv(pid(1), &mut state);
    assert!(state.links.get(pid(2)).is_some());
    assert!(state.outbox.is_empty());
    SignalUnlinkAck::new(pid(2), 6).recv(&mut state);
    assert!(state.links.get(pid(2)).is_some());
    SignalUnlinkAck::new(pid(2), 5).recv(&mut state);
    assert!(state.links.get(pid(2)).is_none());
}

#[test]
fn monitor_then_demonitor() {
    let mut state = State::new();
    SignalMonitor::new(pid(2), mref(1), LocalDest::Proc(pid(1))).recv(&mut state);
    assert!(state.monitor_recv.get(mref(1)).is_some());
    SignalDemonitor::new(pid(2), mref(1)).recv(&mut state);
    assert!(state.monitor_recv.get(mref(1)).is_none());
}

#[test]
fn monitor_down_delivered_once() {
    let mut state = State::new();
    state.monitor_send.insert(mref(3), errai::erts::state::ProcMonitor::new(pid(1), LocalDest::Proc(pid(2))));
    SignalMonitorDown::new(pid(2), mref(3), Exit::<u32>::noproc()).recv(&mut state);
    SignalMonitorDown::new(pid(2), mref(3), Exit::<u32>::noproc()).recv(&mut state);
    assert_eq!(state.inbox.len(), 1);
    match &state.inbox[0] {
        Message::Down(message) => {
            assert_eq!(*message.mref(), mref(3));
            assert_eq!(*message.dest(), LocalDest::Proc(pid(2)));
            assert!(message.exit().is_noproc());
        },
        _ => panic!("expected a DOWN message"),
    }
}

#[test]
fn send_appends_in_order() {
    let mut state = State::new();
    let first = Signal::Message(MessageSignal::Send(SignalSend::new(pid(2), 1u32)));
    let second = Signal::Message(MessageSignal::Send(SignalSend::new(pid(3), 2u32)));
    assert!(first.recv(pid(1), &mut state).is_none());
    assert!(second.recv(pid(1), &mut state).is_none());
    assert_eq!(state.inbox.len(), 2);
    assert!(matches!(state.inbox[0], Message::Term(1)));
    assert!(matches!(state.inbox[1], Message::Term(2)));
}

#[test]
fn control_signal_dispatch() {
    let mut state = State::new();
    let signal: Signal<u32> = Signal::Control(ControlSignal::Exit(SignalExit::new(pid(2), Exit::from(Atom::kill()))));
    assert!(signal.recv(pid(1), &mut state).unwrap().is_killed());
}

#[test]
fn outbox_is_taken_in_order() {
    let mut state = State::new();
    SignalLink::new(pid(2)).recv(&mut state);
    SignalLink::new(pid(3)).recv(&mut state);
    SignalUnlink::new(pid(2), 4).recv(pid(1), &mut state);
    SignalUnlink::new(pid(3), 5).recv(pid(1), &mut state);
    let out = state.take_outbox();
    assert!(state.outbox.is_empty());
    assert_eq!(out.len(), 2);
    assert_eq!(out[0].0, pid(2));
    assert_eq!(out[1].0, pid(3));
}
