//! Signals between processes, and how a process handles each one.
//!
//! Handling a signal is a step from one process state to the next; it may
//! also name the exit reason the process must terminate with. Each handler's
//! contract is that step, written as a function of the signal, the receiver's
//! PID and its state.
use vstd::prelude::*;

use crate::erts::flags::ProcessFlags;
use crate::erts::flags::TRAP_EXIT_BIT;
use crate::erts::message::DownMessage;
use crate::erts::message::ExitMessage;
use crate::erts::message::Message;
use crate::erts::state::ProcInternal;
use crate::erts::state::ProcLink;
use crate::erts::state::ProcMonitor;
use crate::erts::state::ProcState;
use crate::types::atom::Atom;
use crate::types::dest::LocalDest;
use crate::types::exit::Exit;
use crate::types::pids::LocalPid;
use crate::types::refs::MonitorRef;

verus! {

broadcast use Atom::lemma_from_slot;

/// Returns `true` if a process in state `s` traps exits.
pub open spec fn traps_exits<T>(s: ProcState<T>) -> bool {
    s.flags & TRAP_EXIT_BIT == TRAP_EXIT_BIT
}

/// State `s` with `message` added to the end of its mailbox.
pub open spec fn deliver<T>(s: ProcState<T>, message: Message<T>) -> ProcState<T> {
    ProcState { inbox: s.inbox.push(message), ..s }
}

/// Returns `true` if `exit` is the request to terminate unconditionally.
pub open spec fn is_kill_reason<T>(exit: Exit<T>) -> bool {
    exit.is_atom_slot(1)
}

/// Returns `true` if `exit` is normal termination.
pub open spec fn is_normal_reason<T>(exit: Exit<T>) -> bool {
    exit.is_atom_slot(3)
}

/// The reason a killed process terminates with.
pub open spec fn killed_reason<T>() -> Exit<T> {
    Exit::Atom(Atom::spec_from_slot(2))
}

/// What a process does with an exit reason that reaches it: trap it as an
/// EXIT message from `from`, or terminate with it.
pub open spec fn trap_or_exit<T>(s: ProcState<T>, from: LocalPid, exit: Exit<T>) -> (ProcState<T>, Option<Exit<T>>) {
    if traps_exits(s) {
        (deliver(s, Message::Exit(ExitMessage::spec_new(from, exit))), None)
    } else {
        (s, Some(exit))
    }
}

/// The frame of a handler: the parts of the process it never touches.
pub open spec fn frame<T>(before: &ProcInternal<T>, after: &ProcInternal<T>) -> bool {
    &&& after.dictionary == before.dictionary
    &&& after.group_leader == before.group_leader
}

// -----------------------------------------------------------------------------
// Exit
// -----------------------------------------------------------------------------

/// Unconditional exit signal, sent by `exit/2`.
#[derive(Clone, Debug)]
pub struct SignalExit<T> {
    /// The sender.
    pub from: LocalPid,
    /// The exit reason.
    pub exit: Exit<T>,
}

impl<T> SignalExit<T> {
    /// Creates the exit signal from `from` with reason `exit`.
    pub fn new(from: LocalPid, exit: Exit<T>) -> (r: SignalExit<T>)
        ensures
            r.from == from,
            r.exit == exit,
    {
        SignalExit { from, exit }
    }

    /// The step of a process `this` in state `s` that receives this signal.
    ///
    /// `kill` terminates the process as `killed`, trapped or not. A normal
    /// reason is trapped as an EXIT message; untrapped, it terminates the
    /// process only when the process sent it to itself, and is ignored
    /// otherwise. Any other reason is trapped, or terminates the process.
    pub open spec fn outcome(self, this: LocalPid, s: ProcState<T>) -> (ProcState<T>, Option<Exit<T>>) {
        if is_kill_reason(self.exit) {
            (s, Some(killed_reason()))
        } else if is_normal_reason(self.exit) && !traps_exits(s) {
            if self.from == this {
                (s, Some(self.exit))
            } else {
                (s, None)
            }
        } else {
            trap_or_exit(s, self.from, self.exit)
        }
    }

    /// Handles this signal in process `this`.
    pub fn recv(self, this: LocalPid, internal: &mut ProcInternal<T>) -> (r: Option<Exit<T>>)
        ensures
            (final(internal).state(), r) == self.outcome(this, old(internal).state()),
            frame(old(internal), final(internal)),
    {
        let trap: bool = internal.flags.contains(ProcessFlags::trap_exit());
        if self.exit.is_normal() {
            if trap {
                internal.send(Message::Exit(ExitMessage::new(self.from, self.exit)));
                None
            } else if self.from == this {
                Some(self.exit)
            } else {
                None
            }
        } else if self.exit.is_kill() {
            Some(Exit::killed())
        } else if trap {
            internal.send(Message::Exit(ExitMessage::new(self.from, self.exit)));
            None
        } else {
            Some(self.exit)
        }
    }
}

// -----------------------------------------------------------------------------
// Link
// -----------------------------------------------------------------------------

/// Request to link the sender and the receiver.
#[derive(Clone, Debug)]
pub struct SignalLink {
    /// The sender.
    pub from: LocalPid,
}

impl SignalLink {
    /// Creates the link request of `from`.
    pub fn new(from: LocalPid) -> (r: SignalLink)
        ensures
            r.from == from,
    {
        SignalLink { from }
    }

    /// The step: an enabled link to the sender is added, unless a link to
    /// it exists already.
    pub open spec fn outcome<T>(self, s: ProcState<T>) -> (ProcState<T>, Option<Exit<T>>) {
        if s.links.dom().contains(self.from@) {
            (s, None)
        } else {
            (ProcState { links: s.links.insert(self.from@, ProcLink::spec_new()), ..s }, None)
        }
    }

    /// Handles this signal.
    pub fn recv<T>(self, internal: &mut ProcInternal<T>) -> (r: Option<Exit<T>>)
        ensures
            (final(internal).state(), r) == self.outcome(old(internal).state()),
            frame(old(internal), final(internal)),
    {
        match internal.links.get(self.from) {
            Some(_) => {},
            None => {
                internal.links.insert(self.from, ProcLink::new());
            },
        }
        None
    }
}

// -----------------------------------------------------------------------------
// Link exit
// -----------------------------------------------------------------------------

/// Exit signal of a linked process that terminated.
#[derive(Clone, Debug)]
pub struct SignalLinkExit<T> {
    /// The terminated process.
    pub from: LocalPid,
    /// Its exit reason.
    pub exit: Exit<T>,
}

impl<T> SignalLinkExit<T> {
    /// Creates the exit signal of linked process `from`, with reason `exit`.
    pub fn new(from: LocalPid, exit: Exit<T>) -> (r: SignalLinkExit<T>)
        ensures
            r.from == from,
            r.exit == exit,
    {
        SignalLinkExit { from, exit }
    }

    /// The step: only an enabled link to the sender lets the signal act.
    /// Then a trapping process gets an EXIT message; otherwise a normal
    /// reason is ignored and any other one terminates the process.
    pub open spec fn outcome(self, s: ProcState<T>) -> (ProcState<T>, Option<Exit<T>>) {
        if s.links.dom().contains(self.from@) && s.links[self.from@].spec_enabled() {
            if !traps_exits(s) && is_normal_reason(self.exit) {
                (s, None)
            } else {
                trap_or_exit(s, self.from, self.exit)
            }
        } else {
            (s, None)
        }
    }

    /// Handles this signal.
    pub fn recv(self, internal: &mut ProcInternal<T>) -> (r: Option<Exit<T>>)
        ensures
            (final(internal).state(), r) == self.outcome(old(internal).state()),
            frame(old(internal), final(internal)),
    {
        match internal.links.get(self.from) {
            Some(link) => {
                if link.is_enabled() {
                    if internal.flags.contains(ProcessFlags::trap_exit()) {
                        internal.send(Message::Exit(ExitMessage::new(self.from, self.exit)));
                        None
                    } else if self.exit.is_normal() {
                        None
                    } else {
                        Some(self.exit)
                    }
                } else {
                    None
                }
            },
            None => None,
        }
    }
}

// -----------------------------------------------------------------------------
// Unlink
// -----------------------------------------------------------------------------

/// Request to remove the link, first phase of the unlink protocol.
#[derive(Clone, Debug)]
pub struct SignalUnlink {
    /// The sender.
    pub from: LocalPid,
    /// The id of the unlink.
    pub ulid: u64,
}

impl SignalUnlink {
    /// Creates the unlink request `ulid` of `from`.
    pub fn new(from: LocalPid, ulid: u64) -> (r: SignalUnlink)
        ensures
            r.from == from,
            r.ulid == ulid,
    {
        SignalUnlink { from, ulid }
    }

    /// The acknowledgement that process `this` sends back for this request.
    pub open spec fn ack(self, this: LocalPid) -> SignalUnlinkAck {
        SignalUnlinkAck { from: this, ulid: self.ulid }
    }

    /// The step of process `this`: an enabled link to the sender is removed
    /// and the acknowledgement queued for the sender; a disabled link, or
    /// none, leaves the state as it is.
    pub open spec fn outcome<T>(self, this: LocalPid, s: ProcState<T>) -> (ProcState<T>, Option<Exit<T>>) {
        if s.links.dom().contains(self.from@) && s.links[self.from@].spec_enabled() {
            (
                ProcState {
                    links: s.links.remove(self.from@),
                    outbox: s.outbox.push((self.from, Signal::Control(ControlSignal::UnlinkAck(self.ack(this))))),
                    ..s
                },
                None,
            )
        } else {
            (s, None)
        }
    }

    /// Handles this signal in process `this`.
    pub fn recv<T>(self, this: LocalPid, internal: &mut ProcInternal<T>) -> (r: Option<Exit<T>>)
        ensures
            (final(internal).state(), r) == self.outcome(this, old(internal).state()),
            frame(old(internal), final(internal)),
    {
        match internal.links.get(self.from) {
            Some(link) => {
                if link.is_disabled() {
                    return None;
                }
                internal.links.remove(self.from);
                let ack: SignalUnlinkAck = SignalUnlinkAck::new(this, self.ulid);
                internal.outbox.push((self.from, Signal::Control(ControlSignal::UnlinkAck(ack))));
            },
            None => {},
        }
        None
    }
}


// -----------------------------------------------------------------------------
// Unlink acknowledgement
// -----------------------------------------------------------------------------

/// Acknowledgement of an unlink, second phase of the unlink protocol.
#[derive(Clone, Debug)]
pub struct SignalUnlinkAck {
    /// The sender.
    pub from: LocalPid,
    /// The id of the unlink acknowledged.
    pub ulid: u64,
}

impl SignalUnlinkAck {
    /// Creates the acknowledgement by `from` of unlink `ulid`.
    pub fn new(from: LocalPid, ulid: u64) -> (r: SignalUnlinkAck)
        ensures
            r.from == from,
            r.ulid == ulid,
    {
        SignalUnlinkAck { from, ulid }
    }

    /// The step: the link to the sender is removed only if it is disabled
    /// for this very unlink; a stale acknowledgement, or one for a link made
    /// again since, changes nothing.
    pub open spec fn outcome<T>(self, s: ProcState<T>) -> (ProcState<T>, Option<Exit<T>>) {
        if s.links.dom().contains(self.from@) && s.links[self.from@].spec_unlink() == Some(self.ulid) {
            (ProcState { links: s.links.remove(self.from@), ..s }, None)
        } else {
            (s, None)
        }
    }

    /// Handles this signal.
    pub fn recv<T>(self, internal: &mut ProcInternal<T>) -> (r: Option<Exit<T>>)
        ensures
            (final(internal).state(), r) == self.outcome(old(internal).state()),
            frame(old(internal), final(internal)),
    {
        match internal.links.get(self.from) {
            Some(link) => {
                if link.is_disabled() {
                    if link.matches(self.ulid) {
                        internal.links.remove(self.from);
                    }
                }
            },
            None => {},
        }
        None
    }
}

// -----------------------------------------------------------------------------
// Monitor
// -----------------------------------------------------------------------------

/// Request by the sender to monitor the receiver.
#[derive(Clone, Debug)]
pub struct SignalMonitor {
    /// The sender.
    pub from: LocalPid,
    /// The reference of the new monitor.
    pub mref: MonitorRef,
    /// The destination the sender monitors.
    pub dest: LocalDest,
}

impl SignalMonitor {
    /// Creates the request of `from` to monitor `dest` under `mref`.
    pub fn new(from: LocalPid, mref: MonitorRef, dest: LocalDest) -> (r: SignalMonitor)
        ensures
            r.from == from,
            r.mref == mref,
            r.dest == dest,
    {
        SignalMonitor { from, mref, dest }
    }

    /// The step: the monitor is recorded, unless one with this reference
    /// exists already.
    pub open spec fn outcome<T>(self, s: ProcState<T>) -> (ProcState<T>, Option<Exit<T>>) {
        if s.monitor_recv.dom().contains(self.mref@) {
            (s, None)
        } else {
            (
                ProcState {
                    monitor_recv: s.monitor_recv.insert(self.mref@, ProcMonitor::spec_new(self.from, self.dest)),
                    ..s
                },
                None,
            )
        }
    }

    /// Handles this signal.
    pub fn recv<T>(self, internal: &mut ProcInternal<T>) -> (r: Option<Exit<T>>)
        ensures
            (final(internal).state(), r) == self.outcome(old(internal).state()),
            frame(old(internal), final(internal)),
    {
        match internal.monitor_recv.get(self.mref) {
            Some(_) => {},
            None => {
                internal.monitor_recv.insert(self.mref, ProcMonitor::new(self.from, self.dest));
            },
        }
        None
    }
}

// -----------------------------------------------------------------------------
// Monitor down
// -----------------------------------------------------------------------------

/// Notice that a process monitored by the receiver terminated.
#[derive(Clone, Debug)]
pub struct SignalMonitorDown<T> {
    /// The terminated process.
    pub from: LocalPid,
    /// The reference of the monitor.
    pub mref: MonitorRef,
    /// The exit reason.
    pub exit: Exit<T>,
}

impl<T> SignalMonitorDown<T> {
    /// Creates the notice of monitor `mref` that `from` terminated with `exit`.
    pub fn new(from: LocalPid, mref: MonitorRef, exit: Exit<T>) -> (r: SignalMonitorDown<T>)
        ensures
            r.from == from,
            r.mref == mref,
            r.exit == exit,
    {
        SignalMonitorDown { from, mref, exit }
    }

    /// The step: if the receiver holds the monitor, it is removed and a
    /// DOWN message for its target is delivered; otherwise nothing happens.
    pub open spec fn outcome(self, s: ProcState<T>) -> (ProcState<T>, Option<Exit<T>>) {
        if s.monitor_send.dom().contains(self.mref@) {
            let target = s.monitor_send[self.mref@].spec_target();
            (
                deliver(
                    ProcState { monitor_send: s.monitor_send.remove(self.mref@), ..s },
                    Message::Down(DownMessage::spec_new(self.mref, target, self.exit)),
                ),
                None,
            )
        } else {
            (s, None)
        }
    }

    /// Handles this signal.
    pub fn recv(self, internal: &mut ProcInternal<T>) -> (r: Option<Exit<T>>)
        ensures
            (final(internal).state(), r) == self.outcome(old(internal).state()),
            frame(old(internal), final(internal)),
    {
        match internal.monitor_send.remove(self.mref) {
            Some(data) => {
                let dest: LocalDest = data.target();
                internal.send(Message::Down(DownMessage::new(self.mref, dest, self.exit)));
            },
            None => {},
        }
        None
    }
}

// -----------------------------------------------------------------------------
// Demonitor
// -----------------------------------------------------------------------------

/// Request by the sender to remove its monitor on the receiver.
#[derive(Clone, Debug)]
pub struct SignalDemonitor {
    /// The sender.
    pub from: LocalPid,
    /// The reference of the monitor.
    pub mref: MonitorRef,
}

impl SignalDemonitor {
    /// Creates the request of `from` to remove monitor `mref`.
    pub fn new(from: LocalPid, mref: MonitorRef) -> (r: SignalDemonitor)
        ensures
            r.from == from,
            r.mref == mref,
    {
        SignalDemonitor { from, mref }
    }

    /// The step: the monitor is removed, if it exists.
    pub open spec fn outcome<T>(self, s: ProcState<T>) -> (ProcState<T>, Option<Exit<T>>) {
        (ProcState { monitor_recv: s.monitor_recv.remove(self.mref@), ..s }, None)
    }

    /// Handles this signal.
    pub fn recv<T>(self, internal: &mut ProcInternal<T>) -> (r: Option<Exit<T>>)
        ensures
            (final(internal).state(), r) == self.outcome(old(internal).state()),
            frame(old(internal), final(internal)),
    {
        internal.monitor_recv.remove(self.mref);
        None
    }
}

// -----------------------------------------------------------------------------
// Send
// -----------------------------------------------------------------------------

/// A message sent to the receiver.
#[derive(Clone, Debug)]
pub struct SignalSend<T> {
    /// The sender.
    pub from: LocalPid,
    /// The message.
    pub data: T,
}

impl<T> SignalSend<T> {
    /// Creates the message `data` of `from`.
    pub fn new(from: LocalPid, data: T) -> (r: SignalSend<T>)
        ensures
            r.from == from,
            r.data == data,
    {
        SignalSend { from, data }
    }

    /// The step: the message joins the end of the mailbox.
    pub open spec fn outcome(self, s: ProcState<T>) -> (ProcState<T>, Option<Exit<T>>) {
        (deliver(s, Message::Term(self.data)), None)
    }

    /// Handles this signal.
    pub fn recv(self, internal: &mut ProcInternal<T>) -> (r: Option<Exit<T>>)
        ensures
            (final(internal).state(), r) == self.outcome(old(internal).state()),
            frame(old(internal), final(internal)),
    {
        internal.send(Message::Term(self.data));
        None
    }
}

// -----------------------------------------------------------------------------
// Signal kinds
// -----------------------------------------------------------------------------

/// Signals that coordinate processes: termination, links and monitors.
#[derive(Clone, Debug)]
pub enum ControlSignal<T> {
    /// Unconditional exit.
    Exit(SignalExit<T>),
    /// Link request.
    Link(SignalLink),
    /// Exit of a linked process.
    LinkExit(SignalLinkExit<T>),
    /// Unlink request.
    Unlink(SignalUnlink),
    /// Unlink acknowledgement.
    UnlinkAck(SignalUnlinkAck),
    /// Monitor request.
    Monitor(SignalMonitor),
    /// Exit of a monitored process.
    MonitorDown(SignalMonitorDown<T>),
    /// Monitor removal.
    Demonitor(SignalDemonitor),
}

impl<T> ControlSignal<T> {
    /// The step of a process `this` in state `s` that receives this signal.
    pub open spec fn outcome(self, this: LocalPid, s: ProcState<T>) -> (ProcState<T>, Option<Exit<T>>) {
        match self {
            ControlSignal::Exit(signal) => signal.outcome(this, s),
            ControlSignal::Link(signal) => signal.outcome(s),
            ControlSignal::LinkExit(signal) => signal.outcome(s),
            ControlSignal::Unlink(signal) => signal.outcome(this, s),
            ControlSignal::UnlinkAck(signal) => signal.outcome(s),
            ControlSignal::Monitor(signal) => signal.outcome(s),
            ControlSignal::MonitorDown(signal) => signal.outcome(s),
            ControlSignal::Demonitor(signal) => signal.outcome(s),
        }
    }

    /// Handles this signal in process `this`.
    pub fn recv(self, this: LocalPid, internal: &mut ProcInternal<T>) -> (r: Option<Exit<T>>)
        ensures
            (final(internal).state(), r) == self.outcome(this, old(internal).state()),
            frame(old(internal), final(internal)),
    {
        match self {
            ControlSignal::Exit(signal) => signal.recv(this, internal),
            ControlSignal::Link(signal) => signal.recv(internal),
            ControlSignal::LinkExit(signal) => signal.recv(internal),
            ControlSignal::Unlink(signal) => signal.recv(this, internal),
            ControlSignal::UnlinkAck(signal) => signal.recv(internal),
            ControlSignal::Monitor(signal) => signal.recv(internal),
            ControlSignal::MonitorDown(signal) => signal.recv(internal),
            ControlSignal::Demonitor(signal) => signal.recv(internal),
        }
    }
}

/// Signals that carry messages.
#[derive(Clone, Debug)]
pub enum MessageSignal<T> {
    /// A sent message.
    Send(SignalSend<T>),
}

impl<T> MessageSignal<T> {
    /// The step of a process in state `s` that receives this signal.
    pub open spec fn outcome(self, s: ProcState<T>) -> (ProcState<T>, Option<Exit<T>>) {
        match self {
            MessageSignal::Send(signal) => signal.outcome(s),
        }
    }

    /// Handles this signal.
    pub fn recv(self, internal: &mut ProcInternal<T>) -> (r: Option<Exit<T>>)
        ensures
            (final(internal).state(), r) == self.outcome(old(internal).state()),
            frame(old(internal), final(internal)),
    {
        match self {
            MessageSignal::Send(signal) => signal.recv(internal),
        }
    }
}

/// Any signal a process can receive.
#[derive(Clone, Debug)]
pub enum Signal<T> {
    /// A control signal.
    Control(ControlSignal<T>),
    /// A message signal.
    Message(MessageSignal<T>),
}

impl<T> Signal<T> {
    /// The step of a process `this` in state `s` that receives this signal.
    pub open spec fn outcome(self, this: LocalPid, s: ProcState<T>) -> (ProcState<T>, Option<Exit<T>>) {
        match self {
            Signal::Control(signal) => signal.outcome(this, s),
            Signal::Message(signal) => signal.outcome(s),
        }
    }

    /// Handles this signal in process `this`; returns the reason to
    /// terminate with, if the signal terminates the process.
    pub fn recv(self, this: LocalPid, internal: &mut ProcInternal<T>) -> (r: Option<Exit<T>>)
        ensures
            (final(internal).state(), r) == self.outcome(this, old(internal).state()),
            frame(old(internal), final(internal)),
    {
        match self {
            Signal::Control(signal) => signal.recv(this, internal),
            Signal::Message(signal) => signal.recv(internal),
        }
    }
}


// -----------------------------------------------------------------------------
// Laws
// -----------------------------------------------------------------------------

/// An exit signal with reason `kill` terminates the receiver as `killed`,
/// whether or not it traps exits, and changes nothing else.
pub proof fn law_kill_cannot_be_trapped<T>(signal: SignalExit<T>, this: LocalPid, s: ProcState<T>)
    requires
        is_kill_reason(signal.exit),
    ensures
        signal.outcome(this, s) == (s, Some(killed_reason::<T>())),
{
}

/// A process that traps exits receives every exit signal but `kill` as an
/// EXIT message at the end of its mailbox, and does not terminate.
pub proof fn law_trapped_exit_becomes_message<T>(signal: SignalExit<T>, this: LocalPid, s: ProcState<T>)
    requires
        traps_exits(s),
        !is_kill_reason(signal.exit),
    ensures
        signal.outcome(this, s) == (deliver(s, Message::Exit(ExitMessage::spec_new(signal.from, signal.exit))), None::<Exit<T>>),
{
}

/// A process that does not trap exits ignores a normal exit signal from
/// another process, and terminates on one it sent itself.
pub proof fn law_normal_exit<T>(signal: SignalExit<T>, this: LocalPid, s: ProcState<T>)
    requires
        !traps_exits(s),
        is_normal_reason(signal.exit),
    ensures
        signal.from != this ==> signal.outcome(this, s) == (s, None::<Exit<T>>),
        signal.from == this ==> signal.outcome(this, s) == (s, Some(signal.exit)),
{
}

/// A process that does not trap exits terminates with the reason of any
/// exit signal whose reason is neither `kill` nor normal, whoever sent it and
/// whatever the reason's kind: an atom or a term. Nothing else changes.
pub proof fn law_exit_terminates<T>(signal: SignalExit<T>, this: LocalPid, s: ProcState<T>)
    requires
        s.flags & TRAP_EXIT_BIT == 0,
        !(signal.exit matches Exit::Atom(a) && (a@ == 1 || a@ == 3)),
    ensures
        signal.outcome(this, s) == (s, Some(signal.exit)),
{
    assert(TRAP_EXIT_BIT != 0);
}

/// An exit signal whose reason is a term, not an atom, always terminates a
/// process that does not trap exits, with that very term.
pub proof fn law_exit_term_terminates<T>(from: LocalPid, term: T, this: LocalPid, s: ProcState<T>)
    requires
        s.flags & TRAP_EXIT_BIT == 0,
    ensures
        (SignalExit { from, exit: Exit::Term(term) }).outcome(this, s) == (s, Some(Exit::Term(term))),
{
    assert(TRAP_EXIT_BIT != 0);
}

/// A DOWN message names what the monitor watched: when the receiver holds
/// monitor `mref`, the notice that the monitored process terminated with
/// `exit` removes the monitor and puts at the end of the mailbox a DOWN
/// message with `mref`, the destination recorded in the monitor (a PID or
/// a registered name, whichever was monitored) and `exit`; the sender's PID
/// does not replace that destination. Without the monitor nothing happens.
pub proof fn law_down_names_monitored_target<T>(signal: SignalMonitorDown<T>, s: ProcState<T>)
    ensures
        s.monitor_send.dom().contains(signal.mref@) ==> {
            let after = signal.outcome(s);
            &&& after.1 is None
            &&& after.0.inbox == s.inbox.push(
                Message::Down(DownMessage::spec_new(signal.mref, s.monitor_send[signal.mref@].spec_target(), signal.exit)),
            )
            &&& after.0.monitor_send == s.monitor_send.remove(signal.mref@)
            &&& after.0.links == s.links
            &&& after.0.flags == s.flags
        },
        !s.monitor_send.dom().contains(signal.mref@) ==> signal.outcome(s) == (s, None::<Exit<T>>),
{
}

/// An exit signal of a linked process acts only through an enabled link:
/// without one, the receiver ignores it.
pub proof fn law_link_exit_needs_link<T>(signal: SignalLinkExit<T>, s: ProcState<T>)
    requires
        !(s.links.dom().contains(signal.from@) && s.links[signal.from@].spec_enabled()),
    ensures
        signal.outcome(s) == (s, None::<Exit<T>>),
{
}

/// Through an enabled link, a process that does not trap exits terminates
/// with the reason of a linked process that stopped abnormally, and ignores
/// a normal one; a trapping process gets an EXIT message instead.
pub proof fn law_link_exit_propagates<T>(signal: SignalLinkExit<T>, s: ProcState<T>)
    requires
        s.links.dom().contains(signal.from@),
        s.links[signal.from@].spec_enabled(),
    ensures
        traps_exits(s) ==> signal.outcome(s) == (deliver(s, Message::Exit(ExitMessage::spec_new(signal.from, signal.exit))), None::<Exit<T>>),
        !traps_exits(s) && is_normal_reason(signal.exit) ==> signal.outcome(s) == (s, None::<Exit<T>>),
        !traps_exits(s) && !is_normal_reason(signal.exit) ==> signal.outcome(s) == (s, Some(signal.exit)),
{
}

/// There is at most one link between two processes: a second link request
/// from the same process changes nothing.
pub proof fn law_link_idempotent<T>(signal: SignalLink, s: ProcState<T>)
    ensures
        signal.outcome(signal.outcome(s).0).0 == signal.outcome(s).0,
{
}

/// Linking and then unlinking the same process, with no link before,
/// gives back the state before, but for the acknowledgement queued for the
/// process that asked to unlink.
pub proof fn law_link_then_unlink<T>(link: SignalLink, unlink: SignalUnlink, this: LocalPid, s: ProcState<T>)
    requires
        link.from == unlink.from,
        !s.links.dom().contains(link.from@),
    ensures
        unlink.outcome(this, link.outcome(s).0).0 == (ProcState {
            outbox: s.outbox.push((unlink.from, Signal::Control(ControlSignal::UnlinkAck(unlink.ack(this))))),
            ..s
        }),
{
    let s1 = link.outcome(s).0;
    ProcLink::lemma_new_enabled();
    assert(s1.links[link.from@] == ProcLink::spec_new());
    assert(unlink.outcome(this, s1).0.links =~= s.links);
}

/// The two phases of the unlink protocol remove the link on both sides:
/// the receiver of an unlink request that holds an enabled link drops it and
/// queues an acknowledgement, and that acknowledgement drops the sender's
/// link, disabled for this very unlink.
pub proof fn law_unlink_protocol<T>(unlink: SignalUnlink, b: LocalPid, b_state: ProcState<T>, a_state: ProcState<T>)
    requires
        b_state.links.dom().contains(unlink.from@),
        b_state.links[unlink.from@].spec_enabled(),
        a_state.links.dom().contains(b@),
        a_state.links[b@].spec_unlink() == Some(unlink.ulid),
    ensures
        !unlink.outcome(b, b_state).0.links.dom().contains(unlink.from@),
        unlink.outcome(b, b_state).0.outbox.last() == (unlink.from, Signal::<T>::Control(ControlSignal::UnlinkAck(unlink.ack(b)))),
        !unlink.ack(b).outcome(a_state).0.links.dom().contains(b@),
{
}

/// A DOWN message is delivered at most once per monitor: the monitor goes
/// with its first notice, and a second notice for it changes nothing.
pub proof fn law_down_delivered_once<T>(signal: SignalMonitorDown<T>, s: ProcState<T>)
    ensures
        signal.outcome(signal.outcome(s).0) == (signal.outcome(s).0, None::<Exit<T>>),
{
}

/// A monitor request followed by its removal, for a reference not in use
/// before, gives back the state before.
pub proof fn law_monitor_then_demonitor<T>(monitor: SignalMonitor, demonitor: SignalDemonitor, s: ProcState<T>)
    requires
        monitor.mref == demonitor.mref,
        !s.monitor_recv.dom().contains(monitor.mref@),
    ensures
        demonitor.outcome(monitor.outcome(s).0).0 == s,
{
    assert(demonitor.outcome(monitor.outcome(s).0).0.monitor_recv =~= s.monitor_recv);
}

/// Only exit signals (unconditional, or from a linked process) terminate a
/// process.
pub proof fn law_only_exits_terminate<T>(signal: Signal<T>, this: LocalPid, s: ProcState<T>)
    requires
        !(signal matches Signal::Control(ControlSignal::Exit(_))),
        !(signal matches Signal::Control(ControlSignal::LinkExit(_))),
    ensures
        signal.outcome(this, s).1 is None,
{
}

/// No signal drops or reorders the messages already in the mailbox: the
/// mailbox before is a prefix of the mailbox after, and grows by at most one.
pub proof fn law_mailbox_keeps_messages<T>(signal: Signal<T>, this: LocalPid, s: ProcState<T>)
    ensures
        signal.outcome(this, s).0.inbox.len() <= s.inbox.len() + 1,
        signal.outcome(this, s).0.inbox.subrange(0, s.inbox.len() as int) == s.inbox,
        signal.outcome(this, s).0.flags == s.flags,
{
    let after = signal.outcome(this, s).0;
    assert(after.inbox.subrange(0, s.inbox.len() as int) =~= s.inbox);
}

} // verus!
