//! Messages a process finds in its mailbox.
use vstd::prelude::*;
use vstd::std_specs::convert::FromSpecImpl;

use crate::types::dest::LocalDest;
use crate::types::exit::Exit;
use crate::types::pids::LocalPid;
use crate::types::refs::MonitorRef;

verus! {

/// An EXIT message: the exit signal of a process, trapped by the receiver.
///
/// EXIT messages reach a mailbox only when the receiving process traps
/// exits; otherwise the signal terminates it.
#[derive(Clone, Debug)]
pub struct ExitMessage<T> {
    from: LocalPid,
    exit: Exit<T>,
}

impl<T> ExitMessage<T> {
    /// The process the exit signal came from.
    pub closed spec fn spec_from(&self) -> LocalPid {
        self.from
    }

    /// The exit reason the signal carried.
    pub closed spec fn spec_exit(&self) -> Exit<T> {
        self.exit
    }

    /// The EXIT message of a signal from `from` with reason `exit`.
    pub closed spec fn spec_new(from: LocalPid, exit: Exit<T>) -> ExitMessage<T> {
        ExitMessage { from, exit }
    }

    /// Creates the EXIT message of a signal from `from` with reason `exit`.
    pub fn new(from: LocalPid, exit: Exit<T>) -> (r: ExitMessage<T>)
        ensures
            r == ExitMessage::spec_new(from, exit),
            r.spec_from() == from,
            r.spec_exit() == exit,
    {
        ExitMessage { from, exit }
    }

    /// Returns the process the exit signal came from.
    pub fn from(&self) -> (r: LocalPid)
        ensures
            r == self.spec_from(),
    {
        self.from
    }

    /// Returns the exit reason.
    pub fn exit(&self) -> (r: &Exit<T>)
        ensures
            *r == self.spec_exit(),
    {
        &self.exit
    }
}

/// A DOWN message: a monitored process has terminated.
#[derive(Clone, Debug)]
pub struct DownMessage<T> {
    mref: MonitorRef,
    dest: LocalDest,
    exit: Exit<T>,
}

impl<T> DownMessage<T> {
    /// The reference of the monitor that fired.
    pub closed spec fn spec_mref(&self) -> MonitorRef {
        self.mref
    }

    /// The destination that was monitored.
    pub closed spec fn spec_dest(&self) -> LocalDest {
        self.dest
    }

    /// The exit reason of the monitored process.
    pub closed spec fn spec_exit(&self) -> Exit<T> {
        self.exit
    }

    /// The DOWN message of monitor `mref` on `dest`, with reason `exit`.
    pub closed spec fn spec_new(mref: MonitorRef, dest: LocalDest, exit: Exit<T>) -> DownMessage<T> {
        DownMessage { mref, dest, exit }
    }

    /// Creates the DOWN message of monitor `mref` on `dest`, with reason `exit`.
    pub fn new(mref: MonitorRef, dest: LocalDest, exit: Exit<T>) -> (r: DownMessage<T>)
        ensures
            r == DownMessage::spec_new(mref, dest, exit),
            r.spec_mref() == mref,
            r.spec_dest() == dest,
            r.spec_exit() == exit,
    {
        DownMessage { mref, dest, exit }
    }

    /// Returns the monitor reference, as the monitor call returned it.
    pub fn mref(&self) -> (r: &MonitorRef)
        ensures
            *r == self.spec_mref(),
    {
        &self.mref
    }

    /// Returns the monitored destination: the process or the registered name.
    pub fn dest(&self) -> (r: &LocalDest)
        ensures
            *r == self.spec_dest(),
    {
        &self.dest
    }

    /// Returns the exit reason of the monitored process.
    pub fn exit(&self) -> (r: &Exit<T>)
        ensures
            *r == self.spec_exit(),
    {
        &self.exit
    }
}

/// A message in a mailbox: a value sent by a process, or a system message.
#[derive(Clone, Debug)]
pub enum Message<T> {
    /// A value sent with `send`.
    Term(T),
    /// A trapped exit signal.
    Exit(ExitMessage<T>),
    /// A monitor notification.
    Down(DownMessage<T>),
}

impl<T> Message<T> {
    /// Returns `true` if this is a sent value.
    pub fn is_term(&self) -> (r: bool)
        ensures
            r == (*self is Term),
    {
        matches!(self, Message::Term(_))
    }

    /// Returns `true` if this is an EXIT message.
    pub fn is_exit(&self) -> (r: bool)
        ensures
            r == (*self is Exit),
    {
        matches!(self, Message::Exit(_))
    }

    /// Returns `true` if this is a DOWN message.
    pub fn is_down(&self) -> (r: bool)
        ensures
            r == (*self is Down),
    {
        matches!(self, Message::Down(_))
    }
}

impl<T> From<ExitMessage<T>> for Message<T> {
    fn from(other: ExitMessage<T>) -> (r: Message<T>) {
        Message::Exit(other)
    }
}

impl<T> FromSpecImpl<ExitMessage<T>> for Message<T> {
    open spec fn obeys_from_spec() -> bool {
        true
    }

    open spec fn from_spec(v: ExitMessage<T>) -> Message<T> {
        Message::Exit(v)
    }
}

impl<T> From<DownMessage<T>> for Message<T> {
    fn from(other: DownMessage<T>) -> (r: Message<T>) {
        Message::Down(other)
    }
}

impl<T> FromSpecImpl<DownMessage<T>> for Message<T> {
    open spec fn obeys_from_spec() -> bool {
        true
    }

    open spec fn from_spec(v: DownMessage<T>) -> Message<T> {
        Message::Down(v)
    }
}

} // verus!
