//! Options of a spawn, and what a spawn hands back.
use vstd::prelude::*;

use crate::types::pids::InternalPid;
use crate::types::refs::MonitorRef;

verus! {

/// Options of a spawn.
#[derive(Clone, Copy, Debug, Hash, PartialEq, Eq, Structural)]
pub struct SpawnConfig {
    /// Link the new process to its parent.
    pub link: bool,
    /// Make the parent monitor the new process.
    pub monitor: bool,
    /// Start the new process with asynchronous distributed sends.
    pub async_dist: bool,
    /// Start the new process trapping exits.
    pub trap_exit: bool,
}

impl SpawnConfig {
    /// Options with every choice off.
    pub fn new() -> (r: SpawnConfig)
        ensures
            r == (SpawnConfig { link: false, monitor: false, async_dist: false, trap_exit: false }),
    {
        SpawnConfig { link: false, monitor: false, async_dist: false, trap_exit: false }
    }

    /// Options that link the new process to its parent.
    pub fn new_link() -> (r: SpawnConfig)
        ensures
            r == (SpawnConfig { link: true, monitor: false, async_dist: false, trap_exit: false }),
    {
        let mut this: SpawnConfig = SpawnConfig::new();
        this.link = true;
        this
    }

    /// Options that make the parent monitor the new process.
    pub fn new_monitor() -> (r: SpawnConfig)
        ensures
            r == (SpawnConfig { link: false, monitor: true, async_dist: false, trap_exit: false }),
    {
        let mut this: SpawnConfig = SpawnConfig::new();
        this.monitor = true;
        this
    }
}

impl Default for SpawnConfig {
    fn default() -> (r: SpawnConfig)
        ensures
            r == (SpawnConfig { link: false, monitor: false, async_dist: false, trap_exit: false }),
    {
        SpawnConfig::new()
    }
}

/// What a spawn hands back: the new process, and the monitor on it when
/// the options asked for one.
#[derive(Clone, Copy, Debug, Hash, PartialEq, Eq, PartialOrd, Ord, Structural)]
pub enum SpawnHandle {
    /// The new process.
    Process(InternalPid),
    /// The new process and the parent's monitor on it.
    Monitor(InternalPid, MonitorRef),
}

impl SpawnHandle {
    /// The handle a spawn with `options` hands back for process `pid`, whose
    /// monitor, if any, has reference `mref`.
    pub open spec fn spec_for(options: SpawnConfig, pid: InternalPid, mref: MonitorRef) -> SpawnHandle {
        if options.monitor {
            SpawnHandle::Monitor(pid, mref)
        } else {
            SpawnHandle::Process(pid)
        }
    }

    /// Makes the handle a spawn with `options` hands back for process `pid`;
    /// `mref` is the reference of the parent's monitor, used when the
    /// options ask for one.
    pub fn for_spawn(options: SpawnConfig, pid: InternalPid, mref: MonitorRef) -> (r: SpawnHandle)
        ensures
            r == SpawnHandle::spec_for(options, pid, mref),
    {
        if options.monitor {
            SpawnHandle::Monitor(pid, mref)
        } else {
            SpawnHandle::Process(pid)
        }
    }

    /// Returns `true` if the handle names only the new process.
    pub fn is_process(&self) -> (r: bool)
        ensures
            r == (*self is Process),
    {
        matches!(self, SpawnHandle::Process(_))
    }

    /// Returns `true` if the handle also holds a monitor.
    pub fn is_monitor(&self) -> (r: bool)
        ensures
            r == (*self is Monitor),
    {
        matches!(self, SpawnHandle::Monitor(_, _))
    }
}

} // verus!
