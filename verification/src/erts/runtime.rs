//! Configuration of the runtime.
use vstd::prelude::*;
use core::time::Duration;

verus! {

/// Ticks between polls of external events.
pub const DEFAULT_EVENT_INTERVAL: u32 = 61;

/// Ticks between polls of the global task queue.
pub const DEFAULT_GLOBAL_QUEUE_INTERVAL: u32 = 31;

/// Most threads kept for blocking work.
pub const DEFAULT_MAX_BLOCKING_THREADS: usize = 512;

/// Most I/O events handled per tick.
pub const DEFAULT_MAX_IO_EVENTS_PER_TICK: usize = 1024;

/// Seconds an idle blocking thread is kept.
pub const DEFAULT_THREAD_KEEP_ALIVE_SECS: u64 = 10;

/// Stack size of a worker thread, in bytes.
pub const DEFAULT_THREAD_STACK_SIZE: usize = 2097152;

/// Seconds a shutdown waits for running tasks.
pub const SHUTDOWN_TIMEOUT_RUNTIME_SECS: u64 = 10;

/// The span of `secs` whole seconds, as `Duration::from_secs` makes it.
pub uninterp spec fn duration_of_secs(secs: u64) -> Duration;

/// `Duration::from_secs` makes the span of the given whole seconds; the
/// contract names that span as a function of `secs` alone.
pub assume_specification[core::time::Duration::from_secs](secs: u64) -> (r: Duration)
    ensures
        r == duration_of_secs(secs),
;

/// How much the runtime's tracing reports.
#[derive(Clone, Copy, Debug, PartialEq, Eq, Structural)]
pub enum TracingLevel {
    /// Everything, signal handling included.
    Trace,
    /// Debugging detail.
    Debug,
    /// Information only.
    Info,
}

/// Configuration of the runtime: the task scheduler and the tracing output.
pub struct RuntimeConfig {
    /// Ticks between polls of external events.
    pub rt_event_interval: u32,
    /// Ticks between polls of the global task queue.
    pub rt_global_queue_interval: u32,
    /// Most threads kept for blocking work.
    pub rt_max_blocking_threads: usize,
    /// Most I/O events handled per tick.
    pub rt_max_io_events_per_tick: usize,
    /// How long a shutdown waits for running tasks.
    pub rt_shutdown_timeout: Duration,
    /// How long an idle blocking thread is kept.
    pub rt_thread_keep_alive: Duration,
    /// Stack size of a worker thread, in bytes.
    pub rt_thread_stack_size: usize,
    /// Number of worker threads.
    pub rt_worker_threads: usize,
    /// Report the source file of each event.
    pub tracing_source_file: bool,
    /// Report the source line of each event.
    pub tracing_source_line: bool,
    /// Report the target of each event.
    pub tracing_source_name: bool,
    /// Report the thread of each event.
    pub tracing_thread_info: bool,
    /// Report debugging detail.
    pub tracing_verbose: bool,
    /// Report everything.
    pub tracing_very_verbose: bool,
}

impl RuntimeConfig {
    /// The default configuration, with `worker_threads` worker threads (the
    /// number of CPUs the machine makes available).
    pub fn new(worker_threads: usize) -> (r: RuntimeConfig)
        requires
            worker_threads >= 1,
        ensures
            r.rt_event_interval == DEFAULT_EVENT_INTERVAL,
            r.rt_global_queue_interval == DEFAULT_GLOBAL_QUEUE_INTERVAL,
            r.rt_max_blocking_threads == DEFAULT_MAX_BLOCKING_THREADS,
            r.rt_max_io_events_per_tick == DEFAULT_MAX_IO_EVENTS_PER_TICK,
            r.rt_thread_stack_size == DEFAULT_THREAD_STACK_SIZE,
            r.rt_shutdown_timeout == duration_of_secs(SHUTDOWN_TIMEOUT_RUNTIME_SECS),
            r.rt_thread_keep_alive == duration_of_secs(DEFAULT_THREAD_KEEP_ALIVE_SECS),
            r.rt_worker_threads == worker_threads,
            !r.tracing_source_file,
            !r.tracing_source_line,
            !r.tracing_source_name,
            r.tracing_thread_info,
            r.tracing_verbose,
            !r.tracing_very_verbose,
    {
        RuntimeConfig {
            rt_event_interval: DEFAULT_EVENT_INTERVAL,
            rt_global_queue_interval: DEFAULT_GLOBAL_QUEUE_INTERVAL,
            rt_max_blocking_threads: DEFAULT_MAX_BLOCKING_THREADS,
            rt_max_io_events_per_tick: DEFAULT_MAX_IO_EVENTS_PER_TICK,
            rt_shutdown_timeout: Duration::from_secs(SHUTDOWN_TIMEOUT_RUNTIME_SECS),
            rt_thread_keep_alive: Duration::from_secs(DEFAULT_THREAD_KEEP_ALIVE_SECS),
            rt_thread_stack_size: DEFAULT_THREAD_STACK_SIZE,
            rt_worker_threads: worker_threads,
            tracing_source_file: false,
            tracing_source_line: false,
            tracing_source_name: false,
            tracing_thread_info: true,
            tracing_verbose: true,
            tracing_very_verbose: false,
        }
    }

    /// The level of tracing output: everything when very verbose, debugging
    /// detail when verbose, else information only.
    pub fn tracing_filter(&self) -> (r: TracingLevel)
        ensures
            r == (if self.tracing_very_verbose {
                TracingLevel::Trace
            } else if self.tracing_verbose {
                TracingLevel::Debug
            } else {
                TracingLevel::Info
            }),
    {
        if self.tracing_very_verbose {
            TracingLevel::Trace
        } else if self.tracing_verbose {
            TracingLevel::Debug
        } else {
            TracingLevel::Info
        }
    }
}

} // verus!
