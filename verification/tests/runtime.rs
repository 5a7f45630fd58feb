use errai::erts::message::Message;
use errai::erts::signal::MessageSignal;
use errai::erts::queue::Disconnected;
use errai::erts::queue::SignalQueue;
use errai::erts::runtime::RuntimeConfig;
use errai::erts::runtime::TracingLevel;
use errai::erts::spawn::SpawnConfig;
use errai::erts::state::ProcExternal;
use errai::types::Exit;

#[test]
fn runtime_config_defaults() {
    let mut config = RuntimeConfig::new(8);
    assert_eq!(config.rt_worker_threads, 8);
    assert_eq!(config.rt_event_interval, 61);
    assert_eq!(config.rt_shutdown_timeout, std::time::Duration::from_secs(10));
    assert_eq!(config.rt_thread_keep_alive, std::time::Duration::from_secs(10));
    assert_eq!(config.tracing_filter(), TracingLevel::Debug);
    config.tracing_very_verbose = true;
    assert_eq!(config.tracing_filter(), TracingLevel::Trace);
    config.tracing_very_verbose = false;
    config.tracing_verbose = false;
    assert_eq!(config.tracing_filter(), TracingLevel::Info);
}

#[test]
fn spawn_config_variants() {
    let base = SpawnConfig::new();
    assert!(!base.link && !base.monitor && !base.trap_exit && !base.async_dist);
    assert!(SpawnConfig::new_link().link);
    assert!(SpawnConfig::new_monitor().monitor);
    assert_eq!(SpawnConfig::default(), base);
}

#[test]
fn signal_queue_selective_receive() {
    let mut queue: SignalQueue<u32> = SignalQueue::new();
    queue.stash(Message::Term(1));
    queue.stash(Message::Term(2));
    queue.stash(Message::Term(3));
    let taken = queue.poll_internal(|m| matches!(m, Message::Term(n) if *n >= 2));
    assert!(matches!(taken, Some(Message::Term(2))));
    let taken = queue.poll_internal(|m| matches!(m, Message::Term(9)));
    assert!(taken.is_none());
    assert!(matches!(queue.poll_internal(|_| true), Some(Message::Term(1))));
    assert!(matches!(queue.poll_internal(|_| true), Some(Message::Term(3))));
    assert_eq!(Disconnected.to_string(), "receiving on a closed channel");
}

#[test]
fn exit_reason_set_once() {
    let mut external: ProcExternal<u32> = ProcExternal::new(errai::types::InternalPid::from_bits(3), None);
    assert!(external.exit().is_none());
    assert!(external.set_exit(Exit::normal()).is_ok());
    assert_eq!(external.set_exit(Exit::Term(3)), Err(Exit::Term(3)));
    assert!(external.exit().unwrap().is_normal());
}

#[test]
fn signal_queue_capture() {
    let queue: SignalQueue<u32> = SignalQueue::new();
    let pid = errai::types::LocalPid::from_bits(19);
    let sent = errai::erts::signal::Signal::Message(MessageSignal::Send(errai::erts::signal::SignalSend::new(pid, 5u32)));
    assert!(matches!(queue.capture(sent), Some(Message::Term(5))));
    let link = errai::erts::signal::Signal::Control(errai::erts::signal::ControlSignal::Link(errai::erts::signal::SignalLink::new(pid)));
    assert!(queue.capture(link).is_none());
}
