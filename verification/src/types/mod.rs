//! Core value types of the runtime.
pub mod atom;
pub mod dest;
pub mod exit;
pub mod pids;
pub mod refs;
pub mod text;

pub use self::atom::Atom;
pub use self::atom::AtomTable;
pub use self::atom::AtomTableError;
pub use self::pids::ExternalPid;
pub use self::pids::InternalPid;
pub use self::pids::LocalPid;
pub use self::pids::ProcessId;
pub use self::dest::ExternalDest;
pub use self::dest::InternalDest;
pub use self::dest::LocalDest;
pub use self::exit::Exit;
pub use self::refs::AliasRef;
pub use self::refs::ExternalRef;
pub use self::refs::InternalRef;
pub use self::refs::LocalRef;
pub use self::refs::MonitorRef;
pub use self::refs::TimerRef;
