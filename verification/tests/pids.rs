use errai::types::pids::pid_text;
use errai::types::Atom;
use errai::types::AtomTable;
use errai::types::ExternalPid;
use errai::types::InternalPid;
use errai::types::LocalPid;
use errai::types::LocalRef;
use errai::types::ProcessId;

#[test]
fn test_undefined() {
    assert_eq!(InternalPid::undefined().into_bits(), u64::MAX);
}

#[test]
fn test_from_bits_roundtrip() {
    let src: u64 = 0x1234_5678_9ABC_DEF0;
    let pid = InternalPid::from_bits(src);
    assert_eq!(pid.into_bits(), src);
}

#[test]
fn internal_test_display() {
    let src = InternalPid::from_bits(123);
    assert_eq!(src.to_string(None), "#PID<0.x.x>");
}

#[test]
fn internal_pid_display_with_parts() {
    let src = InternalPid::from_bits(123);
    assert_eq!(src.to_string(Some((123, 0))), "#PID<0.123.0>");
    assert_eq!(pid_text(4294967295, 10), "#PID<0.4294967295.10>");
}

fn local_bits() -> usize {
    LocalPid::from_detached(ptab::Detached::from_bits(123 * ptab::config::CACHE_LINE_SLOTS)).into_bits()
}

const REF_BITS: [u32; 3] = [1, 2, 3];

#[test]
fn local_test_from_into_bits() {
    let bits: usize = local_bits();
    assert_eq!(bits, LocalPid::from_bits(bits).into_bits());
    assert_eq!(REF_BITS, LocalRef::from_bits(REF_BITS).into_bits());
}

#[test]
fn local_test_display() {
    let index = ptab::Detached::from_bits(123 * ptab::config::CACHE_LINE_SLOTS);
    let src = LocalPid::from_detached(index);
    assert_eq!(src.to_string(), "#PID<0.123.0>");
    let src = LocalRef::from_bits(REF_BITS);
    assert_eq!(src.to_string(), "#Ref<0.3.2.1>");
}

#[test]
fn local_pid_detached_roundtrip() {
    let index = ptab::Detached::from_bits(77);
    let pid = LocalPid::from_detached(index);
    assert_eq!(pid.into_bits(), (77 << 4) | 3);
    assert_eq!(pid.into_detached().into_bits(), 77);
    assert_eq!(LocalPid::root_proc().into_bits(), 3);
}

#[test]
fn external_pid_parts() {
    let mut table = AtomTable::with_well_known();
    let node = Atom::new(&mut table, "node@host");
    let pid = ExternalPid::new(InternalPid::from_bits(9), node);
    assert_eq!(pid.bits(), InternalPid::from_bits(9));
    assert_eq!(pid.node(), node);
    assert_eq!(ExternalPid::from_pair((InternalPid::from_bits(9), node)), pid);
    assert_eq!(pid.into_internal(), InternalPid::from_bits(9));
    assert_eq!(pid.into_external(), Some(pid));
    assert!(ExternalPid::distributed());
    assert!(!InternalPid::distributed());
    assert_eq!(InternalPid::from_bits(9).into_external(), None);
}

#[test]
fn process_id_locality() {
    let mut table = AtomTable::with_well_known();
    let node = Atom::new(&mut table, "node@host");
    let local = InternalPid::from_bits(3);
    let remote = ExternalPid::new(local, node);
    assert!(local.is_internal() && !local.is_external());
    assert!(remote.is_external() && !remote.is_internal());
}
