use errai::types::Atom;
use errai::types::AtomTable;
use errai::types::ExternalDest;
use errai::types::ExternalPid;
use errai::types::InternalDest;
use errai::types::InternalPid;
use errai::types::LocalDest;
use errai::types::LocalPid;
use errai::types::LocalRef;

fn table() -> AtomTable {
    AtomTable::with_well_known()
}

// ---------------------------------------------------------------------------
// External destinations
// ---------------------------------------------------------------------------

#[test]
fn external_test_clone() {
    let mut table = table();
    let src = ExternalDest::from(Atom::new(&mut table, "test"));
    let dst = src.clone();
    if let (ExternalDest::InternalName(atom1), ExternalDest::InternalName(atom2)) = (src, dst) {
        assert_eq!(atom1, atom2);
    } else {
        panic!("Both should be InternalName variant");
    }
}

#[test]
fn external_test_copy() {
    let mut table = table();
    let src = ExternalDest::from(Atom::new(&mut table, "test"));
    let dst = src;
    if let (ExternalDest::InternalName(atom1), ExternalDest::InternalName(atom2)) = (src, dst) {
        assert_eq!(atom1, atom2);
    } else {
        panic!("Both should be InternalName variant");
    }
}

#[test]
fn external_test_display_proc() {
    let table = table();
    let src = ExternalDest::from(InternalPid::from_bits(123));
    let fmt: String = src.to_string(&table, None);
    assert!(fmt.starts_with("#PID<"));
    assert!(fmt.ends_with(">"));
}

#[test]
fn external_test_display_name() {
    let mut table = table();
    let src = ExternalDest::from(Atom::new(&mut table, "logger"));
    assert_eq!(src.to_string(&table, None), "logger");
}

#[test]
fn external_dest_kinds() {
    let mut table = table();
    let node = Atom::new(&mut table, "node@host");
    let name = Atom::new(&mut table, "logger");
    let local = ExternalDest::from(InternalPid::from_bits(1));
    let remote = ExternalDest::from(ExternalPid::new(InternalPid::from_bits(1), node));
    let local_name = ExternalDest::from(name);
    let remote_name = ExternalDest::from((name, node));
    assert!(local.is_proc() && local.is_internal_proc() && !local.is_external_proc());
    assert!(remote.is_proc() && remote.is_external_proc() && !remote.is_internal_proc());
    assert!(local_name.is_name() && local_name.is_internal_name() && !local_name.is_external_name());
    assert!(remote_name.is_name() && remote_name.is_external_name() && !remote_name.is_internal_name());
    assert!(!local.is_name() && !remote_name.is_proc());
    assert_eq!(remote_name.to_string(&table, None), "logger");
    assert_eq!(ExternalDest::from(InternalDest::from(name)), local_name);
}

// ---------------------------------------------------------------------------
// Internal destinations
// ---------------------------------------------------------------------------

#[test]
fn internal_test_from_pid() {
    let data = InternalPid::from_bits(0x123);
    let dest = InternalDest::from(data);
    assert!(matches!(dest, InternalDest::Proc(inner) if inner == data), "Should be Proc variant");
}

#[test]
fn internal_test_from_atom() {
    let mut table = table();
    let data = Atom::new(&mut table, "logger");
    let dest = InternalDest::from(data);
    assert!(matches!(dest, InternalDest::Name(inner) if inner == data), "Should be Name variant");
}

#[test]
fn internal_test_is_proc() {
    let mut table = table();
    let proc = InternalDest::from(InternalPid::from_bits(1));
    let name = InternalDest::from(Atom::new(&mut table, "test"));
    assert!(proc.is_proc());
    assert!(!name.is_proc());
}

#[test]
fn internal_test_is_name() {
    let mut table = table();
    let proc = InternalDest::from(InternalPid::from_bits(1));
    let name = InternalDest::from(Atom::new(&mut table, "test"));
    assert!(!proc.is_name());
    assert!(name.is_name());
}

#[test]
fn internal_test_clone() {
    let mut table = table();
    let src = InternalDest::from(Atom::new(&mut table, "test"));
    let dst = src.clone();
    if let (InternalDest::Name(atom1), InternalDest::Name(atom2)) = (src, dst) {
        assert_eq!(atom1, atom2);
    } else {
        panic!("Both should be Name variant");
    }
    let src: InternalPid = InternalPid::from_bits(123);
    let dst: InternalPid = src.clone();
    assert_eq!(src, dst);
}

#[test]
fn internal_test_copy() {
    let mut table = table();
    let src = InternalDest::from(Atom::new(&mut table, "test"));
    let dst = src;
    if let (InternalDest::Name(atom1), InternalDest::Name(atom2)) = (src, dst) {
        assert_eq!(atom1, atom2);
    } else {
        panic!("Both should be Name variant");
    }
    let src: InternalPid = InternalPid::from_bits(123);
    let dst: InternalPid = src;
    assert_eq!(src, dst);
}

#[test]
fn internal_test_display_proc() {
    let table = table();
    let src = InternalDest::from(InternalPid::from_bits(123));
    let fmt: String = src.to_string(&table, None);
    assert!(fmt.starts_with("#PID<"));
    assert!(fmt.ends_with(">"));
}

#[test]
fn internal_test_display_name() {
    let mut table = table();
    let src = InternalDest::from(Atom::new(&mut table, "logger"));
    assert_eq!(src.to_string(&table, None), "logger");
}

#[test]
fn internal_test_equality() {
    let a = InternalDest::from(InternalPid::from_bits(100));
    let b = InternalDest::from(InternalPid::from_bits(100));
    let c = InternalDest::from(InternalPid::from_bits(200));
    assert_eq!(a, b);
    assert_ne!(a, c);
    let a: InternalPid = InternalPid::from_bits(100);
    let b: InternalPid = InternalPid::from_bits(100);
    let c: InternalPid = InternalPid::from_bits(200);
    assert_eq!(a, b);
    assert_ne!(a, c);
}

#[test]
fn internal_test_ordering() {
    let a = InternalDest::from(InternalPid::from_bits(100));
    let b = InternalDest::from(InternalPid::from_bits(200));
    assert!(a < b);
    let a: InternalPid = InternalPid::from_bits(100);
    let b: InternalPid = InternalPid::from_bits(200);
    let c: InternalPid = InternalPid::from_bits(300);
    assert!(a < b);
    assert!(b < c);
    assert!(a < c);
}

#[test]
fn internal_dest_display_with_translation() {
    let table = table();
    let src = InternalDest::from(InternalPid::from_bits(123));
    assert_eq!(src.to_string(&table, Some((7, 2))), "#PID<0.7.2>");
}

// ---------------------------------------------------------------------------
// Local destinations
// ---------------------------------------------------------------------------

#[test]
fn local_test_is_proc() {
    let mut table = table();
    let name = LocalDest::Name(Atom::new(&mut table, "test"));
    let proc = LocalDest::Proc(LocalPid::root_proc());
    assert!(proc.is_proc());
    assert!(!name.is_proc());
}

#[test]
fn local_test_is_name() {
    let mut table = table();
    let name = LocalDest::Name(Atom::new(&mut table, "test"));
    let proc = LocalDest::Proc(LocalPid::root_proc());
    assert!(name.is_name());
    assert!(!proc.is_name());
}

#[test]
fn local_test_clone() {
    let src = LocalDest::Proc(LocalPid::root_proc());
    let dst = src.clone();
    assert_eq!(src, dst);
    let bits: usize = LocalPid::from_detached(ptab::Detached::from_bits(123 * ptab::config::CACHE_LINE_SLOTS)).into_bits();
    let src: LocalPid = LocalPid::from_bits(bits);
    let dst: LocalPid = src.clone();
    assert_eq!(src, dst);
    let src: LocalRef = LocalRef::from_bits([1, 2, 3]);
    let dst: LocalRef = src.clone();
    assert_eq!(src, dst);
}

#[test]
fn local_test_copy() {
    let src = LocalDest::Proc(LocalPid::root_proc());
    let dst = src;
    assert_eq!(src, dst);
    let bits: usize = LocalPid::from_detached(ptab::Detached::from_bits(123 * ptab::config::CACHE_LINE_SLOTS)).into_bits();
    let src: LocalPid = LocalPid::from_bits(bits);
    let dst: LocalPid = src;
    assert_eq!(src, dst);
    let src: LocalRef = LocalRef::from_bits([1, 2, 3]);
    let dst: LocalRef = src;
    assert_eq!(src, dst);
}

#[test]
fn test_display_transparent() {
    let table = table();
    let src = LocalPid::root_proc();
    let dst = LocalDest::Proc(src);
    assert_eq!(dst.to_string(&table), src.to_string());
}

#[test]
fn local_test_from_pid() {
    let src = LocalPid::root_proc();
    let dst = LocalDest::from(src);
    assert_eq!(dst, LocalDest::Proc(src));
}

#[test]
fn local_test_from_atom() {
    let mut table = table();
    let src = Atom::new(&mut table, "test");
    let dst = LocalDest::from(src);
    assert_eq!(dst, LocalDest::Name(src));
}

#[test]
fn test_from_static_str() {
    let mut table = table();
    let dst = LocalDest::from(Atom::new(&mut table, "test"));
    assert_eq!(dst, LocalDest::Name(Atom::new(&mut table, "test")));
}
