use errai::types::refs::init_thread_ref;
use errai::types::Atom;
use errai::types::AtomTable;
use errai::types::ExternalRef;
use errai::types::InternalRef;
use errai::types::LocalRef;
use errai::types::MonitorRef;

const BITS: [u32; 3] = [1, 2, 3];

#[test]
fn local_test_new() {
    let ref1 = LocalRef::new_from(1, 100);
    let ref2 = LocalRef::new_from(1, 101);
    assert_ne!(ref1, ref2);
}

#[test]
fn test_extract_thread_and_number() {
    let thread: u32 = 123;
    let number: u64 = 456;
    let packed: [u32; 3] = LocalRef::pack_bits(thread, number);
    let target = LocalRef::from_bits(packed);
    assert_eq!(target.thread(), thread);
    assert_eq!(target.number(), number);
}

#[test]
fn ref_pack_roundtrip_large_number() {
    let number: u64 = 0xFEDC_BA98_7654_3210;
    let target = LocalRef::new_from(0x3FFFF, number);
    assert_eq!(target.number(), number);
    assert_eq!(target.thread(), 0x3FFFF);
    let target = LocalRef::new_from(0xFFFF_FFFF, 5);
    assert_eq!(target.thread(), 0x3FFFF);
}

#[test]
fn monitor_ref_display() {
    let src = LocalRef::from_bits(BITS);
    assert_eq!(MonitorRef::new(src).to_string(), "#Ref<0.3.2.1>");
}

#[test]
fn internal_ref_display_and_bits() {
    let src = InternalRef::from_bits([10, 20, 30]);
    assert_eq!(src.to_string(), "#Ref<0.30.20.10>");
    assert_eq!(src.into_bits(), [10, 20, 30]);
    let packed = InternalRef::from_counter(0x1_0004_0001, 7);
    assert_eq!(packed.into_bits(), [1, 0x0004_0007, 1]);
}

#[test]
fn external_ref_parts() {
    let mut table = AtomTable::with_well_known();
    let node = Atom::new(&mut table, "remote");
    let bits = InternalRef::from_bits([1, 2, 3]);
    let src = ExternalRef::new(bits, node);
    assert_eq!(src.bits(), bits);
    assert_eq!(src.node(), node);
    assert_eq!(ExternalRef::from_pair((bits, node)), src);
    assert_eq!(src.to_string(), format!("#Ref<{}.3.2.1>", node.into_slot()));
}

#[test]
fn initial_counter_value() {
    assert_eq!(InternalRef::initialize(0, 0), 0);
    assert_eq!(InternalRef::initialize(1, 0), 268438039);
    assert_eq!(init_thread_ref(1, 2), ((1u64 | (2u64 << 32)).wrapping_mul(268438039)).wrapping_add(2));
}
