use std::borrow::Cow;
use std::path::Path;
use std::path::PathBuf;
use std::rc::Rc;
use std::sync::Arc;

use errai::types::atom::AtomTableError;
use errai::types::Atom;
use errai::types::AtomTable;

fn table() -> AtomTable {
    AtomTable::with_well_known()
}

fn check_equality(table: &AtomTable, atom: Atom, cmp1: &str, cmp2: &str) {
    assert!(atom.eq_str(table, cmp1));
    assert!(!atom.eq_str(table, cmp2));
}

#[test]
fn test_well_known_atoms_have_correct_values() {
    let table = table();
    assert_eq!(Atom::empty().as_str(&table), "");
    assert_eq!(Atom::kill().as_str(&table), "kill");
    assert_eq!(Atom::killed().as_str(&table), "killed");
    assert_eq!(Atom::normal().as_str(&table), "normal");
    assert_eq!(Atom::noproc().as_str(&table), "noproc");
    assert_eq!(Atom::noconn().as_str(&table), "noconn");
    assert_eq!(Atom::undefined().as_str(&table), "undefined");
}

#[test]
fn atom_test_new() {
    let mut table = table();
    let atom = Atom::new(&mut table, "test");
    assert_eq!(atom.as_str(&table), "test");
}

#[test]
fn test_new_empty_string() {
    let mut table = table();
    let atom = Atom::new(&mut table, "");
    assert_eq!(atom.as_str(&table), "");
    assert_eq!(atom, Atom::empty());
}

#[test]
fn test_new_unicode() {
    let mut table = table();
    let atom = Atom::new(&mut table, "こんにちは");
    assert_eq!(atom.as_str(&table), "こんにちは");
}

#[test]
fn test_new_emoji() {
    let mut table = table();
    let atom = Atom::new(&mut table, "🦀");
    assert_eq!(atom.as_str(&table), "🦀");
}

#[test]
fn test_new_too_long() {
    let mut table = table();
    let data: String = "🦀".repeat(256);
    assert_eq!(table.set(&data), Err(AtomTableError::AtomTooLarge));
    let data: String = "🦀".repeat(255);
    assert!(table.set(&data).is_ok());
}

#[test]
fn test_interning() {
    let mut table = table();
    let a = Atom::new(&mut table, "hello");
    let b = Atom::new(&mut table, "hello");
    let c = Atom::new(&mut table, "world");
    assert_eq!(a.into_slot(), b.into_slot());
    assert_ne!(a.into_slot(), c.into_slot());
}

#[test]
fn atom_test_clone() {
    let mut table = table();
    let src = Atom::new(&mut table, "test");
    let dst = src.clone();
    assert_eq!(src, dst);
}

#[test]
fn atom_test_copy() {
    let mut table = table();
    let src = Atom::new(&mut table, "test");
    let dst = src;
    assert_eq!(src, dst);
}

#[test]
fn atom_test_display() {
    let mut table = table();
    let src = Atom::new(&mut table, "test");
    assert_eq!(src.to_string(&table), "test");
}

#[test]
fn test_default() {
    assert_eq!(<Atom as Default>::default(), Atom::empty());
}

#[test]
fn atom_test_equality() {
    let mut table = table();
    let a = Atom::new(&mut table, "foo");
    let b = Atom::new(&mut table, "foo");
    let c = Atom::new(&mut table, "bar");
    assert_eq!(a, b);
    assert_ne!(a, c);
}

#[test]
fn atom_test_ordering() {
    let mut table = table();
    let a = Atom::new(&mut table, "apple");
    let b = Atom::new(&mut table, "banana");
    let c = Atom::new(&mut table, "cherry");
    assert!(a.lt_in(b, &table));
    assert!(b.lt_in(c, &table));
    assert!(a.lt_in(c, &table));
}

#[test]
fn atom_string_order_is_not_interning_order() {
    let mut table = table();
    let z = Atom::new(&mut table, "zebra");
    let a = Atom::new(&mut table, "aardvark");
    assert!(a.lt_in(z, &table));
    assert!(!z.lt_in(a, &table));
    assert!(!a.lt_in(a, &table));
    let short = Atom::new(&mut table, "ab");
    let long = Atom::new(&mut table, "abc");
    assert!(short.lt_in(long, &table));
}

#[test]
fn test_deref() {
    let mut table = table();
    let atom = Atom::new(&mut table, "test");
    let data: &str = atom.as_str(&table);
    assert_eq!(data, "test");
}

#[test]
fn test_from_into_str() {
    let mut table = table();
    let atom = Atom::new(&mut table, "test");
    let data: String = atom.as_str(&table).to_owned();
    assert_eq!(data, "test");
    assert_eq!(atom, Atom::new(&mut table, &data));
}

#[test]
fn test_from_into_string() {
    let mut table = table();
    let atom = Atom::new(&mut table, "test");
    let data: String = atom.to_string(&table);
    assert_eq!(data, "test");
    assert_eq!(atom, Atom::new(&mut table, data.as_str()));
}

#[test]
fn test_from_into_cow() {
    let mut table = table();
    let atom = Atom::new(&mut table, "test");
    let data: Cow<'_, str> = Cow::Owned(atom.to_string(&table));
    assert_eq!(data, "test");
    assert_eq!(atom, Atom::new(&mut table, &data));
}

#[test]
fn test_from_into_box() {
    let mut table = table();
    let atom = Atom::new(&mut table, "test");
    let data: Box<str> = Box::from(atom.as_str(&table));
    assert_eq!(data, Box::from("test"));
    assert_eq!(atom, Atom::new(&mut table, &data));
}

#[test]
fn test_from_into_rc() {
    let mut table = table();
    let atom = Atom::new(&mut table, "test");
    let data: Rc<str> = Rc::from(atom.as_str(&table));
    assert_eq!(data, Rc::from("test"));
    assert_eq!(atom, Atom::new(&mut table, &data));
}

#[test]
fn test_from_into_arc() {
    let mut table = table();
    let atom = Atom::new(&mut table, "test");
    let data: Arc<str> = Arc::from(atom.as_str(&table));
    assert_eq!(data, Arc::from("test"));
    assert_eq!(atom, Atom::new(&mut table, &data));
}

#[test]
fn test_equality_str() {
    let mut table = table();
    let atom = Atom::new(&mut table, "test");
    let cmp1: &str = "test";
    let cmp2: &str = "other";
    check_equality(&table, atom, cmp1, cmp2);
}

#[test]
fn test_equality_string() {
    let mut table = table();
    let atom = Atom::new(&mut table, "test");
    let cmp1: String = "test".to_owned();
    let cmp2: String = "other".to_owned();
    check_equality(&table, atom, &cmp1, &cmp2);
}

#[test]
fn test_equality_cow_borrowed() {
    let mut table = table();
    let atom = Atom::new(&mut table, "test");
    let cmp1: Cow<'_, str> = Cow::Borrowed("test");
    let cmp2: Cow<'_, str> = Cow::Borrowed("other");
    check_equality(&table, atom, &cmp1, &cmp2);
}

#[test]
fn test_equality_cow_owned() {
    let mut table = table();
    let atom = Atom::new(&mut table, "test");
    let cmp1: Cow<'_, str> = Cow::Owned("test".to_owned());
    let cmp2: Cow<'_, str> = Cow::Owned("other".to_owned());
    check_equality(&table, atom, &cmp1, &cmp2);
}

#[test]
fn test_equality_box() {
    let mut table = table();
    let atom = Atom::new(&mut table, "test");
    let cmp1: Box<str> = Box::from("test");
    let cmp2: Box<str> = Box::from("other");
    check_equality(&table, atom, &cmp1, &cmp2);
}

#[test]
fn test_equality_rc() {
    let mut table = table();
    let atom = Atom::new(&mut table, "test");
    let cmp1: Rc<str> = Rc::from("test");
    let cmp2: Rc<str> = Rc::from("other");
    check_equality(&table, atom, &cmp1, &cmp2);
}

#[test]
fn test_equality_arc() {
    let mut table = table();
    let atom = Atom::new(&mut table, "test");
    let cmp1: Arc<str> = Arc::from("test");
    let cmp2: Arc<str> = Arc::from("other");
    check_equality(&table, atom, &cmp1, &cmp2);
}

#[test]
fn test_equality_path() {
    let mut table = table();
    let atom = Atom::new(&mut table, "test");
    let cmp1: &Path = Path::new("test");
    let cmp2: &Path = Path::new("other");
    check_equality(&table, atom, cmp1.to_str().unwrap(), cmp2.to_str().unwrap());
}

#[test]
fn test_equality_path_buf() {
    let mut table = table();
    let atom = Atom::new(&mut table, "test");
    let cmp1: PathBuf = PathBuf::from("test");
    let cmp2: PathBuf = PathBuf::from("other");
    check_equality(&table, atom, cmp1.to_str().unwrap(), cmp2.to_str().unwrap());
}

#[test]
fn atom_table_counts_and_limits() {
    let mut table = AtomTable::new();
    assert_eq!(table.len(), 0);
    assert_eq!(table.set("a"), Ok(0));
    assert_eq!(table.set("b"), Ok(1));
    assert_eq!(table.set("a"), Ok(0));
    assert_eq!(table.len(), 2);
    assert_eq!(table.get(1), Some("b"));
    assert_eq!(table.get(2), None);
}

#[test]
fn atom_interning_law_on_values() {
    let mut table = table();
    let first = table.set("law").unwrap();
    let len = table.len();
    let second = table.set("law").unwrap();
    assert_eq!(first, second);
    assert_eq!(table.len(), len);
    assert_eq!(table.get(first), Some("law"));
}

#[test]
fn atom_string_order() {
    let mut table = table();
    let c = Atom::new(&mut table, "cherry");
    let a = Atom::new(&mut table, "apple");
    let b = Atom::new(&mut table, "banana");
    assert!(a.lt_in(b, &table));
    assert!(b.lt_in(c, &table));
    assert!(a.lt_in(c, &table));
    assert!(!c.lt_in(a, &table));
    assert!(!a.lt_in(a, &table));
    let app = Atom::new(&mut table, "app");
    assert!(app.lt_in(a, &table));
    assert!(!a.lt_in(app, &table));
}

#[test]
fn atom_interned_again_keeps_slot() {
    let mut table = table();
    let first = Atom::new(&mut table, "again");
    let count = table.len();
    let second = Atom::new(&mut table, "again");
    assert_eq!(first, second);
    assert_eq!(table.len(), count);
    assert_eq!(table.set("again"), Ok(first.into_slot()));
}
