use errai::types::Atom;
use errai::types::AtomTable;
use errai::types::Exit;

type E = Exit<u32>;

fn text(table: &AtomTable, exit: &E) -> String {
    exit.as_atom().unwrap().to_string(table)
}

#[test]
fn test_constants_exist() {
    let _unused: E = Exit::normal();
    let _unused: E = Exit::killed();
    let _unused: E = Exit::noproc();
    let _unused: E = Exit::noconn();
}

#[test]
fn test_is_normal() {
    assert!(E::normal().is_normal());
    assert!(!E::killed().is_normal());
    assert!(!E::noproc().is_normal());
    assert!(!E::noconn().is_normal());
}

#[test]
fn test_is_killed() {
    assert!(E::killed().is_killed());
    assert!(!E::normal().is_killed());
    assert!(!E::noproc().is_killed());
    assert!(!E::noconn().is_killed());
}

#[test]
fn test_is_noproc() {
    assert!(E::noproc().is_noproc());
    assert!(!E::normal().is_noproc());
    assert!(!E::killed().is_noproc());
    assert!(!E::noconn().is_noproc());
}

#[test]
fn test_is_noconn() {
    assert!(E::noconn().is_noconn());
    assert!(!E::normal().is_noconn());
    assert!(!E::killed().is_noconn());
    assert!(!E::noproc().is_noconn());
}

#[test]
fn exit_test_clone() {
    let src: E = Exit::normal();
    let dst: E = src.clone();
    assert!(src.is_normal());
    assert!(dst.is_normal());
}

#[test]
fn exit_test_display() {
    let table = AtomTable::with_well_known();
    assert_eq!(text(&table, &E::normal()), "normal");
    assert_eq!(text(&table, &E::killed()), "killed");
    assert_eq!(text(&table, &E::noproc()), "noproc");
    assert_eq!(text(&table, &E::noconn()), "noconn");
}

#[test]
fn test_display_custom() {
    let mut table = AtomTable::with_well_known();
    let exit: E = Exit::Atom(Atom::new(&mut table, "timeout"));
    assert_eq!(text(&table, &exit), "timeout");
}

#[test]
fn exit_test_from_atom() {
    let mut table = AtomTable::with_well_known();
    let atom = Atom::new(&mut table, "shutdown");
    let exit: E = Exit::from(atom);
    assert_eq!(exit, Exit::Atom(atom));
}

#[test]
fn test_from_well_known_atom() {
    assert!(E::from(Atom::normal()).is_normal());
}

#[test]
fn test_from_term_integer() {
    let exit: E = Exit::Term(123);
    assert_eq!(exit, Exit::Term(123));
    assert_eq!(exit.as_atom(), None);
    assert!(!exit.is_normal() && !exit.is_killed());
}

#[test]
fn test_from_term_string() {
    let exit: Exit<String> = Exit::Term("error message".to_owned());
    assert_eq!(exit, Exit::Term("error message".to_owned()));
    assert!(!exit.is_noproc() && !exit.is_noconn());
}

#[test]
fn kill_is_not_killed() {
    assert!(E::from(Atom::kill()).is_kill());
    assert!(!E::killed().is_kill());
    assert!(!E::from(Atom::kill()).is_killed());
}
