use errai::error::Exception;
use errai::error::ExceptionClass;
use errai::error::ExceptionGroup;

#[test]
fn exception_class_test_display() {
    assert_eq!(ExceptionClass::Error.to_string(), "error");
}

#[test]
fn exception_group_test_display() {
    let badarg: String = ExceptionGroup::BadArg.to_string();
    let syscap: String = ExceptionGroup::SysCap.to_string();
    let sysinv: String = ExceptionGroup::SysInv.to_string();
    assert!(badarg.starts_with("(BadArg)"));
    assert!(syscap.starts_with("(SysCap)"));
    assert!(sysinv.starts_with("(SysInv)"));
}

#[test]
fn exception_group_labels() {
    assert_eq!(ExceptionGroup::BadArg.label(), "badarg");
    assert_eq!(ExceptionGroup::SysCap.label(), "syscap");
    assert_eq!(ExceptionGroup::SysInv.label(), "sysinv");
}

#[test]
fn exception_parts_and_display() {
    let error = Exception::new(ExceptionClass::Error, ExceptionGroup::SysCap, "table full".to_owned());
    assert_eq!(error.class(), ExceptionClass::Error);
    assert_eq!(error.group(), ExceptionGroup::SysCap);
    assert_eq!(error.error(), "table full");
    assert_eq!(error.to_string(), "error:syscap - table full");
}

#[test]
fn exception_display_uses_group_label() {
    let error = Exception::new(ExceptionClass::Error, ExceptionGroup::BadArg, "value must be non-negative".to_owned());
    assert_eq!(error.to_string(), "error:badarg - value must be non-negative");
}
