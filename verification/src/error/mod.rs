//! Runtime exceptions: a class, a group and a message.
use vstd::prelude::*;

verus! {

/// Class of an exception.
#[derive(Clone, Copy, Debug, Hash, PartialEq, Eq, Structural)]
pub enum ExceptionClass {
    /// A runtime error.
    Error,
}

impl ExceptionClass {
    /// The text of this class.
    pub open spec fn text(self) -> Seq<char> {
        match self {
            ExceptionClass::Error => "error"@,
        }
    }

    /// Renders this class.
    pub fn to_string(&self) -> (r: String)
        ensures
            r@ == self.text(),
    {
        match self {
            ExceptionClass::Error => String::from_str("error"),
        }
    }
}

/// Group of an exception: what went wrong.
#[derive(Clone, Copy, Debug, Hash, PartialEq, Eq, Structural)]
pub enum ExceptionGroup {
    /// Errors were found with the given arguments.
    BadArg,
    /// A system limit has been reached.
    SysCap,
    /// A system invariant has been broken.
    SysInv,
}

impl ExceptionGroup {
    /// The short label of this group.
    pub open spec fn label_text(self) -> Seq<char> {
        match self {
            ExceptionGroup::BadArg => "badarg"@,
            ExceptionGroup::SysCap => "syscap"@,
            ExceptionGroup::SysInv => "sysinv"@,
        }
    }

    /// The description of this group.
    pub open spec fn text(self) -> Seq<char> {
        match self {
            ExceptionGroup::BadArg => "(BadArg) errors were found with the given argument(s)"@,
            ExceptionGroup::SysCap => "(SysCap) a system limit has been reached"@,
            ExceptionGroup::SysInv => "(SysInv) a system invariant has been broken"@,
        }
    }

    /// Returns the short label of this group.
    pub fn label(&self) -> (r: &'static str)
        ensures
            r@ == self.label_text(),
    {
        match self {
            ExceptionGroup::BadArg => "badarg",
            ExceptionGroup::SysCap => "syscap",
            ExceptionGroup::SysInv => "sysinv",
        }
    }

    /// Renders the description of this group.
    pub fn to_string(&self) -> (r: String)
        ensures
            r@ == self.text(),
    {
        match self {
            ExceptionGroup::BadArg => String::from_str("(BadArg) errors were found with the given argument(s)"),
            ExceptionGroup::SysCap => String::from_str("(SysCap) a system limit has been reached"),
            ExceptionGroup::SysInv => String::from_str("(SysInv) a system invariant has been broken"),
        }
    }
}

/// A runtime exception.
#[derive(Clone, Debug)]
pub struct Exception {
    class: ExceptionClass,
    group: ExceptionGroup,
    error: String,
}

impl Exception {
    /// The class of this exception.
    pub closed spec fn spec_class(&self) -> ExceptionClass {
        self.class
    }

    /// The group of this exception.
    pub closed spec fn spec_group(&self) -> ExceptionGroup {
        self.group
    }

    /// The message of this exception.
    pub closed spec fn spec_error(&self) -> Seq<char> {
        self.error@
    }

    /// Creates an exception with the rendered message `error`.
    pub fn new(class: ExceptionClass, group: ExceptionGroup, error: String) -> (r: Exception)
        ensures
            r.spec_class() == class,
            r.spec_group() == group,
            r.spec_error() == error@,
    {
        Exception { class, group, error }
    }

    /// Returns the class of this exception.
    pub fn class(&self) -> (r: ExceptionClass)
        ensures
            r == self.spec_class(),
    {
        self.class
    }

    /// Returns the group of this exception.
    pub fn group(&self) -> (r: ExceptionGroup)
        ensures
            r == self.spec_group(),
    {
        self.group
    }

    /// Returns the message of this exception.
    pub fn error(&self) -> (r: &str)
        ensures
            r@ == self.spec_error(),
    {
        self.error.as_str()
    }

    /// Renders this exception as `class:group - message`.
    pub fn to_string(&self) -> (r: String)
        ensures
            r@ == self.spec_class().text() + ":"@ + self.spec_group().label_text() + " - "@ + self.spec_error(),
    {
        let mut out: String = self.class.to_string();
        out.append(":");
        out.append(self.group.label());
        out.append(" - ");
        out.append(self.error.as_str());
        out
    }
}

} // verus!
