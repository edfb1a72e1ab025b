//! The error taxonomy of the diagnostic engine.
//!
//! `Jni` and `JvmTi` report a host introspection primitive that failed,
//! `Parse` a malformed time pattern in a dump path, `Io` a filesystem
//! failure while preparing a heap dump, and
//! `ActionUnavailableOnThreadExhaustion` a diagnostic that is structurally
//! impossible while the host cannot create threads.

use vstd::prelude::*;

use crate::text::spec_idec;

verus! {

#[derive(Clone, Debug)]
pub enum Error {
    Jni(String),
    JvmTi(String, i32),
    Parse(String),
    Io(String),
    ActionUnavailableOnThreadExhaustion(String),
}

/// The text of an error, as it is reported in the diagnostic output.
pub open spec fn spec_error_message(e: Error) -> Seq<char> {
    match e {
        Error::Jni(m) => "JNI call failed: "@ + m@,
        Error::JvmTi(m, rc) => m@ + ": "@ + spec_idec(rc as int),
        Error::Parse(m) => m@ + ": parse error"@,
        Error::Io(m) => m@ + ": I/O error"@,
        Error::ActionUnavailableOnThreadExhaustion(m) => "cannot "@ + m@
            + " since the JVM is unable to create a thread"@,
    }
}

impl Error {
    /// The host return code carried by a `JvmTi` error; every other error
    /// maps to zero.
    pub fn rc(&self) -> (r: i32)
        ensures
            r == (match *self {
                Error::JvmTi(_, code) => code,
                _ => 0,
            }),
    {
        match self {
            Error::JvmTi(_, code) => *code,
            _ => 0,
        }
    }

    /// Renders the error as a single human-readable line.
    pub fn message(&self) -> (r: String)
        ensures
            r@ == spec_error_message(*self),
    {
        match self {
            Error::Jni(m) => {
                let r = String::from_str("JNI call failed: ");
                r.concat(m.as_str())
            },
            Error::JvmTi(m, code) => {
                let r = m.clone();
                let r = r.concat(": ");
                r.concat(crate::text::idec(*code as i64).as_str())
            },
            Error::Parse(m) => {
                let r = m.clone();
                r.concat(": parse error")
            },
            Error::Io(m) => {
                let r = m.clone();
                r.concat(": I/O error")
            },
            Error::ActionUnavailableOnThreadExhaustion(m) => {
                let r = String::from_str("cannot ");
                let r = r.concat(m.as_str());
                r.concat(" since the JVM is unable to create a thread")
            },
        }
    }
}

} // verus!
