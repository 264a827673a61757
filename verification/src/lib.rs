//! Status-bar content generator: widgets rendered into colored text
//! segments, refreshed by a cooldown scheduler and streamed as JSON arrays.
pub mod bar;
pub mod fillbar;
pub mod pattern;
pub mod render;
pub mod text;
pub mod w;

use vstd::prelude::*;

verus! {

/// The failure kinds a widget render can report.
#[derive(Debug, Clone, Copy)]
pub enum Error {
    CmdFailed,
    Utf8Error,
    BadCmdFormat(&'static str),
}

/// Two errors of the same kind carrying the same message.
pub open spec fn error_eqv(a: Error, b: Error) -> bool {
    match (a, b) {
        (Error::CmdFailed, Error::CmdFailed) => true,
        (Error::Utf8Error, Error::Utf8Error) => true,
        (Error::BadCmdFormat(x), Error::BadCmdFormat(y)) => x@ == y@,
        _ => false,
    }
}

/// The human-readable message of an error, as it appears in the
/// error segment emitted for a failed tick.
pub open spec fn message_spec(e: Error) -> Seq<char> {
    match e {
        Error::CmdFailed => "command failed to execute"@,
        Error::Utf8Error => "encountered invalid utf8 string"@,
        Error::BadCmdFormat(s) => "bad command output: "@ + s@,
    }
}

impl Error {
    /// Renders the error as the message text shown on the bar.
    pub fn message(&self) -> (r: String)
        ensures
            r@ == message_spec(*self),
    {
        match self {
            Error::CmdFailed => String::from_str("command failed to execute"),
            Error::Utf8Error => String::from_str("encountered invalid utf8 string"),
            Error::BadCmdFormat(s) => {
                let mut m = String::from_str("bad command output: ");
                m.append(s);
                m
            },
        }
    }
}

} // verus!
