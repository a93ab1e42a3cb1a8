//! Errors that the relay core itself can raise.
//!
//! Transport failures (broken pipes, resets) belong to the process around
//! the library; the core only reports what it can decide from the bytes and
//! values it is handed.

use vstd::prelude::*;
use vstd::string::StringExecFns;

verus! {

/// What went wrong inside the relay core.
#[derive(Debug, PartialEq, Eq)]
pub enum RatError {
    /// A frame's payload was not valid UTF-8, or a text could not be
    /// carried because its encoding holds the delimiter byte.
    InvalidEncoding,
    /// A server message did not follow the envelope format; carries the
    /// offending text.
    InvalidMessage(String),
    /// A configuration option held a value outside the accepted set;
    /// carries the rejected value.
    UnknownOption(String),
    /// The platform names no configuration directory.
    ConfigDir,
}

impl RatError {
    /// A short, human-readable description of the error.
    pub fn message(&self) -> (r: String)
        ensures
            r@ == match self {
                RatError::InvalidEncoding => "invalid encoding"@,
                RatError::InvalidMessage(m) => "invalid message: "@ + m@,
                RatError::UnknownOption(o) => "unknown option: "@ + o@,
                RatError::ConfigDir => "no configuration directory"@,
            },
    {
        match self {
            RatError::InvalidEncoding => {
                let mut s = String::new();
                s.append("invalid encoding");
                proof {
                    assert(s@ =~= "invalid encoding"@);
                }
                s
            },
            RatError::InvalidMessage(m) => {
                let mut s = String::new();
                s.append("invalid message: ");
                s.append(m.as_str());
                proof {
                    assert(s@ =~= "invalid message: "@ + m@);
                }
                s
            },
            RatError::UnknownOption(o) => {
                let mut s = String::new();
                s.append("unknown option: ");
                s.append(o.as_str());
                proof {
                    assert(s@ =~= "unknown option: "@ + o@);
                }
                s
            },
            RatError::ConfigDir => {
                let mut s = String::new();
                s.append("no configuration directory");
                proof {
                    assert(s@ =~= "no configuration directory"@);
                }
                s
            },
        }
    }
}

} // verus!
