use vstd::prelude::*;

use crate::process::dec_str;
use crate::process::push_decimal;
use vstd::string::StringExecFns;

verus! {

/// The exit state of one invocation of the external build tool.
#[derive(Clone, Copy, Debug)]
pub struct Status {
    /// Did the child process exit successfully?
    pub success: bool,
    /// The exit code, when the child exited with one.
    pub code: Option<i32>,
}

/// Why a run stopped, by the stage that failed.
#[derive(Debug)]
pub enum Error {
    /// Contradictory policy flags, found before any planning.
    Config { message: String },
    /// A name the policy requires does not resolve to anything.
    Resolution { message: String },
    /// The manifest could not be read, parsed, or written.
    Manifest { message: String },
    /// A build invocation exited with a failing status.
    Build { status: Status },
    /// Writing the restored manifest bytes failed.
    Io { message: String },
}

/// The message of a failing build status.
pub open spec fn build_message_spec(status: Status) -> Seq<char> {
    match status.code {
        Option::Some(c) => if c >= 0 {
            "build failed with exit code "@ + dec_str(c as int)
        } else {
            "build failed with exit code "@ + seq!['-'] + dec_str(-(c as int))
        },
        Option::None => "build terminated by a signal"@,
    }
}

/// The message of an error, as shown to the user.
pub open spec fn error_message_spec(e: Error) -> Seq<char> {
    match e {
        Error::Config { message } => message@,
        Error::Resolution { message } => message@,
        Error::Manifest { message } => message@,
        Error::Build { status } => build_message_spec(status),
        Error::Io { message } => message@,
    }
}

impl Error {
    /// The message shown to the user for this error.
    pub fn message(&self) -> (r: String)
        ensures
            r@ == error_message_spec(*self),
    {
        match self {
            Error::Config { message } => message.clone(),
            Error::Resolution { message } => message.clone(),
            Error::Manifest { message } => message.clone(),
            Error::Io { message } => message.clone(),
            Error::Build { status } => {
                match status.code {
                    Option::Some(c) => {
                        let mut r = String::from_str("build failed with exit code ");
                        if c >= 0 {
                            push_decimal(&mut r, c as usize);
                        } else {
                            r.append("-");
                            proof {
                                reveal_strlit("-");
                            }
                            let magnitude = -(c as i64);
                            push_decimal(&mut r, magnitude as usize);
                        }
                        proof {
                            assert(r@ =~= build_message_spec(*status));
                        }
                        r
                    },
                    Option::None => String::from_str("build terminated by a signal"),
                }
            },
        }
    }
}

} // verus!
