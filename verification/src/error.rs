//! The error value that every fallible operation of the updater returns.
use vstd::prelude::*;

verus! {

/// A failure with its message, the two categories that callers present
/// differently from a generic failure, and the call stack at the place
/// where it arose, for the report to the developers.
#[derive(Debug, Clone)]
pub struct FormattedError {
    pub msg: String,
    pub stacktrace: String,
    pub is_network_error: bool,
    pub is_missing_sudo: bool,
}

/// Calls `backtrace::Backtrace::new` and writes the call stack out as
/// text. Trusted: nothing is claimed of the text, which differs from one
/// machine and one build to the next.
#[verifier::external_body]
fn capture_trace() -> (trace: String) {
    format!("{:?}", backtrace::Backtrace::new())
}

/// How a failure is shown to the user.
#[derive(Clone, Copy, Debug, PartialEq, Eq, Structural)]
pub enum ErrorCategory {
    /// The delivery server could not be reached.
    Network,
    /// No way to gain elevated rights was found, or it was refused.
    MissingPrivilege,
    /// Anything else.
    Fatal,
}

impl FormattedError {
    /// How this failure is shown to the user.
    pub fn category(&self) -> (c: ErrorCategory)
        ensures
            c == if self.is_missing_sudo {
                ErrorCategory::MissingPrivilege
            } else if self.is_network_error {
                ErrorCategory::Network
            } else {
                ErrorCategory::Fatal
            },
    {
        if self.is_missing_sudo {
            ErrorCategory::MissingPrivilege
        } else if self.is_network_error {
            ErrorCategory::Network
        } else {
            ErrorCategory::Fatal
        }
    }

    /// A generic failure carrying `val` as its message.
    pub fn from_str(val: String) -> (e: Self)
        ensures
            e.msg == val,
            !e.is_network_error,
            !e.is_missing_sudo,
    {
        FormattedError {
            msg: val,
            stacktrace: capture_trace(),
            is_network_error: false,
            is_missing_sudo: false,
        }
    }

    /// A failure of the network transport carrying `val` as its message.
    pub fn from_network(val: String) -> (e: Self)
        ensures
            e.msg == val,
            e.is_network_error,
            !e.is_missing_sudo,
    {
        FormattedError {
            msg: val,
            stacktrace: capture_trace(),
            is_network_error: true,
            is_missing_sudo: false,
        }
    }

    /// A failure caused by a missing privilege-elevation helper.
    pub fn from_missing_sudo(err: String) -> (e: Self)
        ensures
            e.msg == err,
            !e.is_network_error,
            e.is_missing_sudo,
    {
        FormattedError {
            msg: err,
            stacktrace: capture_trace(),
            is_network_error: false,
            is_missing_sudo: true,
        }
    }

    /// The text that is logged and reported for this failure: the message
    /// and the call stack.
    pub fn report(&self) -> (r: String)
        ensures
            r@ == "ERROR: "@ + self.msg@ + " \n\n\nSTACK TRACE: \n"@ + self.stacktrace@,
    {
        let mut r = "ERROR: ".to_owned();
        r.append(self.msg.as_str());
        r.append(" \n\n\nSTACK TRACE: \n");
        r.append(self.stacktrace.as_str());
        r
    }

    /// The message of this failure.
    pub fn message(&self) -> (r: String)
        ensures
            r@ == self.msg@,
    {
        self.msg.clone()
    }
}

/// A generic failure whose message is the literal `msg`.
pub fn fail(msg: &str) -> (e: FormattedError)
    ensures
        e.msg@ == msg@,
        !e.is_network_error,
        !e.is_missing_sudo,
{
    FormattedError::from_str(msg.to_string())
}

} // verus!
