//! User-facing error messages and the stack that collects them.

use vstd::prelude::*;

use std::collections::VecDeque;

verus! {

/// A user-facing message with the moment it was raised.
#[derive(Clone, Debug)]
pub struct DisplayError {
    pub message: String,
    pub timestamp: u64,
}

/// Relies on std::time::SystemTime::now: the seconds since the Unix epoch;
/// on a clock before the epoch the result is 1. The value depends on the
/// moment of the call, so nothing more is stated of it.
#[verifier::external_body]
pub(crate) fn get_timestamp() -> u64 {
    std::time::SystemTime::now().duration_since(
        std::time::UNIX_EPOCH,
    ).map(|d| d.as_secs()).unwrap_or(1)
}

/// The seconds that passed since `timestamp`; a timestamp from the future
/// counts as no time passed.
pub fn elapsed(timestamp: u64) -> u64 {
    let now = get_timestamp();
    if now >= timestamp {
        now - timestamp
    } else {
        0
    }
}

impl DisplayError {
    /// Wraps a message, stamped with the present moment.
    pub fn new(message: String) -> (r: Self)
        ensures
            r.message@ == message@,
    {
        let timestamp = get_timestamp();
        DisplayError { message, timestamp }
    }

    /// The held message.
    pub fn message(&self) -> (r: &str)
        ensures
            r@ == self.message@,
    {
        self.message.as_str()
    }

    /// The moment the error was raised.
    pub fn timestamp(&self) -> (r: u64)
        ensures
            r == self.timestamp,
    {
        self.timestamp
    }
}

/// The messages raised so far, oldest first.
#[derive(Debug)]
pub struct ErrorStack {
    pub errors: VecDeque<DisplayError>,
}

impl ErrorStack {
    /// An empty stack.
    pub fn new() -> (r: Self)
        ensures
            r.errors@.len() == 0,
    {
        ErrorStack { errors: VecDeque::new() }
    }

    /// Appends one message to the end of the stack.
    pub fn push(&mut self, message: String)
        ensures
            final(self).errors@.len() == old(self).errors@.len() + 1,
            final(self).errors@.drop_last() == old(self).errors@,
            final(self).errors@.last().message@ == message@,
    {
        self.errors.push_back(DisplayError::new(message))
    }
}

impl Default for ErrorStack {
    /// An empty stack.
    fn default() -> (r: Self)
        ensures
            r.errors@.len() == 0,
    {
        ErrorStack::new()
    }
}

/// Appends one message to the stack that the host passes around for its
/// user-visible errors.
pub fn append_global_error(stack: &mut ErrorStack, error: String)
    ensures
        final(stack).errors@.len() == old(stack).errors@.len() + 1,
        final(stack).errors@.drop_last() == old(stack).errors@,
        final(stack).errors@.last().message@ == error@,
{
    stack.push(error)
}

} // verus!
