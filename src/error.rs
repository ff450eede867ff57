//! Fatal errors of the connection that drives the synchronizer.

use vstd::prelude::*;
use vstd::string::*;

verus! {

/// A fatal error: the connection could not be made, or dispatching failed.
#[derive(Debug)]
pub enum Error {
    /// Failed to connect to the display server.
    ConnectionFailed(String),
    /// Failed during an event queue operation.
    EventQueueError(String),
}

pub open spec fn error_text(e: Error) -> Seq<char> {
    match e {
        Error::ConnectionFailed(msg) => "Failed to connect to Wayland server: "@ + msg@,
        Error::EventQueueError(msg) => "Event queue error: "@ + msg@,
    }
}

impl Error {
    /// The human-readable message.
    pub fn message(&self) -> (r: String)
        ensures
            r@ == error_text(*self),
    {
        match self {
            Error::ConnectionFailed(msg) => {
                let mut s = String::from_str("Failed to connect to Wayland server: ");
                s.append(msg.as_str());
                s
            },
            Error::EventQueueError(msg) => {
                let mut s = String::from_str("Event queue error: ");
                s.append(msg.as_str());
                s
            },
        }
    }
}

} // verus!
