//! The protocol events the synchronizer consumes and the notifications it
//! produces.

use vstd::prelude::*;

use crate::state::actions::ActionKind;
use crate::monitor::{WlMonitor, WlScale, WlTransform};

verus! {

/// An event addressed to one head object.
#[derive(Debug)]
pub enum HeadEvent {
    Name(String),
    Description(String),
    Make(String),
    Model(String),
    SerialNumber(String),
    /// Zero means disabled, anything else enabled.
    Enabled(i32),
    /// The object id of the mode now active.
    CurrentMode(u32),
    /// A new mode object, with its id, announced under this head.
    Mode(u32),
    Position(i32, i32),
    Scale(WlScale),
    Transform(WlTransform),
    /// The head is gone.
    Finished,
}

/// An event addressed to one mode object.
#[derive(Clone, Copy, Debug, PartialEq, Eq, Structural)]
pub enum ModeEvent {
    /// Width, then height, in pixels.
    Size(i32, i32),
    /// Refresh rate in millihertz.
    Refresh(i32),
    Preferred,
    /// The server retired the mode.
    Finished,
}

/// The terminal answer of the server to a submitted configuration.
#[derive(Clone, Copy, Debug, PartialEq, Eq, Structural)]
pub enum ConfigResult {
    Succeeded,
    Failed,
    Cancelled,
}

/// One decoded protocol event, tagged with the object it concerns.
#[derive(Debug)]
pub enum ProtocolEvent {
    /// The manager announced a new head object with this id.
    HeadAnnounced(u32),
    /// The manager marked the end of a consistent snapshot, with its serial.
    Done(u32),
    Head(u32, HeadEvent),
    Mode(u32, ModeEvent),
    /// The pending configuration reached its end.
    Configuration(ConfigResult),
}

/// A notification for the consumer.
#[derive(Debug)]
pub enum WlMonitorEvent {
    /// Every known head, once, at the first snapshot.
    InitialState(Vec<WlMonitor>),
    /// A head whose properties changed since the previous snapshot.
    Changed(WlMonitor),
    /// A head that is gone, with its last known name.
    Removed { id: u32, name: String },
    /// An action that could not be carried out.
    ActionFailed { action: ActionKind, reason: String },
}

} // verus!
