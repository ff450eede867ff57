//! Client-side state machine for the wlr output-management protocol.
//!
//! The library assembles the protocol's object-scoped events into monitor
//! snapshots, and turns one high-level action into a complete, validated
//! configuration transaction that carries an instruction for every known head.
//! Transport, dispatch and the proxies themselves stay with the caller: the
//! library works on protocol object ids and plain values.

pub mod error;
pub mod events;
pub mod laws;
pub mod monitor;
pub mod state;

pub use state::actions::{
    action_failed, failure_reason, preserve_head, result_event, ActionFailure, ActionKind,
    ConfigPlan, HeadConfig, WlMonitorAction,
};
pub use error::Error;
pub use events::{ConfigResult, HeadEvent, ModeEvent, ProtocolEvent, WlMonitorEvent};
pub use monitor::{ModeQuery, MonitorView, WlMonitor, WlMonitorMode, WlMonitorPosition, WlMonitorResolution, WlPosition, WlResolution, WlScale, WlTransform};
pub use state::{ManagerView, WlMonitorManager};
