//! Verified core of a REPL session manager: the kernel lifecycle state
//! machine, the mapping between source-code regions and in-flight or
//! completed executions, and the routing of asynchronous kernel replies
//! back to the region that triggered them.
//!
//! The editor, the kernel transport, the rendering surface and the
//! telemetry sink are outside collaborators; the session records what it
//! hands to each of them (sent messages, removed visual blocks, emitted
//! events) so that every decision it makes is stated and proved here.

pub mod diff;
pub mod document;
pub mod kernel;
pub mod messages;
pub mod outputs;
pub mod selections;
pub mod session;
