//! A single-slot store for a process identifier, written as text and read back
//! as a one-line report on that process's command name and scheduling state.
pub mod error;
pub mod laws;
pub mod render;
pub mod slot;
pub mod text;

pub use error::ErrorKind;
pub use render::{copy_truncated, render_report};
pub use slot::{report_into, PidSlot, ProcessInfo, ProcessTable, SlotState};
pub use text::{decode_scalars, parse_pid};
