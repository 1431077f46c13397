//! Age-based clean-up of a single directory.
//!
//! The library decides; the program around it touches the disk. A listing
//! of a directory's immediate children comes in as plain values, the entries
//! whose last modification lies further back than a limit are picked out,
//! and a [`Sweep`] tells the caller, one entry at a time, what to do with
//! each of them and keeps the two counts that are reported at the end.

pub mod age;
pub mod args;
pub mod clock;
pub mod decimal;
pub mod entry;
pub mod laws;
pub mod options;
pub mod rmolder;
pub mod sweep;

pub use crate::age::{exceeds_limit, is_old, old_entries, too_old};
pub use crate::args::{Args, ConfigError};
pub use crate::clock::{current_time, seconds_since_epoch};
pub use crate::decimal::parse_decimal;
pub use crate::entry::{list_entries, DirectoryEntry, DirectoryUnreadable, EntryView};
pub use crate::options::{ArgumentFault, FaultKind};
pub use crate::rmolder::RmOlder;
pub use crate::sweep::{Action, Mode, Sweep, SweepView};
