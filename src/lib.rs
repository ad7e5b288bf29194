//! Disk-usage inspection: aggregation of walked file records into per-child
//! size reports, their ordering into a snapshot with a percentage denominator
//! and colour thresholds, relative ages, and the interactive shell's command
//! reading, navigation step and completion.

pub mod age;
pub mod completion;
pub mod mounts;
pub mod order;
pub mod report;
pub mod session;
pub mod snapshot;
pub mod text;
