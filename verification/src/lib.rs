//! Host metrics rendered as short, script-friendly strings.
//!
//! - [`memory`]: used memory from the kernel's counters, and the line that
//!   reports it.
//! - [`bytes`]: byte counts with unit prefixes, and percentages.
//! - [`uptime`]: a duration split into weeks, days, hours and minutes, and
//!   written under a policy that picks the units to show.
//! - [`command`]: the commands of the program and its help page.
//! - [`text`] and [`rounding`]: decimal notation and rounded division, on
//!   which the others are built.
//!
//! Every function is total on the inputs its contract admits, and every
//! string it writes is stated, character by character, by a spec function.

pub mod bytes;
pub mod command;
pub mod memory;
pub mod rounding;
pub mod text;
pub mod uptime;
