use vstd::prelude::*;

pub mod time;
pub mod text;
pub mod user_status;
pub mod tracking;
pub mod stats;
pub mod layout;
pub mod dashboard;
pub mod console;
pub mod auth;
pub mod session;
pub mod menu;
pub mod ordering;

verus! {

/// Seconds of silence after which a tracked vehicle is considered to have a problem.
pub const WATCHDOG_TIMEOUT_SECS: u64 = 35;

} // verus!
