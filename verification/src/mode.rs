//! The decisions of the application's modes.

pub mod live_tail;
pub mod login_wizard;
pub mod report_once;
pub mod serve;
