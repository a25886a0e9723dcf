//! Orchestration core of the receipts dashboard: worker invocation, stream
//! capture, run-report indexing and unread-issue tracking.

pub mod config;
pub mod inbox;
pub mod issues;
pub mod launcher;
pub mod reports;
pub mod seen;
pub mod stream;
