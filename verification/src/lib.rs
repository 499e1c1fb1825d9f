//! Change detection for polled sources: a store of last-observed values,
//! the rules that turn fresh samples into notifications, and the per-tick
//! driver that applies them to every configured source.

pub mod detect;
pub mod error;
pub mod schedule;
pub mod source;
pub mod store;
