//! Duration text for a date and time tool.
//!
//! A signed span of time is written as an ISO-8601-like duration under a
//! mask of units, read back from that text, and rendered as an English
//! phrase. Every function carries a contract over the mathematical model of
//! its arguments.

pub mod flags;
pub mod span;
pub mod decimal;
pub mod encode;
pub mod decode;
pub mod pretty;
pub mod roundtrip;
pub mod report;
