//! A content-addressed cache of Python virtual environments shared by
//! concurrent processes: naming, locking protocol and usage-driven eviction.
pub mod error;
pub mod fingerprint;
pub mod journal;
pub mod layout;
pub mod options;
pub mod session;
pub mod usage;
