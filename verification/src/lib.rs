//! Core of a concurrent secure-erase tool: the decisions taken while targets
//! are probed, opened and overwritten with random data.
//!
//! The library holds no file handle and starts no thread. A driver performs the
//! system calls and feeds their outcomes to the functions here, which decide what
//! happens next and account for every byte written.

pub mod buffer;
pub mod capacity;
pub mod elapsed;
pub mod event;
pub mod laws;
pub mod progress;
pub mod report;
pub mod schedule;
pub mod stream;
pub mod target;
pub mod worker;
