//! Message channels, shared-memory layout and message formats used between a
//! BOINC client and the applications it runs.

pub mod connection;
pub mod laws;
pub mod models;
pub mod num;
pub mod shmem;
pub mod xml;
