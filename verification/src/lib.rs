//! Marshalling of fixed-layout kernel records into a user task's memory,
//! and the per-task instrumentation record that is written out that way.
//!
//! A destination in user memory need not be contiguous: address translation
//! hands it over as an ordered sequence of chunks. The library serialises a
//! record into its declared byte layout and copies it chunk by chunk.

pub mod config;
pub mod layout;
pub mod marshal;
pub mod process;
pub mod record;
pub mod task;
