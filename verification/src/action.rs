//! The newer action set: the ordered diagnostics, terminated by the kill
//! action, assembled once from the configuration.

pub mod actions;
pub mod heap_dump;
pub mod heap_histogram;
pub mod kill;
pub mod memory_pools;
pub mod signal;
pub mod thread_dump;
