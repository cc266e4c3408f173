//! Byte channels whose backend (standard stream, memory or file) is chosen by
//! the caller at run time.
//!
//! The library holds what can be decided without touching the operating
//! system: which backend a command-line argument selects, and the in-memory
//! backend, a growable byte buffer with one cursor shared by reads and writes.
pub mod memory;
pub mod target;
