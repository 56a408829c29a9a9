//! Synthetic-call trampolines for an ARM64 guest: a reserved executable
//! window with a bump allocator, a registry of call numbers, and the
//! encoder that plants `svc #n; ret` stubs.
pub mod encoder;
pub mod window;
pub mod handler;
pub mod memory;
