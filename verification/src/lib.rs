//! Structural codec, boundary memory protocol and compatibility tag channel
//! for moving structured values between a guest module and a host runtime.
//!
//! The codec splits a self-describing value into a positional, name-free
//! shape tree plus a per-type naming schema, and fuses the two back into a
//! keyed value.  The boundary memory protocol governs how byte buffers are
//! allocated and handed across the guest boundary.  The tag channel embeds a
//! semantic-version string in a named custom section of a compiled module and
//! extracts it again at inspection time.

pub mod api;
pub mod codec;
pub mod memory;
pub mod sections;
pub mod version;
pub mod wire;
