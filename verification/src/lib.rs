//! Derive stable, application-specific 128-bit identifiers from a host's
//! machine id.
//!
//! The machine id stored at `/etc/machine-id` should be treated as
//! confidential. Instead of handing it out, this library combines it with a
//! caller-supplied application id through HMAC-SHA256 and reshapes the first
//! 16 bytes of the digest into a well-formed version-4, DCE-variant
//! identifier. The same (machine id, application id) pair always yields the
//! same derived identifier, and the derived identifier does not reveal the
//! machine id.
//!
//! Reading the machine-id file is the caller's concern: the functions here
//! take the file's contents as bytes and do everything after the read.

pub mod derivation;
pub mod error;
pub mod id128;
