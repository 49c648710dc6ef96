//! Search a byte buffer for the first occurrence of any byte out of a small set.
//!
//! A [`Bytes`] value packs up to sixteen needle bytes into a 128-bit shift
//! register. The register can be searched directly, sixteen haystack bytes at
//! a time, or through a [`BytesWithFallback`], which pairs the register with a
//! scalar predicate and scans the haystack byte by byte.

pub mod bytes;
pub mod lanes;
pub mod search;

pub use bytes::{Bytes, BytesWithFallback};
pub use lanes::MAX_BYTES;
