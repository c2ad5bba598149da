//! Vanity search for TON wallet addresses.
//!
//! The library derives a 32-byte seed from a 64-bit index, turns it into an
//! ed25519 key pair, encodes the wallet address of the public key, and scans
//! a half-open index range for an address that starts with a caller-supplied
//! pattern.  The range is split into randomly sized, shuffled chunks so that
//! a parallel driver can spread the work evenly across threads.

pub mod checksum;
pub mod encoding;
pub mod keys;
pub mod address;
pub mod planner;
pub mod search;
pub mod export;
