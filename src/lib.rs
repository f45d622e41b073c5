//! Identity keys, canonical signing and message boxes for a decentralized
//! social-network client.
//!
//! - `codec`: the tagged text forms of keys, signatures and hashes.
//! - `keys`: Ed25519 keypairs, their generation and signatures.
//! - `json`: structured records and the deterministic text that signatures cover.
//! - `signing`: detached signatures over bytes and records, optionally bound to a
//!   network key.
//! - `secretbox`: authenticated symmetric boxes.
//! - `sealed`: boxes for several recipients at once.
//! - `keyfile`: the decisions around the key file; the file system is the caller's.

pub mod bytes;
pub mod codec;
pub mod keys;
pub mod json;
pub mod signing;
pub mod secretbox;
pub mod sealed;
pub mod keyfile;
