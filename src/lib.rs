//! Credential issuance and verification for an authentication gateway.
//!
//! The library holds the logic of the gateway: password hashing and checking,
//! signed session tokens, the interpretation of the user directory's replies,
//! and the registration and login flows built on them. Network transport and
//! the reading of process configuration are left to the caller.

pub mod encoding;
pub mod token;
pub mod hasher;
pub mod directory;
pub mod context;
pub mod gateway;
