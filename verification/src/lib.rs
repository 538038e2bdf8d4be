//! Core of a command-line signing operation against a remote key-management
//! service: selecting the digest algorithm mandated by a key's policy,
//! computing the digest, re-encoding raw elliptic-curve signatures into the
//! DER two-integer sequence form, and presenting the result as base64.
//!
//! The service calls themselves (key-attribute lookup and the remote signing
//! call) are performed by the surrounding program; this library holds every
//! decision and transformation between them.

pub mod algorithm;
pub mod asn1;
pub mod error;
pub mod hash;
pub mod sign;
