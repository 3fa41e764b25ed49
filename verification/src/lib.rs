//! Verified core of a UEFI boot stub that loads a kernel out of a Unified Kernel Image.
//!
//! The library holds the stub's decisions and data transformations: kernel PE header
//! validation, section placement, W^X region planning, command-line encoding, LUKS key
//! injection, `LoadFile2` replies and TPM measurement planning. Firmware calls live in the
//! application crate, which hands the library plain values and performs what it returns.

pub mod loadfile2;
pub mod luks;
pub mod pe;
pub mod policy;
pub mod security;
pub mod tpm2;
