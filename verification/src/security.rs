//! Security-related EFI variable checks.
//!
//! The firmware-side code reads the one-byte variables `SetupMode` and `SecureBoot` from
//! the global vendor namespace; the library decides what the value read means.

use vstd::prelude::*;

verus! {

/// A boolean EFI variable is set when it could be read and its first byte is 1.
pub open spec fn bool_variable_set(value: Option<&[u8]>) -> bool {
    value matches Some(bytes) && bytes@.len() > 0 && bytes@[0] == 1
}

/// Interprets the value read from a one-byte boolean EFI variable (`None` when the
/// variable could not be read).
pub fn read_bool_variable(value: Option<&[u8]>) -> (r: bool)
    ensures
        r == bool_variable_set(value),
{
    match value {
        Some(bytes) => bytes.len() > 0 && bytes[0] == 1,
        None => false,
    }
}

/// Returns whether the system is in UEFI Setup Mode, given the value read from the
/// `SetupMode` variable.
pub fn is_setup_mode(setup_mode: Option<&[u8]>) -> (r: bool)
    ensures
        r == bool_variable_set(setup_mode),
{
    read_bool_variable(setup_mode)
}

/// Returns whether Secure Boot is enabled, given the value read from the `SecureBoot`
/// variable.
pub fn is_secure_boot_enabled(secure_boot: Option<&[u8]>) -> (r: bool)
    ensures
        r == bool_variable_set(secure_boot),
{
    read_bool_variable(secure_boot)
}

} // verus!
