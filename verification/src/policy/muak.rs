//! Boot policy of the Muak distribution: prefer TPM-sealed keys, and fall back to the
//! LUKS key file on the ESP.

use vstd::prelude::*;
use vstd::slice::slice_to_vec;

use crate::luks::{inject_outcome, key_present, try_inject, LuksError};

verus! {

/// Prefer TPM-sealed keys; when no TPM2 is available, append the LUKS key read from the
/// ESP `luks` file to the kernel command line.
///
/// `tpm_available` says whether a TPM2 is present; `luks_key` holds the contents of the
/// `luks` file, or `None` when there is none (it is only looked at without a TPM2).
pub fn cmdline(base: Option<&[u8]>, tpm_available: bool, luks_key: Option<&[u8]>) -> (r: Result<
    Option<Vec<u8>>,
    LuksError,
>)
    ensures
        (tpm_available || !key_present(luks_key)) ==> match base {
            Some(b) => r matches Ok(Some(copy)) && copy@ == b@,
            None => r matches Ok(None),
        },
        (!tpm_available && key_present(luks_key)) ==> inject_outcome(base, luks_key, r),
{
    if !tpm_available {
        match try_inject(base, luks_key) {
            Ok(Some(combined)) => return Ok(Some(combined)),
            Ok(None) => {},
            Err(e) => return Err(e),
        }
    }
    match base {
        Some(b) => Ok(Some(slice_to_vec(b))),
        None => Ok(None),
    }
}

} // verus!
