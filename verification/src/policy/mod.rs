//! Boot policy seam: the final kernel command line to boot with.

pub mod muak;

use std::collections::TryReserveError;
use vstd::prelude::*;

verus! {

/// Calls `Vec::try_reserve_exact`: whether or not the reservation succeeds, the vector's
/// contents stay the same, and a request for no further room succeeds (std documents that
/// the call does nothing when the capacity already suffices). Whether any other request
/// succeeds depends on the allocator and is not stated.
#[verifier::external_body]
fn try_reserve_exact(v: &mut Vec<u8>, additional: usize) -> (r: Result<(), TryReserveError>)
    ensures
        final(v)@ == old(v)@,
        additional == 0 ==> r is Ok,
{
    v.try_reserve_exact(additional)
}

/// Why the command line copy failed.
#[derive(Debug)]
pub enum PolicyError {
    /// The copy of the command line could not be allocated.
    AllocationFailed(TryReserveError),
}

impl PolicyError {
    /// A one-line description of the error.
    pub fn message(&self) -> (r: &'static str)
        ensures
            r@ == "kernel command line allocation failed"@,
    {
        "kernel command line allocation failed"
    }
}

/// The command line copy once room for it has been requested: the allocation error when
/// the reservation failed, otherwise `copy` (empty on entry) filled with `base`.
pub fn finish_copy(
    base: &[u8],
    reservation: Result<(), TryReserveError>,
    copy: Vec<u8>,
) -> (r: Result<Option<Vec<u8>>, PolicyError>)
    requires
        copy@.len() == 0,
    ensures
        reservation is Err ==> r matches Err(PolicyError::AllocationFailed(_)),
        reservation is Ok ==> (r matches Ok(Some(c)) && c@ == base@),
{
    if let Err(e) = reservation {
        return Err(PolicyError::AllocationFailed(e));
    }
    let mut copy = copy;
    let mut i: usize = 0;
    while i < base.len()
        invariant
            i <= base@.len(),
            copy@ == base@.subrange(0, i as int),
        decreases base@.len() - i,
    {
        copy.push(base[i]);
        i = i + 1;
        assert(copy@ =~= base@.subrange(0, i as int));
    }
    assert(base@.subrange(0, i as int) =~= base@);
    Ok(Some(copy))
}

/// Returns the final kernel command line to boot with, given the UKI's embedded one.
///
/// The command line is copied into policy-owned memory: the result holds exactly the
/// embedded bytes, or an error when the allocator cannot provide room for the copy.
pub fn cmdline(base: Option<&[u8]>) -> (r: Result<Option<Vec<u8>>, PolicyError>)
    ensures
        base is None ==> r matches Ok(None),
        base matches Some(b) ==> (r matches Ok(Some(copy)) && copy@ == b@) || (r matches Err(
            PolicyError::AllocationFailed(_),
        )),
        (base matches Some(b) && b@.len() == 0) ==> (r matches Ok(Some(copy)) && copy@.len()
            == 0),
{
    let base = match base {
        Some(b) => b,
        None => return Ok(None),
    };
    let mut copy: Vec<u8> = Vec::new();
    let reservation = try_reserve_exact(&mut copy, base.len());
    finish_copy(base, reservation, copy)
}

} // verus!
