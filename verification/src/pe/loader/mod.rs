//! Direct PE kernel loader: the decisions taken while mapping and starting a kernel.

pub mod cmdline;
pub mod mapping;
pub mod protection;

use vstd::prelude::*;

use crate::pe::loader::protection::usize_to_u64;

verus! {

/// Why control cannot be handed to the kernel.
#[derive(Clone, Copy, Debug, PartialEq, Eq)]
pub enum StartError {
    /// The entry point address overflows a `u64`.
    EntryAddressOverflow,
    /// The entry point address does not fit in a `usize`.
    EntryAddressTooLarge,
}

impl StartError {
    /// A one-line description of the error.
    pub fn message(&self) -> (r: &'static str)
        ensures
            *self == StartError::EntryAddressOverflow ==> r@ == "kernel entry address overflow"@,
            *self == StartError::EntryAddressTooLarge ==> r@
                == "kernel entry address exceeds usize"@,
    {
        match self {
            StartError::EntryAddressOverflow => "kernel entry address overflow",
            StartError::EntryAddressTooLarge => "kernel entry address exceeds usize",
        }
    }
}

/// The address of the kernel entry point once the image is mapped at `load_addr`.
pub fn entry_address(load_addr: usize, entry_point_rva: u32) -> (r: Result<usize, StartError>)
    ensures
        load_addr + entry_point_rva > u64::MAX ==> r == Err::<usize, StartError>(
            StartError::EntryAddressOverflow,
        ),
        u64::MAX >= load_addr + entry_point_rva > usize::MAX ==> r == Err::<usize, StartError>(
            StartError::EntryAddressTooLarge,
        ),
        load_addr + entry_point_rva <= usize::MAX ==> r == Ok::<usize, StartError>(
            (load_addr + entry_point_rva) as usize,
        ),
{
    let base_addr = match usize_to_u64(load_addr) {
        Some(addr) => addr,
        None => return Err(StartError::EntryAddressTooLarge),
    };
    let rva = entry_point_rva as u64;
    if base_addr > u64::MAX - rva {
        return Err(StartError::EntryAddressOverflow);
    }
    let entry = base_addr + rva;
    if entry > usize::MAX as u64 {
        return Err(StartError::EntryAddressTooLarge);
    }
    Ok(entry as usize)
}

} // verus!
