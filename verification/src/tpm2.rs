//! TPM2 PCR measurements of UKI sections.
//!
//! A section is measured into PCR 11 as two `EV_IPL` events, both described by the section
//! name: first the name with a terminating NUL, then the section contents. The firmware-side
//! code opens the EFI TCG2 protocol and extends the PCR with what the library prepares.

use vstd::prelude::*;
use vstd::string::StringSliceAdditionalSpecFns;

verus! {

/// The PCR that UKI sections are measured into.
pub const PCR_INDEX: u32 = 11;

/// Prefix of an `EFI_TCG2_EVENT`: `u32` size field + 14-byte `EFI_TCG2_EVENT_HEADER`.
pub const PCR_EVENT_PREFIX_LEN: usize = 18;

/// Size of the `EFI_TCG2_EVENT` buffer for an event with this description, or `None` when
/// it overflows a `usize`.
pub fn pcr_event_size(description: &[u8]) -> (r: Option<usize>)
    ensures
        PCR_EVENT_PREFIX_LEN + description@.len() <= usize::MAX ==> r == Some(
            (PCR_EVENT_PREFIX_LEN + description@.len()) as usize,
        ),
        PCR_EVENT_PREFIX_LEN + description@.len() > usize::MAX ==> r is None,
{
    if description.len() > usize::MAX - PCR_EVENT_PREFIX_LEN {
        None
    } else {
        Some(PCR_EVENT_PREFIX_LEN + description.len())
    }
}

/// The first measured payload of a section: its name's UTF-8 bytes and a NUL.
pub fn section_name_payload(name: &str) -> (r: Vec<u8>)
    ensures
        r@ == name.spec_bytes().push(0u8),
{
    let bytes = name.as_bytes();
    let mut payload: Vec<u8> = Vec::new();
    let mut i: usize = 0;
    while i < bytes.len()
        invariant
            i <= bytes@.len(),
            payload@ == bytes@.subrange(0, i as int),
        decreases bytes@.len() - i,
    {
        payload.push(bytes[i]);
        i = i + 1;
        assert(payload@ =~= bytes@.subrange(0, i as int));
    }
    payload.push(0u8);
    assert(payload@ =~= bytes@.push(0u8));
    payload
}

/// The bytes that one measurement hashes.
#[derive(Debug)]
pub enum MeasuredData<'a> {
    /// The section name followed by a NUL.
    NameWithNul(Vec<u8>),
    /// The section contents.
    Contents(&'a [u8]),
}

/// One `EV_IPL` event to extend a PCR with: the PCR, the event description and the data
/// to hash.
#[derive(Debug)]
pub struct PcrMeasurement<'a> {
    pub pcr_index: u32,
    pub description: &'a [u8],
    pub data: MeasuredData<'a>,
}

/// The measurements of a UKI section, in the order they are made: first the section name
/// with a terminating NUL, then the section contents, both into PCR 11 and both described
/// by the section name.
pub fn section_measurements<'a>(name: &'a str, data: &'a [u8]) -> (r: Vec<PcrMeasurement<'a>>)
    ensures
        r@.len() == 2,
        r@[0].pcr_index == PCR_INDEX,
        r@[0].description@ == name.spec_bytes(),
        r@[0].data matches MeasuredData::NameWithNul(bytes) && bytes@ == name.spec_bytes().push(
            0u8,
        ),
        r@[1].pcr_index == PCR_INDEX,
        r@[1].description@ == name.spec_bytes(),
        r@[1].data matches MeasuredData::Contents(contents) && contents@ == data@,
{
    let description = name.as_bytes();
    let mut plan: Vec<PcrMeasurement<'a>> = Vec::new();
    plan.push(
        PcrMeasurement {
            pcr_index: PCR_INDEX,
            description,
            data: MeasuredData::NameWithNul(section_name_payload(name)),
        },
    );
    plan.push(
        PcrMeasurement { pcr_index: PCR_INDEX, description, data: MeasuredData::Contents(data) },
    );
    plan
}

} // verus!
