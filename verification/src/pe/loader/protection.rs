//! W^X protection of loaded kernel code sections through `EFI_MEMORY_ATTRIBUTE_PROTOCOL`.
//!
//! The library picks the sections to protect, computes the page-rounded region of each,
//! and drives the sequence of attribute calls; the firmware-side code performs each call
//! and reports whether it succeeded.

use vstd::prelude::*;

use crate::pe::kernel::{Image, SectionHeader};

verus! {

/// `IMAGE_SCN_CNT_CODE`: the section contains executable code.
pub const IMAGE_SCN_CNT_CODE: u32 = 0x0000_0020;

/// `IMAGE_SCN_MEM_EXECUTE`: the section can be executed as code.
pub const IMAGE_SCN_MEM_EXECUTE: u32 = 0x2000_0000;

/// `EFI_MEMORY_RO` attribute bit.
pub const EFI_MEMORY_RO: u64 = 0x0002_0000;

/// `EFI_MEMORY_XP` attribute bit.
pub const EFI_MEMORY_XP: u64 = 0x0000_4000;

/// Converts a pointer-sized address to `u64` (`u64::try_from(value).ok()`); every `usize`
/// fits.
pub fn usize_to_u64(value: usize) -> (r: Option<u64>)
    ensures
        r == Some(value as u64),
        r matches Some(v) ==> v == value,
{
    Some(value as u64)
}

/// `size` rounded up to a whole number of 4 KiB pages, or `None` on overflow.
pub open spec fn page_round_up(size: u64) -> Option<u64> {
    if size + 0xFFF > u64::MAX {
        None
    } else {
        Some(((size + 0xFFF) as u64) & !0xFFFu64)
    }
}

/// What happens to one section when W^X is applied.
#[derive(Clone, Copy, Debug, PartialEq, Eq)]
pub enum WxRegion {
    /// The section holds no code: it is left alone.
    NotCode,
    /// The section's address overflows: it is skipped with a warning.
    AddressOverflow,
    /// The section's rounded size overflows: it is skipped with a warning.
    SizeOverflow,
    /// The pages `[base, base + length)` are made read-only and executable.
    Protect { base: u64, length: u64 },
}

/// Whether a section with these characteristics holds code.
pub open spec fn is_code_section(characteristics: u32) -> bool {
    characteristics & (IMAGE_SCN_CNT_CODE | IMAGE_SCN_MEM_EXECUTE) != 0
}

/// The W^X treatment of section `s` of an image whose preferred base is `image_base`,
/// loaded at address `load_addr`.
pub open spec fn wx_region_spec(load_addr: u64, image_base: u64, s: SectionHeader) -> WxRegion {
    let offset = if s.virtual_address >= image_base {
        (s.virtual_address - image_base) as u64
    } else {
        0u64
    };
    if !is_code_section(s.characteristics) {
        WxRegion::NotCode
    } else if load_addr + offset > u64::MAX {
        WxRegion::AddressOverflow
    } else {
        match page_round_up(s.virtual_size as u64) {
            None => WxRegion::SizeOverflow,
            Some(length) => WxRegion::Protect { base: (load_addr + offset) as u64, length },
        }
    }
}

/// A protected region covers the whole section in whole pages: its length is a multiple of
/// 4 KiB, at least the section's virtual size, and less than one page more.
pub proof fn lemma_page_round_up(size: u32)
    ensures
        page_round_up(size as u64) matches Some(len) && len % 0x1000 == 0 && size <= len && len
            < size + 0x1000,
{
    let s = size as u64;
    assert(s + 0xFFF <= u64::MAX);
    let r = ((s + 0xFFF) as u64) & !0xFFFu64;
    assert(s <= 0xFFFF_FFFF ==> (((s + 0xFFF) as u64) & !0xFFFu64) % 0x1000 == 0
        && s <= ((s + 0xFFF) as u64) & !0xFFFu64 && ((s + 0xFFF) as u64) & !0xFFFu64 < s
        + 0x1000) by (bit_vector);
}

/// The offset of section `s` in an image whose preferred base is `image_base`; a section
/// below the base is taken to start at the base.
pub open spec fn section_offset(image_base: u64, s: SectionHeader) -> int {
    if s.virtual_address >= image_base {
        s.virtual_address - image_base
    } else {
        0
    }
}

/// Only code sections are protected, and every code section whose address fits is: a
/// section with neither `IMAGE_SCN_CNT_CODE` (0x20) nor `IMAGE_SCN_MEM_EXECUTE`
/// (0x2000_0000) set is left alone; a section with either set is made read-only and
/// executable over its virtual size rounded up to whole pages, at the load address plus its
/// offset in the image, unless that address overflows.
pub proof fn lemma_wx_region_code_only(load_addr: u64, image_base: u64, s: SectionHeader)
    ensures
        s.characteristics & 0x2000_0020u32 == 0 ==> wx_region_spec(load_addr, image_base, s)
            == WxRegion::NotCode,
        s.characteristics & 0x2000_0020u32 != 0 && load_addr + section_offset(image_base, s)
            > u64::MAX ==> wx_region_spec(load_addr, image_base, s) == WxRegion::AddressOverflow,
        s.characteristics & 0x2000_0020u32 != 0 && load_addr + section_offset(image_base, s)
            <= u64::MAX ==> wx_region_spec(load_addr, image_base, s) == (WxRegion::Protect {
            base: (load_addr + section_offset(image_base, s)) as u64,
            length: ((s.virtual_size + 0xFFF) / 0x1000 * 0x1000) as u64,
        }),
{
    let c = s.characteristics;
    assert(c & (0x20u32 | 0x2000_0000u32) == c & 0x2000_0020u32) by (bit_vector);
    let v = s.virtual_size as u64;
    assert(v <= 0xFFFF_FFFF ==> ((v + 0xFFF) as u64) & !0xFFFu64 == (v + 0xFFF) / 0x1000
        * 0x1000) by (bit_vector);
}

/// Decides the W^X treatment of one section of `kernel`, loaded at `load_addr`.
pub fn wx_region(kernel: &Image, load_addr: usize, s: &SectionHeader) -> (r: WxRegion)
    ensures
        r == wx_region_spec(load_addr as u64, kernel.base_address, *s),
        r matches WxRegion::Protect { base, length } ==> length % 0x1000 == 0 && s.virtual_size
            <= length < s.virtual_size + 0x1000,
        s.characteristics & 0x2000_0020u32 == 0 ==> r == WxRegion::NotCode,
        r is Protect ==> s.characteristics & 0x2000_0020u32 != 0,
        s.characteristics & 0x2000_0020u32 != 0 && load_addr + section_offset(
            kernel.base_address,
            *s,
        ) <= u64::MAX ==> r == (WxRegion::Protect {
            base: (load_addr + section_offset(kernel.base_address, *s)) as u64,
            length: ((s.virtual_size + 0xFFF) / 0x1000 * 0x1000) as u64,
        }),
{
    proof {
        lemma_page_round_up(s.virtual_size);
        lemma_wx_region_code_only(load_addr as u64, kernel.base_address, *s);
    }
    let chars = s.characteristics;
    if chars & (IMAGE_SCN_CNT_CODE | IMAGE_SCN_MEM_EXECUTE) == 0 {
        return WxRegion::NotCode;
    }
    let virt_addr = s.virtual_address as u64;
    let virt_size = s.virtual_size as u64;
    let dest_offset = if virt_addr >= kernel.base_address {
        virt_addr - kernel.base_address
    } else {
        0
    };
    let section_base = match usize_to_u64(load_addr) {
        Some(base_addr) => {
            if base_addr > u64::MAX - dest_offset {
                return WxRegion::AddressOverflow;
            }
            base_addr + dest_offset
        },
        None => return WxRegion::AddressOverflow,
    };
    if virt_size > u64::MAX - 0xFFF {
        return WxRegion::SizeOverflow;
    }
    let length = (virt_size + 0xFFF) & !0xFFFu64;
    WxRegion::Protect { base: section_base, length }
}

/// The treatment of every section of `kernel`, in section-table order.
pub fn wx_regions(kernel: &Image, load_addr: usize) -> (r: Vec<WxRegion>)
    ensures
        r@.len() == kernel.sections@.len(),
        forall|i: int|
            0 <= i < r@.len() ==> #[trigger] r@[i] == wx_region_spec(
                load_addr as u64,
                kernel.base_address,
                kernel.sections@[i],
            ),
{
    let mut regions: Vec<WxRegion> = Vec::new();
    let mut i: usize = 0;
    while i < kernel.sections.len()
        invariant
            i <= kernel.sections@.len(),
            regions@.len() == i,
            forall|j: int|
                0 <= j < i ==> #[trigger] regions@[j] == wx_region_spec(
                    load_addr as u64,
                    kernel.base_address,
                    kernel.sections@[j],
                ),
        decreases kernel.sections@.len() - i,
    {
        let region = wx_region(kernel, load_addr, &kernel.sections[i]);
        regions.push(region);
        i = i + 1;
    }
    regions
}

/// One step of protecting a region: the attribute call to make next, or the outcome.
#[derive(Clone, Copy, Debug, PartialEq, Eq)]
pub enum WxStep {
    /// Call `SetMemoryAttributes` with the given attribute bits.
    SetAttributes { attributes: u64 },
    /// Call `ClearMemoryAttributes` with the given attribute bits.
    ClearAttributes { attributes: u64 },
    /// Undo an earlier `SetAttributes` by calling `ClearMemoryAttributes` with the given bits.
    RollbackAttributes { attributes: u64 },
    /// The region is read-only and executable.
    Protected,
    /// Setting read-only failed; nothing was changed.
    SetFailed,
    /// Clearing execute-protect failed after read-only was set; the read-only attribute was
    /// rolled back, successfully or not.
    ClearFailed { rollback_succeeded: bool },
}

impl WxStep {
    /// Whether no further call is to be made.
    pub open spec fn is_final(self) -> bool {
        !(self is SetAttributes || self is ClearAttributes || self is RollbackAttributes)
    }
}

/// The first call of the sequence: make the region read-only.
pub fn wx_start() -> (r: WxStep)
    ensures
        r == (WxStep::SetAttributes { attributes: EFI_MEMORY_RO }),
{
    WxStep::SetAttributes { attributes: EFI_MEMORY_RO }
}

/// The step that follows `step` once its call has returned with success or failure.
pub open spec fn wx_next_spec(step: WxStep, succeeded: bool) -> WxStep {
    match step {
        WxStep::SetAttributes { .. } => if succeeded {
            WxStep::ClearAttributes { attributes: EFI_MEMORY_XP }
        } else {
            WxStep::SetFailed
        },
        WxStep::ClearAttributes { .. } => if succeeded {
            WxStep::Protected
        } else {
            WxStep::RollbackAttributes { attributes: EFI_MEMORY_RO }
        },
        WxStep::RollbackAttributes { .. } => WxStep::ClearFailed { rollback_succeeded: succeeded },
        _ => step,
    }
}

/// Advances the W^X call sequence by the result of the call that `step` asked for.
pub fn wx_next(step: WxStep, succeeded: bool) -> (r: WxStep)
    requires
        !step.is_final(),
    ensures
        r == wx_next_spec(step, succeeded),
{
    match step {
        WxStep::SetAttributes { .. } => if succeeded {
            WxStep::ClearAttributes { attributes: EFI_MEMORY_XP }
        } else {
            WxStep::SetFailed
        },
        WxStep::ClearAttributes { .. } => if succeeded {
            WxStep::Protected
        } else {
            WxStep::RollbackAttributes { attributes: EFI_MEMORY_RO }
        },
        WxStep::RollbackAttributes { .. } => WxStep::ClearFailed { rollback_succeeded: succeeded },
        _ => step,
    }
}

/// The call sequence always ends within three calls, and it never leaves the region
/// read-only with execute-protect still set without trying to undo it: after setting
/// read-only succeeds and clearing execute-protect fails, the next call rolls read-only back.
pub proof fn lemma_wx_sequence(a: bool, b: bool, c: bool)
    ensures
        ({
            let s1 = wx_next_spec(WxStep::SetAttributes { attributes: EFI_MEMORY_RO }, a);
            let s2 = wx_next_spec(s1, b);
            let s3 = wx_next_spec(s2, c);
            &&& s1.is_final() || s2.is_final() || s3.is_final()
            &&& (a && !b) ==> s2 == WxStep::RollbackAttributes { attributes: EFI_MEMORY_RO }
            &&& s3.is_final()
            &&& (s3 == WxStep::Protected) <==> (a && b)
        }),
{
}

} // verus!
