//! Placement of PE sections in the memory allocated for a kernel image.
//!
//! The library decides, section by section, which bytes of the kernel file are copied to
//! which offset of the image and which tail is zero-filled; the firmware-side code
//! allocates the pages and performs exactly these copies and fills.

use vstd::prelude::*;

use crate::pe::kernel::{Image, SectionHeader};

verus! {

/// Size of a UEFI page.
pub const PAGE_SIZE: usize = 0x1000;

/// The number of pages that hold an image of `image_size` bytes.
pub open spec fn pages_for(image_size: int) -> int {
    (image_size + PAGE_SIZE - 1) / PAGE_SIZE as int
}

/// Number of pages to allocate for the kernel image (`size.div_ceil(0x1000)`).
pub fn page_count(kernel: &Image) -> (r: usize)
    ensures
        r == pages_for(kernel.size as int),
        r * PAGE_SIZE >= kernel.size,
        (r as int - 1) * PAGE_SIZE < kernel.size,
{
    let size = kernel.size as u64;
    let pages = (size + 0xFFF) / 0x1000;
    proof {
        let s = size as int;
        assert(pages * 0x1000 >= s && (pages - 1) * 0x1000 < s) by (nonlinear_arith)
            requires
                pages == (s + 0xFFF) / 0x1000,
                s >= 0,
        ;
    }
    pages as usize
}

/// Where one section goes: `copy_size` bytes of the file starting at `raw_offset` are
/// copied to `dest_offset` in the image, and the following `zero_size` bytes of the
/// image are zero-filled.
#[derive(Clone, Copy, Debug, PartialEq, Eq)]
pub struct SectionMapping {
    pub raw_offset: usize,
    pub dest_offset: usize,
    pub copy_size: usize,
    pub zero_size: usize,
}

/// Why a section cannot be mapped.
#[derive(Clone, Copy, Debug)]
pub enum MapError {
    /// The section's `VirtualAddress` lies below the image base.
    SectionBelowImageBase { name: [u8; 8] },
    /// The section's offset in the image does not fit in a `usize`.
    SectionOffsetTooLarge { name: [u8; 8] },
    /// The end of the section in the image overflows a `usize`.
    SectionBoundsOverflow { name: [u8; 8] },
    /// The section would write outside the allocated image.
    SectionOutsideImage { name: [u8; 8], dest_offset: usize, virt_size: usize, image_size: u32 },
    /// The end of the section's raw data overflows a `usize`.
    RawBoundsOverflow { name: [u8; 8] },
    /// The section's raw data lies outside the kernel file.
    RawDataOutOfBounds { name: [u8; 8], raw_offset: usize, copy_size: usize, data_len: usize },
}

impl MapError {
    /// A one-line description of the error.
    pub fn message(&self) -> (r: &'static str)
        ensures
            self is SectionBelowImageBase ==> r@ == "section VirtualAddress < ImageBase"@,
            self is SectionOffsetTooLarge ==> r@ == "section offset exceeds usize"@,
            self is SectionBoundsOverflow ==> r@ == "section virtual bounds overflow"@,
            self is SectionOutsideImage ==> r@ == "section would write outside allocated memory"@,
            self is RawBoundsOverflow ==> r@ == "section raw bounds overflow"@,
            self is RawDataOutOfBounds ==> r@ == "section raw data out of bounds"@,
    {
        match self {
            MapError::SectionBelowImageBase { .. } => "section VirtualAddress < ImageBase",
            MapError::SectionOffsetTooLarge { .. } => "section offset exceeds usize",
            MapError::SectionBoundsOverflow { .. } => "section virtual bounds overflow",
            MapError::SectionOutsideImage { .. } => "section would write outside allocated memory",
            MapError::RawBoundsOverflow { .. } => "section raw bounds overflow",
            MapError::RawDataOutOfBounds { .. } => "section raw data out of bounds",
        }
    }
}

/// The placement of section `s` of a kernel file of `data_len` bytes whose image of
/// `image_size` bytes is based at `base`, or the first check it fails.
pub open spec fn section_mapping(
    data_len: int,
    base: u64,
    image_size: u32,
    s: SectionHeader,
) -> Result<SectionMapping, MapError> {
    let virt_size = s.virtual_size as int;
    let raw_offset = s.pointer_to_raw_data as int;
    let copy_size = if s.size_of_raw_data <= s.virtual_size {
        s.size_of_raw_data as int
    } else {
        virt_size
    };
    let dest_offset = s.virtual_address - base;
    if dest_offset < 0 {
        Err(MapError::SectionBelowImageBase { name: s.name })
    } else if dest_offset > usize::MAX {
        Err(MapError::SectionOffsetTooLarge { name: s.name })
    } else if dest_offset + virt_size > usize::MAX {
        Err(MapError::SectionBoundsOverflow { name: s.name })
    } else if dest_offset + virt_size > image_size {
        Err(
            MapError::SectionOutsideImage {
                name: s.name,
                dest_offset: dest_offset as usize,
                virt_size: virt_size as usize,
                image_size,
            },
        )
    } else if copy_size != 0 && raw_offset + copy_size > usize::MAX {
        Err(MapError::RawBoundsOverflow { name: s.name })
    } else if copy_size != 0 && raw_offset + copy_size > data_len {
        Err(
            MapError::RawDataOutOfBounds {
                name: s.name,
                raw_offset: raw_offset as usize,
                copy_size: copy_size as usize,
                data_len: data_len as usize,
            },
        )
    } else {
        Ok(
            SectionMapping {
                raw_offset: raw_offset as usize,
                dest_offset: dest_offset as usize,
                copy_size: copy_size as usize,
                zero_size: (virt_size - copy_size) as usize,
            },
        )
    }
}

/// A mapping stays inside both buffers: it reads only bytes of the kernel file and writes
/// only bytes of the allocated image.
pub open spec fn mapping_in_bounds(m: SectionMapping, data_len: int, image_size: int) -> bool {
    &&& m.copy_size == 0 || m.raw_offset + m.copy_size <= data_len
    &&& m.dest_offset + m.copy_size + m.zero_size <= image_size
}

/// Every placement that the checks accept stays inside the kernel file and the image.
pub proof fn lemma_section_mapping_in_bounds(
    data_len: int,
    base: u64,
    image_size: u32,
    s: SectionHeader,
)
    ensures
        section_mapping(data_len, base, image_size, s) matches Ok(m) ==> mapping_in_bounds(
            m,
            data_len,
            image_size as int,
        ),
{
}

/// What the checks protect: a placement that fits in the image also fits in the pages
/// allocated for it.
pub proof fn lemma_mapping_within_pages(m: SectionMapping, data_len: int, image_size: u32)
    requires
        mapping_in_bounds(m, data_len, image_size as int),
    ensures
        m.dest_offset + m.copy_size + m.zero_size <= pages_for(image_size as int) * PAGE_SIZE,
{
    let s = image_size as int;
    let p = pages_for(s);
    assert(p * 0x1000 >= s) by (nonlinear_arith)
        requires
            p == (s + 0xFFF) / 0x1000,
            s >= 0,
    ;
}

/// The number of raw bytes of section `s` that are copied: the smaller of its raw size and
/// its virtual size.
pub open spec fn copied_len(s: SectionHeader) -> int {
    if s.size_of_raw_data <= s.virtual_size {
        s.size_of_raw_data as int
    } else {
        s.virtual_size as int
    }
}

/// Placement is complete: a section that starts at or above the image base, ends inside the
/// image, and whose copied raw bytes lie inside the file is placed, with its raw data copied
/// to `VirtualAddress - base` and the rest of its virtual size zero-filled.
pub proof fn lemma_section_mapping_complete(
    data_len: int,
    base: u64,
    image_size: u32,
    s: SectionHeader,
)
    requires
        0 <= data_len <= usize::MAX,
        s.virtual_address >= base,
        s.virtual_address - base + s.virtual_size <= image_size,
        copied_len(s) == 0 || s.pointer_to_raw_data + copied_len(s) <= data_len,
    ensures
        section_mapping(data_len, base, image_size, s) == Ok::<SectionMapping, MapError>(
            SectionMapping {
                raw_offset: s.pointer_to_raw_data as usize,
                dest_offset: (s.virtual_address - base) as usize,
                copy_size: copied_len(s) as usize,
                zero_size: (s.virtual_size - copied_len(s)) as usize,
            },
        ),
{
}

/// Placement is sound: a placed section starts at or above the image base and ends inside
/// the image, its copied raw bytes lie inside the file, and the placement copies the
/// smaller of the raw and virtual sizes and zero-fills the rest of the virtual size.
pub proof fn lemma_section_mapping_sound(data_len: int, base: u64, image_size: u32, s: SectionHeader)
    ensures
        section_mapping(data_len, base, image_size, s) matches Ok(m) ==> {
            &&& s.virtual_address >= base
            &&& s.virtual_address - base + s.virtual_size <= image_size
            &&& copied_len(s) == 0 || s.pointer_to_raw_data + copied_len(s) <= data_len
            &&& m.raw_offset == s.pointer_to_raw_data
            &&& m.dest_offset == s.virtual_address - base
            &&& m.copy_size == copied_len(s)
            &&& m.copy_size + m.zero_size == s.virtual_size
        },
{
}

/// Computes the placement of one section, as `map_sections` checks it before copying.
pub fn map_section(data_len: usize, base: u64, image_size: u32, s: &SectionHeader) -> (r: Result<
    SectionMapping,
    MapError,
>)
    ensures
        r == section_mapping(data_len as int, base, image_size, *s),
        ({
            let copy = if s.size_of_raw_data <= s.virtual_size {
                s.size_of_raw_data as int
            } else {
                s.virtual_size as int
            };
            let fits = s.virtual_address >= base && s.virtual_address - base + s.virtual_size
                <= image_size && (copy == 0 || s.pointer_to_raw_data + copy <= data_len);
            &&& fits ==> r == Ok::<SectionMapping, MapError>(
                SectionMapping {
                    raw_offset: s.pointer_to_raw_data as usize,
                    dest_offset: (s.virtual_address - base) as usize,
                    copy_size: copy as usize,
                    zero_size: (s.virtual_size - copy) as usize,
                },
            )
            &&& !fits ==> r is Err
            &&& s.virtual_address < base ==> r matches Err(MapError::SectionBelowImageBase { .. })
        }),
{
    proof {
        if s.virtual_address >= base && s.virtual_address - base + s.virtual_size <= image_size
            && (copied_len(*s) == 0 || s.pointer_to_raw_data + copied_len(*s) <= data_len) {
            lemma_section_mapping_complete(data_len as int, base, image_size, *s);
        }
        lemma_section_mapping_sound(data_len as int, base, image_size, *s);
    }
    let raw_size = s.size_of_raw_data as usize;
    let raw_offset = s.pointer_to_raw_data as usize;
    let virt_addr = s.virtual_address as u64;
    let virt_size = s.virtual_size as usize;
    if virt_addr < base {
        return Err(MapError::SectionBelowImageBase { name: s.name });
    }
    let dest_offset_u64 = virt_addr - base;
    if dest_offset_u64 > usize::MAX as u64 {
        return Err(MapError::SectionOffsetTooLarge { name: s.name });
    }
    let dest_offset = dest_offset_u64 as usize;
    if dest_offset > usize::MAX - virt_size {
        return Err(MapError::SectionBoundsOverflow { name: s.name });
    }
    let dest_end = dest_offset + virt_size;
    if dest_end > image_size as usize {
        return Err(
            MapError::SectionOutsideImage { name: s.name, dest_offset, virt_size, image_size },
        );
    }
    let copy_size = if raw_size <= virt_size {
        raw_size
    } else {
        virt_size
    };
    if copy_size != 0 {
        if raw_offset > usize::MAX - copy_size {
            return Err(MapError::RawBoundsOverflow { name: s.name });
        }
        if raw_offset + copy_size > data_len {
            return Err(
                MapError::RawDataOutOfBounds { name: s.name, raw_offset, copy_size, data_len },
            );
        }
    }
    Ok(SectionMapping { raw_offset, dest_offset, copy_size, zero_size: virt_size - copy_size })
}

/// Computes where every section of the kernel goes, in section-table order, stopping at the
/// first section that cannot be placed.
pub fn map_sections(kernel: &Image) -> (r: Result<Vec<SectionMapping>, MapError>)
    ensures
        match r {
            Ok(mappings) => {
                &&& mappings@.len() == kernel.sections@.len()
                &&& forall|i: int|
                    0 <= i < mappings@.len() ==> Ok::<SectionMapping, MapError>(#[trigger] mappings@[i]) == section_mapping(
                        kernel.data@.len() as int,
                        kernel.base_address,
                        kernel.size,
                        kernel.sections@[i],
                    )
                &&& forall|i: int|
                    0 <= i < mappings@.len() ==> mapping_in_bounds(
                        #[trigger] mappings@[i],
                        kernel.data@.len() as int,
                        kernel.size as int,
                    )
            },
            Err(e) => exists|i: int|
                0 <= i < kernel.sections@.len() && (forall|j: int|
                    0 <= j < i ==> (#[trigger] section_mapping(
                        kernel.data@.len() as int,
                        kernel.base_address,
                        kernel.size,
                        kernel.sections@[j],
                    )) is Ok) && section_mapping(
                    kernel.data@.len() as int,
                    kernel.base_address,
                    kernel.size,
                    kernel.sections@[i],
                ) == Err::<SectionMapping, MapError>(e),
        },
{
    let data_len = kernel.data.len();
    let mut mappings: Vec<SectionMapping> = Vec::new();
    let mut i: usize = 0;
    while i < kernel.sections.len()
        invariant
            data_len == kernel.data@.len(),
            i <= kernel.sections@.len(),
            mappings@.len() == i,
            forall|j: int|
                0 <= j < i ==> Ok::<SectionMapping, MapError>(#[trigger] mappings@[j]) == section_mapping(
                    data_len as int,
                    kernel.base_address,
                    kernel.size,
                    kernel.sections@[j],
                ),
            forall|j: int|
                0 <= j < i ==> mapping_in_bounds(
                    #[trigger] mappings@[j],
                    data_len as int,
                    kernel.size as int,
                ),
        decreases kernel.sections@.len() - i,
    {
        let m = map_section(data_len, kernel.base_address, kernel.size, &kernel.sections[i]);
        proof {
            lemma_section_mapping_in_bounds(
                data_len as int,
                kernel.base_address,
                kernel.size,
                kernel.sections@[i as int],
            );
        }
        match m {
            Ok(m) => {
                mappings.push(m);
            },
            Err(e) => {
                proof {
                    assert forall|j: int| 0 <= j < i implies (#[trigger] section_mapping(
                        data_len as int,
                        kernel.base_address,
                        kernel.size,
                        kernel.sections@[j],
                    )) is Ok by {
                        assert(Ok::<SectionMapping, MapError>(mappings@[j]) == section_mapping(
                            data_len as int,
                            kernel.base_address,
                            kernel.size,
                            kernel.sections@[j],
                        ));
                    }
                }
                return Err(e);
            },
        }
        i = i + 1;
    }
    Ok(mappings)
}

} // verus!
