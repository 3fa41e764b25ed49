//! Kernel PE image parsing and validation.

use object::pe::{ImageDosHeader, ImageNtHeaders64, ImageSectionHeader, IMAGE_DIRECTORY_ENTRY_BASERELOC};
use object::read::pe::ImageNtHeaders as _;
use object::read::ReadRef as _;
use object::LittleEndian as LE;
use vstd::prelude::*;
use vstd::string::StringSliceAdditionalSpecFns;
use vstd::utf8::*;

use crate::pe::le::{le_u16, le_u32, le_u64};

verus! {

broadcast use vstd::utf8::is_char_boundary_start_end_of_seq;

/// `IMAGE_DLLCHARACTERISTICS_NX_COMPAT`.
pub const NX_COMPAT: u16 = 0x0100;

/// Minimum `MajorImageVersion`: it indicates `LINUX_INITRD_MEDIA_GUID` support.
pub const MIN_IMAGE_VERSION: u16 = 1;

/// Size in bytes of one entry of the PE section table.
pub const SECTION_HEADER_SIZE: u64 = 40;

#[verifier::external_type_specification]
#[verifier::external_body]
pub struct ExObjectError(object::read::Error);

/// The fields of a PE section header that the stub reads.
#[derive(Clone, Copy, Debug)]
pub struct SectionHeader {
    pub name: [u8; 8],
    pub virtual_size: u32,
    pub virtual_address: u32,
    pub size_of_raw_data: u32,
    pub pointer_to_raw_data: u32,
    pub pointer_to_relocations: u32,
    pub characteristics: u32,
}

impl Default for SectionHeader {
    /// An all-zero section header.
    fn default() -> (r: Self)
        ensures
            r.name@ == seq![0u8; 8],
            r.virtual_size == 0,
            r.virtual_address == 0,
            r.size_of_raw_data == 0,
            r.pointer_to_raw_data == 0,
            r.pointer_to_relocations == 0,
            r.characteristics == 0,
    {
        let r = SectionHeader {
            name: [0u8; 8],
            virtual_size: 0,
            virtual_address: 0,
            size_of_raw_data: 0,
            pointer_to_raw_data: 0,
            pointer_to_relocations: 0,
            characteristics: 0,
        };
        assert(r.name@ =~= seq![0u8; 8]);
        r
    }
}

/// `h` is the 40-byte PE section header stored at `base` in `s`.
pub open spec fn is_section_header_at(h: SectionHeader, s: Seq<u8>, base: int) -> bool {
    &&& h.name@ == s.subrange(base, base + 8)
    &&& h.virtual_size == le_u32(s, base + 8)
    &&& h.virtual_address == le_u32(s, base + 12)
    &&& h.size_of_raw_data == le_u32(s, base + 16)
    &&& h.pointer_to_raw_data == le_u32(s, base + 20)
    &&& h.pointer_to_relocations == le_u32(s, base + 24)
    &&& h.characteristics == le_u32(s, base + 36)
}

/// Whether a section table of `count` entries at `offset` lies within `s` (an empty table
/// always does).
pub open spec fn section_table_fits(s: Seq<u8>, count: u16, offset: u64) -> bool {
    count == 0 || offset + SECTION_HEADER_SIZE * count <= s.len()
}

/// The fields of the PE NT headers (signature, file header, 64-bit optional header and data
/// directories) that the stub reads.
#[derive(Clone, Copy, Debug)]
pub struct NtHeaders {
    pub entry_point_rva: u32,
    pub image_base: u64,
    pub size_of_image: u32,
    pub major_image_version: u16,
    pub dll_characteristics: u16,
    /// Size of the base relocation data directory, when the image has one with a non-zero
    /// virtual address.
    pub base_reloc_size: Option<u32>,
    pub number_of_sections: u16,
    /// File offset just past the optional header, where the section table starts.
    pub section_table_offset: u64,
}

/// Whether `object` accepts 64-bit NT headers at `offset` in `s`: the 136 bytes of the
/// signature, COFF file header and fixed optional header lie within `s`; the signature is
/// `PE\0\0` (0x4550) and the optional header magic is 0x20B; `SizeOfOptionalHeader` (at
/// `offset + 20`) is at least 112 and the rest of the optional header lies within `s`; and
/// the `NumberOfRvaAndSizes` (at `offset + 132`) data directories of 8 bytes each fit in
/// that rest.
pub open spec fn nt_headers_accepted(s: Seq<u8>, offset: int) -> bool {
    &&& offset + 136 <= s.len()
    &&& le_u32(s, offset) == 0x4550
    &&& le_u16(s, offset + 24) == 0x20B
    &&& le_u16(s, offset + 20) >= 112
    &&& offset + 136 + (le_u16(s, offset + 20) - 112) <= s.len()
    &&& 8 * le_u32(s, offset + 132) <= le_u16(s, offset + 20) - 112
}

/// The size of the base relocation data directory (entry 5 of the directories at
/// `offset + 136`), when the table has that entry and its virtual address is non-zero.
pub open spec fn base_reloc_dir_size(s: Seq<u8>, offset: int) -> Option<u32> {
    if 5 < le_u32(s, offset + 132) && le_u32(s, offset + 176) != 0 {
        Some(le_u32(s, offset + 180) as u32)
    } else {
        None
    }
}

/// The fields of the 64-bit NT headers at `offset` in `s`: the COFF file header is at
/// `offset + 4` and the optional header at `offset + 24`; the section table follows the
/// optional header.
pub open spec fn nt_headers_at(s: Seq<u8>, offset: int) -> NtHeaders {
    NtHeaders {
        entry_point_rva: le_u32(s, offset + 40) as u32,
        image_base: le_u64(s, offset + 48) as u64,
        size_of_image: le_u32(s, offset + 80) as u32,
        major_image_version: le_u16(s, offset + 68) as u16,
        dll_characteristics: le_u16(s, offset + 94) as u16,
        base_reloc_size: base_reloc_dir_size(s, offset),
        number_of_sections: le_u16(s, offset + 6) as u16,
        section_table_offset: (offset + 136 + le_u16(s, offset + 20) - 112) as u64,
    }
}

/// Calls `ImageDosHeader::parse` and `ImageDosHeader::nt_headers_offset` of `object`.
/// The DOS header is the first 64 bytes of the file; `object` accepts it when those bytes
/// exist and begin with the `MZ` magic (0x5A4D), and the NT headers offset is the
/// little-endian `e_lfanew` field at 0x3C.
#[verifier::external_body]
fn read_dos_header(data: &[u8]) -> (r: Result<u32, object::read::Error>)
    ensures
        r is Ok <==> (data@.len() >= 64 && le_u16(data@, 0) == 0x5A4D),
        r matches Ok(off) ==> off == le_u32(data@, 0x3C),
{
    ImageDosHeader::parse(data).map(|header| header.nt_headers_offset())
}

/// Calls `ImageNtHeaders64::parse` of `object` and reads the fields of `NtHeaders` from the
/// headers it returns, taking the base relocation directory from the `DataDirectories` it
/// returns (through `DataDirectories::get`, which yields entry 5 only when the table has
/// it and its virtual address is non-zero). `object` accepts the headers exactly when
/// `nt_headers_accepted` holds, and moves the offset just past the optional header; the
/// fields are the little-endian values at their fixed places in the headers.
#[verifier::external_body]
fn read_nt_headers(data: &[u8], offset: u64) -> (r: Result<NtHeaders, object::read::Error>)
    ensures
        r is Ok <==> nt_headers_accepted(data@, offset as int),
        r matches Ok(h) ==> h == nt_headers_at(data@, offset as int),
{
    let mut offset = offset;
    let (nt, dirs) = ImageNtHeaders64::parse(data, &mut offset)?;
    let opt = &nt.optional_header;
    Ok(NtHeaders {
        entry_point_rva: opt.address_of_entry_point.get(LE),
        image_base: opt.image_base.get(LE),
        size_of_image: opt.size_of_image.get(LE),
        major_image_version: opt.major_image_version.get(LE),
        dll_characteristics: opt.dll_characteristics.get(LE),
        base_reloc_size: dirs.get(IMAGE_DIRECTORY_ENTRY_BASERELOC).map(|dir| dir.size.get(LE)),
        number_of_sections: nt.file_header.number_of_sections.get(LE),
        section_table_offset: offset,
    })
}

/// Calls `ReadRef::read_slice_at::<ImageSectionHeader>` of `object` on the file bytes, which
/// is how `object` reads a PE section table: it yields `count` consecutive 40-byte headers
/// starting at `offset`, and fails when a non-empty table runs past the end of the data.
#[verifier::external_body]
fn read_section_table(data: &[u8], count: u16, offset: u64) -> (r: Option<Vec<SectionHeader>>)
    ensures
        r is Some <==> section_table_fits(data@, count, offset),
        r matches Some(v) ==> v@.len() == count && forall|k: int|
            0 <= k < count ==> is_section_header_at(
                #[trigger] v@[k],
                data@,
                offset + SECTION_HEADER_SIZE * k,
            ),
{
    let table: &[ImageSectionHeader] = data.read_slice_at(offset, usize::from(count)).ok()?;
    Some(table.iter().map(|s| SectionHeader {
        name: s.name,
        virtual_size: s.virtual_size.get(LE),
        virtual_address: s.virtual_address.get(LE),
        size_of_raw_data: s.size_of_raw_data.get(LE),
        pointer_to_raw_data: s.pointer_to_raw_data.get(LE),
        pointer_to_relocations: s.pointer_to_relocations.get(LE),
        characteristics: s.characteristics.get(LE),
    }).collect())
}

/// Why a kernel PE image is rejected.
#[derive(Debug)]
pub enum ImageError {
    InvalidDosHeader(object::read::Error),
    InvalidPeHeaders(object::read::Error),
    InvalidSectionTable,
    NoEntryPoint,
    ImageVersionTooLow { major_version: u16 },
    BaseRelocations { size: u32 },
    SectionRelocations { name: [u8; 8], pointer_to_relocations: u32 },
}

impl ImageError {
    /// A one-line description of the error.
    pub fn message(&self) -> (r: &'static str)
        ensures
            self is InvalidDosHeader ==> r@ == "invalid DOS header"@,
            self is InvalidPeHeaders ==> r@ == "invalid PE headers"@,
            self is InvalidSectionTable ==> r@ == "invalid section table"@,
            self is NoEntryPoint ==> r@ == "kernel PE has no entry point"@,
            self is ImageVersionTooLow ==> r@
                == "kernel PE MajorImageVersion is too low (LINUX_INITRD_MEDIA_GUID support required)"@,
            self is BaseRelocations ==> r@ == "kernel PE has base relocations, not supported"@,
            self is SectionRelocations ==> r@ == "kernel PE section has relocations"@,
    {
        match self {
            ImageError::InvalidDosHeader(_) => "invalid DOS header",
            ImageError::InvalidPeHeaders(_) => "invalid PE headers",
            ImageError::InvalidSectionTable => "invalid section table",
            ImageError::NoEntryPoint => "kernel PE has no entry point",
            ImageError::ImageVersionTooLow { .. } =>
                "kernel PE MajorImageVersion is too low (LINUX_INITRD_MEDIA_GUID support required)",
            ImageError::BaseRelocations { .. } => "kernel PE has base relocations, not supported",
            ImageError::SectionRelocations { .. } => "kernel PE section has relocations",
        }
    }
}

/// Index of the first section that carries COFF relocations, if any.
pub open spec fn first_relocated_section(sections: Seq<SectionHeader>) -> Option<int> {
    if exists|i: int| 0 <= i < sections.len() && sections[i].pointer_to_relocations != 0 {
        Some(
            choose|i: int|
                0 <= i < sections.len() && sections[i].pointer_to_relocations != 0 && forall|j: int|
                    0 <= j < i ==> sections[j].pointer_to_relocations == 0,
        )
    } else {
        None
    }
}

/// The size of the base relocation directory as the stub counts it (0 when absent).
pub open spec fn base_reloc_size(h: NtHeaders) -> u32 {
    match h.base_reloc_size {
        Some(size) => size,
        None => 0,
    }
}

/// The first rule, in the stub's order, that the headers break, or `None` when the kernel
/// is acceptable.
pub open spec fn header_violation(h: NtHeaders, sections: Seq<SectionHeader>) -> Option<ImageError> {
    if h.entry_point_rva == 0 {
        Some(ImageError::NoEntryPoint)
    } else if h.major_image_version < MIN_IMAGE_VERSION {
        Some(ImageError::ImageVersionTooLow { major_version: h.major_image_version })
    } else if base_reloc_size(h) != 0 {
        Some(ImageError::BaseRelocations { size: base_reloc_size(h) })
    } else {
        match first_relocated_section(sections) {
            Some(i) => Some(
                ImageError::SectionRelocations {
                    name: sections[i].name,
                    pointer_to_relocations: sections[i].pointer_to_relocations,
                },
            ),
            None => None,
        }
    }
}

/// The kernel acceptance rules, stated on the headers themselves: the headers break no rule
/// exactly when the entry point is non-zero, `MajorImageVersion` is at least 1, the base
/// relocation directory is absent or empty, and no section carries COFF relocations; and
/// the first three rules, checked in that order, give their own errors.
pub proof fn lemma_header_violation_exact(h: NtHeaders, sections: Seq<SectionHeader>)
    ensures
        (header_violation(h, sections) is None) <==> (h.entry_point_rva != 0
            && h.major_image_version >= 1 && (h.base_reloc_size is None || h.base_reloc_size
            == Some(0u32)) && (forall|k: int|
            0 <= k < sections.len() ==> (#[trigger] sections[k]).pointer_to_relocations == 0)),
        h.entry_point_rva == 0 ==> header_violation(h, sections) == Some(ImageError::NoEntryPoint),
        (h.entry_point_rva != 0 && h.major_image_version < 1) ==> header_violation(h, sections)
            == Some(ImageError::ImageVersionTooLow { major_version: h.major_image_version }),
        (h.entry_point_rva != 0 && h.major_image_version >= 1 && (h.base_reloc_size matches Some(
            size,
        ) && size != 0)) ==> header_violation(h, sections) == Some(
            ImageError::BaseRelocations { size: h.base_reloc_size->0 },
        ),
{
    if exists|i: int| 0 <= i < sections.len() && sections[i].pointer_to_relocations != 0 {
        assert(first_relocated_section(sections) is Some);
    }
}

/// The `PointerToRelocations` field of entry `k` of a section table at `table_offset` in `s`.
pub open spec fn section_relocations_at(s: Seq<u8>, table_offset: int, k: int) -> int {
    le_u32(s, table_offset + SECTION_HEADER_SIZE * k + 24)
}

/// Whether the kernel file `s`, whose NT headers the DOS header places at `nt_offset`, meets
/// every acceptance rule, read from its bytes: the entry point (at `nt_offset + 40`) is
/// non-zero, `MajorImageVersion` (at `nt_offset + 68`) is at least 1, the base relocation
/// directory is absent or of size 0, and every section's `PointerToRelocations` is 0.
pub open spec fn kernel_rules_hold(s: Seq<u8>, nt_offset: int) -> bool {
    let h = nt_headers_at(s, nt_offset);
    &&& le_u32(s, nt_offset + 40) != 0
    &&& le_u16(s, nt_offset + 68) >= 1
    &&& !(5 < le_u32(s, nt_offset + 132) && le_u32(s, nt_offset + 176) != 0 && le_u32(
        s,
        nt_offset + 180,
    ) != 0)
    &&& forall|k: int|
        0 <= k < h.number_of_sections ==> #[trigger] section_relocations_at(
            s,
            h.section_table_offset as int,
            k,
        ) == 0
}

/// Parsed inner kernel PE metadata.
#[derive(Debug)]
pub struct Image<'a> {
    pub data: &'a [u8],
    pub entry_point_rva: u32,
    pub base_address: u64,
    pub size: u32,
    pub nx_compat: bool,
    pub sections: Vec<SectionHeader>,
}

impl<'a> Image<'a> {
    /// What every accepted kernel satisfies: it has an entry point and no section carries
    /// COFF relocations.
    pub open spec fn wf(&self) -> bool {
        &&& self.entry_point_rva != 0
        &&& forall|i: int|
            0 <= i < self.sections@.len() ==> (#[trigger] self.sections@[i]).pointer_to_relocations
                == 0
    }

    /// `self` is the image that the headers `h` and section table `sections` of `data`
    /// describe.
    pub open spec fn describes(
        &self,
        data: Seq<u8>,
        h: NtHeaders,
        sections: Seq<SectionHeader>,
    ) -> bool {
        &&& self.data@ == data
        &&& self.entry_point_rva == h.entry_point_rva
        &&& self.base_address == h.image_base
        &&& self.size == h.size_of_image
        &&& self.nx_compat == (h.dll_characteristics & NX_COMPAT != 0)
        &&& self.sections@ == sections
    }

    /// Validates already-read kernel headers and builds the image metadata from them.
    pub fn from_headers(data: &'a [u8], h: NtHeaders, sections: Vec<SectionHeader>) -> (r: Result<
        Self,
        ImageError,
    >)
        ensures
            match r {
                Ok(image) => header_violation(h, sections@) is None && image.describes(
                    data@,
                    h,
                    sections@,
                ) && image.wf(),
                Err(e) => header_violation(h, sections@) == Some(e),
            },
            (r is Ok) <==> (h.entry_point_rva != 0 && h.major_image_version >= 1 && (
            h.base_reloc_size is None || h.base_reloc_size == Some(0u32)) && (forall|k: int|
                0 <= k < sections@.len() ==> (#[trigger] sections@[k]).pointer_to_relocations
                    == 0)),
            h.entry_point_rva == 0 ==> (r matches Err(ImageError::NoEntryPoint)),
            (h.entry_point_rva != 0 && h.major_image_version < 1) ==> (r matches Err(
                ImageError::ImageVersionTooLow { major_version },
            ) && major_version == h.major_image_version),
            (h.entry_point_rva != 0 && h.major_image_version >= 1 && (h.base_reloc_size matches Some(
                size,
            ) && size != 0)) ==> (r matches Err(ImageError::BaseRelocations { size }) && Some(size)
                == h.base_reloc_size),
    {
        proof {
            lemma_header_violation_exact(h, sections@);
        }
        if h.entry_point_rva == 0 {
            return Err(ImageError::NoEntryPoint);
        }
        if h.major_image_version < MIN_IMAGE_VERSION {
            return Err(ImageError::ImageVersionTooLow { major_version: h.major_image_version });
        }
        let reloc_size: u32 = match h.base_reloc_size {
            Some(size) => size,
            None => 0,
        };
        if reloc_size != 0 {
            return Err(ImageError::BaseRelocations { size: reloc_size });
        }
        let mut i: usize = 0;
        while i < sections.len()
            invariant
                h.entry_point_rva != 0,
                h.major_image_version >= MIN_IMAGE_VERSION,
                base_reloc_size(h) == 0,
                i <= sections@.len(),
                forall|j: int| 0 <= j < i ==> (#[trigger] sections@[j]).pointer_to_relocations == 0,
            decreases sections@.len() - i,
        {
            let ptr_relocs = sections[i].pointer_to_relocations;
            if ptr_relocs != 0 {
                let name = sections[i].name;
                proof {
                    let w = i as int;
                    assert(0 <= w < sections@.len() && sections@[w].pointer_to_relocations != 0
                        && forall|j: int| 0 <= j < w ==> sections@[j].pointer_to_relocations == 0);
                    assert(exists|k: int|
                        0 <= k < sections@.len() && sections@[k].pointer_to_relocations != 0
                            && forall|j: int| 0 <= j < k ==> sections@[j].pointer_to_relocations == 0);
                    let c = first_relocated_section(sections@).unwrap();
                    if c < w {
                        assert(sections@[c].pointer_to_relocations == 0);
                    } else if c > w {
                        assert(sections@[w].pointer_to_relocations == 0);
                    }
                }
                return Err(
                    ImageError::SectionRelocations { name, pointer_to_relocations: ptr_relocs },
                );
            }
            i = i + 1;
        }
        assert(first_relocated_section(sections@) is None);
        let nx_compat = h.dll_characteristics & NX_COMPAT != 0;
        Ok(
            Image {
                data,
                entry_point_rva: h.entry_point_rva,
                base_address: h.image_base,
                size: h.size_of_image,
                nx_compat,
                sections,
            },
        )
    }

    /// Validates and extracts metadata from a kernel PE image.
    ///
    /// The DOS header, NT headers and section table are read by `object`; an image is
    /// accepted when it has an entry point, a `MajorImageVersion` of at least 1, no base
    /// relocations and no section with COFF relocations.
    pub fn parse(data: &'a [u8]) -> (r: Result<Self, ImageError>)
        ensures
            (data@.len() >= 64 && le_u16(data@, 0) == 0x5A4D && nt_headers_accepted(
                data@,
                le_u32(data@, 0x3C),
            ) && section_table_fits(
                data@,
                nt_headers_at(data@, le_u32(data@, 0x3C)).number_of_sections,
                nt_headers_at(data@, le_u32(data@, 0x3C)).section_table_offset,
            )) ==> ((r is Ok) <==> kernel_rules_hold(data@, le_u32(data@, 0x3C))),
            !(data@.len() >= 64 && le_u16(data@, 0) == 0x5A4D) ==> r matches Err(
                ImageError::InvalidDosHeader(_),
            ),
            (data@.len() >= 64 && le_u16(data@, 0) == 0x5A4D) ==> {
                let nt_offset = le_u32(data@, 0x3C) as u64;
                let h = nt_headers_at(data@, nt_offset as int);
                if !nt_headers_accepted(data@, nt_offset as int) {
                    r matches Err(ImageError::InvalidPeHeaders(_))
                } else {
                    if !section_table_fits(
                        data@,
                        h.number_of_sections,
                        h.section_table_offset,
                    ) {
                        r matches Err(ImageError::InvalidSectionTable)
                    } else {
                        match r {
                            Ok(image) => {
                                &&& image.data@ == data@
                                &&& image.entry_point_rva == h.entry_point_rva
                                &&& image.base_address == h.image_base
                                &&& image.size == h.size_of_image
                                &&& image.nx_compat == (h.dll_characteristics & NX_COMPAT != 0)
                                &&& image.sections@.len() == h.number_of_sections
                                &&& forall|k: int|
                                    0 <= k < h.number_of_sections ==> is_section_header_at(
                                        #[trigger] image.sections@[k],
                                        data@,
                                        h.section_table_offset + SECTION_HEADER_SIZE * k,
                                    )
                                &&& header_violation(h, image.sections@) is None
                                &&& image.wf()
                            },
                            Err(e) => exists|sections: Seq<SectionHeader>|
                                {
                                    &&& sections.len() == h.number_of_sections
                                    &&& forall|k: int|
                                        0 <= k < h.number_of_sections ==> is_section_header_at(
                                            #[trigger] sections[k],
                                            data@,
                                            h.section_table_offset + SECTION_HEADER_SIZE * k,
                                        )
                                    &&& header_violation(h, sections) == Some(e)
                                },
                        }
                    }
                }
            },
    {
        let nt_offset = match read_dos_header(data) {
            Ok(offset) => offset,
            Err(e) => return Err(ImageError::InvalidDosHeader(e)),
        };
        let h = match read_nt_headers(data, nt_offset as u64) {
            Ok(h) => h,
            Err(e) => return Err(ImageError::InvalidPeHeaders(e)),
        };
        let sections = match read_section_table(data, h.number_of_sections, h.section_table_offset) {
            Some(sections) => sections,
            None => return Err(ImageError::InvalidSectionTable),
        };
        let ghost table = sections@;
        proof {
            let off = nt_offset as int;
            assert((h.entry_point_rva != 0) == (le_u32(data@, off + 40) != 0));
            assert((h.major_image_version >= 1) == (le_u16(data@, off + 68) >= 1));
            assert((h.base_reloc_size is None || h.base_reloc_size == Some(0u32)) == !(5 < le_u32(
                data@,
                off + 132,
            ) && le_u32(data@, off + 176) != 0 && le_u32(data@, off + 180) != 0));
            assert(h.number_of_sections == table.len());
            assert forall|k: int| 0 <= k < table.len() implies (#[trigger] table[k]).pointer_to_relocations
                == section_relocations_at(data@, h.section_table_offset as int, k) by {
                assert(is_section_header_at(
                    table[k],
                    data@,
                    h.section_table_offset + SECTION_HEADER_SIZE * k,
                ));
            }
        }
        let r = Image::from_headers(data, h, sections);
        proof {
            if r is Err {
                assert(header_violation(h, table) == Some(r->Err_0));
            }
            let off = nt_offset as int;
            let t = h.section_table_offset as int;
            if kernel_rules_hold(data@, off) {
                assert forall|k: int| 0 <= k < table.len() implies (
                #[trigger] table[k]).pointer_to_relocations == 0 by {
                    assert(section_relocations_at(data@, t, k) == 0);
                }
            }
            if r is Ok {
                assert forall|k: int| 0 <= k < h.number_of_sections implies #[trigger] section_relocations_at(
                    data@,
                    t,
                    k,
                ) == 0 by {
                    assert(table[k].pointer_to_relocations == 0);
                }
            }
        }
        r
    }
}

/// `name` with its trailing NUL bytes removed.
pub open spec fn trim_nul(name: Seq<u8>) -> Seq<u8>
    decreases name.len(),
{
    if name.len() > 0 && name.last() == 0 {
        trim_nul(name.drop_last())
    } else {
        name
    }
}

proof fn lemma_trim_nul(name: Seq<u8>)
    ensures
        trim_nul(name).len() <= name.len(),
        trim_nul(name) == name.subrange(0, trim_nul(name).len() as int),
        trim_nul(name).len() == 0 || trim_nul(name).last() != 0,
        forall|i: int| trim_nul(name).len() <= i < name.len() ==> #[trigger] name[i] == 0,
    decreases name.len(),
{
    if name.len() > 0 && name.last() == 0 {
        lemma_trim_nul(name.drop_last());
        let t = trim_nul(name.drop_last());
        assert(t == name.subrange(0, t.len() as int));
        assert forall|i: int| t.len() <= i < name.len() implies #[trigger] name[i] == 0 by {
            if i < name.len() - 1 {
                assert(name[i] == name.drop_last()[i]);
            }
        }
    } else {
        assert(name == name.subrange(0, name.len() as int));
    }
}

/// The length of `trim_nul(name)`, computed by scanning from the end.
fn trimmed_nul_len(name: &[u8]) -> (end: usize)
    ensures
        end == trim_nul(name@).len(),
{
    let mut end: usize = name.len();
    assert(name@.subrange(0, end as int) =~= name@);
    while end > 0 && name[end - 1] == 0
        invariant
            end <= name@.len(),
            trim_nul(name@) == trim_nul(name@.subrange(0, end as int)),
        decreases end,
    {
        proof {
            let s = name@.subrange(0, end as int);
            assert(s.drop_last() =~= name@.subrange(0, end - 1));
        }
        end = end - 1;
    }
    proof {
        let s = name@.subrange(0, end as int);
        assert(trim_nul(s) == s);
    }
    end
}

/// Calls `core::str::from_utf8`: it succeeds exactly on valid UTF-8, and the string it
/// returns is made of the given bytes.
#[verifier::external_body]
fn utf8_str(bytes: &[u8]) -> (r: Option<&str>)
    ensures
        r is Some <==> valid_utf8(bytes@),
        r matches Some(s) ==> s.spec_bytes() == bytes@,
{
    core::str::from_utf8(bytes).ok()
}

/// Returns the section name as a string for diagnostics: the name up to its trailing NUL
/// padding, or `???` when the name is not valid UTF-8.
pub fn section_name(section: &SectionHeader) -> (r: &str)
    ensures
        valid_utf8(section.name@) ==> r.spec_bytes() == trim_nul(section.name@),
        !valid_utf8(section.name@) ==> r@ == "???"@,
{
    let name: &[u8] = section.name.as_slice();
    match utf8_str(name) {
        Some(s) => {
            let end = trimmed_nul_len(name);
            proof {
                lemma_trim_nul(name@);
                if 0 < end < name@.len() {
                    is_char_boundary_iff_not_is_continuation_byte(name@, end as int);
                }
                assert(s.spec_bytes().subrange(0, end as int) =~= trim_nul(name@));
            }
            let (head, _) = s.split_at(end);
            head
        },
        None => "???",
    }
}

} // verus!
