use muak_stub::pe::fixtures::{Builder, FILE_ALIGN_U32};
use muak_stub::pe::kernel::{section_name, Image, ImageError, SectionHeader};

#[test]
fn parse_invalid_dos_header() {
    // ARRANGE
    let data = [0_u8; 256];

    // ACT
    let err = Image::parse(&data).unwrap_err();

    // ASSERT
    assert!(err.message().contains("invalid DOS header"), "{err:?}");
}

#[test]
fn parse_invalid_nt_headers() {
    // ARRANGE
    let mut data = vec![0_u8; 256];
    data.get_mut(..2)
        .expect("DOS magic range exists")
        .copy_from_slice(b"MZ");
    *data.get_mut(0x3C).expect("e_lfanew byte exists") = 0x40;

    // ACT
    let err = Image::parse(&data).unwrap_err();

    // ASSERT
    assert!(err.message().contains("invalid PE headers"), "{err:?}");
}

#[test]
fn parse_no_entry_point() {
    // ARRANGE
    let mut builder = Builder::new();
    builder.add_section(*b".text\0\0\0", &[0_u8; 16]);
    builder.set_entry_point(0);
    let data = builder.build();

    // ACT
    let err = Image::parse(&data).unwrap_err();

    // ASSERT
    assert!(err.message().contains("no entry point"), "{err:?}");
}

#[test]
fn parse_version_too_low() {
    // ARRANGE
    let mut builder = Builder::new();
    builder.add_section(*b".text\0\0\0", &[0_u8; 16]);
    builder.set_major_image_version(0);
    let data = builder.build();

    // ACT
    let err = Image::parse(&data).unwrap_err();

    // ASSERT
    assert!(err.message().contains("MajorImageVersion"), "{err:?}");
}

#[test]
fn parse_base_relocs_rejected() {
    // ARRANGE
    let mut builder = Builder::new();
    builder.add_section(*b".text\0\0\0", &[0_u8; 16]);
    builder.set_base_reloc_dir(0x1000, 64);
    let data = builder.build();

    // ACT
    let err = Image::parse(&data).unwrap_err();

    // ASSERT
    assert!(err.message().contains("base relocations"), "{err:?}");
}

#[test]
fn parse_base_reloc_dir_zero_size_ok() {
    // ARRANGE
    let mut builder = Builder::new();
    builder.add_section(*b".text\0\0\0", &[0_u8; 16]);
    builder.set_base_reloc_dir(0x1000, 0);
    let data = builder.build();

    // ACT + ASSERT
    Image::parse(&data).expect("zero-size base reloc dir should be allowed");
}

#[test]
fn parse_section_relocations_rejected() {
    // ARRANGE
    let mut builder = Builder::new();
    builder.add_section(*b".text\0\0\0", &[0_u8; 16]);
    builder.set_last_ptr_relocs(0x500);
    let data = builder.build();

    // ACT
    let err = Image::parse(&data).unwrap_err();

    // ASSERT
    assert!(err.message().contains("has relocations"), "{err:?}");
}

#[test]
fn parse_nx_compat_true() {
    // ARRANGE
    let mut builder = Builder::new();
    builder.add_section(*b".text\0\0\0", &[0_u8; 16]);
    builder.set_dll_characteristics(0x0100);
    let data = builder.build();

    // ACT
    let kernel = Image::parse(&data).expect("should parse");

    // ASSERT
    assert!(kernel.nx_compat);
}

#[test]
fn parse_nx_compat_false() {
    // ARRANGE
    let mut builder = Builder::new();
    builder.add_section(*b".text\0\0\0", &[0_u8; 16]);
    builder.set_dll_characteristics(0x0000);
    let data = builder.build();

    // ACT
    let kernel = Image::parse(&data).expect("should parse");

    // ASSERT
    assert!(!kernel.nx_compat);
}

#[test]
fn parse_happy_path_metadata() {
    // ARRANGE
    let mut builder = Builder::new();
    builder.add_section(*b".text\0\0\0", &[0_u8; 16]);
    let data = builder.build();

    // ACT
    let kernel = Image::parse(&data).expect("should parse");

    // ASSERT
    assert_eq!(kernel.entry_point_rva, FILE_ALIGN_U32);
    assert_eq!(kernel.base_address, 0x0000_0000_0400_0000);
    assert!(!kernel.nx_compat);
}

#[test]
fn section_name_valid_utf8_with_nul_padding() {
    // ARRANGE
    let header = SectionHeader {
        name: *b".text\0\0\0",
        ..SectionHeader::default()
    };

    // ACT + ASSERT
    assert_eq!(section_name(&header), ".text");
}

#[test]
fn section_name_valid_utf8_no_padding() {
    // ARRANGE
    let header = SectionHeader {
        name: *b".cmdline",
        ..SectionHeader::default()
    };

    // ACT + ASSERT
    assert_eq!(section_name(&header), ".cmdline");
}

#[test]
fn section_name_invalid_utf8_returns_fallback() {
    // ARRANGE
    let header = SectionHeader {
        name: [0xFF, 0xFE, 0x00, 0x00, 0x00, 0x00, 0x00, 0x00],
        ..SectionHeader::default()
    };

    // ACT + ASSERT
    assert_eq!(section_name(&header), "???");
}

#[test]
fn section_name_all_nul_is_empty() {
    let header = SectionHeader::default();
    assert_eq!(section_name(&header), "");
}

#[test]
fn parse_reads_section_table() {
    let mut builder = Builder::new();
    builder.add_section(*b".text\0\0\0", &[0x90_u8; 16]);
    builder.add_section(*b".data\0\0\0", &[1_u8; 0x300]);
    let data = builder.build();

    let kernel = Image::parse(&data).expect("should parse");

    assert_eq!(kernel.sections.len(), 2);
    let text = &kernel.sections[0];
    assert_eq!(section_name(text), ".text");
    assert_eq!(text.virtual_size, 16);
    assert_eq!(text.pointer_to_raw_data, 0x200);
    assert_eq!(text.size_of_raw_data, 0x200);
    let data_section = &kernel.sections[1];
    assert_eq!(section_name(data_section), ".data");
    assert_eq!(data_section.virtual_size, 0x300);
    assert_eq!(data_section.pointer_to_raw_data, 0x400);
    assert_eq!(data_section.size_of_raw_data, 0x400);
    assert_eq!(kernel.size, 0x800);
    assert_eq!(kernel.data.len(), 0x800);
}

#[test]
fn parse_truncated_section_table_rejected() {
    let mut builder = Builder::new();
    builder.add_section(*b".text\0\0\0", &[0_u8; 16]);
    let mut data = builder.build();
    data.truncate(0x160);

    let err = Image::parse(&data).unwrap_err();

    assert!(matches!(err, ImageError::InvalidSectionTable), "{err:?}");
    assert_eq!(err.message(), "invalid section table");
}

#[test]
fn parse_error_values() {
    let mut builder = Builder::new();
    builder.add_section(*b".text\0\0\0", &[0_u8; 16]);
    builder.set_major_image_version(0);
    let data = builder.build();
    assert!(matches!(
        Image::parse(&data),
        Err(ImageError::ImageVersionTooLow { major_version: 0 })
    ));

    let mut builder = Builder::new();
    builder.add_section(*b".text\0\0\0", &[0_u8; 16]);
    builder.set_base_reloc_dir(0x1000, 64);
    let data = builder.build();
    assert!(matches!(
        Image::parse(&data),
        Err(ImageError::BaseRelocations { size: 64 })
    ));

    let mut builder = Builder::new();
    builder.add_section(*b".text\0\0\0", &[0_u8; 16]);
    builder.add_section(*b".reloc\0\0", &[0_u8; 16]);
    builder.set_last_ptr_relocs(0x500);
    let data = builder.build();
    match Image::parse(&data) {
        Err(ImageError::SectionRelocations { name, pointer_to_relocations }) => {
            assert_eq!(&name, b".reloc\0\0");
            assert_eq!(pointer_to_relocations, 0x500);
        }
        other => panic!("unexpected result: {other:?}"),
    }
}

#[test]
fn base_reloc_dir_without_address_is_ignored() {
    // A data directory with a zero virtual address is treated as absent.
    let mut builder = Builder::new();
    builder.add_section(*b".text\0\0\0", &[0_u8; 16]);
    builder.set_base_reloc_dir(0, 64);
    let data = builder.build();
    Image::parse(&data).expect("directory without address is ignored");
}

#[test]
fn parse_rejects_pe32_magic_and_short_optional_header() {
    let mut builder = Builder::new();
    builder.add_section(*b".text\0\0\0", &[0_u8; 16]);
    let good = builder.build();

    let mut pe32 = good.clone();
    pe32[0x58] = 0x0B;
    pe32[0x59] = 0x01;
    assert!(matches!(Image::parse(&pe32), Err(ImageError::InvalidPeHeaders(_))));

    let mut short = good.clone();
    short[0x54] = 100;
    short[0x55] = 0;
    assert!(matches!(Image::parse(&short), Err(ImageError::InvalidPeHeaders(_))));

    let mut too_many_dirs = good;
    too_many_dirs[0x58 + 108] = 17;
    assert!(matches!(Image::parse(&too_many_dirs), Err(ImageError::InvalidPeHeaders(_))));
}
