use muak_stub::pe::fixtures::Builder;
use muak_stub::pe::kernel::{Image, SectionHeader};
use muak_stub::pe::loader::mapping::{map_section, map_sections, page_count, MapError, SectionMapping};
use muak_stub::pe::loader::protection::{
    usize_to_u64, wx_next, wx_region, wx_regions, wx_start, WxRegion, WxStep, EFI_MEMORY_RO,
    EFI_MEMORY_XP,
};
use muak_stub::pe::loader::{entry_address, StartError};

fn kernel_with(data: &[u8], base_address: u64, size: u32, sections: Vec<SectionHeader>) -> Image<'_> {
    Image { data, entry_point_rva: 0x10, base_address, size, nx_compat: true, sections }
}

#[test]
fn page_count_rounds_up() {
    let data = [0_u8; 4];
    assert_eq!(page_count(&kernel_with(&data, 0, 0x1000, vec![])), 1);
    assert_eq!(page_count(&kernel_with(&data, 0, 0x1001, vec![])), 2);
    assert_eq!(page_count(&kernel_with(&data, 0, 0, vec![])), 0);
}

#[test]
fn map_section_copies_and_zero_fills() {
    let s = SectionHeader {
        virtual_address: 0x1100,
        virtual_size: 0x300,
        size_of_raw_data: 0x200,
        pointer_to_raw_data: 0x400,
        ..SectionHeader::default()
    };
    let m = map_section(0x800, 0x1000, 0x1000, &s).expect("fits");
    assert_eq!(
        m,
        SectionMapping { raw_offset: 0x400, dest_offset: 0x100, copy_size: 0x200, zero_size: 0x100 }
    );
}

#[test]
fn map_section_raw_larger_than_virtual_is_truncated() {
    let s = SectionHeader {
        virtual_address: 0x1000,
        virtual_size: 0x10,
        size_of_raw_data: 0x200,
        pointer_to_raw_data: 0x200,
        ..SectionHeader::default()
    };
    let m = map_section(0x400, 0x1000, 0x1000, &s).expect("fits");
    assert_eq!(m.copy_size, 0x10);
    assert_eq!(m.zero_size, 0);
}

#[test]
fn map_section_errors() {
    let below = SectionHeader { virtual_address: 0x10, virtual_size: 1, ..SectionHeader::default() };
    assert!(matches!(
        map_section(0x100, 0x1000, 0x1000, &below),
        Err(MapError::SectionBelowImageBase { .. })
    ));
    let outside = SectionHeader { virtual_address: 0x1F00, virtual_size: 0x200, ..SectionHeader::default() };
    assert!(matches!(
        map_section(0x100, 0x1000, 0x1000, &outside),
        Err(MapError::SectionOutsideImage { dest_offset: 0xF00, virt_size: 0x200, image_size: 0x1000, .. })
    ));
    let raw_out = SectionHeader {
        virtual_address: 0x1000,
        virtual_size: 0x100,
        size_of_raw_data: 0x100,
        pointer_to_raw_data: 0x80,
        ..SectionHeader::default()
    };
    let err = map_section(0x100, 0x1000, 0x1000, &raw_out).unwrap_err();
    assert!(matches!(err, MapError::RawDataOutOfBounds { raw_offset: 0x80, copy_size: 0x100, data_len: 0x100, .. }));
    assert_eq!(err.message(), "section raw data out of bounds");
    let raw_out_but_empty = SectionHeader {
        virtual_address: 0x1000,
        virtual_size: 0x100,
        size_of_raw_data: 0,
        pointer_to_raw_data: 0xFFFF_FFFF,
        ..SectionHeader::default()
    };
    assert_eq!(
        map_section(0x100, 0x1000, 0x1000, &raw_out_but_empty).expect("nothing to copy").zero_size,
        0x100
    );
}

#[test]
fn map_sections_of_built_kernel_stops_at_image_base_check() {
    let mut builder = Builder::new();
    builder.add_section(*b".text\0\0\0", &[0_u8; 16]);
    let data = builder.build();
    let kernel = Image::parse(&data).expect("should parse");
    // The built kernel keeps a section RVA (0x200) below its image base (0x400_0000).
    assert!(matches!(map_sections(&kernel), Err(MapError::SectionBelowImageBase { .. })));
}

#[test]
fn map_sections_in_order() {
    let data = [0_u8; 0x400];
    let sections = vec![
        SectionHeader { virtual_address: 0x1000, virtual_size: 0x100, size_of_raw_data: 0x100, pointer_to_raw_data: 0, ..SectionHeader::default() },
        SectionHeader { virtual_address: 0x1200, virtual_size: 0x80, size_of_raw_data: 0x40, pointer_to_raw_data: 0x200, ..SectionHeader::default() },
    ];
    let kernel = kernel_with(&data, 0x1000, 0x1000, sections);
    let mappings = map_sections(&kernel).expect("fits");
    assert_eq!(mappings.len(), 2);
    assert_eq!(mappings[1], SectionMapping { raw_offset: 0x200, dest_offset: 0x200, copy_size: 0x40, zero_size: 0x40 });
}

#[test]
fn wx_region_rounds_to_pages() {
    let data = [0_u8; 4];
    let kernel = kernel_with(&data, 0x1000, 0x3000, vec![]);
    let code = SectionHeader { virtual_address: 0x2000, virtual_size: 0x1234, characteristics: 0x20, ..SectionHeader::default() };
    assert_eq!(wx_region(&kernel, 0x10_0000, &code), WxRegion::Protect { base: 0x10_1000, length: 0x2000 });
    let data_section = SectionHeader { characteristics: 0x4000_0040, ..code };
    assert_eq!(wx_region(&kernel, 0x10_0000, &data_section), WxRegion::NotCode);
    let exec_below = SectionHeader { virtual_address: 0x10, virtual_size: 0x1000, characteristics: 0x2000_0000, ..SectionHeader::default() };
    assert_eq!(wx_region(&kernel, 0x10_0000, &exec_below), WxRegion::Protect { base: 0x10_0000, length: 0x1000 });
    assert_eq!(wx_regions(&kernel, 0x10_0000), vec![]);
}

#[test]
fn wx_call_sequence() {
    let start = wx_start();
    assert_eq!(start, WxStep::SetAttributes { attributes: EFI_MEMORY_RO });
    assert_eq!(wx_next(start, false), WxStep::SetFailed);
    let clear = wx_next(start, true);
    assert_eq!(clear, WxStep::ClearAttributes { attributes: EFI_MEMORY_XP });
    assert_eq!(wx_next(clear, true), WxStep::Protected);
    let rollback = wx_next(clear, false);
    assert_eq!(rollback, WxStep::RollbackAttributes { attributes: EFI_MEMORY_RO });
    assert_eq!(wx_next(rollback, false), WxStep::ClearFailed { rollback_succeeded: false });
    assert_eq!(wx_next(rollback, true), WxStep::ClearFailed { rollback_succeeded: true });
}

#[test]
fn entry_address_adds_rva() {
    assert_eq!(entry_address(0x10_0000, 0x200), Ok(0x10_0200));
    assert_eq!(entry_address(usize::MAX, 1), Err(StartError::EntryAddressOverflow));
    assert_eq!(usize_to_u64(7), Some(7));
}

#[test]
fn wx_region_address_overflow_is_skipped() {
    let data = [0_u8; 4];
    let kernel = kernel_with(&data, 0x1000, 0x3000, vec![]);
    let code = SectionHeader { virtual_address: 0x2000, virtual_size: 0x10, characteristics: 0x20, ..SectionHeader::default() };
    assert_eq!(wx_region(&kernel, usize::MAX, &code), WxRegion::AddressOverflow);
}

#[test]
fn map_and_start_error_messages() {
    let name = *b".text\0\0\0";
    assert_eq!(MapError::SectionBelowImageBase { name }.message(), "section VirtualAddress < ImageBase");
    assert_eq!(
        MapError::SectionOutsideImage { name, dest_offset: 0, virt_size: 0, image_size: 0 }.message(),
        "section would write outside allocated memory"
    );
    assert_eq!(StartError::EntryAddressOverflow.message(), "kernel entry address overflow");
}
