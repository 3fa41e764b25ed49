use muak_stub::pe::fixtures::Builder;

fn le_u32(data: &[u8], off: usize) -> u32 {
    u32::from_le_bytes([data[off], data[off + 1], data[off + 2], data[off + 3]])
}

fn le_u16(data: &[u8], off: usize) -> u16 {
    u16::from_le_bytes([data[off], data[off + 1]])
}

#[test]
fn new_builder_header_fields() {
    let data = Builder::new().build();
    assert_eq!(data.len(), 0x200);
    assert_eq!(&data[..2], b"MZ");
    assert_eq!(le_u32(&data, 0x3C), 0x40);
    assert_eq!(&data[0x40..0x44], b"PE\0\0");
    assert_eq!(le_u16(&data, 0x44), 0x8664);
    assert_eq!(le_u16(&data, 0x58), 0x020B);
    assert_eq!(le_u32(&data, 0x58 + 16), 0x200);
    assert_eq!(le_u16(&data, 0x58 + 44), 1);
    assert_eq!(le_u32(&data, 0x58 + 108), 16);
}

#[test]
fn add_section_writes_header_and_data() {
    let mut builder = Builder::new();
    builder.add_section(*b".text\0\0\0", &[7_u8; 3]);
    let data = builder.build();
    assert_eq!(data.len(), 0x400);
    assert_eq!(&data[0x200..0x203], &[7, 7, 7]);
    assert_eq!(&data[0x148..0x150], b".text\0\0\0");
    assert_eq!(le_u32(&data, 0x148 + 8), 3);
    assert_eq!(le_u32(&data, 0x148 + 12), 0x200);
    assert_eq!(le_u32(&data, 0x148 + 16), 0x200);
    assert_eq!(le_u32(&data, 0x148 + 20), 0x200);
    assert_eq!(le_u16(&data, 0x44 + 2), 1);
    assert_eq!(le_u32(&data, 0x58 + 56), 0x400);
}

#[test]
fn setters_write_fields() {
    let mut builder = Builder::new();
    builder.add_section(*b".text\0\0\0", &[0_u8; 16]);
    builder.set_last_ptr_relocs(0x500);
    builder.set_dll_characteristics(0x0160);
    builder.set_major_image_version(3);
    builder.set_entry_point(0x1234);
    builder.set_base_reloc_dir(0x1000, 64);
    let data = builder.build();
    assert_eq!(le_u32(&data, 0x148 + 24), 0x500);
    assert_eq!(le_u16(&data, 0x58 + 70), 0x0160);
    assert_eq!(le_u16(&data, 0x58 + 44), 3);
    assert_eq!(le_u32(&data, 0x58 + 16), 0x1234);
    assert_eq!(le_u32(&data, 0xC8 + 40), 0x1000);
    assert_eq!(le_u32(&data, 0xC8 + 44), 64);
}
