use muak_stub::tpm2::{
    pcr_event_size, section_measurements, section_name_payload, MeasuredData, PCR_EVENT_PREFIX_LEN,
    PCR_INDEX,
};

#[test]
fn section_name_payload_is_nul_terminated() {
    assert_eq!(section_name_payload(".linux"), b".linux\0".to_vec());
    assert_eq!(section_name_payload(""), vec![0]);
}

#[test]
fn event_size_adds_header() {
    assert_eq!(pcr_event_size(b".cmdline"), Some(26));
    assert_eq!(pcr_event_size(b""), Some(PCR_EVENT_PREFIX_LEN));
    assert_eq!(PCR_INDEX, 11);
}

#[test]
fn section_measurements_name_then_contents() {
    let data = [1_u8, 2, 3];
    let plan = section_measurements(".initrd", &data);
    assert_eq!(plan.len(), 2);
    assert_eq!(plan[0].pcr_index, 11);
    assert_eq!(plan[0].description, b".initrd");
    assert!(matches!(&plan[0].data, MeasuredData::NameWithNul(bytes) if bytes == b".initrd\0"));
    assert_eq!(plan[1].pcr_index, 11);
    assert_eq!(plan[1].description, b".initrd");
    assert!(matches!(&plan[1].data, MeasuredData::Contents(contents) if *contents == &data[..]));
}
