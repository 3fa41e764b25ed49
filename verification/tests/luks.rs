use muak_stub::luks::{try_inject, LuksError};

#[test]
fn no_key_file_leaves_cmdline_alone() {
    assert!(matches!(try_inject(Some(b"quiet"), None), Ok(None)));
}

#[test]
fn empty_key_file_leaves_cmdline_alone() {
    assert!(matches!(try_inject(Some(b"quiet"), Some(b"")), Ok(None)));
}

#[test]
fn key_is_appended_base64_unpadded() {
    let combined = try_inject(Some(b"root=/dev/sda1 quiet\n\0"), Some(b"secret"))
        .expect("injects")
        .expect("key present");
    assert_eq!(combined, b"root=/dev/sda1 quiet luks.key=c2VjcmV0".to_vec());
}

#[test]
fn key_without_cmdline() {
    let combined = try_inject(None, Some(&[0xff, 0x00])).expect("injects").expect("key present");
    assert_eq!(combined, b" luks.key=/wA".to_vec());
}

#[test]
fn unpadded_encoding_lengths() {
    let one = try_inject(Some(b""), Some(b"a")).unwrap().unwrap();
    assert_eq!(one, b" luks.key=YQ".to_vec());
    let three = try_inject(Some(b""), Some(b"abc")).unwrap().unwrap();
    assert_eq!(three, b" luks.key=YWJj".to_vec());
}

#[test]
fn luks_error_messages() {
    assert_eq!(LuksError::LengthOverflow.message(), "combined command line length overflow");
}
