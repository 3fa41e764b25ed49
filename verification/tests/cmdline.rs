use muak_stub::pe::loader::cmdline::{encode_ucs2, strip_trailing_terminators, CmdlineError};

#[test]
fn strip_trailing_terminators_empty() {
    // ARRANGE
    let input = b"";
    // ACT + ASSERT
    assert_eq!(strip_trailing_terminators(input), b"");
}

#[test]
fn strip_trailing_terminators_all_terminators() {
    // ARRANGE
    let input = b" \n\t\0\0";
    // ACT + ASSERT
    assert_eq!(strip_trailing_terminators(input), b"");
}

#[test]
fn strip_trailing_terminators_no_terminators() {
    // ARRANGE
    let input = b"hello";
    // ACT + ASSERT
    assert_eq!(strip_trailing_terminators(input), b"hello");
}

#[test]
fn strip_trailing_terminators_trailing_nuls() {
    // ARRANGE
    let input = b"hello\0\0";
    // ACT + ASSERT
    assert_eq!(strip_trailing_terminators(input), b"hello");
}

#[test]
fn strip_trailing_terminators_trailing_newline() {
    // ARRANGE
    let input = b"console=ttyS0\n";
    // ACT + ASSERT
    assert_eq!(strip_trailing_terminators(input), b"console=ttyS0");
}

#[test]
fn strip_trailing_terminators_single_nul() {
    // ARRANGE
    let input = b"x\0";
    // ACT + ASSERT
    assert_eq!(strip_trailing_terminators(input), b"x");
}

#[test]
fn strip_trailing_terminators_nul_in_middle() {
    // ARRANGE
    let input = b"hel\0lo";
    // ACT + ASSERT
    assert_eq!(strip_trailing_terminators(input), b"hel\0lo");
}

#[test]
fn strip_trailing_terminators_nul_only_in_middle() {
    // ARRANGE
    let input = b"a\0b";
    // ACT + ASSERT
    assert_eq!(strip_trailing_terminators(input), b"a\0b");
}

#[test]
fn encode_ucs2_accounts_for_utf16_nul_terminator_size() {
    // ARRANGE
    let cmdline = b"abc";
    let byte_size = (cmdline.len() + 1) * size_of::<u16>();
    // ACT + ASSERT
    assert_eq!(byte_size, 8);
    let (buffer, size) = encode_ucs2(cmdline).expect("small command line encodes");
    assert_eq!(size as usize, byte_size);
    assert_eq!(buffer.len(), byte_size);
}

#[test]
fn strip_trailing_terminators_other_ascii_whitespace() {
    assert_eq!(strip_trailing_terminators(b"a b\r\x0c \t"), b"a b");
    assert_eq!(strip_trailing_terminators(b"\x0bx"), b"\x0bx");
}

#[test]
fn strip_trailing_terminators_is_idempotent() {
    let once = strip_trailing_terminators(b"quiet splash \n\0");
    assert_eq!(strip_trailing_terminators(once), once);
}

#[test]
fn encode_ucs2_widens_each_byte_and_terminates() {
    let (buffer, size) = encode_ucs2(b"ro quiet\n\0").expect("encodes");
    assert_eq!(size, 18);
    assert_eq!(
        buffer,
        vec![b'r', 0, b'o', 0, b' ', 0, b'q', 0, b'u', 0, b'i', 0, b'e', 0, b't', 0, 0, 0]
    );
}

#[test]
fn encode_ucs2_empty_command_line_gives_no_buffer() {
    let (buffer, size) = encode_ucs2(b" \0\n").expect("encodes");
    assert!(buffer.is_empty());
    assert_eq!(size, 0);
    let (buffer, size) = encode_ucs2(b"").expect("encodes");
    assert!(buffer.is_empty());
    assert_eq!(size, 0);
}

#[test]
fn cmdline_error_messages() {
    assert_eq!(CmdlineError::LengthOverflow.message(), "command line length overflow");
    assert_eq!(CmdlineError::ByteLengthOverflow.message(), "command line byte length overflow");
    assert_eq!(CmdlineError::BufferTooLarge.message(), "command line buffer too large");
}

#[test]
fn encode_ucs2_ignores_trailing_terminators() {
    assert_eq!(encode_ucs2(b"ro quiet \n\0"), encode_ucs2(b"ro quiet"));
}
