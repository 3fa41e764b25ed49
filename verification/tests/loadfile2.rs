use muak_stub::loadfile2::{copy_file, device_path, load_file2_reply, LoadFile2Status};

/// Answers one `LoadFile2` call the way the stub's protocol callback does: decide, report
/// the size, and copy the file when the call succeeds.
fn invoke(
    file: Option<&[u8]>,
    boot_policy: bool,
    buffer_size: Option<&mut usize>,
    buffer: Option<&mut [u8]>,
) -> LoadFile2Status {
    let (file_present, file_len) = match file {
        Some(data) => (true, data.len()),
        None => (false, 0),
    };
    let available = buffer_size.as_ref().map(|size| **size);
    let reply = load_file2_reply(boot_policy, file_present, file_len, available, buffer.is_some());
    if let (Some(size_ptr), Some(size)) = (buffer_size, reply.buffer_size) {
        *size_ptr = size;
    }
    if reply.status == LoadFile2Status::Success {
        if let (Some(dst), Some(src)) = (buffer, file) {
            copy_file(dst, src);
        }
    }
    reply.status
}

#[test]
fn boot_policy_true_returns_unsupported() {
    // ARRANGE
    let mut sz: usize = 0;

    // ACT + ASSERT
    assert_eq!(invoke(None, true, Some(&mut sz), None), LoadFile2Status::Unsupported);
}

#[test]
fn null_file_ptr_returns_not_found() {
    // ARRANGE
    let mut sz: usize = 0;

    // ACT + ASSERT
    assert_eq!(invoke(None, false, Some(&mut sz), None), LoadFile2Status::NotFound);
}

#[test]
fn zero_file_len_returns_not_found() {
    // ARRANGE
    let data = b"x";
    let mut sz: usize = 0;

    // ACT + ASSERT
    assert_eq!(invoke(Some(&data[..0]), false, Some(&mut sz), None), LoadFile2Status::NotFound);
}

#[test]
fn null_buffer_size_returns_invalid_parameter() {
    // ARRANGE
    let data = b"hello";

    // ACT + ASSERT
    assert_eq!(invoke(Some(data), false, None, None), LoadFile2Status::InvalidParameter);
}

#[test]
fn null_buffer_returns_buffer_too_small_and_sets_size() {
    // ARRANGE
    let data = b"hello";
    let mut sz: usize = 0;

    // ACT
    let status = invoke(Some(data), false, Some(&mut sz), None);

    // ASSERT
    assert_eq!(status, LoadFile2Status::BufferTooSmall);
    assert_eq!(sz, data.len());
}

#[test]
fn undersized_buffer_returns_buffer_too_small() {
    // ARRANGE
    let data = b"hello";
    let mut buf = [0_u8; 2];
    let mut sz: usize = buf.len();

    // ACT
    let status = invoke(Some(data), false, Some(&mut sz), Some(&mut buf));

    // ASSERT
    assert_eq!(status, LoadFile2Status::BufferTooSmall);
    assert_eq!(sz, data.len());
}

#[test]
fn sufficient_buffer_copies_data_and_returns_success() {
    // ARRANGE
    let data = b"hello world";
    let mut buf = vec![0_u8; data.len()];
    let mut sz: usize = buf.len();

    // ACT
    let status = invoke(Some(data), false, Some(&mut sz), Some(&mut buf));

    // ASSERT
    assert_eq!(status, LoadFile2Status::Success);
    assert_eq!(&buf, data);
}

#[test]
fn reply_reports_size_on_success_and_too_small() {
    let reply = load_file2_reply(false, true, 7, Some(16), true);
    assert_eq!(reply.status, LoadFile2Status::Success);
    assert_eq!(reply.buffer_size, Some(7));
    let reply = load_file2_reply(false, true, 7, Some(6), true);
    assert_eq!(reply.status, LoadFile2Status::BufferTooSmall);
    assert_eq!(reply.buffer_size, Some(7));
    let reply = load_file2_reply(true, true, 7, Some(16), true);
    assert_eq!(reply.buffer_size, None);
}

#[test]
fn copy_file_keeps_the_rest_of_the_buffer() {
    let mut buf = [9_u8; 6];
    copy_file(&mut buf, b"abc");
    assert_eq!(&buf, b"abc\x09\x09\x09");
}

#[test]
fn device_path_layout() {
    let guid: [u8; 16] = [
        0x27, 0xe4, 0x68, 0x55, 0xfc, 0x68, 0x3d, 0x4f, 0xac, 0x74, 0xca, 0x55, 0x52, 0x31, 0xcc,
        0x68,
    ];
    let dp = device_path(&guid);
    assert_eq!(dp.len(), 24);
    assert_eq!(&dp[..4], &[4, 3, 20, 0]);
    assert_eq!(&dp[4..20], &guid);
    assert_eq!(&dp[20..], &[0x7F, 0xFF, 4, 0]);
}
