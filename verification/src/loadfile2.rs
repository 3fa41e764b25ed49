//! The `LoadFile2` protocol that serves the initrd to the kernel.
//!
//! The firmware-side code keeps the served file and installs the protocol; the library
//! decides how each `LoadFile2` call is answered, copies the file into the caller's buffer
//! and lays out the vendor media device path that identifies the file.

use vstd::prelude::*;

verus! {

/// The EFI status codes that a `LoadFile2` call can return.
#[derive(Clone, Copy, Debug, PartialEq, Eq)]
pub enum LoadFile2Status {
    Success,
    Unsupported,
    NotFound,
    InvalidParameter,
    BufferTooSmall,
}

/// The answer to one `LoadFile2` call: its status, and the value to store through the
/// caller's `buffer_size` pointer, if any.
#[derive(Clone, Copy, Debug, PartialEq, Eq)]
pub struct LoadFile2Reply {
    pub status: LoadFile2Status,
    pub buffer_size: Option<usize>,
}

/// The answer to a `LoadFile2` call, following the UEFI `LoadFile2` semantics: a first
/// call with no buffer learns the file size through `BUFFER_TOO_SMALL`, and a call with a
/// large enough buffer gets the file and `SUCCESS`.
pub open spec fn load_file2_spec(
    boot_policy: bool,
    file_present: bool,
    file_len: usize,
    buffer_size: Option<usize>,
    buffer_present: bool,
) -> LoadFile2Reply {
    if boot_policy {
        LoadFile2Reply { status: LoadFile2Status::Unsupported, buffer_size: None }
    } else if !file_present || file_len == 0 {
        LoadFile2Reply { status: LoadFile2Status::NotFound, buffer_size: None }
    } else {
        match buffer_size {
            None => LoadFile2Reply { status: LoadFile2Status::InvalidParameter, buffer_size: None },
            Some(available) => if !buffer_present || available < file_len {
                LoadFile2Reply { status: LoadFile2Status::BufferTooSmall, buffer_size: Some(file_len) }
            } else {
                LoadFile2Reply { status: LoadFile2Status::Success, buffer_size: Some(file_len) }
            },
        }
    }
}

/// How every `LoadFile2` call is answered, case by case: a call with `BootPolicy` set is
/// refused with `UNSUPPORTED` and nothing is reported or copied, whatever file and buffer
/// there are; otherwise a missing or empty file gives `NOT_FOUND`, a null size pointer
/// `INVALID_PARAMETER`, a missing or short buffer `BUFFER_TOO_SMALL` with the file size
/// reported, and a large enough buffer `SUCCESS` with the file size reported. `SUCCESS`, the
/// one answer under which the file is copied, comes only with `BootPolicy` clear.
pub proof fn lemma_load_file2_answers(
    boot_policy: bool,
    file_present: bool,
    file_len: usize,
    buffer_size: Option<usize>,
    buffer_present: bool,
)
    ensures
        ({
            let r = load_file2_spec(boot_policy, file_present, file_len, buffer_size, buffer_present);
            &&& boot_policy ==> r == (LoadFile2Reply {
                status: LoadFile2Status::Unsupported,
                buffer_size: None,
            })
            &&& r.status == LoadFile2Status::Success ==> !boot_policy
            &&& !boot_policy && (!file_present || file_len == 0) ==> r == (LoadFile2Reply {
                status: LoadFile2Status::NotFound,
                buffer_size: None,
            })
            &&& (!boot_policy && file_present && file_len > 0 && (buffer_size is None)) ==> r == (
            LoadFile2Reply { status: LoadFile2Status::InvalidParameter, buffer_size: None })
            &&& (!boot_policy && file_present && file_len > 0 && (buffer_size matches Some(
                available,
            ) && (!buffer_present || available < file_len))) ==> r == (LoadFile2Reply {
                status: LoadFile2Status::BufferTooSmall,
                buffer_size: Some(file_len),
            })
            &&& (!boot_policy && file_present && file_len > 0 && buffer_present && (
            buffer_size matches Some(available) && available >= file_len)) ==> r == (
            LoadFile2Reply { status: LoadFile2Status::Success, buffer_size: Some(file_len) })
        }),
{
}

/// Decides how a `LoadFile2` call is answered.
///
/// `file_present` and `file_len` describe the installed file, `buffer_size` is the value
/// behind the caller's size pointer (`None` when the pointer is null) and `buffer_present`
/// says whether the caller passed a buffer. The file is to be copied exactly when the
/// status is `Success`.
pub fn load_file2_reply(
    boot_policy: bool,
    file_present: bool,
    file_len: usize,
    buffer_size: Option<usize>,
    buffer_present: bool,
) -> (r: LoadFile2Reply)
    ensures
        r == load_file2_spec(boot_policy, file_present, file_len, buffer_size, buffer_present),
        r.status == LoadFile2Status::Success ==> (buffer_present && (buffer_size matches Some(
            available,
        ) && available >= file_len) && file_len > 0),
        boot_policy ==> r == (LoadFile2Reply {
            status: LoadFile2Status::Unsupported,
            buffer_size: None,
        }),
        r.status == LoadFile2Status::Success ==> (!boot_policy && file_present && r.buffer_size
            == Some(file_len)),
        !boot_policy && (!file_present || file_len == 0) ==> r == (LoadFile2Reply {
            status: LoadFile2Status::NotFound,
            buffer_size: None,
        }),
        (!boot_policy && file_present && file_len > 0 && (buffer_size is None)) ==> r == (
        LoadFile2Reply { status: LoadFile2Status::InvalidParameter, buffer_size: None }),
        (!boot_policy && file_present && file_len > 0 && (buffer_size matches Some(available)
            && (!buffer_present || available < file_len))) ==> r == (LoadFile2Reply {
            status: LoadFile2Status::BufferTooSmall,
            buffer_size: Some(file_len),
        }),
        (!boot_policy && file_present && file_len > 0 && buffer_present && (buffer_size matches Some(
            available,
        ) && available >= file_len)) ==> r == (LoadFile2Reply {
            status: LoadFile2Status::Success,
            buffer_size: Some(file_len),
        }),
{
    proof {
        lemma_load_file2_answers(boot_policy, file_present, file_len, buffer_size, buffer_present);
    }
    if boot_policy {
        return LoadFile2Reply { status: LoadFile2Status::Unsupported, buffer_size: None };
    }
    if !file_present || file_len == 0 {
        return LoadFile2Reply { status: LoadFile2Status::NotFound, buffer_size: None };
    }
    let available = match buffer_size {
        Some(available) => available,
        None => return LoadFile2Reply { status: LoadFile2Status::InvalidParameter, buffer_size: None },
    };
    if !buffer_present || available < file_len {
        return LoadFile2Reply { status: LoadFile2Status::BufferTooSmall, buffer_size: Some(file_len) };
    }
    LoadFile2Reply { status: LoadFile2Status::Success, buffer_size: Some(file_len) }
}

/// Copies the served file into the start of the caller's buffer.
pub fn copy_file(dst: &mut [u8], src: &[u8])
    requires
        old(dst)@.len() >= src@.len(),
    ensures
        final(dst)@ == src@ + old(dst)@.subrange(src@.len() as int, old(dst)@.len() as int),
{
    let mut i: usize = 0;
    while i < src.len()
        invariant
            i <= src@.len(),
            src@.len() <= dst@.len(),
            dst@.len() == old(dst)@.len(),
            dst@ == src@.subrange(0, i as int) + old(dst)@.subrange(i as int, old(dst)@.len() as int),
        decreases src@.len() - i,
    {
        dst[i] = src[i];
        i = i + 1;
        assert(dst@ =~= src@.subrange(0, i as int) + old(dst)@.subrange(
            i as int,
            old(dst)@.len() as int,
        ));
    }
    assert(src@.subrange(0, i as int) =~= src@);
}

/// Length of the vendor media device path: a 20-byte vendor node and a 4-byte end node.
pub const DEVICE_PATH_LEN: usize = 24;

/// The vendor media device path (type 4, subtype 3) for `guid`, followed by the end of
/// device path node (type 0x7F, subtype 0xFF).
pub open spec fn device_path_spec(guid: Seq<u8>) -> Seq<u8> {
    seq![4u8, 3u8, 20u8, 0u8] + guid + seq![0x7Fu8, 0xFFu8, 4u8, 0u8]
}

/// Builds the vendor media device path that identifies a file served by `LoadFile2`,
/// from the GUID's 16 bytes in their EFI (mixed-endian) order.
pub fn device_path(guid: &[u8; 16]) -> (r: Vec<u8>)
    ensures
        r@ == device_path_spec(guid@),
        r@.len() == DEVICE_PATH_LEN,
{
    let mut dp: Vec<u8> = Vec::with_capacity(DEVICE_PATH_LEN);
    dp.push(4u8);
    dp.push(3u8);
    dp.push(20u8);
    dp.push(0u8);
    let mut i: usize = 0;
    while i < 16
        invariant
            i <= 16,
            guid@.len() == 16,
            dp@ == seq![4u8, 3u8, 20u8, 0u8] + guid@.subrange(0, i as int),
        decreases 16 - i,
    {
        dp.push(guid[i]);
        i = i + 1;
        assert(dp@ =~= seq![4u8, 3u8, 20u8, 0u8] + guid@.subrange(0, i as int));
    }
    dp.push(0x7Fu8);
    dp.push(0xFFu8);
    dp.push(4u8);
    dp.push(0u8);
    assert(guid@.subrange(0, 16) =~= guid@);
    assert(dp@ =~= device_path_spec(guid@));
    dp
}

} // verus!
