//! LUKS key injection into the kernel command line, for systems without TPM2 support.
//!
//! The key comes from the `luks` file on the ESP; reading it is the caller's business. The
//! library appends ` luks.key=` and the unpadded Base64 encoding of the key to the command
//! line.

use base64ct::{Base64Unpadded, Encoding as _};
use vstd::prelude::*;

use crate::pe::loader::cmdline::{strip_trailing_terminators, trim_terminators};

verus! {

#[verifier::external_type_specification]
#[verifier::external_body]
pub struct ExInvalidLengthError(base64ct::InvalidLengthError);

/// The parameter that introduces the key on the command line: ` luks.key=`.
pub const LUKS_KEY_PREFIX: [u8; 10] = [
    0x20u8, 0x6Cu8, 0x75u8, 0x6Bu8, 0x73u8, 0x2Eu8, 0x6Bu8, 0x65u8, 0x79u8, 0x3Du8,
];

/// The bytes of ` luks.key=`.
pub open spec fn luks_key_prefix() -> Seq<u8> {
    seq![0x20u8, 0x6Cu8, 0x75u8, 0x6Bu8, 0x73u8, 0x2Eu8, 0x6Bu8, 0x65u8, 0x79u8, 0x3Du8]
}

/// The character of the standard Base64 alphabet (`A-Z`, `a-z`, `0-9`, `+`, `/`) for the
/// 6-bit value `v`.
pub open spec fn base64_char(v: int) -> u8 {
    if v < 26 {
        (0x41 + v) as u8
    } else if v < 52 {
        (0x61 + v - 26) as u8
    } else if v < 62 {
        (0x30 + v - 52) as u8
    } else if v == 62 {
        0x2Bu8
    } else {
        0x2Fu8
    }
}

/// The unpadded standard Base64 encoding of `data`: each group of 3 bytes becomes 4
/// characters of 6 bits each, most significant first; a final group of 1 or 2 bytes is
/// filled with zero bits and becomes 2 or 3 characters.
pub open spec fn base64_unpadded(data: Seq<u8>) -> Seq<u8>
    decreases data.len(),
{
    if data.len() == 0 {
        Seq::<u8>::empty()
    } else if data.len() == 1 {
        seq![base64_char(data[0] as int / 4), base64_char((data[0] as int % 4) * 16)]
    } else if data.len() == 2 {
        seq![
            base64_char(data[0] as int / 4),
            base64_char((data[0] as int % 4) * 16 + data[1] as int / 16),
            base64_char((data[1] as int % 16) * 4),
        ]
    } else {
        seq![
            base64_char(data[0] as int / 4),
            base64_char((data[0] as int % 4) * 16 + data[1] as int / 16),
            base64_char((data[1] as int % 16) * 4 + data[2] as int / 64),
            base64_char(data[2] as int % 64),
        ] + base64_unpadded(data.skip(3))
    }
}

/// The length of the unpadded Base64 encoding of `n` bytes: `4n / 3` rounded up.
pub open spec fn base64_unpadded_len(n: int) -> int {
    (4 * n + 2) / 3
}

/// The encoding is `4n / 3` characters long, rounded up.
pub proof fn lemma_base64_unpadded_len(data: Seq<u8>)
    ensures
        base64_unpadded(data).len() == base64_unpadded_len(data.len() as int),
    decreases data.len(),
{
    if data.len() > 2 {
        lemma_base64_unpadded_len(data.skip(3));
    }
}

/// Calls `Base64Unpadded::encoded_len`: `4n / 3` rounded up for `n` input bytes, or 0 when
/// `4n` overflows a `usize`.
#[verifier::external_body]
fn base64_encoded_len(data: &[u8]) -> (r: usize)
    ensures
        4 * data@.len() <= usize::MAX ==> r == base64_unpadded_len(data@.len() as int),
        4 * data@.len() > usize::MAX ==> r == 0,
{
    Base64Unpadded::encoded_len(data)
}

/// Calls `Base64Unpadded::encode` with `dst[start..]` as the output buffer. It fails, and
/// writes nothing, when `4n` overflows a `usize` or the encoding does not fit; otherwise it
/// writes the unpadded standard Base64 encoding at `start` and leaves the other bytes as
/// they were.
#[verifier::external_body]
fn base64_encode_into(data: &[u8], dst: &mut Vec<u8>, start: usize) -> (r: Result<
    (),
    base64ct::InvalidLengthError,
>)
    requires
        start <= old(dst)@.len(),
    ensures
        r is Ok <==> (4 * data@.len() <= usize::MAX && start + base64_unpadded_len(
            data@.len() as int,
        ) <= old(dst)@.len()),
        r is Ok ==> final(dst)@ == old(dst)@.subrange(0, start as int) + base64_unpadded(data@)
            + old(dst)@.subrange(
            start + base64_unpadded_len(data@.len() as int),
            old(dst)@.len() as int,
        ),
        r is Err ==> final(dst)@ == old(dst)@,
{
    Base64Unpadded::encode(data, &mut dst[start..]).map(|_| ())
}

/// Why the key cannot be injected.
#[derive(Debug)]
pub enum LuksError {
    /// The combined command line length overflows a `usize`.
    LengthOverflow,
    /// Base64 encoding of the key failed.
    EncodeFailed(base64ct::InvalidLengthError),
}

impl LuksError {
    /// A one-line description of the error.
    pub fn message(&self) -> (r: &'static str)
        ensures
            self is LengthOverflow ==> r@ == "combined command line length overflow"@,
            self is EncodeFailed ==> r@ == "Failed to encode LUKS key"@,
    {
        match self {
            LuksError::LengthOverflow => "combined command line length overflow",
            LuksError::EncodeFailed(_) => "Failed to encode LUKS key",
        }
    }
}

/// Appends `src` to `dst`.
fn append_bytes(dst: &mut Vec<u8>, src: &[u8])
    ensures
        final(dst)@ == old(dst)@ + src@,
{
    let mut i: usize = 0;
    while i < src.len()
        invariant
            i <= src@.len(),
            dst@ == old(dst)@ + src@.subrange(0, i as int),
        decreases src@.len() - i,
    {
        dst.push(src[i]);
        i = i + 1;
        assert(src@.subrange(0, i as int) =~= src@.subrange(0, i - 1) + seq![src@[i - 1]]);
        assert(dst@ =~= old(dst)@ + src@.subrange(0, i as int));
    }
    assert(src@.subrange(0, i as int) =~= src@);
}

/// The key that the contents of the `luks` file give: none when the file is missing or
/// empty.
pub open spec fn key_present(key: Option<&[u8]>) -> bool {
    key matches Some(k) && k@.len() > 0
}

/// The command line that `try_inject` starts from: the given one, or an empty one,
/// without trailing terminators.
pub open spec fn base_cmdline(cmdline: Option<&[u8]>) -> Seq<u8> {
    match cmdline {
        Some(c) => trim_terminators(c@),
        None => Seq::<u8>::empty(),
    }
}

/// What `try_inject` returns for `cmdline` and `key`.
pub open spec fn inject_outcome(
    cmdline: Option<&[u8]>,
    key: Option<&[u8]>,
    r: Result<Option<Vec<u8>>, LuksError>,
) -> bool {
    if !key_present(key) {
        r matches Ok(None)
    } else {
        let k = key.unwrap()@;
        let base = base_cmdline(cmdline);
        let encoded_len = if 4 * k.len() <= usize::MAX {
            base64_unpadded_len(k.len() as int)
        } else {
            0
        };
        if base.len() + 10 + encoded_len > usize::MAX {
            r matches Err(LuksError::LengthOverflow)
        } else if 4 * k.len() > usize::MAX {
            r matches Err(LuksError::EncodeFailed(_))
        } else {
            r matches Ok(Some(combined)) && combined@ == base + luks_key_prefix() + base64_unpadded(
                k,
            )
        }
    }
}

/// What injection gives: with no key file, or an empty one, the command line is left
/// alone; otherwise, whenever the combined length fits in memory, the result is the command
/// line without its trailing terminators, then ` luks.key=`, then the unpadded Base64
/// encoding of exactly the key's bytes, `4n / 3` characters rounded up for an `n`-byte key.
pub proof fn lemma_inject_appends_key(
    cmdline: Option<&[u8]>,
    key: Option<&[u8]>,
    r: Result<Option<Vec<u8>>, LuksError>,
)
    requires
        inject_outcome(cmdline, key, r),
    ensures
        !key_present(key) ==> (r matches Ok(None)),
        (key matches Some(k) && k@.len() > 0 && 4 * k@.len() <= usize::MAX && base_cmdline(
            cmdline,
        ).len() + 10 + (4 * k@.len() + 2) / 3 <= usize::MAX) ==> (r matches Ok(Some(combined))
            && combined@.len() == base_cmdline(cmdline).len() + 10 + (4 * key.unwrap()@.len() + 2)
            / 3 && combined@.subrange(0, base_cmdline(cmdline).len() as int) == base_cmdline(
            cmdline,
        ) && combined@.subrange(
            base_cmdline(cmdline).len() as int,
            base_cmdline(cmdline).len() + 10int,
        ) == seq![0x20u8, 0x6Cu8, 0x75u8, 0x6Bu8, 0x73u8, 0x2Eu8, 0x6Bu8, 0x65u8, 0x79u8, 0x3Du8]
            && combined@.subrange(base_cmdline(cmdline).len() + 10int, combined@.len() as int)
            == base64_unpadded(key.unwrap()@)),
{
    if key is Some {
        let k = key.unwrap();
        let base = base_cmdline(cmdline);
        let enc = base64_unpadded(k@);
        lemma_base64_unpadded_len(k@);
        if k@.len() > 0 && 4 * k@.len() <= usize::MAX && base.len() + 10 + (4 * k@.len() + 2) / 3
            <= usize::MAX {
            let c = r->Ok_0->Some_0@;
            assert(c == base + luks_key_prefix() + enc);
            assert(c.subrange(0, base.len() as int) =~= base);
            assert(c.subrange(base.len() as int, base.len() + 10int) =~= luks_key_prefix());
            assert(c.subrange(base.len() + 10int, c.len() as int) =~= enc);
        }
    }
}

/// Injects the LUKS key read from the ESP `luks` file into the kernel command line.
///
/// `key` holds the contents of the `luks` file, or `None` when there is no such file. With
/// no key (absent or empty file) the command line is left alone (`Ok(None)`). Otherwise
/// the result is the command line without trailing terminators, followed by ` luks.key=`
/// and the unpadded Base64 encoding of the key.
pub fn try_inject(cmdline: Option<&[u8]>, key: Option<&[u8]>) -> (r: Result<Option<Vec<u8>>, LuksError>)
    ensures
        inject_outcome(cmdline, key, r),
{
    let luks_data = match key {
        Some(k) => {
            if k.len() == 0 {
                return Ok(None);
            }
            k
        },
        None => return Ok(None),
    };
    let empty: [u8; 0] = [];
    let source: &[u8] = match cmdline {
        Some(c) => c,
        None => empty.as_slice(),
    };
    let base_cmd = strip_trailing_terminators(source);
    proof {
        if cmdline is None {
            assert(source@ =~= Seq::<u8>::empty());
            assert(trim_terminators(source@) == source@);
        }
    }
    let encoded_len = base64_encoded_len(luks_data);
    let prefix = LUKS_KEY_PREFIX;
    if base_cmd.len() > usize::MAX - 10 {
        return Err(LuksError::LengthOverflow);
    }
    let with_prefix = base_cmd.len() + 10;
    if with_prefix > usize::MAX - encoded_len {
        return Err(LuksError::LengthOverflow);
    }
    let total_len = with_prefix + encoded_len;
    let mut combined: Vec<u8> = Vec::with_capacity(total_len);
    append_bytes(&mut combined, base_cmd);
    append_bytes(&mut combined, prefix.as_slice());
    assert(prefix@ =~= luks_key_prefix());
    let start = combined.len();
    combined.resize(total_len, 0u8);
    match base64_encode_into(luks_data, &mut combined, start) {
        Ok(()) => {
            proof {
                lemma_base64_unpadded_len(luks_data@);
                let encoded = base64_unpadded(luks_data@);
                assert(combined@ =~= base_cmd@ + luks_key_prefix() + encoded);
            }
            Ok(Some(combined))
        },
        Err(e) => Err(LuksError::EncodeFailed(e)),
    }
}

} // verus!
