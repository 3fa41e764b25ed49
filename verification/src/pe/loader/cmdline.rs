//! Command line handling for the PE/COFF loader.

use vstd::prelude::*;

verus! {

/// A byte that ends a command line: NUL or ASCII whitespace (space, tab, line feed,
/// form feed, carriage return), as `u8::is_ascii_whitespace` defines it.
pub open spec fn is_terminator(b: u8) -> bool {
    b == 0u8 || b == 0x20u8 || b == 0x09u8 || b == 0x0Au8 || b == 0x0Cu8 || b == 0x0Du8
}

/// `s` with every trailing terminator byte removed.
pub open spec fn trim_terminators(s: Seq<u8>) -> Seq<u8>
    decreases s.len(),
{
    if s.len() == 0 {
        s
    } else if is_terminator(s.last()) {
        trim_terminators(s.drop_last())
    } else {
        s
    }
}

/// What characterises the trimmed command line: it is a prefix of `s` that does not end
/// in a terminator, and everything cut off consists of terminators.
pub open spec fn is_trimmed_prefix(s: Seq<u8>, t: Seq<u8>) -> bool {
    &&& t.len() <= s.len()
    &&& t == s.subrange(0, t.len() as int)
    &&& t.len() == 0 || !is_terminator(t.last())
    &&& forall|i: int| t.len() <= i < s.len() ==> is_terminator(#[trigger] s[i])
}

/// The trimmed command line is the characterised prefix.
pub proof fn lemma_trim_terminators(s: Seq<u8>)
    ensures
        is_trimmed_prefix(s, trim_terminators(s)),
    decreases s.len(),
{
    if s.len() > 0 && is_terminator(s.last()) {
        lemma_trim_terminators(s.drop_last());
        let t = trim_terminators(s.drop_last());
        assert(t == s.subrange(0, t.len() as int));
        assert forall|i: int| t.len() <= i < s.len() implies is_terminator(#[trigger] s[i]) by {
            if i < s.len() - 1 {
                assert(s[i] == s.drop_last()[i]);
            }
        }
    } else {
        assert(s == s.subrange(0, s.len() as int));
    }
}

/// Only one prefix has the characterising property.
pub proof fn lemma_trimmed_prefix_unique(s: Seq<u8>, t1: Seq<u8>, t2: Seq<u8>)
    requires
        is_trimmed_prefix(s, t1),
        is_trimmed_prefix(s, t2),
    ensures
        t1 == t2,
{
    if t1.len() < t2.len() {
        assert(t2.last() == s[t2.len() - 1]);
    } else if t2.len() < t1.len() {
        assert(t1.last() == s[t1.len() - 1]);
    }
    assert(t1 =~= t2);
}

/// Trimming is idempotent: a trimmed command line has nothing left to strip.
pub proof fn lemma_trim_terminators_idempotent(s: Seq<u8>)
    ensures
        trim_terminators(trim_terminators(s)) == trim_terminators(s),
{
    let t = trim_terminators(s);
    lemma_trim_terminators(s);
    lemma_trim_terminators(t);
    assert(is_trimmed_prefix(t, t)) by {
        assert(t == t.subrange(0, t.len() as int));
    }
    lemma_trimmed_prefix_unique(t, t, trim_terminators(t));
}

/// Whether `b` ends a command line (`b == 0 || b.is_ascii_whitespace()`).
fn is_terminator_byte(b: u8) -> (r: bool)
    ensures
        r == is_terminator(b),
{
    b == 0 || b == 0x20 || b == 0x09 || b == 0x0A || b == 0x0C || b == 0x0D
}

/// Strips trailing NUL and ASCII whitespace bytes from a command line.
pub fn strip_trailing_terminators(data: &[u8]) -> (r: &[u8])
    ensures
        r@ == trim_terminators(data@),
        is_trimmed_prefix(data@, r@),
{
    let mut end: usize = data.len();
    while end > 0 && is_terminator_byte(data[end - 1])
        invariant
            end <= data@.len(),
            forall|i: int| end <= i < data@.len() ==> is_terminator(#[trigger] data@[i]),
        decreases end,
    {
        end = end - 1;
    }
    let r = &data[0..end];
    proof {
        assert(r@ =~= data@.subrange(0, end as int));
        lemma_trim_terminators(data@);
        lemma_trimmed_prefix_unique(data@, r@, trim_terminators(data@));
    }
    r
}

/// Why a command line cannot be encoded for the kernel.
#[derive(Clone, Copy, Debug, PartialEq, Eq)]
pub enum CmdlineError {
    /// The character count with the terminator overflows a `usize`.
    LengthOverflow,
    /// The byte size of the UCS-2 buffer overflows a `usize`.
    ByteLengthOverflow,
    /// The UCS-2 buffer is larger than a `u32` load-options size can describe.
    BufferTooLarge,
}

impl CmdlineError {
    /// A one-line description of the error.
    pub fn message(&self) -> (r: &'static str)
        ensures
            *self == CmdlineError::LengthOverflow ==> r@ == "command line length overflow"@,
            *self == CmdlineError::ByteLengthOverflow ==> r@
                == "command line byte length overflow"@,
            *self == CmdlineError::BufferTooLarge ==> r@ == "command line buffer too large"@,
    {
        match self {
            CmdlineError::LengthOverflow => "command line length overflow",
            CmdlineError::ByteLengthOverflow => "command line byte length overflow",
            CmdlineError::BufferTooLarge => "command line buffer too large",
        }
    }
}

/// `b` is the NUL-terminated UCS-2 (UTF-16LE) encoding of the byte string `cmd`, each
/// byte taken as one code unit.
pub open spec fn is_ucs2_of(b: Seq<u8>, cmd: Seq<u8>) -> bool {
    &&& b.len() == 2 * (cmd.len() + 1)
    &&& forall|i: int| 0 <= i < cmd.len() ==> #[trigger] b[2 * i] == cmd[i] && b[2 * i + 1] == 0
    &&& b[2 * cmd.len() as int] == 0
    &&& b[2 * cmd.len() as int + 1] == 0
}

/// The outcome of encoding `cmdline`: the buffer and its size in bytes, an empty buffer
/// and size 0 when nothing is left after stripping terminators, or the size error.
pub open spec fn encode_ucs2_outcome(cmdline: Seq<u8>, r: Result<(Seq<u8>, u32), CmdlineError>) -> bool {
    let cmd = trim_terminators(cmdline);
    if cmd.len() == 0 {
        r == Ok::<(Seq<u8>, u32), CmdlineError>((Seq::<u8>::empty(), 0u32))
    } else if cmd.len() + 1 > usize::MAX {
        r == Err::<(Seq<u8>, u32), CmdlineError>(CmdlineError::LengthOverflow)
    } else if 2 * (cmd.len() + 1) > usize::MAX {
        r == Err::<(Seq<u8>, u32), CmdlineError>(CmdlineError::ByteLengthOverflow)
    } else if 2 * (cmd.len() + 1) > u32::MAX {
        r == Err::<(Seq<u8>, u32), CmdlineError>(CmdlineError::BufferTooLarge)
    } else {
        r matches Ok((b, size)) && is_ucs2_of(b, cmd) && size == b.len()
    }
}

/// Converts an ASCII command line to a NUL-terminated UCS-2 (UTF-16LE) buffer, after
/// stripping trailing terminators. Returns the buffer and its size in bytes; an empty
/// command line gives an empty buffer and size 0 (no load options).
pub fn encode_ucs2(cmdline: &[u8]) -> (r: Result<(Vec<u8>, u32), CmdlineError>)
    ensures
        encode_ucs2_outcome(
            cmdline@,
            match r {
                Ok((b, size)) => Ok((b@, size)),
                Err(e) => Err(e),
            },
        ),
{
    let cmd = strip_trailing_terminators(cmdline);
    let n = cmd.len();
    if n == 0 {
        let empty: Vec<u8> = Vec::new();
        assert(empty@ =~= Seq::<u8>::empty());
        return Ok((empty, 0));
    }
    if n == usize::MAX {
        return Err(CmdlineError::LengthOverflow);
    }
    let ucs2_len = n + 1;
    if ucs2_len > usize::MAX / 2 {
        return Err(CmdlineError::ByteLengthOverflow);
    }
    let byte_size = ucs2_len * 2;
    if byte_size > u32::MAX as usize {
        return Err(CmdlineError::BufferTooLarge);
    }
    let mut buf: Vec<u8> = Vec::with_capacity(byte_size);
    let mut i: usize = 0;
    while i < n
        invariant
            n == cmd@.len(),
            i <= n,
            buf@.len() == 2 * i,
            forall|k: int| 0 <= k < i ==> #[trigger] buf@[2 * k] == cmd@[k] && buf@[2 * k + 1] == 0,
        decreases n - i,
    {
        let ghost before = buf@;
        buf.push(cmd[i]);
        buf.push(0u8);
        proof {
            assert forall|k: int| 0 <= k < i + 1 implies #[trigger] buf@[2 * k] == cmd@[k] && buf@[2
                * k + 1] == 0 by {
                if k < i {
                    assert(buf@[2 * k] == before[2 * k]);
                    assert(buf@[2 * k + 1] == before[2 * k + 1]);
                }
            }
        }
        i = i + 1;
    }
    let ghost body = buf@;
    buf.push(0u8);
    buf.push(0u8);
    proof {
        assert forall|k: int| 0 <= k < n implies #[trigger] buf@[2 * k] == cmd@[k] && buf@[2 * k
            + 1] == 0 by {
            assert(buf@[2 * k] == body[2 * k]);
            assert(buf@[2 * k + 1] == body[2 * k + 1]);
        }
        assert(is_ucs2_of(buf@, cmd@));
    }
    Ok((buf, byte_size as u32))
}

/// What the kernel receives: once trailing terminators are stripped, an empty command line
/// gives no load options, and any other command line whose encoding fits the `u32` size of
/// the load options is passed in full, each byte widened to a 16-bit code unit and followed
/// by a 16-bit NUL; encoding fails only when that size is exceeded.
pub proof fn lemma_encode_ucs2_complete(cmdline: Seq<u8>, r: Result<(Seq<u8>, u32), CmdlineError>)
    requires
        encode_ucs2_outcome(cmdline, r),
    ensures
        ({
            let cmd = trim_terminators(cmdline);
            &&& cmd.len() == 0 ==> r == Ok::<(Seq<u8>, u32), CmdlineError>(
                (Seq::<u8>::empty(), 0u32),
            )
            &&& r is Err ==> 2 * (cmd.len() + 1) > u32::MAX
            &&& (cmd.len() > 0 && 2 * (cmd.len() + 1) <= u32::MAX) ==> (r matches Ok((b, size))
                && size == 2 * (cmd.len() + 1) && b.len() == size && (forall|i: int|
                0 <= i < cmd.len() ==> b[2 * i] == #[trigger] cmd[i] && b[2 * i + 1] == 0)
                && b[size - 2] == 0 && b[size - 1] == 0)
        }),
{
}

/// Trailing terminators never reach the kernel: a command line and its stripped form
/// encode to the same buffer.
pub proof fn lemma_encode_ignores_trailing_terminators(
    cmdline: Seq<u8>,
    r: Result<(Seq<u8>, u32), CmdlineError>,
)
    requires
        encode_ucs2_outcome(cmdline, r),
    ensures
        encode_ucs2_outcome(trim_terminators(cmdline), r),
{
    lemma_trim_terminators_idempotent(cmdline);
}

} // verus!
