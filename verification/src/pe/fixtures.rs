//! A builder of small PE32+ files, used to exercise kernel image parsing.
//!
//! The files it builds have a DOS header, NT headers with a 64-bit optional header and 16
//! data directories, a section table, and one 0x200-aligned block of raw data per section.

use vstd::prelude::*;

use crate::pe::le::{le_u16, le_u32, le_u64};

verus! {

/// File alignment of the built images, as a `u32`.
pub const FILE_ALIGN_U32: u32 = 0x200;

/// File alignment of the built images.
pub const FILE_ALIGN: usize = 0x200;

/// Offset of the NT headers (the `e_lfanew` value).
pub const NT_OFFSET: usize = 0x40;

/// Offset of the NT headers, as a `u32`.
pub const NT_OFFSET_U32: u32 = 0x40;

/// Offset of the COFF file header.
pub const FILE_HEADER_OFF: usize = NT_OFFSET + 4;

/// Offset of the optional header.
pub const OPT_OFF: usize = NT_OFFSET + 4 + 20;

/// Offset of the data directories.
pub const DD_OFF: usize = OPT_OFF + 112;

/// Offset of the section table.
pub const SHDR_OFF: usize = DD_OFF + 16 * 8;

/// Index of the base relocation table among the data directories.
pub const IMAGE_DIRECTORY_ENTRY_BASERELOC: usize = 5;

/// `s` with `v` written over it at `off`.
#[verifier::opaque]
pub open spec fn overwritten(s: Seq<u8>, off: int, v: Seq<u8>) -> Seq<u8> {
    s.subrange(0, off) + v + s.subrange(off + v.len(), s.len() as int)
}

/// `n` zero bytes.
pub open spec fn zeros(n: nat) -> Seq<u8> {
    Seq::new(n, |i: int| 0u8)
}

/// The little-endian bytes of a 16-bit value.
pub open spec fn le_bytes_u16(v: u16) -> Seq<u8> {
    seq![(v & 0xff) as u8, ((v >> 8u16) & 0xff) as u8]
}

/// The little-endian bytes of a 32-bit value.
pub open spec fn le_bytes_u32(v: u32) -> Seq<u8> {
    seq![
        (v & 0xff) as u8,
        ((v >> 8u32) & 0xff) as u8,
        ((v >> 16u32) & 0xff) as u8,
        ((v >> 24u32) & 0xff) as u8,
    ]
}

/// The little-endian bytes of a 64-bit value.
pub open spec fn le_bytes_u64(v: u64) -> Seq<u8> {
    le_bytes_u32((v & 0xffff_ffff) as u32) + le_bytes_u32((v >> 32u64) as u32)
}

/// Reading back a written 16-bit field gives the written value; other bytes are kept.
pub proof fn lemma_le_u16_roundtrip(s: Seq<u8>, off: int, v: u16)
    requires
        0 <= off,
        off + 2 <= s.len(),
    ensures
        le_u16(overwritten(s, off, le_bytes_u16(v)), off) == v,
        overwritten(s, off, le_bytes_u16(v)).len() == s.len(),
        forall|i: int|
            0 <= i < s.len() && !(off <= i < off + 2) ==> #[trigger] overwritten(
                s,
                off,
                le_bytes_u16(v),
            )[i] == s[i],
{
    reveal(overwritten);
    let w = overwritten(s, off, le_bytes_u16(v));
    assert(w[off] == (v & 0xff) as u8);
    assert(w[off + 1] == ((v >> 8u16) & 0xff) as u8);
    assert(v == ((v & 0xff) as u8) as u16 + (((v >> 8u16) & 0xff) as u8) as u16 * 0x100)
        by (bit_vector);
}

/// Reading back a written 32-bit field gives the written value; other bytes are kept.
pub proof fn lemma_le_u32_roundtrip(s: Seq<u8>, off: int, v: u32)
    requires
        0 <= off,
        off + 4 <= s.len(),
    ensures
        le_u32(overwritten(s, off, le_bytes_u32(v)), off) == v,
        overwritten(s, off, le_bytes_u32(v)).len() == s.len(),
        forall|i: int|
            0 <= i < s.len() && !(off <= i < off + 4) ==> #[trigger] overwritten(
                s,
                off,
                le_bytes_u32(v),
            )[i] == s[i],
{
    reveal(overwritten);
    let w = overwritten(s, off, le_bytes_u32(v));
    assert(w[off] == (v & 0xff) as u8);
    assert(w[off + 1] == ((v >> 8u32) & 0xff) as u8);
    assert(w[off + 2] == ((v >> 16u32) & 0xff) as u8);
    assert(w[off + 3] == ((v >> 24u32) & 0xff) as u8);
    assert(v == ((v & 0xff) as u8) as u32 + (((v >> 8u32) & 0xff) as u8) as u32 * 0x100 + (((v
        >> 16u32) & 0xff) as u8) as u32 * 0x1_0000 + (((v >> 24u32) & 0xff) as u8) as u32
        * 0x100_0000) by (bit_vector);
}

/// Reading back a written 64-bit field gives the written value; other bytes are kept.
pub proof fn lemma_le_u64_roundtrip(s: Seq<u8>, off: int, v: u64)
    requires
        0 <= off,
        off + 8 <= s.len(),
    ensures
        le_u64(overwritten(s, off, le_bytes_u64(v)), off) == v,
        overwritten(s, off, le_bytes_u64(v)).len() == s.len(),
        forall|i: int|
            0 <= i < s.len() && !(off <= i < off + 8) ==> #[trigger] overwritten(
                s,
                off,
                le_bytes_u64(v),
            )[i] == s[i],
{
    reveal(overwritten);
    let lo = (v & 0xffff_ffff) as u32;
    let hi = (v >> 32u64) as u32;
    let w = overwritten(s, off, le_bytes_u64(v));
    let wl = overwritten(s, off, le_bytes_u32(lo));
    lemma_le_u32_roundtrip(s, off, lo);
    lemma_le_u32_roundtrip(s, off + 4, hi);
    assert(w.subrange(off, off + 4) =~= wl.subrange(off, off + 4));
    assert(le_u32(w, off) == le_u32(wl, off)) by {
        assert(w[off] == wl[off]);
        assert(w[off + 1] == wl[off + 1]);
        assert(w[off + 2] == wl[off + 2]);
        assert(w[off + 3] == wl[off + 3]);
    }
    let wh = overwritten(s, off + 4, le_bytes_u32(hi));
    assert(le_u32(w, off + 4) == le_u32(wh, off + 4)) by {
        assert(w[off + 4] == wh[off + 4]);
        assert(w[off + 5] == wh[off + 5]);
        assert(w[off + 6] == wh[off + 6]);
        assert(w[off + 7] == wh[off + 7]);
    }
    assert(v == lo as u64 + hi as u64 * 0x1_0000_0000) by (bit_vector)
        requires
            lo == (v & 0xffff_ffff) as u32,
            hi == (v >> 32u64) as u32,
    ;
}

/// `value` rounded up to a multiple of `FILE_ALIGN`.
pub open spec fn file_align_up(value: int) -> int {
    (value + FILE_ALIGN - 1) / FILE_ALIGN as int * FILE_ALIGN
}

/// The 0x200-byte header block of a new builder: DOS header, NT headers and an empty
/// section table, everything else zero.
pub open spec fn header_template() -> Seq<u8> {
    let s = zeros(FILE_ALIGN as nat);
    let s = overwritten(s, 0, seq![0x4Du8, 0x5Au8]);
    let s = overwritten(s, 0x3C, le_bytes_u32(NT_OFFSET_U32));
    let s = overwritten(s, NT_OFFSET as int, seq![0x50u8, 0x45u8]);
    let s = overwritten(s, FILE_HEADER_OFF as int, le_bytes_u16(0x8664));
    let s = overwritten(s, FILE_HEADER_OFF + 16, le_bytes_u16(0xF0));
    let s = overwritten(s, FILE_HEADER_OFF + 18, le_bytes_u16(0x0002));
    let s = overwritten(s, OPT_OFF as int, le_bytes_u16(0x020B));
    let s = overwritten(s, OPT_OFF + 16, le_bytes_u32(FILE_ALIGN_U32));
    let s = overwritten(s, OPT_OFF + 24, le_bytes_u64(0x0000_0000_0400_0000));
    let s = overwritten(s, OPT_OFF + 32, le_bytes_u32(FILE_ALIGN_U32));
    let s = overwritten(s, OPT_OFF + 36, le_bytes_u32(FILE_ALIGN_U32));
    let s = overwritten(s, OPT_OFF + 44, le_bytes_u16(1));
    let s = overwritten(s, OPT_OFF + 56, le_bytes_u32(FILE_ALIGN_U32));
    let s = overwritten(s, OPT_OFF + 60, le_bytes_u32(FILE_ALIGN_U32));
    overwritten(s, OPT_OFF + 108, le_bytes_u32(16))
}

/// Writing `v` at `off` replaces exactly the bytes `off .. off + v.len()`.
pub proof fn lemma_overwritten(s: Seq<u8>, off: int, v: Seq<u8>)
    requires
        0 <= off,
        off + v.len() <= s.len(),
    ensures
        overwritten(s, off, v).len() == s.len(),
        forall|i: int|
            0 <= i < s.len() ==> #[trigger] overwritten(s, off, v)[i] == if off <= i < off
                + v.len() {
                v[i - off]
            } else {
                s[i]
            },
{
    reveal(overwritten);
}

/// The fields of the header block of a new builder, read back as the PE format reads them.
pub proof fn lemma_header_template_fields()
    ensures
        ({
            let t = header_template();
            &&& t.len() == FILE_ALIGN
            &&& le_u16(t, 0) == 0x5A4D
            &&& le_u32(t, 0x3C) == NT_OFFSET
            &&& le_u32(t, NT_OFFSET as int) == 0x4550
            &&& le_u16(t, FILE_HEADER_OFF as int) == 0x8664
            &&& le_u16(t, FILE_HEADER_OFF + 2) == 0
            &&& le_u16(t, FILE_HEADER_OFF + 16) == 0xF0
            &&& le_u16(t, FILE_HEADER_OFF + 18) == 0x0002
            &&& le_u16(t, OPT_OFF as int) == 0x020B
            &&& le_u32(t, OPT_OFF + 16) == FILE_ALIGN
            &&& le_u64(t, OPT_OFF + 24) == 0x0400_0000
            &&& le_u32(t, OPT_OFF + 32) == FILE_ALIGN
            &&& le_u32(t, OPT_OFF + 36) == FILE_ALIGN
            &&& le_u16(t, OPT_OFF + 44) == 1
            &&& le_u32(t, OPT_OFF + 56) == FILE_ALIGN
            &&& le_u32(t, OPT_OFF + 60) == FILE_ALIGN
            &&& le_u16(t, OPT_OFF + 70) == 0
            &&& le_u32(t, OPT_OFF + 108) == 16
        }),
{
    let s0 = zeros(FILE_ALIGN as nat);
    let s1 = overwritten(s0, 0, seq![0x4Du8, 0x5Au8]);
    let s2 = overwritten(s1, 0x3C, le_bytes_u32(NT_OFFSET_U32));
    let s3 = overwritten(s2, NT_OFFSET as int, seq![0x50u8, 0x45u8]);
    let s4 = overwritten(s3, FILE_HEADER_OFF as int, le_bytes_u16(0x8664));
    let s5 = overwritten(s4, FILE_HEADER_OFF + 16, le_bytes_u16(0xF0));
    let s6 = overwritten(s5, FILE_HEADER_OFF + 18, le_bytes_u16(0x0002));
    let s7 = overwritten(s6, OPT_OFF as int, le_bytes_u16(0x020B));
    let s8 = overwritten(s7, OPT_OFF + 16, le_bytes_u32(FILE_ALIGN_U32));
    let s9 = overwritten(s8, OPT_OFF + 24, le_bytes_u64(0x0000_0000_0400_0000));
    let s10 = overwritten(s9, OPT_OFF + 32, le_bytes_u32(FILE_ALIGN_U32));
    let s11 = overwritten(s10, OPT_OFF + 36, le_bytes_u32(FILE_ALIGN_U32));
    let s12 = overwritten(s11, OPT_OFF + 44, le_bytes_u16(1));
    let s13 = overwritten(s12, OPT_OFF + 56, le_bytes_u32(FILE_ALIGN_U32));
    let s14 = overwritten(s13, OPT_OFF + 60, le_bytes_u32(FILE_ALIGN_U32));
    let t = overwritten(s14, OPT_OFF + 108, le_bytes_u32(16));
    assert(t == header_template());
    lemma_overwritten(s0, 0, seq![0x4Du8, 0x5Au8]);
    lemma_le_u32_roundtrip(s1, 0x3C, NT_OFFSET_U32);
    lemma_overwritten(s2, NT_OFFSET as int, seq![0x50u8, 0x45u8]);
    lemma_le_u16_roundtrip(s3, FILE_HEADER_OFF as int, 0x8664);
    lemma_le_u16_roundtrip(s4, FILE_HEADER_OFF + 16, 0xF0);
    lemma_le_u16_roundtrip(s5, FILE_HEADER_OFF + 18, 0x0002);
    lemma_le_u16_roundtrip(s6, OPT_OFF as int, 0x020B);
    lemma_le_u32_roundtrip(s7, OPT_OFF + 16, FILE_ALIGN_U32);
    lemma_le_u64_roundtrip(s8, OPT_OFF + 24, 0x0000_0000_0400_0000);
    lemma_le_u32_roundtrip(s9, OPT_OFF + 32, FILE_ALIGN_U32);
    lemma_le_u32_roundtrip(s10, OPT_OFF + 36, FILE_ALIGN_U32);
    lemma_le_u16_roundtrip(s11, OPT_OFF + 44, 1);
    lemma_le_u32_roundtrip(s12, OPT_OFF + 56, FILE_ALIGN_U32);
    lemma_le_u32_roundtrip(s13, OPT_OFF + 60, FILE_ALIGN_U32);
    lemma_le_u32_roundtrip(s14, OPT_OFF + 108, 16);
}

/// The bytes that `add_section` writes for section `n`, on top of `resized`.
pub open spec fn added_section_bytes(
    resized: Seq<u8>,
    n: int,
    name: Seq<u8>,
    content: Seq<u8>,
) -> Seq<u8> {
    let raw_offset = FILE_ALIGN * (n + 1);
    let raw_size = file_align_up(content.len() as int);
    let needed = raw_offset + raw_size;
    let hdr = section_header_offset_spec(n);
    let s = overwritten(resized, raw_offset, content);
    let s = overwritten(s, hdr, name);
    let s = overwritten(s, hdr + 8, le_bytes_u32(content.len() as u32));
    let s = overwritten(s, hdr + 12, le_bytes_u32(raw_offset as u32));
    let s = overwritten(s, hdr + 16, le_bytes_u32(raw_size as u32));
    let s = overwritten(s, hdr + 20, le_bytes_u32(raw_offset as u32));
    let s = overwritten(s, FILE_HEADER_OFF + 2, le_bytes_u16((n + 1) as u16));
    overwritten(s, OPT_OFF + 56, le_bytes_u32(needed as u32))
}

/// The section header, data block, section count and image size that `add_section`
/// writes, read back as the PE format reads them.
pub proof fn lemma_added_section_fields(resized: Seq<u8>, n: int, name: Seq<u8>, content: Seq<u8>)
    requires
        0 <= n < u16::MAX,
        name.len() == 8,
        FILE_ALIGN * (n + 1) + file_align_up(content.len() as int) <= u32::MAX,
        resized.len() >= FILE_ALIGN * (n + 1) + file_align_up(content.len() as int),
    ensures
        ({
            let raw_offset = FILE_ALIGN * (n + 1);
            let raw_size = file_align_up(content.len() as int);
            let hdr = section_header_offset_spec(n);
            let b = added_section_bytes(resized, n, name, content);
            &&& b.len() == resized.len()
            &&& b.subrange(raw_offset, raw_offset + content.len()) == content
            &&& b.subrange(hdr, hdr + 8) == name
            &&& le_u32(b, hdr + 8) == content.len()
            &&& le_u32(b, hdr + 12) == raw_offset
            &&& le_u32(b, hdr + 16) == raw_size
            &&& le_u32(b, hdr + 20) == raw_offset
            &&& le_u16(b, FILE_HEADER_OFF + 2) == n + 1
            &&& le_u32(b, OPT_OFF + 56) == raw_offset + raw_size
        }),
{
    lemma_file_align_up(content.len() as int);
    let raw_offset = FILE_ALIGN * (n + 1);
    let raw_size = file_align_up(content.len() as int);
    let needed = raw_offset + raw_size;
    let hdr = section_header_offset_spec(n);
    let s1 = overwritten(resized, raw_offset, content);
    let s2 = overwritten(s1, hdr, name);
    let s3 = overwritten(s2, hdr + 8, le_bytes_u32(content.len() as u32));
    let s4 = overwritten(s3, hdr + 12, le_bytes_u32(raw_offset as u32));
    let s5 = overwritten(s4, hdr + 16, le_bytes_u32(raw_size as u32));
    let s6 = overwritten(s5, hdr + 20, le_bytes_u32(raw_offset as u32));
    let s7 = overwritten(s6, FILE_HEADER_OFF + 2, le_bytes_u16((n + 1) as u16));
    let b = overwritten(s7, OPT_OFF + 56, le_bytes_u32(needed as u32));
    lemma_overwritten(resized, raw_offset, content);
    lemma_overwritten(s1, hdr, name);
    lemma_le_u32_roundtrip(s2, hdr + 8, content.len() as u32);
    lemma_le_u32_roundtrip(s3, hdr + 12, raw_offset as u32);
    lemma_le_u32_roundtrip(s4, hdr + 16, raw_size as u32);
    lemma_le_u32_roundtrip(s5, hdr + 20, raw_offset as u32);
    lemma_le_u16_roundtrip(s6, FILE_HEADER_OFF + 2, (n + 1) as u16);
    lemma_le_u32_roundtrip(s7, OPT_OFF + 56, needed as u32);
    assert(b.subrange(raw_offset, raw_offset + content.len()) =~= content);
    assert(b.subrange(hdr, hdr + 8) =~= name);
}

/// Offset of the header of section `index` in the section table.
pub open spec fn section_header_offset_spec(index: int) -> int {
    SHDR_OFF + index * 40
}

/// A PE file under construction.
pub struct Builder {
    data: Vec<u8>,
    num_sections: u16,
}

impl Builder {
    /// The bytes built so far.
    pub closed spec fn bytes(&self) -> Seq<u8> {
        self.data@
    }

    /// The number of sections added so far.
    pub closed spec fn section_count(&self) -> u16 {
        self.num_sections
    }

    /// The header block is present, and every added section has its raw data block.
    pub closed spec fn wf(&self) -> bool {
        &&& self.data@.len() >= FILE_ALIGN
        &&& self.data@.len() >= FILE_ALIGN * self.num_sections
        &&& self.data@.len() <= usize::MAX
    }

    /// Starts a PE32+ file for x86-64 with an entry point at 0x200, an image base of
    /// 0x400_0000, `MajorImageVersion` 1, 16 data directories and no sections.
    pub fn new() -> (r: Self)
        ensures
            r.wf(),
            r.bytes() == header_template(),
            r.section_count() == 0,
            ({
                let t = r.bytes();
                &&& le_u16(t, 0) == 0x5A4D
                &&& le_u32(t, 0x3C) == NT_OFFSET
                &&& le_u32(t, NT_OFFSET as int) == 0x4550
                &&& le_u16(t, FILE_HEADER_OFF as int) == 0x8664
                &&& le_u16(t, FILE_HEADER_OFF + 2) == 0
                &&& le_u16(t, OPT_OFF as int) == 0x020B
                &&& le_u32(t, OPT_OFF + 16) == FILE_ALIGN
                &&& le_u64(t, OPT_OFF + 24) == 0x0400_0000
                &&& le_u16(t, OPT_OFF + 44) == 1
                &&& le_u32(t, OPT_OFF + 56) == FILE_ALIGN
                &&& le_u16(t, OPT_OFF + 70) == 0
                &&& le_u32(t, OPT_OFF + 108) == 16
            }),
    {
        proof {
            lemma_header_template_fields();
        }
        let hdr_size = FILE_ALIGN;
        let mut data: Vec<u8> = Vec::new();
        let mut i: usize = 0;
        while i < hdr_size
            invariant
                i <= hdr_size,
                hdr_size == FILE_ALIGN,
                data@ =~= zeros(i as nat),
            decreases hdr_size - i,
        {
            data.push(0u8);
            i = i + 1;
            assert(data@ =~= zeros(i as nat));
        }
        let magic: [u8; 2] = [0x4Du8, 0x5Au8];
        Self::write_bytes(&mut data, 0, magic.as_slice());
        assert(magic@ =~= seq![0x4Du8, 0x5Au8]);
        Self::write_u32(&mut data, 0x3C, NT_OFFSET_U32);
        let signature: [u8; 2] = [0x50u8, 0x45u8];
        Self::write_bytes(&mut data, NT_OFFSET, signature.as_slice());
        assert(signature@ =~= seq![0x50u8, 0x45u8]);

        let file_header = Self::offset(NT_OFFSET, 4);
        Self::write_u16(&mut data, file_header, 0x8664);
        Self::write_u16(&mut data, Self::offset(file_header, 16), 0xF0);
        Self::write_u16(&mut data, Self::offset(file_header, 18), 0x0002);

        Self::write_u16(&mut data, OPT_OFF, 0x020B);
        Self::write_u32(&mut data, Self::offset(OPT_OFF, 16), FILE_ALIGN_U32);
        Self::write_u64(&mut data, Self::offset(OPT_OFF, 24), 0x0000_0000_0400_0000);
        Self::write_u32(&mut data, Self::offset(OPT_OFF, 32), FILE_ALIGN_U32);
        Self::write_u32(&mut data, Self::offset(OPT_OFF, 36), FILE_ALIGN_U32);
        Self::write_u16(&mut data, Self::offset(OPT_OFF, 44), 1);
        Self::write_u32(&mut data, Self::offset(OPT_OFF, 56), FILE_ALIGN_U32);
        Self::write_u32(&mut data, Self::offset(OPT_OFF, 60), FILE_ALIGN_U32);
        Self::write_u32(&mut data, Self::offset(OPT_OFF, 108), 16);

        Self { data, num_sections: 0 }
    }

    /// Adds a section named `name` with `content` as its raw data, placed at the next
    /// 0x200-aligned block after the headers and the previous sections' blocks, and
    /// updates the section count and the image size.
    pub fn add_section(&mut self, name: [u8; 8], content: &[u8])
        requires
            old(self).wf(),
            old(self).section_count() < u16::MAX,
            FILE_ALIGN * (old(self).section_count() + 1) + file_align_up(content@.len() as int)
                <= u32::MAX,
        ensures
            final(self).wf(),
            final(self).section_count() == old(self).section_count() + 1,
            ({
                let n = old(self).section_count() as int;
                let raw_offset = FILE_ALIGN * (n + 1);
                let raw_size = file_align_up(content@.len() as int);
                let needed = raw_offset + raw_size;
                let resized = if old(self).bytes().len() >= needed {
                    old(self).bytes()
                } else {
                    old(self).bytes() + zeros((needed - old(self).bytes().len()) as nat)
                };
                let hdr = section_header_offset_spec(n);
                let b = final(self).bytes();
                &&& b == added_section_bytes(resized, n, name@, content@)
                &&& b.len() == resized.len()
                &&& b.subrange(raw_offset, raw_offset + content@.len()) == content@
                &&& b.subrange(hdr, hdr + 8) == name@
                &&& le_u32(b, hdr + 8) == content@.len()
                &&& le_u32(b, hdr + 12) == raw_offset
                &&& le_u32(b, hdr + 16) == raw_size
                &&& le_u32(b, hdr + 20) == raw_offset
                &&& le_u16(b, FILE_HEADER_OFF + 2) == n + 1
                &&& le_u32(b, OPT_OFF + 56) == needed
            }),
    {
        let section_index = self.num_sections as usize;
        let raw_offset = Self::checked_mul(FILE_ALIGN, Self::offset(section_index, 1));
        proof {
            lemma_file_align_up(content@.len() as int);
            lemma_file_align_up_fits_u32(content@.len() as int);
        }
        let raw_size = Self::align_up(content.len(), FILE_ALIGN);
        let needed = Self::offset(raw_offset, raw_size);
        let new_len = if self.data.len() >= needed {
            self.data.len()
        } else {
            needed
        };
        let ghost before = self.data@;
        let ghost n = self.num_sections as int;
        self.data.resize(new_len, 0u8);
        let ghost resized = self.data@;
        assert(self.data@ =~= if before.len() >= needed {
            before
        } else {
            before + zeros((needed - before.len()) as nat)
        });
        Self::write_bytes(&mut self.data, raw_offset, content);

        let section_header = Self::section_header_offset(self.num_sections);
        Self::write_bytes(&mut self.data, section_header, name.as_slice());
        Self::write_u32(
            &mut self.data,
            Self::offset(section_header, 8),
            Self::usize_to_u32(content.len()),
        );
        Self::write_u32(
            &mut self.data,
            Self::offset(section_header, 12),
            Self::usize_to_u32(raw_offset),
        );
        Self::write_u32(
            &mut self.data,
            Self::offset(section_header, 16),
            Self::usize_to_u32(raw_size),
        );
        Self::write_u32(
            &mut self.data,
            Self::offset(section_header, 20),
            Self::usize_to_u32(raw_offset),
        );

        self.num_sections = self.num_sections + 1;

        let file_header = Self::offset(NT_OFFSET, 4);
        Self::write_u16(&mut self.data, Self::offset(file_header, 2), self.num_sections);

        let new_image_size = Self::offset(raw_offset, raw_size);
        Self::write_u32(
            &mut self.data,
            Self::offset(OPT_OFF, 56),
            Self::usize_to_u32(new_image_size),
        );
        proof {
            lemma_added_section_fields(resized, n, name@, content@);
        }
    }

    /// Sets `PointerToRelocations` of the last added section.
    pub fn set_last_ptr_relocs(&mut self, ptr: u32)
        requires
            old(self).wf(),
            old(self).section_count() >= 1,
        ensures
            final(self).wf(),
            final(self).section_count() == old(self).section_count(),
            final(self).bytes() == overwritten(
                old(self).bytes(),
                section_header_offset_spec(old(self).section_count() - 1) + 24,
                le_bytes_u32(ptr),
            ),
            le_u32(final(self).bytes(), section_header_offset_spec(old(self).section_count() - 1) + 24)
                == ptr,
    {
        proof {
            lemma_le_u32_roundtrip(self.data@, section_header_offset_spec(self.num_sections - 1) + 24, ptr);
        }
        let section_header = self.last_section_header_offset();
        Self::write_u32(&mut self.data, Self::offset(section_header, 24), ptr);
    }

    /// Sets `DllCharacteristics`.
    pub fn set_dll_characteristics(&mut self, value: u16)
        requires
            old(self).wf(),
        ensures
            final(self).wf(),
            final(self).section_count() == old(self).section_count(),
            final(self).bytes() == overwritten(old(self).bytes(), OPT_OFF + 70, le_bytes_u16(value)),
            le_u16(final(self).bytes(), OPT_OFF + 70) == value,
    {
        proof {
            lemma_le_u16_roundtrip(self.data@, OPT_OFF + 70, value);
        }
        Self::write_u16(&mut self.data, Self::offset(OPT_OFF, 70), value);
    }

    /// Sets `MajorImageVersion`.
    pub fn set_major_image_version(&mut self, value: u16)
        requires
            old(self).wf(),
        ensures
            final(self).wf(),
            final(self).section_count() == old(self).section_count(),
            final(self).bytes() == overwritten(old(self).bytes(), OPT_OFF + 44, le_bytes_u16(value)),
            le_u16(final(self).bytes(), OPT_OFF + 44) == value,
    {
        proof {
            lemma_le_u16_roundtrip(self.data@, OPT_OFF + 44, value);
        }
        Self::write_u16(&mut self.data, Self::offset(OPT_OFF, 44), value);
    }

    /// Sets `AddressOfEntryPoint`.
    pub fn set_entry_point(&mut self, rva: u32)
        requires
            old(self).wf(),
        ensures
            final(self).wf(),
            final(self).section_count() == old(self).section_count(),
            final(self).bytes() == overwritten(old(self).bytes(), OPT_OFF + 16, le_bytes_u32(rva)),
            le_u32(final(self).bytes(), OPT_OFF + 16) == rva,
    {
        proof {
            lemma_le_u32_roundtrip(self.data@, OPT_OFF + 16, rva);
        }
        Self::write_u32(&mut self.data, Self::offset(OPT_OFF, 16), rva);
    }

    /// Sets the address and size of the base relocation data directory.
    pub fn set_base_reloc_dir(&mut self, vaddr: u32, size: u32)
        requires
            old(self).wf(),
        ensures
            final(self).wf(),
            final(self).section_count() == old(self).section_count(),
            final(self).bytes() == overwritten(
                overwritten(
                    old(self).bytes(),
                    DD_OFF + IMAGE_DIRECTORY_ENTRY_BASERELOC * 8,
                    le_bytes_u32(vaddr),
                ),
                DD_OFF + IMAGE_DIRECTORY_ENTRY_BASERELOC * 8 + 4,
                le_bytes_u32(size),
            ),
            le_u32(final(self).bytes(), DD_OFF + IMAGE_DIRECTORY_ENTRY_BASERELOC * 8) == vaddr,
            le_u32(final(self).bytes(), DD_OFF + IMAGE_DIRECTORY_ENTRY_BASERELOC * 8 + 4) == size,
    {
        let offset = Self::offset(DD_OFF, Self::checked_mul(IMAGE_DIRECTORY_ENTRY_BASERELOC, 8));
        let ghost before = self.data@;
        Self::write_u32(&mut self.data, offset, vaddr);
        let ghost middle = self.data@;
        Self::write_u32(&mut self.data, Self::offset(offset, 4), size);
        proof {
            lemma_le_u32_roundtrip(before, offset as int, vaddr);
            lemma_le_u32_roundtrip(middle, offset + 4, size);
        }
    }

    /// The finished file.
    pub fn build(self) -> (r: Vec<u8>)
        ensures
            r@ == self.bytes(),
    {
        self.data
    }

    fn write_u16(buf: &mut Vec<u8>, offset: usize, value: u16)
        requires
            offset + 2 <= old(buf)@.len(),
        ensures
            final(buf)@ == overwritten(old(buf)@, offset as int, le_bytes_u16(value)),
            final(buf)@.len() == old(buf)@.len(),
    {
        let bytes: [u8; 2] = [(value & 0xff) as u8, ((value >> 8u16) & 0xff) as u8];
        assert(bytes@ =~= le_bytes_u16(value));
        Self::write_bytes(buf, offset, bytes.as_slice());
    }

    fn write_u32(buf: &mut Vec<u8>, offset: usize, value: u32)
        requires
            offset + 4 <= old(buf)@.len(),
        ensures
            final(buf)@ == overwritten(old(buf)@, offset as int, le_bytes_u32(value)),
            final(buf)@.len() == old(buf)@.len(),
    {
        let bytes: [u8; 4] = [
            (value & 0xff) as u8,
            ((value >> 8u32) & 0xff) as u8,
            ((value >> 16u32) & 0xff) as u8,
            ((value >> 24u32) & 0xff) as u8,
        ];
        assert(bytes@ =~= le_bytes_u32(value));
        Self::write_bytes(buf, offset, bytes.as_slice());
    }

    fn write_u64(buf: &mut Vec<u8>, offset: usize, value: u64)
        requires
            offset + 8 <= old(buf)@.len(),
        ensures
            final(buf)@ == overwritten(old(buf)@, offset as int, le_bytes_u64(value)),
            final(buf)@.len() == old(buf)@.len(),
    {
        let lo = (value & 0xffff_ffff) as u32;
        let hi = (value >> 32u64) as u32;
        let bytes: [u8; 8] = [
            (lo & 0xff) as u8,
            ((lo >> 8u32) & 0xff) as u8,
            ((lo >> 16u32) & 0xff) as u8,
            ((lo >> 24u32) & 0xff) as u8,
            (hi & 0xff) as u8,
            ((hi >> 8u32) & 0xff) as u8,
            ((hi >> 16u32) & 0xff) as u8,
            ((hi >> 24u32) & 0xff) as u8,
        ];
        assert(bytes@ =~= le_bytes_u64(value));
        Self::write_bytes(buf, offset, bytes.as_slice());
    }

    /// `value` rounded up to a multiple of the power of two `align`.
    fn align_up(value: usize, align: usize) -> (r: usize)
        requires
            align == FILE_ALIGN,
            value + align - 1 <= usize::MAX,
        ensures
            r == file_align_up(value as int),
    {
        let mask = align - 1;
        let r = (value + mask) & !mask;
        proof {
            let v2 = (value + mask) as usize;
            assert(v2 & !0x1ffusize == (v2 / 0x200usize) * 0x200usize) by (bit_vector);
        }
        r
    }

    fn write_bytes(buf: &mut Vec<u8>, offset: usize, value: &[u8])
        requires
            offset + value@.len() <= old(buf)@.len(),
        ensures
            final(buf)@ == overwritten(old(buf)@, offset as int, value@),
            final(buf)@.len() == old(buf)@.len(),
    {
        let blen = buf.len();
        let mut i: usize = 0;
        while i < value.len()
            invariant
                i <= value@.len(),
                offset + value@.len() <= old(buf)@.len(),
                blen == old(buf)@.len(),
                buf@.len() == old(buf)@.len(),
                forall|k: int| 0 <= k < offset ==> #[trigger] buf@[k] == old(buf)@[k],
                forall|k: int| 0 <= k < i ==> #[trigger] buf@[offset + k] == value@[k],
                forall|k: int| offset + i <= k < buf@.len() ==> #[trigger] buf@[k] == old(buf)@[k],
            decreases value@.len() - i,
        {
            buf[offset + i] = value[i];
            i = i + 1;
        }
        reveal(overwritten);
        assert forall|k: int| 0 <= k < buf@.len() implies #[trigger] buf@[k] == overwritten(
            old(buf)@,
            offset as int,
            value@,
        )[k] by {
            if offset <= k < offset + value@.len() {
                assert(buf@[offset + (k - offset)] == value@[k - offset]);
            }
        }
        assert(buf@ =~= overwritten(old(buf)@, offset as int, value@));
    }

    fn section_header_offset(section_index: u16) -> (r: usize)
        ensures
            r == section_header_offset_spec(section_index as int),
    {
        Self::offset(SHDR_OFF, Self::checked_mul(section_index as usize, 40))
    }

    fn last_section_header_offset(&self) -> (r: usize)
        requires
            self.num_sections >= 1,
        ensures
            r == section_header_offset_spec(self.num_sections - 1),
    {
        let section_index = self.num_sections - 1;
        Self::section_header_offset(section_index)
    }

    fn offset(base: usize, offset: usize) -> (r: usize)
        requires
            base + offset <= usize::MAX,
        ensures
            r == base + offset,
    {
        base + offset
    }

    fn checked_mul(left: usize, right: usize) -> (r: usize)
        requires
            left * right <= usize::MAX,
        ensures
            r == left * right,
    {
        left * right
    }

    fn usize_to_u32(value: usize) -> (r: u32)
        requires
            value <= u32::MAX,
        ensures
            r == value,
    {
        value as u32
    }
}

/// When the rounded-up length fits in a `u32`, so does the length with its padding.
pub proof fn lemma_file_align_up_fits_u32(value: int)
    requires
        value >= 0,
        file_align_up(value) <= u32::MAX,
    ensures
        value + FILE_ALIGN - 1 <= u32::MAX,
{
    let q = (value + 0x1ff) / 0x200;
    assert(value + 0x1ff <= u32::MAX) by (nonlinear_arith)
        requires
            q == (value + 0x1ff) / 0x200,
            value >= 0,
            q * 0x200 <= 0xFFFF_FFFF,
    ;
}

/// Facts about rounding up to the file alignment.
pub proof fn lemma_file_align_up(value: int)
    requires
        value >= 0,
    ensures
        file_align_up(value) % (FILE_ALIGN as int) == 0,
        value <= file_align_up(value) < value + FILE_ALIGN,
{
    let q = (value + 0x1ff) / 0x200;
    assert(q * 0x200 <= value + 0x1ff < q * 0x200 + 0x200) by (nonlinear_arith)
        requires
            q == (value + 0x1ff) / 0x200,
            value >= 0,
    ;
    assert((q * 0x200) % 0x200 == 0) by (nonlinear_arith);
}

} // verus!
