//! Parsing of device-independent-bitmap (DIB) headers and synthesis of a
//! standalone bitmap file from a raw DIB payload.
//!
//! A DIB payload, as handed out by a clipboard, starts with an info header
//! whose first four bytes give the header's own size. For the legacy 40-byte
//! header the pixel data follows the header, the optional bitfield masks and
//! the colour palette; for extended headers the masks live inside the header
//! and palette handling beyond the legacy case is deliberately unsupported.
//! A standalone bitmap file is the payload with a 14-byte file header in
//! front.

use vstd::prelude::*;

verus! {

/// Little-endian 16-bit value read from `s` at offset `i`.
pub open spec fn le_u16_at(s: Seq<u8>, i: int) -> int
    recommends
        0 <= i,
        i + 2 <= s.len(),
{
    s[i] + 0x100 * s[i + 1]
}

/// Little-endian 32-bit value read from `s` at offset `i`.
pub open spec fn le_u32_at(s: Seq<u8>, i: int) -> int
    recommends
        0 <= i,
        i + 4 <= s.len(),
{
    s[i] + 0x100 * s[i + 1] + 0x1_0000 * s[i + 2] + 0x100_0000 * s[i + 3]
}

/// The four little-endian bytes of a 32-bit value `n`.
pub open spec fn le_u32_bytes(n: int) -> Seq<u8>
    recommends
        0 <= n < 0x1_0000_0000,
{
    seq![
        (n % 0x100) as u8,
        ((n / 0x100) % 0x100) as u8,
        ((n / 0x1_0000) % 0x100) as u8,
        ((n / 0x100_0000) % 0x100) as u8,
    ]
}

/// Size in bytes of the bitfield masks that follow a legacy 40-byte header,
/// by compression mode: 12 for bitfields, 16 for alpha-bitfields, else 0.
pub open spec fn spec_mask_bytes(compression: int) -> int {
    if compression == 3 {
        12
    } else if compression == 6 {
        16
    } else {
        0
    }
}

/// 2^n for small n, as used for the palette size of an indexed bitmap.
pub open spec fn pow2(n: int) -> int
    decreases n,
{
    if n <= 0 {
        1
    } else {
        2 * pow2(n - 1)
    }
}

proof fn lemma_pow2_pos(n: int)
    ensures
        pow2(n) >= 1,
    decreases n,
{
    if n > 0 {
        lemma_pow2_pos(n - 1);
    }
}

proof fn lemma_pow2_mono(a: int, b: int)
    requires
        a <= b,
    ensures
        pow2(a) <= pow2(b),
    decreases b - a,
{
    if a < b {
        lemma_pow2_mono(a, b - 1);
        lemma_pow2_pos(b - 1);
    }
}

/// Number of palette entries of a legacy header: an explicit nonzero
/// `colors_used` wins; otherwise an indexed bitmap (`bit_count <= 8`) has a
/// full palette of `2^bit_count` entries, and a direct-colour one has none.
pub open spec fn spec_palette_entries(bit_count: int, colors_used: int) -> int {
    if colors_used != 0 {
        colors_used
    } else if bit_count <= 8 {
        pow2(bit_count)
    } else {
        0
    }
}

/// Mask bytes of the payload `s`: only a legacy 40-byte header is followed
/// by explicit bitfield masks; extended headers embed them.
pub open spec fn spec_dib_mask_bytes(s: Seq<u8>) -> int
    recommends
        s.len() >= 4,
{
    if le_u32_at(s, 0) == 40 {
        spec_mask_bytes(le_u32_at(s, 16))
    } else {
        0
    }
}

/// Palette bytes of the payload `s`: computed for a legacy 40-byte header;
/// for extended headers palette handling is unsupported and counts as 0.
pub open spec fn spec_dib_palette_bytes(s: Seq<u8>) -> int
    recommends
        s.len() >= 4,
{
    if le_u32_at(s, 0) == 40 {
        4 * spec_palette_entries(le_u16_at(s, 14), le_u32_at(s, 32))
    } else {
        0
    }
}

/// An inconsistent palette declaration in a legacy header: an indexed
/// bitmap (`bit_count <= 8`) cannot address more than 256 colours, so an
/// explicit colour count above that is treated as a malformed payload
/// rather than trusted as a palette size.
pub open spec fn spec_implausible_palette(s: Seq<u8>) -> bool
    recommends
        s.len() >= 40,
{
    le_u32_at(s, 0) == 40 && le_u16_at(s, 14) <= 8 && le_u32_at(s, 32) > 256
}

/// Offset of the pixel data inside a DIB payload `s`, if the payload is
/// well formed: the declared header size, plus mask and palette bytes for
/// the legacy header. `None` when the payload is too short, the declared
/// header size is implausible, the palette declaration is inconsistent, or
/// the computed offset leaves the payload.
pub open spec fn spec_pixel_offset(s: Seq<u8>) -> Option<int> {
    if s.len() < 4 {
        None
    } else {
        let header_size = le_u32_at(s, 0);
        if header_size < 40 || header_size > s.len() {
            None
        } else if spec_implausible_palette(s) {
            None
        } else {
            let offset = header_size + spec_dib_mask_bytes(s) + spec_dib_palette_bytes(s);
            if offset > s.len() {
                None
            } else {
                Some(offset)
            }
        }
    }
}

/// Little-endian 32-bit read at `i`, as executable code.
fn read_le_u32(dib: &[u8], i: usize) -> (r: u32)
    requires
        i + 4 <= dib@.len(),
    ensures
        r == le_u32_at(dib@, i as int),
{
    let b0 = dib[i] as u32;
    let b1 = dib[i + 1] as u32;
    let b2 = dib[i + 2] as u32;
    let b3 = dib[i + 3] as u32;
    b0 + 0x100 * b1 + 0x1_0000 * b2 + 0x100_0000 * b3
}

/// Little-endian 16-bit read at `i`, as executable code.
fn read_le_u16(dib: &[u8], i: usize) -> (r: u16)
    requires
        i + 2 <= dib@.len(),
    ensures
        r == le_u16_at(dib@, i as int),
{
    let b0 = dib[i] as u16;
    let b1 = dib[i + 1] as u16;
    b0 + 0x100 * b1
}

/// Offset of the pixel data inside the DIB payload `dib`, or `None` for a
/// malformed payload (fewer than 4 bytes, declared header size under 40 or
/// past the end, a legacy header declaring more than 256 palette entries
/// for an indexed bitmap, or header plus masks plus palette past the end).
pub fn dib_pixel_data_offset(dib: &[u8]) -> (r: Option<usize>)
    ensures
        match r {
            Some(o) => spec_pixel_offset(dib@) == Some(o as int),
            None => spec_pixel_offset(dib@) is None,
        },
{
    if dib.len() < 4 {
        return None;
    }
    let header_size_32 = read_le_u32(dib, 0);
    let header_size = header_size_32 as usize;
    if header_size < 40 || header_size > dib.len() {
        return None;
    }

    let mut mask_bytes: usize = 0;
    let mut palette_entries: usize = 0;

    if header_size == 40 {
        let bit_count = read_le_u16(dib, 14) as usize;
        let compression = read_le_u32(dib, 16);
        let colors_used = read_le_u32(dib, 32) as usize;

        if bit_count <= 8 && colors_used > 256 {
            return None;
        }

        mask_bytes = if compression == 3 {
            12
        } else if compression == 6 {
            16
        } else {
            0
        };

        palette_entries = if colors_used != 0 {
            colors_used
        } else if bit_count <= 8 {
            let mut e: usize = 1;
            let mut k: usize = 0;
            while k < bit_count
                invariant
                    k <= bit_count <= 8,
                    e == pow2(k as int),
                    e <= 256,
                decreases bit_count - k,
            {
                proof {
                    lemma_pow2_mono(k as int + 1, 8);
                    reveal_with_fuel(pow2, 9);
                }
                e = e * 2;
                k = k + 1;
            }
            e
        } else {
            0
        };
    }

    let rest = dib.len() - header_size;
    if mask_bytes > rest {
        return None;
    }
    let rest = rest - mask_bytes;
    if palette_entries > rest / 4 {
        return None;
    }
    let palette_bytes = palette_entries * 4;
    assert(palette_bytes <= rest) by {
        assert(palette_entries <= rest / 4);
    };
    Some(header_size + mask_bytes + palette_bytes)
}

/// The standalone bitmap file synthesized from the DIB payload `s`: a
/// 14-byte file header (magic, total file size, four reserved zero bytes,
/// pixel-data offset) followed by the payload verbatim. `None` when the
/// payload is malformed or a header field would not fit in 32 bits.
pub open spec fn spec_bmp_file(s: Seq<u8>) -> Option<Seq<u8>> {
    match spec_pixel_offset(s) {
        None => None,
        Some(off) => if 14 + s.len() <= 0xFFFF_FFFF {
            Some(
                seq![0x42u8, 0x4Du8] + le_u32_bytes(14 + s.len() as int) + seq![0u8, 0u8, 0u8, 0u8]
                    + le_u32_bytes(14 + off) + s,
            )
        } else {
            None
        },
    }
}

/// Appends the four little-endian bytes of `x` to `v`.
fn push_le_u32(v: &mut Vec<u8>, x: u32)
    ensures
        final(v)@ == old(v)@ + le_u32_bytes(x as int),
{
    v.push((x % 0x100) as u8);
    v.push(((x / 0x100) % 0x100) as u8);
    v.push(((x / 0x1_0000) % 0x100) as u8);
    v.push(((x / 0x100_0000) % 0x100) as u8);
}

/// Synthesizes a standalone bitmap file from the DIB payload `dib` by
/// prepending a 14-byte file header with the computed total size and
/// pixel-data offset. `None` when the payload is malformed or the size
/// fields would overflow 32 bits.
pub fn synthesize_file(dib: &[u8]) -> (r: Option<Vec<u8>>)
    ensures
        match r {
            Some(f) => spec_bmp_file(dib@) == Some(f@),
            None => spec_bmp_file(dib@) is None,
        },
{
    let off = match dib_pixel_data_offset(dib) {
        Some(o) => o,
        None => {
            return None;
        },
    };
    if dib.len() > 0xFFFF_FFF1 {
        return None;
    }
    let bf_size: u32 = 14 + dib.len() as u32;
    let bf_off_bits: u32 = 14 + off as u32;

    let mut out: Vec<u8> = Vec::new();
    out.push(0x42);
    out.push(0x4D);
    push_le_u32(&mut out, bf_size);
    out.push(0);
    out.push(0);
    out.push(0);
    out.push(0);
    push_le_u32(&mut out, bf_off_bits);
    let ghost header: Seq<u8> = out@;
    assert(header =~= seq![0x42u8, 0x4Du8] + le_u32_bytes(14 + dib@.len() as int)
        + seq![0u8, 0u8, 0u8, 0u8] + le_u32_bytes(14 + off as int));

    let mut i: usize = 0;
    while i < dib.len()
        invariant
            i <= dib@.len(),
            out@ == header + dib@.take(i as int),
        decreases dib@.len() - i,
    {
        out.push(dib[i]);
        assert(dib@.take(i + 1 as int) =~= dib@.take(i as int).push(dib@[i as int]));
        i = i + 1;
    }
    assert(out@ =~= header + dib@);
    Some(out)
}

/// Reads back `n` from its four little-endian bytes.
proof fn lemma_le_u32_bytes_value(n: int)
    requires
        0 <= n < 0x1_0000_0000,
    ensures
        le_u32_at(le_u32_bytes(n), 0) == n,
{
    let b = le_u32_bytes(n);
    assert(b[0] == (n % 0x100) as u8);
    assert(le_u32_at(b, 0) == n % 0x100 + 0x100 * ((n / 0x100) % 0x100) + 0x1_0000 * ((n
        / 0x1_0000) % 0x100) + 0x100_0000 * ((n / 0x100_0000) % 0x100));
    assert(n % 0x100 + 0x100 * ((n / 0x100) % 0x100) + 0x1_0000 * ((n / 0x1_0000) % 0x100)
        + 0x100_0000 * ((n / 0x100_0000) % 0x100) == n) by (nonlinear_arith)
        requires
            0 <= n < 0x1_0000_0000,
    ;
}

/// A well-formed legacy header with no explicit colour count has a full
/// palette: for `colors_used = 0` and an indexed `bit_count`, the palette
/// size is `2^bit_count` entries of 4 bytes each, whatever the compression
/// mode.
pub proof fn lemma_legacy_full_palette(s: Seq<u8>)
    requires
        s.len() >= 40,
        le_u32_at(s, 0) == 40,
        le_u32_at(s, 32) == 0,
        le_u16_at(s, 14) == 1 || le_u16_at(s, 14) == 2 || le_u16_at(s, 14) == 4 || le_u16_at(
            s,
            14,
        ) == 8,
        le_u32_at(s, 16) == 0 || le_u32_at(s, 16) == 3 || le_u32_at(s, 16) == 6,
    ensures
        spec_dib_palette_bytes(s) == 4 * pow2(le_u16_at(s, 14)),
{
}

/// A payload whose declared header size exceeds the payload itself is
/// rejected: no offset is computed, so no read past the end can follow.
pub proof fn lemma_oversized_header_rejected(s: Seq<u8>)
    requires
        le_u32_at(s, 0) > s.len() || s.len() < 4,
    ensures
        spec_pixel_offset(s) is None,
{
}

/// For an extended header the pixel data follows the header directly:
/// masks are embedded in the header and palette handling beyond the legacy
/// case is unsupported, so the offset is the declared header size itself.
pub proof fn lemma_extended_header_offset(s: Seq<u8>)
    requires
        s.len() >= 4,
        le_u32_at(s, 0) != 40,
        40 <= le_u32_at(s, 0) <= s.len(),
    ensures
        spec_pixel_offset(s) == Some(le_u32_at(s, 0)),
{
}

/// Round trip: the fields embedded in a synthesized file give back what
/// went in. The file is 14 bytes longer than the payload; its size field
/// holds exactly that length; its offset field holds the computed pixel
/// offset plus the 14-byte prefix; and the payload follows the prefix
/// verbatim, so re-deriving the header size from the embedded payload gives
/// the original header size again.
pub proof fn lemma_synthesized_round_trip(s: Seq<u8>)
    requires
        spec_bmp_file(s) is Some,
    ensures
        ({
            let f = spec_bmp_file(s)->Some_0;
            let off = spec_pixel_offset(s)->Some_0;
            &&& f.len() == 14 + s.len()
            &&& f[0] == 0x42 && f[1] == 0x4D
            &&& le_u32_at(f, 2) == 14 + s.len()
            &&& le_u32_at(f, 10) == 14 + off
            &&& f.subrange(14, f.len() as int) == s
            &&& le_u32_at(f, 14) == le_u32_at(s, 0)
        }),
{
    let f = spec_bmp_file(s)->Some_0;
    let off = spec_pixel_offset(s)->Some_0;
    let size_b = le_u32_bytes(14 + s.len() as int);
    let off_b = le_u32_bytes(14 + off);
    assert(f =~= seq![0x42u8, 0x4Du8] + size_b + seq![0u8, 0u8, 0u8, 0u8] + off_b + s);
    lemma_pow2_pos(le_u16_at(s, 14));
    assert(0 <= off <= s.len());
    assert(f[2] == size_b[0] && f[3] == size_b[1] && f[4] == size_b[2] && f[5] == size_b[3]);
    lemma_le_u32_bytes_value(14 + s.len() as int);
    assert(le_u32_at(f, 2) == le_u32_at(size_b, 0));
    assert(f[10] == off_b[0] && f[11] == off_b[1] && f[12] == off_b[2] && f[13] == off_b[3]);
    lemma_le_u32_bytes_value(14 + off);
    assert(le_u32_at(f, 10) == le_u32_at(off_b, 0));
    assert(f.subrange(14, f.len() as int) =~= s);
}

} // verus!
