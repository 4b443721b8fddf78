//! Generation metadata carried by output images: the stealth alpha-channel
//! encoding (SwarmUI-compatible), pixel-format conversions, the metadata
//! mode setting and the legacy A1111 parameter text.
use vstd::prelude::*;
use vstd::arithmetic::div_mod::{lemma_fundamental_div_mod, lemma_fundamental_div_mod_converse};
use vstd::utf8::{valid_utf8, decode_utf8, encode_utf8};
use vstd::string::StringSliceAdditionalSpecFns;
use crate::jxl::{be32, be32_at, size32, utf8_text};
use crate::strmap::str_eq;

verus! {

// ---------------------------------------------------------------------------
// Stealth alpha: layout
// ---------------------------------------------------------------------------

/// Offset, within a pixel of `bpp` bytes, of the alpha byte that carries the
/// data: byte 3 for 8-bit RGBA, byte 6 (the high alpha byte) for 16-bit RGBA.
pub open spec fn alpha_lead(bpp: int) -> int {
    bpp - bpp / 4
}

/// Buffer offset of the byte carrying bit `k`: pixels are walked column by
/// column (x outer, y inner).
pub open spec fn stealth_offset(k: int, w: int, h: int, bpp: int) -> int {
    ((k % h) * w + k / h) * bpp + alpha_lead(bpp)
}

/// The bit index carried by pixel `p` (row-major pixel number).
pub open spec fn pixel_bit_index(p: int, w: int, h: int) -> int {
    (p % w) * h + p / w
}

/// Valid stealth geometry: 8- or 16-bit RGBA and a buffer holding every pixel.
pub open spec fn stealth_geometry(len: int, w: int, h: int, bpp: int) -> bool {
    &&& bpp == 4 || bpp == 8
    &&& w * h * bpp <= len
    &&& w * h * bpp <= usize::MAX
}

proof fn lemma_offset_facts(k: int, w: int, h: int, bpp: int)
    requires
        0 <= k < w * h,
        w > 0,
        h > 0,
        bpp == 4 || bpp == 8,
    ensures
        ({
            let p = (k % h) * w + k / h;
            &&& 0 <= p < w * h
            &&& stealth_offset(k, w, h, bpp) == p * bpp + alpha_lead(bpp)
            &&& stealth_offset(k, w, h, bpp) / bpp == p
            &&& stealth_offset(k, w, h, bpp) % bpp == alpha_lead(bpp)
            &&& pixel_bit_index(p, w, h) == k
            &&& stealth_offset(k, w, h, bpp) + bpp / 4 <= w * h * bpp
        }),
{
    let x = k / h;
    let y = k % h;
    lemma_fundamental_div_mod(k, h);
    assert(0 <= y < h);
    assert(x >= 0) by (nonlinear_arith)
        requires k >= 0, h > 0, x == k / h;
    assert(x < w) by (nonlinear_arith)
        requires k == h * x + y, 0 <= y, k < w * h, h > 0, x >= 0;
    let p = y * w + x;
    assert(0 <= p < w * h) by (nonlinear_arith)
        requires 0 <= y < h, 0 <= x < w, p == y * w + x, w > 0;
    let a = alpha_lead(bpp);
    assert(0 <= a < bpp);
    lemma_fundamental_div_mod_converse(p * bpp + a, bpp, p, a);
    lemma_fundamental_div_mod_converse(p, w, y, x);
    assert(pixel_bit_index(p, w, h) == x * h + y);
    assert(x * h + y == k) by (nonlinear_arith)
        requires k == h * x + y;
    assert(p * bpp + a + bpp / 4 <= w * h * bpp) by (nonlinear_arith)
        requires p < w * h, a + bpp / 4 == bpp, bpp > 0;
}

proof fn lemma_pixel_facts(p: int, w: int, h: int)
    requires
        0 <= p < w * h,
        w > 0,
        h > 0,
    ensures
        0 <= pixel_bit_index(p, w, h) < w * h,
        (pixel_bit_index(p, w, h) % h) * w + pixel_bit_index(p, w, h) / h == p,
{
    let x = p % w;
    let y = p / w;
    lemma_fundamental_div_mod(p, w);
    assert(y >= 0) by (nonlinear_arith)
        requires p >= 0, w > 0, y == p / w;
    assert(y < h) by (nonlinear_arith)
        requires p == w * y + x, 0 <= x, p < w * h, w > 0, y >= 0;
    let k = x * h + y;
    assert(0 <= k < w * h) by (nonlinear_arith)
        requires 0 <= x < w, 0 <= y < h, k == x * h + y, h > 0;
    lemma_fundamental_div_mod_converse(k, h, x, y);
    assert(y * w + x == p) by (nonlinear_arith)
        requires p == w * y + x;
}

// ---------------------------------------------------------------------------
// Stealth alpha: bit stream
// ---------------------------------------------------------------------------

/// `stealth_pngcomp`, the marker that opens the bit stream.
pub open spec fn stealth_magic() -> Seq<u8> {
    seq![0x73u8, 0x74, 0x65, 0x61, 0x6C, 0x74, 0x68, 0x5F, 0x70, 0x6E, 0x67, 0x63, 0x6F, 0x6D, 0x70]
}

/// The bytes written into the alpha channel: marker, 32-bit big-endian length
/// of the payload in bits, payload.
pub open spec fn stealth_stream(payload: Seq<u8>) -> Seq<u8> {
    stealth_magic() + be32(size32(8 * payload.len() as int)) + payload
}

/// Bit `k` of a byte stream, most significant bit of each byte first.
pub open spec fn stream_bit(s: Seq<u8>, k: int) -> u8 {
    (s[k / 8] >> ((7 - k % 8) as u8)) & 1u8
}

/// The buffer after stealth embedding of the first `n` bits of `s`: every
/// alpha byte of every pixel is set to its maximum, then the data byte of the
/// pixel carrying bit `k < n` gets that bit in its lowest position. Bytes that
/// are not alpha bytes are unchanged.
pub open spec fn embedded_upto(before: Seq<u8>, w: int, h: int, bpp: int, s: Seq<u8>, n: int) -> Seq<u8> {
    Seq::new(before.len(), |j: int|
        if j / bpp < w * h && j % bpp >= alpha_lead(bpp) {
            if j % bpp == alpha_lead(bpp) && pixel_bit_index(j / bpp, w, h) < n {
                0xFEu8 | stream_bit(s, pixel_bit_index(j / bpp, w, h))
            } else {
                0xFFu8
            }
        } else {
            before[j]
        })
}

/// The buffer after embedding the whole stream `s`.
pub open spec fn stealth_embedded(before: Seq<u8>, w: int, h: int, bpp: int, s: Seq<u8>) -> Seq<u8> {
    embedded_upto(before, w, h, bpp, s, 8 * s.len() as int)
}

/// The lowest bit of the byte carrying bit `k`.
pub open spec fn carried_bit(b: Seq<u8>, w: int, h: int, bpp: int, k: int) -> u8 {
    b[stealth_offset(k, w, h, bpp)] & 1u8
}

/// Byte `i` of the carried stream, assembled most significant bit first.
pub open spec fn carried_byte(b: Seq<u8>, w: int, h: int, bpp: int, i: int) -> u8 {
    (carried_bit(b, w, h, bpp, 8 * i) << 7u8) | (carried_bit(b, w, h, bpp, 8 * i + 1) << 6u8)
        | (carried_bit(b, w, h, bpp, 8 * i + 2) << 5u8) | (carried_bit(b, w, h, bpp, 8 * i + 3) << 4u8)
        | (carried_bit(b, w, h, bpp, 8 * i + 4) << 3u8) | (carried_bit(b, w, h, bpp, 8 * i + 5) << 2u8)
        | (carried_bit(b, w, h, bpp, 8 * i + 6) << 1u8) | carried_bit(b, w, h, bpp, 8 * i + 7)
}

/// The first `n` carried bytes.
pub open spec fn carried_bytes(b: Seq<u8>, w: int, h: int, bpp: int, start: int, n: int) -> Seq<u8> {
    Seq::new(n as nat, |i: int| carried_byte(b, w, h, bpp, start + i))
}

/// The payload carried by a buffer: `None` when the image is too small for
/// the header, the marker is absent, the length is zero, not a whole number of
/// bytes or larger than the image can hold.
pub open spec fn stealth_payload_of(b: Seq<u8>, w: int, h: int, bpp: int) -> Option<Seq<u8>> {
    if w * h < 152 {
        None
    } else if carried_bytes(b, w, h, bpp, 0, 15) != stealth_magic() {
        None
    } else {
        let bits = be32_at(carried_bytes(b, w, h, bpp, 15, 4), 0);
        if bits == 0 || bits % 8 != 0 || 152 + bits > w * h {
            None
        } else {
            Some(carried_bytes(b, w, h, bpp, 19, bits / 8))
        }
    }
}

proof fn lemma_byte_bits(b: u8)
    ensures
        (((b >> 7u8) & 1u8) << 7u8) | (((b >> 6u8) & 1u8) << 6u8) | (((b >> 5u8) & 1u8) << 5u8)
            | (((b >> 4u8) & 1u8) << 4u8) | (((b >> 3u8) & 1u8) << 3u8) | (((b >> 2u8) & 1u8) << 2u8)
            | (((b >> 1u8) & 1u8) << 1u8) | ((b >> 0u8) & 1u8) == b,
{
    assert((((b >> 7u8) & 1u8) << 7u8) | (((b >> 6u8) & 1u8) << 6u8) | (((b >> 5u8) & 1u8) << 5u8)
        | (((b >> 4u8) & 1u8) << 4u8) | (((b >> 3u8) & 1u8) << 3u8) | (((b >> 2u8) & 1u8) << 2u8)
        | (((b >> 1u8) & 1u8) << 1u8) | ((b >> 0u8) & 1u8) == b) by (bit_vector);
}

proof fn lemma_bit_01(byte: u8, sh: u8)
    ensures
        (byte >> sh) & 1u8 == 0 || (byte >> sh) & 1u8 == 1,
{
    assert((byte >> sh) & 1u8 == 0 || (byte >> sh) & 1u8 == 1) by (bit_vector);
}

proof fn lemma_set_bit(bit: u8)
    requires
        bit == 0 || bit == 1,
    ensures
        (0xFEu8 | bit) & 1u8 == bit,
        (0xFFu8 & 0xFEu8) | bit == 0xFEu8 | bit,
{
    assert((0xFEu8 | bit) & 1u8 == bit) by (bit_vector)
        requires bit == 0 || bit == 1;
    assert((0xFFu8 & 0xFEu8) | bit == 0xFEu8 | bit) by (bit_vector);
}

// ---------------------------------------------------------------------------
// Stealth alpha: executable code
// ---------------------------------------------------------------------------

/// Map a sequential bit index to the buffer offset of the alpha byte that
/// carries it, walking pixels column by column (x outer, y inner). For 8-bit
/// RGBA (`bpp` 4) that is the alpha byte; for 16-bit RGBA (`bpp` 8) it is the
/// high alpha byte, which readers that open 16-bit images as 8-bit keep.
pub fn colmajor_alpha_offset(bit_idx: usize, width: usize, height: usize, bpp: usize) -> (off: usize)
    requires
        bit_idx < width * height,
        bpp == 4 || bpp == 8,
        width * height * bpp <= usize::MAX,
    ensures
        off == stealth_offset(bit_idx as int, width as int, height as int, bpp as int),
        off + bpp / 4 <= width * height * bpp,
{
    proof {
        assert(width > 0 && height > 0) by (nonlinear_arith)
            requires bit_idx < width * height;
        lemma_offset_facts(bit_idx as int, width as int, height as int, bpp as int);
    }
    let x = bit_idx / height;
    let y = bit_idx % height;
    (y * width + x) * bpp + (bpp - bpp / 4)
}

/// Set every alpha byte of the first `width * height` pixels to its maximum.
fn fill_alpha(rgba: &mut Vec<u8>, width: usize, height: usize, bpp: usize)
    requires
        stealth_geometry(old(rgba)@.len() as int, width as int, height as int, bpp as int),
    ensures
        final(rgba)@ == embedded_upto(old(rgba)@, width as int, height as int, bpp as int, Seq::empty(), 0),
{
    let ghost old_v = rgba@;
    let ghost w = width as int;
    let ghost h = height as int;
    let ghost bp = bpp as int;
    let n = width * height;
    let lead = bpp - bpp / 4;
    let mut i: usize = 0;
    while i < n
        invariant
            rgba@.len() == old_v.len(),
            stealth_geometry(old_v.len() as int, w, h, bp),
            n == w * h,
            lead == alpha_lead(bp),
            i <= n,
            bpp == bp,
            forall|j: int| 0 <= j < old_v.len() ==> #[trigger] rgba@[j] == (
                if j / bp < i && j % bp >= alpha_lead(bp) { 0xFFu8 } else { old_v[j] }),
        decreases n - i,
    {
        assert(i * bp + bp <= w * h * bp) by (nonlinear_arith)
            requires i < w * h, bp > 0;
        let mut t: usize = 0;
        while t < bpp / 4
            invariant
                rgba@.len() == old_v.len(),
                stealth_geometry(old_v.len() as int, w, h, bp),
                i < n,
                n == w * h,
                lead == alpha_lead(bp),
                bpp == bp,
                i * bp + bp <= w * h * bp,
                t <= bp / 4,
                forall|j: int| 0 <= j < old_v.len() ==> #[trigger] rgba@[j] == (
                    if j / bp < i && j % bp >= alpha_lead(bp) { 0xFFu8 }
                    else if j / bp == i && alpha_lead(bp) <= j % bp < alpha_lead(bp) + t { 0xFFu8 }
                    else { old_v[j] }),
            decreases bp / 4 - t,
        {
            let idx = i * bpp + lead + t;
            proof {
                lemma_fundamental_div_mod_converse(idx as int, bp, i as int, lead + t);
            }
            rgba.set(idx, 0xFF);
            t += 1;
        }
        proof {
            assert forall|j: int| 0 <= j < old_v.len() implies #[trigger] rgba@[j] == (
                if j / bp < i + 1 && j % bp >= alpha_lead(bp) { 0xFFu8 } else { old_v[j] }) by {
                lemma_fundamental_div_mod(j, bp);
            }
        }
        i += 1;
    }
    proof {
        assert(rgba@ =~= embedded_upto(old_v, w, h, bp, Seq::empty(), 0));
    }
}

/// The bytes of the stealth stream for `payload`.
fn build_stream(payload: &[u8]) -> (s: Vec<u8>)
    requires
        payload@.len() * 8 <= usize::MAX,
    ensures
        s@ == stealth_stream(payload@),
{
    let magic: [u8; 15] = [0x73, 0x74, 0x65, 0x61, 0x6C, 0x74, 0x68, 0x5F, 0x70, 0x6E, 0x67, 0x63, 0x6F, 0x6D, 0x70];
    let mut s: Vec<u8> = Vec::new();
    let mut i: usize = 0;
    while i < 15
        invariant
            i <= 15,
            magic@ == stealth_magic(),
            s@ == stealth_magic().take(i as int),
        decreases 15 - i,
    {
        s.push(magic[i]);
        assert(stealth_magic().take(i + 1) =~= stealth_magic().take(i as int).push(stealth_magic()[i as int]));
        i += 1;
    }
    assert(stealth_magic().take(15) =~= stealth_magic());
    let bits = payload.len() * 8;
    let len32 = ((bits as u64) % 0x1_0000_0000u64) as u32;
    assert(len32 == size32(8 * payload@.len() as int));
    s.push(((len32 >> 24u32) & 0xFFu32) as u8);
    s.push(((len32 >> 16u32) & 0xFFu32) as u8);
    s.push(((len32 >> 8u32) & 0xFFu32) as u8);
    s.push((len32 & 0xFFu32) as u8);
    let ghost head = s@;
    assert(head =~= stealth_magic() + be32(len32));
    let mut k: usize = 0;
    while k < payload.len()
        invariant
            k <= payload@.len(),
            s@ == head + payload@.take(k as int),
        decreases payload@.len() - k,
    {
        s.push(payload[k]);
        assert(payload@.take(k + 1) =~= payload@.take(k as int).push(payload@[k as int]));
        k += 1;
    }
    assert(payload@.take(payload@.len() as int) =~= payload@);
    s
}

/// Write the bits of `s` into the data bytes of a buffer whose alpha bytes are
/// all at their maximum.
fn write_stream_bits(rgba: &mut Vec<u8>, width: usize, height: usize, bpp: usize, s: &Vec<u8>)
    requires
        stealth_geometry(old(rgba)@.len() as int, width as int, height as int, bpp as int),
        8 * s@.len() <= width * height,
    ensures
        forall|base: Seq<u8>| old(rgba)@ == embedded_upto(base, width as int, height as int, bpp as int, Seq::empty(), 0)
            ==> final(rgba)@ == stealth_embedded(base, width as int, height as int, bpp as int, s@),
{
    let ghost old_v = rgba@;
    let ghost w = width as int;
    let ghost h = height as int;
    let ghost bp = bpp as int;
    assert(w * h <= w * h * bp) by (nonlinear_arith)
        requires bp >= 1, w >= 0, h >= 0;
    let total = s.len() * 8;
    let mut k: usize = 0;
    while k < total
        invariant
            w == width as int,
            h == height as int,
            rgba@.len() == old_v.len(),
            stealth_geometry(old_v.len() as int, w, h, bp),
            total == 8 * s@.len(),
            total <= w * h,
            k <= total,
            bpp == bp,
            w > 0 || total == 0,
            forall|base: Seq<u8>| old_v == embedded_upto(base, w, h, bp, Seq::empty(), 0)
                ==> rgba@ == embedded_upto(base, w, h, bp, s@, k as int),
        decreases total - k,
    {
        assert(w > 0 && h > 0) by (nonlinear_arith)
            requires k < total, total <= w * h, w >= 0, h >= 0;
        let off = colmajor_alpha_offset(k, width, height, bpp);
        let byte = s[k / 8];
        let sh = (7 - k % 8) as u8;
        let bit: u8 = (byte >> sh) & 1u8;
        proof {
            lemma_bit_01(byte, sh);
        }
        let ghost before = rgba@;
        proof {
            lemma_offset_facts(k as int, w, h, bp);
            lemma_set_bit(bit);
        }
        let cur = rgba[off];
        rgba.set(off, (cur & 0xFE) | bit);
        proof {
            assert forall|base: Seq<u8>| old_v == embedded_upto(base, w, h, bp, Seq::empty(), 0)
                implies rgba@ == embedded_upto(base, w, h, bp, s@, k + 1) by {
                assert(before == embedded_upto(base, w, h, bp, s@, k as int));
                assert(before[off as int] == 0xFFu8);
                assert forall|j: int| 0 <= j < rgba@.len() implies #[trigger] rgba@[j]
                    == embedded_upto(base, w, h, bp, s@, k + 1)[j] by {
                    if j != off as int {
                        if j / bp < w * h && j % bp == alpha_lead(bp) {
                            lemma_pixel_facts(j / bp, w, h);
                            lemma_fundamental_div_mod(j, bp);
                            let kk = pixel_bit_index(j / bp, w, h);
                            if kk == k as int {
                                lemma_offset_facts(kk, w, h, bp);
                                assert(j == (j / bp) * bp + alpha_lead(bp)) by (nonlinear_arith)
                                    requires j == bp * (j / bp) + j % bp, j % bp == alpha_lead(bp);
                            }
                        }
                    }
                }
                assert(rgba@ =~= embedded_upto(base, w, h, bp, s@, k + 1));
            }
        }
        k += 1;
    }
}

/// Write `payload` into the alpha channel of an RGBA buffer (`bpp` 4 for
/// 8-bit, 8 for 16-bit): all alpha bytes are first set to their maximum, then
/// marker, 32-bit bit length and payload are written one bit per pixel.
/// Fails, with the alpha bytes already set, when the image has fewer pixels
/// than the stream has bits.
pub fn embed_stealth_payload(rgba: &mut Vec<u8>, width: u32, height: u32, bpp: usize, payload: &[u8]) -> (r: Result<(), String>)
    requires
        stealth_geometry(old(rgba)@.len() as int, width as int, height as int, bpp as int),
        payload@.len() * 8 + 152 <= usize::MAX,
    ensures
        r is Err <==> 8 * stealth_stream(payload@).len() > width * height,
        r is Ok ==> final(rgba)@ == stealth_embedded(old(rgba)@, width as int, height as int, bpp as int,
            stealth_stream(payload@)),
        r is Err ==> final(rgba)@ == embedded_upto(old(rgba)@, width as int, height as int, bpp as int,
            Seq::empty(), 0),
{
    let ghost old_v = rgba@;
    let w = width as usize;
    let h = height as usize;
    fill_alpha(rgba, w, h, bpp);
    let s = build_stream(payload);
    let total_bits = s.len() * 8;
    let available = w * h;
    if total_bits > available {
        return Err(String::from_str("Image too small for stealth metadata"));
    }
    write_stream_bits(rgba, w, h, bpp, &s);
    Ok(())
}

/// Read the carried stream byte `i`.
fn read_carried_byte(rgba: &[u8], width: usize, height: usize, bpp: usize, i: usize) -> (b: u8)
    requires
        stealth_geometry(rgba@.len() as int, width as int, height as int, bpp as int),
        8 * i + 8 <= width * height,
    ensures
        b == carried_byte(rgba@, width as int, height as int, bpp as int, i as int),
{
    let mut v: u8 = 0;
    let mut j: usize = 0;
    let ghost w = width as int;
    let ghost h = height as int;
    let ghost bp = bpp as int;
    while j < 8
        invariant
            j <= 8,
            stealth_geometry(rgba@.len() as int, w, h, bp),
            8 * i + 8 <= w * h,
            width == w,
            height == h,
            bpp == bp,
            v == partial_byte(rgba@, w, h, bp, i as int, j as int),
        decreases 8 - j,
    {
        let off = colmajor_alpha_offset(8 * i + j, width, height, bpp);
        let bit = rgba[off] & 1u8;
        let sh = (7 - j) as u8;
        v = v | (bit << sh);
        j += 1;
    }
    proof {
        lemma_partial_byte_full(rgba@, w, h, bp, i as int);
    }
    v
}

/// The carried byte `i` assembled from its first `j` bits only.
pub open spec fn partial_byte(b: Seq<u8>, w: int, h: int, bpp: int, i: int, j: int) -> u8
    decreases j,
{
    if j <= 0 {
        0u8
    } else {
        partial_byte(b, w, h, bpp, i, j - 1) | (carried_bit(b, w, h, bpp, 8 * i + j - 1) << ((8 - j) as u8))
    }
}

proof fn lemma_partial_byte_full(b: Seq<u8>, w: int, h: int, bpp: int, i: int)
    ensures
        partial_byte(b, w, h, bpp, i, 8) == carried_byte(b, w, h, bpp, i),
{
    reveal_with_fuel(partial_byte, 9);
    let b0 = carried_bit(b, w, h, bpp, 8 * i);
    let b1 = carried_bit(b, w, h, bpp, 8 * i + 1);
    let b2 = carried_bit(b, w, h, bpp, 8 * i + 2);
    let b3 = carried_bit(b, w, h, bpp, 8 * i + 3);
    let b4 = carried_bit(b, w, h, bpp, 8 * i + 4);
    let b5 = carried_bit(b, w, h, bpp, 8 * i + 5);
    let b6 = carried_bit(b, w, h, bpp, 8 * i + 6);
    let b7 = carried_bit(b, w, h, bpp, 8 * i + 7);
    assert(((((((((0u8 | (b0 << 7u8)) | (b1 << 6u8)) | (b2 << 5u8)) | (b3 << 4u8)) | (b4 << 3u8)) | (b5 << 2u8))
        | (b6 << 1u8)) | (b7 << 0u8)) == (b0 << 7u8) | (b1 << 6u8) | (b2 << 5u8) | (b3 << 4u8) | (b4 << 3u8)
        | (b5 << 2u8) | (b6 << 1u8) | b7) by (bit_vector);
}

/// Read `n` carried bytes starting at carried byte `start`.
fn read_carried_bytes(rgba: &[u8], width: usize, height: usize, bpp: usize, start: usize, n: usize) -> (out: Vec<u8>)
    requires
        stealth_geometry(rgba@.len() as int, width as int, height as int, bpp as int),
        8 * (start + n) <= width * height,
    ensures
        out@ == carried_bytes(rgba@, width as int, height as int, bpp as int, start as int, n as int),
{
    let mut out: Vec<u8> = Vec::new();
    let mut i: usize = 0;
    while i < n
        invariant
            i <= n,
            stealth_geometry(rgba@.len() as int, width as int, height as int, bpp as int),
            8 * (start + n) <= width * height,
            out@ == carried_bytes(rgba@, width as int, height as int, bpp as int, start as int, i as int),
        decreases n - i,
    {
        let b = read_carried_byte(rgba, width, height, bpp, start + i);
        out.push(b);
        assert(out@ =~= carried_bytes(rgba@, width as int, height as int, bpp as int, start as int, i + 1));
        i += 1;
    }
    out
}

fn same_bytes(a: &[u8], b: &[u8]) -> (r: bool)
    ensures
        r == (a@ == b@),
{
    if a.len() != b.len() {
        return false;
    }
    let mut i: usize = 0;
    while i < a.len()
        invariant
            i <= a@.len(),
            a@.len() == b@.len(),
            forall|j: int| 0 <= j < i ==> a@[j] == b@[j],
        decreases a@.len() - i,
    {
        if a[i] != b[i] {
            return false;
        }
        i += 1;
    }
    assert(a@ =~= b@);
    true
}

/// The payload carried in the alpha channel of an RGBA buffer, if any (see
/// [`stealth_payload_of`]).
pub fn extract_stealth_payload(rgba: &[u8], width: u32, height: u32, bpp: usize) -> (r: Option<Vec<u8>>)
    requires
        stealth_geometry(rgba@.len() as int, width as int, height as int, bpp as int),
    ensures
        r matches Some(v) ==> stealth_payload_of(rgba@, width as int, height as int, bpp as int) == Some(v@),
        r is None ==> stealth_payload_of(rgba@, width as int, height as int, bpp as int) is None,
{
    let w = width as usize;
    let h = height as usize;
    let pixels = w * h;
    if pixels < 152 {
        return None;
    }
    let magic = read_carried_bytes(rgba, w, h, bpp, 0, 15);
    let expected: [u8; 15] = [0x73, 0x74, 0x65, 0x61, 0x6C, 0x74, 0x68, 0x5F, 0x70, 0x6E, 0x67, 0x63, 0x6F, 0x6D, 0x70];
    assert(expected@ =~= stealth_magic());
    if !same_bytes(magic.as_slice(), &expected) {
        return None;
    }
    let lb = read_carried_bytes(rgba, w, h, bpp, 15, 4);
    let bits: u32 = (lb[0] as u32) * 0x100_0000u32 + (lb[1] as u32) * 0x1_0000u32 + (lb[2] as u32) * 0x100u32
        + (lb[3] as u32);
    assert(bits == be32_at(lb@, 0));
    let data_bits = bits as usize;
    if data_bits == 0 || data_bits % 8 != 0 {
        return None;
    }
    if data_bits > pixels - 152 {
        return None;
    }
    let data = read_carried_bytes(rgba, w, h, bpp, 19, data_bits / 8);
    Some(data)
}

proof fn lemma_embedded_bits(before: Seq<u8>, w: int, h: int, bpp: int, s: Seq<u8>)
    requires
        stealth_geometry(before.len() as int, w, h, bpp),
        w > 0,
        h > 0,
        8 * s.len() <= w * h,
    ensures
        forall|k: int| 0 <= k < 8 * s.len() ==> #[trigger] carried_bit(stealth_embedded(before, w, h, bpp, s), w, h, bpp, k)
            == stream_bit(s, k),
{
    let e = stealth_embedded(before, w, h, bpp, s);
    assert forall|k: int| 0 <= k < 8 * s.len() implies #[trigger] carried_bit(e, w, h, bpp, k) == stream_bit(s, k) by {
        lemma_offset_facts(k, w, h, bpp);
        let bit = stream_bit(s, k);
        lemma_fundamental_div_mod(k, 8);
        lemma_bit_01(s[k / 8], (7 - k % 8) as u8);
        lemma_set_bit(bit);
    }
}

proof fn lemma_carried_byte(e: Seq<u8>, w: int, h: int, bpp: int, s: Seq<u8>, i: int)
    requires
        0 <= i < s.len(),
        forall|k: int| 0 <= k < 8 * s.len() ==> #[trigger] carried_bit(e, w, h, bpp, k) == stream_bit(s, k),
    ensures
        carried_byte(e, w, h, bpp, i) == s[i],
{
    let b = s[i];
    lemma_byte_bits(b);
    lemma_fundamental_div_mod_converse(8 * i, 8, i, 0);
    lemma_fundamental_div_mod_converse(8 * i + 1, 8, i, 1);
    lemma_fundamental_div_mod_converse(8 * i + 2, 8, i, 2);
    lemma_fundamental_div_mod_converse(8 * i + 3, 8, i, 3);
    lemma_fundamental_div_mod_converse(8 * i + 4, 8, i, 4);
    lemma_fundamental_div_mod_converse(8 * i + 5, 8, i, 5);
    lemma_fundamental_div_mod_converse(8 * i + 6, 8, i, 6);
    lemma_fundamental_div_mod_converse(8 * i + 7, 8, i, 7);
    assert(carried_bit(e, w, h, bpp, 8 * i) == (b >> 7u8) & 1u8);
    assert(carried_bit(e, w, h, bpp, 8 * i + 1) == (b >> 6u8) & 1u8);
    assert(carried_bit(e, w, h, bpp, 8 * i + 2) == (b >> 5u8) & 1u8);
    assert(carried_bit(e, w, h, bpp, 8 * i + 3) == (b >> 4u8) & 1u8);
    assert(carried_bit(e, w, h, bpp, 8 * i + 4) == (b >> 3u8) & 1u8);
    assert(carried_bit(e, w, h, bpp, 8 * i + 5) == (b >> 2u8) & 1u8);
    assert(carried_bit(e, w, h, bpp, 8 * i + 6) == (b >> 1u8) & 1u8);
    assert(carried_bit(e, w, h, bpp, 8 * i + 7) == (b >> 0u8) & 1u8);
}

proof fn lemma_carried_run(e: Seq<u8>, w: int, h: int, bpp: int, s: Seq<u8>, start: int, n: int)
    requires
        0 <= start,
        0 <= n,
        start + n <= s.len(),
        forall|k: int| 0 <= k < 8 * s.len() ==> #[trigger] carried_bit(e, w, h, bpp, k) == stream_bit(s, k),
    ensures
        carried_bytes(e, w, h, bpp, start, n) == s.subrange(start, start + n),
{
    assert forall|i: int| 0 <= i < n implies carried_bytes(e, w, h, bpp, start, n)[i] == s.subrange(start, start + n)[i] by {
        lemma_carried_byte(e, w, h, bpp, s, start + i);
    }
    assert(carried_bytes(e, w, h, bpp, start, n) =~= s.subrange(start, start + n));
}

proof fn lemma_payload_found(b: Seq<u8>, w: int, h: int, bpp: int, payload: Seq<u8>)
    requires
        w * h >= 152 + 8 * payload.len(),
        payload.len() > 0,
        8 * payload.len() < 0x1_0000_0000,
        carried_bytes(b, w, h, bpp, 0, 15) == stealth_magic(),
        carried_bytes(b, w, h, bpp, 15, 4) == be32(size32(8 * payload.len() as int)),
        carried_bytes(b, w, h, bpp, 19, payload.len() as int) == payload,
    ensures
        stealth_payload_of(b, w, h, bpp) == Some(payload),
{
    let n = size32(8 * payload.len() as int);
    assert(n == 8 * payload.len());
    crate::jxl::lemma_be32_value(n);
    assert((8 * payload.len()) / 8 == payload.len());
}

proof fn lemma_stream_parts(e: Seq<u8>, w: int, h: int, bpp: int, payload: Seq<u8>)
    requires
        forall|k: int| 0 <= k < 8 * stealth_stream(payload).len() ==> #[trigger] carried_bit(e, w, h, bpp, k)
            == stream_bit(stealth_stream(payload), k),
    ensures
        carried_bytes(e, w, h, bpp, 0, 15) == stealth_magic(),
        carried_bytes(e, w, h, bpp, 15, 4) == be32(size32(8 * payload.len() as int)),
        carried_bytes(e, w, h, bpp, 19, payload.len() as int) == payload,
{
    let s = stealth_stream(payload);
    let n = size32(8 * payload.len() as int);
    assert(s.len() == 19 + payload.len());
    assert(s.subrange(0, 15) =~= stealth_magic());
    assert(s.subrange(15, 19) =~= be32(n));
    assert(s.subrange(19, 19 + payload.len() as int) =~= payload);
    assert(carried_bytes(e, w, h, bpp, 0, 15) == stealth_magic()) by {
        lemma_carried_run(e, w, h, bpp, s, 0, 15);
    }
    assert(carried_bytes(e, w, h, bpp, 15, 4) == be32(n)) by {
        lemma_carried_run(e, w, h, bpp, s, 15, 4);
    }
    assert(carried_bytes(e, w, h, bpp, 19, payload.len() as int) == payload) by {
        lemma_carried_run(e, w, h, bpp, s, 19, payload.len() as int);
    }
}

/// Law: the payload written by [`embed_stealth_payload`] is what
/// [`extract_stealth_payload`] reads back, whatever the buffer held before,
/// for a non-empty payload whose bit length fits the 32-bit length field.
#[verifier::spinoff_prover]
#[verifier::rlimit(40)]
pub proof fn law_stealth_round_trip(before: Seq<u8>, w: int, h: int, bpp: int, payload: Seq<u8>)
    requires
        stealth_geometry(before.len() as int, w, h, bpp),
        w >= 0,
        h >= 0,
        payload.len() > 0,
        8 * payload.len() < 0x1_0000_0000,
        8 * stealth_stream(payload).len() <= w * h,
    ensures
        stealth_payload_of(stealth_embedded(before, w, h, bpp, stealth_stream(payload)), w, h, bpp) == Some(payload),
{
    let s = stealth_stream(payload);
    let e = stealth_embedded(before, w, h, bpp, s);
    assert(s.len() == 19 + payload.len());
    assert(w > 0 && h > 0) by (nonlinear_arith)
        requires 8 * s.len() <= w * h, s.len() > 0, w >= 0, h >= 0;
    lemma_embedded_bits(before, w, h, bpp, s);
    lemma_stream_parts(e, w, h, bpp, payload);
    lemma_payload_found(e, w, h, bpp, payload);
}

// ---------------------------------------------------------------------------
// Pixel formats
// ---------------------------------------------------------------------------

/// Colour types of decoded PNG pixel data.
#[derive(Debug, Clone, Copy, PartialEq, Eq, Structural)]
pub enum PngColorType {
    Grayscale,
    Rgb,
    Indexed,
    GrayscaleAlpha,
    Rgba,
}

/// Pixels of `in_bpp` bytes expanded to pixels of `map.len()` bytes: output
/// byte `c` of a pixel is input byte `map[c]` of the same pixel, or 0xFF where
/// `map[c]` is `None`. Trailing bytes that do not make a whole pixel are
/// dropped.
pub open spec fn expanded(buf: Seq<u8>, in_bpp: int, map: Seq<Option<int>>) -> Seq<u8> {
    Seq::new((((buf.len() as int) / in_bpp) * map.len()) as nat, |i: int|
        match map[i % (map.len() as int)] {
            Some(src) => buf[(i / (map.len() as int)) * in_bpp + src],
            None => 0xFFu8,
        })
}

/// The 8-bit RGBA form of 8-bit pixel data, if the colour type is supported.
pub open spec fn rgba8_of(buf: Seq<u8>, ct: PngColorType) -> Option<Seq<u8>> {
    match ct {
        PngColorType::Rgba => Some(buf),
        PngColorType::Rgb => Some(expanded(buf, 3, seq![Some(0int), Some(1int), Some(2int), None])),
        PngColorType::GrayscaleAlpha => Some(expanded(buf, 2, seq![Some(0int), Some(0int), Some(0int), Some(1int)])),
        PngColorType::Grayscale => Some(expanded(buf, 1, seq![Some(0int), Some(0int), Some(0int), None])),
        PngColorType::Indexed => None,
    }
}

/// The 16-bit RGBA form (big-endian channels) of 16-bit pixel data, if the
/// colour type is supported.
pub open spec fn rgba16_of(buf: Seq<u8>, ct: PngColorType) -> Option<Seq<u8>> {
    match ct {
        PngColorType::Rgba => Some(buf),
        PngColorType::Rgb => Some(expanded(buf, 6,
            seq![Some(0int), Some(1int), Some(2int), Some(3int), Some(4int), Some(5int), None, None])),
        PngColorType::GrayscaleAlpha => Some(expanded(buf, 4,
            seq![Some(0int), Some(1int), Some(0int), Some(1int), Some(0int), Some(1int), Some(2int), Some(3int)])),
        PngColorType::Grayscale => Some(expanded(buf, 2,
            seq![Some(0int), Some(1int), Some(0int), Some(1int), Some(0int), Some(1int), None, None])),
        PngColorType::Indexed => None,
    }
}

pub open spec fn map_view(m: Seq<Option<usize>>) -> Seq<Option<int>> {
    m.map_values(|o: Option<usize>| match o { Some(x) => Some(x as int), None => None })
}

/// Expand every whole pixel of `buf` with the channel map `map`.
fn expand_pixels(buf: &[u8], in_bpp: usize, map: &Vec<Option<usize>>) -> (out: Vec<u8>)
    requires
        in_bpp > 0,
        map@.len() > 0,
        map@.len() <= 8,
        forall|c: int| 0 <= c < map@.len() ==> ((#[trigger] map@[c]) matches Some(src) ==> src < in_bpp),
        ((buf@.len() as int) / (in_bpp as int)) * map@.len() <= usize::MAX,
    ensures
        out@ == expanded(buf@, in_bpp as int, map_view(map@)),
{
    let n = buf.len() / in_bpp;
    let ob = map.len();
    let ghost mv = map_view(map@);
    let ghost target = expanded(buf@, in_bpp as int, mv);
    let mut out: Vec<u8> = Vec::new();
    let mut p: usize = 0;
    let blen = buf.len();
    proof {
        lemma_fundamental_div_mod(buf@.len() as int, in_bpp as int);
        assert(n * in_bpp <= buf@.len()) by (nonlinear_arith)
            requires n == (buf@.len() as int) / (in_bpp as int), buf@.len() == in_bpp * ((buf@.len() as int) / (in_bpp as int)) + (buf@.len() as int) % (in_bpp as int),
                (buf@.len() as int) % (in_bpp as int) >= 0;
    }
    while p < n
        invariant
            n == (buf@.len() as int) / (in_bpp as int),
            n * in_bpp <= buf@.len(),
            buf@.len() == blen,
            ob == map@.len(),
            0 < ob <= 8,
            in_bpp > 0,
            n * ob <= usize::MAX,
            mv == map_view(map@),
            target == expanded(buf@, in_bpp as int, mv),
            forall|c: int| 0 <= c < map@.len() ==> ((#[trigger] map@[c]) matches Some(src) ==> src < in_bpp),
            p <= n,
            out@.len() == p * ob,
            forall|i: int| 0 <= i < out@.len() ==> #[trigger] out@[i] == target[i],
        decreases n - p,
    {
        assert((p + 1) * in_bpp <= n * in_bpp && p * ob + ob <= n * ob) by (nonlinear_arith)
            requires p < n, in_bpp > 0, ob > 0;
        let mut c: usize = 0;
        while c < ob
            invariant
                p < n,
                n == (buf@.len() as int) / (in_bpp as int),
                (p + 1) * in_bpp <= n * in_bpp,
                n * in_bpp <= buf@.len(),
                buf@.len() == blen,
                p * ob + ob <= n * ob,
                n * ob <= usize::MAX,
                ob == map@.len(),
                0 < ob <= 8,
                in_bpp > 0,
                mv == map_view(map@),
                target == expanded(buf@, in_bpp as int, mv),
                forall|c: int| 0 <= c < map@.len() ==> ((#[trigger] map@[c]) matches Some(src) ==> src < in_bpp),
                c <= ob,
                out@.len() == p * ob + c,
                forall|i: int| 0 <= i < out@.len() ==> #[trigger] out@[i] == target[i],
            decreases ob - c,
        {
            let ghost i = p * ob + c;
            proof {
                lemma_fundamental_div_mod_converse(i as int, ob as int, p as int, c as int);
                assert(i < n * ob);
                assert(target.len() == n * ob);
                assert(mv[c as int] == match map@[c as int] { Some(x) => Some(x as int), None => None });
            }
            assert(p * in_bpp + in_bpp <= buf@.len()) by (nonlinear_arith)
                requires (p + 1) * in_bpp <= n * in_bpp, n * in_bpp <= buf@.len();
            let base = p * in_bpp;
            let v: u8 = match map[c] {
                Some(src) => {
                    buf[base + src]
                },
                None => 0xFF,
            };
            let ghost before = out@;
            out.push(v);
            proof {
                assert forall|j: int| 0 <= j < out@.len() implies #[trigger] out@[j] == target[j] by {
                    if j < before.len() {
                        assert(out@[j] == before[j]);
                    }
                }
            }
            c += 1;
        }
        assert(p * ob + ob == (p + 1) * ob) by (nonlinear_arith);
        p += 1;
    }
    assert(out@ =~= target);
    out
}

/// Convert raw 8-bit pixel data to RGBA8, adding opaque alpha where needed.
pub fn to_rgba8(buf: &[u8], color_type: PngColorType, width: u32, height: u32) -> (r: Result<(Vec<u8>, u32, u32), String>)
    requires
        buf@.len() * 4 <= usize::MAX,
    ensures
        r matches Ok(t) ==> rgba8_of(buf@, color_type) == Some(t.0@) && t.1 == width && t.2 == height,
        r is Err <==> rgba8_of(buf@, color_type) is None,
        r matches Err(m) ==> m@ == "Unsupported color type: Indexed"@,
{
    proof {
        lemma_whole_pixels(buf@.len() as int, 3, 4);
        lemma_whole_pixels(buf@.len() as int, 2, 4);
        lemma_whole_pixels(buf@.len() as int, 1, 4);
    }
    match color_type {
        PngColorType::Rgba => Ok((slice_copy(buf), width, height)),
        PngColorType::Rgb => {
            let map = vec![Some(0usize), Some(1), Some(2), None];
            assert(map_view(map@) =~= seq![Some(0int), Some(1int), Some(2int), None]);
            Ok((expand_pixels(buf, 3, &map), width, height))
        },
        PngColorType::GrayscaleAlpha => {
            let map = vec![Some(0usize), Some(0), Some(0), Some(1)];
            assert(map_view(map@) =~= seq![Some(0int), Some(0int), Some(0int), Some(1int)]);
            Ok((expand_pixels(buf, 2, &map), width, height))
        },
        PngColorType::Grayscale => {
            let map = vec![Some(0usize), Some(0), Some(0), None];
            assert(map_view(map@) =~= seq![Some(0int), Some(0int), Some(0int), None]);
            Ok((expand_pixels(buf, 1, &map), width, height))
        },
        PngColorType::Indexed => Err(String::from_str("Unsupported color type: Indexed")),
    }
}

/// Convert raw 16-bit pixel data (big-endian channels) to RGBA16, adding
/// opaque alpha (0xFFFF) where needed.
pub fn to_rgba16(buf: &[u8], color_type: PngColorType, width: u32, height: u32) -> (r: Result<(Vec<u8>, u32, u32), String>)
    requires
        buf@.len() * 8 <= usize::MAX,
    ensures
        r matches Ok(t) ==> rgba16_of(buf@, color_type) == Some(t.0@) && t.1 == width && t.2 == height,
        r is Err <==> rgba16_of(buf@, color_type) is None,
        r matches Err(m) ==> m@ == "Unsupported color type for 16-bit: Indexed"@,
{
    proof {
        lemma_whole_pixels(buf@.len() as int, 6, 8);
        lemma_whole_pixels(buf@.len() as int, 4, 8);
        lemma_whole_pixels(buf@.len() as int, 2, 8);
    }
    match color_type {
        PngColorType::Rgba => Ok((slice_copy(buf), width, height)),
        PngColorType::Rgb => {
            let map = vec![Some(0usize), Some(1), Some(2), Some(3), Some(4), Some(5), None, None];
            assert(map_view(map@) =~= seq![Some(0int), Some(1int), Some(2int), Some(3int), Some(4int), Some(5int), None, None]);
            Ok((expand_pixels(buf, 6, &map), width, height))
        },
        PngColorType::GrayscaleAlpha => {
            let map = vec![Some(0usize), Some(1), Some(0), Some(1), Some(0), Some(1), Some(2), Some(3)];
            assert(map_view(map@) =~= seq![Some(0int), Some(1int), Some(0int), Some(1int), Some(0int), Some(1int), Some(2int), Some(3int)]);
            Ok((expand_pixels(buf, 4, &map), width, height))
        },
        PngColorType::Grayscale => {
            let map = vec![Some(0usize), Some(1), Some(0), Some(1), Some(0), Some(1), None, None];
            assert(map_view(map@) =~= seq![Some(0int), Some(1int), Some(0int), Some(1int), Some(0int), Some(1int), None, None]);
            Ok((expand_pixels(buf, 2, &map), width, height))
        },
        PngColorType::Indexed => Err(String::from_str("Unsupported color type for 16-bit: Indexed")),
    }
}

proof fn lemma_whole_pixels(len: int, in_bpp: int, out: int)
    requires
        len >= 0,
        1 <= in_bpp,
        1 <= out <= 8,
        len * out <= usize::MAX,
    ensures
        (len / in_bpp) * out <= usize::MAX,
{
    assert((len / in_bpp) * out <= len * out) by (nonlinear_arith)
        requires len >= 0, in_bpp >= 1, out >= 1;
}

pub(crate) fn slice_copy(buf: &[u8]) -> (v: Vec<u8>)
    ensures
        v@ == buf@,
{
    let mut v: Vec<u8> = Vec::new();
    let mut i: usize = 0;
    while i < buf.len()
        invariant
            i <= buf@.len(),
            v@ == buf@.take(i as int),
        decreases buf@.len() - i,
    {
        v.push(buf[i]);
        assert(buf@.take(i + 1) =~= buf@.take(i as int).push(buf@[i as int]));
        i += 1;
    }
    assert(buf@.take(buf@.len() as int) =~= buf@);
    v
}

// ---------------------------------------------------------------------------
// Metadata mode
// ---------------------------------------------------------------------------

/// The format of an image file.
#[derive(PartialEq, Eq, Structural, Clone, Copy)]
pub enum ImageFormat {
    Png,
    Jxl,
    Unknown,
}

/// The label of an image format in the gallery index.
pub fn format_label(fmt: ImageFormat) -> (r: &'static str)
    ensures
        r@ == match fmt {
            ImageFormat::Png => "png"@,
            ImageFormat::Jxl => "jxl"@,
            ImageFormat::Unknown => "unknown"@,
        },
{
    match fmt {
        ImageFormat::Png => "png",
        ImageFormat::Jxl => "jxl",
        ImageFormat::Unknown => "unknown",
    }
}

/// How to embed metadata into a PNG image.
#[derive(Debug, Clone, Copy, PartialEq, Eq, Structural)]
pub enum MetadataMode {
    /// Standard PNG tEXt chunk ("parameters"). Fast, no pixel modification.
    TextChunk,
    /// Stealth alpha-channel LSB encoding (SwarmUI-compatible). Survives re-uploads.
    StealthAlpha,
    /// Both text chunk and stealth alpha.
    Both,
}

impl MetadataMode {
    /// `"stealth"` and `"both"` select those modes; anything else is the text chunk.
    pub fn from_str(s: &str) -> (m: MetadataMode)
        ensures
            m == (if s@ == "stealth"@ { MetadataMode::StealthAlpha } else if s@ == "both"@ {
                MetadataMode::Both } else { MetadataMode::TextChunk }),
    {
        if str_eq(s, "stealth") {
            MetadataMode::StealthAlpha
        } else if str_eq(s, "both") {
            MetadataMode::Both
        } else {
            MetadataMode::TextChunk
        }
    }

    /// Whether the mode writes the stealth alpha channel.
    pub open spec fn writes_stealth(self) -> bool {
        self == MetadataMode::StealthAlpha || self == MetadataMode::Both
    }

    /// Whether the mode writes the `parameters` text chunk.
    pub open spec fn writes_text(self) -> bool {
        self == MetadataMode::TextChunk || self == MetadataMode::Both
    }

    /// Whether the mode writes the stealth alpha channel.
    pub fn uses_stealth(&self) -> (r: bool)
        ensures
            r == self.writes_stealth(),
    {
        match self {
            MetadataMode::StealthAlpha | MetadataMode::Both => true,
            MetadataMode::TextChunk => false,
        }
    }

    /// Whether the mode writes the `parameters` text chunk.
    pub fn uses_text_chunk(&self) -> (r: bool)
        ensures
            r == self.writes_text(),
    {
        match self {
            MetadataMode::TextChunk | MetadataMode::Both => true,
            MetadataMode::StealthAlpha => false,
        }
    }
}

// ---------------------------------------------------------------------------
// Compressed JSON in the alpha channel
// ---------------------------------------------------------------------------

/// The gzip stream flate2 produces for `data` at best compression with the
/// default (empty, zero-time) header; `None` when it reports an error.
pub uninterp spec fn gzip_best(data: Seq<u8>) -> Option<Seq<u8>>;

/// The data flate2's gzip decoder reads out of `data`; `None` when it
/// reports an error.
pub uninterp spec fn gunzip(data: Seq<u8>) -> Option<Seq<u8>>;

/// flate2 `GzEncoder` at `Compression::best()` writing into a `Vec`: the
/// compressed stream, a function of the input alone (the default header has no
/// time stamp, name or comment). The error text is left unsaid.
#[verifier::external_body]
fn gzip_compress(data: &[u8]) -> (r: Result<Vec<u8>, String>)
    ensures
        r is Ok <==> gzip_best(data@) is Some,
        r matches Ok(v) ==> gzip_best(data@) == Some(v@),
{
    let mut encoder = flate2::write::GzEncoder::new(Vec::new(), flate2::Compression::best());
    if let Err(e) = std::io::Write::write_all(&mut encoder, data) {
        return Err(e.to_string());
    }
    match encoder.finish() {
        Ok(v) => Ok(v),
        Err(e) => Err(e.to_string()),
    }
}

/// flate2 `GzDecoder` read to the end: the decompressed bytes, a function of
/// the input alone. The error text is left unsaid.
#[verifier::external_body]
fn gzip_decompress(data: &[u8]) -> (r: Result<Vec<u8>, String>)
    ensures
        r is Ok <==> gunzip(data@) is Some,
        r matches Ok(v) ==> gunzip(data@) == Some(v@),
{
    let mut decoder = flate2::read::GzDecoder::new(std::io::Cursor::new(data));
    let mut out = Vec::new();
    match std::io::Read::read_to_end(&mut decoder, &mut out) {
        Ok(_) => Ok(out),
        Err(e) => Err(e.to_string()),
    }
}

/// Encode metadata text into the alpha channel of an RGBA pixel buffer
/// (`bpp` 4 for 8-bit, 8 for 16-bit): every alpha byte is set to its maximum,
/// the text is gzip-compressed and the compressed bytes are written as the
/// stealth stream (see [`stealth_embedded`]). Fails when compression fails or
/// the image has fewer pixels than the stream has bits.
pub fn encode_stealth_alpha(rgba: &mut Vec<u8>, width: u32, height: u32, bpp: usize, json_text: &str) -> (r: Result<(), String>)
    requires
        stealth_geometry(old(rgba)@.len() as int, width as int, height as int, bpp as int),
    ensures
        match gzip_best(encode_utf8(json_text@)) {
            None => r is Err && final(rgba)@ == embedded_upto(old(rgba)@, width as int, height as int,
                bpp as int, Seq::empty(), 0),
            Some(c) => {
                &&& (r is Err <==> 8 * stealth_stream(c).len() > width * height)
                &&& r is Ok ==> final(rgba)@ == stealth_embedded(old(rgba)@, width as int, height as int,
                    bpp as int, stealth_stream(c))
                &&& r is Err ==> final(rgba)@ == embedded_upto(old(rgba)@, width as int, height as int,
                    bpp as int, Seq::empty(), 0)
            },
        },
{
    let ghost old_v = rgba@;
    let w = width as usize;
    let h = height as usize;
    fill_alpha(rgba, w, h, bpp);
    let compressed = match gzip_compress(json_text.as_bytes()) {
        Ok(c) => c,
        Err(e) => {
            let mut msg = String::from_str("GZip compression failed: ");
            msg.append(e.as_str());
            return Err(msg);
        },
    };
    let available = w * h;
    proof {
        assert(available <= w * h * bpp) by (nonlinear_arith)
            requires bpp >= 1, available == w * h;
    }
    if compressed.len() > (available / 8) {
        return Err(String::from_str("Image too small for stealth metadata"));
    }
    let s = build_stream(compressed.as_slice());
    let total_bits = s.len() * 8;
    if total_bits > available {
        return Err(String::from_str("Image too small for stealth metadata"));
    }
    write_stream_bits(rgba, w, h, bpp, &s);
    Ok(())
}

/// What the alpha channel of a buffer reads as text: no payload gives
/// `Ok(None)`; a payload that does not decompress, or decompresses to
/// invalid UTF-8, is an error; otherwise the decompressed text.
pub open spec fn stealth_text_of(b: Seq<u8>, w: int, h: int, bpp: int) -> Option<Option<Seq<char>>> {
    match stealth_payload_of(b, w, h, bpp) {
        None => Some(None),
        Some(p) => match gunzip(p) {
            None => None,
            Some(j) => if valid_utf8(j) { Some(Some(decode_utf8(j))) } else { None },
        },
    }
}

/// Read the compressed metadata text carried in the alpha channel of an RGBA
/// buffer (see [`stealth_text_of`]).
pub fn read_stealth_text(rgba: &[u8], width: u32, height: u32, bpp: usize) -> (r: Result<Option<String>, String>)
    requires
        stealth_geometry(rgba@.len() as int, width as int, height as int, bpp as int),
    ensures
        r is Err <==> stealth_text_of(rgba@, width as int, height as int, bpp as int) is None,
        r matches Ok(o) ==> stealth_text_of(rgba@, width as int, height as int, bpp as int) == Some(
            match o { Some(t) => Some(t@), None => None::<Seq<char>> }),
{
    let payload = match extract_stealth_payload(rgba, width, height, bpp) {
        Some(p) => p,
        None => {
            return Ok(None);
        },
    };
    let json_bytes = match gzip_decompress(payload.as_slice()) {
        Ok(j) => j,
        Err(e) => {
            let mut msg = String::from_str("GZip decompress: ");
            msg.append(e.as_str());
            return Err(msg);
        },
    };
    match utf8_text(json_bytes.as_slice()) {
        Some(t) => Ok(Some(t)),
        None => Err(String::from_str("UTF-8 decode: invalid UTF-8")),
    }
}

/// Law: text written by [`encode_stealth_alpha`] is read back by
/// [`read_stealth_text`], given that flate2 decompresses its own output back
/// to the input and the stream fits the image.
pub proof fn law_stealth_text_round_trip(before: Seq<u8>, w: int, h: int, bpp: int, text: Seq<char>)
    requires
        stealth_geometry(before.len() as int, w, h, bpp),
        w >= 0,
        h >= 0,
        gzip_best(encode_utf8(text)) is Some,
        gunzip(gzip_best(encode_utf8(text))->0) == Some(encode_utf8(text)),
        gzip_best(encode_utf8(text))->0.len() > 0,
        8 * gzip_best(encode_utf8(text))->0.len() < 0x1_0000_0000,
        8 * stealth_stream(gzip_best(encode_utf8(text))->0).len() <= w * h,
    ensures
        stealth_text_of(stealth_embedded(before, w, h, bpp, stealth_stream(gzip_best(encode_utf8(text))->0)), w, h, bpp)
            == Some(Some(text)),
{
    broadcast use vstd::utf8::encode_utf8_decode_utf8, vstd::utf8::encode_utf8_valid_utf8;
    let c = gzip_best(encode_utf8(text))->0;
    law_stealth_round_trip(before, w, h, bpp, c);
}

} // verus!
