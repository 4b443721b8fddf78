//! JPEG XL container (ISO-BMFF) utilities: box framing, the `xml ` (XMP)
//! metadata box that carries the generation parameters, and the conversion of
//! a naked codestream into a container.
use vstd::prelude::*;
use vstd::utf8::{valid_utf8, decode_utf8, encode_utf8};
use vstd::string::StringSliceAdditionalSpecFns;
use crate::error::AppError;

verus! {

// ---------------------------------------------------------------------------
// Byte-level model
// ---------------------------------------------------------------------------

/// The 12-byte JXL signature box that opens every container.
pub open spec fn signature_box() -> Seq<u8> {
    seq![0x00u8, 0x00, 0x00, 0x0C, 0x4A, 0x58, 0x4C, 0x20, 0x0D, 0x0A, 0x87, 0x0A]
}

/// Box type `xml ` (XMP metadata).
pub open spec fn tag_xml() -> Seq<u8> { seq![0x78u8, 0x6D, 0x6C, 0x20] }
/// Box type `jxlc` (whole codestream).
pub open spec fn tag_jxlc() -> Seq<u8> { seq![0x6Au8, 0x78, 0x6C, 0x63] }
/// Box type `jxlp` (partial codestream).
pub open spec fn tag_jxlp() -> Seq<u8> { seq![0x6Au8, 0x78, 0x6C, 0x70] }
/// Box type `ftyp`.
pub open spec fn tag_ftyp() -> Seq<u8> { seq![0x66u8, 0x74, 0x79, 0x70] }
/// Brand `jxl `.
pub open spec fn brand_jxl() -> Seq<u8> { seq![0x6Au8, 0x78, 0x6C, 0x20] }

/// Big-endian bytes of a 32-bit value.
pub open spec fn be32(n: u32) -> Seq<u8> {
    seq![((n >> 24u32) & 0xFFu32) as u8, ((n >> 16u32) & 0xFFu32) as u8,
         ((n >> 8u32) & 0xFFu32) as u8, (n & 0xFFu32) as u8]
}

/// The 32-bit big-endian value stored at `pos`.
pub open spec fn be32_at(b: Seq<u8>, pos: int) -> int {
    b[pos] * 0x100_0000 + b[pos + 1] * 0x1_0000 + b[pos + 2] * 0x100 + b[pos + 3]
}

/// A length as written in a 32-bit box header (the low 32 bits).
pub open spec fn size32(n: int) -> u32 {
    (n % 0x1_0000_0000) as u32
}

/// A box: 32-bit size (header included), 4-byte type, payload.
pub open spec fn box_bytes(typ: Seq<u8>, payload: Seq<u8>) -> Seq<u8> {
    be32(size32(8 + payload.len() as int)) + typ + payload
}

/// The `ftyp` box declaring `jxl ` as major brand.
pub open spec fn ftyp_bytes() -> Seq<u8> {
    be32(20) + tag_ftyp() + brand_jxl() + be32(0) + brand_jxl()
}

/// The bytes start with the JXL signature box.
pub open spec fn is_container_bytes(b: Seq<u8>) -> bool {
    b.len() >= 12 && b.take(12) == signature_box()
}

/// The bytes start with the naked-codestream marker `FF 0A`.
pub open spec fn is_codestream_bytes(b: Seq<u8>) -> bool {
    b.len() >= 2 && b[0] == 0xFF && b[1] == 0x0A
}

/// A parsed box: (type, payload start, payload end).
pub type BoxView = (Seq<u8>, int, int);

/// The boxes found walking from `pos`: a size of 0 runs to the end of the
/// data, a size of 1 (64-bit size) or a box overrunning the data stops the
/// walk, and so does a box that ends exactly at the end of the data.
pub open spec fn boxes_from(b: Seq<u8>, pos: int) -> Seq<BoxView>
    decreases b.len() - pos,
{
    if pos < 0 || pos + 8 > b.len() {
        Seq::empty()
    } else {
        let size = be32_at(b, pos);
        let typ = b.subrange(pos + 4, pos + 8);
        if size == 0 {
            seq![(typ, pos + 8, b.len() as int)]
        } else if size == 1 {
            Seq::empty()
        } else if pos + size > b.len() {
            Seq::empty()
        } else if pos + size == b.len() {
            seq![(typ, pos + 8, pos + size)]
        } else {
            seq![(typ, pos + 8, pos + size)] + boxes_from(b, pos + size)
        }
    }
}

/// The top-level boxes of a container (none for anything else).
pub open spec fn boxes_of(b: Seq<u8>) -> Seq<BoxView> {
    if is_container_bytes(b) { boxes_from(b, 12) } else { Seq::empty() }
}

/// The payload of a parsed box.
pub open spec fn payload_of(b: Seq<u8>, bx: BoxView) -> Seq<u8> {
    b.subrange(bx.1, bx.2)
}

/// The XMP text of the first `xml ` box whose payload is valid UTF-8.
pub open spec fn first_xmp(b: Seq<u8>, bx: Seq<BoxView>) -> Option<Seq<char>>
    decreases bx.len(),
{
    if bx.len() == 0 {
        None
    } else if bx[0].0 == tag_xml() && bx[0].1 <= bx[0].2 && valid_utf8(payload_of(b, bx[0])) {
        Some(decode_utf8(payload_of(b, bx[0])))
    } else {
        first_xmp(b, bx.drop_first())
    }
}

/// Scanning for XMP never meets an `xml ` box whose declared size is smaller
/// than its header before it finds a readable one.
pub open spec fn xmp_scan_ok(b: Seq<u8>, bx: Seq<BoxView>) -> bool
    decreases bx.len(),
{
    if bx.len() == 0 {
        true
    } else if bx[0].0 == tag_xml() {
        if bx[0].1 > bx[0].2 {
            false
        } else if valid_utf8(payload_of(b, bx[0])) {
            true
        } else {
            xmp_scan_ok(b, bx.drop_first())
        }
    } else {
        xmp_scan_ok(b, bx.drop_first())
    }
}

/// Every box other than `xml ` has a size at least as large as its header.
pub open spec fn non_xml_boxes_sized(bx: Seq<BoxView>) -> bool {
    forall|i: int| 0 <= i < bx.len() && (#[trigger] bx[i]).0 != tag_xml() ==> bx[i].1 <= bx[i].2
}

/// The box is a codestream box (`jxlc` or `jxlp`).
pub open spec fn is_codestream_tag(t: Seq<u8>) -> bool {
    t == tag_jxlc() || t == tag_jxlp()
}

/// The boxes of a container rewritten with one fresh `xml ` box: existing
/// `xml ` boxes are dropped, the others are kept in order (re-framed with an
/// explicit size), and the fresh box goes right before the first codestream
/// box, or at the end when there is none.
pub open spec fn rebuild(b: Seq<u8>, bx: Seq<BoxView>, xml: Seq<u8>, inserted: bool) -> Seq<u8>
    decreases bx.len(),
{
    if bx.len() == 0 {
        if inserted { Seq::empty() } else { xml }
    } else if bx[0].0 == tag_xml() {
        rebuild(b, bx.drop_first(), xml, inserted)
    } else {
        let pre = if !inserted && is_codestream_tag(bx[0].0) { xml } else { Seq::empty() };
        pre + box_bytes(bx[0].0, payload_of(b, bx[0]))
            + rebuild(b, bx.drop_first(), xml, inserted || is_codestream_tag(bx[0].0))
    }
}

/// What [`wrap_with_xmp`] produces for a codestream or a container.
pub open spec fn wrapped_bytes(b: Seq<u8>, xmp: Seq<u8>) -> Seq<u8> {
    if is_codestream_bytes(b) {
        signature_box() + ftyp_bytes() + box_bytes(tag_xml(), xmp) + box_bytes(tag_jxlc(), b)
    } else {
        signature_box() + rebuild(b, boxes_of(b), box_bytes(tag_xml(), xmp), false)
    }
}

// ---------------------------------------------------------------------------
// Executable helpers
// ---------------------------------------------------------------------------

fn push_be32(out: &mut Vec<u8>, n: u32)
    ensures
        final(out)@ == old(out)@ + be32(n),
{
    out.push(((n >> 24u32) & 0xFFu32) as u8);
    out.push(((n >> 16u32) & 0xFFu32) as u8);
    out.push(((n >> 8u32) & 0xFFu32) as u8);
    out.push((n & 0xFFu32) as u8);
    assert(final(out)@ =~= old(out)@ + be32(n));
}

fn push_all(out: &mut Vec<u8>, src: &[u8])
    ensures
        final(out)@ == old(out)@ + src@,
{
    let ghost start = out@;
    let mut i: usize = 0;
    while i < src.len()
        invariant
            i <= src@.len(),
            out@ == start + src@.take(i as int),
        decreases src@.len() - i,
    {
        out.push(src[i]);
        assert(src@.take(i + 1) =~= src@.take(i as int).push(src@[i as int]));
        i += 1;
    }
    assert(src@.take(src@.len() as int) =~= src@);
}

fn push_tag(out: &mut Vec<u8>, t: &[u8; 4])
    ensures
        final(out)@ == old(out)@ + t@,
{
    out.push(t[0]);
    out.push(t[1]);
    out.push(t[2]);
    out.push(t[3]);
    assert(final(out)@ =~= old(out)@ + t@);
}

fn tag_eq(a: &[u8; 4], b: &[u8; 4]) -> (r: bool)
    ensures
        r == (a@ == b@),
{
    let r = a[0] == b[0] && a[1] == b[1] && a[2] == b[2] && a[3] == b[3];
    proof {
        if r {
            assert(a@ =~= b@);
        }
    }
    r
}

fn low32(n: usize) -> (r: u32)
    ensures
        r == size32(n as int),
{
    ((n as u64) % 0x1_0000_0000u64) as u32
}

/// The signature box bytes.
fn signature() -> (s: [u8; 12])
    ensures
        s@ == signature_box(),
{
    let s: [u8; 12] = [0x00, 0x00, 0x00, 0x0C, 0x4A, 0x58, 0x4C, 0x20, 0x0D, 0x0A, 0x87, 0x0A];
    assert(s@ =~= signature_box());
    s
}

fn xml_tag() -> (t: [u8; 4])
    ensures
        t@ == tag_xml(),
{
    let t: [u8; 4] = [0x78, 0x6D, 0x6C, 0x20];
    assert(t@ =~= tag_xml());
    t
}

fn jxlc_tag() -> (t: [u8; 4])
    ensures
        t@ == tag_jxlc(),
{
    let t: [u8; 4] = [0x6A, 0x78, 0x6C, 0x63];
    assert(t@ =~= tag_jxlc());
    t
}

fn jxlp_tag() -> (t: [u8; 4])
    ensures
        t@ == tag_jxlp(),
{
    let t: [u8; 4] = [0x6A, 0x78, 0x6C, 0x70];
    assert(t@ =~= tag_jxlp());
    t
}

/// A canonical `ftyp` box declaring `jxl ` as the major brand.
pub fn ftyp_box() -> (b: Vec<u8>)
    ensures
        b@ == ftyp_bytes(),
{
    let ftyp: [u8; 4] = [0x66, 0x74, 0x79, 0x70];
    let brand: [u8; 4] = [0x6A, 0x78, 0x6C, 0x20];
    assert(ftyp@ =~= tag_ftyp());
    assert(brand@ =~= brand_jxl());
    let mut b: Vec<u8> = Vec::with_capacity(20);
    push_be32(&mut b, 20);
    push_tag(&mut b, &ftyp);
    push_tag(&mut b, &brand);
    push_be32(&mut b, 0);
    push_tag(&mut b, &brand);
    b
}

/// Build an ISO-BMFF box with the given 4-byte type and payload.
pub fn make_box(typ: &[u8; 4], payload: &[u8]) -> (b: Vec<u8>)
    requires
        payload@.len() + 8 <= usize::MAX,
    ensures
        b@ == box_bytes(typ@, payload@),
{
    let size = 8 + payload.len();
    let mut b: Vec<u8> = Vec::with_capacity(size);
    push_be32(&mut b, low32(size));
    push_tag(&mut b, typ);
    push_all(&mut b, payload);
    b
}

/// True if the bytes appear to be a JXL container (ISO-BMFF).
pub fn is_container(bytes: &[u8]) -> (r: bool)
    ensures
        r == is_container_bytes(bytes@),
{
    let sig = signature();
    if bytes.len() < 12 {
        return false;
    }
    let mut i: usize = 0;
    while i < 12
        invariant
            i <= 12,
            bytes@.len() >= 12,
            sig@ == signature_box(),
            forall|j: int| 0 <= j < i ==> bytes@[j] == sig@[j],
        decreases 12 - i,
    {
        if bytes[i] != sig[i] {
            assert(bytes@.take(12)[i as int] != signature_box()[i as int]);
            return false;
        }
        i += 1;
    }
    assert(bytes@.take(12) =~= signature_box());
    true
}

/// True if the bytes appear to be a naked JXL codestream.
pub fn is_codestream(bytes: &[u8]) -> (r: bool)
    ensures
        r == is_codestream_bytes(bytes@),
{
    bytes.len() >= 2 && bytes[0] == 0xFF && bytes[1] == 0x0A
}

/// One top-level box: its type and the byte range of its payload.
pub struct IsoBox {
    pub typ: [u8; 4],
    pub start: usize,
    pub end: usize,
}

/// The parsed view of a box.
pub open spec fn iso_box_view(x: IsoBox) -> BoxView {
    (x.typ@, x.start as int, x.end as int)
}

/// The parsed views of a list of boxes.
pub open spec fn iso_boxes_view(v: Seq<IsoBox>) -> Seq<BoxView> {
    v.map_values(|x: IsoBox| iso_box_view(x))
}

/// The top-level boxes of a container, in order (none for anything else).
pub fn iter_boxes(bytes: &[u8]) -> (out: Vec<IsoBox>)
    ensures
        iso_boxes_view(out@) == boxes_of(bytes@),
        forall|i: int| 0 <= i < out@.len() ==> (#[trigger] out@[i]).end <= bytes@.len()
            && out@[i].start <= bytes@.len(),
{
    let mut out: Vec<IsoBox> = Vec::new();
    if !is_container(bytes) {
        assert(iso_boxes_view(out@) =~= Seq::<BoxView>::empty());
        return out;
    }
    let ghost b = bytes@;
    let n = bytes.len();
    let mut pos: usize = 12;
    let mut done = false;
    while !done && n - pos >= 8
        invariant
            b == bytes@,
            n == b.len(),
            12 <= pos <= n,
            boxes_of(b) == iso_boxes_view(out@) + (if done { Seq::empty() } else { boxes_from(b, pos as int) }),
            forall|i: int| 0 <= i < out@.len() ==> (#[trigger] out@[i]).end <= n && out@[i].start <= n,
        decreases n - pos + (if done { 0int } else { 1int }),
    {
        let size32: u32 = (bytes[pos] as u32) * 0x100_0000u32 + (bytes[pos + 1] as u32) * 0x1_0000u32
            + (bytes[pos + 2] as u32) * 0x100u32 + (bytes[pos + 3] as u32);
        let size = size32 as usize;
        assert(size == be32_at(b, pos as int));
        let typ: [u8; 4] = [bytes[pos + 4], bytes[pos + 5], bytes[pos + 6], bytes[pos + 7]];
        assert(typ@ =~= b.subrange(pos + 4, pos + 8));
        let ghost before = out@;
        if size == 0 {
            out.push(IsoBox { typ, start: pos + 8, end: n });
            done = true;
            assert(iso_boxes_view(out@) =~= iso_boxes_view(before).push((typ@, pos + 8, n as int)));
        } else if size == 1 {
            done = true;
        } else if size > n - pos {
            done = true;
        } else {
            out.push(IsoBox { typ, start: pos + 8, end: pos + size });
            assert(iso_boxes_view(out@) =~= iso_boxes_view(before).push((typ@, pos + 8, pos + size)));
            if pos + size == n {
                done = true;
            } else {
                pos = pos + size;
            }
        }
        proof {
            assert forall|i: int| 0 <= i < out@.len() implies (#[trigger] out@[i]).end <= n && out@[i].start <= n by {
                if i < before.len() {
                    assert(out@[i] == before[i]);
                }
            }
        }
    }
    assert(iso_boxes_view(out@) + Seq::<BoxView>::empty() =~= iso_boxes_view(out@));
    out
}


/// A decoded image: 8-bit RGBA pixels in row-major order.
pub struct DecodedImage {
    pub width: u32,
    pub height: u32,
    pub rgba: Vec<u8>,
}

// ---------------------------------------------------------------------------
// XMP box
// ---------------------------------------------------------------------------

/// `std::str::from_utf8` followed by an owned copy: the text of the bytes when
/// they are valid UTF-8, `None` otherwise.
#[verifier::external_body]
pub(crate) fn utf8_text(bytes: &[u8]) -> (r: Option<String>)
    ensures
        r is Some <==> valid_utf8(bytes@),
        r matches Some(s) ==> s@ == decode_utf8(bytes@),
{
    match std::str::from_utf8(bytes) {
        Ok(s) => Some(s.to_string()),
        Err(_) => None,
    }
}

/// Whether [`read_xmp_box`] can scan these bytes: no `xml ` box with a size
/// smaller than its header comes before the first readable one.
pub fn xmp_scan_safe(jxl: &[u8]) -> (r: bool)
    ensures
        r == xmp_scan_ok(jxl@, boxes_of(jxl@)),
{
    let boxes = iter_boxes(jxl);
    let ghost bv = iso_boxes_view(boxes@);
    let xml = xml_tag();
    let mut i: usize = 0;
    assert(bv.skip(0) =~= bv);
    while i < boxes.len()
        invariant
            bv == iso_boxes_view(boxes@),
            bv == boxes_of(jxl@),
            xml@ == tag_xml(),
            i <= boxes@.len(),
            xmp_scan_ok(jxl@, bv) == xmp_scan_ok(jxl@, bv.skip(i as int)),
            forall|k: int| 0 <= k < boxes@.len() ==> (#[trigger] boxes@[k]).end <= jxl@.len()
                && boxes@[k].start <= jxl@.len(),
        decreases boxes@.len() - i,
    {
        assert(bv.skip(i as int)[0] == iso_box_view(boxes@[i as int]));
        assert(bv.skip(i as int).drop_first() =~= bv.skip(i + 1));
        if tag_eq(&boxes[i].typ, &xml) {
            if boxes[i].start > boxes[i].end {
                return false;
            }
            let payload = vstd::slice::slice_subrange(jxl, boxes[i].start, boxes[i].end);
            if utf8_text(payload).is_some() {
                return true;
            }
        }
        i += 1;
    }
    assert(bv.skip(i as int).len() == 0);
    true
}

/// Read the first `xml ` (XMP) box from a JXL container, returning its UTF-8
/// payload if present.
pub fn read_xmp_box(jxl: &[u8]) -> (r: Option<String>)
    requires
        xmp_scan_ok(jxl@, boxes_of(jxl@)),
    ensures
        r is Some <==> first_xmp(jxl@, boxes_of(jxl@)) is Some,
        r matches Some(s) ==> first_xmp(jxl@, boxes_of(jxl@)) == Some(s@),
{
    let boxes = iter_boxes(jxl);
    let ghost bv = iso_boxes_view(boxes@);
    let xml = xml_tag();
    let mut i: usize = 0;
    assert(bv.skip(0) =~= bv);
    while i < boxes.len()
        invariant
            bv == iso_boxes_view(boxes@),
            bv == boxes_of(jxl@),
            xml@ == tag_xml(),
            i <= boxes@.len(),
            first_xmp(jxl@, bv) == first_xmp(jxl@, bv.skip(i as int)),
            xmp_scan_ok(jxl@, bv.skip(i as int)),
            forall|k: int| 0 <= k < boxes@.len() ==> (#[trigger] boxes@[k]).end <= jxl@.len()
                && boxes@[k].start <= jxl@.len(),
        decreases boxes@.len() - i,
    {
        assert(bv.skip(i as int)[0] == iso_box_view(boxes@[i as int]));
        assert(bv.skip(i as int).drop_first() =~= bv.skip(i + 1));
        if tag_eq(&boxes[i].typ, &xml) {
            let payload = vstd::slice::slice_subrange(jxl, boxes[i].start, boxes[i].end);
            match utf8_text(payload) {
                Some(s) => {
                    return Some(s);
                },
                None => {},
            }
        }
        i += 1;
    }
    assert(bv.skip(i as int).len() == 0);
    None
}

/// The `xmp`-less error of [`wrap_with_xmp`].
pub open spec fn wrap_error_message() -> Seq<char> {
    "wrap_with_xmp: input is neither a JXL container nor a naked codestream"@
}

/// Return a JXL container with the given XMP string embedded in an `xml ` box.
///
/// Accepts either a naked codestream or an existing container. In the
/// container case, any existing `xml ` boxes are replaced with the new one;
/// all other boxes are kept in their order, and the `xml ` box is
/// placed before the codestream (`jxlc`/`jxlp`) box.
pub fn wrap_with_xmp(jxl: &[u8], xmp: &str) -> (r: Result<Vec<u8>, AppError>)
    requires
        xmp.spec_bytes().len() + 8 <= usize::MAX,
        jxl@.len() + 8 <= usize::MAX,
        !is_codestream_bytes(jxl@) && is_container_bytes(jxl@) ==> non_xml_boxes_sized(boxes_of(jxl@)),
    ensures
        r is Ok <==> (is_codestream_bytes(jxl@) || is_container_bytes(jxl@)),
        r matches Ok(v) ==> v@ == wrapped_bytes(jxl@, encode_utf8(xmp@)),
        r matches Err(e) ==> e matches AppError::Other(m) && m@ == wrap_error_message(),
{
    let xmp_bytes = xmp.as_bytes();
    let xml = xml_tag();
    let xml_box = make_box(&xml, xmp_bytes);
    let sig = signature();

    if is_codestream(jxl) {
        let jxlc = jxlc_tag();
        let mut out: Vec<u8> = Vec::new();
        push_all(&mut out, &sig);
        let ftyp = ftyp_box();
        push_all(&mut out, ftyp.as_slice());
        push_all(&mut out, xml_box.as_slice());
        let cs = make_box(&jxlc, jxl);
        push_all(&mut out, cs.as_slice());
        return Ok(out);
    }

    if !is_container(jxl) {
        return Err(AppError::Other(String::from_str(
            "wrap_with_xmp: input is neither a JXL container nor a naked codestream")));
    }

    let boxes = iter_boxes(jxl);
    let ghost b = jxl@;
    let ghost bv = iso_boxes_view(boxes@);
    let ghost xb = xml_box@;
    let jxlc = jxlc_tag();
    let jxlp = jxlp_tag();
    let mut out: Vec<u8> = Vec::new();
    push_all(&mut out, &sig);
    let mut inserted = false;
    let mut i: usize = 0;
    assert(bv.skip(0) =~= bv);
    while i < boxes.len()
        invariant
            bv == iso_boxes_view(boxes@),
            bv == boxes_of(b),
            b == jxl@,
            xb == xml_box@,
            xml@ == tag_xml(),
            jxlc@ == tag_jxlc(),
            jxlp@ == tag_jxlp(),
            non_xml_boxes_sized(bv),
            jxl@.len() + 8 <= usize::MAX,
            i <= boxes@.len(),
            signature_box() + rebuild(b, bv, xb, false) == out@ + rebuild(b, bv.skip(i as int), xb, inserted),
            forall|k: int| 0 <= k < boxes@.len() ==> (#[trigger] boxes@[k]).end <= jxl@.len()
                && boxes@[k].start <= jxl@.len(),
        decreases boxes@.len() - i,
    {
        let ghost rest = bv.skip(i as int);
        assert(rest[0] == iso_box_view(boxes@[i as int]));
        assert(rest.drop_first() =~= bv.skip(i + 1));
        let ghost before = out@;
        let ghost ins0 = inserted;
        let t = &boxes[i].typ;
        if !tag_eq(t, &xml) {
            assert(bv[i as int].0 != tag_xml());
            let is_cs = tag_eq(t, &jxlc) || tag_eq(t, &jxlp);
            assert(is_cs == is_codestream_tag(rest[0].0));
            if !inserted && is_cs {
                push_all(&mut out, xml_box.as_slice());
                inserted = true;
            }
            let ghost mid = out@;
            let start = boxes[i].start;
            let end = boxes[i].end;
            assert(start <= end);
            push_be32(&mut out, low32(8 + (end - start)));
            push_tag(&mut out, t);
            let payload = vstd::slice::slice_subrange(jxl, start, end);
            push_all(&mut out, payload);
            proof {
                let pre = if !ins0 && is_cs { xb } else { Seq::<u8>::empty() };
                let bx = box_bytes(rest[0].0, payload_of(b, rest[0]));
                assert(payload_of(b, rest[0]) == payload@);
                assert(bx =~= be32(size32(8 + (end - start))) + t@ + payload@);
                assert(mid =~= before + pre);
                assert(out@ =~= before + pre + bx);
                assert(rebuild(b, rest, xb, ins0) == pre + bx + rebuild(b, rest.drop_first(), xb, inserted));
                assert(before + (pre + bx + rebuild(b, rest.drop_first(), xb, inserted))
                    =~= out@ + rebuild(b, rest.drop_first(), xb, inserted));
            }
        } else {
            assert(rest[0].0 == tag_xml());
            assert(rebuild(b, rest, xb, ins0) == rebuild(b, rest.drop_first(), xb, ins0));
        }
        i += 1;
    }
    proof {
        assert(bv.skip(i as int).len() == 0);
        if !inserted {
            assert(out@ + xb == signature_box() + rebuild(b, bv, xb, false));
        } else {
            assert(out@ + Seq::<u8>::empty() =~= out@);
        }
    }
    if !inserted {
        push_all(&mut out, xml_box.as_slice());
    }
    Ok(out)
}


// ---------------------------------------------------------------------------
// Laws
// ---------------------------------------------------------------------------

pub proof fn lemma_be32_value(n: u32)
    ensures
        be32_at(be32(n), 0) == n as int,
        be32(n).len() == 4,
{
    let a = ((n >> 24u32) & 0xFFu32) as u8;
    let b = ((n >> 16u32) & 0xFFu32) as u8;
    let c = ((n >> 8u32) & 0xFFu32) as u8;
    let d = (n & 0xFFu32) as u8;
    assert(a as u32 * 0x100_0000u32 + b as u32 * 0x1_0000u32 + c as u32 * 0x100u32 + d as u32 == n) by (bit_vector)
        requires
            a == ((n >> 24u32) & 0xFFu32) as u8,
            b == ((n >> 16u32) & 0xFFu32) as u8,
            c == ((n >> 8u32) & 0xFFu32) as u8,
            d == (n & 0xFFu32) as u8,
    ;
    assert(be32(n)[0] == a && be32(n)[1] == b && be32(n)[2] == c && be32(n)[3] == d);
}

/// A well-framed box at `pos` is the first box found there.
proof fn lemma_box_parse(w: Seq<u8>, pos: int, t: Seq<u8>, p: Seq<u8>)
    requires
        0 <= pos,
        t.len() == 4,
        8 + p.len() < 0x1_0000_0000,
        pos + 8 + p.len() <= w.len(),
        w.subrange(pos, pos + 8 + p.len()) == box_bytes(t, p),
    ensures
        boxes_from(w, pos).len() >= 1,
        boxes_from(w, pos)[0] == (t, pos + 8, pos + 8 + p.len()),
        payload_of(w, boxes_from(w, pos)[0]) == p,
        boxes_from(w, pos).drop_first() == (if pos + 8 + p.len() == w.len() { Seq::<BoxView>::empty() } else {
            boxes_from(w, pos + 8 + p.len()) }),
{
    let n = (8 + p.len()) as u32;
    lemma_be32_value(n);
    assert(size32(8 + p.len() as int) == n);
    let bb = box_bytes(t, p);
    assert forall|k: int| 0 <= k < 4 implies w[pos + k] == be32(n)[k] by {
        assert(w.subrange(pos, pos + 8 + p.len())[k] == bb[k]);
    }
    assert(be32_at(w, pos) == be32_at(be32(n), 0));
    assert(w.subrange(pos + 4, pos + 8) =~= t) by {
        assert forall|k: int| 0 <= k < 4 implies w[pos + 4 + k] == t[k] by {
            assert(w.subrange(pos, pos + 8 + p.len())[4 + k] == bb[4 + k]);
        }
    }
    assert(w.subrange(pos + 8, pos + 8 + p.len()) =~= p) by {
        assert forall|k: int| 0 <= k < p.len() implies w[pos + 8 + k] == p[k] by {
            assert(w.subrange(pos, pos + 8 + p.len())[8 + k] == bb[8 + k]);
        }
    }
    if pos + 8 + p.len() == w.len() {
        assert(boxes_from(w, pos) == seq![(t, pos + 8, pos + 8 + p.len())]);
    } else {
        assert(boxes_from(w, pos) == seq![(t, pos + 8, pos + 8 + p.len())] + boxes_from(w, pos + 8 + p.len()));
    }
    assert(boxes_from(w, pos).drop_first() =~= (if pos + 8 + p.len() == w.len() { Seq::<BoxView>::empty() } else {
        boxes_from(w, pos + 8 + p.len()) }));
}

proof fn lemma_rebuild_len(b: Seq<u8>, bx: Seq<BoxView>, xml: Seq<u8>)
    ensures
        rebuild(b, bx, xml, false).len() >= xml.len(),
    decreases bx.len(),
{
    if bx.len() > 0 {
        lemma_rebuild_len(b, bx.drop_first(), xml);
    }
}

/// The boxes found from `pos` lie inside the data.
proof fn lemma_boxes_bounds(b: Seq<u8>, pos: int)
    requires
        0 <= pos,
    ensures
        forall|i: int| 0 <= i < boxes_from(b, pos).len() ==> (#[trigger] boxes_from(b, pos)[i]).1 >= 0
            && boxes_from(b, pos)[i].2 <= b.len(),
    decreases b.len() - pos,
{
    if pos + 8 <= b.len() {
        let size = be32_at(b, pos);
        if size != 0 && size != 1 && pos + size < b.len() {
            lemma_boxes_bounds(b, pos + size);
            let tail = boxes_from(b, pos + size);
            let typ = b.subrange(pos + 4, pos + 8);
            assert forall|i: int| 0 <= i < boxes_from(b, pos).len() implies (#[trigger] boxes_from(b, pos)[i]).1 >= 0
                && boxes_from(b, pos)[i].2 <= b.len() by {
                if i > 0 {
                    assert(boxes_from(b, pos)[i] == tail[i - 1]);
                }
            }
        }
    }
}

/// Scanning the rebuilt boxes from `pos` finds the fresh XMP payload.
proof fn lemma_rebuild_scan(b: Seq<u8>, bx: Seq<BoxView>, p: Seq<u8>, w: Seq<u8>, pos: int)
    requires
        0 <= pos <= w.len(),
        w.subrange(pos, w.len() as int) == rebuild(b, bx, box_bytes(tag_xml(), p), false),
        8 + p.len() < 0x1_0000_0000,
        valid_utf8(p),
        forall|i: int| 0 <= i < bx.len() ==> (#[trigger] bx[i]).0.len() == 4,
        forall|i: int| 0 <= i < bx.len() && (#[trigger] bx[i]).0 != tag_xml() ==>
            0 <= bx[i].1 <= bx[i].2 <= b.len() && 8 + bx[i].2 - bx[i].1 < 0x1_0000_0000,
    ensures
        first_xmp(w, boxes_from(w, pos)) == Some(decode_utf8(p)),
        xmp_scan_ok(w, boxes_from(w, pos)),
    decreases bx.len(),
{
    let xb = box_bytes(tag_xml(), p);
    let r = rebuild(b, bx, xb, false);
    if bx.len() == 0 {
        assert(w.subrange(pos, pos + 8 + p.len()) =~= xb);
        lemma_box_parse(w, pos, tag_xml(), p);
    } else if bx[0].0 == tag_xml() {
        assert forall|i: int| 0 <= i < bx.drop_first().len() implies (#[trigger] bx.drop_first()[i]).0.len() == 4 by {
            assert(bx.drop_first()[i] == bx[i + 1]);
        }
        assert forall|i: int| 0 <= i < bx.drop_first().len() && (#[trigger] bx.drop_first()[i]).0 != tag_xml() implies
            0 <= bx.drop_first()[i].1 <= bx.drop_first()[i].2 <= b.len()
            && 8 + bx.drop_first()[i].2 - bx.drop_first()[i].1 < 0x1_0000_0000 by {
            assert(bx.drop_first()[i] == bx[i + 1]);
        }
        lemma_rebuild_scan(b, bx.drop_first(), p, w, pos);
    } else if is_codestream_tag(bx[0].0) {
        let rest = box_bytes(bx[0].0, payload_of(b, bx[0])) + rebuild(b, bx.drop_first(), xb, true);
        assert(r == xb + rest);
        assert(w.subrange(pos, pos + 8 + p.len()) =~= xb) by {
            assert forall|k: int| 0 <= k < xb.len() implies w.subrange(pos, pos + 8 + p.len())[k] == xb[k] by {
                assert(w.subrange(pos, w.len() as int)[k] == r[k]);
            }
        }
        lemma_box_parse(w, pos, tag_xml(), p);
    } else {
        let pl = payload_of(b, bx[0]);
        let bb = box_bytes(bx[0].0, pl);
        let tail = rebuild(b, bx.drop_first(), xb, false);
        assert(r == bb + tail);
        lemma_rebuild_len(b, bx.drop_first(), xb);
        let len = 8 + pl.len();
        assert(w.subrange(pos, pos + len) =~= bb) by {
            assert forall|k: int| 0 <= k < bb.len() implies w.subrange(pos, pos + len)[k] == bb[k] by {
                assert(w.subrange(pos, w.len() as int)[k] == r[k]);
            }
        }
        lemma_box_parse(w, pos, bx[0].0, pl);
        assert(pos + len < w.len());
        assert(w.subrange(pos + len, w.len() as int) =~= tail) by {
            assert forall|k: int| 0 <= k < tail.len() implies w.subrange(pos + len, w.len() as int)[k] == tail[k] by {
                assert(w.subrange(pos, w.len() as int)[len + k] == r[len + k]);
            }
        }
        assert forall|i: int| 0 <= i < bx.drop_first().len() implies (#[trigger] bx.drop_first()[i]).0.len() == 4 by {
            assert(bx.drop_first()[i] == bx[i + 1]);
        }
        assert forall|i: int| 0 <= i < bx.drop_first().len() && (#[trigger] bx.drop_first()[i]).0 != tag_xml() implies
            0 <= bx.drop_first()[i].1 <= bx.drop_first()[i].2 <= b.len()
            && 8 + bx.drop_first()[i].2 - bx.drop_first()[i].1 < 0x1_0000_0000 by {
            assert(bx.drop_first()[i] == bx[i + 1]);
        }
        lemma_rebuild_scan(b, bx.drop_first(), p, w, pos + len);
    }
}

/// Law: the XMP text written by [`wrap_with_xmp`] is what [`read_xmp_box`]
/// reads back, and the result is a container. This holds for a naked
/// codestream and for a container whose boxes are well framed; box sizes must
/// fit the 32-bit size field.
pub proof fn law_wrap_then_read(b: Seq<u8>, xmp: Seq<char>)
    requires
        is_codestream_bytes(b) || (is_container_bytes(b) && non_xml_boxes_sized(boxes_of(b))),
        8 + encode_utf8(xmp).len() < 0x1_0000_0000,
        8 + b.len() < 0x1_0000_0000,
    ensures
        is_container_bytes(wrapped_bytes(b, encode_utf8(xmp))),
        xmp_scan_ok(wrapped_bytes(b, encode_utf8(xmp)), boxes_of(wrapped_bytes(b, encode_utf8(xmp)))),
        first_xmp(wrapped_bytes(b, encode_utf8(xmp)), boxes_of(wrapped_bytes(b, encode_utf8(xmp)))) == Some(xmp),
{
    broadcast use vstd::utf8::encode_utf8_decode_utf8, vstd::utf8::encode_utf8_valid_utf8;
    let p = encode_utf8(xmp);
    let w = wrapped_bytes(b, p);
    assert(w.take(12) =~= signature_box());
    if is_codestream_bytes(b) {
        lemma_wrap_codestream(b, p);
    } else {
        lemma_wrap_container(b, p);
    }
}

proof fn lemma_wrap_codestream(b: Seq<u8>, p: Seq<u8>)
    requires
        is_codestream_bytes(b),
        valid_utf8(p),
        8 + p.len() < 0x1_0000_0000,
        8 + b.len() < 0x1_0000_0000,
    ensures
        xmp_scan_ok(wrapped_bytes(b, p), boxes_of(wrapped_bytes(b, p))),
        first_xmp(wrapped_bytes(b, p), boxes_of(wrapped_bytes(b, p))) == Some(decode_utf8(p)),
{
    let w = wrapped_bytes(b, p);
    let xb = box_bytes(tag_xml(), p);
    let ft = ftyp_bytes();
    let fp = brand_jxl() + be32(0) + brand_jxl();
    assert(ft =~= box_bytes(tag_ftyp(), fp));
    let cb = box_bytes(tag_jxlc(), b);
    assert(w == signature_box() + ft + xb + cb);
    assert(w.take(12) =~= signature_box());
    assert(w.subrange(12, 32) =~= ft);
    lemma_box_parse(w, 12, tag_ftyp(), fp);
    assert(w.subrange(32, 40 + p.len() as int) =~= xb);
    lemma_box_parse(w, 32, tag_xml(), p);
    let bxs = boxes_from(w, 12);
    assert(bxs.drop_first()[0] == (tag_xml(), 40int, 40 + p.len() as int));
    assert(tag_ftyp() != tag_xml()) by {
        assert(tag_ftyp()[0] != tag_xml()[0]);
    }
    assert(bxs[0].0 != tag_xml());
    assert(payload_of(w, bxs.drop_first()[0]) == p);
    assert(first_xmp(w, bxs) == first_xmp(w, bxs.drop_first()));
    assert(xmp_scan_ok(w, bxs) == xmp_scan_ok(w, bxs.drop_first()));
}

proof fn lemma_wrap_container(b: Seq<u8>, p: Seq<u8>)
    requires
        !is_codestream_bytes(b),
        is_container_bytes(b),
        non_xml_boxes_sized(boxes_of(b)),
        valid_utf8(p),
        8 + p.len() < 0x1_0000_0000,
        8 + b.len() < 0x1_0000_0000,
    ensures
        xmp_scan_ok(wrapped_bytes(b, p), boxes_of(wrapped_bytes(b, p))),
        first_xmp(wrapped_bytes(b, p), boxes_of(wrapped_bytes(b, p))) == Some(decode_utf8(p)),
{
    let w = wrapped_bytes(b, p);
    let xb = box_bytes(tag_xml(), p);
    let bx = boxes_of(b);
    lemma_boxes_bounds(b, 12);
    lemma_boxes_types(b, 12);
    let r = rebuild(b, bx, xb, false);
    assert(w == signature_box() + r);
    assert(w.take(12) =~= signature_box());
    assert(w.subrange(12, w.len() as int) =~= r);
    assert forall|i: int| 0 <= i < bx.len() && (#[trigger] bx[i]).0 != tag_xml() implies
        0 <= bx[i].1 <= bx[i].2 <= b.len() && 8 + bx[i].2 - bx[i].1 < 0x1_0000_0000 by {
    }
    lemma_rebuild_scan(b, bx, p, w, 12);
}

/// The boxes of a wrapped codestream: its `ftyp`, `xml ` and `jxlc` boxes.
proof fn lemma_wrapped_codestream_boxes(b: Seq<u8>, p: Seq<u8>)
    requires
        is_codestream_bytes(b),
        8 + p.len() < 0x1_0000_0000,
        8 + b.len() < 0x1_0000_0000,
    ensures
        ({
            let w = wrapped_bytes(b, p);
            let fp = brand_jxl() + be32(0) + brand_jxl();
            &&& is_container_bytes(w)
            &&& !is_codestream_bytes(w)
            &&& boxes_of(w) == seq![(tag_ftyp(), 20int, 32int), (tag_xml(), 40int, 40 + p.len() as int),
                (tag_jxlc(), 48 + p.len() as int, w.len() as int)]
            &&& payload_of(w, boxes_of(w)[0]) == fp
            &&& payload_of(w, boxes_of(w)[2]) == b
        }),
{
    let w = wrapped_bytes(b, p);
    let xb = box_bytes(tag_xml(), p);
    let ft = ftyp_bytes();
    let fp = brand_jxl() + be32(0) + brand_jxl();
    lemma_be32_value(0);
    assert(ft =~= box_bytes(tag_ftyp(), fp));
    let cb = box_bytes(tag_jxlc(), b);
    lemma_be32_value(size32(8 + p.len() as int));
    lemma_be32_value(size32(8 + b.len() as int));
    assert(w == signature_box() + ft + xb + cb);
    assert(w.len() == 48 + p.len() + b.len());
    assert(w.take(12) =~= signature_box());
    assert(w.subrange(12, 32) =~= ft);
    lemma_box_parse(w, 12, tag_ftyp(), fp);
    assert(w.subrange(32, 40 + p.len() as int) =~= xb);
    lemma_box_parse(w, 32, tag_xml(), p);
    assert(w.subrange(40 + p.len() as int, w.len() as int) =~= cb);
    lemma_box_parse(w, 40 + p.len() as int, tag_jxlc(), b);
    let bxs = boxes_from(w, 12);
    assert(bxs =~= seq![(tag_ftyp(), 20int, 32int), (tag_xml(), 40int, 40 + p.len() as int),
        (tag_jxlc(), 48 + p.len() as int, w.len() as int)]) by {
        assert(bxs[0] == (tag_ftyp(), 20int, 32int));
        assert(bxs.drop_first()[0] == (tag_xml(), 40int, 40 + p.len() as int));
        assert(bxs.drop_first().drop_first() == seq![(tag_jxlc(), 48 + p.len() as int, w.len() as int)]);
        assert(bxs[1] == bxs.drop_first()[0]);
        assert(bxs[2] == bxs.drop_first().drop_first()[0]);
        assert(bxs.len() == 3);
    }
    assert(signature_box()[0] == 0);
    assert(w[0] == 0);
}

/// Law: wrapping a naked codestream a second time replaces its XMP text: the
/// result is exactly what wrapping the codestream once with the second text
/// gives, so reading it gives the second text. The first result is a
/// container whose boxes are well framed, so the second wrap is accepted.
/// Box sizes must fit the 32-bit size field.
pub proof fn law_rewrap_replaces_xmp(b: Seq<u8>, first: Seq<char>, second: Seq<char>)
    requires
        is_codestream_bytes(b),
        8 + encode_utf8(first).len() < 0x1_0000_0000,
        8 + encode_utf8(second).len() < 0x1_0000_0000,
        8 + b.len() < 0x1_0000_0000,
    ensures
        is_container_bytes(wrapped_bytes(b, encode_utf8(first))),
        non_xml_boxes_sized(boxes_of(wrapped_bytes(b, encode_utf8(first)))),
        wrapped_bytes(wrapped_bytes(b, encode_utf8(first)), encode_utf8(second)) == wrapped_bytes(b,
            encode_utf8(second)),
        first_xmp(wrapped_bytes(b, encode_utf8(second)), boxes_of(wrapped_bytes(b, encode_utf8(second))))
            == Some(second),
{
    let p = encode_utf8(first);
    let q = encode_utf8(second);
    let w = wrapped_bytes(b, p);
    lemma_wrapped_codestream_boxes(b, p);
    let bxs = boxes_of(w);
    let fp = brand_jxl() + be32(0) + brand_jxl();
    assert(tag_ftyp() != tag_xml()) by {
        assert(tag_ftyp()[0] != tag_xml()[0]);
    }
    assert(tag_jxlc() != tag_xml()) by {
        assert(tag_jxlc()[0] != tag_xml()[0]);
    }
    assert(!is_codestream_tag(tag_ftyp())) by {
        assert(tag_ftyp()[0] != tag_jxlc()[0]);
        assert(tag_ftyp()[0] != tag_jxlp()[0]);
    }
    assert(non_xml_boxes_sized(bxs));
    let xq = box_bytes(tag_xml(), q);
    let ft = ftyp_bytes();
    lemma_be32_value(0);
    assert(ft =~= box_bytes(tag_ftyp(), fp));
    let cb = box_bytes(tag_jxlc(), b);
    let one = bxs.drop_first().drop_first();
    let r2 = rebuild(w, one, xq, false);
    assert(one.len() == 1 && one[0] == bxs[2]);
    assert(one.drop_first() =~= Seq::<BoxView>::empty());
    assert(is_codestream_tag(one[0].0));
    assert(payload_of(w, one[0]) == b);
    assert(rebuild(w, one.drop_first(), xq, true) == Seq::<u8>::empty());
    assert(r2 == xq + cb + Seq::<u8>::empty());
    let r1 = rebuild(w, bxs.drop_first(), xq, false);
    assert(r1 == r2);
    let r0 = rebuild(w, bxs, xq, false);
    assert(r0 == Seq::<u8>::empty() + ft + r1);
    assert(wrapped_bytes(w, q) =~= wrapped_bytes(b, q));
    law_wrap_then_read(b, second);
}

/// Every box type found is four bytes long.
proof fn lemma_boxes_types(b: Seq<u8>, pos: int)
    requires
        0 <= pos,
    ensures
        forall|i: int| 0 <= i < boxes_from(b, pos).len() ==> (#[trigger] boxes_from(b, pos)[i]).0.len() == 4,
    decreases b.len() - pos,
{
    if pos + 8 <= b.len() {
        let size = be32_at(b, pos);
        if size != 0 && size != 1 && pos + size < b.len() {
            lemma_boxes_types(b, pos + size);
            let tail = boxes_from(b, pos + size);
            assert forall|i: int| 0 <= i < boxes_from(b, pos).len() implies
                (#[trigger] boxes_from(b, pos)[i]).0.len() == 4 by {
                if i > 0 {
                    assert(boxes_from(b, pos)[i] == tail[i - 1]);
                }
            }
        }
    }
}


// ---------------------------------------------------------------------------
// Display encodings (PNG, WebP)
// ---------------------------------------------------------------------------

/// The PNG the image crate's `PngEncoder` writes for 8-bit RGBA pixels of
/// the given size, when it writes one.
pub uninterp spec fn png_rgba8_encoding(pixels: Seq<u8>, width: u32, height: u32) -> Option<Seq<u8>>;

/// image `ImageEncoder::write_image` on a `PngEncoder` with `Rgba8` pixels
/// of exactly the image's size (the encoder asserts that size). Its output
/// is a function of the pixels and the size.
#[verifier::external_body]
fn png_encode_rgba8(pixels: &[u8], width: u32, height: u32) -> (r: Result<Vec<u8>, String>)
    requires
        pixels@.len() == 4 * width * height,
    ensures
        r is Ok <==> png_rgba8_encoding(pixels@, width, height) is Some,
        r matches Ok(v) ==> png_rgba8_encoding(pixels@, width, height) == Some(v@),
{
    let mut buf = Vec::new();
    image::ImageEncoder::write_image(
        image::codecs::png::PngEncoder::new(&mut buf),
        pixels,
        width,
        height,
        image::ExtendedColorType::Rgba8,
    ).map(|_| buf).map_err(|e| e.to_string())
}

/// The number of bytes of an 8-bit RGBA image.
pub open spec fn rgba8_len(width: u32, height: u32) -> int {
    4 * width * height
}

/// Encode 8-bit RGBA pixels as a lossless PNG: an error when there are fewer
/// bytes than the image needs, else what the PNG encoder gives (its error
/// text when it fails).
pub fn encode_rgba8_png(rgba: &[u8], width: u32, height: u32) -> (r: Result<Vec<u8>, AppError>)
    requires
        rgba@.len() <= rgba8_len(width, height),
    ensures
        rgba@.len() < rgba8_len(width, height) ==> (r matches Err(AppError::Other(m)) && m@
            == "Invalid RGBA8 dimensions for PNG encode"@),
        rgba@.len() == rgba8_len(width, height) ==> (r is Ok <==> png_rgba8_encoding(rgba@, width, height) is Some),
        r matches Ok(v) ==> png_rgba8_encoding(rgba@, width, height) == Some(v@),
        r matches Err(e) ==> e is Other,
{
    let w128: u128 = width as u128;
    let h128: u128 = height as u128;
    assert(w128 * h128 <= 0xFFFF_FFFFu128 * 0xFFFF_FFFFu128) by (nonlinear_arith)
        requires w128 <= 0xFFFF_FFFFu128, h128 <= 0xFFFF_FFFFu128;
    let wh: u128 = w128 * h128;
    let need: u128 = wh * 4;
    assert(need == rgba8_len(width, height)) by (nonlinear_arith)
        requires need == wh * 4, wh == width as int * height as int;
    if (rgba.len() as u128) < need {
        return Err(AppError::Other(String::from_str("Invalid RGBA8 dimensions for PNG encode")));
    }
    match png_encode_rgba8(rgba, width, height) {
        Ok(v) => Ok(v),
        Err(e) => Err(AppError::Other(e)),
    }
}

/// The lossless WebP the image crate writes for 8-bit RGBA pixels of the
/// given size, when it writes one.
pub uninterp spec fn webp_rgba8_encoding(pixels: Seq<u8>, width: u32, height: u32) -> Option<Seq<u8>>;

/// image `DynamicImage::write_to` in WebP format, for an `RgbaImage` made
/// by `from_raw` from pixels of exactly the image's size (the encoder
/// asserts that size). Its output is a function of the pixels and the size.
#[verifier::external_body]
fn webp_encode_rgba8(pixels: Vec<u8>, width: u32, height: u32) -> (r: Result<Vec<u8>, String>)
    requires
        pixels@.len() == 4 * width * height,
    ensures
        r is Ok <==> webp_rgba8_encoding(pixels@, width, height) is Some,
        r matches Ok(v) ==> webp_rgba8_encoding(pixels@, width, height) == Some(v@),
{
    let img = image::RgbaImage::from_raw(width, height, pixels).ok_or_else(String::new)?;
    let mut buf = std::io::Cursor::new(Vec::new());
    image::DynamicImage::ImageRgba8(img).write_to(&mut buf, image::ImageFormat::WebP).map_err(|e| e.to_string())?;
    Ok(buf.into_inner())
}

/// The high byte of each little-endian 16-bit sample.
pub open spec fn high_bytes(p: Seq<u8>) -> Seq<u8> {
    Seq::new(p.len() / 2, |k: int| p[2 * k + 1])
}

/// The 8-bit pixels of a frame: as they are, or the high bytes of 16-bit
/// little-endian samples.
pub open spec fn rgba8_pixels(p: Seq<u8>, is_16: bool) -> Seq<u8> {
    if is_16 { high_bytes(p) } else { p }
}

/// Encode raw RGBA pixels as WebP for display: 16-bit little-endian samples
/// are reduced to their high byte first; an error when there are fewer
/// bytes than the image needs; else what the WebP encoder gives (its error
/// text after `WebP encode failed: ` when it fails).
pub fn encode_rgba8_webp_from_raw(pixels: &[u8], width: u32, height: u32, is_16: bool) -> (r: Result<
    Vec<u8>,
    AppError,
>)
    requires
        rgba8_pixels(pixels@, is_16).len() <= rgba8_len(width, height),
    ensures
        rgba8_pixels(pixels@, is_16).len() < rgba8_len(width, height) ==> (r matches Err(AppError::Other(m)) && m@
            == "WebP encode: pixel buffer size mismatch"@),
        rgba8_pixels(pixels@, is_16).len() == rgba8_len(width, height) ==> (r is Ok <==> webp_rgba8_encoding(
            rgba8_pixels(pixels@, is_16),
            width,
            height,
        ) is Some),
        r matches Ok(v) ==> webp_rgba8_encoding(rgba8_pixels(pixels@, is_16), width, height) == Some(v@),
        r matches Err(e) ==> e matches AppError::Other(m) && (m@ == "WebP encode: pixel buffer size mismatch"@
            || m@.take(20) == "WebP encode failed: "@),
{
    let rgba8: Vec<u8> = if is_16 {
        let n = pixels.len();
        let half = n / 2;
        let mut out: Vec<u8> = Vec::new();
        let mut k: usize = 0;
        while k < half
            invariant
                n == pixels@.len(),
                half == n / 2,
                k <= half,
                out@ == high_bytes(pixels@).take(k as int),
            decreases half - k,
        {
            assert(2 * k + 1 < pixels@.len()) by (nonlinear_arith)
                requires k < half, half == pixels@.len() / 2;
            let i = 2 * k + 1;
            out.push(pixels[i]);
            assert(high_bytes(pixels@).take(k + 1) =~= high_bytes(pixels@).take(k as int).push(pixels@[2 * k + 1]));
            k += 1;
        }
        assert(high_bytes(pixels@).take(half as int) =~= high_bytes(pixels@));
        out
    } else {
        crate::metadata::slice_copy(pixels)
    };
    let w128: u128 = width as u128;
    let h128: u128 = height as u128;
    assert(w128 * h128 <= 0xFFFF_FFFFu128 * 0xFFFF_FFFFu128) by (nonlinear_arith)
        requires w128 <= 0xFFFF_FFFFu128, h128 <= 0xFFFF_FFFFu128;
    let wh: u128 = w128 * h128;
    let need: u128 = wh * 4;
    assert(need == rgba8_len(width, height)) by (nonlinear_arith)
        requires need == wh * 4, wh == width as int * height as int;
    if (rgba8.len() as u128) < need {
        return Err(AppError::Other(String::from_str("WebP encode: pixel buffer size mismatch")));
    }
    match webp_encode_rgba8(rgba8, width, height) {
        Ok(v) => Ok(v),
        Err(e) => {
            let mut m = String::from_str("WebP encode failed: ");
            let ghost pre = m@;
            proof {
                reveal_strlit("WebP encode failed: ");
            }
            crate::text::push_str(&mut m, e.as_str());
            assert(m@.take(20) =~= pre);
            Err(AppError::Other(m))
        },
    }
}

} // verus!
