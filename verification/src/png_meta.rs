//! Generation metadata in PNG files: written as a `parameters` text chunk,
//! in the stealth alpha channel, or both, and read back from either. The
//! metadata travels as SwarmUI JSON text, which the caller writes and parses.
use vstd::prelude::*;
use vstd::utf8::encode_utf8;
use crate::metadata::{
    PngColorType, MetadataMode, rgba8_of, rgba16_of, to_rgba8, to_rgba16, stealth_geometry, stealth_embedded,
    stealth_stream, stealth_text_of, encode_stealth_alpha, read_stealth_text, gzip_best,
};
use crate::text::{chars_of, trim, trim_chars};
use crate::strmap::{str_eq, StrMap};
use crate::swarm::{SwarmDoc, ObjView, Params, params_of, parse_swarm_doc};
use crate::a1111::{a1111_params, parse_a1111_params};

verus! {

/// The header of a decoded PNG: size, colour type, bit depth, sRGB rendering
/// intent, and the `tEXt` chunks as (keyword, text).
pub struct PngHeader {
    pub width: u32,
    pub height: u32,
    pub color_type: PngColorType,
    pub bit_depth: u8,
    pub srgb: Option<u8>,
    pub texts: Vec<(String, String)>,
}

/// A header as values.
pub type HeaderView = (u32, u32, PngColorType, u8, Option<u8>, Seq<(Seq<char>, Seq<char>)>);

impl PngHeader {
    pub open spec fn view(&self) -> HeaderView {
        (self.width, self.height, self.color_type, self.bit_depth, self.srgb,
            self.texts@.map_values(|t: (String, String)| (t.0@, t.1@)))
    }
}

/// The header png's decoder reads from the bytes; None when it reports an
/// error.
pub uninterp spec fn png_header_of(bytes: Seq<u8>) -> Option<HeaderView>;

/// The pixel data (rows as stored, unexpanded) png's decoder reads from the
/// first frame of the bytes; None when it reports an error.
pub uninterp spec fn png_frame_of(bytes: Seq<u8>) -> Option<Seq<u8>>;

/// The PNG png's encoder writes for this size, colour type, bit depth, sRGB
/// intent, optional text chunk (keyword, text) and pixel data; None when it
/// reports an error.
pub uninterp spec fn png_encoding(
    width: u32,
    height: u32,
    color: u8,
    depth: u8,
    srgb: Option<u8>,
    text: Option<(Seq<char>, Seq<char>)>,
    data: Seq<u8>,
) -> Option<Seq<u8>>;

/// The keyword of the text chunk that carries the generation metadata.
pub open spec fn metadata_keyword() -> Seq<char> {
    "parameters"@
}

/// The keyword of the metadata text chunk, for writing and reading it.
pub fn metadata_chunk_keyword() -> (k: &'static str)
    ensures
        k@ == metadata_keyword(),
{
    "parameters"
}

/// png `Decoder::read_info` and the `Info` it reads: the header fields and
/// the `tEXt` chunks, a function of the bytes alone.
#[verifier::external_body]
fn png_header(bytes: &[u8]) -> (r: Result<PngHeader, String>)
    ensures
        r is Ok <==> png_header_of(bytes@) is Some,
        r matches Ok(h) ==> png_header_of(bytes@) == Some(h.view()),
        r matches Ok(h) ==> (h.bit_depth == 1 || h.bit_depth == 2 || h.bit_depth == 4 || h.bit_depth == 8
            || h.bit_depth == 16) && (h.srgb matches Some(i) ==> i < 4),
{
    let reader = png::Decoder::new(std::io::Cursor::new(bytes)).read_info().map_err(|e| format!("PNG decode error: {}", e))?;
    let info = reader.info();
    let color_type = match info.color_type {
        png::ColorType::Grayscale => PngColorType::Grayscale,
        png::ColorType::Rgb => PngColorType::Rgb,
        png::ColorType::Indexed => PngColorType::Indexed,
        png::ColorType::GrayscaleAlpha => PngColorType::GrayscaleAlpha,
        png::ColorType::Rgba => PngColorType::Rgba,
    };
    let texts = info.uncompressed_latin1_text.iter().map(|c| (c.keyword.clone(), c.text.clone())).collect();
    Ok(PngHeader { width: info.width, height: info.height, color_type, bit_depth: info.bit_depth as u8, srgb: info.srgb.map(|s| s as u8), texts })
}

/// png `Reader::next_frame` after `read_info`, into a buffer of the reader's
/// output size, truncated to the frame's size: the first frame's pixel rows,
/// a function of the bytes alone. (A reader that cannot size its buffer is
/// reported as an error.)
#[verifier::external_body]
fn png_frame(bytes: &[u8]) -> (r: Result<Vec<u8>, String>)
    ensures
        r is Ok <==> png_frame_of(bytes@) is Some,
        r matches Ok(d) ==> png_frame_of(bytes@) == Some(d@),
{
    let mut reader = png::Decoder::new(std::io::Cursor::new(bytes)).read_info().map_err(|e| format!("PNG decode error: {}", e))?;
    let size = reader.output_buffer_size().ok_or_else(|| "PNG output buffer size unavailable".to_string())?;
    let mut buf = vec![0u8; size];
    let out = reader.next_frame(&mut buf).map_err(|e| format!("PNG frame read error: {}", e))?;
    buf.truncate(out.buffer_size());
    Ok(buf)
}

/// png `Encoder` writing into a `Vec`: header (colour type and bit depth by
/// their PNG codes, which must be valid), sRGB chunk (intent by its code),
/// optional `tEXt` chunk (keyword, text), image data and end; a function of
/// its arguments.
#[verifier::external_body]
fn png_encode(width: u32, height: u32, color: u8, depth: u8, srgb: Option<u8>, text: Option<(&str, &str)>, data: &[u8]) -> (r: Result<Vec<u8>, String>)
    requires
        color == 0 || color == 2 || color == 3 || color == 4 || color == 6,
        depth == 1 || depth == 2 || depth == 4 || depth == 8 || depth == 16,
        srgb matches Some(i) ==> i < 4,
    ensures
        r is Ok <==> png_encoding(width, height, color, depth, srgb, match text { Some(t) => Some((t.0@, t.1@)), None => None }, data@) is Some,
        r matches Ok(v) ==> png_encoding(width, height, color, depth, srgb, match text { Some(t) => Some((t.0@, t.1@)), None => None }, data@) == Some(v@),
{
    let mut out = Vec::new();
    let mut enc = png::Encoder::new(&mut out, width, height);
    enc.set_color(png::ColorType::from_u8(color).unwrap());
    enc.set_depth(png::BitDepth::from_u8(depth).unwrap());
    if let Some(i) = srgb {
        enc.set_source_srgb([png::SrgbRenderingIntent::Perceptual, png::SrgbRenderingIntent::RelativeColorimetric, png::SrgbRenderingIntent::Saturation, png::SrgbRenderingIntent::AbsoluteColorimetric][i as usize]);
    }
    if let Some((k, t)) = text {
        let _ = enc.add_text_chunk(k.into(), t.into());
    }
    enc.write_header().map_err(|e| format!("PNG encode error: {}", e))?
        .write_image_data(data).map_err(|e| format!("PNG write error: {}", e))?;
    Ok(out)
}

/// The PNG code of a colour type.
pub open spec fn color_code_of(c: PngColorType) -> u8 {
    match c {
        PngColorType::Grayscale => 0,
        PngColorType::Rgb => 2,
        PngColorType::Indexed => 3,
        PngColorType::GrayscaleAlpha => 4,
        PngColorType::Rgba => 6,
    }
}

/// The PNG code of a colour type.
pub fn color_code(c: PngColorType) -> (r: u8)
    ensures
        r == color_code_of(c),
{
    match c {
        PngColorType::Grayscale => 0,
        PngColorType::Rgb => 2,
        PngColorType::Indexed => 3,
        PngColorType::GrayscaleAlpha => 4,
        PngColorType::Rgba => 6,
    }
}

/// Whether the image data of a PNG has 16 bits per channel.
pub fn is_png_16bit(image_bytes: &[u8]) -> (r: Result<bool, String>)
    ensures
        r is Ok <==> png_header_of(image_bytes@) is Some,
        r matches Ok(b) ==> b == ((png_header_of(image_bytes@)->0).3 == 16),
{
    let h = png_header(image_bytes)?;
    Ok(h.bit_depth == 16)
}

/// The pixel data to write and its colour type: with the stealth channel,
/// the RGBA form of the decoded data (8 or 16 bits per channel) with the
/// compressed text embedded in its alpha; else the decoded data unchanged.
pub open spec fn pixels_to_write(h: HeaderView, frame: Seq<u8>, json: Seq<char>, mode: MetadataMode) -> Option<(Seq<u8>, PngColorType)> {
    if mode.writes_stealth() {
        let sixteen = h.3 == 16;
        if frame.len() * 8 > usize::MAX {
            None
        } else {
        let bpp: int = if sixteen { 8 } else { 4 };
        let rgba = if sixteen { rgba16_of(frame, h.2) } else { rgba8_of(frame, h.2) };
        match rgba {
            None => None,
            Some(px) => match gzip_best(encode_utf8(json)) {
                None => None,
                Some(c) => if stealth_geometry(px.len() as int, h.0 as int, h.1 as int, bpp) && 8 * stealth_stream(c).len()
                    <= h.0 * h.1 {
                    Some((stealth_embedded(px, h.0 as int, h.1 as int, bpp, stealth_stream(c)), PngColorType::Rgba))
                } else {
                    None
                },
            },
        }
        }
    } else {
        Some((frame, h.2))
    }
}

/// The PNG written with the metadata: decoded, the pixels prepared (see
/// [`pixels_to_write`]), and encoded again at the same size, bit depth and
/// sRGB intent, with the `parameters` chunk when the mode writes it.
pub open spec fn embedded_png(bytes: Seq<u8>, json: Seq<char>, mode: MetadataMode) -> Option<Seq<u8>> {
    match (png_header_of(bytes), png_frame_of(bytes)) {
        (Some(h), Some(frame)) => match pixels_to_write(h, frame, json, mode) {
            Some((px, color)) => png_encoding(h.0, h.1, color_code_of(color), h.3, h.4, if mode.writes_text() { Some((metadata_keyword(), json)) } else { None }, px),
            None => None,
        },
        _ => None,
    }
}

/// Whether a buffer of `len` bytes holds `w` × `h` pixels of `bpp` bytes.
fn fits_geometry(len: usize, w: u32, h: u32, bpp: usize) -> (r: bool)
    requires
        bpp == 4 || bpp == 8,
    ensures
        r == stealth_geometry(len as int, w as int, h as int, bpp as int),
{
    let a: u64 = w as u64;
    let b: u64 = h as u64;
    let wh = match a.checked_mul(b) {
        Some(x) => x,
        None => {
            proof {
                assert(w * h * bpp > usize::MAX) by (nonlinear_arith)
                    requires w * h > u64::MAX, bpp >= 1, usize::MAX <= u64::MAX;
            }
            return false;
        },
    };
    let n = match wh.checked_mul(bpp as u64) {
        Some(x) => x,
        None => {
            return false;
        },
    };
    n <= len as u64 && n <= usize::MAX as u64
}

/// Embed the metadata JSON text into PNG image bytes using the mode.
pub fn embed_png_metadata(image_bytes: &[u8], json_text: &str, mode: MetadataMode) -> (r: Result<Vec<u8>, String>)
    ensures
        r is Ok <==> embedded_png(image_bytes@, json_text@, mode) is Some,
        r matches Ok(v) ==> embedded_png(image_bytes@, json_text@, mode) == Some(v@),
{
    let h = png_header(image_bytes)?;
    let frame = png_frame(image_bytes)?;
    let ghost hv = h.view();
    let (pixels, color) = if mode.uses_stealth() {
        if frame.len() > usize::MAX / 8 {
            return Err(String::from_str("Image too large for stealth metadata"));
        }
        let sixteen = h.bit_depth == 16;
        let bpp: usize = if sixteen { 8 } else { 4 };
        let converted = if sixteen {
            to_rgba16(frame.as_slice(), h.color_type, h.width, h.height)
        } else {
            to_rgba8(frame.as_slice(), h.color_type, h.width, h.height)
        };
        let (mut rgba, w, ht) = converted?;
        if !fits_geometry(rgba.len(), w, ht, bpp) {
            return Err(String::from_str("Pixel data smaller than the image"));
        }
        encode_stealth_alpha(&mut rgba, w, ht, bpp, json_text)?;
        (rgba, PngColorType::Rgba)
    } else {
        (frame, h.color_type)
    };
    let text = if mode.uses_text_chunk() { Some((metadata_chunk_keyword(), json_text)) } else { None };
    png_encode(h.width, h.height, color_code(color), h.bit_depth, h.srgb, text, pixels.as_slice())
}

/// The text of the first `tEXt` chunk with the keyword `parameters`, trimmed.
pub open spec fn parameters_text(texts: Seq<(Seq<char>, Seq<char>)>) -> Option<Seq<char>>
    decreases texts.len(),
{
    if texts.len() == 0 {
        None
    } else if texts[0].0 == metadata_keyword() {
        Some(trim(texts[0].1))
    } else {
        parameters_text(texts.drop_first())
    }
}

/// The metadata text of a PNG's `parameters` chunk; `Ok(None)` when it has
/// none, an error when the PNG does not decode.
pub fn read_png_parameters_text(image_bytes: &[u8]) -> (r: Result<Option<String>, String>)
    ensures
        r is Ok <==> png_header_of(image_bytes@) is Some,
        r matches Ok(o) ==> parameters_text((png_header_of(image_bytes@)->0).5) == match o {
            Some(t) => Some(t@),
            None => None::<Seq<char>>,
        },
{
    let h = png_header(image_bytes)?;
    let ghost tv = h.texts@.map_values(|t: (String, String)| (t.0@, t.1@));
    assert(tv.skip(0) =~= tv);
    let mut i: usize = 0;
    while i < h.texts.len()
        invariant
            i <= h.texts@.len(),
            png_header_of(image_bytes@) == Some(h.view()),
            tv == h.texts@.map_values(|t: (String, String)| (t.0@, t.1@)),
            parameters_text(tv) == parameters_text(tv.skip(i as int)),
        decreases h.texts@.len() - i,
    {
        assert(tv.skip(i as int).drop_first() =~= tv.skip(i + 1));
        assert(tv.skip(i as int)[0] == tv[i as int]);
        if str_eq(h.texts[i].0.as_str(), metadata_chunk_keyword()) {
            let cs = chars_of(h.texts[i].1.as_str());
            let t = trim_chars(&cs, 0, cs.len());
            assert(cs@.subrange(0, cs@.len() as int) =~= cs@);
            return Ok(Some(t));
        }
        i += 1;
    }
    assert(tv.skip(i as int) =~= Seq::<(Seq<char>, Seq<char>)>::empty());
    Ok(None)
}

/// The text carried in the stealth alpha channel of an RGBA PNG, trimmed;
/// None when the PNG does not decode, is not RGBA, carries nothing, or its
/// payload does not decompress to UTF-8 text.
pub open spec fn stealth_png_text(bytes: Seq<u8>) -> Option<Seq<char>> {
    match (png_header_of(bytes), png_frame_of(bytes)) {
        (Some(h), Some(frame)) => if h.2 != PngColorType::Rgba {
            None
        } else {
            let bpp: int = if h.3 == 16 { 8 } else { 4 };
            if !stealth_geometry(frame.len() as int, h.0 as int, h.1 as int, bpp) {
                None
            } else {
                match stealth_text_of(frame, h.0 as int, h.1 as int, bpp) {
                    Some(Some(t)) => Some(trim(t)),
                    _ => None,
                }
            }
        },
        _ => None,
    }
}

/// Read the metadata text from the stealth alpha channel of a PNG.
pub fn read_stealth_alpha_text(image_bytes: &[u8]) -> (r: Option<String>)
    ensures
        match r {
            Some(t) => stealth_png_text(image_bytes@) == Some(t@),
            None => stealth_png_text(image_bytes@) is None,
        },
{
    let h = match png_header(image_bytes) {
        Ok(h) => h,
        Err(_) => {
            return None;
        },
    };
    let frame = match png_frame(image_bytes) {
        Ok(f) => f,
        Err(_) => {
            return None;
        },
    };
    if h.color_type != PngColorType::Rgba {
        return None;
    }
    let bpp: usize = if h.bit_depth == 16 { 8 } else { 4 };
    if !fits_geometry(frame.len(), h.width, h.height, bpp) {
        return None;
    }
    match read_stealth_text(frame.as_slice(), h.width, h.height, bpp) {
        Ok(Some(t)) => {
            let cs = chars_of(t.as_str());
            let tt = trim_chars(&cs, 0, cs.len());
            assert(cs@.subrange(0, cs@.len() as int) =~= cs@);
            Some(tt)
        },
        _ => None,
    }
}

/// A metadata text that is SwarmUI JSON rather than A1111 text: it starts
/// with `{`.
pub fn looks_like_json(text: &str) -> (r: bool)
    ensures
        r == (text@.len() > 0 && text@[0] == '{'),
{
    let cs = chars_of(text);
    cs.len() > 0 && cs[0] == '{'
}

/// The parameters a PNG's metadata reads as, given the SwarmUI document
/// found in its stealth alpha channel, the trimmed text of its `parameters`
/// chunk, and that text read as a SwarmUI document: the stealth document's
/// parameters when it has any; else, when there is such a chunk, its SwarmUI
/// parameters when the text starts with `{` and they are not empty, and its
/// A1111 parameters otherwise; else nothing.
pub open spec fn png_params(
    stealth_doc: Option<(ObjView, ObjView, ObjView)>,
    text: Option<Seq<char>>,
    text_doc: Option<(ObjView, ObjView, ObjView)>,
) -> Option<Params> {
    if stealth_doc is Some && params_of(stealth_doc->0) != Map::<Seq<char>, Seq<char>>::empty() {
        Some(params_of(stealth_doc->0))
    } else {
        match text {
            None => None,
            Some(t) => if t.len() > 0 && t[0] == '{' && text_doc is Some && params_of(text_doc->0)
                != Map::<Seq<char>, Seq<char>>::empty() {
                Some(params_of(text_doc->0))
            } else {
                Some(a1111_params(t))
            },
        }
    }
}

/// The view of an optional document.
pub open spec fn doc_view_of(d: Option<&SwarmDoc>) -> Option<(ObjView, ObjView, ObjView)> {
    match d {
        Some(d) => Some(d.view()),
        None => None,
    }
}

/// Read a PNG's parameters from what was found in it (see [`png_params`]):
/// stealth alpha first, then the `parameters` text chunk.
pub fn png_params_from(stealth_doc: Option<&SwarmDoc>, text: Option<&str>, text_doc: Option<&SwarmDoc>) -> (r:
    Option<StrMap<String>>)
    requires
        stealth_doc matches Some(d) ==> d.wf(),
        text_doc matches Some(d) ==> d.wf(),
    ensures
        r matches Some(m) ==> m.wf(),
        match r {
            Some(m) => png_params(doc_view_of(stealth_doc), match text {
                Some(t) => Some(t@),
                None => None,
            }, doc_view_of(text_doc)) == Some(m.view()),
            None => png_params(doc_view_of(stealth_doc), match text {
                Some(t) => Some(t@),
                None => None,
            }, doc_view_of(text_doc)) is None,
        },
{
    if let Some(d) = stealth_doc {
        if let Some(p) = parse_swarm_doc(d) {
            return Some(p);
        }
    }
    match text {
        None => None,
        Some(t) => {
            if looks_like_json(t) {
                if let Some(d) = text_doc {
                    if let Some(p) = parse_swarm_doc(d) {
                        return Some(p);
                    }
                }
            }
            Some(parse_a1111_params(t))
        },
    }
}

} // verus!
