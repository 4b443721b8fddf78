use comfyui_desktop::jxl::{encode_rgba8_png, encode_rgba8_webp_from_raw};
use comfyui_desktop::a1111::{parse_a1111_params, store_setting};
use comfyui_desktop::jxl::{ftyp_box, is_codestream, is_container, iter_boxes, make_box, read_xmp_box, wrap_with_xmp, xmp_scan_safe};
use comfyui_desktop::metadata::{
    colmajor_alpha_offset, embed_stealth_payload, encode_stealth_alpha, extract_stealth_payload, format_label,
    read_stealth_text, to_rgba16, to_rgba8, ImageFormat, MetadataMode, PngColorType,
};
use comfyui_desktop::png_meta::{
    embed_png_metadata, is_png_16bit, looks_like_json, png_params_from, read_png_parameters_text,
    read_stealth_alpha_text,
};
use comfyui_desktop::strmap::StrMap;
use comfyui_desktop::swarm::{format_swarm_doc, parse_size, parse_swarm_doc, JsonKind, JsonText, SwarmDoc};

fn make_png(width: u32, height: u32, color: png::ColorType, depth: png::BitDepth, fill: u8) -> Vec<u8> {
    let samples = match color {
        png::ColorType::Rgb => 3,
        png::ColorType::Rgba => 4,
        _ => 1,
    };
    let bytes_per_sample = if depth == png::BitDepth::Sixteen { 2 } else { 1 };
    let data = vec![fill; (width * height) as usize * samples * bytes_per_sample];
    let mut out = Vec::new();
    {
        let mut enc = png::Encoder::new(&mut out, width, height);
        enc.set_color(color);
        enc.set_depth(depth);
        let mut w = enc.write_header().unwrap();
        w.write_image_data(&data).unwrap();
    }
    out
}

fn params(pairs: &[(&str, &str)]) -> StrMap<String> {
    let mut m = StrMap::new();
    for (k, v) in pairs {
        m.insert(k.to_string(), v.to_string());
    }
    m
}

fn get(m: &StrMap<String>, k: &str) -> Option<String> {
    m.get(k).cloned()
}

#[test]
fn a1111_text_parsed() {
    let text = "a cat\nsitting\nNegative prompt: blurry\nugly\nSteps: 20, Sampler: Euler a, CFG scale: 7, Seed: 42, Size: 512x768, Model: m, LoRAs: a, b";
    let p = parse_a1111_params(text);
    assert_eq!(get(&p, "positive_prompt").as_deref(), Some("a cat\nsitting"));
    assert_eq!(get(&p, "negative_prompt").as_deref(), Some("blurry\nugly"));
    assert_eq!(get(&p, "steps").as_deref(), Some("20"));
    assert_eq!(get(&p, "sampler").as_deref(), Some("Euler a"));
    assert_eq!(get(&p, "cfg").as_deref(), Some("7"));
    assert_eq!(get(&p, "seed").as_deref(), Some("42"));
    assert_eq!(get(&p, "size").as_deref(), Some("512x768"));
    assert_eq!(get(&p, "model").as_deref(), Some("m"));
    assert_eq!(get(&p, "loras").as_deref(), Some("a, b"));
    assert_eq!(p.len(), 9);
}

#[test]
fn a1111_prompt_only_and_empty() {
    let p = parse_a1111_params("just a prompt");
    assert_eq!(get(&p, "positive_prompt").as_deref(), Some("just a prompt"));
    assert_eq!(p.len(), 1);
    assert_eq!(parse_a1111_params("").len(), 0);
    let q = parse_a1111_params("Negative prompt: Negative prompt: x");
    assert_eq!(get(&q, "negative_prompt").as_deref(), Some("x"));
    assert_eq!(get(&q, "positive_prompt").as_deref(), Some(""));
}

#[test]
fn settings_keys_normalized() {
    let mut p = StrMap::new();
    store_setting(&mut p, "Denoising strength", "0.5");
    store_setting(&mut p, "Custom Key", "v");
    assert_eq!(get(&p, "denoise").as_deref(), Some("0.5"));
    assert_eq!(get(&p, "Custom Key").as_deref(), Some("v"));
}

#[test]
fn swarm_document_round_trip() {
    let p = params(&[
        ("positive_prompt", "a cat"),
        ("negative_prompt", ""),
        ("seed", "42"),
        ("cfg", "7"),
        ("size", "512x768"),
        ("date", "2024-01-01"),
        ("mooshie_preset", "p1"),
        ("mooshie_software", "x"),
        ("unrelated", "dropped"),
    ]);
    let doc = format_swarm_doc(&p, "1.2.3");
    let prompt = doc.image_params.get("prompt").unwrap();
    assert!(prompt.kind == JsonKind::Str && prompt.text == "a cat");
    assert!(doc.image_params.get("negativeprompt").is_none());
    let w = doc.image_params.get("width").unwrap();
    assert!(w.kind == JsonKind::Number && w.text == "512");
    assert_eq!(doc.image_params.get("mooshie_version").unwrap().text, "1.2.3");
    assert_eq!(doc.mooshie_extra.get("preset").unwrap().text, "p1");
    assert_eq!(doc.mooshie_extra.get("software").unwrap().text, "x");
    let back = parse_swarm_doc(&doc).unwrap();
    assert_eq!(get(&back, "positive_prompt").as_deref(), Some("a cat"));
    assert_eq!(get(&back, "seed").as_deref(), Some("42"));
    assert_eq!(get(&back, "cfg").as_deref(), Some("7"));
    assert_eq!(get(&back, "size").as_deref(), Some("512x768"));
    assert_eq!(get(&back, "date").as_deref(), Some("2024-01-01"));
    assert_eq!(get(&back, "mooshie_preset").as_deref(), Some("p1"));
    assert!(get(&back, "mooshie_software").is_none());
    assert!(get(&back, "unrelated").is_none());
    assert!(get(&back, "negative_prompt").is_none());
    assert_eq!(back.len(), 6);
}

#[test]
fn swarm_document_reading() {
    let mut image = StrMap::new();
    image.insert("width".to_string(), JsonText { kind: JsonKind::Number, text: "64".to_string() });
    image.insert("height".to_string(), JsonText { kind: JsonKind::Str, text: "32".to_string() });
    image.insert("steps".to_string(), JsonText { kind: JsonKind::Number, text: "30".to_string() });
    let mut extra = StrMap::new();
    extra.insert("date".to_string(), JsonText { kind: JsonKind::Other, text: "1".to_string() });
    let doc = SwarmDoc { image_params: image, extra_data: extra, mooshie_extra: StrMap::new() };
    let p = parse_swarm_doc(&doc).unwrap();
    assert_eq!(get(&p, "size").as_deref(), Some("64x32"));
    assert_eq!(get(&p, "steps").as_deref(), Some("30"));
    assert!(get(&p, "date").is_none());
    let empty = SwarmDoc { image_params: StrMap::new(), extra_data: StrMap::new(), mooshie_extra: StrMap::new() };
    assert!(parse_swarm_doc(&empty).is_none());
    assert_eq!(parse_size("512x768"), Some((512, 768)));
    assert_eq!(parse_size("512 x 768"), None);
}

#[test]
fn stealth_payload_round_trip() {
    let (w, h) = (64u32, 64u32);
    let mut rgba = vec![7u8; (w * h * 4) as usize];
    let payload = b"hello stealth".to_vec();
    embed_stealth_payload(&mut rgba, w, h, 4, &payload).unwrap();
    assert_eq!(rgba[3] | 1, 0xFF);
    assert_eq!(extract_stealth_payload(&rgba, w, h, 4), Some(payload));
    let blank = vec![0u8; (w * h * 4) as usize];
    assert_eq!(extract_stealth_payload(&blank, w, h, 4), None);
}

#[test]
fn stealth_text_round_trip_16bit_buffer() {
    let (w, h) = (64u32, 64u32);
    let mut rgba = vec![0u8; (w * h * 8) as usize];
    encode_stealth_alpha(&mut rgba, w, h, 8, "{\"a\": 1}").unwrap();
    assert_eq!(read_stealth_text(&rgba, w, h, 8).unwrap(), Some("{\"a\": 1}".to_string()));
    let mut tiny = vec![0u8; 4 * 4 * 4];
    assert!(encode_stealth_alpha(&mut tiny, 4, 4, 4, "x").is_err());
}

#[test]
fn column_major_offsets() {
    assert_eq!(colmajor_alpha_offset(0, 4, 3, 4), 3);
    assert_eq!(colmajor_alpha_offset(1, 4, 3, 4), 4 * 4 + 3);
    assert_eq!(colmajor_alpha_offset(3, 4, 3, 4), 4 + 3);
    assert_eq!(colmajor_alpha_offset(1, 4, 3, 8), 4 * 8 + 6);
}

#[test]
fn pixel_expansion() {
    let (px, w, h) = to_rgba8(&[1, 2, 3, 4, 5, 6], PngColorType::Rgb, 2, 1).unwrap();
    assert_eq!(px, vec![1, 2, 3, 255, 4, 5, 6, 255]);
    assert_eq!((w, h), (2, 1));
    let (g, _, _) = to_rgba8(&[9, 8], PngColorType::GrayscaleAlpha, 1, 1).unwrap();
    assert_eq!(g, vec![9, 9, 9, 8]);
    assert!(to_rgba8(&[0], PngColorType::Indexed, 1, 1).is_err());
    let (g16, _, _) = to_rgba16(&[1, 2], PngColorType::Grayscale, 1, 1).unwrap();
    assert_eq!(g16, vec![1, 2, 1, 2, 1, 2, 255, 255]);
}

#[test]
fn metadata_modes() {
    assert!(MetadataMode::from_str("stealth") == MetadataMode::StealthAlpha);
    assert!(MetadataMode::from_str("both") == MetadataMode::Both);
    assert!(MetadataMode::from_str("whatever") == MetadataMode::TextChunk);
    assert!(MetadataMode::Both.uses_stealth() && MetadataMode::Both.uses_text_chunk());
    assert!(!MetadataMode::TextChunk.uses_stealth());
    assert_eq!(format_label(ImageFormat::Jxl), "jxl");
    assert_eq!(format_label(ImageFormat::Unknown), "unknown");
}

#[test]
fn png_metadata_stealth_8bit() {
    let png_bytes = make_png(64, 64, png::ColorType::Rgb, png::BitDepth::Eight, 128);
    let json = "{\"sui_image_params\": {\"prompt\": \"test prompt hello world\"}}";
    let embedded = embed_png_metadata(&png_bytes, json, MetadataMode::StealthAlpha).unwrap();
    assert_eq!(read_stealth_alpha_text(&embedded).as_deref(), Some(json));
    assert_eq!(read_png_parameters_text(&embedded).unwrap(), None);
    assert_eq!(is_png_16bit(&embedded), Ok(false));
}

#[test]
fn png_metadata_stealth_16bit() {
    let png_bytes = make_png(64, 64, png::ColorType::Rgb, png::BitDepth::Sixteen, 128);
    assert_eq!(is_png_16bit(&png_bytes), Ok(true));
    let json = "{\"sui_image_params\": {\"prompt\": \"16bit test\"}}";
    let embedded = embed_png_metadata(&png_bytes, json, MetadataMode::Both).unwrap();
    assert_eq!(read_stealth_alpha_text(&embedded).as_deref(), Some(json));
    assert_eq!(read_png_parameters_text(&embedded).unwrap().as_deref(), Some(json));
    assert_eq!(is_png_16bit(&embedded), Ok(true));
}

#[test]
fn png_metadata_text_chunk_only() {
    let png_bytes = make_png(8, 8, png::ColorType::Rgb, png::BitDepth::Eight, 1);
    let embedded = embed_png_metadata(&png_bytes, "  Steps: 20  ", MetadataMode::TextChunk).unwrap();
    assert_eq!(read_png_parameters_text(&embedded).unwrap().as_deref(), Some("Steps: 20"));
    assert_eq!(read_stealth_alpha_text(&embedded), None);
    assert!(embed_png_metadata(b"not a png", "x", MetadataMode::TextChunk).is_err());
    assert!(read_png_parameters_text(b"not a png").is_err());
    assert!(looks_like_json("{\"a\":1}"));
    assert!(!looks_like_json("Steps: 20"));
}

#[test]
fn xmp_box_roundtrip_on_codestream() {
    let codestream = vec![0xFF, 0x0A, 1, 2, 3, 4];
    assert!(is_codestream(&codestream));
    let xmp = r#"{"sui_image_params":"{\"prompt\":\"test\"}"}"#;
    let wrapped = wrap_with_xmp(&codestream, xmp).expect("wrap");
    assert!(is_container(&wrapped), "wrapped output must be container");
    assert!(xmp_scan_safe(&wrapped));
    assert_eq!(read_xmp_box(&wrapped).as_deref(), Some(xmp));
}

#[test]
fn xmp_replace_existing_box() {
    let codestream = vec![0xFF, 0x0A, 9, 9];
    let first = wrap_with_xmp(&codestream, "first").expect("wrap1");
    let second = wrap_with_xmp(&first, "second").expect("wrap2");
    assert_eq!(read_xmp_box(&second).as_deref(), Some("second"));
    assert!(wrap_with_xmp(&[1, 2, 3], "x").is_err());
}

#[test]
fn iso_boxes_listed() {
    let ftyp = ftyp_box();
    assert_eq!(ftyp.len(), 20);
    assert_eq!(&ftyp[4..8], b"ftyp");
    let b = make_box(b"abcd", &[1, 2, 3]);
    assert_eq!(b, vec![0, 0, 0, 11, b'a', b'b', b'c', b'd', 1, 2, 3]);
    let wrapped = wrap_with_xmp(&[0xFF, 0x0A], "meta").unwrap();
    let boxes = iter_boxes(&wrapped);
    assert!(boxes.len() >= 3);
    assert_eq!(&boxes[0].typ, b"ftyp");
}

fn obj_to_json(m: &StrMap<JsonText>) -> serde_json::Value {
    let mut out = serde_json::Map::new();
    for i in 0..m.len() {
        let (k, v) = m.entry(i);
        let value = match v.kind {
            JsonKind::Str => serde_json::Value::String(v.text.clone()),
            _ => serde_json::from_str(&v.text).unwrap(),
        };
        out.insert(k.clone(), value);
    }
    serde_json::Value::Object(out)
}

fn doc_to_json(doc: &SwarmDoc) -> String {
    let mut root = serde_json::Map::new();
    root.insert("sui_image_params".to_string(), obj_to_json(&doc.image_params));
    root.insert("sui_extra_data".to_string(), obj_to_json(&doc.extra_data));
    root.insert("mooshie_extra".to_string(), obj_to_json(&doc.mooshie_extra));
    serde_json::to_string_pretty(&serde_json::Value::Object(root)).unwrap()
}

fn json_obj(v: Option<&serde_json::Value>) -> StrMap<JsonText> {
    let mut m = StrMap::new();
    if let Some(serde_json::Value::Object(o)) = v {
        for (k, v) in o {
            let t = match v {
                serde_json::Value::String(s) => JsonText { kind: JsonKind::Str, text: s.clone() },
                serde_json::Value::Number(n) => JsonText { kind: JsonKind::Number, text: n.to_string() },
                other => JsonText { kind: JsonKind::Other, text: other.to_string() },
            };
            m.insert(k.clone(), t);
        }
    }
    m
}

fn json_to_doc(text: &str) -> Option<SwarmDoc> {
    let root: serde_json::Value = serde_json::from_str(text).ok()?;
    let obj = root.as_object()?;
    Some(SwarmDoc {
        image_params: json_obj(obj.get("sui_image_params")),
        extra_data: json_obj(obj.get("sui_extra_data")),
        mooshie_extra: json_obj(obj.get("mooshie_extra")),
    })
}

fn read_params(png: &[u8]) -> Option<StrMap<String>> {
    let stealth = read_stealth_alpha_text(png).and_then(|t| json_to_doc(&t));
    let text = read_png_parameters_text(png).unwrap();
    let text_doc = text.as_deref().and_then(json_to_doc);
    png_params_from(stealth.as_ref(), text.as_deref(), text_doc.as_ref())
}

fn make_test_png(width: u32, height: u32, sixteen_bit: bool) -> Vec<u8> {
    let depth = if sixteen_bit { png::BitDepth::Sixteen } else { png::BitDepth::Eight };
    make_png(width, height, png::ColorType::Rgb, depth, 128)
}

#[test]
fn stealth_alpha_round_trip_8bit() {
    let png_bytes = make_test_png(64, 64, false);
    let p = params(&[("positive_prompt", "test prompt hello world"), ("seed", "12345"), ("steps", "20")]);
    let json = doc_to_json(&format_swarm_doc(&p, "1.0.0"));
    let embedded = embed_png_metadata(&png_bytes, &json, MetadataMode::Both).unwrap();
    let result = read_params(&embedded);
    assert!(result.is_some(), "Should find metadata");
    let read_params = result.unwrap();
    assert_eq!(get(&read_params, "positive_prompt").unwrap(), "test prompt hello world");
    assert_eq!(get(&read_params, "seed").unwrap(), "12345");
}

#[test]
fn stealth_alpha_round_trip_16bit() {
    let png_bytes = make_test_png(64, 64, true);
    let p = params(&[("positive_prompt", "16bit test"), ("model", "test_model.safetensors")]);
    let json = doc_to_json(&format_swarm_doc(&p, "1.0.0"));
    let embedded = embed_png_metadata(&png_bytes, &json, MetadataMode::StealthAlpha).unwrap();
    let result = read_params(&embedded);
    assert!(result.is_some(), "Should find stealth metadata in 16-bit image");
    let read_params = result.unwrap();
    assert_eq!(get(&read_params, "positive_prompt").unwrap(), "16bit test");
}

#[test]
fn stealth_alpha_binary_format_check() {
    let png_bytes = make_test_png(64, 64, false);
    let p = params(&[("positive_prompt", "hello")]);
    let json = doc_to_json(&format_swarm_doc(&p, "1.0.0"));
    let embedded = embed_png_metadata(&png_bytes, &json, MetadataMode::StealthAlpha).unwrap();

    let decoder = png::Decoder::new(std::io::Cursor::new(&embedded));
    let mut reader = decoder.read_info().unwrap();
    let info = reader.info().clone();
    assert_eq!(info.color_type, png::ColorType::Rgba);
    let mut buf = vec![0u8; reader.output_buffer_size().unwrap()];
    reader.next_frame(&mut buf).unwrap();
    let w = info.width as usize;
    let h = info.height as usize;
    let mut magic = Vec::new();
    let mut bit_idx = 0usize;
    for _ in 0..15 {
        let mut byte_val = 0u8;
        for bit_pos in (0..8).rev() {
            let x = bit_idx / h;
            let y = bit_idx % h;
            let off = (y * w + x) * 4 + 3;
            let bit = buf[off] & 1;
            byte_val |= bit << bit_pos;
            bit_idx += 1;
        }
        magic.push(byte_val);
    }
    assert_eq!(&magic, b"stealth_pngcomp", "Magic header should match");
}

#[test]
fn png_params_prefer_stealth_then_text() {
    let p = params(&[("positive_prompt", "from stealth")]);
    let doc = format_swarm_doc(&p, "1.0.0");
    let text_doc = format_swarm_doc(&params(&[("seed", "7")]), "1.0.0");
    let r = png_params_from(Some(&doc), Some("{\"x\": 1}"), Some(&text_doc)).unwrap();
    assert_eq!(get(&r, "positive_prompt").as_deref(), Some("from stealth"));
    let r = png_params_from(None, Some("{\"x\": 1}"), Some(&text_doc)).unwrap();
    assert_eq!(get(&r, "seed").as_deref(), Some("7"));
    let r = png_params_from(None, Some("a cat\nSteps: 20"), Some(&text_doc)).unwrap();
    assert_eq!(get(&r, "steps").as_deref(), Some("20"));
    assert_eq!(get(&r, "positive_prompt").as_deref(), Some("a cat"));
    let r = png_params_from(None, Some("{broken"), None).unwrap();
    assert_eq!(get(&r, "positive_prompt").as_deref(), Some("{broken"));
    assert!(png_params_from(None, None, None).is_none());
}

fn encode_rgba8_lossless(rgba: &[u8], width: u32, height: u32) -> Vec<u8> {
    jxl_encoder::LossyConfig::new(1.0).encode(rgba, width, height, jxl_encoder::PixelLayout::Rgba8).unwrap()
}

#[test]
fn xmp_box_roundtrip() {
    let rgba = [10u8; 16];
    let encoded = encode_rgba8_lossless(&rgba, 2, 2);
    let xmp = r#"{"sui_image_params":"{\"prompt\":\"test\"}"}"#;
    let wrapped = wrap_with_xmp(&encoded, xmp).expect("wrap");
    assert!(is_container(&wrapped), "wrapped output must be container");
    let read_back = read_xmp_box(&wrapped).expect("xmp present");
    assert_eq!(read_back, xmp);
    let decoded = jxl_oxide::JxlImage::builder().read(std::io::Cursor::new(&wrapped)).expect("decode wrapped");
    assert_eq!(decoded.width(), 2);
    assert_eq!(decoded.height(), 2);
}

#[test]
fn xmp_replace_existing() {
    let rgba = [10u8; 16];
    let encoded = encode_rgba8_lossless(&rgba, 2, 2);
    let first = wrap_with_xmp(&encoded, "first").expect("wrap1");
    let second = wrap_with_xmp(&first, "second").expect("wrap2");
    assert_eq!(read_xmp_box(&second).as_deref(), Some("second"));
}

#[test]
fn display_encodings() {
    let rgba = vec![255u8, 0, 0, 255, 0, 255, 0, 255, 0, 0, 255, 255, 255, 255, 255, 128];
    let png_bytes = encode_rgba8_png(&rgba, 2, 2).unwrap();
    let decoder = png::Decoder::new(std::io::Cursor::new(&png_bytes));
    let mut reader = decoder.read_info().unwrap();
    let mut buf = vec![0u8; reader.output_buffer_size().unwrap()];
    reader.next_frame(&mut buf).unwrap();
    assert_eq!(buf, rgba);
    match encode_rgba8_png(&rgba[..8], 2, 2) {
        Err(e) => assert_eq!(e.message(), "Invalid RGBA8 dimensions for PNG encode"),
        Ok(_) => panic!("short buffer accepted"),
    }
    let webp = encode_rgba8_webp_from_raw(&rgba, 2, 2, false).unwrap();
    assert_eq!(&webp[0..4], b"RIFF");
    let sixteen: Vec<u8> = rgba.iter().flat_map(|b| [0u8, *b]).collect();
    let webp16 = encode_rgba8_webp_from_raw(&sixteen, 2, 2, true).unwrap();
    assert_eq!(webp16, webp);
    match encode_rgba8_webp_from_raw(&rgba[..4], 2, 2, false) {
        Err(e) => assert_eq!(e.message(), "WebP encode: pixel buffer size mismatch"),
        Ok(_) => panic!("short buffer accepted"),
    }
}

#[test]
fn rewrapping_replaces_xmp() {
    let code = vec![0xFFu8, 0x0A, 1, 2, 3, 4];
    let first = wrap_with_xmp(&code, "first").unwrap();
    let second = wrap_with_xmp(&first, "second").unwrap();
    assert_eq!(second, wrap_with_xmp(&code, "second").unwrap());
    assert_eq!(read_xmp_box(&second), Some("second".to_string()));
}
