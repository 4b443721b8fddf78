use comfyui_desktop::client::{
    checkpoint_info, data_url, lora_info, modelspec_get, nsfw_label, upper_hex_encode, CivitaiImage, CivitaiVersion,
    Sha256Stream,
};

fn digest_of(data: &[u8]) -> Vec<u8> {
    let mut s = Sha256Stream::new();
    s.update(data);
    s.finish_digest()
}

fn version() -> CivitaiVersion {
    CivitaiVersion {
        id: Some(7),
        model_id: Some(3),
        base_model: Some("SDXL 1.0".to_string()),
        model_name: Some("Cute Style".to_string()),
        model_description: Some("<p>desc</p>".to_string()),
        creator: Some("maker".to_string()),
        trained_words: vec!["cute".to_string(), "style".to_string()],
        images: vec![
            CivitaiImage { url: None, width: Some(1), height: Some(1), nsfw_level: None },
            CivitaiImage {
                url: Some("https://img/1.png".to_string()),
                width: Some(512),
                height: Some(768),
                nsfw_level: Some(1),
            },
            CivitaiImage { url: Some("https://img/2.png".to_string()), width: None, height: None, nsfw_level: Some(4) },
        ],
        download_count: Some(100),
        thumbs_up_count: Some(9),
    }
}

fn spec_fields() -> Vec<(String, String)> {
    vec![
        ("title".to_string(), "Spec Title".to_string()),
        ("architecture".to_string(), "stable-diffusion-xl-v1-base".to_string()),
        ("tags".to_string(), "a,b".to_string()),
    ]
}

#[test]
fn stream_hash_matches_known_digest() {
    let mut s = Sha256Stream::new();
    s.update(b"ab");
    s.update(b"c");
    assert_eq!(s.finish_lower_hex(), "ba7816bf8f01cfea414140de5dae2223b00361a396177a9cb410ff61f20015ad");
    let mut t = Sha256Stream::new();
    t.update(b"abc");
    assert_eq!(t.finish_upper_hex(), "BA7816BF8F01CFEA414140DE5DAE2223B00361A396177A9CB410FF61F20015AD");
    let empty = Sha256Stream::new();
    assert_eq!(empty.finish_lower_hex(), "e3b0c44298fc1c149afbf4c8996fb92427ae41e4649b934ca495991b7852b855");
    assert_eq!(digest_of(b"abc").len(), 32);
    assert_eq!(upper_hex_encode(&[0x0f, 0xa0]), "0FA0");
}

#[test]
fn modelspec_lookup_takes_first_match() {
    let m = vec![("title".to_string(), "A".to_string()), ("title".to_string(), "B".to_string())];
    assert_eq!(modelspec_get(&m, "title"), Some("A".to_string()));
    assert_eq!(modelspec_get(&m, "author"), None);
    assert_eq!(nsfw_label(1), "None");
    assert_eq!(nsfw_label(3), "Level3");
}

#[test]
fn lora_panel_with_lookup() {
    let d = digest_of(b"abc");
    let v = version();
    let info = lora_info("style.safetensors", &spec_fields(), &d, Some(&v));
    assert_eq!(info.filename, "style.safetensors");
    assert_eq!(info.hash.as_deref(), Some("BA7816BF8F"));
    assert_eq!(info.civitai_version_id, Some(7));
    assert_eq!(info.civitai_model_id, Some(3));
    assert_eq!(info.civitai_base_model.as_deref(), Some("SDXL 1.0"));
    assert_eq!(info.civitai_name.as_deref(), Some("Cute Style"));
    assert_eq!(info.civitai_description.as_deref(), Some("<p>desc</p>"));
    assert_eq!(info.civitai_creator, None);
    assert_eq!(info.civitai_trigger_words, vec!["cute".to_string(), "style".to_string()]);
    assert_eq!(info.civitai_images.len(), 2);
    assert_eq!(info.civitai_images[0].url, "https://img/1.png");
    assert_eq!(info.civitai_images[0].width, Some(512));
    assert_eq!(info.civitai_images[0].height, Some(768));
    assert_eq!(info.civitai_images[0].nsfw.as_deref(), Some("None"));
    assert_eq!(info.civitai_images[1].nsfw.as_deref(), Some("Level4"));
    assert_eq!(info.civitai_images[1].width, None);
    assert_eq!(info.civitai_download_count, Some(100));
    assert_eq!(info.civitai_thumbs_up_count, Some(9));
    assert_eq!(info.modelspec_title.as_deref(), Some("Spec Title"));
    assert_eq!(info.modelspec_author, None);
    assert_eq!(info.modelspec_tags.as_deref(), Some("a,b"));
}

#[test]
fn lora_panel_without_lookup() {
    let d = digest_of(b"");
    let info = lora_info("x.pt", &Vec::new(), &d, None);
    assert_eq!(info.hash.as_deref(), Some("E3B0C44298"));
    assert_eq!(info.civitai_name, None);
    assert!(info.civitai_images.is_empty());
    assert!(info.civitai_trigger_words.is_empty());
    assert_eq!(info.modelspec_title, None);
}

#[test]
fn checkpoint_panel_prefers_modelspec_title_and_civitai_base() {
    let d = digest_of(b"abc");
    let v = version();
    let info = checkpoint_info("m.safetensors", &spec_fields(), None, Some(&d), Some(&v));
    assert_eq!(info.hash.as_deref(), Some("BA7816BF8F"));
    assert_eq!(info.display_name.as_deref(), Some("Spec Title"));
    assert_eq!(info.base_model.as_deref(), Some("SDXL 1.0"));
    assert_eq!(info.thumbnail_url.as_deref(), Some("https://img/1.png"));
    assert_eq!(info.civitai_creator.as_deref(), Some("maker"));
    assert_eq!(info.civitai_images.len(), 2);
    assert_eq!(info.modelspec_architecture.as_deref(), Some("stable-diffusion-xl-v1-base"));
}

#[test]
fn checkpoint_panel_sidecar_and_fallbacks() {
    let d = digest_of(b"abc");
    let mut v = version();
    v.base_model = None;
    let info = checkpoint_info("m.ckpt", &Vec::new(), Some("data:image/png;base64,AA==".to_string()), Some(&d),
        Some(&v));
    assert_eq!(info.display_name.as_deref(), Some("Cute Style"));
    assert_eq!(info.base_model, None);
    assert_eq!(info.thumbnail_url.as_deref(), Some("data:image/png;base64,AA=="));
    let spec = spec_fields();
    let info2 = checkpoint_info("m.safetensors", &spec, None, Some(&d), Some(&v));
    assert_eq!(info2.base_model.as_deref(), Some("stable-diffusion-xl-v1-base"));
}

#[test]
fn checkpoint_panel_when_hashing_failed() {
    let v = version();
    let info = checkpoint_info("m.safetensors", &spec_fields(), None, None, Some(&v));
    assert_eq!(info.hash, None);
    assert_eq!(info.civitai_version_id, None);
    assert_eq!(info.display_name.as_deref(), Some("Spec Title"));
    assert_eq!(info.base_model.as_deref(), Some("stable-diffusion-xl-v1-base"));
    assert_eq!(info.thumbnail_url, None);
    assert!(info.civitai_images.is_empty());
}


#[test]
fn data_urls_use_standard_base64() {
    assert_eq!(data_url("image/png", b"Man"), "data:image/png;base64,TWFu");
    assert_eq!(data_url("image/png", b"Ma"), "data:image/png;base64,TWE=");
    assert_eq!(data_url("image/jpeg", b"M"), "data:image/jpeg;base64,TQ==");
    assert_eq!(data_url("image/png", b""), "data:image/png;base64,");
    assert_eq!(data_url("image/png", &[0xFB, 0xFF, 0xBF]), "data:image/png;base64,+/+/");
}
