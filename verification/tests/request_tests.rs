use comfyui_desktop::auth::AuthState;
use comfyui_desktop::error::AppError;
use comfyui_desktop::interrogator::{parse_tags_csv, tags_from_records};
use comfyui_desktop::jxl::encode_rgba8_png;
use comfyui_desktop::media::generate_thumbnail;
use comfyui_desktop::uri::{is_plain_filename, parse_gallery_uri, parse_thumbnail_uri};

#[test]
fn thumbnail_uris_on_every_platform() {
    assert_eq!(parse_thumbnail_uri("thumbnail://localhost/a%20b.png?size=128"), ("a b.png".to_string(), 128));
    assert_eq!(parse_thumbnail_uri("https://thumbnail.localhost/img.png"), ("img.png".to_string(), 256));
    assert_eq!(parse_thumbnail_uri("http://thumbnail.localhost/img.png?x=1&size=64"), ("img.png".to_string(), 64));
    assert_eq!(parse_thumbnail_uri("thumbnail:///img.png?size=big&size=64"), ("img.png".to_string(), 256));
    assert_eq!(parse_thumbnail_uri("thumbnail://localhost/img.png?size=+32"), ("img.png".to_string(), 32));
    assert_eq!(parse_thumbnail_uri("other://x/img.png?size=32"), ("".to_string(), 256));
    assert_eq!(parse_thumbnail_uri("thumbnail://localhost/bad%FF.png"), ("bad%FF.png".to_string(), 256));
    assert_eq!(parse_thumbnail_uri("thumbnail://localhost/pct%2x.png"), ("pct%2x.png".to_string(), 256));
    assert_eq!(parse_thumbnail_uri("thumbnail://localhost/%C3%A9.png"), ("\u{e9}.png".to_string(), 256));
}

#[test]
fn gallery_uris_refuse_paths() {
    assert_eq!(parse_gallery_uri("gallery://localhost/pic.png?v=2"), Some("pic.png".to_string()));
    assert_eq!(parse_gallery_uri("https://gallery.localhost/pic%2Epng"), Some("pic.png".to_string()));
    assert_eq!(parse_gallery_uri("gallery://localhost/..%2Fsecret"), None);
    assert_eq!(parse_gallery_uri("gallery://localhost/a%5Cb"), None);
    assert!(is_plain_filename("x.png"));
    assert!(!is_plain_filename("a/b"));
    assert!(!is_plain_filename("a..b"));
}

#[test]
fn thumbnails_are_webp() {
    let rgba = vec![200u8; 8 * 4 * 4];
    let png = encode_rgba8_png(&rgba, 8, 4).unwrap();
    let thumb = generate_thumbnail("p.png", &png, 4).unwrap();
    assert_eq!(&thumb[0..4], b"RIFF");
    assert_eq!(&thumb[8..12], b"WEBP");
    assert_eq!(generate_thumbnail("../p.png", &png, 4), Err("Invalid filename".to_string()));
    assert!(generate_thumbnail("p.png", b"not an image", 4).unwrap_err().starts_with("Decode failed: "));
}

#[test]
fn tags_read_from_csv() {
    let csv = b"tag_id,name,category,count\n1,girl,0,100\n2,,0,5\n3,cat,9,1\n4,x,300,1\n5,y,+7,1\n";
    let tags = parse_tags_csv(csv).unwrap();
    let got: Vec<(String, u8)> = tags.iter().map(|t| (t.name.clone(), t.category)).collect();
    assert_eq!(got, vec![("girl".to_string(), 0), ("cat".to_string(), 9), ("x".to_string(), 0), ("y".to_string(), 7)]);
    match parse_tags_csv(b"a,b,c\n1,2\n") {
        Err(AppError::InterrogatorError(m)) => assert!(m.starts_with("CSV parse error: ")),
        _ => panic!("expected a CSV error"),
    }
    let short = tags_from_records(&vec![vec!["1".to_string(), "solo".to_string()], vec!["2".to_string()]]);
    assert_eq!(short.len(), 1);
    assert_eq!(short[0].name, "solo");
    assert_eq!(short[0].category, 0);
}

#[test]
fn password_length_counts_characters() {
    let mut auth = AuthState::new();
    auth.create_account("kim", "pw12").unwrap();
    assert_eq!(auth.change_password("kim", "pw12", "\u{e9}\u{e9}"),
        Err("New password must be at least 4 characters".to_string()));
    assert_eq!(auth.reset_password("kim", "\u{e9}\u{e9}"),
        Err("Temporary password must be at least 4 characters".to_string()));
    assert_eq!(auth.change_password("nobody", "x", "\u{e9}\u{e9}"),
        Err("New password must be at least 4 characters".to_string()));
    auth.change_password("kim", "pw12", "\u{e9}\u{e9}\u{e9}\u{e9}").unwrap();
    assert!(auth.login("kim", "\u{e9}\u{e9}\u{e9}\u{e9}").is_ok());
    auth.reset_password("kim", "temp").unwrap();
    let (_, must_change) = auth.login("kim", "temp").unwrap();
    assert!(must_change);
}
