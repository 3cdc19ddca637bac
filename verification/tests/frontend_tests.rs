use std::io::Write;

use easytex::frontend_assets::{decode_archive, ArchiveError, FrontendAssets};
use easytex::handlers::serve_static;

fn archive(entries: &[(&str, &[u8])]) -> Vec<u8> {
    let mut raw = Vec::new();
    for (path, content) in entries {
        raw.extend_from_slice(&(path.len() as u32).to_le_bytes());
        raw.extend_from_slice(&(content.len() as u64).to_le_bytes());
        raw.extend_from_slice(path.as_bytes());
        raw.extend_from_slice(content);
    }
    raw
}

fn gzip(bytes: &[u8]) -> Vec<u8> {
    let mut encoder = flate2::write::GzEncoder::new(Vec::new(), flate2::Compression::best());
    encoder.write_all(bytes).unwrap();
    encoder.finish().unwrap()
}

#[test]
fn embedded_frontend_archive_loads_index() {
    let bytes = gzip(&archive(&[
        ("index.html", b"<!doctype html><title>EasyTex</title>"),
        ("assets/app.js", b"console.log(1)"),
    ]));
    let assets = FrontendAssets::load(&bytes).unwrap();
    assert!(assets.get("index.html").is_some());
    assert!(assets.len() > 0);
    assert_eq!(assets.len(), 2);
    assert_eq!(assets.get("assets/app.js"), Some(&b"console.log(1)"[..]));
    assert_eq!(assets.get("missing.css"), None);
}

#[test]
fn broken_archives_are_refused() {
    assert!(matches!(FrontendAssets::load(b"not gzip"), Err(ArchiveError::Decompress)));
    let no_index = gzip(&archive(&[("app.js", b"x")]));
    assert!(matches!(FrontendAssets::load(&no_index), Err(ArchiveError::MissingIndex)));
    assert!(matches!(decode_archive(&[1, 0, 0]), Err(ArchiveError::Truncated)));
    let mut short = archive(&[("index.html", b"0123456789")]);
    short.truncate(short.len() - 1);
    match decode_archive(&short) {
        Err(ArchiveError::TruncatedContent(path)) => assert_eq!(path, "index.html"),
        _ => panic!("expected truncated content"),
    }
    let mut bad_path = archive(&[("index.html", b"x")]);
    bad_path[12] = 0xff;
    assert!(matches!(decode_archive(&bad_path), Err(ArchiveError::InvalidPath)));
    let mut cut_path = archive(&[("index.html", b"")]);
    cut_path.truncate(15);
    assert!(matches!(decode_archive(&cut_path), Err(ArchiveError::TruncatedPath)));
    assert_eq!(ArchiveError::MissingIndex.message(), "embedded frontend archive is missing index.html");
}

#[test]
fn later_entries_replace_earlier_ones() {
    let assets = decode_archive(&archive(&[("index.html", b"old"), ("index.html", b"new")])).unwrap();
    assert_eq!(assets.len(), 1);
    assert_eq!(assets.get("index.html"), Some(&b"new"[..]));
}

#[test]
fn static_assets_fall_back_to_the_index() {
    let assets = decode_archive(&archive(&[("index.html", b"<html>"), ("assets/app.js", b"js")])).unwrap();
    let (ct, body) = serve_static(&assets, "/assets/app.js").unwrap();
    assert_eq!((ct, body.as_slice()), ("application/javascript", &b"js"[..]));
    let (ct, body) = serve_static(&assets, "//").unwrap();
    assert_eq!((ct, body.as_slice()), ("text/html", &b"<html>"[..]));
    let (ct, body) = serve_static(&assets, "/projects/thesis").unwrap();
    assert_eq!((ct, body.as_slice()), ("text/html", &b"<html>"[..]));
}
