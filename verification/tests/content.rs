use mcp_server::error::ErrorKind;
use mcp_server::helpers::mime::{choose_mime, mime_type, mime_type_for, path_extension_exec};
use mcp_server::tools::fs::file_read_image::{read_failure, FileReadImageTool};
use mcp_server::tools::fs::file_read_raw::{into_content, FileReadRawTool, RawContent};

const PNG_MAGIC: [u8; 8] = [0x89, b'P', b'N', b'G', 0x0d, 0x0a, 0x1a, 0x0a];

#[test]
fn extension_follows_std_path() {
    let ext = |p: &str| path_extension_exec(p).map(|v| v.iter().collect::<String>());
    for p in ["a.png", "dir.d/file", ".png", "x/.hidden.txt", "a.", "a.tar.gz", "noext", "dir/", "x.png/"] {
        let std_ext = std::path::Path::new(p).extension().map(|e| e.to_string_lossy().into_owned());
        assert_eq!(ext(p), std_ext, "{p}");
    }
}

#[test]
fn image_types_by_extension() {
    assert_eq!(mime_type_for("/a/pic.png"), Some("image/png"));
    assert_eq!(mime_type_for("A.PNG"), Some("image/png"));
    assert_eq!(mime_type_for("a.JpEg"), Some("image/jpeg"));
    assert_eq!(mime_type_for("a.jpg"), Some("image/jpeg"));
    assert_eq!(mime_type_for("icon.ico"), Some("image/x-icon"));
    assert_eq!(mime_type_for("scan.tif"), Some("image/tiff"));
    assert_eq!(mime_type_for("v.svg"), Some("image/svg+xml"));
    assert_eq!(mime_type_for("x.avif"), Some("image/avif"));
    assert_eq!(mime_type_for(".png"), None);
    assert_eq!(mime_type_for("notes.txt"), None);
    assert_eq!(mime_type_for("png"), None);
}

#[test]
fn unsupported_image_is_refused() {
    assert_eq!(FileReadImageTool::image_type("/w/a.gif").unwrap(), "image/gif");
    let e = FileReadImageTool::image_type("/w/a.txt").unwrap_err();
    assert_eq!(e.kind, ErrorKind::InvalidRequest);
    assert_eq!(e.message, "unsupported image type: /w/a.txt");
}

#[test]
fn size_limits() {
    assert!(FileReadImageTool::check_size(10 * 1024 * 1024).is_ok());
    let e = FileReadImageTool::check_size(10 * 1024 * 1024 + 1).unwrap_err();
    assert_eq!(e.message, "image is too large: 10485761 bytes (max 10485760)");
    assert!(FileReadRawTool::check_size(0).is_ok());
    let e = FileReadRawTool::check_size(u64::MAX).unwrap_err();
    assert_eq!(e.kind, ErrorKind::InvalidRequest);
    assert_eq!(e.message, format!("file is too large: {} bytes (max 10485760)", u64::MAX));
}

#[test]
fn image_data_is_standard_base64() {
    let d = FileReadImageTool::encode(b"hello?>", "image/png");
    assert_eq!(d.data, "aGVsbG8/Pg==");
    assert_eq!(d.mime_type, "image/png");
    assert_eq!(FileReadImageTool::encode(b"", "image/gif").data, "");
    assert_eq!(read_failure("/w/x").message, "failed to read a file: /w/x");
}

#[test]
fn mime_prefers_extension_then_content() {
    assert_eq!(mime_type("/w/photo.png", b"not an image"), "image/png");
    assert_eq!(mime_type("/w/song.mp3", b""), "audio/mpeg");
    assert_eq!(mime_type("/w/data.json", &PNG_MAGIC), "application/json");
    assert_eq!(mime_type("/w/blob", &PNG_MAGIC), "image/png");
    assert_eq!(mime_type("/w/blob", b"\x00\x01\x02"), "application/octet-stream");
}

#[test]
fn choose_mime_order() {
    assert_eq!(choose_mime(Some("text/plain".to_string()), Some("image/png")), "text/plain");
    assert_eq!(choose_mime(None, Some("image/png")), "image/png");
    assert_eq!(choose_mime(None, None), "application/octet-stream");
}

#[test]
fn raw_content_kind_follows_mime() {
    match into_content("/w/a.png", "image/png".to_string(), "AA==".to_string()) {
        RawContent::Image { data, mime_type } => assert_eq!((data.as_str(), mime_type.as_str()), ("AA==", "image/png")),
        other => panic!("{other:?}"),
    }
    match into_content("/w/a.ogg", "audio/ogg".to_string(), "AQ==".to_string()) {
        RawContent::Audio { data, mime_type } => assert_eq!((data.as_str(), mime_type.as_str()), ("AQ==", "audio/ogg")),
        other => panic!("{other:?}"),
    }
    match into_content("/w/a.bin", "application/octet-stream".to_string(), "".to_string()) {
        RawContent::Blob { data, uri, mime_type } => {
            assert_eq!(data, "");
            assert_eq!(uri, "file:///w/a.bin");
            assert_eq!(mime_type, "application/octet-stream");
        }
        other => panic!("{other:?}"),
    }
}

#[test]
fn raw_content_of_bytes() {
    match FileReadRawTool::content("/w/blob", &PNG_MAGIC) {
        RawContent::Image { data, mime_type } => {
            assert_eq!(mime_type, "image/png");
            assert_eq!(data, "iVBORw0KGgo=");
        }
        other => panic!("{other:?}"),
    }
    match FileReadRawTool::content("/w/readme.txt", b"hi") {
        RawContent::Blob { data, uri, mime_type } => {
            assert_eq!((data.as_str(), uri.as_str(), mime_type.as_str()), ("aGk=", "file:///w/readme.txt", "text/plain"));
        }
        other => panic!("{other:?}"),
    }
}
