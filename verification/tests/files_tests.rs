use photo_scan::files::is_image_ext;

#[test]
fn supported_extensions_are_recognized() {
    assert!(is_image_ext(b"jpg"));
    assert!(is_image_ext(b"jpeg"));
    assert!(is_image_ext(b"png"));
    assert!(is_image_ext(b"bmp"));
    assert!(is_image_ext(b"tif"));
    assert!(is_image_ext(b"tiff"));
}

#[test]
fn case_is_ignored() {
    assert!(is_image_ext(b"JPG"));
    assert!(is_image_ext(b"Jpeg"));
    assert!(is_image_ext(b"TIFF"));
    assert!(is_image_ext(b"PnG"));
}

#[test]
fn other_extensions_are_rejected() {
    assert!(!is_image_ext(b"txt"));
    assert!(!is_image_ext(b"jpgx"));
    assert!(!is_image_ext(b"jp"));
    assert!(!is_image_ext(b""));
    assert!(!is_image_ext(b"gif"));
    assert!(!is_image_ext(b"tifff"));
}
