use tachimi::jpeg::{get_jpeg_dimensions, is_jpeg_file};

#[test]
fn test_is_jpeg_file() {
    assert!(is_jpeg_file("test.jpg"));
    assert!(is_jpeg_file("test.jpeg"));
    assert!(is_jpeg_file("test.JPG"));
    assert!(!is_jpeg_file("test.png"));
    assert!(!is_jpeg_file("test.psd"));
}

#[test]
fn jpeg_name_edge_cases() {
    assert!(is_jpeg_file("dir/scan.Jpeg"));
    assert!(!is_jpeg_file(".jpg"));
    assert!(!is_jpeg_file("dir/.jpg"));
    assert!(!is_jpeg_file("jpg"));
    assert!(!is_jpeg_file("photo.jpg.png"));
    assert!(!is_jpeg_file("a.jpg/b"));
    assert!(!is_jpeg_file(""));
}

#[test]
fn jpeg_dimensions_from_frame_header() {
    let data: Vec<u8> = vec![
        0xFF, 0xD8, 0xFF, 0xE0, 0x00, 0x04, 0xAA, 0xBB, 0xFF, 0xC0, 0x00, 0x11, 0x08, 0x00, 0x10,
        0x00, 0x20, 0x03, 0, 0, 0,
    ];
    assert_eq!(get_jpeg_dimensions(&data), Some((32, 16)));
}

#[test]
fn jpeg_dimensions_skip_bare_markers_and_padding() {
    let data: Vec<u8> = vec![
        0xFF, 0xD8, 0x00, 0xFF, 0xD0, 0xFF, 0xC2, 0x00, 0x11, 0x08, 0x01, 0x00, 0x02, 0x00, 0x03,
        0, 0, 0,
    ];
    assert_eq!(get_jpeg_dimensions(&data), Some((512, 256)));
}

#[test]
fn jpeg_dimensions_rejects_other_data() {
    assert_eq!(get_jpeg_dimensions(&[0x89, 0x50, 0x4E, 0x47]), None);
    assert_eq!(get_jpeg_dimensions(&[0xFF]), None);
    // a segment length that runs past the end
    assert_eq!(get_jpeg_dimensions(&[0xFF, 0xD8, 0xFF, 0xE1, 0xFF, 0xFF, 0, 0, 0]), None);
}
