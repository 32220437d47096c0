use fileserv::mime::{get_mime_type, is_image_file, is_video_file};

#[test]
fn test_get_mime_type_images() {
    assert_eq!(get_mime_type("test.jpg"), "image/jpeg");
    assert_eq!(get_mime_type("test.jpeg"), "image/jpeg");
    assert_eq!(get_mime_type("test.png"), "image/png");
    assert_eq!(get_mime_type("test.gif"), "image/gif");
    assert_eq!(get_mime_type("test.bmp"), "image/bmp");
    assert_eq!(get_mime_type("test.webp"), "image/webp");
    assert_eq!(get_mime_type("test.svg"), "image/svg+xml");
    assert_eq!(get_mime_type("test.ico"), "image/x-icon");
    assert_eq!(get_mime_type("test.tiff"), "image/tiff");
    assert_eq!(get_mime_type("test.tif"), "image/tiff");
}

#[test]
fn test_get_mime_type_videos() {
    assert_eq!(get_mime_type("test.mp4"), "video/mp4");
    assert_eq!(get_mime_type("test.webm"), "video/webm");
    assert_eq!(get_mime_type("test.ogg"), "video/ogg");
    assert_eq!(get_mime_type("test.mov"), "video/quicktime");
    assert_eq!(get_mime_type("test.avi"), "video/x-msvideo");
    assert_eq!(get_mime_type("test.mkv"), "video/x-matroska");
    assert_eq!(get_mime_type("test.wmv"), "video/x-ms-wmv");
    assert_eq!(get_mime_type("test.flv"), "video/x-flv");
    assert_eq!(get_mime_type("test.m4v"), "video/x-m4v");
}

#[test]
fn test_get_mime_type_case_insensitive() {
    assert_eq!(get_mime_type("test.JPG"), "image/jpeg");
    assert_eq!(get_mime_type("test.MP4"), "video/mp4");
    assert_eq!(get_mime_type("test.PnG"), "image/png");
}

#[test]
fn test_get_mime_type_unknown() {
    assert_eq!(get_mime_type("test.txt"), "text/plain");
    assert_eq!(get_mime_type("test.unknown"), "text/plain");
    assert_eq!(get_mime_type("test"), "text/plain");
}

#[test]
fn test_is_image_file() {
    assert!(is_image_file("test.jpg"));
    assert!(is_image_file("test.jpeg"));
    assert!(is_image_file("test.png"));
    assert!(is_image_file("test.gif"));
    assert!(is_image_file("test.bmp"));
    assert!(is_image_file("test.webp"));
    assert!(is_image_file("test.svg"));
    assert!(is_image_file("test.ico"));
    assert!(is_image_file("test.tiff"));
    assert!(is_image_file("test.tif"));

    // Case insensitive
    assert!(is_image_file("test.JPG"));
    assert!(is_image_file("test.PNG"));
}

#[test]
fn test_is_not_image_file() {
    assert!(!is_image_file("test.mp4"));
    assert!(!is_image_file("test.txt"));
    assert!(!is_image_file("test.unknown"));
    assert!(!is_image_file("test"));
}

#[test]
fn test_is_video_file() {
    assert!(is_video_file("test.mp4"));
    assert!(is_video_file("test.webm"));
    assert!(is_video_file("test.ogg"));
    assert!(is_video_file("test.mov"));
    assert!(is_video_file("test.avi"));
    assert!(is_video_file("test.mkv"));
    assert!(is_video_file("test.wmv"));
    assert!(is_video_file("test.flv"));
    assert!(is_video_file("test.m4v"));

    // Case insensitive
    assert!(is_video_file("test.MP4"));
    assert!(is_video_file("test.AVI"));
}

#[test]
fn test_is_not_video_file() {
    assert!(!is_video_file("test.jpg"));
    assert!(!is_video_file("test.txt"));
    assert!(!is_video_file("test.unknown"));
    assert!(!is_video_file("test"));
}

#[test]
fn test_mime_extension_edges() {
    // a hidden file's leading dot starts no extension
    assert_eq!(get_mime_type(".jpg"), "text/plain");
    assert_eq!(get_mime_type("dir/.jpg"), "text/plain");
    // only the final component's extension counts
    assert_eq!(get_mime_type("a.jpg/readme"), "text/plain");
    assert_eq!(get_mime_type("archive.tar.png"), "image/png");
    assert_eq!(get_mime_type("photos/holiday.JPeG"), "image/jpeg");
    // a trailing dot leaves an empty extension
    assert_eq!(get_mime_type("name."), "text/plain");
}
