use mirrorstar_core::config::detect::{
    detect_html, detect_wallpaper_type, detect_wallpaper_type_by_magic_bytes,
    wallpaper_type_of_extension,
};
use mirrorstar_core::wallpaper::WallpaperType;

#[test]
fn detect_video_extensions() {
    assert_eq!(
        detect_wallpaper_type("/test/video.mp4"),
        Some(WallpaperType::Video)
    );
    assert_eq!(
        detect_wallpaper_type("/test/video.avi"),
        Some(WallpaperType::Video)
    );
    assert_eq!(
        detect_wallpaper_type("/test/video.mkv"),
        Some(WallpaperType::Video)
    );
    assert_eq!(
        detect_wallpaper_type("/test/video.mov"),
        Some(WallpaperType::Video)
    );
    assert_eq!(
        detect_wallpaper_type("/test/video.webm"),
        Some(WallpaperType::Video)
    );
}

#[test]
fn detect_gif_extension() {
    assert_eq!(
        detect_wallpaper_type("/test/anim.gif"),
        Some(WallpaperType::Gif)
    );
}

#[test]
fn detect_image_extensions() {
    assert_eq!(
        detect_wallpaper_type("/test/image.jpg"),
        Some(WallpaperType::Image)
    );
    assert_eq!(
        detect_wallpaper_type("/test/image.jpeg"),
        Some(WallpaperType::Image)
    );
    assert_eq!(
        detect_wallpaper_type("/test/image.png"),
        Some(WallpaperType::Image)
    );
    assert_eq!(
        detect_wallpaper_type("/test/image.bmp"),
        Some(WallpaperType::Image)
    );
    assert_eq!(
        detect_wallpaper_type("/test/image.webp"),
        Some(WallpaperType::Image)
    );
}

#[test]
fn detect_web_extensions() {
    assert_eq!(
        detect_wallpaper_type("/test/page.html"),
        Some(WallpaperType::Web)
    );
    assert_eq!(
        detect_wallpaper_type("/test/page.htm"),
        Some(WallpaperType::Web)
    );
}

#[test]
fn detect_unsupported_extensions_return_none() {
    assert_eq!(detect_wallpaper_type("/test/doc.pdf"), None);
    assert_eq!(detect_wallpaper_type("/test/music.mp3"), None);
    assert_eq!(detect_wallpaper_type("/test/archive.zip"), None);
    assert_eq!(detect_wallpaper_type("/test/text.txt"), None);
}

#[test]
fn detect_no_extension_returns_none() {
    assert_eq!(detect_wallpaper_type("/test/noext"), None);
    assert_eq!(detect_wallpaper_type("noext"), None);
    assert_eq!(detect_wallpaper_type("/test/"), None);
}

#[test]
fn detect_extension_case_insensitive() {
    assert_eq!(
        detect_wallpaper_type("/test/VIDEO.MP4"),
        Some(WallpaperType::Video)
    );
    assert_eq!(
        detect_wallpaper_type("/test/ANIM.GIF"),
        Some(WallpaperType::Gif)
    );
    assert_eq!(
        detect_wallpaper_type("/test/IMAGE.JPG"),
        Some(WallpaperType::Image)
    );
    assert_eq!(
        detect_wallpaper_type("/test/PAGE.HTML"),
        Some(WallpaperType::Web)
    );
    assert_eq!(
        detect_wallpaper_type("/test/MixedCase.Mp4"),
        Some(WallpaperType::Video)
    );
}

#[test]
fn detect_windows_path_with_backslashes() {
    assert_eq!(
        detect_wallpaper_type(r"C:\wallpapers\video.mp4"),
        Some(WallpaperType::Video)
    );
    assert_eq!(
        detect_wallpaper_type(r"C:\wallpapers\anim.gif"),
        Some(WallpaperType::Gif)
    );
}

#[test]
fn detect_path_with_dots_in_directory() {
    assert_eq!(
        detect_wallpaper_type("/path/with.dots/video.mp4"),
        Some(WallpaperType::Video)
    );
    assert_eq!(
        detect_wallpaper_type("/path/v1.2/file.gif"),
        Some(WallpaperType::Gif)
    );
}

#[test]
fn n007_ebml_full_magic_identified_as_video() {
    let mut head = vec![0x1A, 0x45, 0xDF, 0xA3];
    head.extend_from_slice(&[0x00, 0x00, 0x00, 0x00, 0x00, 0x00, 0x00, 0x00]);
    assert_eq!(
        detect_wallpaper_type_by_magic_bytes(&head),
        Some(WallpaperType::Video)
    );
}

#[test]
fn n007_ebml_magic_minimal_4_bytes() {
    let head = [0x1A, 0x45, 0xDF, 0xA3];
    assert_eq!(
        detect_wallpaper_type_by_magic_bytes(&head),
        Some(WallpaperType::Video)
    );
}

#[test]
fn n007_ebml_magic_too_short_not_identified() {
    let head = [0x1A, 0x45, 0xDF];
    assert_eq!(detect_wallpaper_type_by_magic_bytes(&head), None);
}

#[test]
fn n007_other_0x1a_prefixed_not_misdetected_as_webm() {
    let head = [0x1A, 0x00, 0x00, 0x00, 0x00, 0x00, 0x00, 0x00];
    assert_eq!(detect_wallpaper_type_by_magic_bytes(&head), None);
}

#[test]
fn n007_0x1a_with_partial_ebml_match_not_misdetected() {
    let head = [0x1A, 0x45, 0x00, 0x00, 0x00, 0x00, 0x00, 0x00];
    assert_eq!(detect_wallpaper_type_by_magic_bytes(&head), None);
}

#[test]
fn n007_0x1a_with_3_byte_partial_match_not_misdetected() {
    let head = [0x1A, 0x45, 0xDF, 0x00, 0x00, 0x00, 0x00, 0x00];
    assert_eq!(detect_wallpaper_type_by_magic_bytes(&head), None);
}

#[test]
fn n007_ebml_magic_does_not_affect_other_magic_checks() {
    let png_head = [0x89, b'P', b'N', b'G', 0x0D, 0x0A, 0x1A, 0x0A];
    assert_eq!(
        detect_wallpaper_type_by_magic_bytes(&png_head),
        Some(WallpaperType::Image)
    );
}

#[test]
fn n007_webm_with_ebml_followed_by_matroska_marker() {
    let mut head = vec![0x1A, 0x45, 0xDF, 0xA3];
    head.extend_from_slice(&[0x01, 0x00, 0x00, 0x00, 0x00, 0x00, 0x00, 0x20]);
    head.extend_from_slice(&[0x18, 0x53, 0x80, 0x67]);
    assert_eq!(
        detect_wallpaper_type_by_magic_bytes(&head),
        Some(WallpaperType::Video)
    );
}

#[test]
fn n008_detect_html_lowercase_doctype() {
    let content = b"<!doctype html><html><body></body></html>";
    assert!(detect_html(content));
}

#[test]
fn n008_detect_html_uppercase_doctype() {
    let content = b"<!DOCTYPE HTML><html><body></body></html>";
    assert!(detect_html(content));
}

#[test]
fn n008_detect_html_with_long_comment_prefix() {
    let comment = b"<!-- this is a very long comment that goes beyond 16 bytes -->";
    let mut content = comment.to_vec();
    content.extend_from_slice(b"<!doctype html>");
    assert!(detect_html(&content));
}

#[test]
fn n008_detect_html_with_utf8_bom() {
    let mut content = vec![0xEF, 0xBB, 0xBF];
    content.extend_from_slice(b"<!doctype html>");
    assert!(detect_html(&content));
}

#[test]
fn n008_detect_html_with_utf8_bom_and_whitespace() {
    let mut content = vec![0xEF, 0xBB, 0xBF];
    content.extend_from_slice(b"   \n  <html>");
    assert!(detect_html(&content));
}

#[test]
fn n008_detect_html_with_utf16_le_bom() {
    let mut content = vec![0xFF, 0xFE];
    content.extend_from_slice(b"<!doctype html>");
    assert!(detect_html(&content));
}

#[test]
fn n008_detect_html_with_utf16_be_bom() {
    let mut content = vec![0xFE, 0xFF];
    content.extend_from_slice(b"<!doctype html>");
    assert!(detect_html(&content));
}

#[test]
fn n008_detect_html_uppercase_html_tag() {
    let content = b"<HTML><HEAD></HEAD><BODY></BODY></HTML>";
    assert!(detect_html(content));
}

#[test]
fn n008_detect_html_mixed_case_html_tag() {
    let content = b"<HtMl><body></body></HtMl>";
    assert!(detect_html(content));
}

#[test]
fn n008_detect_html_minimal_html_tag() {
    let content = b"<html>";
    assert!(detect_html(content));
}

#[test]
fn n008_detect_html_empty_buffer_returns_false() {
    assert!(!detect_html(b""));
}

#[test]
fn n008_detect_html_only_bom_returns_false() {
    assert!(!detect_html(&[0xEF, 0xBB, 0xBF]));
    assert!(!detect_html(&[0xFF, 0xFE]));
    assert!(!detect_html(&[0xFE, 0xFF]));
}

#[test]
fn n008_detect_html_non_html_returns_false() {
    assert!(!detect_html(b"Hello, world!"));
    assert!(!detect_html(b"\x89PNG\r\n\x1a\n"));
    assert!(!detect_html(b"GIF89a..."));
    assert!(!detect_html(b"random binary data \x00 \x01 \x02"));
}

#[test]
fn n008_detect_html_doctype_without_html_still_detected() {
    assert!(detect_html(b"<!doctype html>"));
}

#[test]
fn n008_detect_html_html_tag_at_end_of_256_bytes() {
    let mut content = vec![b' '; 250];
    content.extend_from_slice(b"<html>");
    assert!(detect_html(&content));
}

#[test]
fn n008_detect_html_html_tag_beyond_256_bytes_not_detected() {
    let mut content = vec![b' '; 260];
    content.extend_from_slice(b"<html>");
    assert!(!detect_html(&content[..256]));
}

#[test]
fn n008_detect_html_via_magic_bytes_function() {
    let content = b"<!doctype html><html></html>";
    assert_eq!(
        detect_wallpaper_type_by_magic_bytes(content),
        Some(WallpaperType::Web)
    );
}

#[test]
fn n008_detect_html_with_bom_via_magic_bytes_function() {
    let mut content = vec![0xEF, 0xBB, 0xBF];
    content.extend_from_slice(b"<!doctype html>");
    assert_eq!(
        detect_wallpaper_type_by_magic_bytes(&content),
        Some(WallpaperType::Web)
    );
}

#[test]
fn n008_ebml_magic_not_misdetected_as_html() {
    let ebml_header = [0x1A, 0x45, 0xDF, 0xA3, 0x00, 0x00, 0x00, 0x00];
    assert_eq!(
        detect_wallpaper_type_by_magic_bytes(&ebml_header),
        Some(WallpaperType::Video)
    );
}

#[test]
fn v41_c015_bmp_magic_bytes_identified_as_image() {
    let mut head = vec![b'B', b'M'];
    head.extend_from_slice(&[
        0x36, 0x00, 0x00, 0x00, 0x00, 0x00, 0x00, 0x00, 0x36, 0x00, 0x00, 0x00,
    ]);
    assert_eq!(
        detect_wallpaper_type_by_magic_bytes(&head),
        Some(WallpaperType::Image)
    );
}

#[test]
fn v41_c015_bmp_magic_minimal_2_bytes() {
    let head = b"BM";
    assert_eq!(
        detect_wallpaper_type_by_magic_bytes(head),
        Some(WallpaperType::Image)
    );
}

#[test]
fn v41_c015_bmp_magic_too_short_not_identified() {
    let head = b"B";
    assert_eq!(detect_wallpaper_type_by_magic_bytes(head), None);
}

#[test]
fn v41_c015_bmp_magic_does_not_affect_other_checks() {
    let gif_head = b"GIF89a";
    assert_eq!(
        detect_wallpaper_type_by_magic_bytes(gif_head),
        Some(WallpaperType::Gif)
    );
    let png_head = [0x89, b'P', b'N', b'G', 0x0D, 0x0A, 0x1A, 0x0A];
    assert_eq!(
        detect_wallpaper_type_by_magic_bytes(&png_head),
        Some(WallpaperType::Image)
    );
}

#[test]
fn v41_c015_jpeg_magic_bytes_identified_as_image() {
    let mut head = vec![0xFF, 0xD8, 0xFF];
    head.extend_from_slice(&[0xE0, 0x10, 0x4A, 0x46, 0x49, 0x46]);
    assert_eq!(
        detect_wallpaper_type_by_magic_bytes(&head),
        Some(WallpaperType::Image)
    );
}

#[test]
fn v41_c015_jpeg_magic_minimal_3_bytes() {
    let head = [0xFF, 0xD8, 0xFF];
    assert_eq!(
        detect_wallpaper_type_by_magic_bytes(&head),
        Some(WallpaperType::Image)
    );
}

#[test]
fn v41_c015_jpeg_magic_too_short_not_identified() {
    let head = [0xFF, 0xD8];
    assert_eq!(detect_wallpaper_type_by_magic_bytes(&head), None);
}

#[test]
fn v41_c015_jpeg_magic_does_not_affect_other_checks() {
    let ebml_head = [0x1A, 0x45, 0xDF, 0xA3];
    assert_eq!(
        detect_wallpaper_type_by_magic_bytes(&ebml_head),
        Some(WallpaperType::Video)
    );
    let mp4_head = [
        0x00, 0x00, 0x00, 0x18, b'f', b't', b'y', b'p', b'i', b's', b'o', b'm', 0x00, 0x00,
        0x00, 0x00,
    ];
    assert_eq!(
        detect_wallpaper_type_by_magic_bytes(&mp4_head),
        Some(WallpaperType::Video)
    );
}

#[test]
fn the_first_bytes_decide_for_every_format() {
    assert_eq!(detect_wallpaper_type_by_magic_bytes(b"GIF87a"), Some(WallpaperType::Gif));
    assert_eq!(detect_wallpaper_type_by_magic_bytes(b"plain text"), None);
    assert_eq!(detect_wallpaper_type_by_magic_bytes(b""), None);
}

#[test]
fn only_the_scanned_bytes_count() {
    let mut content = vec![b' '; 256];
    content.extend_from_slice(b"<html>");
    assert!(!detect_html(&content));
    let mut other = vec![b' '; 256];
    other.extend_from_slice(b"something else");
    assert_eq!(detect_html(&content), detect_html(&other));
}

#[test]
fn extensions_by_themselves() {
    assert_eq!(wallpaper_type_of_extension("mp4"), Some(WallpaperType::Video));
    assert_eq!(wallpaper_type_of_extension("MP4"), None);
    assert_eq!(wallpaper_type_of_extension(""), None);
}

#[test]
fn only_the_extension_counts() {
    assert_eq!(detect_wallpaper_type("C:\\图\\a.JPG"), Some(WallpaperType::Image));
    assert_eq!(detect_wallpaper_type("C:\\图\\影.Mp4"), Some(WallpaperType::Video));
    assert_eq!(detect_wallpaper_type("C:\\图"), None);
    assert_eq!(detect_wallpaper_type("\\\\?\\C:\\图\\a.gif"), Some(WallpaperType::Gif));
}
