use std::collections::HashSet;
use std::io::Cursor;

use mirrorstar_core::config::thumbnail::{
    check_decoded_pixel_buffer_size, check_dimensions, check_image_file_size,
    escape_ffmpeg_input, generate_thumbnail, generate_thumbnail_from_image_file,
    generate_video_thumbnail, guess_image_format, image_format_of_extension,
    is_ffmpeg_available, make_thumbnail, path_to_hex, thumbnail_from_bytes,
    thumbnail_name_from_path, thumbnail_of_decoded, tmp_frame_name_from_path, FfmpegProbe,
    FfmpegRun, ImageFormat, Thumbnail, MAX_IMAGE_DIMENSION, MAX_THUMBNAIL_FILE_SIZE,
    MAX_UNCOMPRESSED_IMAGE_FILE_SIZE, THUMB_MAX_H, THUMB_MAX_W,
};
use mirrorstar_core::MirrorStarError;

fn encoded(width: u32, height: u32, format: image::ImageFormat) -> Vec<u8> {
    let mut bytes = Cursor::new(Vec::new());
    image::DynamicImage::new_rgb8(width, height).write_to(&mut bytes, format).unwrap();
    bytes.into_inner()
}

fn thumbnail_of(path: &str, data: Vec<u8>) -> Result<Thumbnail, MirrorStarError> {
    let size = data.len() as u64;
    generate_thumbnail(path, "C:\\data\\thumbnails", Ok(size), || Ok(data))
}

fn size_of(thumbnail: &Thumbnail) -> (u32, u32) {
    let image = image::load_from_memory_with_format(&thumbnail.bytes, image::ImageFormat::Jpeg);
    let image = image.unwrap();
    (image.width(), image.height())
}

#[test]
fn guess_format_supported_extensions() {
    assert_eq!(guess_image_format("/test/img.jpg"), Some(ImageFormat::Jpeg));
    assert_eq!(guess_image_format("/test/img.jpeg"), Some(ImageFormat::Jpeg));
    assert_eq!(guess_image_format("/test/img.png"), Some(ImageFormat::Png));
    assert_eq!(guess_image_format("/test/anim.gif"), Some(ImageFormat::Gif));
    assert_eq!(guess_image_format("/test/img.bmp"), Some(ImageFormat::Bmp));
    assert_eq!(guess_image_format("/test/img.webp"), Some(ImageFormat::WebP));
    assert_eq!(guess_image_format("/test/img.tiff"), Some(ImageFormat::Tiff));
    assert_eq!(guess_image_format("/test/img.tif"), Some(ImageFormat::Tiff));
    assert_eq!(guess_image_format("/test/img.ico"), Some(ImageFormat::Ico));
}

#[test]
fn guess_format_unsupported_returns_none() {
    assert_eq!(guess_image_format("/test/video.mp4"), None);
    assert_eq!(guess_image_format("/test/page.html"), None);
    assert_eq!(guess_image_format("/test/doc.pdf"), None);
    assert_eq!(guess_image_format("/test/noext"), None);
    assert_eq!(image_format_of_extension(""), None);
}

#[test]
fn guess_format_case_insensitive() {
    assert_eq!(guess_image_format("/test/IMG.JPG"), Some(ImageFormat::Jpeg));
    assert_eq!(guess_image_format("/test/IMG.PNG"), Some(ImageFormat::Png));
    assert_eq!(guess_image_format("/test/ANIM.GIF"), Some(ImageFormat::Gif));
}

#[test]
fn generate_thumbnail_for_real_image() {
    let data = encoded(100, 100, image::ImageFormat::Png);
    let thumbnail = thumbnail_of("C:\\w\\src.png", data).unwrap();
    assert!(thumbnail.name.starts_with("thumb_"));
    assert!(thumbnail.name.ends_with(".jpg"));
    assert_eq!(thumbnail.path, format!("C:\\data\\thumbnails\\{}", thumbnail.name));
    assert_eq!(size_of(&thumbnail), (100, 100));
}

#[test]
fn generate_thumbnail_downscales_large_image() {
    let data = encoded(1920, 1080, image::ImageFormat::Png);
    let thumbnail = thumbnail_of("C:\\w\\large.png", data).unwrap();
    let (w, h) = size_of(&thumbnail);
    assert!(w <= THUMB_MAX_W);
    assert!(h <= THUMB_MAX_H);
    assert_eq!((w, h), (320, 180));
}

#[test]
fn thumbnails_keep_the_shape_of_the_image() {
    for ((w, h), expected) in [
        ((320, 180), (320, 180)),
        ((321, 180), (320, 179)),
        ((1000, 10), (320, 3)),
        ((10, 1000), (2, 180)),
        ((2000, 1), (320, 1)),
        ((1, 1), (1, 1)),
        ((180, 320), (101, 180)),
    ] {
        let data = encoded(w, h, image::ImageFormat::Png);
        assert_eq!(size_of(&thumbnail_of("a.png", data).unwrap()), expected);
    }
}

#[test]
fn generate_thumbnail_overwrites_same_file() {
    let data = encoded(50, 50, image::ImageFormat::Png);
    let first = thumbnail_of("C:\\w\\src.png", data.clone()).unwrap();
    let second = thumbnail_of("C:\\w\\src.png", data).unwrap();
    assert_eq!(first.name, second.name);
    assert_eq!(first.path, second.path);
    assert_eq!(first.bytes, second.bytes);
}

#[test]
fn generate_thumbnail_fails_for_nonexistent_file() {
    let missing = generate_thumbnail(
        "/nonexistent/file.png",
        "d",
        Err("not found".to_string()),
        || panic!("there is no file"),
    );
    let error = missing.unwrap_err();
    assert_eq!(error.code(), "ImageDecode");
    assert!(error.message().ends_with("读取图像文件元数据失败: not found"));
    let unreadable = generate_thumbnail("a.png", "d", Ok(5), || Err("denied".to_string()));
    let error = unreadable.unwrap_err();
    assert_eq!(error.code(), "ImageDecode");
    assert_eq!(error.message(), "图片解码失败: denied");
}

#[test]
fn generate_thumbnail_fails_for_non_image_file() {
    let result = thumbnail_of("not_an_image.jpg", b"this is not an image".to_vec());
    assert!(matches!(result, Err(MirrorStarError::ImageDecode(_))));
}

#[test]
fn generate_thumbnail_returns_image_decode_for_misnamed_png() {
    let data = vec![0x00u8, 0x00, 0x00, 0x0c, 0x4a, 0x00, 0x00, 0x00, 0x6d];
    let error = thumbnail_of("test.png", data).unwrap_err();
    assert!(matches!(&error, MirrorStarError::ImageDecode(_)));
}

#[test]
fn only_files_named_like_images_are_decoded() {
    let data = encoded(10, 10, image::ImageFormat::Png);
    for path in ["a.png", "a.PNG", "dir.x/a.apng"] {
        assert!(thumbnail_from_bytes(path, path, "d", &data).is_ok());
    }
    for path in ["a.mp4", "a", "a.", "png", ".png", "a.png/.."] {
        let error = thumbnail_from_bytes(path, path, "d", &data).unwrap_err();
        assert_eq!(error.code(), "ImageDecode");
    }
    let unknown = thumbnail_from_bytes("a.mp4", "a.mp4", "d", &data).unwrap_err();
    assert!(unknown.message().contains("mp4"));
}

#[test]
fn thumbnail_generates_for_long_cjk_space_filename() {
    let path = "C:\\批注 2026-08-14 114650 测试用例文件名 for os error regression one two three.png";
    let thumbnail = thumbnail_of(path, encoded(800, 600, image::ImageFormat::Png)).unwrap();
    assert_eq!(thumbnail.name.len(), 26);
    assert_eq!(size_of(&thumbnail), (240, 180));
}

#[test]
fn escape_ffmpeg_input_prepends_dot_slash_for_dash_prefix() {
    assert_eq!(escape_ffmpeg_input("-secret.mp4"), "./-secret.mp4");
    assert_eq!(escape_ffmpeg_input("--weird.mp4"), "./--weird.mp4");
    assert_eq!(escape_ffmpeg_input("-x"), "./-x");
}

#[test]
fn escape_ffmpeg_input_keeps_normal_paths_unchanged() {
    assert_eq!(escape_ffmpeg_input("video.mp4"), "video.mp4");
    assert_eq!(escape_ffmpeg_input("data/video.mp4"), "data/video.mp4");
    assert_eq!(escape_ffmpeg_input("foo/bar/-dash.mp4"), "foo/bar/-dash.mp4");
}

#[test]
fn escape_ffmpeg_input_keeps_absolute_paths_unchanged() {
    assert_eq!(escape_ffmpeg_input("C:\\Users\\test\\video.mp4"), "C:\\Users\\test\\video.mp4");
    assert_eq!(escape_ffmpeg_input("/home/test/video.mp4"), "/home/test/video.mp4");
    assert_eq!(
        escape_ffmpeg_input("\\\\server\\share\\video.mp4"),
        "\\\\server\\share\\video.mp4"
    );
}

#[test]
fn check_pixel_buffer_size_accepts_small_images() {
    assert!(check_decoded_pixel_buffer_size(100, 100).is_ok());
    assert!(check_decoded_pixel_buffer_size(1920, 1080).is_ok());
    assert!(check_decoded_pixel_buffer_size(3840, 2160).is_ok());
    assert!(check_decoded_pixel_buffer_size(7680, 4320).is_ok());
}

#[test]
fn check_pixel_buffer_size_rejects_excessive_pixels() {
    assert!(check_decoded_pixel_buffer_size(7242, 7242).is_err());
    assert!(check_decoded_pixel_buffer_size(10000, 10000).is_err());
    assert!(check_decoded_pixel_buffer_size(1, 60_000_000).is_err());
    let error = check_decoded_pixel_buffer_size(u32::MAX, u32::MAX).unwrap_err();
    assert!(error.message().ends_with(
        "解码后像素缓冲区超过 200MB 上限（当前 4294967295x4294967295 = 73786976260478468100 字节 RGBA）"
    ));
}

#[test]
fn check_pixel_buffer_size_boundary_just_under_limit() {
    assert!(check_decoded_pixel_buffer_size(7240, 7240).is_ok());
    assert!(check_decoded_pixel_buffer_size(1, 52_428_800).is_ok());
    assert!(check_decoded_pixel_buffer_size(1, 52_428_801).is_err());
}

#[test]
fn dimensions_are_limited() {
    assert!(check_dimensions(MAX_IMAGE_DIMENSION, MAX_IMAGE_DIMENSION).is_ok());
    let error = check_dimensions(20001, 3).unwrap_err();
    assert!(error.message().ends_with("图像尺寸超过 20000x20000 上限（当前 20001x3）"));
    assert!(check_dimensions(3, 20001).is_err());
}

#[test]
fn generate_thumbnail_rejects_oversized_bmp_file() {
    let oversized = MAX_UNCOMPRESSED_IMAGE_FILE_SIZE + 1;
    let result = generate_thumbnail("huge.bmp", "d", Ok(oversized), || panic!("too large"));
    let message = result.unwrap_err().message();
    assert!(message.contains("50MB"));
    assert!(message.ends_with("图像文件超过 50MB 上限（未压缩格式 BMP/TIFF）（当前 52428801 字节）"));
}

#[test]
fn file_sizes_are_limited_by_format() {
    let (png, tiff) = (Some(ImageFormat::Png), Some(ImageFormat::Tiff));
    assert!(check_image_file_size(png, MAX_THUMBNAIL_FILE_SIZE).is_ok());
    assert!(check_image_file_size(None, MAX_THUMBNAIL_FILE_SIZE).is_ok());
    assert!(check_image_file_size(tiff, MAX_UNCOMPRESSED_IMAGE_FILE_SIZE).is_ok());
    assert!(check_image_file_size(tiff, MAX_UNCOMPRESSED_IMAGE_FILE_SIZE + 1).is_err());
    let error = check_image_file_size(png, MAX_THUMBNAIL_FILE_SIZE + 1).unwrap_err();
    assert!(error.message().ends_with("图像文件超过 100MB 上限（当前 104857601 字节）"));
}

#[test]
fn generate_thumbnail_accepts_small_bmp_file() {
    let data = encoded(100, 100, image::ImageFormat::Bmp);
    assert_eq!(size_of(&thumbnail_of("src.bmp", data).unwrap()), (100, 100));
}

#[test]
fn other_formats_are_decoded_too() {
    for (path, format) in [
        ("a.gif", image::ImageFormat::Gif),
        ("a.tif", image::ImageFormat::Tiff),
        ("a.jpg", image::ImageFormat::Jpeg),
    ] {
        let data = if format == image::ImageFormat::Gif {
            let mut bytes = Cursor::new(Vec::new());
            image::DynamicImage::new_rgba8(400, 10).write_to(&mut bytes, format).unwrap();
            bytes.into_inner()
        } else {
            encoded(400, 10, format)
        };
        assert_eq!(size_of(&thumbnail_of(path, data).unwrap()), (320, 8));
    }
}

#[test]
fn c002_decompression_bomb_rejected_before_decode() {
    let data = encoded(MAX_IMAGE_DIMENSION + 1, 1, image::ImageFormat::Png);
    assert!((data.len() as u64) < MAX_THUMBNAIL_FILE_SIZE);
    let message = thumbnail_of("bomb.png", data).unwrap_err().message();
    assert!(message.contains("exceeds limit"));
}

#[test]
fn decoded_images_are_checked_again() {
    let wide = image::DynamicImage::new_luma8(MAX_IMAGE_DIMENSION + 1, 1);
    let error = make_thumbnail(&wide).unwrap_err();
    assert!(error.message().contains("图像尺寸超过"));
    let large = image::DynamicImage::new_luma8(8000, 8000);
    let error = make_thumbnail(&large).unwrap_err();
    assert!(error.message().contains("解码后像素缓冲区超过"));
    let empty = image::DynamicImage::new_rgb8(0, 0);
    let error = make_thumbnail(&empty).unwrap_err();
    assert_eq!(error.code(), "ImageDecode");
    assert_eq!(
        error.message(),
        "图片解码失败: Format error encoding Jpeg:\nInvalid image size (0 x 0) to encode as JPEG: \
         width and height must be >= 1 and <= 65535"
    );
    let failed = thumbnail_of_decoded(Err("broken".to_string()), "a.png", "d").unwrap_err();
    assert!(failed.message().ends_with("broken"));
    let small = image::DynamicImage::new_rgb8(3, 2);
    let thumbnail = thumbnail_of_decoded(Ok(small), "a.png", "d").unwrap();
    assert_eq!(size_of(&thumbnail), (3, 2));
}

#[test]
fn the_colours_of_the_image_are_kept() {
    let mut pixels = image::RgbImage::new(16, 16);
    for pixel in pixels.pixels_mut() {
        *pixel = image::Rgb([200, 30, 30]);
    }
    let bytes = make_thumbnail(&image::DynamicImage::ImageRgb8(pixels)).unwrap();
    let image = image::load_from_memory_with_format(&bytes, image::ImageFormat::Jpeg).unwrap();
    let pixel = image.to_rgb8().get_pixel(8, 8).0;
    assert!(pixel[0] > 180 && pixel[1] < 60 && pixel[2] < 60);
}

#[test]
fn c006_thumbnail_name_stable_across_calls() {
    let path = "/wallpapers/foo.jpg";
    let name1 = thumbnail_name_from_path(path);
    let name2 = thumbnail_name_from_path(path);
    let name3 = thumbnail_name_from_path(path);
    assert_eq!(name1, name2);
    assert_eq!(name1, name3);
    assert!(name1.starts_with("thumb_") && name1.ends_with(".jpg"));
    let hex_part = &name1["thumb_".len()..name1.len() - ".jpg".len()];
    assert_eq!(hex_part.len(), 16);
    assert!(hex_part.chars().all(|c| c.is_ascii_hexdigit()));
}

#[test]
fn c006_thumbnail_name_different_for_different_paths() {
    let path_a = "/wallpapers/foo.jpg";
    let path_b = "/wallpapers/bar.jpg";
    assert_ne!(thumbnail_name_from_path(path_a), thumbnail_name_from_path(path_b));
    assert_ne!(path_to_hex(path_a), path_to_hex(path_b));
}

#[test]
fn paths_are_hashed_with_fnv1a() {
    assert_eq!(path_to_hex(""), "cbf29ce484222325");
    assert_eq!(path_to_hex("a"), "af63dc4c8601ec8c");
    assert_eq!(path_to_hex("foobar"), "85944171f73967e8");
}

#[test]
fn c007_video_thumbnail_temp_name_unique_per_call() {
    let path = "/wallpapers/foo.mp4";
    let mut counter = 0;
    let name1 = tmp_frame_name_from_path(path, &mut counter, 1_700_000_000);
    let name2 = tmp_frame_name_from_path(path, &mut counter, 1_700_000_000);
    assert_ne!(name1, name2);
    for name in [&name1, &name2] {
        assert!(name.starts_with("_tmp_frame_") && name.ends_with(".jpg"));
    }
    let prefix = "_tmp_frame_";
    let suffix = ".jpg";
    let body1 = &name1[prefix.len()..name1.len() - suffix.len()];
    let body2 = &name2[prefix.len()..name2.len() - suffix.len()];
    assert!(body1.matches('_').count() >= 2 && body2.matches('_').count() >= 2);
    let path_hex1 = &body1[..body1.find('_').unwrap()];
    let path_hex2 = &body2[..body2.find('_').unwrap()];
    assert_eq!(path_hex1, path_hex2);
    assert_eq!(path_hex1, path_to_hex(path));
}

#[test]
fn c007_video_thumbnail_temp_name_different_for_different_paths() {
    let name_a = tmp_frame_name_from_path("/wallpapers/foo.mp4", &mut 0, 5);
    let name_b = tmp_frame_name_from_path("/wallpapers/bar.mp4", &mut 0, 5);
    assert_ne!(name_a, name_b);
}

#[test]
fn v41_c006_tmp_frame_name_unique_across_threads() {
    let path = "/wallpapers/v41_c006_test.mp4";
    let mut unique = HashSet::new();
    let mut counter = u64::MAX - 400;
    for call in 0..800 {
        let name = tmp_frame_name_from_path(path, &mut counter, call / 100);
        assert!(name.starts_with("_tmp_frame_") && name.ends_with(".jpg"));
        unique.insert(name);
    }
    assert_eq!(unique.len(), 800);
}

#[test]
fn v41_c006_tmp_frame_name_counter_monotonic() {
    let path = "/wallpapers/v41_c006_monotonic.mp4";
    let mut counter = 0;
    let names: Vec<String> =
        (0..10).map(|_| tmp_frame_name_from_path(path, &mut counter, 9)).collect();
    let prefix = "_tmp_frame_";
    let suffix = ".jpg";
    let counters: Vec<u64> = names
        .iter()
        .map(|name| {
            let body = &name[prefix.len()..name.len() - suffix.len()];
            let parts: Vec<&str> = body.splitn(3, '_').collect();
            assert_eq!(parts.len(), 3);
            parts[1].parse::<u64>().unwrap()
        })
        .collect();
    for i in 1..counters.len() {
        assert!(counters[i] > counters[i - 1]);
    }
}

#[test]
fn v41_c007_tmp_frame_cleaned_on_decode_failure() {
    let result = generate_thumbnail_from_image_file(
        "_tmp_frame_corrupted.jpg",
        "/fake/video.mp4",
        "d",
        Ok(25),
        || Ok(b"this is not a valid image".to_vec()),
    );
    assert!(result.is_err());
}

#[test]
fn the_name_comes_from_the_source() {
    let data = encoded(10, 10, image::ImageFormat::Png);
    let thumbnail = generate_thumbnail_from_image_file(
        "frame.png",
        "/fake/video.mp4",
        "d",
        Ok(data.len() as u64),
        || Ok(data),
    )
    .unwrap();
    assert_eq!(thumbnail.name, thumbnail_name_from_path("/fake/video.mp4"));
}

#[test]
fn a_video_is_handed_to_ffmpeg() {
    let mut counter = 3;
    let video = generate_video_thumbnail("-v.mp4", "C:\\t", &mut counter, 9).unwrap();
    assert_eq!(counter, 4);
    assert_eq!(video.name, thumbnail_name_from_path("-v.mp4"));
    assert_eq!(video.path, format!("C:\\t\\{}", video.name));
    let frame = format!("C:\\t\\{}", tmp_frame_name_from_path("-v.mp4", &mut 3, 9));
    assert_eq!(video.tmp_frame, frame);
    assert_eq!(
        video.args,
        [
            "-ss",
            "0.1",
            "-i",
            "./-v.mp4",
            "-frames:v",
            "1",
            "-vf",
            "scale=320:180:force_original_aspect_ratio=decrease",
            "-q:v",
            "2",
            "-y",
            &frame,
        ]
    );
    let error = generate_video_thumbnail("http://a/v.mp4", "d", &mut counter, 0).unwrap_err();
    assert_eq!(error.code(), "InvalidPath");
    assert!(error
        .message()
        .ends_with("generate_video_thumbnail 拒绝非本地路径（含 '://'）：http://a/v.mp4"));
    assert_eq!(counter, 4);
}

#[test]
fn only_local_paths_reach_ffmpeg() {
    for path in ["concat:a.mp4|b.mp4", "pipe:0", "file:C:\\v.mp4", "tee.x+y-1:v"] {
        let error = generate_video_thumbnail(path, "thumbs", &mut 0, 0).unwrap_err();
        assert_eq!(error.code(), "InvalidPath");
        assert!(error.message().ends_with(&format!("（含协议前缀）：{}", path)));
    }
    for path in ["C:\\v.mp4", "d:v.mp4", "C:/a b:c.mp4", "a/b:c.mp4", "1x:v", "-x:v", ":v", "v"] {
        let video = generate_video_thumbnail(path, "thumbs", &mut 0, 0).unwrap();
        assert!(video.args[3].ends_with(path));
    }
}

#[test]
fn what_ffmpeg_did_is_reported() {
    let video = generate_video_thumbnail("v.mp4", "d", &mut 0, 0).unwrap();
    let ended = |success, code, stderr: &str| FfmpegRun::Ended {
        success,
        code,
        stderr: stderr.to_string(),
    };
    assert!(video.on_run(ended(true, Some(0), "")).is_ok());
    let error = video.on_run(FfmpegRun::NotStarted("missing".to_string())).unwrap_err();
    assert!(error.message().ends_with("调用 ffmpeg 失败: missing"));
    let error = video.on_run(ended(false, Some(1), &"é".repeat(600))).unwrap_err();
    assert!(error.message().ends_with(&format!("(exit 1): {}", "é".repeat(500))));
    let error = video.on_run(ended(false, None, "killed")).unwrap_err();
    assert!(error.message().ends_with("ffmpeg 抽帧失败 (exit -1): killed"));
}

#[test]
fn a_frame_becomes_the_thumbnail() {
    let make = || generate_video_thumbnail("v.mp4", "d", &mut 0, 0).unwrap();
    let name = thumbnail_name_from_path("v.mp4");
    assert_eq!(make().on_moved(Ok(()), || panic!("moved")).unwrap(), name);
    assert_eq!(make().on_moved(Err("drive".to_string()), || Ok(())).unwrap(), name);
    let error = make()
        .on_moved(Err("drive".to_string()), || Err("full".to_string()))
        .unwrap_err();
    assert!(error.message().ends_with("缩略图文件落盘失败: rename=drive, copy=full"));
}

#[test]
fn ffmpeg_is_looked_for_once() {
    let mut cache = None;
    assert!(is_ffmpeg_available(&mut cache, || FfmpegProbe::Ran { success: true }));
    assert!(is_ffmpeg_available(&mut cache, || panic!("known already")));
    for probe in
        [FfmpegProbe::NotFound, FfmpegProbe::Failed, FfmpegProbe::Ran { success: false }]
    {
        let mut cache = None;
        assert!(!is_ffmpeg_available(&mut cache, || probe));
        assert_eq!(cache, Some(false));
    }
}

#[test]
fn an_extension_with_a_separator_is_no_format() {
    let data = encoded(10, 10, image::ImageFormat::Png);
    assert!(thumbnail_of("\\\\?\\C:\\a.png", data.clone()).is_ok());
    assert!(thumbnail_of("\\\\?\\C:\\a.x/b.png", data.clone()).is_ok());
    assert!(thumbnail_of("\\\\?\\C:\\a.png/b", data).is_err());
}

#[test]
fn a_file_is_read_only_if_it_is_not_too_large() {
    for size in [Ok(MAX_THUMBNAIL_FILE_SIZE + 1), Err("missing".to_string())] {
        let result =
            generate_thumbnail_from_image_file("a.png", "a.png", "d", size, || panic!("read"));
        assert_eq!(result.unwrap_err().code(), "ImageDecode");
    }
}

/// A picture whose left half is red and whose right half is blue.
fn two_colours(width: u32, height: u32, format: image::ImageFormat) -> Vec<u8> {
    let picture = image::RgbImage::from_fn(width, height, |x, _| {
        image::Rgb(if x < width / 2 { [200, 30, 30] } else { [30, 30, 200] })
    });
    let mut bytes = Cursor::new(Vec::new());
    image::DynamicImage::ImageRgb8(picture).write_to(&mut bytes, format).unwrap();
    bytes.into_inner()
}

#[test]
fn a_thumbnail_shows_the_picture_of_the_file() {
    for (name, format) in [
        ("a.png", image::ImageFormat::Png),
        ("a.jpg", image::ImageFormat::Jpeg),
        ("a.bmp", image::ImageFormat::Bmp),
        ("a.tiff", image::ImageFormat::Tiff),
        ("a.gif", image::ImageFormat::Gif),
        ("a.webp", image::ImageFormat::WebP),
    ] {
        for (width, height) in [(64, 64), (64, 16), (800, 600), (512, 512)] {
            let data = two_colours(width, height, format);
            let thumbnail = thumbnail_from_bytes(name, name, "d", &data).unwrap();
            let (w, h) = size_of(&thumbnail);
            let jpeg = image::ImageFormat::Jpeg;
            let shown = image::load_from_memory_with_format(&thumbnail.bytes, jpeg).unwrap();
            let left = shown.to_rgb8().get_pixel(w / 4, h / 2).0;
            let right = shown.to_rgb8().get_pixel(w - 1 - w / 4, h / 2).0;
            assert!(left[0] > 170 && left[1] < 70 && left[2] < 70, "{} {:?}", name, left);
            assert!(right[0] < 70 && right[1] < 70 && right[2] > 170, "{} {:?}", name, right);
        }
    }
}

#[test]
fn a_failure_is_told_in_the_words_of_the_decoder() {
    let data = b"this is not an image";
    let format = image::ImageFormat::Png;
    let words = image::load_from_memory_with_format(data, format).unwrap_err().to_string();
    let error = thumbnail_from_bytes("a.png", "a.png", "d", data).unwrap_err();
    assert_eq!(error.message(), format!("图片解码失败: {}", words));
}
