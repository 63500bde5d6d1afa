use mirrorstar_core::encoding::{decode_text, decode_utf16_lossy, encode_utf16, missing_len};
use mirrorstar_core::json::{quote, quote_array};
use mirrorstar_core::keyed::StringMap;
use mirrorstar_core::paths::{
    extension_of, extension_of_name, file_name_of, join, lower_extension_of,
    path_with_extension, stem_of_name,
};
use mirrorstar_core::text::{
    decimal_text, first_chars, hex_text, replace_char, same_text, signed_decimal_text,
    text_contains, trim_text,
};
use mirrorstar_core::MirrorStarError;

#[test]
fn numbers_are_written_like_the_standard_library_writes_them() {
    for n in [0u128, 7, 10, 99, 1048576, u64::MAX as u128, u128::MAX] {
        assert_eq!(decimal_text(n), n.to_string());
    }
    for n in [0i64, -1, 42, i64::MIN, i64::MAX] {
        assert_eq!(signed_decimal_text(n), n.to_string());
    }
    assert_eq!(hex_text(0xABC, 8, true), "00000ABC");
    assert_eq!(hex_text(u64::MAX, 16, false), "ffffffffffffffff");
    assert_eq!(hex_text(0x1234, 2, false), "34");
}

#[test]
fn texts_are_searched_and_cut() {
    assert!(text_contains("http://x", "://"));
    assert!(!text_contains("c:/x", "://"));
    assert!(text_contains("x", ""));
    assert_eq!(first_chars("中文字", 2), "中文");
    assert_eq!(first_chars("a", 5), "a");
    assert_eq!(replace_char("a/b/c", '/', '\\'), "a\\b\\c");
    assert!(same_text("ä", "ä"));
    assert!(!same_text("ä", "a"));
}

#[test]
fn white_space_is_trimmed_like_the_standard_library_does() {
    for s in ["", " ", "\t a b \r\n", "\u{3000}中 \u{a0}", "x"] {
        assert_eq!(trim_text(s), s.trim());
    }
}

#[test]
fn utf16_goes_back_and_forth() {
    for s in ["", "abc", "显示器", "a😀b"] {
        let units: Vec<u16> = s.encode_utf16().collect();
        assert_eq!(encode_utf16(s), units);
        assert_eq!(decode_utf16_lossy(&units), s);
    }
    for units in [vec![0xD800], vec![0xDC00, 0x41], vec![0xD83D, 0xD83D, 0xDE00]] {
        assert_eq!(decode_utf16_lossy(&units), String::from_utf16_lossy(&units));
    }
}

#[test]
fn json_is_quoted_like_serde_quotes_it() {
    for s in ["", "plain", "a\"b\\c/", "\u{8}\u{c}\n\r\t", "\u{1}\u{1f}\u{7f}", "中😀"] {
        assert_eq!(quote(s), serde_json::to_string(s).unwrap());
    }
    let items = vec!["a".to_string(), "b\"".to_string()];
    assert_eq!(quote_array(&items), serde_json::to_string(&items).unwrap());
    assert_eq!(quote_array(&Vec::new()), "[]");
}

#[test]
fn paths_are_taken_apart() {
    assert_eq!(file_name_of("C:\\a\\b.txt").as_deref(), Some("b.txt"));
    assert_eq!(file_name_of("C:\\").as_deref(), None);
    assert_eq!(file_name_of("\\\\server\\share").as_deref(), None);
    assert_eq!(file_name_of("a/..").as_deref(), None);
    assert_eq!(file_name_of("a/b/./").as_deref(), Some("b"));
    assert_eq!(extension_of("a.b/c").as_deref(), None);
    assert_eq!(extension_of("a.tar.GZ").as_deref(), Some("GZ"));
    assert_eq!(extension_of(".hidden").as_deref(), None);
    assert_eq!(extension_of_name("a.").as_deref(), Some(""));
    assert_eq!(lower_extension_of("A.PNG"), "png");
    assert_eq!(lower_extension_of("A"), "");
    assert_eq!(stem_of_name("a.tar.gz"), "a.tar");
    assert_eq!(stem_of_name(".lock"), ".lock");
}

#[test]
fn paths_are_put_together() {
    assert_eq!(join("C:\\a", "b"), "C:\\a\\b");
    assert_eq!(join("C:\\a\\", "b"), "C:\\a\\b");
    assert_eq!(join("a/", "b"), "a/b");
    assert_eq!(join("C:", "b"), "C:b");
    assert_eq!(join("", "b"), "b");
    assert_eq!(path_with_extension("C:\\a.b\\c.toml", "lock"), "C:\\a.b\\c.lock");
    assert_eq!(path_with_extension("c", "tmp"), "c.tmp");
    assert_eq!(path_with_extension("..", "tmp"), "..");
}

#[test]
fn verbatim_paths_are_taken_as_they_are() {
    assert_eq!(file_name_of("\\\\?\\C:\\a\\b.txt").as_deref(), Some("b.txt"));
    assert_eq!(file_name_of("\\\\?\\C:\\a/b.txt").as_deref(), Some("a/b.txt"));
    assert_eq!(file_name_of("\\\\?\\C:\\a\\.").as_deref(), None);
    assert_eq!(file_name_of("\\\\?\\C:\\a\\..").as_deref(), None);
    assert_eq!(file_name_of("\\\\?\\C:").as_deref(), None);
    assert_eq!(file_name_of("\\\\?\\name").as_deref(), None);
    assert_eq!(file_name_of("\\\\?\\name\\a").as_deref(), Some("a"));
    assert_eq!(file_name_of("\\\\?\\UNC\\server\\share").as_deref(), None);
    assert_eq!(file_name_of("\\\\?\\UNC\\server\\share\\a").as_deref(), Some("a"));
    assert_eq!(file_name_of("\\\\?\\UNC\\server").as_deref(), None);
    assert_eq!(file_name_of("//?/C:/a").as_deref(), Some("a"));
    assert_eq!(extension_of("\\\\?\\C:\\a.b/c").as_deref(), Some("b/c"));
    assert_eq!(join("\\\\?\\C:", "b"), "\\\\?\\C:\\b");
    assert_eq!(join("\\\\?\\C:\\\\a/\\", "b"), "\\\\?\\C:\\a/\\b");
    assert_eq!(
        path_with_extension("\\\\?\\C:\\d.e\\c.toml", "lock"),
        "\\\\?\\C:\\d.e\\c.lock"
    );
    assert_eq!(path_with_extension("\\\\?\\UNC\\a\\b.c", "d"), "\\\\?\\UNC\\a\\b.c");
}

#[test]
fn a_cut_character_is_missing_its_last_bytes() {
    for c in ["é", "中", "😀"] {
        let text = format!("a{}", c);
        for n in 2..text.len() {
            assert_eq!(missing_len(&text.as_bytes()[..n]), text.len() - n);
        }
        assert_eq!(missing_len(text.as_bytes()), 0);
    }
    assert_eq!(missing_len(b""), 0);
}

#[test]
fn a_map_keeps_one_value_for_each_key() {
    let mut map: StringMap<u8> = StringMap::new();
    assert!(map.is_empty());
    map.insert("b".to_string(), 1);
    map.insert("a".to_string(), 2);
    map.insert("b".to_string(), 3);
    assert_eq!(map.len(), 2);
    assert_eq!(map.get("b"), Some(&3));
    assert!(map.contains_key("a"));
    *map.get_mut("a").unwrap() = 9;
    assert_eq!(map.remove("a"), Some(9));
    assert_eq!(map.remove("a"), None);
    assert_eq!(map.get("a"), None);
    assert_eq!(map.ordered_keys(), ["b"]);
}

#[test]
fn errors_have_a_code_and_a_message() {
    let errors = [
        (MirrorStarError::DesktopIntegration("x".to_string()), "DesktopIntegration"),
        (MirrorStarError::WorkerWNotFound, "WorkerWNotFound"),
        (MirrorStarError::ProcessSpawnFailed("x".to_string()), "ProcessSpawnFailed"),
        (MirrorStarError::IpcError("x".to_string()), "IpcError"),
        (MirrorStarError::AudioControl("x".to_string()), "AudioControl"),
        (MirrorStarError::ConfigParse("x".to_string()), "ConfigParse"),
        (MirrorStarError::ConfigWrite("x".to_string()), "ConfigWrite"),
        (MirrorStarError::ImageDecode("x".to_string()), "ImageDecode"),
        (MirrorStarError::FileWatcher("x".to_string()), "FileWatcher"),
        (MirrorStarError::LockPoisoned("x".to_string()), "LockPoisoned"),
        (MirrorStarError::TaskJoin("x".to_string()), "TaskJoin"),
        (MirrorStarError::IpcTimeout("x".to_string()), "IpcTimeout"),
        (MirrorStarError::IpcDisconnected("x".to_string()), "IpcDisconnected"),
        (MirrorStarError::IpcNotConnected("x".to_string()), "IpcNotConnected"),
        (MirrorStarError::Win32("x".to_string()), "Win32"),
        (MirrorStarError::Io("x".to_string()), "Io"),
        (MirrorStarError::InvalidPath { reason: "x".to_string() }, "InvalidPath"),
        (MirrorStarError::InvalidConfig { reason: "x".to_string() }, "InvalidConfig"),
        (MirrorStarError::InvalidUrl { scheme: "x".to_string() }, "InvalidUrl"),
        (MirrorStarError::InvalidArgument { reason: "x".to_string() }, "InvalidArgument"),
        (MirrorStarError::WebView2Timeout("x".to_string()), "WebView2Timeout"),
    ];
    for (error, code) in errors {
        assert_eq!(error.code(), code);
        if code != "WorkerWNotFound" {
            assert!(error.message().contains('x'));
        }
    }
}

#[test]
fn wrong_bytes_are_described_like_the_standard_library_describes_them() {
    let cases: [&[u8]; 14] = [
        b"",
        b"plain",
        "中😀".as_bytes(),
        b"\xff",
        b"ab\xc3",
        b"ab\xc3x",
        b"a\xe4\xb8",
        b"a\xe4\xb8x",
        b"\xe4x",
        b"\xf0\x9f\x98",
        b"\xf0\x9f\x98x",
        b"\xf0\x9fx",
        b"\xed\xa0\x80",
        b"a\xc0\x80b",
    ];
    for bytes in cases {
        let expected = String::from_utf8(bytes.to_vec());
        match decode_text(bytes.to_vec()) {
            Ok(text) => assert_eq!(text, expected.unwrap()),
            Err(words) => {
                assert_eq!(words, expected.unwrap_err().to_string());
                assert_eq!(words, std::str::from_utf8(bytes).unwrap_err().to_string());
            }
        }
    }
}
