//! What kind of wallpaper a file holds.
use vstd::prelude::*;
use crate::paths;
use crate::text;
use crate::wallpaper::WallpaperType;

verus! {

/// The extensions of videos, in small letters.
pub open spec fn is_video_extension(ext: Seq<char>) -> bool {
    ||| ext == "mp4"@
    ||| ext == "avi"@
    ||| ext == "mkv"@
    ||| ext == "mov"@
    ||| ext == "webm"@
    ||| ext == "flv"@
    ||| ext == "wmv"@
    ||| ext == "m4v"@
    ||| ext == "mpg"@
    ||| ext == "mpeg"@
    ||| ext == "ts"@
}

/// The extensions of still pictures, in small letters.
pub open spec fn is_image_extension(ext: Seq<char>) -> bool {
    ||| ext == "jpg"@
    ||| ext == "jpeg"@
    ||| ext == "png"@
    ||| ext == "bmp"@
    ||| ext == "webp"@
    ||| ext == "tiff"@
    ||| ext == "tif"@
    ||| ext == "ico"@
}

/// The extensions of web pages, in small letters.
pub open spec fn is_web_extension(ext: Seq<char>) -> bool {
    ext == "html"@ || ext == "htm"@
}

/// The kind of wallpaper that goes with an extension in small letters.
pub open spec fn type_of_extension(ext: Seq<char>) -> Option<WallpaperType> {
    if is_video_extension(ext) {
        Some(WallpaperType::Video)
    } else if ext == "gif"@ {
        Some(WallpaperType::Gif)
    } else if is_image_extension(ext) {
        Some(WallpaperType::Image)
    } else if is_web_extension(ext) {
        Some(WallpaperType::Web)
    } else {
        None
    }
}

/// The kind of wallpaper that goes with `ext`, in small letters.
pub fn wallpaper_type_of_extension(ext: &str) -> (r: Option<WallpaperType>)
    ensures
        r == type_of_extension(ext@),
{
    if text::same_text(ext, "mp4") || text::same_text(ext, "avi") || text::same_text(ext, "mkv")
        || text::same_text(ext, "mov") || text::same_text(ext, "webm") || text::same_text(
        ext,
        "flv",
    ) || text::same_text(ext, "wmv") || text::same_text(ext, "m4v") || text::same_text(ext, "mpg")
        || text::same_text(ext, "mpeg") || text::same_text(ext, "ts") {
        Some(WallpaperType::Video)
    } else if text::same_text(ext, "gif") {
        Some(WallpaperType::Gif)
    } else if text::same_text(ext, "jpg") || text::same_text(ext, "jpeg") || text::same_text(
        ext,
        "png",
    ) || text::same_text(ext, "bmp") || text::same_text(ext, "webp") || text::same_text(ext, "tiff")
        || text::same_text(ext, "tif") || text::same_text(ext, "ico") {
        Some(WallpaperType::Image)
    } else if text::same_text(ext, "html") || text::same_text(ext, "htm") {
        Some(WallpaperType::Web)
    } else {
        None
    }
}

/// The kind of wallpaper that a file holds, going by its extension in small letters; none
/// if it has no extension or another one.
pub fn detect_wallpaper_type(file_path: &str) -> (r: Option<WallpaperType>)
    ensures
        r == match paths::extension(file_path@) {
            Some(e) => type_of_extension(text::lowercase(e)),
            None => None,
        },
        paths::has_ascii_extension(file_path@) ==> r == match paths::extension(file_path@) {
            Some(_) => type_of_extension(paths::ascii_lower_extension(file_path@)),
            None => None,
        },
{
    match paths::extension_of(file_path) {
        None => None,
        Some(_) => {
            let ext = paths::lower_extension_of(file_path);
            wallpaper_type_of_extension(ext.as_str())
        },
    }
}

/// Whether the bytes `pat` stand at position `i` of `s`.
pub open spec fn bytes_at(s: Seq<u8>, i: int, pat: Seq<u8>) -> bool {
    0 <= i && i + pat.len() <= s.len() && s.subrange(i, i + pat.len()) == pat
}

/// Whether the bytes `pat` stand at position `i` of `s`.
fn has_bytes_at(s: &[u8], i: usize, pat: &[u8]) -> (r: bool)
    ensures
        r == bytes_at(s@, i as int, pat@),
{
    if i > s.len() || pat.len() > s.len() - i {
        return false;
    }
    let mut k: usize = 0;
    while k < pat.len()
        invariant
            k <= pat.len(),
            i + pat.len() <= s.len(),
            forall|j: int| 0 <= j < k ==> s@[i + j] == pat@[j],
        decreases pat.len() - k,
    {
        if s[i + k] != pat[k] {
            assert(s@.subrange(i as int, i + pat@.len())[k as int] != pat@[k as int]);
            return false;
        }
        k += 1;
    }
    assert(s@.subrange(i as int, i + pat@.len()) =~= pat@);
    true
}

/// How many bytes at the start of a file are searched for marks of a web page.
pub const HTML_SCAN_BYTES: usize = 256;

/// `<!doctype html`.
pub open spec fn doctype_mark() -> Seq<u8> {
    seq![
        60u8,
        33,
        100,
        111,
        99,
        116,
        121,
        112,
        101,
        32,
        104,
        116,
        109,
        108,
    ]
}

/// `<html`.
pub open spec fn html_mark() -> Seq<u8> {
    seq![60u8, 104, 116, 109, 108]
}

/// The byte of the small letter for that of a capital one; any other byte as it is.
pub open spec fn small(b: u8) -> u8 {
    if 65 <= b <= 90 {
        (b + 32) as u8
    } else {
        b
    }
}

/// Whether `mark`, in small letters, stands at position `i` of `s`, in small or capital
/// letters.
pub open spec fn mark_at(s: Seq<u8>, i: int, mark: Seq<u8>) -> bool {
    0 <= i && i + mark.len() <= s.len() && forall|k: int|
        0 <= k < mark.len() ==> small(#[trigger] s[i + k]) == mark[k]
}

/// How many bytes the byte order mark at the start takes.
pub open spec fn bom_len(s: Seq<u8>) -> int {
    if bytes_at(s, 0, seq![0xefu8, 0xbb, 0xbf]) {
        3
    } else if bytes_at(s, 0, seq![0xffu8, 0xfe]) || bytes_at(s, 0, seq![0xfeu8, 0xff]) {
        2
    } else {
        0
    }
}

/// The bytes that are searched for marks of a web page.
pub open spec fn scanned(head: Seq<u8>) -> Seq<u8> {
    if head.len() > HTML_SCAN_BYTES {
        head.take(HTML_SCAN_BYTES as int)
    } else {
        head
    }
}

/// Whether one of the two marks of a web page stands at position `i` of `s`.
pub open spec fn marked_at(s: Seq<u8>, i: int) -> bool {
    mark_at(s, i, doctype_mark()) || mark_at(s, i, html_mark())
}

/// Whether the start of a file looks like a web page: after a byte order mark, one of the
/// two marks stands somewhere within the first 256 bytes.
pub open spec fn looks_like_html(head: Seq<u8>) -> bool {
    exists|i: int| bom_len(head) <= i && #[trigger] marked_at(scanned(head), i)
}

/// The byte of the small letter for that of a capital one; any other byte as it is.
fn to_small(b: u8) -> (r: u8)
    ensures
        r == small(b),
{
    if 65 <= b && b <= 90 {
        b + 32
    } else {
        b
    }
}

/// Whether `mark` stands at position `i` of the first `limit` bytes of `s`.
fn has_mark_at(s: &[u8], limit: usize, i: usize, mark: &[u8]) -> (r: bool)
    requires
        limit <= s.len(),
        i <= limit,
    ensures
        r == mark_at(s@.take(limit as int), i as int, mark@),
{
    if mark.len() > limit - i {
        return false;
    }
    let mut k: usize = 0;
    while k < mark.len()
        invariant
            k <= mark.len(),
            i + mark.len() <= limit <= s.len(),
            forall|j: int| 0 <= j < k ==> small(#[trigger] s@.take(limit as int)[i + j]) == mark@[j],
        decreases mark.len() - k,
    {
        if to_small(s[i + k]) != mark[k] {
            assert(small(s@.take(limit as int)[i + k]) != mark@[k as int]);
            return false;
        }
        k += 1;
    }
    true
}

/// Whether `head`, the start of a file, looks like a web page.
pub fn detect_html(head: &[u8]) -> (r: bool)
    ensures
        r == looks_like_html(head@),
{
    let utf8_bom: [u8; 3] = [0xef, 0xbb, 0xbf];
    let le_bom: [u8; 2] = [0xff, 0xfe];
    let be_bom: [u8; 2] = [0xfe, 0xff];
    assert(utf8_bom@ =~= seq![0xefu8, 0xbb, 0xbf]);
    assert(le_bom@ =~= seq![0xffu8, 0xfe]);
    assert(be_bom@ =~= seq![0xfeu8, 0xff]);
    let start: usize = if has_bytes_at(head, 0, &utf8_bom) {
        3
    } else if has_bytes_at(head, 0, &le_bom) {
        2
    } else if has_bytes_at(head, 0, &be_bom) {
        2
    } else {
        0
    };
    let limit: usize = if head.len() > HTML_SCAN_BYTES {
        HTML_SCAN_BYTES
    } else {
        head.len()
    };
    assert(head@.take(limit as int) =~= scanned(head@));
    let doctype: [u8; 14] = [60, 33, 100, 111, 99, 116, 121, 112, 101, 32, 104, 116, 109, 108];
    let html: [u8; 5] = [60, 104, 116, 109, 108];
    assert(doctype@ =~= doctype_mark());
    assert(html@ =~= html_mark());
    let mut i: usize = start;
    while i < limit
        invariant
            start == bom_len(head@),
            limit <= head.len(),
            head@.take(limit as int) == scanned(head@),
            doctype@ == doctype_mark(),
            html@ == html_mark(),
            start <= i,
            i <= limit || i == start,
            forall|k: int| start <= k < i ==> !#[trigger] marked_at(scanned(head@), k),
        decreases limit - i,
    {
        if has_mark_at(head, limit, i, &doctype) || has_mark_at(head, limit, i, &html) {
            assert(marked_at(scanned(head@), i as int));
            return true;
        }
        i += 1;
    }
    assert forall|k: int| start <= k implies !#[trigger] marked_at(scanned(head@), k) by {
        if k >= limit && marked_at(scanned(head@), k) {
            assert(scanned(head@).len() == limit);
        }
    }
    false
}

/// The kind of wallpaper that a file holds, going by the bytes it starts with: the marks of
/// the known formats in order, then those of a web page.
pub open spec fn type_of_head(head: Seq<u8>) -> Option<WallpaperType> {
    if bytes_at(head, 0, seq![71u8, 73, 70, 56, 55, 97]) || bytes_at(
        head,
        0,
        seq![71u8, 73, 70, 56, 57, 97],
    ) {
        Some(WallpaperType::Gif)
    } else if bytes_at(head, 0, seq![0x89u8, 80, 78, 71, 0x0d, 0x0a, 0x1a, 0x0a]) {
        Some(WallpaperType::Image)
    } else if bytes_at(head, 0, seq![0xffu8, 0xd8, 0xff]) {
        Some(WallpaperType::Image)
    } else if bytes_at(head, 0, seq![66u8, 77]) {
        Some(WallpaperType::Image)
    } else if head.len() >= 12 && bytes_at(head, 4, seq![102u8, 116, 121, 112]) {
        Some(WallpaperType::Video)
    } else if bytes_at(head, 0, seq![0x1au8, 0x45, 0xdf, 0xa3]) {
        Some(WallpaperType::Video)
    } else if looks_like_html(head) {
        Some(WallpaperType::Web)
    } else {
        None
    }
}

/// The kind of wallpaper that a file holds, going by the bytes it starts with; none if they
/// tell nothing.
pub fn detect_wallpaper_type_by_magic_bytes(head: &[u8]) -> (r: Option<WallpaperType>)
    ensures
        r == type_of_head(head@),
{
    let gif87: [u8; 6] = [71, 73, 70, 56, 55, 97];
    let gif89: [u8; 6] = [71, 73, 70, 56, 57, 97];
    let png: [u8; 8] = [0x89, 80, 78, 71, 0x0d, 0x0a, 0x1a, 0x0a];
    let jpeg: [u8; 3] = [0xff, 0xd8, 0xff];
    let bmp: [u8; 2] = [66, 77];
    let ftyp: [u8; 4] = [102, 116, 121, 112];
    let ebml: [u8; 4] = [0x1a, 0x45, 0xdf, 0xa3];
    assert(gif87@ =~= seq![71u8, 73, 70, 56, 55, 97]);
    assert(gif89@ =~= seq![71u8, 73, 70, 56, 57, 97]);
    assert(png@ =~= seq![0x89u8, 80, 78, 71, 0x0d, 0x0a, 0x1a, 0x0a]);
    assert(jpeg@ =~= seq![0xffu8, 0xd8, 0xff]);
    assert(bmp@ =~= seq![66u8, 77]);
    assert(ftyp@ =~= seq![102u8, 116, 121, 112]);
    assert(ebml@ =~= seq![0x1au8, 0x45, 0xdf, 0xa3]);
    if has_bytes_at(head, 0, &gif87) || has_bytes_at(head, 0, &gif89) {
        return Some(WallpaperType::Gif);
    }
    if has_bytes_at(head, 0, &png) {
        return Some(WallpaperType::Image);
    }
    if has_bytes_at(head, 0, &jpeg) {
        return Some(WallpaperType::Image);
    }
    if has_bytes_at(head, 0, &bmp) {
        return Some(WallpaperType::Image);
    }
    if head.len() >= 12 && has_bytes_at(head, 4, &ftyp) {
        return Some(WallpaperType::Video);
    }
    if has_bytes_at(head, 0, &ebml) {
        return Some(WallpaperType::Video);
    }
    if detect_html(head) {
        return Some(WallpaperType::Web);
    }
    None
}

/// What lies beyond the first 256 bytes never makes a file a web page.
pub proof fn law_html_only_in_scanned_bytes(a: Seq<u8>, b: Seq<u8>)
    requires
        scanned(a) == scanned(b),
    ensures
        looks_like_html(a) == looks_like_html(b),
{
    assert(bom_len(a) == bom_len(b)) by {
        lemma_head_bytes(a, b, seq![0xefu8, 0xbb, 0xbf]);
        lemma_head_bytes(a, b, seq![0xffu8, 0xfe]);
        lemma_head_bytes(a, b, seq![0xfeu8, 0xff]);
    }
}

proof fn lemma_head_bytes(a: Seq<u8>, b: Seq<u8>, pat: Seq<u8>)
    requires
        scanned(a) == scanned(b),
        pat.len() <= 8,
    ensures
        bytes_at(a, 0, pat) == bytes_at(b, 0, pat),
{
    let n = pat.len() as int;
    if n <= scanned(a).len() {
        assert(a.subrange(0, n) =~= scanned(a).subrange(0, n));
        assert(b.subrange(0, n) =~= scanned(b).subrange(0, n));
    }
}

/// A file with the mark of a web page is one whatever the case of its letters.
pub proof fn law_html_ignores_case(a: Seq<u8>, b: Seq<u8>)
    requires
        a.len() == b.len(),
        forall|i: int| 0 <= i < a.len() ==> small(#[trigger] a[i]) == small(b[i]),
    ensures
        looks_like_html(a) == looks_like_html(b),
{
    assert(bom_len(a) == bom_len(b)) by {
        assert forall|p: Seq<u8>|
            p.len() <= a.len() && (forall|i: int| 0 <= i < p.len() ==> (#[trigger] p[i]) > 122)
            implies bytes_at(a, 0, p) == #[trigger] bytes_at(b, 0, p) by {
            let n = p.len() as int;
            if a.subrange(0, n) == p {
                assert forall|i: int| 0 <= i < n implies b.subrange(0, n)[i] == p[i] by {
                    assert(a.subrange(0, n)[i] == a[i]);
                    assert(small(a[i]) == small(b[i]));
                }
                assert(b.subrange(0, n) =~= p);
            }
            if b.subrange(0, n) == p {
                assert forall|i: int| 0 <= i < n implies a.subrange(0, n)[i] == p[i] by {
                    assert(b.subrange(0, n)[i] == b[i]);
                    assert(small(a[i]) == small(b[i]));
                }
                assert(a.subrange(0, n) =~= p);
            }
        }
        assert(bytes_at(a, 0, seq![0xefu8, 0xbb, 0xbf]) == bytes_at(
            b,
            0,
            seq![0xefu8, 0xbb, 0xbf],
        ));
        assert(bytes_at(a, 0, seq![0xffu8, 0xfe]) == bytes_at(b, 0, seq![0xffu8, 0xfe]));
        assert(bytes_at(a, 0, seq![0xfeu8, 0xff]) == bytes_at(b, 0, seq![0xfeu8, 0xff]));
    }
    let s = scanned(a);
    let t = scanned(b);
    assert forall|i: int, mark: Seq<u8>| #[trigger] mark_at(s, i, mark) == mark_at(t, i, mark) by {
        if mark_at(s, i, mark) {
            assert forall|k: int| 0 <= k < mark.len() implies small(#[trigger] t[i + k])
                == mark[k] by {
                assert(small(s[i + k]) == mark[k]);
                assert(s[i + k] == a[i + k] && t[i + k] == b[i + k]);
            }
        }
        if mark_at(t, i, mark) {
            assert forall|k: int| 0 <= k < mark.len() implies small(#[trigger] s[i + k])
                == mark[k] by {
                assert(small(t[i + k]) == mark[k]);
                assert(s[i + k] == a[i + k] && t[i + k] == b[i + k]);
            }
        }
    }
    if looks_like_html(a) {
        let i = choose|i: int| bom_len(a) <= i && #[trigger] marked_at(s, i);
        assert(mark_at(s, i, doctype_mark()) == mark_at(t, i, doctype_mark()));
        assert(mark_at(s, i, html_mark()) == mark_at(t, i, html_mark()));
        assert(marked_at(t, i));
    }
    if looks_like_html(b) {
        let i = choose|i: int| bom_len(b) <= i && #[trigger] marked_at(t, i);
        assert(mark_at(s, i, doctype_mark()) == mark_at(t, i, doctype_mark()));
        assert(mark_at(s, i, html_mark()) == mark_at(t, i, html_mark()));
        assert(marked_at(s, i));
    }
}

/// Which extensions stand for which kind of wallpaper, and that no other does.
pub proof fn law_extension_kinds(ext: Seq<char>)
    ensures
        type_of_extension(ext) == Some(WallpaperType::Video) <==> seq![
            "mp4"@,
            "avi"@,
            "mkv"@,
            "mov"@,
            "webm"@,
            "flv"@,
            "wmv"@,
            "m4v"@,
            "mpg"@,
            "mpeg"@,
            "ts"@,
        ].contains(ext),
        type_of_extension(ext) == Some(WallpaperType::Gif) <==> ext == "gif"@,
        type_of_extension(ext) == Some(WallpaperType::Image) <==> seq![
            "jpg"@,
            "jpeg"@,
            "png"@,
            "bmp"@,
            "webp"@,
            "tiff"@,
            "tif"@,
            "ico"@,
        ].contains(ext),
        type_of_extension(ext) == Some(WallpaperType::Web) <==> seq!["html"@, "htm"@].contains(ext),
{
    reveal_strlit("mp4");
    reveal_strlit("avi");
    reveal_strlit("mkv");
    reveal_strlit("mov");
    reveal_strlit("webm");
    reveal_strlit("flv");
    reveal_strlit("wmv");
    reveal_strlit("m4v");
    reveal_strlit("mpg");
    reveal_strlit("mpeg");
    reveal_strlit("ts");
    reveal_strlit("gif");
    reveal_strlit("jpg");
    reveal_strlit("jpeg");
    reveal_strlit("png");
    reveal_strlit("bmp");
    reveal_strlit("webp");
    reveal_strlit("tiff");
    reveal_strlit("tif");
    reveal_strlit("ico");
    reveal_strlit("html");
    reveal_strlit("htm");
    assert("gif"@.len() == 3 && "gif"@[0] == 'g' && "gif"@[1] == 'i' && "gif"@[2] == 'f');
    assert("mp4"@.len() == 3 && "mp4"@[0] == 'm' && "mp4"@[1] == 'p' && "mp4"@[2] == '4');
    assert("avi"@.len() == 3 && "avi"@[0] == 'a' && "avi"@[1] == 'v' && "avi"@[2] == 'i');
    assert("mkv"@.len() == 3 && "mkv"@[0] == 'm' && "mkv"@[1] == 'k' && "mkv"@[2] == 'v');
    assert("mov"@.len() == 3 && "mov"@[0] == 'm' && "mov"@[1] == 'o' && "mov"@[2] == 'v');
    assert("webm"@.len() == 4 && "webm"@[0] == 'w' && "webm"@[1] == 'e' && "webm"@[2] == 'b'
        && "webm"@[3] == 'm');
    assert("flv"@.len() == 3 && "flv"@[0] == 'f' && "flv"@[1] == 'l' && "flv"@[2] == 'v');
    assert("wmv"@.len() == 3 && "wmv"@[0] == 'w' && "wmv"@[1] == 'm' && "wmv"@[2] == 'v');
    assert("m4v"@.len() == 3 && "m4v"@[0] == 'm' && "m4v"@[1] == '4' && "m4v"@[2] == 'v');
    assert("mpg"@.len() == 3 && "mpg"@[0] == 'm' && "mpg"@[1] == 'p' && "mpg"@[2] == 'g');
    assert("mpeg"@.len() == 4 && "mpeg"@[0] == 'm' && "mpeg"@[1] == 'p' && "mpeg"@[2] == 'e'
        && "mpeg"@[3] == 'g');
    assert("ts"@.len() == 2 && "ts"@[0] == 't' && "ts"@[1] == 's');
    assert("jpg"@.len() == 3 && "jpg"@[0] == 'j' && "jpg"@[1] == 'p' && "jpg"@[2] == 'g');
    assert("jpeg"@.len() == 4 && "jpeg"@[0] == 'j' && "jpeg"@[1] == 'p' && "jpeg"@[2] == 'e'
        && "jpeg"@[3] == 'g');
    assert("png"@.len() == 3 && "png"@[0] == 'p' && "png"@[1] == 'n' && "png"@[2] == 'g');
    assert("bmp"@.len() == 3 && "bmp"@[0] == 'b' && "bmp"@[1] == 'm' && "bmp"@[2] == 'p');
    assert("webp"@.len() == 4 && "webp"@[0] == 'w' && "webp"@[1] == 'e' && "webp"@[2] == 'b'
        && "webp"@[3] == 'p');
    assert("tiff"@.len() == 4 && "tiff"@[0] == 't' && "tiff"@[1] == 'i' && "tiff"@[2] == 'f'
        && "tiff"@[3] == 'f');
    assert("tif"@.len() == 3 && "tif"@[0] == 't' && "tif"@[1] == 'i' && "tif"@[2] == 'f');
    assert("ico"@.len() == 3 && "ico"@[0] == 'i' && "ico"@[1] == 'c' && "ico"@[2] == 'o');
    assert("html"@.len() == 4 && "html"@[0] == 'h' && "html"@[1] == 't' && "html"@[2] == 'm'
        && "html"@[3] == 'l');
    assert("htm"@.len() == 3 && "htm"@[0] == 'h' && "htm"@[1] == 't' && "htm"@[2] == 'm');
    let videos = seq![
        "mp4"@,
        "avi"@,
        "mkv"@,
        "mov"@,
        "webm"@,
        "flv"@,
        "wmv"@,
        "m4v"@,
        "mpg"@,
        "mpeg"@,
        "ts"@,
    ];
    assert(videos[0] == "mp4"@ && videos[1] == "avi"@ && videos[2] == "mkv"@ && videos[3] == "mov"@
        && videos[4] == "webm"@ && videos[5] == "flv"@ && videos[6] == "wmv"@ && videos[7]
        == "m4v"@ && videos[8] == "mpg"@ && videos[9] == "mpeg"@ && videos[10] == "ts"@);
    let images = seq![
        "jpg"@,
        "jpeg"@,
        "png"@,
        "bmp"@,
        "webp"@,
        "tiff"@,
        "tif"@,
        "ico"@,
    ];
    assert(images[0] == "jpg"@ && images[1] == "jpeg"@ && images[2] == "png"@ && images[3]
        == "bmp"@ && images[4] == "webp"@ && images[5] == "tiff"@ && images[6] == "tif"@
        && images[7] == "ico"@);
    let pages = seq!["html"@, "htm"@];
    assert(pages[0] == "html"@ && pages[1] == "htm"@);
}

/// A word of small ASCII characters stands at a place of some bytes, in letters of either
/// case.
pub open spec fn spells(s: Seq<u8>, i: int, word: Seq<char>) -> bool {
    0 <= i && i + word.len() <= s.len() && forall|k: int|
        0 <= k < word.len() ==> {
            ||| #[trigger] s[i + k] == word[k] as int
            ||| ('a' <= word[k] <= 'z' && s[i + k] + 32 == word[k] as int)
        }
}

/// One of the two words that a web page begins with stands at a place of some bytes.
pub open spec fn begins_page(s: Seq<u8>, i: int) -> bool {
    spells(s, i, "<!doctype html"@) || spells(s, i, "<html"@)
}

proof fn lemma_spells_doctype(s: Seq<u8>, i: int)
    ensures
        mark_at(s, i, doctype_mark()) <==> spells(s, i, "<!doctype html"@),
{
    reveal_strlit("<!doctype html");
    let word = "<!doctype html"@;
    let mark = doctype_mark();
    assert(mark.len() == word.len());
    assert forall|k: int| 0 <= k < mark.len() implies #[trigger] mark[k] == word[k] as int by {}
    if mark_at(s, i, mark) {
        assert forall|k: int| 0 <= k < word.len() implies {
            ||| #[trigger] s[i + k] == word[k] as int
            ||| ('a' <= word[k] <= 'z' && s[i + k] + 32 == word[k] as int)
        } by {
            assert(small(s[i + k]) == mark[k]);
            assert(mark[k] == word[k] as int);
        }
    }
    if spells(s, i, word) {
        assert forall|k: int| 0 <= k < mark.len() implies small(#[trigger] s[i + k]) == mark[k] by {
            assert(mark[k] == word[k] as int);
        }
    }
}

proof fn lemma_spells_html(s: Seq<u8>, i: int)
    ensures
        mark_at(s, i, html_mark()) <==> spells(s, i, "<html"@),
{
    reveal_strlit("<html");
    let word = "<html"@;
    let mark = html_mark();
    assert(mark.len() == word.len());
    assert forall|k: int| 0 <= k < mark.len() implies #[trigger] mark[k] == word[k] as int by {}
    if mark_at(s, i, mark) {
        assert forall|k: int| 0 <= k < word.len() implies {
            ||| #[trigger] s[i + k] == word[k] as int
            ||| ('a' <= word[k] <= 'z' && s[i + k] + 32 == word[k] as int)
        } by {
            assert(small(s[i + k]) == mark[k]);
            assert(mark[k] == word[k] as int);
        }
    }
    if spells(s, i, word) {
        assert forall|k: int| 0 <= k < mark.len() implies small(#[trigger] s[i + k]) == mark[k] by {
            assert(mark[k] == word[k] as int);
        }
    }
}

/// A file looks like a web page exactly if "<!doctype html" or "<html", in letters of either
/// case, stands somewhere within its first 256 bytes, behind the mark of the encoding if
/// there is one.
pub proof fn law_html_recognised(head: Seq<u8>, first: Seq<u8>, from: int)
    requires
        head.len() <= 256 ==> first == head,
        head.len() > 256 ==> first == head.take(256),
        seq![0xefu8, 0xbb, 0xbf].is_prefix_of(head) ==> from == 3,
        seq![0xffu8, 0xfe].is_prefix_of(head) || seq![0xfeu8, 0xff].is_prefix_of(head) ==> from
            == 2,
        !(seq![0xefu8, 0xbb, 0xbf].is_prefix_of(head) || seq![0xffu8, 0xfe].is_prefix_of(head)
            || seq![0xfeu8, 0xff].is_prefix_of(head)) ==> from == 0,
    ensures
        looks_like_html(head) <==> exists|i: int|
            from <= i && #[trigger] begins_page(first, i),
{
    assert(first == scanned(head));
    assert(seq![0xefu8, 0xbb, 0xbf][0] == 0xef && seq![0xffu8, 0xfe][0] == 0xff);
    lemma_begins(head, seq![0xefu8, 0xbb, 0xbf]);
    lemma_begins(head, seq![0xffu8, 0xfe]);
    lemma_begins(head, seq![0xfeu8, 0xff]);
    assert(bom_len(head) == from);
    if looks_like_html(head) {
        let i = choose|i: int| bom_len(head) <= i && #[trigger] marked_at(scanned(head), i);
        lemma_spells_doctype(first, i);
        lemma_spells_html(first, i);
        assert(begins_page(first, i));
    }
    if exists|i: int|
        from <= i && #[trigger] begins_page(first, i) {
        let i = choose|i: int|
            from <= i && #[trigger] begins_page(first, i);
        lemma_spells_doctype(first, i);
        lemma_spells_html(first, i);
        assert(marked_at(scanned(head), i));
        assert(looks_like_html(head));
    }
}

proof fn lemma_begins(s: Seq<u8>, pat: Seq<u8>)
    ensures
        bytes_at(s, 0, pat) <==> pat.is_prefix_of(s),
{
    if pat.len() <= s.len() {
        assert(s.subrange(0, pat.len() as int) =~= s.take(pat.len() as int));
    }
}

/// What the first bytes of a file say of its kind: a GIF by its two signatures; an image by
/// those of PNG, JPEG and BMP; a video by "ftyp" at the fifth byte of at least twelve, or by
/// the signature of Matroska; else a web page by its marks. Nothing else is recognised,
/// whatever follows.
pub proof fn law_head_kinds(head: Seq<u8>)
    ensures
        ({
            let gif = seq![71u8, 73, 70, 56, 55, 97].is_prefix_of(head) || seq![
                71u8,
                73,
                70,
                56,
                57,
                97,
            ].is_prefix_of(head);
            let image = seq![0x89u8, 80, 78, 71, 13, 10, 26, 10].is_prefix_of(head) || seq![
                0xffu8,
                0xd8,
                0xff,
            ].is_prefix_of(head) || seq![66u8, 77].is_prefix_of(head);
            let ftyp = head.len() >= 12 && head[4] == 102 && head[5] == 116 && head[6] == 121
                && head[7] == 112;
            let video = seq![0x1au8, 0x45, 0xdf, 0xa3].is_prefix_of(head) || (ftyp && !gif
                && !image);
            &&& type_of_head(head) == Some(WallpaperType::Gif) <==> gif
            &&& type_of_head(head) == Some(WallpaperType::Image) <==> image
            &&& type_of_head(head) == Some(WallpaperType::Video) <==> video
            &&& type_of_head(head) == Some(WallpaperType::Web) <==> !gif && !image && !video
                && looks_like_html(head)
        }),
{
    let gif_a = seq![71u8, 73, 70, 56, 55, 97];
    let gif_b = seq![71u8, 73, 70, 56, 57, 97];
    let png = seq![0x89u8, 80, 78, 71, 13, 10, 26, 10];
    let jpeg = seq![0xffu8, 0xd8, 0xff];
    let bmp = seq![66u8, 77];
    let matroska = seq![0x1au8, 0x45, 0xdf, 0xa3];
    lemma_begins(head, gif_a);
    lemma_begins(head, gif_b);
    lemma_begins(head, png);
    lemma_begins(head, jpeg);
    lemma_begins(head, bmp);
    lemma_begins(head, matroska);
    assert(gif_a.is_prefix_of(head) ==> head[0] == gif_a[0]);
    assert(gif_b.is_prefix_of(head) ==> head[0] == gif_b[0]);
    assert(png.is_prefix_of(head) ==> head[0] == png[0]);
    assert(jpeg.is_prefix_of(head) ==> head[0] == jpeg[0]);
    assert(bmp.is_prefix_of(head) ==> head[0] == bmp[0]);
    assert(matroska.is_prefix_of(head) ==> head[0] == matroska[0]);
    let ftyp = seq![102u8, 116, 121, 112];
    if head.len() >= 12 {
        let part = head.subrange(4, 8);
        assert(part == ftyp <==> part[0] == ftyp[0] && part[1] == ftyp[1] && part[2] == ftyp[2]
            && part[3] == ftyp[3]) by {
            if part[0] == ftyp[0] && part[1] == ftyp[1] && part[2] == ftyp[2] && part[3]
                == ftyp[3] {
                assert(part =~= ftyp);
            }
        }
    }
}

} // verus!
