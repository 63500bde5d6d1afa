//! Thumbnails of wallpaper files.
use vstd::prelude::*;
use vstd::string::*;
use vstd::utf8::*;
use crate::config::raster;
use crate::error::{ErrorKind, MirrorStarError};
use crate::paths;
use crate::text;

verus! {

/// The largest width of a thumbnail.
pub const THUMB_MAX_W: u32 = 320;

/// The largest height of a thumbnail.
pub const THUMB_MAX_H: u32 = 180;

/// The quality of a thumbnail, from 1 to 100.
pub const JPEG_QUALITY: u8 = 85;

/// The largest image file, in bytes.
pub const MAX_THUMBNAIL_FILE_SIZE: u64 = 104857600;

/// The largest file of an uncompressed image, in bytes.
pub const MAX_UNCOMPRESSED_IMAGE_FILE_SIZE: u64 = 52428800;

/// The largest width and height of an image.
pub const MAX_IMAGE_DIMENSION: u32 = 20000;

/// The most bytes that the pixels of an image may take, at four bytes a pixel.
pub const MAX_DECODED_PIXEL_BUFFER_SIZE: u64 = 209715200;

/// The bytes of a megabyte.
pub const MEGABYTE: u64 = 1048576;

/// How many characters of what ffmpeg printed go into an error.
pub const FFMPEG_ERROR_CHARS: usize = 500;

/// What the 64-bit FNV-1a hash starts from.
pub const FNV_OFFSET: u64 = 0xcbf29ce484222325;

/// What the 64-bit FNV-1a hash multiplies by.
pub const FNV_PRIME: u64 = 0x100000001b3;

/// The 64-bit FNV-1a hash of some bytes.
pub open spec fn fnv1a(bytes: Seq<u8>) -> u64
    decreases bytes.len(),
{
    if bytes.len() == 0 {
        FNV_OFFSET
    } else {
        (fnv1a(bytes.drop_last()) ^ (bytes.last() as u64)).wrapping_mul(FNV_PRIME)
    }
}

/// The 64-bit FNV-1a hash of some bytes.
fn fnv1a_of(bytes: &[u8]) -> (r: u64)
    ensures
        r == fnv1a(bytes@),
{
    let mut hash: u64 = FNV_OFFSET;
    let mut i: usize = 0;
    while i < bytes.len()
        invariant
            i <= bytes.len(),
            hash == fnv1a(bytes@.take(i as int)),
        decreases bytes.len() - i,
    {
        assert(bytes@.take(i + 1).drop_last() =~= bytes@.take(i as int));
        hash = (hash ^ (bytes[i] as u64)).wrapping_mul(FNV_PRIME);
        i += 1;
    }
    assert(bytes@.take(i as int) =~= bytes@);
    hash
}

proof fn lemma_prime_multiples_differ(a: u64, b: u64)
    requires
        a.wrapping_mul(FNV_PRIME) == b.wrapping_mul(FNV_PRIME),
    ensures
        a == b,
{
    lemma_undo_prime(a as int);
    lemma_undo_prime(b as int);
}

/// Multiplying by the prime, modulo two to the power of 64, can be undone.
proof fn lemma_undo_prime(a: int)
    requires
        0 <= a < 0x1_0000_0000_0000_0000,
    ensures
        (((a * 0x100000001b3) % 0x1_0000_0000_0000_0000) * 0xce965057aff6957b)
            % 0x1_0000_0000_0000_0000 == a,
{
    let m: int = 0x1_0000_0000_0000_0000;
    let p: int = 0x100000001b3;
    let q: int = 0xce965057aff6957b;
    let c: int = 887285111055;
    vstd::arithmetic::div_mod::lemma_mul_mod_noop_left(a * p, q, m);
    assert(p * q == c * m + 1);
    assert((a * p) * q == a * (p * q)) by (nonlinear_arith);
    assert(a * (c * m + 1) == m * (a * c) + a) by (nonlinear_arith);
    vstd::arithmetic::div_mod::lemma_mod_multiples_vanish(a * c, a, m);
    vstd::arithmetic::div_mod::lemma_small_mod(a as nat, m as nat);
}

/// The hash is the 64-bit FNV-1a hash: of no bytes it is the offset basis, and each further
/// byte is mixed into the lowest eight bits, whereupon the whole is multiplied by the prime.
pub proof fn law_hash_steps(bytes: Seq<u8>, next: u8)
    ensures
        fnv1a(Seq::<u8>::empty()) == 0xcbf29ce484222325,
        fnv1a(bytes.push(next)) == ((fnv1a(bytes) ^ (next as u64)) * 0x100000001b3)
            % 0x1_0000_0000_0000_0000,
{
    assert(bytes.push(next).drop_last() =~= bytes);
}

/// Every byte counts: two hashes that differ still do after the same further bytes.
proof fn lemma_hashes_stay_apart(a: Seq<u8>, b: Seq<u8>, more: Seq<u8>)
    requires
        fnv1a(a) != fnv1a(b),
    ensures
        fnv1a(a + more) != fnv1a(b + more),
    decreases more.len(),
{
    if more.len() == 0 {
        assert(a + more =~= a);
        assert(b + more =~= b);
    } else {
        let shorter = more.drop_last();
        lemma_hashes_stay_apart(a, b, shorter);
        assert((a + more).drop_last() =~= a + shorter);
        assert((b + more).drop_last() =~= b + shorter);
        let g = fnv1a(a + shorter);
        let h = fnv1a(b + shorter);
        let x = more.last() as u64;
        assert(g ^ x == h ^ x ==> g == h) by (bit_vector);
        if fnv1a(a + more) == fnv1a(b + more) {
            lemma_prime_multiples_differ(g ^ x, h ^ x);
        }
    }
}

/// Every byte counts: two byte strings of one length that differ in exactly one place, and
/// whatever bytes they have there, have different hashes.
pub proof fn law_every_byte_counts(a: Seq<u8>, b: Seq<u8>, i: int)
    requires
        a.len() == b.len(),
        0 <= i < a.len(),
        a[i] != b[i],
        forall|j: int| 0 <= j < a.len() && j != i ==> a[j] == b[j],
    ensures
        fnv1a(a) != fnv1a(b),
{
    let head = a.take(i);
    let more = a.skip(i + 1);
    assert(a =~= head.push(a[i]) + more);
    assert(b =~= head.push(b[i]) + more);
    assert(head.push(a[i]).drop_last() =~= head);
    assert(head.push(b[i]).drop_last() =~= head);
    let h = fnv1a(head);
    let x = a[i] as u64;
    let y = b[i] as u64;
    assert(h ^ x == h ^ y ==> x == y) by (bit_vector);
    if fnv1a(head.push(a[i])) == fnv1a(head.push(b[i])) {
        lemma_prime_multiples_differ(h ^ x, h ^ y);
    }
    lemma_hashes_stay_apart(head.push(a[i]), head.push(b[i]), more);
}

/// What stands for a path in a file name: the hash of its UTF-8 bytes as sixteen
/// hexadecimal digits.
pub open spec fn path_hex(path: Seq<char>) -> Seq<char> {
    text::hex_fixed(fnv1a(encode_utf8(path)) as nat, 16, false)
}

/// What stands for a path in a file name.
pub fn path_to_hex(source_path: &str) -> (r: String)
    ensures
        r@ == path_hex(source_path@),
{
    text::hex_text(fnv1a_of(source_path.as_bytes()), 16, false)
}

/// The name of the thumbnail of a file.
pub open spec fn thumbnail_name(path: Seq<char>) -> Seq<char> {
    "thumb_"@ + path_hex(path) + ".jpg"@
}

/// The name of the thumbnail of the file at `source_path`.
pub fn thumbnail_name_from_path(source_path: &str) -> (r: String)
    ensures
        r@ == thumbnail_name(source_path@),
{
    let mut s = String::from_str("thumb_");
    s.append(path_to_hex(source_path).as_str());
    s.append(".jpg");
    s
}

/// The name of the file that a frame of a video is put into.
pub open spec fn tmp_frame_name(path: Seq<char>, counter: nat, nanos: nat) -> Seq<char> {
    "_tmp_frame_"@ + path_hex(path) + "_"@ + text::decimal(counter) + "_"@ + text::decimal(nanos)
        + ".jpg"@
}

/// The counter that follows: one more, and zero after the largest.
pub open spec fn next_counter(counter: u64) -> u64 {
    if counter == u64::MAX {
        0
    } else {
        (counter + 1) as u64
    }
}

/// The name of the file that a frame of the video at `source_path` is put into. `counter`
/// counts the calls within the process, so each call has its own; `nanos` is the time.
pub fn tmp_frame_name_from_path(source_path: &str, counter: &mut u64, nanos: u128) -> (r: String)
    ensures
        r@ == tmp_frame_name(source_path@, *old(counter) as nat, nanos as nat),
        *final(counter) == next_counter(*old(counter)),
{
    let n: u64 = *counter;
    *counter = if n == u64::MAX {
        0
    } else {
        n + 1
    };
    let mut s = String::from_str("_tmp_frame_");
    s.append(path_to_hex(source_path).as_str());
    s.append("_");
    s.append(text::decimal_text(n as u128).as_str());
    s.append("_");
    s.append(text::decimal_text(nanos).as_str());
    s.append(".jpg");
    s
}

/// However long a path is, the name of its thumbnail has 26 characters.
pub proof fn law_thumbnail_name_len(path: Seq<char>)
    ensures
        thumbnail_name(path).len() == 26,
{
    reveal_strlit("thumb_");
    reveal_strlit(".jpg");
    text::law_hex_len(fnv1a(encode_utf8(path)) as nat, 16, false);
}

/// Two paths share a thumbnail's name exactly if the hashes of their UTF-8 bytes are equal.
pub proof fn law_thumbnail_names_follow_hashes(p: Seq<char>, q: Seq<char>)
    ensures
        thumbnail_name(p) == thumbnail_name(q) <==> fnv1a(encode_utf8(p)) == fnv1a(encode_utf8(q)),
{
    let g = fnv1a(encode_utf8(p)) as nat;
    let h = fnv1a(encode_utf8(q)) as nat;
    if thumbnail_name(p) == thumbnail_name(q) {
        reveal_strlit("thumb_");
        reveal_strlit(".jpg");
        text::law_hex_len(g, 16, false);
        text::law_hex_len(h, 16, false);
        assert(path_hex(p) =~= thumbnail_name(p).subrange(6, 22));
        assert(path_hex(q) =~= thumbnail_name(q).subrange(6, 22));
        assert(text::hex_capacity(16) == 0x1_0000_0000_0000_0000) by {
            reveal_with_fuel(text::hex_capacity, 17);
        }
        text::law_hex_injective(g, h, 16, false);
    }
}

/// Two paths of one length in bytes that differ in exactly one byte, of a Latin letter or of
/// any other character, have different thumbnails.
pub proof fn law_thumbnail_names_differ(p: Seq<char>, q: Seq<char>, i: int)
    requires
        encode_utf8(p).len() == encode_utf8(q).len(),
        0 <= i < encode_utf8(p).len(),
        encode_utf8(p)[i] != encode_utf8(q)[i],
        forall|j: int|
            0 <= j < encode_utf8(p).len() && j != i ==> encode_utf8(p)[j] == encode_utf8(q)[j],
    ensures
        thumbnail_name(p) != thumbnail_name(q),
{
    law_every_byte_counts(encode_utf8(p), encode_utf8(q), i);
    law_thumbnail_names_follow_hashes(p, q);
}

/// Two frames are put into the same file only if both the counter and the time are the
/// same.
pub proof fn law_tmp_frame_names_differ(
    p: Seq<char>,
    counter_p: nat,
    nanos_p: nat,
    q: Seq<char>,
    counter_q: nat,
    nanos_q: nat,
)
    requires
        tmp_frame_name(p, counter_p, nanos_p) == tmp_frame_name(q, counter_q, nanos_q),
    ensures
        counter_p == counter_q,
        nanos_p == nanos_q,
{
    reveal_strlit("_tmp_frame_");
    reveal_strlit("_");
    reveal_strlit(".jpg");
    text::law_hex_len(fnv1a(encode_utf8(p)) as nat, 16, false);
    text::law_hex_len(fnv1a(encode_utf8(q)) as nat, 16, false);
    let a = text::decimal(counter_p);
    let b = text::decimal(counter_q);
    let c = text::decimal(nanos_p);
    let d = text::decimal(nanos_q);
    let x = tmp_frame_name(p, counter_p, nanos_p);
    let y = tmp_frame_name(q, counter_q, nanos_q);
    assert(x.skip(28) =~= a + "_"@ + c + ".jpg"@);
    assert(y.skip(28) =~= b + "_"@ + d + ".jpg"@);
    let s = x.skip(28);
    text::law_decimal_digits(counter_p);
    text::law_decimal_digits(counter_q);
    assert(s[a.len() as int] == '_');
    assert(s[b.len() as int] == '_');
    if a.len() < b.len() {
        assert(s[a.len() as int] == b[a.len() as int]);
    }
    if b.len() < a.len() {
        assert(s[b.len() as int] == a[b.len() as int]);
    }
    assert(a =~= s.take(a.len() as int));
    assert(b =~= s.take(b.len() as int));
    assert(c =~= s.subrange(a.len() as int + 1, s.len() - 4));
    assert(d =~= s.subrange(b.len() as int + 1, s.len() - 4));
    text::law_decimal_injective(counter_p, counter_q);
    text::law_decimal_injective(nanos_p, nanos_q);
}

/// The counter that call number `k` finds, counted from zero, if the first finds `start`.
pub open spec fn nth_counter(start: u64, k: nat) -> u64
    decreases k,
{
    if k == 0 {
        start
    } else {
        next_counter(nth_counter(start, (k - 1) as nat))
    }
}

/// Each call finds a counter that is larger by one, until the numbers start anew.
pub proof fn law_nth_counter(start: u64, k: nat)
    ensures
        nth_counter(start, k) == (start + k) % 0x1_0000_0000_0000_0000,
        start + k <= u64::MAX ==> nth_counter(start, k) == start + k,
    decreases k,
{
    if k > 0 {
        law_nth_counter(start, (k - 1) as nat);
    }
}

/// The name of the file for a frame that call number `k` of some calls gives, of which each
/// gets a path and a time.
pub open spec fn nth_frame_name(start: u64, calls: Seq<(Seq<char>, nat)>, k: int) -> Seq<char> {
    tmp_frame_name(calls[k].0, nth_counter(start, k as nat) as nat, calls[k].1)
}

/// No two calls give the same name, whatever their paths and times are, as long as there are
/// no more of them than there are counters.
pub proof fn law_frame_names_of_calls_differ(
    start: u64,
    calls: Seq<(Seq<char>, nat)>,
    i: int,
    j: int,
)
    requires
        0 <= i < j < calls.len() <= 0x1_0000_0000_0000_0000,
    ensures
        nth_frame_name(start, calls, i) != nth_frame_name(start, calls, j),
{
    law_nth_counter(start, i as nat);
    law_nth_counter(start, j as nat);
    if nth_frame_name(start, calls, i) == nth_frame_name(start, calls, j) {
        law_tmp_frame_names_differ(
            calls[i].0,
            nth_counter(start, i as nat) as nat,
            calls[i].1,
            calls[j].0,
            nth_counter(start, j as nat) as nat,
            calls[j].1,
        );
    }
}

/// A format of image files.
#[derive(Clone, Copy, Debug, PartialEq, Eq, Structural)]
pub enum ImageFormat {
    /// JPEG.
    Jpeg,
    /// PNG.
    Png,
    /// GIF.
    Gif,
    /// BMP.
    Bmp,
    /// WebP.
    WebP,
    /// TIFF.
    Tiff,
    /// ICO.
    Ico,
}

/// The format that an extension in small letters stands for.
pub open spec fn format_of_extension(ext: Seq<char>) -> Option<ImageFormat> {
    if ext == "jpg"@ || ext == "jpeg"@ {
        Some(ImageFormat::Jpeg)
    } else if ext == "png"@ {
        Some(ImageFormat::Png)
    } else if ext == "gif"@ {
        Some(ImageFormat::Gif)
    } else if ext == "bmp"@ {
        Some(ImageFormat::Bmp)
    } else if ext == "webp"@ {
        Some(ImageFormat::WebP)
    } else if ext == "tiff"@ || ext == "tif"@ {
        Some(ImageFormat::Tiff)
    } else if ext == "ico"@ {
        Some(ImageFormat::Ico)
    } else {
        None
    }
}

/// The format that an extension in small letters stands for.
pub fn image_format_of_extension(ext: &str) -> (r: Option<ImageFormat>)
    ensures
        r == format_of_extension(ext@),
{
    if text::same_text(ext, "jpg") || text::same_text(ext, "jpeg") {
        Some(ImageFormat::Jpeg)
    } else if text::same_text(ext, "png") {
        Some(ImageFormat::Png)
    } else if text::same_text(ext, "gif") {
        Some(ImageFormat::Gif)
    } else if text::same_text(ext, "bmp") {
        Some(ImageFormat::Bmp)
    } else if text::same_text(ext, "webp") {
        Some(ImageFormat::WebP)
    } else if text::same_text(ext, "tiff") || text::same_text(ext, "tif") {
        Some(ImageFormat::Tiff)
    } else if text::same_text(ext, "ico") {
        Some(ImageFormat::Ico)
    } else {
        None
    }
}

/// The format of an image file, by the extension of its path.
pub fn guess_image_format(file_path: &str) -> (r: Option<ImageFormat>)
    ensures
        r == format_of_extension(paths::lower_extension(file_path@)),
        paths::has_ascii_extension(file_path@) ==> r == format_of_extension(
            paths::ascii_lower_extension(file_path@),
        ),
{
    let ext = paths::lower_extension_of(file_path);
    image_format_of_extension(ext.as_str())
}

/// Whether files of this format hold their pixels uncompressed.
pub open spec fn uncompressed(format: Option<ImageFormat>) -> bool {
    format == Some(ImageFormat::Bmp) || format == Some(ImageFormat::Tiff)
}

/// The largest file of this format.
pub open spec fn size_limit(format: Option<ImageFormat>) -> u64 {
    if uncompressed(format) {
        MAX_UNCOMPRESSED_IMAGE_FILE_SIZE
    } else {
        MAX_THUMBNAIL_FILE_SIZE
    }
}

/// What is said of a file that is too large.
pub open spec fn file_too_large_text(format: Option<ImageFormat>, size: nat) -> Seq<char> {
    "图像文件超过 "@ + text::decimal((size_limit(format) / MEGABYTE) as nat) + "MB 上限"@ + (
    if uncompressed(format) {
        "（未压缩格式 BMP/TIFF）"@
    } else {
        Seq::<char>::empty()
    }) + "（当前 "@ + text::decimal(size) + " 字节）"@
}

/// Accepts an image file of this size unless it is larger than files of its format may be.
pub fn check_image_file_size(format: Option<ImageFormat>, file_size: u64) -> (r: Result<
    (),
    MirrorStarError,
>)
    ensures
        if file_size <= size_limit(format) {
            r is Ok
        } else {
            r matches Err(e) && e@ == (
                ErrorKind::ImageDecode,
                file_too_large_text(format, file_size as nat),
            )
        },
{
    let plain = match format {
        Some(ImageFormat::Bmp) | Some(ImageFormat::Tiff) => true,
        _ => false,
    };
    let limit: u64 = if plain {
        MAX_UNCOMPRESSED_IMAGE_FILE_SIZE
    } else {
        MAX_THUMBNAIL_FILE_SIZE
    };
    if file_size > limit {
        let mut s = String::from_str("图像文件超过 ");
        s.append(text::decimal_text((limit / MEGABYTE) as u128).as_str());
        s.append("MB 上限");
        let ghost so_far = s@;
        if plain {
            s.append("（未压缩格式 BMP/TIFF）");
        } else {
            assert(so_far + Seq::<char>::empty() =~= so_far);
        }
        s.append("（当前 ");
        s.append(text::decimal_text(file_size as u128).as_str());
        s.append(" 字节）");
        return Err(MirrorStarError::ImageDecode(s));
    }
    Ok(())
}

/// What is said of an image that is too wide or too high.
pub open spec fn dimensions_text(width: nat, height: nat) -> Seq<char> {
    "图像尺寸超过 "@ + text::decimal(MAX_IMAGE_DIMENSION as nat) + "x"@ + text::decimal(
        MAX_IMAGE_DIMENSION as nat,
    ) + " 上限（当前 "@ + text::decimal(width) + "x"@ + text::decimal(height) + "）"@
}

/// Accepts an image that is neither too wide nor too high.
pub fn check_dimensions(width: u32, height: u32) -> (r: Result<(), MirrorStarError>)
    ensures
        if width <= MAX_IMAGE_DIMENSION && height <= MAX_IMAGE_DIMENSION {
            r is Ok
        } else {
            r matches Err(e) && e@ == (
                ErrorKind::ImageDecode,
                dimensions_text(width as nat, height as nat),
            )
        },
{
    if width > MAX_IMAGE_DIMENSION || height > MAX_IMAGE_DIMENSION {
        let mut s = String::from_str("图像尺寸超过 ");
        s.append(text::decimal_text(MAX_IMAGE_DIMENSION as u128).as_str());
        s.append("x");
        s.append(text::decimal_text(MAX_IMAGE_DIMENSION as u128).as_str());
        s.append(" 上限（当前 ");
        s.append(text::decimal_text(width as u128).as_str());
        s.append("x");
        s.append(text::decimal_text(height as u128).as_str());
        s.append("）");
        return Err(MirrorStarError::ImageDecode(s));
    }
    Ok(())
}

/// The bytes that the pixels of an image take, at four bytes a pixel.
pub open spec fn pixel_buffer_size(width: nat, height: nat) -> nat {
    width * height * 4
}

/// What is said of an image with too many pixels.
pub open spec fn pixel_buffer_text(width: nat, height: nat) -> Seq<char> {
    "解码后像素缓冲区超过 "@ + text::decimal(
        (MAX_DECODED_PIXEL_BUFFER_SIZE / MEGABYTE) as nat,
    ) + "MB 上限（当前 "@ + text::decimal(width) + "x"@ + text::decimal(height) + " = "@
        + text::decimal(pixel_buffer_size(width, height)) + " 字节 RGBA）"@
}

/// Accepts an image whose pixels do not take too much memory.
pub fn check_decoded_pixel_buffer_size(width: u32, height: u32) -> (r: Result<(), MirrorStarError>)
    ensures
        if pixel_buffer_size(width as nat, height as nat) <= MAX_DECODED_PIXEL_BUFFER_SIZE {
            r is Ok
        } else {
            r matches Err(e) && e@ == (
                ErrorKind::ImageDecode,
                pixel_buffer_text(width as nat, height as nat),
            )
        },
{
    assert(width * height <= 0xffff_ffff * 0xffff_ffff) by (nonlinear_arith)
        requires
            width <= 0xffff_ffff,
            height <= 0xffff_ffff,
    ;
    assert((width as nat) * (height as nat) == width * height);
    let pixel_buffer_size: u128 = (width as u128) * (height as u128) * 4;
    if pixel_buffer_size > MAX_DECODED_PIXEL_BUFFER_SIZE as u128 {
        let mut s = String::from_str("解码后像素缓冲区超过 ");
        s.append(
            text::decimal_text((MAX_DECODED_PIXEL_BUFFER_SIZE / MEGABYTE) as u128).as_str(),
        );
        s.append("MB 上限（当前 ");
        s.append(text::decimal_text(width as u128).as_str());
        s.append("x");
        s.append(text::decimal_text(height as u128).as_str());
        s.append(" = ");
        s.append(text::decimal_text(pixel_buffer_size).as_str());
        s.append(" 字节 RGBA）");
        return Err(MirrorStarError::ImageDecode(s));
    }
    Ok(())
}

/// The name under which an image file is handed to the decoder: all that counts of it is
/// the extension. One with a separator in it, as a verbatim path can have, stands for no
/// format.
pub open spec fn reader_name(path: Seq<char>) -> Seq<char> {
    match paths::extension(path) {
        Some(e) => if e.len() > 0 && raster::is_plain_name(e) {
            "image."@ + e
        } else {
            "image"@
        },
        None => "image"@,
    }
}

/// An extension, in small letters, of the files that can be decoded.
pub open spec fn decodable_extension(ext: Seq<char>) -> bool {
    ||| ext == "jpg"@
    ||| ext == "jpeg"@
    ||| ext == "jfif"@
    ||| ext == "png"@
    ||| ext == "apng"@
    ||| ext == "gif"@
    ||| ext == "webp"@
    ||| ext == "tif"@
    ||| ext == "tiff"@
    ||| ext == "bmp"@
    ||| ext == "ico"@
}

/// The name for the decoder ends in an extension only if the path has it.
proof fn lemma_reader_name(path: Seq<char>, ext: Seq<char>)
    requires
        raster::ends_in(reader_name(path), ext),
        ext.len() > 0,
        ext.len() < 5,
    ensures
        paths::ascii_lower_extension(path) == ext,
{
    reveal_strlit("image.");
    reveal_strlit("image");
    paths::law_extension_plain(path);
    let name = reader_name(path);
    let k = name.len() - ext.len() - 1;
    assert(name[k] == '.');
    match paths::extension(path) {
        Some(e) => {
            if e.len() > 0 && raster::is_plain_name(e) {
                if k > 5 {
                    assert(name[k] == e[k - 6]);
                }
                assert(k == 5);
                assert(name.skip(6) =~= e);
            }
        },
        None => {},
    }
}

/// The name for the decoder is one without directories, and has the extension of an image
/// only if the path has it.
proof fn lemma_reader_name_plain(path: Seq<char>)
    ensures
        raster::is_plain_name(reader_name(path)),
        raster::has_image_extension(reader_name(path)) ==> decodable_extension(
            paths::ascii_lower_extension(path),
        ),
{
    reveal_strlit("image.");
    reveal_strlit("image");
    reveal_strlit("jpg");
    reveal_strlit("jpeg");
    reveal_strlit("jfif");
    reveal_strlit("png");
    reveal_strlit("apng");
    reveal_strlit("gif");
    reveal_strlit("webp");
    reveal_strlit("tif");
    reveal_strlit("tiff");
    reveal_strlit("bmp");
    reveal_strlit("ico");
    paths::law_extension_plain(path);
    let name = reader_name(path);
    assert forall|i: int| 0 <= i < name.len() implies !paths::is_separator(#[trigger] name[i]) by {
        if let Some(e) = paths::extension(path) {
            if e.len() > 0 && raster::is_plain_name(e) && i >= 6 {
                assert(name[i] == e[i - 6]);
            }
        }
    }
    if raster::has_image_extension(name) {
        if raster::ends_in(name, "jpg"@) {
            lemma_reader_name(path, "jpg"@);
        } else if raster::ends_in(name, "jpeg"@) {
            lemma_reader_name(path, "jpeg"@);
        } else if raster::ends_in(name, "jfif"@) {
            lemma_reader_name(path, "jfif"@);
        } else if raster::ends_in(name, "png"@) {
            lemma_reader_name(path, "png"@);
        } else if raster::ends_in(name, "apng"@) {
            lemma_reader_name(path, "apng"@);
        } else if raster::ends_in(name, "gif"@) {
            lemma_reader_name(path, "gif"@);
        } else if raster::ends_in(name, "webp"@) {
            lemma_reader_name(path, "webp"@);
        } else if raster::ends_in(name, "tif"@) {
            lemma_reader_name(path, "tif"@);
        } else if raster::ends_in(name, "tiff"@) {
            lemma_reader_name(path, "tiff"@);
        } else if raster::ends_in(name, "bmp"@) {
            lemma_reader_name(path, "bmp"@);
        } else {
            lemma_reader_name(path, "ico"@);
        }
    }
}

/// Whether this is a name without directories.
fn is_plain(name: &[char]) -> (r: bool)
    ensures
        r == raster::is_plain_name(name@),
{
    let mut i: usize = 0;
    while i < name.len()
        invariant
            i <= name.len(),
            forall|k: int| 0 <= k < i ==> !paths::is_separator(#[trigger] name@[k]),
        decreases name.len() - i,
    {
        if name[i] == '/' || name[i] == '\\' {
            assert(paths::is_separator(name@[i as int]));
            return false;
        }
        i += 1;
    }
    true
}

/// The image file's name for the decoder.
fn reader_name_of(path: &str) -> (r: String)
    ensures
        r@ == reader_name(path@),
{
    match paths::extension_of(path) {
        Some(e) => {
            let cs = text::chars_of(e.as_str());
            if cs.len() > 0 && is_plain(cs.as_slice()) {
                text::join2("image.", e.as_str())
            } else {
                String::from_str("image")
            }
        },
        None => String::from_str("image"),
    }
}

/// Whether an image has to be made smaller for its thumbnail.
pub open spec fn needs_scaling(size: (u32, u32)) -> bool {
    size.0 > THUMB_MAX_W || size.1 > THUMB_MAX_H
}

/// The size and the pixels of a thumbnail: those of the image, unless it has to be made
/// smaller.
pub open spec fn thumbnail_picture(image: image::DynamicImage) -> ((u32, u32), Seq<u8>) {
    if needs_scaling(raster::picture_size(image)) {
        raster::scaled_picture(image, THUMB_MAX_W, THUMB_MAX_H)
    } else {
        (raster::picture_size(image), raster::picture_samples(image))
    }
}

/// Whether a thumbnail of this size suits an image of size `from`: it has the image's own
/// size if that is small enough, and else the largest size of the image's shape that is.
pub open spec fn is_thumbnail_size(from: (u32, u32), to: (u32, u32)) -> bool {
    if needs_scaling(from) {
        raster::is_scaled_size(from, THUMB_MAX_W, THUMB_MAX_H, to)
    } else {
        to == from
    }
}

/// A rounded quotient of at most `f` is at most `f`.
proof fn lemma_rounded_at_most(n: u32, a: int, b: int, f: int)
    requires
        raster::is_rounded(n, a, b),
        b > 0,
        f >= 1,
        a <= f * b,
    ensures
        n <= f,
{
    if n > f && 2 * a >= b {
        assert(n * b >= f * b + b) by (nonlinear_arith)
            requires
                n >= f + 1,
                b > 0,
        ;
    }
}

/// A thumbnail fits into its bounds and is never larger than its image. If the image has
/// to be made smaller, the thumbnail reaches one of the bounds.
pub proof fn law_thumbnail_fits(from: (u32, u32), to: (u32, u32))
    requires
        is_thumbnail_size(from, to),
        from.0 > 0,
        from.1 > 0,
    ensures
        1 <= to.0 <= THUMB_MAX_W,
        1 <= to.1 <= THUMB_MAX_H,
        to.0 <= from.0,
        to.1 <= from.1,
        needs_scaling(from) ==> to.0 == THUMB_MAX_W || to.1 == THUMB_MAX_H,
{
    if needs_scaling(from) {
        if THUMB_MAX_W * from.1 <= THUMB_MAX_H * from.0 {
            assert(from.1 * THUMB_MAX_W <= from.1 * from.0) by (nonlinear_arith)
                requires
                    THUMB_MAX_W <= from.0,
                    from.1 > 0,
            ;
            lemma_rounded_at_most(
                to.1,
                from.1 * THUMB_MAX_W,
                from.0 as int,
                from.1 as int,
            );
        } else {
            assert(from.0 * THUMB_MAX_H <= from.0 * from.1) by (nonlinear_arith)
                requires
                    THUMB_MAX_H <= from.1,
                    from.0 > 0,
            ;
            lemma_rounded_at_most(
                to.0,
                from.0 * THUMB_MAX_H,
                from.1 as int,
                from.0 as int,
            );
        }
    }
}

/// What comes of making the thumbnail of an image: the bytes of a JPEG file, or an error
/// for an image that is too large or has no pixels.
pub open spec fn is_made_of(image: image::DynamicImage, r: Result<Vec<u8>, MirrorStarError>) -> bool {
    let size = raster::picture_size(image);
    let (w, h) = (size.0 as nat, size.1 as nat);
    let (to, samples) = thumbnail_picture(image);
    if w > MAX_IMAGE_DIMENSION || h > MAX_IMAGE_DIMENSION {
        r matches Err(e) && e@ == (ErrorKind::ImageDecode, dimensions_text(w, h))
    } else if pixel_buffer_size(w, h) > MAX_DECODED_PIXEL_BUFFER_SIZE {
        r matches Err(e) && e@ == (ErrorKind::ImageDecode, pixel_buffer_text(w, h))
    } else {
        &&& is_thumbnail_size(size, to)
        &&& if to.0 == 0 || to.1 == 0 {
            r matches Err(e) && e@ == (ErrorKind::ImageDecode, raster::jpeg_size_error(to.0, to.1))
        } else {
            r matches Ok(bytes) && bytes@ == raster::jpeg_file(samples, to.0, to.1, JPEG_QUALITY)
        }
    }
}

/// The thumbnail of an image, as the bytes of a JPEG file.
pub fn make_thumbnail(image: &image::DynamicImage) -> (r: Result<Vec<u8>, MirrorStarError>)
    ensures
        is_made_of(*image, r),
{
    let (w, h) = raster::image_size(image);
    if let Err(e) = check_dimensions(w, h) {
        return Err(e);
    }
    if let Err(e) = check_decoded_pixel_buffer_size(w, h) {
        return Err(e);
    }
    let (samples, tw, th) = if w > THUMB_MAX_W || h > THUMB_MAX_H {
        let thumb = raster::scale_image(image, THUMB_MAX_W, THUMB_MAX_H);
        let (tw, th) = raster::image_size(&thumb);
        (raster::rgb_samples(&thumb), tw, th)
    } else {
        (raster::rgb_samples(image), w, h)
    };
    match raster::encode_jpeg(samples.as_slice(), tw, th, JPEG_QUALITY) {
        Ok(bytes) => Ok(bytes),
        Err(e) => Err(MirrorStarError::ImageDecode(e)),
    }
}

/// A thumbnail no part of which is written yet.
#[derive(Debug)]
pub struct Thumbnail {
    /// The name of its file.
    pub name: String,
    /// The path of its file.
    pub path: String,
    /// What to write into its file.
    pub bytes: Vec<u8>,
}

/// Whether an image file is to be read: its size is known and not too large.
pub open spec fn may_read(path: Seq<char>, file_size: Result<u64, String>) -> bool {
    file_size matches Ok(n) && n <= size_limit(format_of_extension(paths::lower_extension(path)))
}

/// The thumbnail of the image file at `image_file_path`, to be stored in `thumbnail_dir`
/// under a name made of the path `source_file_path_for_hash`. `file_size` is the size of
/// the image file, or what the system said when asked for it; `read` reads the file, and
/// is called only if the file is not too large.
pub fn generate_thumbnail_from_image_file<F: FnOnce() -> Result<Vec<u8>, String>>(
    image_file_path: &str,
    source_file_path_for_hash: &str,
    thumbnail_dir: &str,
    file_size: Result<u64, String>,
    read: F,
) -> (r: Result<Thumbnail, MirrorStarError>)
    requires
        may_read(image_file_path@, file_size) ==> read.requires(()),
    ensures
        match file_size {
            Err(e) => r matches Err(x) && x@ == (
                ErrorKind::ImageDecode,
                "读取图像文件元数据失败: "@ + e@,
            ),
            Ok(n) => {
                let format = format_of_extension(paths::lower_extension(image_file_path@));
                if n > size_limit(format) {
                    r matches Err(x) && x@ == (
                        ErrorKind::ImageDecode,
                        file_too_large_text(format, n as nat),
                    )
                } else {
                    exists|data: Result<Vec<u8>, String>| #[trigger]
                        read.ensures((), data) && match data {
                            Err(e) => r matches Err(x) && x@ == (ErrorKind::ImageDecode, e@),
                            Ok(bytes) => is_thumbnail_of(
                                image_file_path@,
                                source_file_path_for_hash@,
                                thumbnail_dir@,
                                bytes@,
                                r,
                            ),
                        }
                }
            },
        },
{
    let n: u64 = match file_size {
        Ok(n) => n,
        Err(e) => {
            return Err(
                MirrorStarError::ImageDecode(
                    text::join2("读取图像文件元数据失败: ", e.as_str()),
                ),
            );
        },
    };
    if let Err(e) = check_image_file_size(guess_image_format(image_file_path), n) {
        return Err(e);
    }
    let got = read();
    let ghost data = got;
    assert(read.ensures((), data));
    match got {
        Err(e) => Err(MirrorStarError::ImageDecode(e)),
        Ok(bytes) => thumbnail_from_bytes(
            image_file_path,
            source_file_path_for_hash,
            thumbnail_dir,
            bytes.as_slice(),
        ),
    }
}

/// What comes of a decoded image: a failure to decode it is reported as such; else the
/// thumbnail is made and gets its name.
pub open spec fn is_stored_as(
    decoded: Result<image::DynamicImage, String>,
    source: Seq<char>,
    dir: Seq<char>,
    r: Result<Thumbnail, MirrorStarError>,
) -> bool {
    match decoded {
        Err(e) => r matches Err(x) && x@ == (ErrorKind::ImageDecode, e@),
        Ok(image) => match r {
            Err(x) => is_made_of(image, Err(x)),
            Ok(t) => {
                &&& is_made_of(image, Ok(t.bytes))
                &&& t.name@ == thumbnail_name(source)
                &&& t.path@ == paths::joined(dir, thumbnail_name(source))
            },
        },
    }
}

/// The thumbnail for what came of decoding an image file.
pub fn thumbnail_of_decoded(
    decoded: Result<image::DynamicImage, String>,
    source_file_path_for_hash: &str,
    thumbnail_dir: &str,
) -> (r: Result<Thumbnail, MirrorStarError>)
    ensures
        is_stored_as(decoded, source_file_path_for_hash@, thumbnail_dir@, r),
{
    match decoded {
        Err(e) => Err(MirrorStarError::ImageDecode(e)),
        Ok(image) => {
            match make_thumbnail(&image) {
                Err(e) => Err(e),
                Ok(bytes) => {
                    let name = thumbnail_name_from_path(source_file_path_for_hash);
                    let path = paths::join(thumbnail_dir, name.as_str());
                    Ok(Thumbnail { name, path, bytes })
                },
            }
        },
    }
}

/// What comes of an image file with these bytes. It is decoded if it can be within the
/// limits; only files with the extension of an image can. The image is what the file shows,
/// and has the size that the file states, which is within the limits. If it cannot be
/// decoded, that is reported in the decoders' words.
pub open spec fn is_thumbnail_of(
    path: Seq<char>,
    source: Seq<char>,
    dir: Seq<char>,
    data: Seq<u8>,
    r: Result<Thumbnail, MirrorStarError>,
) -> bool {
    exists|decoded: Result<image::DynamicImage, String>| #[trigger]
        is_stored_as(decoded, source, dir, r) && (decoded is Ok <==> raster::decodes(
            reader_name(path),
            data,
            MAX_IMAGE_DIMENSION,
            MAX_DECODED_PIXEL_BUFFER_SIZE,
        )) && (decoded matches Err(e) ==> raster::is_decode_error(
            reader_name(path),
            data,
            MAX_IMAGE_DIMENSION,
            MAX_DECODED_PIXEL_BUFFER_SIZE,
            e@,
        )) && (decoded matches Ok(image) ==> {
            &&& raster::is_picture_of(reader_name(path), data, image)
            &&& decodable_extension(paths::ascii_lower_extension(path))
            &&& raster::picture_size(image) == raster::stated_size(reader_name(path), data)
            &&& raster::picture_size(image).0 <= MAX_IMAGE_DIMENSION
            &&& raster::picture_size(image).1 <= MAX_IMAGE_DIMENSION
        })
}

/// The thumbnail of an image file whose bytes are `data`.
pub fn thumbnail_from_bytes(
    image_file_path: &str,
    source_file_path_for_hash: &str,
    thumbnail_dir: &str,
    data: &[u8],
) -> (r: Result<Thumbnail, MirrorStarError>)
    ensures
        is_thumbnail_of(
            image_file_path@,
            source_file_path_for_hash@,
            thumbnail_dir@,
            data@,
            r,
        ),
{
    let reader_name = reader_name_of(image_file_path);
    proof {
        lemma_reader_name_plain(image_file_path@);
    }
    let decoded = raster::decode_image(
        reader_name.as_str(),
        data,
        MAX_IMAGE_DIMENSION,
        MAX_DECODED_PIXEL_BUFFER_SIZE,
    );
    let ghost image = decoded;
    let r = thumbnail_of_decoded(decoded, source_file_path_for_hash, thumbnail_dir);
    assert(is_stored_as(image, source_file_path_for_hash@, thumbnail_dir@, r));
    r
}

/// The thumbnail of the image file at `file_path`, to be stored in `thumbnail_dir`.
pub fn generate_thumbnail<F: FnOnce() -> Result<Vec<u8>, String>>(
    file_path: &str,
    thumbnail_dir: &str,
    file_size: Result<u64, String>,
    read: F,
) -> (r: Result<Thumbnail, MirrorStarError>)
    requires
        may_read(file_path@, file_size) ==> read.requires(()),
    ensures
        match file_size {
            Err(e) => r matches Err(x) && x@ == (
                ErrorKind::ImageDecode,
                "读取图像文件元数据失败: "@ + e@,
            ),
            Ok(n) => {
                let format = format_of_extension(paths::lower_extension(file_path@));
                if n > size_limit(format) {
                    r matches Err(x) && x@ == (
                        ErrorKind::ImageDecode,
                        file_too_large_text(format, n as nat),
                    )
                } else {
                    exists|data: Result<Vec<u8>, String>| #[trigger]
                        read.ensures((), data) && match data {
                            Err(e) => r matches Err(x) && x@ == (ErrorKind::ImageDecode, e@),
                            Ok(bytes) => is_thumbnail_of(
                                file_path@,
                                file_path@,
                                thumbnail_dir@,
                                bytes@,
                                r,
                            ),
                        }
                }
            },
        },
{
    generate_thumbnail_from_image_file(file_path, file_path, thumbnail_dir, file_size, read)
}

/// What came of asking ffmpeg for its version.
#[derive(Clone, Copy, Debug, PartialEq, Eq, Structural)]
pub enum FfmpegProbe {
    /// It ran, and ended with success or without.
    Ran {
        /// It ended with success.
        success: bool,
    },
    /// There is no such program.
    NotFound,
    /// It could not be started for another reason.
    Failed,
}

/// Whether ffmpeg can be used. The first answer, which `probe` finds out, is kept in
/// `cache` and holds from then on.
pub fn is_ffmpeg_available<F: FnOnce() -> FfmpegProbe>(
    cache: &mut Option<bool>,
    probe: F,
) -> (r: bool)
    requires
        *old(cache) is None ==> probe.requires(()),
    ensures
        *final(cache) == Some(r),
        match *old(cache) {
            Some(known) => r == known,
            None => exists|p: FfmpegProbe| #[trigger]
                probe.ensures((), p) && r == (p == FfmpegProbe::Ran { success: true }),
        },
{
    match *cache {
        Some(known) => known,
        None => {
            let p = probe();
            let found = match p {
                FfmpegProbe::Ran { success } => success,
                FfmpegProbe::NotFound | FfmpegProbe::Failed => false,
            };
            *cache = Some(found);
            found
        },
    }
}

/// A path as ffmpeg takes it for a file: one that starts with `-` would be taken for an
/// option.
pub open spec fn ffmpeg_input(path: Seq<char>) -> Seq<char> {
    if path.len() > 0 && path[0] == '-' {
        "./"@ + path
    } else {
        path
    }
}

/// The path as ffmpeg takes it for a file.
pub fn escape_ffmpeg_input(file_path: &str) -> (r: String)
    ensures
        r@ == ffmpeg_input(file_path@),
{
    let cs = text::chars_of(file_path);
    if cs.len() > 0 && cs[0] == '-' {
        text::join2("./", file_path)
    } else {
        String::from_str(file_path)
    }
}

/// Whether `c` can stand in the name of a protocol.
pub open spec fn is_protocol_char(c: char) -> bool {
    ||| 'a' <= c <= 'z'
    ||| 'A' <= c <= 'Z'
    ||| '0' <= c <= '9'
    ||| c == '+'
    ||| c == '-'
    ||| c == '.'
}

/// Whether a path starts with the name of a protocol and a colon. The name starts with a
/// letter; a letter alone is that of a drive.
pub open spec fn has_protocol(path: Seq<char>) -> bool {
    exists|k: int|
        2 <= k < path.len() && path[k] == ':' && is_protocol_name(#[trigger] path.take(k))
}

/// Whether this is the name of a protocol.
pub open spec fn is_protocol_name(name: Seq<char>) -> bool {
    &&& name.len() > 0
    &&& 'a' <= name[0] <= 'z' || 'A' <= name[0] <= 'Z'
    &&& forall|i: int| 0 <= i < name.len() ==> is_protocol_char(#[trigger] name[i])
}

/// Whether `c` can stand in the name of a protocol.
fn protocol_char(c: char) -> (r: bool)
    ensures
        r == is_protocol_char(c),
{
    ('a' <= c && c <= 'z') || ('A' <= c && c <= 'Z') || ('0' <= c && c <= '9') || c == '+' || c
        == '-' || c == '.'
}

/// Whether a path starts with the name of a protocol and a colon.
fn starts_with_protocol(path: &str) -> (r: bool)
    ensures
        r == has_protocol(path@),
{
    let cs = text::chars_of(path);
    if cs.len() == 0 || !(('a' <= cs[0] && cs[0] <= 'z') || ('A' <= cs[0] && cs[0] <= 'Z')) {
        assert(forall|k: int| 2 <= k < cs.len() ==> (#[trigger] cs@.take(k))[0] == cs@[0]);
        return false;
    }
    let mut n: usize = 0;
    while n < cs.len() && protocol_char(cs[n])
        invariant
            n <= cs.len(),
            forall|i: int| 0 <= i < n ==> is_protocol_char(#[trigger] cs@[i]),
        decreases cs.len() - n,
    {
        n += 1;
    }
    let found = n >= 2 && n < cs.len() && cs[n] == ':';
    proof {
        if found {
            assert(is_protocol_name(cs@.take(n as int)));
        }
        if has_protocol(cs@) {
            let k = choose|k: int|
                2 <= k < cs@.len() && cs@[k] == ':' && is_protocol_name(#[trigger] cs@.take(k));
            if n < k {
                assert(is_protocol_char(cs@.take(k)[n as int]));
            }
            if k < n {
                assert(is_protocol_char(cs@[k]));
            }
        }
    }
    found
}

/// Whether ffmpeg would take a path for something else than a local file.
pub open spec fn is_not_local(path: Seq<char>) -> bool {
    text::contains_text(path, "://"@) || has_protocol(path)
}

/// What is handed to ffmpeg as the input does not start with the name of a protocol and a
/// colon, and holds no `://`, if the path it is made of is a local one.
pub proof fn law_ffmpeg_input_is_local(path: Seq<char>)
    requires
        !is_not_local(path),
    ensures
        !is_not_local(ffmpeg_input(path)),
{
    reveal_strlit("./");
    reveal_strlit("://");
    let input = ffmpeg_input(path);
    if path.len() > 0 && path[0] == '-' {
        if has_protocol(input) {
            let k = choose|k: int|
                2 <= k < input.len() && input[k] == ':' && is_protocol_name(
                    #[trigger] input.take(k),
                );
            assert(input.take(k)[0] == '.');
        }
        if text::contains_text(input, "://"@) {
            let i = choose|i: int| text::occurs_at(input, "://"@, i);
            assert(input.subrange(i, i + 3)[0] == ':');
            assert(i >= 2);
            assert(path.subrange(i - 2, i + 1) =~= input.subrange(i, i + 3));
            assert(text::occurs_at(path, "://"@, i - 2));
        }
    }
}

/// What is handed to ffmpeg as the input is never an option.
pub proof fn law_ffmpeg_input_is_no_option(path: Seq<char>)
    ensures
        ffmpeg_input(path).len() > 0 ==> ffmpeg_input(path)[0] != '-',
{
    reveal_strlit("./");
}

/// The arguments that make ffmpeg put a frame of the video `input` into the file `output`.
pub open spec fn ffmpeg_args(input: Seq<char>, output: Seq<char>) -> Seq<Seq<char>> {
    seq![
        "-ss"@,
        "0.1"@,
        "-i"@,
        input,
        "-frames:v"@,
        "1"@,
        "-vf"@,
        "scale=320:180:force_original_aspect_ratio=decrease"@,
        "-q:v"@,
        "2"@,
        "-y"@,
        output,
    ]
}

/// What ffmpeg did.
#[derive(Debug)]
pub enum FfmpegRun {
    /// It could not be started; holds the system's own words.
    NotStarted(String),
    /// It ended.
    Ended {
        /// With success.
        success: bool,
        /// Its exit code, if it has one.
        code: Option<i32>,
        /// What it printed of errors.
        stderr: String,
    },
}

/// The thumbnail of a video that is being made: a frame is put into a file of its own,
/// which then becomes the thumbnail. Whatever happens, that file is to be removed at the
/// end.
#[derive(Debug)]
pub struct VideoThumbnail {
    /// The name of the thumbnail.
    pub name: String,
    /// The path of the thumbnail.
    pub path: String,
    /// The path of the file for the frame.
    pub tmp_frame: String,
    /// The arguments for ffmpeg.
    pub args: Vec<String>,
}

/// Starts to make the thumbnail of the video at `file_path`, to be stored in
/// `thumbnail_dir`. `counter`, which counts the calls, and `nanos` make the name of the file
/// for the frame. A path with `://` in it, or one that starts with the name of a protocol
/// and a colon, is refused: ffmpeg would take it for the address of something else than a
/// local file.
pub fn generate_video_thumbnail(
    file_path: &str,
    thumbnail_dir: &str,
    counter: &mut u64,
    nanos: u128,
) -> (r: Result<VideoThumbnail, MirrorStarError>)
    ensures
        *final(counter) == if is_not_local(file_path@) {
            *old(counter)
        } else {
            next_counter(*old(counter))
        },
        if text::contains_text(file_path@, "://"@) {
            r matches Err(e) && e@ == (
                ErrorKind::InvalidPath,
                "generate_video_thumbnail 拒绝非本地路径（含 '://'）："@ + file_path@,
            )
        } else if has_protocol(file_path@) {
            r matches Err(e) && e@ == (
                ErrorKind::InvalidPath,
                "generate_video_thumbnail 拒绝非本地路径（含协议前缀）："@ + file_path@,
            )
        } else {
            r matches Ok(v) && v.name@ == thumbnail_name(file_path@) && v.path@ == paths::joined(
                thumbnail_dir@,
                v.name@,
            ) && v.tmp_frame@ == paths::joined(
                thumbnail_dir@,
                tmp_frame_name(file_path@, *old(counter) as nat, nanos as nat),
            ) && v.args@.map_values(|s: String| s@) == ffmpeg_args(
                ffmpeg_input(file_path@),
                v.tmp_frame@,
            )
        },
{
    if text::text_contains(file_path, "://") {
        return Err(
            MirrorStarError::InvalidPath {
                reason: text::join2(
                    "generate_video_thumbnail 拒绝非本地路径（含 '://'）：",
                    file_path,
                ),
            },
        );
    }
    if starts_with_protocol(file_path) {
        return Err(
            MirrorStarError::InvalidPath {
                reason: text::join2(
                    "generate_video_thumbnail 拒绝非本地路径（含协议前缀）：",
                    file_path,
                ),
            },
        );
    }
    let frame_name = tmp_frame_name_from_path(file_path, counter, nanos);
    let tmp_frame = paths::join(thumbnail_dir, frame_name.as_str());
    let name = thumbnail_name_from_path(file_path);
    let path = paths::join(thumbnail_dir, name.as_str());
    let mut args: Vec<String> = Vec::new();
    args.push(String::from_str("-ss"));
    args.push(String::from_str("0.1"));
    args.push(String::from_str("-i"));
    args.push(escape_ffmpeg_input(file_path));
    args.push(String::from_str("-frames:v"));
    args.push(String::from_str("1"));
    args.push(String::from_str("-vf"));
    args.push(String::from_str("scale=320:180:force_original_aspect_ratio=decrease"));
    args.push(String::from_str("-q:v"));
    args.push(String::from_str("2"));
    args.push(String::from_str("-y"));
    args.push(String::from_str(tmp_frame.as_str()));
    assert(args@.map_values(|s: String| s@) =~= ffmpeg_args(
        ffmpeg_input(file_path@),
        tmp_frame@,
    ));
    Ok(VideoThumbnail { name, path, tmp_frame, args })
}

impl VideoThumbnail {
    /// Whether ffmpeg has put the frame into its file. If not, an error with its exit code,
    /// or -1 if it has none, and the start of what it printed.
    pub fn on_run(&self, run: FfmpegRun) -> (r: Result<(), MirrorStarError>)
        ensures
            match run {
                FfmpegRun::NotStarted(e) => r matches Err(x) && x@ == (
                    ErrorKind::ImageDecode,
                    "调用 ffmpeg 失败: "@ + e@,
                ),
                FfmpegRun::Ended { success, code, stderr } => if success {
                    r is Ok
                } else {
                    let shown: int = match code {
                        Some(c) => c as int,
                        None => -1,
                    };
                    r matches Err(x) && x@ == (
                        ErrorKind::ImageDecode,
                        "ffmpeg 抽帧失败 (exit "@ + text::signed_decimal(shown) + "): "@
                            + text::prefix_of(stderr@, FFMPEG_ERROR_CHARS as int),
                    )
                },
            },
    {
        match run {
            FfmpegRun::NotStarted(e) => Err(
                MirrorStarError::ImageDecode(text::join2("调用 ffmpeg 失败: ", e.as_str())),
            ),
            FfmpegRun::Ended { success, code, stderr } => {
                if success {
                    return Ok(());
                }
                let shown: i64 = match code {
                    Some(c) => c as i64,
                    None => -1,
                };
                let mut s = String::from_str("ffmpeg 抽帧失败 (exit ");
                s.append(text::signed_decimal_text(shown).as_str());
                s.append("): ");
                s.append(text::first_chars(stderr.as_str(), FFMPEG_ERROR_CHARS).as_str());
                Err(MirrorStarError::ImageDecode(s))
            },
        }
    }

    /// The name of the thumbnail once its file is there. `moved` says how giving the frame's
    /// file its new name went; if that failed, `copy` copies it.
    pub fn on_moved<F: FnOnce() -> Result<(), String>>(
        self,
        moved: Result<(), String>,
        copy: F,
    ) -> (r: Result<String, MirrorStarError>)
        requires
            moved is Err ==> copy.requires(()),
        ensures
            match moved {
                Ok(()) => r matches Ok(n) && n@ == self.name@,
                Err(e) => exists|copied: Result<(), String>| #[trigger]
                    copy.ensures((), copied) && match copied {
                        Ok(()) => r matches Ok(n) && n@ == self.name@,
                        Err(c) => r matches Err(x) && x@ == (
                            ErrorKind::ImageDecode,
                            "缩略图文件落盘失败: rename="@ + e@ + ", copy="@ + c@,
                        ),
                    },
            },
    {
        if let Err(e) = moved {
            let copied = copy();
            let ghost outcome = copied;
            assert(copy.ensures((), outcome));
            if let Err(c) = copied {
                let mut s = String::from_str("缩略图文件落盘失败: rename=");
                s.append(e.as_str());
                s.append(", copy=");
                s.append(c.as_str());
                return Err(MirrorStarError::ImageDecode(s));
            }
        }
        Ok(self.name)
    }
}

/// Which extensions stand for which format of images.
pub proof fn law_image_formats(ext: Seq<char>)
    ensures
        format_of_extension(ext) == Some(ImageFormat::Jpeg) <==> ext == "jpg"@ || ext == "jpeg"@,
        format_of_extension(ext) == Some(ImageFormat::Png) <==> ext == "png"@,
        format_of_extension(ext) == Some(ImageFormat::Gif) <==> ext == "gif"@,
        format_of_extension(ext) == Some(ImageFormat::Bmp) <==> ext == "bmp"@,
        format_of_extension(ext) == Some(ImageFormat::WebP) <==> ext == "webp"@,
        format_of_extension(ext) == Some(ImageFormat::Tiff) <==> ext == "tiff"@ || ext == "tif"@,
        format_of_extension(ext) == Some(ImageFormat::Ico) <==> ext == "ico"@,
{
    reveal_strlit("jpg");
    reveal_strlit("jpeg");
    reveal_strlit("png");
    reveal_strlit("gif");
    reveal_strlit("bmp");
    reveal_strlit("webp");
    reveal_strlit("tiff");
    reveal_strlit("tif");
    reveal_strlit("ico");
    assert("jpg"@[0] == 'j' && "jpeg"@[0] == 'j' && "png"@[0] == 'p' && "gif"@[0] == 'g' && "bmp"@[0]
        == 'b' && "webp"@[0] == 'w' && "tiff"@[0] == 't' && "tif"@[0] == 't' && "ico"@[0] == 'i');
}

/// A file may be read up to 50 megabytes if it is uncompressed, which BMP and TIFF files are,
/// and else up to 100.
pub proof fn law_size_limits(format: Option<ImageFormat>)
    ensures
        format == Some(ImageFormat::Bmp) || format == Some(ImageFormat::Tiff) ==> size_limit(format)
            == 50 * 1024 * 1024,
        format != Some(ImageFormat::Bmp) && format != Some(ImageFormat::Tiff) ==> size_limit(format)
            == 100 * 1024 * 1024,
{
}

/// A file is read only if its size is known and within the limit of its format.
pub proof fn law_may_read(path: Seq<char>, file_size: Result<u64, String>)
    ensures
        may_read(path, file_size) ==> (file_size matches Ok(n) && n <= 100 * 1024 * 1024),
        file_size matches Ok(n) ==> n <= 50 * 1024 * 1024 ==> may_read(path, file_size),
        file_size matches Ok(n) ==> 50 * 1024 * 1024 < n <= 100 * 1024 * 1024 ==> (may_read(
            path,
            file_size,
        ) <==> !uncompressed(format_of_extension(paths::lower_extension(path)))),
{
}

/// A thumbnail is made of every image that is not empty, at most 20000 wide and high, and
/// whose pixels take at most 200 megabytes at four bytes each; a larger one is refused. One that is at most 320 wide
/// and 180 high is taken as it is, a larger one is scaled to that; either is written as JPEG
/// of quality 85.
pub proof fn law_thumbnail_made(image: image::DynamicImage, r: Result<Vec<u8>, MirrorStarError>)
    requires
        is_made_of(image, r),
    ensures
        ({
            let (w, h) = raster::picture_size(image);
            let small = w <= 320 && h <= 180;
            let within = w <= 20000 && h <= 20000 && w * h * 4 <= 200 * 1024 * 1024;
            &&& within && w > 0 && h > 0 ==> r is Ok
            &&& small && (w == 0 || h == 0) ==> r is Err
            &&& !within ==> (r matches Err(e) && e@.0 == ErrorKind::ImageDecode)
            &&& small ==> (r matches Ok(bytes) ==> bytes@ == raster::jpeg_file(
                raster::picture_samples(image),
                w,
                h,
                85,
            ))
            &&& !small ==> (r matches Ok(bytes) ==> ({
                let ((tw, th), samples) = raster::scaled_picture(image, 320, 180);
                bytes@ == raster::jpeg_file(samples, tw, th, 85)
            }))
        }),
{
    let (w, h) = raster::picture_size(image);
    if w > 0 && h > 0 && w <= 20000 && h <= 20000 && w * h * 4 <= 200 * 1024 * 1024 {
        law_thumbnail_fits((w, h), thumbnail_picture(image).0);
    }
}

/// What ffmpeg is told does not depend on the two files but for the places where they are
/// named: the input behind "-i", the output at the end.
pub proof fn law_ffmpeg_args(
    input: Seq<char>,
    output: Seq<char>,
    other_input: Seq<char>,
    other_output: Seq<char>,
)
    ensures
        ({
            let a = ffmpeg_args(input, output);
            let b = ffmpeg_args(other_input, other_output);
            &&& a.len() == 12 && b.len() == 12
            &&& a[2] == "-i"@ && a[3] == input
            &&& a.last() == output
            &&& forall|i: int| 0 <= i < 11 && i != 3 ==> #[trigger] a[i] == b[i]
        }),
{
}

/// A path that would be taken for an option is named from the working directory instead; any
/// other is named as it is.
pub proof fn law_ffmpeg_input(path: Seq<char>)
    ensures
        path.len() > 0 && path[0] == '-' ==> ffmpeg_input(path) == seq!['.', '/'] + path,
        path.len() == 0 || path[0] != '-' ==> ffmpeg_input(path) == path,
{
    reveal_strlit("./");
    assert("./"@ =~= seq!['.', '/']);
}

/// A path that begins with the name of a protocol, two or more letters, digits and signs of
/// which the first is a letter, and a colon is not local, whatever follows. One letter and a
/// colon, as of a drive, begin no protocol.
pub proof fn law_protocols(name: Seq<char>, rest: Seq<char>)
    requires
        name.len() > 0,
        65 <= name[0] as int <= 90 || 97 <= name[0] as int <= 122,
        forall|i: int|
            0 <= i < name.len() ==> 65 <= name[i] as int <= 90 || 97 <= name[i] as int <= 122 || 48
                <= name[i] as int <= 57 || name[i] == '+' || name[i] == '-' || name[i] == '.',
    ensures
        name.len() >= 2 ==> is_not_local(name + seq![':'] + rest),
        name.len() == 1 ==> !has_protocol(name + seq![':'] + rest),
{
    let path = name + seq![':'] + rest;
    let n = name.len() as int;
    assert(path.take(n) =~= name);
    assert(path[n] == ':');
    if n >= 2 {
        assert(is_protocol_name(path.take(n)));
        assert(has_protocol(path));
    } else if has_protocol(path) {
        let k = choose|k: int|
            2 <= k < path.len() && path[k] == ':' && is_protocol_name(#[trigger] path.take(k));
        assert(is_protocol_char(path.take(k)[1]));
        assert(path.take(k)[1] == ':');
        assert(false);
    }
}

/// A path with neither a colon nor "://" in it is local.
pub proof fn law_no_protocol(path: Seq<char>)
    requires
        !path.contains(':'),
    ensures
        !is_not_local(path),
{
    reveal_strlit("://");
    if text::contains_text(path, "://"@) {
        let i = choose|i: int| text::occurs_at(path, "://"@, i);
        assert(path.subrange(i, i + 3)[0] == ':');
        assert(path.contains(path[i]));
    }
    if has_protocol(path) {
        let k = choose|k: int|
            2 <= k < path.len() && path[k] == ':' && is_protocol_name(#[trigger] path.take(k));
        assert(path.contains(path[k]));
    }
}

/// What comes of a decoded image: a failure to decode is reported in its own words; else the
/// thumbnail is stored under the name that the source's path leads to, in the directory for
/// thumbnails, and holds the image. A failure is always one of the image.
pub proof fn law_thumbnail_stored(
    decoded: Result<image::DynamicImage, String>,
    source: Seq<char>,
    dir: Seq<char>,
    r: Result<Thumbnail, MirrorStarError>,
)
    requires
        is_stored_as(decoded, source, dir, r),
    ensures
        decoded matches Err(e) ==> (r matches Err(x) && x@ == (ErrorKind::ImageDecode, e@)),
        r matches Err(x) ==> x@.0 == ErrorKind::ImageDecode,
        r matches Ok(t) ==> {
            &&& decoded is Ok && is_made_of(decoded->Ok_0, Ok(t.bytes))
            &&& t.name@ == thumbnail_name(source)
            &&& t.path@ == paths::joined(dir, t.name@)
        },
{
}

/// A refusal for the size of a file tells that size: two that read the same are of files of
/// one size. A refusal for the size of an image tells its width and its height.
pub proof fn law_refusals_tell_sizes(
    format: Option<ImageFormat>,
    size: nat,
    other_size: nat,
    width: nat,
    height: nat,
    other_width: nat,
    other_height: nat,
)
    ensures
        file_too_large_text(format, size) == file_too_large_text(format, other_size) ==> size
            == other_size,
        dimensions_text(width, height) == dimensions_text(other_width, other_height) ==> width
            == other_width && height == other_height,
{
    reveal_strlit("x");
    reveal_strlit("）");
    reveal_strlit(" 字节）");
    if file_too_large_text(format, size) == file_too_large_text(format, other_size) {
        let head = "图像文件超过 "@ + text::decimal((size_limit(format) / MEGABYTE) as nat) + "MB 上限"@
            + (if uncompressed(format) {
            "（未压缩格式 BMP/TIFF）"@
        } else {
            Seq::<char>::empty()
        }) + "（当前 "@;
        let end = " 字节）"@;
        let s = file_too_large_text(format, size);
        let t = file_too_large_text(format, other_size);
        assert(s =~= head + (text::decimal(size) + end));
        assert(t =~= head + (text::decimal(other_size) + end));
        assert(s.skip(head.len() as int) =~= text::decimal(size) + end);
        assert(t.skip(head.len() as int) =~= text::decimal(other_size) + end);
        text::law_decimal_ends(size, other_size, end, end);
    }
    if dimensions_text(width, height) == dimensions_text(other_width, other_height) {
        let head = "图像尺寸超过 "@ + text::decimal(MAX_IMAGE_DIMENSION as nat) + "x"@ + text::decimal(
            MAX_IMAGE_DIMENSION as nat,
        ) + " 上限（当前 "@;
        let a = "x"@ + (text::decimal(height) + "）"@);
        let b = "x"@ + (text::decimal(other_height) + "）"@);
        let s = dimensions_text(width, height);
        let t = dimensions_text(other_width, other_height);
        assert(s =~= head + (text::decimal(width) + a));
        assert(t =~= head + (text::decimal(other_width) + b));
        assert(s.skip(head.len() as int) =~= text::decimal(width) + a);
        assert(t.skip(head.len() as int) =~= text::decimal(other_width) + b);
        text::law_decimal_ends(width, other_width, a, b);
        assert(a.skip(1) =~= text::decimal(height) + "）"@);
        assert(b.skip(1) =~= text::decimal(other_height) + "）"@);
        text::law_decimal_ends(height, other_height, "）"@, "）"@);
    }
}

/// A reader is told the extension of a file as it is, so that it knows the format, unless the
/// extension is empty or is more than a name.
pub proof fn law_reader_name(path: Seq<char>)
    ensures
        paths::extension(path) matches Some(e) ==> e.len() > 0 && !e.contains('/') && !e.contains(
            '\\',
        ) ==> reader_name(path) == "image."@ + e,
        paths::extension(path) is None ==> reader_name(path) == "image"@,
{
    if let Some(e) = paths::extension(path) {
        if !e.contains('/') && !e.contains('\\') {
            assert forall|i: int| 0 <= i < e.len() implies !paths::is_separator(#[trigger] e[i]) by {
                assert(e.contains(e[i]));
            }
        }
    }
}

/// The name of a frame tells the hash of the path that it was made for, and ends as that of a
/// JPEG file.
pub proof fn law_tmp_frame_tells_path(
    p: Seq<char>,
    counter_p: nat,
    nanos_p: nat,
    q: Seq<char>,
    counter_q: nat,
    nanos_q: nat,
)
    ensures
        tmp_frame_name(p, counter_p, nanos_p) == tmp_frame_name(q, counter_q, nanos_q)
            ==> thumbnail_name(p) == thumbnail_name(q),
        seq!['.', 'j', 'p', 'g'].is_suffix_of(tmp_frame_name(p, counter_p, nanos_p)),
{
    reveal_strlit("_tmp_frame_");
    reveal_strlit(".jpg");
    text::law_hex_len(fnv1a(encode_utf8(p)) as nat, 16, false);
    text::law_hex_len(fnv1a(encode_utf8(q)) as nat, 16, false);
    let x = tmp_frame_name(p, counter_p, nanos_p);
    let y = tmp_frame_name(q, counter_q, nanos_q);
    assert(x.subrange(11, 27) =~= path_hex(p));
    assert(y.subrange(11, 27) =~= path_hex(q));
    assert(".jpg"@ =~= seq!['.', 'j', 'p', 'g']);
    assert(x.skip(x.len() - 4) =~= ".jpg"@);
}

/// Of what ffmpeg printed the first 500 characters are told, or all if there are fewer.
pub proof fn law_ffmpeg_words_told(printed: Seq<char>)
    ensures
        printed.len() <= 500 ==> text::prefix_of(printed, FFMPEG_ERROR_CHARS as int) == printed,
        printed.len() > 500 ==> text::prefix_of(printed, FFMPEG_ERROR_CHARS as int) == printed.take(
            500,
        ),
{
    assert(printed.take(printed.len() as int) =~= printed);
}

} // verus!
