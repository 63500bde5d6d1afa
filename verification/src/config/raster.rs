//! Decoded images, as the `image` crate holds them.
use vstd::prelude::*;
use crate::paths;
use crate::text;

verus! {

/// A decoded image.
#[verifier::external_type_specification]
#[verifier::external_body]
pub struct ExDynamicImage(image::DynamicImage);

/// The width and height of an image.
pub uninterp spec fn picture_size(image: image::DynamicImage) -> (u32, u32);

/// The pixels of an image, row by row from the top, each as its red, green and blue.
pub uninterp spec fn picture_samples(image: image::DynamicImage) -> Seq<u8>;

/// The size and the pixels of an image once it is brought to the largest size that fits
/// into a width and a height and keeps its shape.
pub uninterp spec fn scaled_picture(image: image::DynamicImage, width: u32, height: u32) -> (
    (u32, u32),
    Seq<u8>,
);

/// The width and height that an image file says its image has; the name of the file tells
/// the format.
pub uninterp spec fn stated_size(name: Seq<char>, data: Seq<u8>) -> (u32, u32);

/// An image file can be decoded within these limits; the name of the file tells the format.
pub uninterp spec fn decodes(name: Seq<char>, data: Seq<u8>, max_side: u32, max_bytes: u64) -> bool;

/// The image is what an image file shows; the name of the file tells the format.
pub uninterp spec fn is_picture_of(
    name: Seq<char>,
    data: Seq<u8>,
    image: image::DynamicImage,
) -> bool;

/// The text is what the decoders say of an image file that cannot be decoded within these
/// limits; the name of the file tells the format.
pub uninterp spec fn is_decode_error(
    name: Seq<char>,
    data: Seq<u8>,
    max_side: u32,
    max_bytes: u64,
    text: Seq<char>,
) -> bool;

/// The JPEG file for pixels given as red, green and blue, with a width, a height and a
/// quality.
pub uninterp spec fn jpeg_file(samples: Seq<u8>, width: u32, height: u32, quality: u8) -> Seq<u8>;

/// What the encoder says of a width and height that a JPEG file cannot have.
pub open spec fn jpeg_size_error(width: u32, height: u32) -> Seq<char> {
    "Format error encoding Jpeg:\nInvalid image size ("@ + text::decimal(width as nat) + " x "@
        + text::decimal(height as nat)
        + ") to encode as JPEG: width and height must be >= 1 and <= 65535"@
}

/// A name without directories.
pub open spec fn is_plain_name(name: Seq<char>) -> bool {
    forall|i: int| 0 <= i < name.len() ==> !paths::is_separator(#[trigger] name[i])
}

/// The name ends in a dot and the extension, in small or capital letters.
pub open spec fn ends_in(name: Seq<char>, ext: Seq<char>) -> bool {
    &&& name.len() > ext.len()
    &&& name[name.len() - ext.len() - 1] == '.'
    &&& name.skip(name.len() - ext.len()).map_values(|c: char| text::ascii_lower(c)) == ext
}

/// The name is that of an image file in a format that can be decoded.
pub open spec fn has_image_extension(name: Seq<char>) -> bool {
    ||| ends_in(name, "jpg"@)
    ||| ends_in(name, "jpeg"@)
    ||| ends_in(name, "jfif"@)
    ||| ends_in(name, "png"@)
    ||| ends_in(name, "apng"@)
    ||| ends_in(name, "gif"@)
    ||| ends_in(name, "webp"@)
    ||| ends_in(name, "tif"@)
    ||| ends_in(name, "tiff"@)
    ||| ends_in(name, "bmp"@)
    ||| ends_in(name, "ico"@)
}

/// `ImageFormat::from_path` and `ImageReader::decode`: decodes the bytes of an image file
/// in the format that the extension of `name` stands for, within limits. It succeeds only
/// for an extension of one of the formats built in. The image then has the size that its
/// file states; its width and its height are at most `max_side`, and its pixels, of at
/// least one byte each, take at most `max_bytes`. Whether a file can be decoded depends on
/// the arguments alone. The image is what the file shows; which pixels these are is left to
/// the decoders. On a failure the result is what the crate says of the file with these
/// limits.
#[verifier::external_body]
pub(crate) fn decode_image(name: &str, data: &[u8], max_side: u32, max_bytes: u64) -> (r: Result<
    image::DynamicImage,
    String,
>)
    requires
        is_plain_name(name@),
        max_bytes <= 0x7fff_ffff,
    ensures
        r is Ok <==> decodes(name@, data@, max_side, max_bytes),
        r matches Ok(image) ==> {
            &&& has_image_extension(name@)
            &&& is_picture_of(name@, data@, image)
            &&& picture_size(image) == stated_size(name@, data@)
            &&& picture_size(image).0 <= max_side
            &&& picture_size(image).1 <= max_side
            &&& picture_size(image).0 * picture_size(image).1 <= max_bytes
        },
        r matches Err(e) ==> is_decode_error(name@, data@, max_side, max_bytes, e@),
{
    let format = image::ImageFormat::from_path(name).map_err(|e| e.to_string())?;
    let mut limits = image::Limits::no_limits();
    limits.max_image_width = Some(max_side);
    limits.max_image_height = Some(max_side);
    limits.max_alloc = Some(max_bytes);
    let mut reader = image::ImageReader::with_format(std::io::Cursor::new(data), format);
    reader.limits(limits);
    reader.decode().map_err(|e| e.to_string())
}

/// `GenericImageView::dimensions`: the width and height of the image.
#[verifier::external_body]
pub(crate) fn image_size(image: &image::DynamicImage) -> (r: (u32, u32))
    ensures
        r == picture_size(*image),
{
    image::GenericImageView::dimensions(image)
}

/// `n` is the whole number next to `a / b`, but at least 1. Halfway between two numbers it
/// is either.
pub open spec fn is_rounded(n: u32, a: int, b: int) -> bool {
    if 2 * a < b {
        n == 1
    } else {
        n >= 1 && -b <= 2 * (n * b - a) <= b
    }
}

/// The largest size of at most `width` and `height` in which an image of size `from` keeps
/// its shape, each side rounded. For an image without pixels only the bounds are known.
pub open spec fn is_scaled_size(from: (u32, u32), width: u32, height: u32, to: (u32, u32)) -> bool {
    &&& 1 <= to.0 <= width
    &&& 1 <= to.1 <= height
    &&& from.0 > 0 && from.1 > 0 ==> if width * from.1 <= height * from.0 {
        to.0 == width && is_rounded(to.1, from.1 * width, from.0 as int)
    } else {
        to.1 == height && is_rounded(to.0, from.0 * height, from.1 as int)
    }
}

/// `DynamicImage::resize` with the triangle filter: the image at the largest size that
/// fits into `width` and `height` and keeps its shape. Its size and its pixels depend on
/// the arguments alone.
#[verifier::external_body]
pub(crate) fn scale_image(image: &image::DynamicImage, width: u32, height: u32) -> (r:
    image::DynamicImage)
    requires
        0 < width <= 4096,
        0 < height <= 4096,
    ensures
        (picture_size(r), picture_samples(r)) == scaled_picture(*image, width, height),
        is_scaled_size(picture_size(*image), width, height, picture_size(r)),
{
    image.resize(width, height, image::imageops::FilterType::Triangle)
}

/// `DynamicImage::to_rgb8` and `ImageBuffer::pixels`: the pixels as red, green and blue,
/// three bytes for each. Which bytes these are depends on the image alone.
#[verifier::external_body]
pub(crate) fn rgb_samples(image: &image::DynamicImage) -> (r: Vec<u8>)
    ensures
        r@ == picture_samples(*image),
        r@.len() == 3 * picture_size(*image).0 * picture_size(*image).1,
{
    image.to_rgb8().pixels().flat_map(|pixel| pixel.0).collect()
}

/// `JpegEncoder::new_with_quality` and `ImageEncoder::write_image`, into memory: the JPEG
/// file, which depends on the arguments alone. It fails exactly if a side is 0 or above
/// 65535, and its error, shown as text, then names the size.
#[verifier::external_body]
pub(crate) fn encode_jpeg(samples: &[u8], width: u32, height: u32, quality: u8) -> (r: Result<
    Vec<u8>,
    String,
>)
    requires
        samples@.len() == 3 * width * height,
    ensures
        match r {
            Ok(file) => 1 <= width <= 65535 && 1 <= height <= 65535 && file@ == jpeg_file(
                samples@,
                width,
                height,
                quality,
            ),
            Err(e) => !(1 <= width <= 65535 && 1 <= height <= 65535) && e@ == jpeg_size_error(
                width,
                height,
            ),
        },
{
    let mut file: Vec<u8> = Vec::new();
    let encoder = image::codecs::jpeg::JpegEncoder::new_with_quality(&mut file, quality);
    let color = image::ExtendedColorType::Rgb8;
    match image::ImageEncoder::write_image(encoder, samples, width, height, color) {
        Ok(()) => Ok(file),
        Err(e) => Err(e.to_string()),
    }
}

} // verus!
