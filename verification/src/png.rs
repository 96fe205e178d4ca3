//! PNG, the form in which images travel: encoding clipboard pixels and
//! decoding received images, both done by the `image` crate.

use vstd::prelude::*;
use image::ImageError;

verus! {

/// `image::ImageError`, carried through verified code as an opaque value.
#[verifier::external_type_specification]
#[verifier::external_body]
pub struct ExImageError(image::ImageError);

/// The PNG file that the `image` crate's PNG encoder makes of `width` by
/// `height` RGBA pixels, or `None` when it refuses them.
pub uninterp spec fn png_of_rgba(width: u32, height: u32, rgba: Seq<u8>) -> Option<Seq<u8>>;

/// The width, height and RGBA pixels that the `image` crate decodes from a
/// PNG file, or `None` when it cannot.
pub uninterp spec fn rgba_of_png(png: Seq<u8>) -> Option<(u32, u32, Seq<u8>)>;

/// `PngEncoder::write_image` with `ExtendedColorType::Rgba8`, into a new
/// buffer.  It asserts that the pixel buffer holds exactly four bytes per
/// pixel, so that is required.  Claimed: the result is a function of the
/// arguments, an error exactly when that function gives none.
#[verifier::external_body]
pub(crate) fn encode_png(width: u32, height: u32, rgba: &[u8]) -> (r: Result<Vec<u8>, ImageError>)
    requires
        rgba@.len() == 4 * width * height,
    ensures
        match r {
            Ok(png) => png_of_rgba(width, height, rgba@) == Some(png@),
            Err(_) => png_of_rgba(width, height, rgba@) is None,
        },
{
    let mut png = Vec::new();
    let encoder = image::codecs::png::PngEncoder::new(&mut png);
    match image::ImageEncoder::write_image(encoder, rgba, width, height, image::ExtendedColorType::Rgba8) {
        Ok(()) => Ok(png),
        Err(e) => Err(e),
    }
}

/// `image::load_from_memory_with_format(.., ImageFormat::Png)`, then
/// `to_rgba8`: the dimensions and RGBA pixels of a PNG file.  Claimed: the
/// result is a function of the bytes, an error exactly when that function
/// gives none.
#[verifier::external_body]
pub(crate) fn decode_png(png: &[u8]) -> (r: Result<(u32, u32, Vec<u8>), ImageError>)
    ensures
        match r {
            Ok((w, h, rgba)) => rgba_of_png(png@) == Some((w, h, rgba@)),
            Err(_) => rgba_of_png(png@) is None,
        },
{
    match image::load_from_memory_with_format(png, image::ImageFormat::Png) {
        Ok(img) => {
            let rgba = img.to_rgba8();
            let (w, h) = rgba.dimensions();
            Ok((w, h, rgba.into_raw()))
        },
        Err(e) => Err(e),
    }
}

/// Why an image could not be converted.
#[derive(Debug)]
pub enum ImageConversionError {
    /// The clipboard's pixels could not be encoded as PNG.
    Encode(ImageError),
    /// Received image data is not a PNG file that can be decoded.
    Decode(ImageError),
}

} // verus!
