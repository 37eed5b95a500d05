use vstd::prelude::*;
use crate::errors::ViewerError;

verus! {

/// A decoded image: pixel dimensions and the 8-bit-per-channel RGBA
/// buffer, four bytes per pixel, ready for texture upload.
pub struct DecodedImage {
    pub width: u32,
    pub height: u32,
    pub rgba: Vec<u8>,
}

impl DecodedImage {
    /// The buffer holds exactly four bytes for every pixel.
    pub open spec fn wf(&self) -> bool {
        self.rgba@.len() == 4 * (self.width as int) * (self.height as int)
    }
}

/// What decoding a byte string yields — a function of the bytes alone:
/// `None` when the bytes are not a decodable image, else the pixel
/// width, the pixel height and the RGBA bytes.
pub uninterp spec fn decoded_of(bytes: Seq<u8>) -> Option<(u32, u32, Seq<u8>)>;

#[verifier::external_type_specification]
#[verifier::external_body]
pub struct ExImageError(image::ImageError);

/// Relies on image::load_from_memory and DynamicImage::to_rgba8:
/// whether bytes decode, and to which pixels, depends on the bytes
/// alone, and the RGBA8 buffer holds four bytes per pixel.
#[verifier::external_body]
fn decode_rgba(bytes: &Vec<u8>) -> (r: Result<DecodedImage, image::ImageError>)
    ensures
        r is Ok <==> decoded_of(bytes@) is Some,
        r matches Ok(img) ==> decoded_of(bytes@) == Some((img.width, img.height, img.rgba@))
            && img.rgba@.len() == 4 * (img.width as int) * (img.height as int),
{
    match image::load_from_memory(bytes.as_slice()) {
        Ok(decoded) => {
            let buffer = decoded.to_rgba8();
            let width = buffer.width();
            let height = buffer.height();
            Ok(DecodedImage { width, height, rgba: buffer.into_raw() })
        },
        Err(e) => Err(e),
    }
}

/// Relies on image::ImageError's variants: Unsupported marks a format
/// that could not be guessed or handled; every other variant is some
/// other decoding failure.
#[verifier::external_body]
fn error_is_unsupported(e: &image::ImageError) -> bool {
    matches!(e, image::ImageError::Unsupported(_))
}

/// Decode raw file bytes into pixel dimensions and an RGBA8 buffer.
/// Exactly the byte strings that are decodable images succeed; a
/// failure is either an unguessable format or a corrupt image, and is
/// fatal to the caller by design.
pub fn load_image(bytes: &Vec<u8>) -> (r: Result<DecodedImage, ViewerError>)
    ensures
        r is Ok <==> decoded_of(bytes@) is Some,
        r matches Ok(img) ==> decoded_of(bytes@) == Some((img.width, img.height, img.rgba@))
            && img.wf(),
        r matches Err(e) ==> e == ViewerError::FormatGuess || e == ViewerError::Decode,
{
    match decode_rgba(bytes) {
        Ok(img) => Ok(img),
        Err(e) => if error_is_unsupported(&e) {
            Err(ViewerError::FormatGuess)
        } else {
            Err(ViewerError::Decode)
        },
    }
}

} // verus!
