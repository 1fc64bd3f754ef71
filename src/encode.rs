use image::codecs::png::PngEncoder;
use image::{ColorType, ImageEncoder};
use vstd::prelude::*;

verus! {

#[verifier::external_type_specification]
#[verifier::external_body]
pub struct ExImageError(image::ImageError);

/// The PNG encoding of an 8-bit RGBA raster, or `None` where the encoder
/// refuses the raster.
pub uninterp spec fn png_of(width: u32, height: u32, pixels: Seq<u8>) -> Option<Seq<u8>>;

/// Why a panorama could not be produced.
#[derive(Clone, Copy, Debug, PartialEq, Eq, Structural)]
pub enum StitchError {
    /// The PNG encoder refused the raster (a zero width or height, say).
    Encode,
}

/// Relies on `PngEncoder::write_image` of the `image` crate, through its
/// `ImageEncoder` impl: writing into a `Vec` it either fails or leaves there the
/// PNG encoding of the RGBA raster, which depends on the dimensions and samples
/// alone. It panics when the buffer is not `width * height * 4` bytes long,
/// which `requires` leaves out.
#[verifier::external_body]
pub(crate) fn write_png(width: u32, height: u32, pixels: &[u8]) -> (r: Result<Vec<u8>, image::ImageError>)
    requires
        pixels@.len() == width as int * height as int * 4,
    ensures
        r is Ok ==> png_of(width, height, pixels@) == Some(r->Ok_0@),
        r is Err ==> png_of(width, height, pixels@) is None,
{
    let mut out: Vec<u8> = Vec::new();
    PngEncoder::new(&mut out).write_image(pixels, width, height, ColorType::Rgba8)?;
    Ok(out)
}

} // verus!
