//! Turning a file's bytes into a raster: layered image files through the
//! composite decoder, every other format through the general decoder.

use vstd::prelude::*;
use crate::jpeg::{extension_is, has_extension};
use crate::layered::{load_psd_composite, spec_decode, DecodeError};
use crate::raster::RasterImage;

verus! {

/// Why a file's bytes gave no image.
#[derive(Clone, Copy, Debug, PartialEq, Eq, Structural)]
pub enum LoadError {
    /// A layered image file whose composite could not be decoded.
    Layered(DecodeError),
    /// Any other file that the general decoder could not read.
    Undecodable,
}

/// Pixels that the general raster decoder reads from a file's bytes: width,
/// height and RGBA bytes, or `None` when it cannot read them.
pub uninterp spec fn raster_pixels(d: Seq<u8>) -> Option<(u32, u32, Seq<u8>)>;

/// Relies on `image::load_from_memory`, which picks the format from the
/// bytes, and `DynamicImage::to_rgba8`: the pixels depend on the bytes
/// alone, four bytes per pixel, row-major.
#[verifier::external_body]
fn decode_raster(d: &[u8]) -> (r: Option<RasterImage>)
    ensures
        match raster_pixels(d@) {
            Some((w, h, px)) => r matches Some(img) && img.width == w && img.height == h && img.data@ == px && img.wf(),
            None => r is None,
        },
{
    match image::load_from_memory(d) {
        Ok(img) => {
            let rgba = img.to_rgba8();
            Some(RasterImage { width: rgba.width(), height: rgba.height(), data: rgba.into_raw() })
        },
        Err(_) => None,
    }
}

/// Decodes the bytes of the file `name`: by the layered-file decoder when
/// its extension is `psd` (any case), else by the general decoder.
pub fn load_image(name: &str, data: &[u8]) -> (r: Result<RasterImage, LoadError>)
    ensures
        r matches Ok(img) ==> img.wf(),
        extension_is(name@, "psd"@) ==> match spec_decode(data@) {
            Ok((w, h, px)) => r matches Ok(img) && img.width == w && img.height == h && img.data@ == px,
            Err(e) => r == Err::<RasterImage, LoadError>(LoadError::Layered(e)),
        },
        !extension_is(name@, "psd"@) ==> match raster_pixels(data@) {
            Some((w, h, px)) => r matches Ok(img) && img.width == w && img.height == h && img.data@ == px,
            None => r == Err::<RasterImage, LoadError>(LoadError::Undecodable),
        },
{
    if has_extension(name, "psd") {
        match load_psd_composite(data) {
            Ok(img) => Ok(img),
            Err(e) => Err(LoadError::Layered(e)),
        }
    } else {
        match decode_raster(data) {
            Some(img) => Ok(img),
            None => Err(LoadError::Undecodable),
        }
    }
}

} // verus!
