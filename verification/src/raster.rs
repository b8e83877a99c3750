//! Decoded still images as interleaved 8-bit RGB rasters.

use vstd::prelude::*;
use crate::error::TranscodeError;

verus! {

/// An image as rows of pixels, three bytes (red, green, blue) per pixel.
#[derive(Debug)]
pub struct RasterImage {
    pub width: u32,
    pub height: u32,
    pub pixels: Vec<u8>,
}

impl RasterImage {
    /// The raster holds exactly three bytes for each of its pixels.
    pub open spec fn wf(&self) -> bool {
        self.pixels@.len() == 3 * self.width * self.height
    }

    /// Wraps a pixel buffer; `None` unless it holds three bytes per pixel.
    pub fn new(width: u32, height: u32, pixels: Vec<u8>) -> (r: Option<RasterImage>)
        ensures
            r is Some <==> pixels@.len() == 3 * width * height,
            r is Some ==> r->0.width == width && r->0.height == height && r->0.pixels@
                == pixels@ && r->0.wf(),
    {
        proof {
            assert(0 <= width * height <= 0xFFFF_FFFF * 0xFFFF_FFFF) by (nonlinear_arith)
                requires
                    0 <= width <= 0xFFFF_FFFF,
                    0 <= height <= 0xFFFF_FFFF,
            {
            }
            assert(3 * width * height == 3 * (width * height)) by (nonlinear_arith);
        }
        let area: u64 = width as u64 * height as u64;
        let size: u128 = 3 * (area as u128);
        if pixels.len() as u128 == size {
            Some(RasterImage { width, height, pixels })
        } else {
            None
        }
    }
}

/// What the image decoder makes of `bytes`: width, height and RGB pixels, or
/// nothing where the format is not recognized or the data cannot be decoded.
pub uninterp spec fn decoded_image(bytes: Seq<u8>) -> Option<(nat, nat, Seq<u8>)>;

/// Decodes with `image::io::Reader`: the format is guessed from the leading
/// bytes, the image is decoded and converted to 8-bit RGB. The result is the
/// decoder's, named `decoded_image`; the buffer that `to_rgb8` returns holds
/// three bytes per pixel.
#[verifier::external_body]
fn decode_rgb8(bytes: &[u8]) -> (r: Option<RasterImage>)
    ensures
        match r {
            Some(img) => img.wf() && decoded_image(bytes@) == Some(
                (img.width as nat, img.height as nat, img.pixels@),
            ),
            None => decoded_image(bytes@) is None,
        },
{
    let reader = image::io::Reader::new(std::io::Cursor::new(bytes)).with_guessed_format().ok()?;
    let rgb = reader.decode().ok()?.to_rgb8();
    Some(RasterImage { width: rgb.width(), height: rgb.height(), pixels: rgb.into_raw() })
}

/// Decodes compressed image bytes of any recognized format to an RGB raster.
pub fn decode(bytes: &[u8]) -> (r: Result<RasterImage, TranscodeError>)
    ensures
        match r {
            Ok(img) => img.wf() && decoded_image(bytes@) == Some(
                (img.width as nat, img.height as nat, img.pixels@),
            ),
            Err(e) => e == TranscodeError::UnsupportedImageFormat && decoded_image(bytes@) is None,
        },
{
    match decode_rgb8(bytes) {
        Some(img) => Ok(img),
        None => Err(TranscodeError::UnsupportedImageFormat),
    }
}

} // verus!
