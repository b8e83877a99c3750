//! Conversion of RGB rasters to the planar, chroma-subsampled layout that the
//! video encoder takes.

use vstd::prelude::*;
use crate::error::TranscodeError;
use crate::raster::RasterImage;

verus! {

#[verifier::external_type_specification]
#[verifier::external_body]
pub struct ExYuvBuffer(openh264::formats::YUVBuffer);

/// The samples that a planar buffer holds: the luma plane, then the two
/// quarter-size chroma planes.
pub uninterp spec fn planar_samples(buffer: openh264::formats::YUVBuffer) -> Seq<u8>;

/// The planar samples that the converter computes for an RGB raster of the
/// given width and height.
pub uninterp spec fn yuv_of_rgb(width: nat, height: nat, rgb: Seq<u8>) -> Seq<u8>;

/// A frame in planar layout, ready for the encoder.
pub struct PlanarFrame {
    width: u32,
    height: u32,
    buffer: openh264::formats::YUVBuffer,
}

impl PlanarFrame {
    pub closed spec fn spec_width(&self) -> u32 {
        self.width
    }

    pub closed spec fn spec_height(&self) -> u32 {
        self.height
    }

    /// The samples of the frame.
    pub closed spec fn samples(&self) -> Seq<u8> {
        planar_samples(self.buffer)
    }

    #[verifier::when_used_as_spec(spec_width)]
    pub fn width(&self) -> (w: u32)
        ensures
            w == self.width(),
    {
        self.width
    }

    #[verifier::when_used_as_spec(spec_height)]
    pub fn height(&self) -> (h: u32)
        ensures
            h == self.height(),
    {
        self.height
    }

    pub(crate) fn buffer(&self) -> (buffer: &openh264::formats::YUVBuffer)
        ensures
            *buffer == self.spec_buffer(),
            planar_samples(*buffer) == self.samples(),
    {
        &self.buffer
    }

    /// The planar buffer that holds the frame's samples.
    pub closed spec fn spec_buffer(&self) -> openh264::formats::YUVBuffer {
        self.buffer
    }

    /// The recorded size is the size the buffer was made for.
    pub closed spec fn wf(&self) -> bool {
        planar_size(self.buffer) == (self.width as nat, self.height as nat)
    }
}

/// The width and height that a planar buffer was made for.
pub uninterp spec fn planar_size(buffer: openh264::formats::YUVBuffer) -> (nat, nat);

/// Calls `YUVBuffer::with_rgb`, which panics unless the width and the height
/// are even and `rgb` holds three bytes per pixel. The result is made for
/// the raster's size, and its samples are the converter's, named
/// `yuv_of_rgb`.
#[verifier::external_body]
fn rgb_to_yuv(raster: &RasterImage) -> (out: PlanarFrame)
    requires
        raster.wf(),
        raster.width % 2 == 0,
        raster.height % 2 == 0,
    ensures
        out.width() == raster.width,
        out.height() == raster.height,
        planar_size(out.buffer) == (raster.width as nat, raster.height as nat),
        planar_samples(out.buffer) == yuv_of_rgb(
            raster.width as nat,
            raster.height as nat,
            raster.pixels@,
        ),
{
    let buffer = openh264::formats::YUVBuffer::with_rgb(
        raster.width as usize,
        raster.height as usize,
        &raster.pixels,
    );
    PlanarFrame { width: raster.width, height: raster.height, buffer }
}

/// Whether a raster can be chroma-subsampled: both dimensions are even.
pub open spec fn subsamplable(raster: &RasterImage) -> bool {
    raster.width % 2 == 0 && raster.height % 2 == 0
}

/// Converts an RGB raster to planar layout. Rasters of odd width or height
/// are rejected.
pub fn to_planar(raster: &RasterImage) -> (r: Result<PlanarFrame, TranscodeError>)
    requires
        raster.wf(),
    ensures
        r is Ok <==> subsamplable(raster),
        r is Err ==> r == Err::<PlanarFrame, TranscodeError>(TranscodeError::OddDimensions),
        r is Ok ==> r->Ok_0.wf() && r->Ok_0.width() == raster.width && r->Ok_0.height()
            == raster.height && r->Ok_0.samples() == yuv_of_rgb(
            raster.width as nat,
            raster.height as nat,
            raster.pixels@,
        ),
{
    if raster.width % 2 != 0 || raster.height % 2 != 0 {
        return Err(TranscodeError::OddDimensions);
    }
    Ok(rgb_to_yuv(raster))
}

} // verus!
