//! Owned pixel buffers: the raw capture and the grayscale image derived
//! from it. Each buffer lives for one tick; nothing is reused across
//! ticks.

use vstd::prelude::*;

verus! {

/// An owned RGBA capture: four bytes per pixel, row-major.
#[derive(Debug, Clone)]
pub struct RawImage {
    /// Width in pixels.
    pub width: u32,
    /// Height in pixels.
    pub height: u32,
    /// RGBA bytes, `4 * width * height` of them.
    pub pixels: Vec<u8>,
}

impl RawImage {
    /// The buffer has exactly four bytes per pixel.
    pub open spec fn wf(self) -> bool {
        self.pixels@.len() == 4 * self.width * self.height
    }

    /// Builds a raw image from its parts, when the buffer length matches
    /// the dimensions.
    pub fn from_parts(width: u32, height: u32, pixels: Vec<u8>) -> (r: Option<RawImage>)
        ensures
            r matches Some(img) ==> img.width == width && img.height == height && img.pixels@
                == pixels@ && img.wf(),
            r is None <==> pixels@.len() != 4 * width * height,
    {
        proof {
            assert((4 * (width as int)) * (height as int) < 0x40000000000000000)
                by (nonlinear_arith)
                requires
                    width <= 0xffffffffu32,
                    height <= 0xffffffffu32,
            ;
        }
        let expected = 4u128 * (width as u128) * (height as u128);
        if (pixels.len() as u128) == expected {
            Some(RawImage { width, height, pixels })
        } else {
            None
        }
    }
}

/// An owned grayscale image: one byte per pixel, row-major.
#[derive(Debug, Clone)]
pub struct GrayImage {
    /// Width in pixels.
    pub width: u32,
    /// Height in pixels.
    pub height: u32,
    /// Intensity bytes, `width * height` of them.
    pub pixels: Vec<u8>,
}

impl GrayImage {
    /// The buffer has exactly one byte per pixel.
    pub open spec fn wf(self) -> bool {
        self.pixels@.len() == self.width * self.height
    }
}

} // verus!
