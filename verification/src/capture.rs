//! Screen-region capture with safety bounds.
//!
//! A `CaptureRegion` names a rectangle on the display. `ScreenCapture`
//! validates the rectangle before any platform call is made: negative
//! coordinates, zero or oversized dimensions, and coordinates beyond a
//! generous virtual-desktop bound are all rejected up front.

use vstd::prelude::*;

use crate::pixels::RawImage;

verus! {

/// Largest width or height a capture may have, to bound memory use.
pub const MAX_CAPTURE_DIM: u32 = 2048;

/// Largest x coordinate accepted, a sanity bound on virtual-desktop extent.
pub const MAX_VIRTUAL_X: i32 = 5120;

/// Largest y coordinate accepted, a sanity bound on virtual-desktop extent.
pub const MAX_VIRTUAL_Y: i32 = 2880;

/// A rectangle on the display: top-left corner plus dimensions.
#[derive(Debug, Clone, Copy, PartialEq, Eq, Structural)]
pub struct CaptureRegion {
    /// X coordinate of the top-left corner.
    pub x: i32,
    /// Y coordinate of the top-left corner.
    pub y: i32,
    /// Width in pixels.
    pub width: u32,
    /// Height in pixels.
    pub height: u32,
}

impl CaptureRegion {
    /// A region is valid when its corner is non-negative and within the
    /// virtual-desktop bound, and both dimensions are positive and at most
    /// `MAX_CAPTURE_DIM`.
    pub open spec fn is_valid(self) -> bool {
        &&& 0 <= self.x <= MAX_VIRTUAL_X
        &&& 0 <= self.y <= MAX_VIRTUAL_Y
        &&& 0 < self.width <= MAX_CAPTURE_DIM
        &&& 0 < self.height <= MAX_CAPTURE_DIM
    }
}

/// Why a capture request was refused or failed.
#[derive(Debug, Clone, PartialEq, Eq, Structural)]
pub enum CaptureError {
    /// The region failed validation; carries the offending values.
    InvalidRegion { x: i32, y: i32, width: u32, height: u32 },
    /// The platform capture provider failed.
    CaptureFailed,
}

/// Captures the pixels of one screen region.
#[derive(Debug, Clone)]
pub struct ScreenCapture {
    /// The region this instance captures.
    pub region: CaptureRegion,
}

impl ScreenCapture {
    /// Makes a capture instance for the given region. The region is not
    /// validated here; `capture` validates it before every platform call.
    pub fn new(region: CaptureRegion) -> (r: Self)
        ensures
            r.region == region,
    {
        Self { region }
    }

    /// Tests the region against the safety bounds.
    pub fn region_is_valid(&self) -> (r: bool)
        ensures
            r == self.region.is_valid(),
    {
        let reg = self.region;
        reg.x >= 0 && reg.x <= MAX_VIRTUAL_X && reg.y >= 0 && reg.y <= MAX_VIRTUAL_Y
            && reg.width > 0 && reg.width <= MAX_CAPTURE_DIM && reg.height > 0
            && reg.height <= MAX_CAPTURE_DIM
    }

    /// Captures the region's pixels from the primary screen.
    ///
    /// The region is validated before any platform call: an invalid
    /// region fails with `InvalidRegion`, carrying the offending values,
    /// and the provider is never invoked. A successful capture is a
    /// buffer of exactly `width` by `height` pixels; anything else the
    /// provider hands back (it may clamp a region that leaves the
    /// screen, or scale it) fails with `CaptureFailed`.
    pub fn capture(&self) -> (r: Result<RawImage, CaptureError>)
        ensures
            !self.region.is_valid() ==> r == Err::<RawImage, CaptureError>(
                CaptureError::InvalidRegion {
                    x: self.region.x,
                    y: self.region.y,
                    width: self.region.width,
                    height: self.region.height,
                },
            ),
            r matches Ok(img) ==> {
                &&& self.region.is_valid()
                &&& img.width == self.region.width
                &&& img.height == self.region.height
                &&& img.wf()
            },
            self.region.is_valid() ==> (r matches Err(e) ==> e == CaptureError::CaptureFailed),
    {
        if !self.region_is_valid() {
            return Err(
                CaptureError::InvalidRegion {
                    x: self.region.x,
                    y: self.region.y,
                    width: self.region.width,
                    height: self.region.height,
                },
            );
        }
        let screens = match list_screens() {
            Some(s) => s,
            None => {
                return Err(CaptureError::CaptureFailed);
            },
        };
        if screens.len() == 0 {
            return Err(CaptureError::CaptureFailed);
        }
        let screen = &screens[0];
        match capture_area_raw(screen, self.region.x, self.region.y, self.region.width,
            self.region.height) {
            Some(parts) => {
                let (cw, ch, buf) = parts;
                Self::accept_frame(self.region, cw, ch, buf)
            },
            None => Err(CaptureError::CaptureFailed),
        }
    }

    /// Decides whether a frame the provider handed back is the one that
    /// was asked for: accepted exactly when its dimensions match the
    /// region and its buffer holds four bytes per pixel; anything else
    /// (a clamped or scaled frame, a short buffer) is `CaptureFailed`.
    pub fn accept_frame(region: CaptureRegion, cw: u32, ch: u32, buf: Vec<u8>) -> (r: Result<
        RawImage,
        CaptureError,
    >)
        ensures
            cw == region.width && ch == region.height && buf@.len() == 4 * cw * ch ==> (r matches
                Ok(img) && img.width == cw && img.height == ch && img.pixels@ == buf@),
            !(cw == region.width && ch == region.height && buf@.len() == 4 * cw * ch) ==> r
                == Err::<RawImage, CaptureError>(CaptureError::CaptureFailed),
    {
        if cw == region.width && ch == region.height {
            match RawImage::from_parts(cw, ch, buf) {
                Some(img) => Ok(img),
                None => Err(CaptureError::CaptureFailed),
            }
        } else {
            Err(CaptureError::CaptureFailed)
        }
    }

    /// Captures the whole primary screen, as used when a region is being
    /// chosen. Nothing is promised of the dimensions beyond a buffer
    /// that matches them.
    pub fn capture_full_screen() -> (r: Result<RawImage, CaptureError>)
        ensures
            r matches Ok(img) ==> img.wf(),
            r matches Err(e) ==> e == CaptureError::CaptureFailed,
    {
        let screens = match list_screens() {
            Some(s) => s,
            None => {
                return Err(CaptureError::CaptureFailed);
            },
        };
        if screens.len() == 0 {
            return Err(CaptureError::CaptureFailed);
        }
        let screen = &screens[0];
        match capture_screen_raw(screen) {
            Some(parts) => {
                let (cw, ch, buf) = parts;
                match RawImage::from_parts(cw, ch, buf) {
                    Some(img) => Ok(img),
                    None => Err(CaptureError::CaptureFailed),
                }
            },
            None => Err(CaptureError::CaptureFailed),
        }
    }
}

#[verifier::external_type_specification]
#[verifier::external_body]
pub struct ExScreen(screenshots::Screen);

/// Relies on `screenshots::Screen::all` for the list of displays. What
/// it returns depends on the machine, so nothing is promised of it.
#[verifier::external_body]
fn list_screens() -> (r: Option<Vec<screenshots::Screen>>) {
    screenshots::Screen::all().ok()
}

/// Relies on `screenshots::Screen::capture_area` for the pixel transfer.
/// The provider may clamp or scale the request, so nothing is promised;
/// the caller checks the dimensions and the buffer length itself.
#[verifier::external_body]
fn capture_area_raw(
    screen: &screenshots::Screen,
    x: i32,
    y: i32,
    width: u32,
    height: u32,
) -> (r: Option<(u32, u32, Vec<u8>)>) {
    match screen.capture_area(x, y, width, height) {
        Ok(img) => Some((img.width(), img.height(), img.into_raw())),
        Err(_) => None,
    }
}

/// Relies on `screenshots::Screen::capture` for a whole-screen grab.
/// Nothing is promised; the caller checks the buffer length itself.
#[verifier::external_body]
fn capture_screen_raw(screen: &screenshots::Screen) -> (r: Option<(u32, u32, Vec<u8>)>) {
    match screen.capture() {
        Ok(img) => Some((img.width(), img.height(), img.into_raw())),
        Err(_) => None,
    }
}

} // verus!
