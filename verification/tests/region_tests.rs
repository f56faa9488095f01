use screen_text_monitor::CaptureError;
use screen_text_monitor::CaptureRegion;
use screen_text_monitor::RawImage;
use screen_text_monitor::ScreenCapture;

fn region(x: i32, y: i32, width: u32, height: u32) -> CaptureRegion {
    CaptureRegion { x, y, width, height }
}

#[test]
fn valid_region_capture_shape_or_typed_error() {
    // A valid region either yields a buffer of exactly width x height
    // pixels or the typed provider error; it never panics.
    let cap = ScreenCapture::new(region(0, 0, 100, 50));
    match cap.capture() {
        Ok(img) => {
            assert_eq!(img.width, 100);
            assert_eq!(img.height, 50);
            assert_eq!(img.pixels.len(), 4 * 100 * 50);
        }
        Err(e) => assert_eq!(e, CaptureError::CaptureFailed),
    }
}

#[test]
fn largest_valid_region_is_accepted() {
    let cap = ScreenCapture::new(region(5120, 2880, 2048, 2048));
    match cap.capture() {
        Ok(img) => {
            assert_eq!(img.width, 2048);
            assert_eq!(img.height, 2048);
        }
        Err(e) => assert_eq!(e, CaptureError::CaptureFailed),
    }
}

#[test]
fn negative_coordinates_are_rejected() {
    let cap = ScreenCapture::new(region(-1, 10, 100, 100));
    let r = cap.capture();
    assert_eq!(
        r.unwrap_err(),
        CaptureError::InvalidRegion { x: -1, y: 10, width: 100, height: 100 }
    );
}

#[test]
fn zero_dimensions_are_rejected() {
    let cap = ScreenCapture::new(region(0, 0, 0, 100));
    assert_eq!(
        cap.capture().unwrap_err(),
        CaptureError::InvalidRegion { x: 0, y: 0, width: 0, height: 100 }
    );
    let cap = ScreenCapture::new(region(0, 0, 100, 0));
    assert_eq!(
        cap.capture().unwrap_err(),
        CaptureError::InvalidRegion { x: 0, y: 0, width: 100, height: 0 }
    );
}

#[test]
fn oversized_dimensions_are_rejected() {
    let cap = ScreenCapture::new(region(0, 0, 2049, 100));
    assert_eq!(
        cap.capture().unwrap_err(),
        CaptureError::InvalidRegion { x: 0, y: 0, width: 2049, height: 100 }
    );
    let cap = ScreenCapture::new(region(0, 0, 100, 2049));
    assert_eq!(
        cap.capture().unwrap_err(),
        CaptureError::InvalidRegion { x: 0, y: 0, width: 100, height: 2049 }
    );
}

#[test]
fn coordinates_beyond_virtual_desktop_are_rejected() {
    let cap = ScreenCapture::new(region(5121, 0, 100, 100));
    assert_eq!(
        cap.capture().unwrap_err(),
        CaptureError::InvalidRegion { x: 5121, y: 0, width: 100, height: 100 }
    );
    let cap = ScreenCapture::new(region(0, 2881, 100, 100));
    assert_eq!(
        cap.capture().unwrap_err(),
        CaptureError::InvalidRegion { x: 0, y: 2881, width: 100, height: 100 }
    );
}

#[test]
fn full_screen_capture_does_not_panic() {
    match ScreenCapture::capture_full_screen() {
        Ok(img) => assert_eq!(img.pixels.len(), 4 * img.width as usize * img.height as usize),
        Err(e) => assert_eq!(e, CaptureError::CaptureFailed),
    }
}

#[test]
fn raw_image_from_parts_checks_length() {
    let img = RawImage::from_parts(2, 2, vec![0u8; 16]);
    assert!(img.is_some());
    let img = img.unwrap();
    assert_eq!(img.width, 2);
    assert_eq!(img.height, 2);

    assert!(RawImage::from_parts(2, 2, vec![0u8; 15]).is_none());
    assert!(RawImage::from_parts(2, 2, vec![0u8; 17]).is_none());
}
