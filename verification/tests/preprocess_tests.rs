use screen_text_monitor::GrayImage;
use screen_text_monitor::OcrEngine;
use screen_text_monitor::PreprocessError;
use screen_text_monitor::RawImage;

fn solid_rgba(width: u32, height: u32, rgba: [u8; 4]) -> Vec<u8> {
    let mut v = Vec::new();
    for _ in 0..(width as usize * height as usize) {
        v.extend_from_slice(&rgba);
    }
    v
}

#[test]
fn grayscale_and_equalization_exact_values() {
    // One row of 1000 pixels: 500 red, then 500 green. Red has luminance
    // 2126 * 255 / 10000 = 54, green 7152 * 255 / 10000 = 182. With 500
    // pixels at or below 54 the remap sends red to
    // (510 * 500 + 1000) / 2000 = 128, and green to
    // (510 * 1000 + 1000) / 2000 = 255. A single row has no interior,
    // so denoise and sharpen change nothing.
    let mut pixels = solid_rgba(500, 1, [255, 0, 0, 255]);
    pixels.extend_from_slice(&solid_rgba(500, 1, [0, 255, 0, 255]));
    let img = RawImage { width: 1000, height: 1, pixels };
    let engine = OcrEngine::new();
    let out = engine.preprocess_image(&img).unwrap();
    assert_eq!(out.width, 1000);
    assert_eq!(out.height, 1);
    assert_eq!(out.pixels.len(), 1000);
    for i in 0..500 {
        assert_eq!(out.pixels[i], 128);
    }
    for i in 500..1000 {
        assert_eq!(out.pixels[i], 255);
    }
}

#[test]
fn preprocess_is_deterministic() {
    let mut pixels = solid_rgba(600, 2, [10, 200, 30, 255]);
    pixels.extend_from_slice(&solid_rgba(600, 1, [250, 16, 99, 255]));
    let img = RawImage { width: 600, height: 3, pixels };
    let engine = OcrEngine::new();
    let a = engine.preprocess_image(&img).unwrap();
    let b = engine.preprocess_image(&img).unwrap();
    assert_eq!(a.width, b.width);
    assert_eq!(a.height, b.height);
    assert_eq!(a.pixels, b.pixels);
}

#[test]
fn narrow_image_is_upscaled_to_target_width() {
    // 500 wide: the ratio 1000/500 = 2 is within the clamp, so the
    // output is 1000 x 4.
    let img = RawImage { width: 500, height: 2, pixels: solid_rgba(500, 2, [0, 255, 0, 255]) };
    let engine = OcrEngine::new();
    let out = engine.preprocess_image(&img).unwrap();
    assert_eq!(out.width, 1000);
    assert_eq!(out.height, 4);
    assert_eq!(out.pixels.len(), 4000);
}

#[test]
fn upscale_ratio_is_clamped_high() {
    // 100 wide: 1000/100 = 10 exceeds the clamp, so the factor is 4.
    let img = RawImage { width: 100, height: 2, pixels: solid_rgba(100, 2, [9, 9, 9, 255]) };
    let engine = OcrEngine::new();
    let out = engine.preprocess_image(&img).unwrap();
    assert_eq!(out.width, 400);
    assert_eq!(out.height, 8);
}

#[test]
fn upscale_ratio_is_clamped_low() {
    // 900 wide: 1000/900 is below 3/2, so the factor is 3/2.
    let img = RawImage { width: 900, height: 2, pixels: solid_rgba(900, 2, [9, 9, 9, 255]) };
    let engine = OcrEngine::new();
    let out = engine.preprocess_image(&img).unwrap();
    assert_eq!(out.width, 1350);
    assert_eq!(out.height, 3);
}

#[test]
fn upscale_is_skipped_when_result_would_be_too_tall() {
    // 1 x 800 would scale to 4 x 3200, past the 3000 cap: left as is.
    let img = RawImage { width: 1, height: 800, pixels: solid_rgba(1, 800, [9, 9, 9, 255]) };
    let engine = OcrEngine::new();
    let out = engine.preprocess_image(&img).unwrap();
    assert_eq!(out.width, 1);
    assert_eq!(out.height, 800);
}

#[test]
fn zero_sized_image_is_refused() {
    let img = RawImage { width: 0, height: 5, pixels: Vec::new() };
    let engine = OcrEngine::new();
    assert_eq!(
        engine.preprocess_image(&img).unwrap_err(),
        PreprocessError::InvalidSize { width: 0, height: 5 }
    );
}

#[test]
fn oversized_image_is_refused() {
    let img = RawImage { width: 4097, height: 1, pixels: vec![0u8; 4 * 4097] };
    let engine = OcrEngine::new();
    assert_eq!(
        engine.preprocess_image(&img).unwrap_err(),
        PreprocessError::ImageTooLarge { width: 4097, height: 1 }
    );
}

#[test]
fn equalization_is_a_monotone_remap() {
    // A buffer spanning 0..=255 uniformly: the remap is monotone, with
    // (510 * (v + 1) + 256) / 512 at value v: 1 at 0, 128 at 127,
    // 255 at 255.
    let pixels: Vec<u8> = (0..=255u8).collect();
    let img = GrayImage { width: 256, height: 1, pixels };
    let engine = OcrEngine::new();
    let out = engine.enhance_contrast(&img);
    assert_eq!(out.pixels.len(), 256);
    for i in 1..256 {
        assert!(out.pixels[i - 1] <= out.pixels[i]);
    }
    assert_eq!(out.pixels[0], 1);
    assert_eq!(out.pixels[127], 128);
    assert_eq!(out.pixels[255], 255);
}

#[test]
fn median_filter_replaces_interior_with_median() {
    let img = GrayImage {
        width: 3,
        height: 3,
        pixels: vec![10, 20, 30, 40, 200, 60, 70, 80, 90],
    };
    let engine = OcrEngine::new();
    let out = engine.denoise_image(&img);
    assert_eq!(out.pixels, vec![10, 20, 30, 40, 60, 60, 70, 80, 90]);
}

#[test]
fn sharpen_applies_kernel_with_clamping() {
    let engine = OcrEngine::new();

    // 5 * 100 - 10 - 20 - 30 - 40 = 400, clamped to 255
    let img = GrayImage { width: 3, height: 3, pixels: vec![0, 10, 0, 20, 100, 30, 0, 40, 0] };
    let out = engine.sharpen_image(&img);
    assert_eq!(out.pixels, vec![0, 10, 0, 20, 255, 30, 0, 40, 0]);

    // 5 * 50 - 10 - 20 - 30 - 40 = 150, within range
    let img = GrayImage { width: 3, height: 3, pixels: vec![0, 10, 0, 20, 50, 30, 0, 40, 0] };
    let out = engine.sharpen_image(&img);
    assert_eq!(out.pixels, vec![0, 10, 0, 20, 150, 30, 0, 40, 0]);

    // 5 * 0 - 4 * 100 = -400, clamped to 0
    let img = GrayImage {
        width: 3,
        height: 3,
        pixels: vec![7, 100, 7, 100, 0, 100, 7, 100, 7],
    };
    let out = engine.sharpen_image(&img);
    assert_eq!(out.pixels, vec![7, 100, 7, 100, 0, 100, 7, 100, 7]);
}

#[test]
fn downscale_for_retry_fits_within_bounds() {
    let img = RawImage {
        width: 400,
        height: 200,
        pixels: solid_rgba(400, 200, [1, 2, 3, 255]),
    };
    let engine = OcrEngine::new();
    let small = engine.downscale_for_retry(&img).unwrap();
    assert_eq!(small.width, 200);
    assert_eq!(small.height, 100);
    assert_eq!(small.pixels.len(), 4 * 200 * 100);

    // a tall capture is limited by the height bound: 100 x 400 shrinks
    // by the ratio 1/4 to 25 x 100
    let img = RawImage {
        width: 100,
        height: 400,
        pixels: solid_rgba(100, 400, [5, 6, 7, 255]),
    };
    let small = engine.downscale_for_retry(&img).unwrap();
    assert_eq!(small.width, 25);
    assert_eq!(small.height, 100);
    assert_eq!(small.pixels.len(), 4 * 25 * 100);
}

#[test]
fn downscale_for_retry_refuses_empty_images() {
    let img = RawImage { width: 0, height: 7, pixels: Vec::new() };
    let engine = OcrEngine::new();
    assert!(engine.downscale_for_retry(&img).is_none());
}
