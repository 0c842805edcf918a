use background_manager::buffer::{composite, PixelBuffer};
use background_manager::geometry::Offset;
use background_manager::pipeline::{
    combine_fit_and_fill, compose_wallpaper, fill_to_size, fit_to_size, DisplayTarget,
    PipelineError,
};

fn gradient(width: u32, height: u32) -> PixelBuffer {
    let mut pixels = Vec::new();
    for y in 0..height {
        for x in 0..width {
            pixels.push((x * 17 % 256) as u8);
            pixels.push((y * 29 % 256) as u8);
            pixels.push(((x + y) * 7 % 256) as u8);
            pixels.push(255);
        }
    }
    PixelBuffer { width, height, pixels }
}

fn solid(width: u32, height: u32, value: u8) -> PixelBuffer {
    PixelBuffer { width, height, pixels: vec![value; (width * height * 4) as usize] }
}

#[test]
fn wallpaper_has_target_size_for_every_aspect() {
    let source = gradient(40, 20);
    for (w, h) in [(30, 30), (60, 20), (20, 60), (40, 20), (90, 45), (3, 2)] {
        let out = compose_wallpaper(&source, DisplayTarget { width: w, height: h }).unwrap();
        assert_eq!((out.width, out.height), (w, h));
        assert_eq!(out.pixels.len(), (w * h * 4) as usize);
    }
}

#[test]
fn wallpaper_is_deterministic() {
    let source = gradient(33, 17);
    let target = DisplayTarget { width: 96, height: 54 };
    let a = compose_wallpaper(&source, target).unwrap();
    let b = compose_wallpaper(&source, target).unwrap();
    assert_eq!((a.width, a.height), (b.width, b.height));
    assert_eq!(a.pixels, b.pixels);
}

#[test]
fn same_size_source_comes_back_unchanged() {
    let source = gradient(48, 27);
    let out = compose_wallpaper(&source, DisplayTarget { width: 48, height: 27 }).unwrap();
    assert_eq!((out.width, out.height), (48, 27));
    assert_eq!(out.pixels, source.pixels);
    let big = gradient(120, 50);
    let out = compose_wallpaper(&big, DisplayTarget { width: 120, height: 50 }).unwrap();
    assert_eq!(out.pixels, big.pixels);
}

#[test]
fn invalid_input_is_rejected() {
    let source = gradient(4, 4);
    assert_eq!(
        compose_wallpaper(&source, DisplayTarget { width: 0, height: 4 }).unwrap_err(),
        PipelineError::InvalidInput
    );
    let short = PixelBuffer { width: 4, height: 4, pixels: vec![0; 10] };
    assert_eq!(
        compose_wallpaper(&short, DisplayTarget { width: 4, height: 4 }).unwrap_err(),
        PipelineError::InvalidInput
    );
    let empty = PixelBuffer { width: 0, height: 4, pixels: Vec::new() };
    assert_eq!(fit_to_size(&empty, (4, 4)).unwrap_err(), PipelineError::InvalidInput);
    assert_eq!(fill_to_size(&empty, (4, 4)).unwrap_err(), PipelineError::InvalidInput);
}

#[test]
fn thin_target_with_blur_cannot_run() {
    let source = gradient(10, 10);
    assert_eq!(
        compose_wallpaper(&source, DisplayTarget { width: 1, height: 80 }).unwrap_err(),
        PipelineError::TransformFailure
    );
    let out = compose_wallpaper(&source, DisplayTarget { width: 1, height: 39 }).unwrap();
    assert_eq!((out.width, out.height), (1, 39));
}

#[test]
fn fit_resamples_to_fit_size() {
    let source = gradient(40, 20);
    let fit = fit_to_size(&source, (30, 30)).unwrap();
    assert_eq!((fit.width, fit.height), (30, 15));
    assert_eq!(fit.pixels.len(), 30 * 15 * 4);
}

#[test]
fn fill_crops_the_centre() {
    // Same fill size as the source, so only the crop changes the pixels.
    let source = gradient(4, 2);
    let fill = fill_to_size(&source, (2, 2)).unwrap();
    assert_eq!((fill.width, fill.height), (2, 2));
    let expected: Vec<u8> = [(1, 0), (2, 0), (1, 1), (2, 1)]
        .iter()
        .flat_map(|&(x, y)| {
            let i = ((y * 4 + x) * 4) as usize;
            source.pixels[i..i + 4].to_vec()
        })
        .collect();
    assert_eq!(fill.pixels, expected);
}

#[test]
fn fill_resamples_then_crops() {
    let source = gradient(40, 20);
    let fill = fill_to_size(&source, (30, 30)).unwrap();
    assert_eq!((fill.width, fill.height), (30, 30));
}

#[test]
fn composite_overwrites_covered_pixels() {
    let background = solid(3, 2, 10);
    let overlay = PixelBuffer { width: 1, height: 2, pixels: vec![1, 2, 3, 0, 4, 5, 6, 7] };
    let out = composite(&background, &overlay, Offset { x: 1, y: 0 });
    assert_eq!(
        out.pixels,
        vec![
            10, 10, 10, 10, 1, 2, 3, 0, 10, 10, 10, 10, //
            10, 10, 10, 10, 4, 5, 6, 7, 10, 10, 10, 10,
        ]
    );
}

#[test]
fn combine_blurs_only_the_background() {
    // An 80 x 4 screen gives radius 2: the uncovered stripes are blurred.
    let mut fill = solid(80, 4, 0);
    for y in 0..4 {
        for x in (0..80).step_by(2) {
            let i = ((y * 80 + x) * 4) as usize;
            fill.pixels[i] = 255;
        }
    }
    let fit = solid(2, 4, 200);
    let out = combine_fit_and_fill(&fit, &fill, (80, 4)).unwrap();
    assert_eq!((out.width, out.height), (80, 4));
    assert_ne!(out.pixels[0..4 * 30], fill.pixels[0..4 * 30]);
    let i = (39 * 4) as usize;
    assert_eq!(out.pixels[i..i + 8], [200; 8]);
}

#[test]
fn combine_without_blur_keeps_background() {
    let fill = gradient(6, 4);
    let fit = solid(2, 2, 9);
    let out = combine_fit_and_fill(&fit, &fill, (6, 4)).unwrap();
    for y in 0..4u32 {
        for x in 0..6u32 {
            let i = ((y * 6 + x) * 4) as usize;
            let inside = (2..4).contains(&x) && (1..3).contains(&y);
            let want = if inside { [9u8; 4].to_vec() } else { fill.pixels[i..i + 4].to_vec() };
            assert_eq!(out.pixels[i..i + 4].to_vec(), want);
        }
    }
}

#[test]
fn combine_rejects_larger_fit() {
    let fill = gradient(4, 4);
    let fit = gradient(5, 2);
    assert_eq!(combine_fit_and_fill(&fit, &fill, (4, 4)).unwrap_err(), PipelineError::InvalidInput);
}

#[test]
fn window_too_large_to_crop() {
    let source = gradient(1, 1);
    assert_eq!(fill_to_size(&source, (70000, 70000)).unwrap_err(), PipelineError::TransformFailure);
}

#[test]
fn zero_fit_side_fails_the_run() {
    let source = PixelBuffer { width: 10000, height: 1, pixels: vec![255; 40000] };
    assert_eq!(fit_to_size(&source, (100, 100)).unwrap_err(), PipelineError::TransformFailure);
    assert_eq!(
        compose_wallpaper(&source, DisplayTarget { width: 1920, height: 1080 }).unwrap_err(),
        PipelineError::TransformFailure
    );
}
