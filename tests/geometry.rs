use background_manager::geometry::{
    plan_blur_radius, plan_centered_crop, plan_fill, plan_fit, plan_paste_offset, CropRect,
    Dimensions, Offset, PlanError,
};

#[test]
fn landscape_source_on_landscape_display() {
    assert_eq!(plan_fit(4000, 2000, 1920, 1080), Ok(Dimensions { width: 1920, height: 960 }));
    assert_eq!(plan_fill(4000, 2000, 1920, 1080), Ok(Dimensions { width: 2160, height: 1080 }));
    assert_eq!(
        plan_centered_crop(2160, 1080, 1920, 1080),
        CropRect { x: 120, y: 0, width: 1920, height: 1080 }
    );
    assert_eq!(plan_paste_offset(1920, 1080, 1920, 960), Offset { x: 0, y: 60 });
}

#[test]
fn portrait_source_on_landscape_display() {
    assert_eq!(plan_fit(800, 1200, 1920, 1080), Ok(Dimensions { width: 720, height: 1080 }));
    assert_eq!(plan_fill(800, 1200, 1920, 1080), Ok(Dimensions { width: 1920, height: 2880 }));
    assert_eq!(
        plan_centered_crop(1920, 2880, 1920, 1080),
        CropRect { x: 0, y: 900, width: 1920, height: 1080 }
    );
    assert_eq!(plan_paste_offset(1920, 1080, 720, 1080), Offset { x: 600, y: 0 });
}

#[test]
fn fit_stays_inside_and_touches_target() {
    let cases = [(3000, 1000, 1280, 1024), (1000, 3000, 1280, 1024), (7, 3, 5, 5), (1, 1, 9, 4)];
    for (sw, sh, tw, th) in cases {
        let d = plan_fit(sw, sh, tw, th).unwrap();
        assert!(d.width <= tw && d.height <= th);
        assert!(d.width == tw || d.height == th);
    }
}

#[test]
fn fill_covers_target() {
    let cases = [(3000, 1000, 1280, 1024), (1000, 3000, 1280, 1024), (7, 3, 5, 5), (3, 7, 10, 10)];
    for (sw, sh, tw, th) in cases {
        let d = plan_fill(sw, sh, tw, th).unwrap();
        assert!(d.width >= tw && d.height >= th);
    }
}

#[test]
fn equal_aspect_gives_target_size() {
    assert_eq!(plan_fit(3840, 2160, 1920, 1080), Ok(Dimensions { width: 1920, height: 1080 }));
    assert_eq!(plan_fill(3840, 2160, 1920, 1080), Ok(Dimensions { width: 1920, height: 1080 }));
    assert_eq!(plan_fit(640, 480, 640, 480), Ok(Dimensions { width: 640, height: 480 }));
}

#[test]
fn zero_side_is_rejected() {
    assert_eq!(plan_fit(0, 10, 10, 10), Err(PlanError::InvalidDimensions));
    assert_eq!(plan_fit(10, 10, 10, 0), Err(PlanError::InvalidDimensions));
    assert_eq!(plan_fill(10, 0, 10, 10), Err(PlanError::InvalidDimensions));
    assert_eq!(plan_fill(10, 10, 0, 10), Err(PlanError::InvalidDimensions));
}

#[test]
fn fit_side_rounding_to_zero_is_an_error() {
    assert_eq!(plan_fit(10000, 1, 100, 100), Err(PlanError::ZeroSide));
    assert_eq!(plan_fit(10000, 1, 1920, 1080), Err(PlanError::ZeroSide));
    assert_eq!(plan_fit(1, 10000, 100, 100), Err(PlanError::ZeroSide));
    assert_eq!(plan_fit(100, 1, 100, 100), Ok(Dimensions { width: 100, height: 1 }));
    assert_eq!(plan_fit(1000, 1, 1920, 1080), Ok(Dimensions { width: 1920, height: 1 }));
}

#[test]
fn fill_too_large_for_32_bits() {
    assert_eq!(plan_fill(u32::MAX, 1, u32::MAX, u32::MAX), Err(PlanError::TooLarge));
    assert_eq!(plan_fill(4, 1, 100, 100), Ok(Dimensions { width: 400, height: 100 }));
}

#[test]
fn crop_is_clamped_into_buffer() {
    assert_eq!(plan_centered_crop(5, 5, 2, 2), CropRect { x: 1, y: 1, width: 2, height: 2 });
    assert_eq!(plan_centered_crop(3, 3, 2, 2), CropRect { x: 0, y: 0, width: 2, height: 2 });
    assert_eq!(plan_centered_crop(1921, 1081, 1920, 1080), CropRect { x: 0, y: 0, width: 1920, height: 1080 });
    assert_eq!(plan_centered_crop(10, 10, 20, 4), CropRect { x: 0, y: 3, width: 20, height: 4 });
}

#[test]
fn crop_lies_inside_buffer() {
    for (bw, bh, tw, th) in [(2161, 1081, 1920, 1080), (7, 9, 3, 8), (4, 4, 4, 4), (11, 2, 1, 1)] {
        let r = plan_centered_crop(bw, bh, tw, th);
        assert!(r.x + r.width <= bw && r.y + r.height <= bh);
        assert_eq!((r.width, r.height), (tw, th));
    }
}

#[test]
fn paste_offset_centres_and_clamps() {
    assert_eq!(plan_paste_offset(10, 10, 3, 4), Offset { x: 3, y: 3 });
    assert_eq!(plan_paste_offset(10, 10, 12, 10), Offset { x: 0, y: 0 });
}

#[test]
fn blur_radius_from_longer_side() {
    assert_eq!(plan_blur_radius(1920, 1080), 48);
    assert_eq!(plan_blur_radius(1080, 1920), 48);
    assert_eq!(plan_blur_radius(39, 20), 0);
    assert_eq!(plan_blur_radius(80, 1), 2);
}
