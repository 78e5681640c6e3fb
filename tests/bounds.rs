use imop::bounds::{Error, Optimizations};
use imop::{Bounds, ImageFormat, ScalingMode, Size};

#[test]
fn exact_takes_the_target() {
    let s = Size { width: 100, height: 50 };
    let r = s.fit(Size { width: 30, height: 70 }, Some(ScalingMode::Exact)).unwrap();
    assert_eq!((r.width, r.height), (30, 70));
}

#[test]
fn fit_keeps_aspect_ratio_inside_target() {
    let s = Size { width: 100, height: 50 };
    let r = s.fit(Size { width: 40, height: 40 }, Some(ScalingMode::Fit)).unwrap();
    assert_eq!((r.width, r.height), (40, 20));
    // the default mode is fit
    let d = s.fit(Size { width: 40, height: 40 }, None).unwrap();
    assert_eq!((d.width, d.height), (40, 20));
    let t = Size { width: 3, height: 7 }.fit(Size { width: 10, height: 10 }, None).unwrap();
    assert_eq!((t.width, t.height), (5, 10));
}

#[test]
fn cover_keeps_aspect_ratio_over_target() {
    let s = Size { width: 100, height: 50 };
    let r = s.fit(Size { width: 40, height: 40 }, Some(ScalingMode::Cover)).unwrap();
    assert_eq!((r.width, r.height), (80, 40));
}

#[test]
fn fit_errors() {
    let empty = Size { width: 0, height: 50 };
    assert_eq!(empty.fit(Size { width: 4, height: 4 }, None), Err(Error::EmptySource));
    let thin = Size { width: 1, height: u32::MAX };
    assert_eq!(
        thin.fit(Size { width: u32::MAX, height: 1 }, Some(ScalingMode::Cover)),
        Err(Error::Overflow)
    );
}

#[test]
fn bounds_fill_missing_dimensions() {
    let s = Size { width: 100, height: 50 };
    let none = s.fit_to_bounds(Bounds { width: None, height: None, mode: None }).unwrap();
    assert_eq!((none.width, none.height), (100, 50));
    let h = s
        .fit_to_bounds(Bounds { width: None, height: Some(10), mode: Some(ScalingMode::Exact) })
        .unwrap();
    assert_eq!((h.width, h.height), (100, 10));
    let w = s.fit_to_bounds(Bounds { width: Some(20), height: None, mode: None }).unwrap();
    assert_eq!((w.width, w.height), (20, 10));
}

#[test]
fn optimizations_give_bounds() {
    let o = Optimizations {
        quality: Some(80),
        width: Some(300),
        height: None,
        mode: Some(ScalingMode::Cover),
        format: Some(ImageFormat::WebP),
    };
    let b = o.bounds();
    assert_eq!(b.width, Some(300));
    assert_eq!(b.height, None);
    assert_eq!(b.mode, Some(ScalingMode::Cover));
    assert_eq!(ScalingMode::default(), ScalingMode::Fit);
}
