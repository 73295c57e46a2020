use img_widget::assets::Size2;
use img_widget::layout::{
    compute_layout, update_img_layout, BoxStyle, Frac, ImgLayout, LayoutInput, Val,
};
use img_widget::mode::ImgMode;

fn size(width: u32, height: u32) -> Size2 {
    Size2 { width, height }
}

/// Whether the exact rational `f` equals the integer `n`.
fn frac_eq(f: Frac, n: i128) -> bool {
    f.den > 0 && f.num == n * f.den
}

fn px_eq(v: Val, n: i128) -> bool {
    match v {
        Val::Px(f) => frac_eq(f, n),
        _ => false,
    }
}

fn percent_eq(v: Val, n: i128) -> bool {
    match v {
        Val::Percent(f) => frac_eq(f, n),
        _ => false,
    }
}

fn shown(r: ImgLayout) -> BoxStyle {
    match r {
        ImgLayout::Shown(s) => s,
        ImgLayout::Hidden => panic!("surface unexpectedly hidden"),
    }
}

#[test]
fn fit_is_limited_by_the_tight_axis() {
    // Container 200x100, intrinsic 100x100: the square fits by height.
    let s = shown(compute_layout(ImgMode::Fit, size(100, 100), size(200, 100)));
    assert!(px_eq(s.size.width, 100));
    assert!(px_eq(s.size.height, 100));
    assert_eq!(s.min_size, s.size);
    assert!(frac_eq(s.margin.left, 50));
    assert!(frac_eq(s.margin.right, 50));
    assert!(frac_eq(s.margin.top, 0));
    assert!(frac_eq(s.margin.bottom, 0));
}

#[test]
fn fit_never_overflows() {
    // A tall image in a wide container: width follows the aspect ratio.
    let s = shown(compute_layout(ImgMode::Fit, size(50, 200), size(300, 100)));
    assert!(px_eq(s.size.width, 25));
    assert!(px_eq(s.size.height, 100));
    // The leftover 275 is split exactly: 137.5 on each side.
    assert!(s.margin.left.den > 0);
    assert_eq!(s.margin.left.num * 2, 275 * s.margin.left.den);
    assert!(frac_eq(s.margin.top, 0));
}

#[test]
fn cover_overflows_the_loose_axis() {
    // Container 200x100, intrinsic 100x100: covering scales to 200x200.
    let s = shown(compute_layout(ImgMode::Cover, size(100, 100), size(200, 100)));
    assert!(px_eq(s.size.width, 200));
    assert!(px_eq(s.size.height, 200));
    assert_eq!(s.min_size, s.size);
    assert!(frac_eq(s.margin.left, 0));
    assert!(frac_eq(s.margin.right, 0));
    assert!(frac_eq(s.margin.top, -50));
    assert!(frac_eq(s.margin.bottom, -50));
}

#[test]
fn stretch_fills_the_container() {
    for intrinsic in [size(1, 1), size(300, 50), size(4096, 4096)] {
        let s = shown(compute_layout(ImgMode::Stretch, intrinsic, size(200, 100)));
        assert!(percent_eq(s.size.width, 100));
        assert!(percent_eq(s.size.height, 100));
        assert_eq!(s.min_size.width, Val::Undefined);
        assert_eq!(s.min_size.height, Val::Undefined);
        assert!(frac_eq(s.margin.left, 0));
        assert!(frac_eq(s.margin.right, 0));
        assert!(frac_eq(s.margin.top, 0));
        assert!(frac_eq(s.margin.bottom, 0));
    }
}

#[test]
fn source_keeps_the_original_size() {
    // Container 200x100, intrinsic 300x50: unscaled, centered, margins
    // negative where the image exceeds the container.
    let s = shown(compute_layout(ImgMode::Source, size(300, 50), size(200, 100)));
    assert!(px_eq(s.size.width, 300));
    assert!(px_eq(s.size.height, 50));
    assert_eq!(s.min_size, s.size);
    assert!(frac_eq(s.margin.left, -50));
    assert!(frac_eq(s.margin.right, -50));
    assert!(frac_eq(s.margin.top, 25));
    assert!(frac_eq(s.margin.bottom, 25));
}

#[test]
fn degenerate_inputs_hide_the_surface() {
    let modes = [ImgMode::Fit, ImgMode::Cover, ImgMode::Stretch, ImgMode::Source];
    for mode in modes {
        assert_eq!(compute_layout(mode, size(100, 100), size(0, 100)), ImgLayout::Hidden);
        assert_eq!(compute_layout(mode, size(100, 100), size(100, 0)), ImgLayout::Hidden);
        assert_eq!(compute_layout(mode, size(0, 100), size(200, 100)), ImgLayout::Hidden);
        assert_eq!(compute_layout(mode, size(100, 0), size(200, 100)), ImgLayout::Hidden);
    }
}

#[test]
fn fit_margins_split_the_leftover_exactly() {
    // An odd leftover: 100x100 in 205x100 leaves 52.5 on each side.
    let s = shown(compute_layout(ImgMode::Fit, size(100, 100), size(205, 100)));
    let left = s.margin.left;
    assert!(left.den > 0);
    assert_eq!(left.num * 2, 105 * left.den);
}

#[test]
fn layout_pass_maps_every_element() {
    let inputs = vec![
        LayoutInput {
            surface: 10,
            mode: ImgMode::Stretch,
            intrinsic: size(1, 1),
            container: size(50, 50),
        },
        LayoutInput {
            surface: 20,
            mode: ImgMode::Fit,
            intrinsic: size(0, 0),
            container: size(50, 50),
        },
    ];
    let out = update_img_layout(&inputs);
    assert_eq!(out.len(), 2);
    assert_eq!(out[0].0, 10);
    assert!(matches!(out[0].1, ImgLayout::Shown(_)));
    assert_eq!(out[1].0, 20);
    assert_eq!(out[1].1, ImgLayout::Hidden);
}
