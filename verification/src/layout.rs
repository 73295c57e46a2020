use crate::assets::Size2;
use crate::ids::EntityId;
use crate::mode::ImgMode;
use vstd::prelude::*;

verus! {

/// An exact rational quantity of abstract layout units.  Geometry is kept
/// exact here; the rendering side may round it as late as it likes.
#[derive(Clone, Copy, Debug, PartialEq, Eq, Structural)]
pub struct Frac {
    pub num: i128,
    pub den: i128,
}

/// Holds where `f` is the rational `n / d` (both denominators positive).
pub open spec fn frac_is(f: Frac, n: int, d: int) -> bool {
    f.den > 0 && d > 0 && f.num * d == n * f.den
}

/// Holds where `f` is at least zero.
pub open spec fn frac_nonneg(f: Frac) -> bool {
    f.den > 0 && f.num >= 0
}

/// Holds where `f` is at most zero.
pub open spec fn frac_nonpos(f: Frac) -> bool {
    f.den > 0 && f.num <= 0
}

/// A box dimension as the container layout system takes it: absolute
/// units, a share of the container, or left unconstrained.
#[derive(Clone, Copy, Debug, PartialEq, Eq, Structural)]
pub enum Val {
    Undefined,
    Px(Frac),
    Percent(Frac),
}

/// Holds where `v` is the absolute dimension `n / d`.
pub open spec fn val_px(v: Val, n: int, d: int) -> bool {
    v matches Val::Px(f) && frac_is(f, n, d)
}

/// Holds where `v` is the share `n / d` of the container, in percent.
pub open spec fn val_percent(v: Val, n: int, d: int) -> bool {
    v matches Val::Percent(f) && frac_is(f, n, d)
}

/// A width and a height.
#[derive(Clone, Copy, Debug, PartialEq, Eq, Structural)]
pub struct ValSize {
    pub width: Val,
    pub height: Val,
}

/// Margins on the four sides of a box, in absolute units; negative margins
/// let the content extend past the container.
#[derive(Clone, Copy, Debug, PartialEq, Eq, Structural)]
pub struct UiRect {
    pub left: Frac,
    pub right: Frac,
    pub top: Frac,
    pub bottom: Frac,
}

/// The box the layout pass writes for a shown surface: its size, the
/// minimum size downstream layout may not shrink it below, and its margins
/// within the container.
#[derive(Clone, Copy, Debug, PartialEq, Eq, Structural)]
pub struct BoxStyle {
    pub size: ValSize,
    pub min_size: ValSize,
    pub margin: UiRect,
}

/// What the layout pass decides for one surface: hide it, or show it with
/// the given box.
#[derive(Clone, Copy, Debug, PartialEq, Eq, Structural)]
pub enum ImgLayout {
    Hidden,
    Shown(BoxStyle),
}

/// Holds where the inputs are degenerate: a vanished intrinsic size or
/// container leaves nothing to lay out and the surface is hidden.
pub open spec fn degenerate(intrinsic: Size2, container: Size2) -> bool {
    intrinsic.spec_is_zero() || container.spec_is_zero()
}

/// Fit: the intrinsic size scaled uniformly to the largest box that still
/// lies within the container, centered by symmetric non-negative margins.
pub open spec fn fit_spec(iw: int, ih: int, cw: int, ch: int, s: BoxStyle) -> bool {
    &&& (cw * ih <= ch * iw ==> {
        // width-limited: full container width, height from the aspect ratio
        &&& val_px(s.size.width, cw, 1)
        &&& val_px(s.size.height, cw * ih, iw)
        &&& frac_is(s.margin.left, 0, 1)
        &&& frac_is(s.margin.right, 0, 1)
        &&& frac_is(s.margin.top, ch * iw - cw * ih, 2 * iw)
        &&& frac_is(s.margin.bottom, ch * iw - cw * ih, 2 * iw)
    })
    &&& (cw * ih > ch * iw ==> {
        // height-limited: full container height, width from the aspect ratio
        &&& val_px(s.size.width, ch * iw, ih)
        &&& val_px(s.size.height, ch, 1)
        &&& frac_is(s.margin.left, cw * ih - ch * iw, 2 * ih)
        &&& frac_is(s.margin.right, cw * ih - ch * iw, 2 * ih)
        &&& frac_is(s.margin.top, 0, 1)
        &&& frac_is(s.margin.bottom, 0, 1)
    })
    &&& frac_nonneg(s.margin.left) && frac_nonneg(s.margin.right)
    &&& frac_nonneg(s.margin.top) && frac_nonneg(s.margin.bottom)
    &&& s.min_size == s.size
}

/// Cover: the intrinsic size scaled uniformly to the smallest box that
/// still covers the container, centered by symmetric non-positive margins.
pub open spec fn cover_spec(iw: int, ih: int, cw: int, ch: int, s: BoxStyle) -> bool {
    &&& (cw * ih >= ch * iw ==> {
        // width fills the container, height overflows it
        &&& val_px(s.size.width, cw, 1)
        &&& val_px(s.size.height, cw * ih, iw)
        &&& frac_is(s.margin.left, 0, 1)
        &&& frac_is(s.margin.right, 0, 1)
        &&& frac_is(s.margin.top, ch * iw - cw * ih, 2 * iw)
        &&& frac_is(s.margin.bottom, ch * iw - cw * ih, 2 * iw)
    })
    &&& (cw * ih < ch * iw ==> {
        // height fills the container, width overflows it
        &&& val_px(s.size.width, ch * iw, ih)
        &&& val_px(s.size.height, ch, 1)
        &&& frac_is(s.margin.left, cw * ih - ch * iw, 2 * ih)
        &&& frac_is(s.margin.right, cw * ih - ch * iw, 2 * ih)
        &&& frac_is(s.margin.top, 0, 1)
        &&& frac_is(s.margin.bottom, 0, 1)
    })
    &&& frac_nonpos(s.margin.left) && frac_nonpos(s.margin.right)
    &&& frac_nonpos(s.margin.top) && frac_nonpos(s.margin.bottom)
    &&& s.min_size == s.size
}

/// Stretch: the box is 100% of the container in both axes, whatever the
/// intrinsic size; no margins, no minimum size.
pub open spec fn stretch_spec(s: BoxStyle) -> bool {
    &&& val_percent(s.size.width, 100, 1)
    &&& val_percent(s.size.height, 100, 1)
    &&& s.min_size.width is Undefined
    &&& s.min_size.height is Undefined
    &&& frac_is(s.margin.left, 0, 1)
    &&& frac_is(s.margin.right, 0, 1)
    &&& frac_is(s.margin.top, 0, 1)
    &&& frac_is(s.margin.bottom, 0, 1)
}

/// Source: the box is the intrinsic size unscaled, centered by symmetric
/// unclamped margins, negative where the image exceeds the container.
pub open spec fn source_spec(iw: int, ih: int, cw: int, ch: int, s: BoxStyle) -> bool {
    &&& val_px(s.size.width, iw, 1)
    &&& val_px(s.size.height, ih, 1)
    &&& frac_is(s.margin.left, cw - iw, 2)
    &&& frac_is(s.margin.right, cw - iw, 2)
    &&& frac_is(s.margin.top, ch - ih, 2)
    &&& frac_is(s.margin.bottom, ch - ih, 2)
    &&& s.min_size == s.size
}

/// What the layout pass owes for one surface: degenerate inputs hide it;
/// otherwise it is shown with the box its fit mode prescribes.
pub open spec fn layout_spec(mode: ImgMode, intrinsic: Size2, container: Size2, r: ImgLayout) -> bool {
    if degenerate(intrinsic, container) {
        r is Hidden
    } else {
        r matches ImgLayout::Shown(s) && {
            let iw = intrinsic.width as int;
            let ih = intrinsic.height as int;
            let cw = container.width as int;
            let ch = container.height as int;
            match mode {
                ImgMode::Fit => fit_spec(iw, ih, cw, ch, s),
                ImgMode::Cover => cover_spec(iw, ih, cw, ch, s),
                ImgMode::Stretch => stretch_spec(s),
                ImgMode::Source => source_spec(iw, ih, cw, ch, s),
            }
        }
    }
}

/// Once an asset's data is available and its natural size cached, the next
/// layout pass shows the companion surface: a surface is hidden only for
/// degenerate geometry, never for a present, properly sized asset.
pub proof fn lemma_present_asset_surface_shown(
    mode: ImgMode,
    intrinsic: Size2,
    container: Size2,
    r: ImgLayout,
)
    requires
        layout_spec(mode, intrinsic, container, r),
        !intrinsic.spec_is_zero(),
        !container.spec_is_zero(),
    ensures
        r is Shown,
{
}

/// Computes the box of one surface from its fit mode, the cached intrinsic
/// size, and the measured container box.  Degenerate inputs hide the
/// surface and nothing is computed for them; the aspect ratio is only
/// formed once both sizes are known non-zero.
pub fn compute_layout(mode: ImgMode, intrinsic: Size2, container: Size2) -> (r: ImgLayout)
    ensures
        layout_spec(mode, intrinsic, container, r),
        degenerate(intrinsic, container) <==> r is Hidden,
{
    if intrinsic.width == 0 || intrinsic.height == 0 || container.width == 0
        || container.height == 0 {
        return ImgLayout::Hidden;
    }
    let iw = intrinsic.width as i128;
    let ih = intrinsic.height as i128;
    let cw = container.width as i128;
    let ch = container.height as i128;
    proof {
        assert(cw * ih < 0x10000000000000000) by (nonlinear_arith)
            requires
                0 <= cw < 0x100000000,
                0 <= ih < 0x100000000,
        ;
        assert(ch * iw < 0x10000000000000000) by (nonlinear_arith)
            requires
                0 <= ch < 0x100000000,
                0 <= iw < 0x100000000,
        ;
        assert(cw * ih >= 0 && ch * iw >= 0) by (nonlinear_arith)
            requires
                cw >= 0 && ih >= 0 && ch >= 0 && iw >= 0,
        ;
    }
    match mode {
        ImgMode::Fit => {
            let p = cw * ih;
            let q = ch * iw;
            let (width, height, hmargin, vmargin) = if p <= q {
                (
                    Frac { num: cw, den: 1 },
                    Frac { num: p, den: iw },
                    Frac { num: 0, den: 1 },
                    Frac { num: q - p, den: 2 * iw },
                )
            } else {
                (
                    Frac { num: q, den: ih },
                    Frac { num: ch, den: 1 },
                    Frac { num: p - q, den: 2 * ih },
                    Frac { num: 0, den: 1 },
                )
            };
            let size = ValSize { width: Val::Px(width), height: Val::Px(height) };
            ImgLayout::Shown(
                BoxStyle {
                    size,
                    min_size: size,
                    margin: UiRect {
                        left: hmargin,
                        right: hmargin,
                        top: vmargin,
                        bottom: vmargin,
                    },
                },
            )
        },
        ImgMode::Cover => {
            let p = cw * ih;
            let q = ch * iw;
            let (width, height, hmargin, vmargin) = if p >= q {
                (
                    Frac { num: cw, den: 1 },
                    Frac { num: p, den: iw },
                    Frac { num: 0, den: 1 },
                    Frac { num: q - p, den: 2 * iw },
                )
            } else {
                (
                    Frac { num: q, den: ih },
                    Frac { num: ch, den: 1 },
                    Frac { num: p - q, den: 2 * ih },
                    Frac { num: 0, den: 1 },
                )
            };
            let size = ValSize { width: Val::Px(width), height: Val::Px(height) };
            ImgLayout::Shown(
                BoxStyle {
                    size,
                    min_size: size,
                    margin: UiRect {
                        left: hmargin,
                        right: hmargin,
                        top: vmargin,
                        bottom: vmargin,
                    },
                },
            )
        },
        ImgMode::Stretch => {
            let hundred = Frac { num: 100, den: 1 };
            let zero = Frac { num: 0, den: 1 };
            ImgLayout::Shown(
                BoxStyle {
                    size: ValSize {
                        width: Val::Percent(hundred),
                        height: Val::Percent(hundred),
                    },
                    min_size: ValSize { width: Val::Undefined, height: Val::Undefined },
                    margin: UiRect { left: zero, right: zero, top: zero, bottom: zero },
                },
            )
        },
        ImgMode::Source => {
            let size = ValSize {
                width: Val::Px(Frac { num: iw, den: 1 }),
                height: Val::Px(Frac { num: ih, den: 1 }),
            };
            let hmargin = Frac { num: cw - iw, den: 2 };
            let vmargin = Frac { num: ch - ih, den: 2 };
            ImgLayout::Shown(
                BoxStyle {
                    size,
                    min_size: size,
                    margin: UiRect {
                        left: hmargin,
                        right: hmargin,
                        top: vmargin,
                        bottom: vmargin,
                    },
                },
            )
        },
    }
}

/// What the layout pass reads for one widget: the companion surface, the
/// widget's fit mode and cached intrinsic size, and the surface's measured
/// container box.
#[derive(Clone, Copy, Debug, PartialEq, Eq, Structural)]
pub struct LayoutInput {
    pub surface: EntityId,
    pub mode: ImgMode,
    pub intrinsic: Size2,
    pub container: Size2,
}

/// The layout pass over the widgets whose state or container box changed:
/// decides for each surface, in order, what [`compute_layout`] prescribes.
pub fn update_img_layout(elements: &Vec<LayoutInput>) -> (out: Vec<(EntityId, ImgLayout)>)
    ensures
        out@.len() == elements@.len(),
        forall|i: int|
            #![trigger elements@[i]]
            0 <= i < elements@.len() ==> {
                let e = elements@[i];
                &&& out@[i].0 == e.surface
                &&& layout_spec(e.mode, e.intrinsic, e.container, out@[i].1)
                &&& (degenerate(e.intrinsic, e.container) <==> out@[i].1 is Hidden)
            },
{
    let mut out: Vec<(EntityId, ImgLayout)> = Vec::new();
    let mut i: usize = 0;
    while i < elements.len()
        invariant
            i <= elements@.len(),
            out@.len() == i,
            forall|k: int|
                #![trigger elements@[k]]
                0 <= k < i ==> {
                    let e = elements@[k];
                    &&& out@[k].0 == e.surface
                    &&& layout_spec(e.mode, e.intrinsic, e.container, out@[k].1)
                    &&& (degenerate(e.intrinsic, e.container) <==> out@[k].1 is Hidden)
                },
        decreases elements@.len() - i,
    {
        let e = elements[i];
        let layout = compute_layout(e.mode, e.intrinsic, e.container);
        out.push((e.surface, layout));
        i += 1;
    }
    out
}

} // verus!
