//! The fixed virtual viewport, and how it is fitted into a window.

use vstd::prelude::*;
use crate::ratio::Ratio;

verus! {

/// The width of the virtual viewport, in world units and in texels of the
/// off-screen targets.
pub const VIEWPORT_WIDTH: u32 = 320;

/// The height of the virtual viewport.
pub const VIEWPORT_HEIGHT: u32 = 180;

/// The far end of the depth range.
pub const MAX_DEPTH: i32 = 500;

/// The near end of the depth range.
pub const MIN_DEPTH: i32 = -500;

/// What the shaders are told of the viewport: its width, its height, the
/// length of the depth range, and one.
pub fn viewport_dimensions() -> (dimensions: [u32; 4])
    ensures
        dimensions@ == seq![VIEWPORT_WIDTH, VIEWPORT_HEIGHT, (MAX_DEPTH - MIN_DEPTH) as u32, 1u32],
{
    let depth: u32 = (MAX_DEPTH - MIN_DEPTH) as u32;
    let dimensions: [u32; 4] = [VIEWPORT_WIDTH, VIEWPORT_HEIGHT, depth, 1];
    assert(dimensions@ =~= seq![VIEWPORT_WIDTH, VIEWPORT_HEIGHT, depth, 1u32]);
    dimensions
}

/// The scale along each axis that fits the viewport into a window without
/// stretching it: the axis that limits the fit is filled, the other leaves
/// bars on both sides.
#[derive(Clone, Copy, Debug, PartialEq, Eq, Structural)]
pub struct Letterbox {
    pub scale_x: Ratio,
    pub scale_y: Ratio,
}

/// How many window pixels one unit of the viewport would take along x if
/// the viewport filled the window's width.
pub open spec fn fit_x(width: u32) -> Ratio {
    Ratio { num: width as u64, den: VIEWPORT_WIDTH as u64 }
}

/// How many window pixels one unit of the viewport would take along y if
/// the viewport filled the window's height.
pub open spec fn fit_y(height: u32) -> Ratio {
    Ratio { num: height as u64, den: VIEWPORT_HEIGHT as u64 }
}

/// The smaller of the two fits: the most that both axes allow.
pub open spec fn best_fit(width: u32, height: u32) -> Ratio {
    if fit_x(width).at_most(fit_y(height)) {
        fit_x(width)
    } else {
        fit_y(height)
    }
}

/// The letterbox of a window, which has one where both of its sides are
/// positive: along each axis the best fit, as a share of that axis's own
/// fit.
pub open spec fn letterbox_of(width: u32, height: u32) -> Option<Letterbox> {
    if width == 0 || height == 0 {
        None
    } else if width * VIEWPORT_HEIGHT <= height * VIEWPORT_WIDTH {
        Some(
            Letterbox {
                scale_x: Ratio { num: 1, den: 1 },
                scale_y: Ratio {
                    num: (width * VIEWPORT_HEIGHT) as u64,
                    den: (height * VIEWPORT_WIDTH) as u64,
                },
            },
        )
    } else {
        Some(
            Letterbox {
                scale_x: Ratio {
                    num: (height * VIEWPORT_WIDTH) as u64,
                    den: (width * VIEWPORT_HEIGHT) as u64,
                },
                scale_y: Ratio { num: 1, den: 1 },
            },
        )
    }
}

/// How many window pixels one unit of the viewport takes along an axis of
/// `window` pixels and `viewport` units, once scaled by `scale`.
pub open spec fn shown(scale: Ratio, window: u32, viewport: u32) -> (int, int) {
    (scale.num * window, scale.den * viewport)
}

/// The letterbox of a window of `width` by `height` pixels.
pub fn letterbox(width: u32, height: u32) -> (fitted: Option<Letterbox>)
    ensures
        fitted == letterbox_of(width, height),
        fitted is Some <==> width > 0 && height > 0,
{
    if width == 0 || height == 0 {
        return None;
    }
    assert(width * VIEWPORT_HEIGHT <= u64::MAX && height * VIEWPORT_WIDTH <= u64::MAX)
        by (nonlinear_arith)
        requires
            width <= u32::MAX,
            height <= u32::MAX,
            VIEWPORT_WIDTH == 320,
            VIEWPORT_HEIGHT == 180,
    ;
    let by_width: u64 = width as u64 * VIEWPORT_HEIGHT as u64;
    let by_height: u64 = height as u64 * VIEWPORT_WIDTH as u64;
    if by_width <= by_height {
        Some(Letterbox { scale_x: Ratio::new(1, 1), scale_y: Ratio::new(by_width, by_height) })
    } else {
        Some(Letterbox { scale_x: Ratio::new(by_height, by_width), scale_y: Ratio::new(1, 1) })
    }
}

/// A letterbox keeps the viewport's aspect and shows all of it: scaled, a
/// unit of the viewport takes as many pixels along x as along y, and that
/// many is the smaller of the two fits. Neither scale exceeds one.
pub proof fn lemma_letterbox_keeps_aspect(width: u32, height: u32)
    requires
        width > 0,
        height > 0,
    ensures
        letterbox_of(width, height) is Some,
        ({
            let fitted = letterbox_of(width, height).unwrap();
            let along_x = shown(fitted.scale_x, width, VIEWPORT_WIDTH);
            let along_y = shown(fitted.scale_y, height, VIEWPORT_HEIGHT);
            let best = best_fit(width, height);
            &&& along_x.1 > 0 && along_y.1 > 0
            &&& along_x.0 * along_y.1 == along_y.0 * along_x.1
            &&& along_x.0 * best.den == best.num * along_x.1
            &&& best.at_most(fit_x(width)) && best.at_most(fit_y(height))
            &&& 0 < fitted.scale_x.num <= fitted.scale_x.den
            &&& 0 < fitted.scale_y.num <= fitted.scale_y.den
        }),
{
    let w = width as int;
    let h = height as int;
    assert(w * 180 > 0 && h * 320 > 0);
    if w * 180 <= h * 320 {
        assert((1 * w) * ((h * 320) * 180) == ((w * 180) * h) * (1 * 320)) by (nonlinear_arith);
        assert((1 * w) * 320 == w * (1 * 320)) by (nonlinear_arith);
        assert((h * 320) * 180 > 0) by (nonlinear_arith)
            requires
                h * 320 > 0,
        ;
    } else {
        assert(((h * 320) * w) * (1 * 180) == (1 * h) * ((w * 180) * 320)) by (nonlinear_arith);
        assert(((h * 320) * w) * 180 == h * ((w * 180) * 320)) by (nonlinear_arith);
        assert((w * 180) * 320 > 0) by (nonlinear_arith)
            requires
                w * 180 > 0,
        ;
    }
}

} // verus!
