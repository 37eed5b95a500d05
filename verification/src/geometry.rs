use vstd::prelude::*;
use crate::errors::ViewerError;

verus! {

/// How a unit quad must be scaled to letterbox the current image into
/// the current window, preserving aspect ratio. Each factor is the
/// exact rational `num / den`; the host converts to floats only at the
/// GPU boundary. A mirrored display negates the horizontal factor, so
/// each factor lies in (-1, 1].
#[derive(Clone, Copy, Debug, PartialEq, Eq, Structural)]
pub struct DisplayGeometry {
    pub sx_num: u64,
    pub sx_den: u64,
    pub sy_num: u64,
    pub sy_den: u64,
    pub mirrored: bool,
}

/// The shared numerator of the clamped-fit policy: with window `ww x wh`
/// and image `iw x ih`, `scaleX = min(1, (wh/ww)*(iw/ih))` and
/// `scaleY = min(1, (ww/wh)*(ih/iw))`, which over a common denominator
/// is `min(wh*iw, ww*ih)` over `ww*ih` and over `wh*iw` respectively.
pub open spec fn fit_num(ww: int, wh: int, iw: int, ih: int) -> int {
    vstd::math::min(wh * iw, ww * ih)
}

/// Denominator of the horizontal factor under clamped fit.
pub open spec fn fit_den_x(ww: int, ih: int) -> int {
    ww * ih
}

/// Denominator of the vertical factor under clamped fit.
pub open spec fn fit_den_y(wh: int, iw: int) -> int {
    wh * iw
}

impl DisplayGeometry {
    /// Well-formed geometry: positive denominators and both fractions
    /// at most one, so no factor's absolute value exceeds 1.
    pub open spec fn wf(&self) -> bool {
        &&& 0 < self.sx_den
        &&& self.sx_num <= self.sx_den
        &&& 0 < self.sy_den
        &&& self.sy_num <= self.sy_den
    }

    /// Both factors are exactly one: the image fills the window.
    pub open spec fn is_unit(&self) -> bool {
        self.sx_num == self.sx_den && self.sy_num == self.sy_den
    }
}

/// The clamped-fit scale of an `iw x ih` image inside a `ww x wh`
/// window. The factors never exceed one, so the image always fits the
/// viewport whatever the aspect ratios; `mirrored` only flips the sign
/// of the horizontal factor, which the `mirrored` field records. A zero
/// image dimension is rejected rather than divided by.
pub fn compute_geometry(ww: u32, wh: u32, iw: u32, ih: u32, mirrored: bool) -> (r: Result<
    DisplayGeometry,
    ViewerError,
>)
    requires
        0 < ww,
        0 < wh,
    ensures
        r is Ok <==> (0 < iw && 0 < ih),
        r is Err ==> r == Err::<DisplayGeometry, ViewerError>(ViewerError::InvalidImageDimensions),
        r matches Ok(g) ==> {
            &&& g.wf()
            &&& g.sx_num == fit_num(ww as int, wh as int, iw as int, ih as int)
            &&& g.sy_num == fit_num(ww as int, wh as int, iw as int, ih as int)
            &&& g.sx_den == fit_den_x(ww as int, ih as int)
            &&& g.sy_den == fit_den_y(wh as int, iw as int)
            &&& g.mirrored == mirrored
            &&& (wh * iw == ww * ih ==> g.is_unit())
        },
{
    if iw == 0 || ih == 0 {
        return Err(ViewerError::InvalidImageDimensions);
    }
    proof {
        assert((wh as int) * (iw as int) < 0x1_0000_0000_0000_0000 && 0 < (wh as int) * (
        iw as int) && (ww as int) * (ih as int) < 0x1_0000_0000_0000_0000 && 0 < (ww as int) * (
        ih as int)) by (nonlinear_arith)
            requires
                0 < ww < 0x1_0000_0000,
                0 < wh < 0x1_0000_0000,
                0 < iw < 0x1_0000_0000,
                0 < ih < 0x1_0000_0000,
        ;
    }
    let a: u64 = (wh as u64) * (iw as u64);
    let b: u64 = (ww as u64) * (ih as u64);
    let n: u64 = if a < b {
        a
    } else {
        b
    };
    Ok(DisplayGeometry { sx_num: n, sx_den: b, sy_num: n, sy_den: a, mirrored })
}

/// When the image's aspect ratio equals the window's, the clamped fit
/// is exactly `(1, 1)`: both fractions have numerator equal to their
/// denominator.
pub proof fn lemma_equal_aspect_is_unit(ww: int, wh: int, iw: int, ih: int)
    requires
        0 < ww,
        0 < wh,
        0 < iw,
        0 < ih,
        wh * iw == ww * ih,
    ensures
        fit_num(ww, wh, iw, ih) == fit_den_x(ww, ih),
        fit_num(ww, wh, iw, ih) == fit_den_y(wh, iw),
{
}

/// Under the clamped-fit policy no factor's magnitude ever exceeds one,
/// for any positive window and image dimensions.
pub proof fn lemma_clamped_fit_bounded(ww: int, wh: int, iw: int, ih: int)
    requires
        0 < ww,
        0 < wh,
        0 < iw,
        0 < ih,
    ensures
        0 < fit_den_x(ww, ih),
        0 < fit_den_y(wh, iw),
        0 <= fit_num(ww, wh, iw, ih) <= fit_den_x(ww, ih),
        0 <= fit_num(ww, wh, iw, ih) <= fit_den_y(wh, iw),
{
    assert(0 < wh * iw && 0 < ww * ih) by (nonlinear_arith)
        requires
            0 < ww && 0 < wh && 0 < iw && 0 < ih,
    ;
}

} // verus!
