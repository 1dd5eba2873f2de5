//! The viewing window: which point of the complex plane a pixel stands for.
//!
//! The window is centred on the origin. The shorter side of the picture spans
//! four units of the plane and the longer side proportionally more, so the
//! set is never stretched. Every point a pixel stands for is a rational
//! number with the shorter side as its denominator; it is kept as such, and
//! whoever needs a floating-point value divides once.
use vstd::prelude::*;

verus! {

/// A point of the complex plane, `re_num / den + i * im_num / den`.
#[derive(Clone, Copy, Debug, PartialEq, Eq)]
pub struct PlanePoint {
    pub re_num: i64,
    pub im_num: i64,
    pub den: u32,
}

/// The shorter side of a `w` by `h` picture.
pub open spec fn short_side(w: int, h: int) -> int {
    if h >= w { w } else { h }
}

/// Numerator of the real part of pixel `(x, y)` over the shorter side:
/// `4 * (x / w - 1/2)` when `h >= w`, `(2 / h) * (2 * x - w)` otherwise.
/// Both are `(4 * x - 2 * w) / short_side`.
pub open spec fn re_numerator(x: int, w: int) -> int {
    4 * x - 2 * w
}

/// Numerator of the imaginary part of pixel `(x, y)` over the shorter side:
/// `(2 / w) * (h - 2 * y)` when `h >= w`, `4 * (y / h - 1/2)` otherwise.
pub open spec fn im_numerator(y: int, w: int, h: int) -> int {
    if h >= w { 2 * h - 4 * y } else { 4 * y - 2 * h }
}

/// The point that pixel `(x, y)` of a `w` by `h` picture stands for.
pub open spec fn point_of(x: int, y: int, w: int, h: int) -> PlanePoint {
    PlanePoint {
        re_num: re_numerator(x, w) as i64,
        im_num: im_numerator(y, w, h) as i64,
        den: short_side(w, h) as u32,
    }
}

/// The point of the complex plane that pixel `(x, y)` of a `w` by `h`
/// picture stands for. The result depends on its arguments alone: two calls
/// with the same arguments give the same point.
pub fn c_from_coords(x: u32, y: u32, w: u32, h: u32) -> (p: PlanePoint)
    requires
        x < w,
        y < h,
    ensures
        p == point_of(x as int, y as int, w as int, h as int),
        p.re_num == re_numerator(x as int, w as int),
        p.im_num == im_numerator(y as int, w as int, h as int),
        p.den == short_side(w as int, h as int),
        p.den > 0,
{
    let re_num: i64 = 4 * (x as i64) - 2 * (w as i64);
    if h >= w {
        PlanePoint { re_num, im_num: 2 * (h as i64) - 4 * (y as i64), den: w }
    } else {
        PlanePoint { re_num, im_num: 4 * (y as i64) - 2 * (h as i64), den: h }
    }
}

/// In a square `n` by `n` picture, pixel `x` and pixel `n - 1 - x` of one row
/// lie mirrored about the vertical centre line of the pixel grid: they share
/// the imaginary part, and their real parts add up to `-4 / n`, the sum for
/// the two outermost pixels `0` and `n - 1`. Measured from the left edges of
/// the pixels, `x` and `n - x` have exactly opposite real parts.
pub proof fn lemma_square_mirror(x: int, y: int, n: int)
    requires
        0 <= x < n,
        0 <= y < n,
        n <= u32::MAX,
    ensures
        point_of(x, y, n, n).re_num + point_of(n - 1 - x, y, n, n).re_num == -4,
        point_of(x, y, n, n).re_num + point_of(n - 1 - x, y, n, n).re_num
            == point_of(0, y, n, n).re_num + point_of(n - 1, y, n, n).re_num,
        point_of(x, y, n, n).im_num == point_of(n - 1 - x, y, n, n).im_num,
        point_of(x, y, n, n).den == point_of(n - 1 - x, y, n, n).den,
        re_numerator(x, n) == -re_numerator(n - x, n),
{
}

} // verus!
