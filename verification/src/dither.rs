//! Image dithering for the raster printing pipeline.
//!
//! Converts RGBA pixel data to 1-bit monochrome and packs the result into a
//! `GS v 0` raster command. The pipeline, in strict order: RGBA to grayscale
//! (white-background composite), an optional bilinear downscale when the
//! image is wider than the printable area, binarisation (plain threshold or
//! Floyd–Steinberg error diffusion), and MSB-first bit packing.
//!
//! Grayscale works in exact fixed-point arithmetic: a pixel's luminance is
//! kept as an integer numerator over the denominator [`GRAY_ONE`], so that
//! `(0.299 R + 0.587 G + 0.114 B) * alpha + 255 * (1 - alpha)` is represented
//! without loss. Error diffusion distributes the quantisation error in
//! sixteenths, rounding each share down; shares saturate at the i64 range,
//! far beyond any value the pipeline produces.

use vstd::prelude::*;
use crate::commands;

verus! {

/// Dithering algorithm to use.
#[derive(Debug, Clone, Copy, PartialEq, Eq, Structural)]
pub enum DitherMethod {
    /// Simple threshold (pixels darker than 50% become black).
    Threshold,
    /// Floyd–Steinberg error-diffusion dithering. Produces much better
    /// results for photographs and gradients.
    FloydSteinberg,
}

/// Fixed-point denominator of grayscale values: a luminance of `v` is stored
/// as the integer `v * GRAY_ONE`.
pub const GRAY_ONE: i64 = 255000;

/// Pure white (luminance 255) in fixed point.
pub const GRAY_WHITE: i64 = 65025000;

/// The black/white decision boundary (luminance 128) in fixed point.
pub const GRAY_THRESHOLD: i64 = 32640000;

// ── Grayscale conversion ──────────────────────────────────────────────────

/// The fixed-point luminance of one RGBA pixel, composited over a white
/// background: `((299 R + 587 G + 114 B) A + 255000 (255 - A)) / 255000`
/// equals `(0.299 R + 0.587 G + 0.114 B) (A/255) + 255 (1 - A/255)`.
pub open spec fn lum_num(r: u8, g: u8, b: u8, a: u8) -> int {
    (299 * r + 587 * g + 114 * b) * a + 255000 * (255 - a)
}

/// The fixed-point grayscale buffer of an RGBA buffer, one value per pixel.
pub open spec fn spec_gray(rgba: Seq<u8>) -> Seq<i64> {
    Seq::new(
        rgba.len() / 4,
        |i: int| lum_num(rgba[4 * i], rgba[4 * i + 1], rgba[4 * i + 2], rgba[4 * i + 3]) as i64,
    )
}

/// Luminance stays within the fixed-point gray range.
pub proof fn lemma_lum_bounds(r: u8, g: u8, b: u8, a: u8)
    ensures
        0 <= lum_num(r, g, b, a) <= GRAY_WHITE as int,
        0 <= (299 * r + 587 * g + 114 * b) * a <= 65025000,
{
    assert(299 * r + 587 * g + 114 * b <= 255000);
    assert((299 * r + 587 * g + 114 * b) * a <= 255000 * a) by (nonlinear_arith)
        requires 299 * r + 587 * g + 114 * b <= 255000 && a >= 0
    ;
    assert((299 * r + 587 * g + 114 * b) * a >= 0) by (nonlinear_arith)
        requires 299 * r + 587 * g + 114 * b >= 0 && a >= 0
    ;
    assert(255000 * a + 255000 * (255 - a) == 65025000);
}

/// Convert RGBA pixel data to the fixed-point grayscale buffer.
fn to_grayscale(rgba: &[u8], n: usize) -> (r: Vec<i64>)
    requires
        rgba@.len() == n * 4,
    ensures
        r@ == spec_gray(rgba@),
        r@.len() == n,
        forall|i: int| 0 <= i < n ==> 0 <= #[trigger] r@[i] <= GRAY_WHITE,
{
    let total = rgba.len();
    assert(n * 4 <= usize::MAX);
    let mut out: Vec<i64> = Vec::new();
    let mut i: usize = 0;
    while i < n
        invariant
            i <= n,
            n * 4 <= usize::MAX,
            rgba@.len() == n * 4,
            out@.len() == i,
            forall|j: int| 0 <= j < i ==> out@[j] == spec_gray(rgba@)[j],
            forall|j: int| 0 <= j < i ==> 0 <= #[trigger] out@[j] <= GRAY_WHITE,
        decreases n - i,
    {
        let r = rgba[4 * i];
        let g = rgba[4 * i + 1];
        let b = rgba[4 * i + 2];
        let a = rgba[4 * i + 3];
        proof {
            lemma_lum_bounds(r, g, b, a);
        }
        let weighted: i64 = 299 * (r as i64) + 587 * (g as i64) + 114 * (b as i64);
        proof {
            assert(weighted * (a as i64) == (299 * r + 587 * g + 114 * b) * a);
        }
        let lum: i64 = weighted * (a as i64) + 255000 * (255 - (a as i64));
        out.push(lum);
        i = i + 1;
    }
    assert(out@ =~= spec_gray(rgba@));
    out
}

// ── Bilinear resize ───────────────────────────────────────────────────────

/// The dimensions after the optional downscale: unchanged when the width
/// fits, else the maximum width and a proportionally scaled height of at
/// least one line.
pub open spec fn resize_dims(w: nat, h: nat, maxw: nat) -> (nat, nat) {
    if w <= maxw {
        (w, h)
    } else {
        let nh = (h * maxw) / w;
        (maxw, if nh >= 1 { nh } else { 1 })
    }
}

/// The interpolation denominator of one axis: `n - 1`, at least one.
pub open spec fn axis_den(n: nat) -> nat {
    if n > 1 {
        (n - 1) as nat
    } else {
        1
    }
}

/// One bilinearly sampled pixel of the downscaled image, in fixed point:
/// the four surrounding source pixels weighted by the fractional sample
/// position, with the weight sums carried out over the integer grid
/// `axis_den(nw) * axis_den(nh)`.
pub open spec fn bilinear_px(
    g: Seq<i64>,
    w: nat,
    h: nat,
    nw: nat,
    nh: nat,
    x: nat,
    y: nat,
) -> int {
    let dx = axis_den(nw) as int;
    let dy = axis_den(nh) as int;
    let sxn = x * (w - 1);
    let syn = y * (h - 1);
    let x0 = sxn / dx;
    let y0 = syn / dy;
    let fx = sxn % dx;
    let fy = syn % dy;
    let x1 = if x0 + 1 < w - 1 { x0 + 1 } else { w - 1 };
    let y1 = if y0 + 1 < h - 1 { y0 + 1 } else { h - 1 };
    let p00 = g[y0 * w + x0] as int;
    let p10 = g[y0 * w + x1] as int;
    let p01 = g[y1 * w + x0] as int;
    let p11 = g[y1 * w + x1] as int;
    (p00 * (dx - fx) * (dy - fy) + p10 * fx * (dy - fy) + p01 * (dx - fx) * fy + p11 * fx * fy) / (
    dx * dy)
}

/// The downscaled grayscale buffer, row-major.
pub open spec fn spec_resized(g: Seq<i64>, w: nat, h: nat, nw: nat, nh: nat) -> Seq<i64> {
    Seq::new((nw * nh) as nat, |i: int| bilinear_px(g, w, h, nw, nh, (i % nw as int) as nat, (i / nw as int) as nat) as i64)
}


/// Bilinearly downscale a grayscale buffer from `w` by `h` to `nw` by `nh`.
#[verifier::rlimit(30)]
fn resize_gray(g: &Vec<i64>, w: u32, h: u32, nw: u32, nh: u32) -> (r: Vec<i64>)
    requires
        g@.len() == w * h,
        1 <= w,
        1 <= h,
        1 <= nh,
        nw <= w,
        forall|i: int| 0 <= i < g@.len() ==> 0 <= #[trigger] g@[i] <= GRAY_WHITE,
    ensures
        r@ == spec_resized(g@, w as nat, h as nat, nw as nat, nh as nat),
        r@.len() == nw * nh,
{
    let src_len = g.len();
    let dxu: u64 = if nw > 1 {
        (nw - 1) as u64
    } else {
        1
    };
    let dyu: u64 = if nh > 1 {
        (nh - 1) as u64
    } else {
        1
    };
    let ghost gs = g@;
    let mut out: Vec<i64> = Vec::new();
    let mut y: u32 = 0;
    while y < nh
        invariant
            y <= nh,
            g@ == gs,
            g@.len() == w * h,
            1 <= w,
            1 <= h,
            1 <= nh,
            nw <= w,
            w * h <= usize::MAX,
            dxu == axis_den(nw as nat),
            dyu == axis_den(nh as nat),
            forall|i: int| 0 <= i < g@.len() ==> 0 <= #[trigger] g@[i] <= GRAY_WHITE,
            out@.len() == y * nw,
            forall|j: int|
                0 <= j < out@.len() ==> out@[j] == spec_resized(
                    gs,
                    w as nat,
                    h as nat,
                    nw as nat,
                    nh as nat,
                )[j],
        decreases nh - y,
    {
        let mut x: u32 = 0;
        while x < nw
            invariant
                x <= nw,
                y < nh,
                g@ == gs,
                g@.len() == w * h,
                1 <= w,
                1 <= h,
                1 <= nh,
                nw <= w,
                w * h <= usize::MAX,
                dxu == axis_den(nw as nat),
                dyu == axis_den(nh as nat),
                forall|i: int| 0 <= i < g@.len() ==> 0 <= #[trigger] g@[i] <= GRAY_WHITE,
                out@.len() == y * nw + x,
                forall|j: int|
                    0 <= j < out@.len() ==> out@[j] == spec_resized(
                        gs,
                        w as nat,
                        h as nat,
                        nw as nat,
                        nh as nat,
                    )[j],
            decreases nw - x,
        {
            proof {
                vstd::arithmetic::mul::lemma_mul_upper_bound(
                    x as int,
                    0xFFFFFFFF,
                    (w - 1) as int,
                    0xFFFFFFFF,
                );
                vstd::arithmetic::mul::lemma_mul_upper_bound(
                    y as int,
                    0xFFFFFFFF,
                    (h - 1) as int,
                    0xFFFFFFFF,
                );
            }
            let sxn: u64 = (x as u64) * ((w - 1) as u64);
            let syn: u64 = (y as u64) * ((h - 1) as u64);
            let x0: u64 = sxn / dxu;
            let fx: u64 = sxn % dxu;
            let y0: u64 = syn / dyu;
            let fy: u64 = syn % dyu;
            proof {
                lemma_axis_sample_bound(x as nat, w as nat, nw as nat);
                lemma_axis_sample_bound(y as nat, h as nat, nh as nat);
            }
            let x1: u64 = if x0 + 1 < (w - 1) as u64 {
                x0 + 1
            } else {
                (w - 1) as u64
            };
            let y1: u64 = if y0 + 1 < (h - 1) as u64 {
                y0 + 1
            } else {
                (h - 1) as u64
            };
            proof {
                lemma_grid_index(x0 as nat, y0 as nat, w as nat, h as nat);
                lemma_grid_index(x1 as nat, y0 as nat, w as nat, h as nat);
                lemma_grid_index(x0 as nat, y1 as nat, w as nat, h as nat);
                lemma_grid_index(x1 as nat, y1 as nat, w as nat, h as nat);
            }
            let wus = w as usize;
            let p00 = g[(y0 as usize) * wus + x0 as usize];
            let p10 = g[(y0 as usize) * wus + x1 as usize];
            let p01 = g[(y1 as usize) * wus + x0 as usize];
            let p11 = g[(y1 as usize) * wus + x1 as usize];
            proof {
                lemma_bilinear_bounds(
                    p00 as int,
                    p10 as int,
                    p01 as int,
                    p11 as int,
                    dxu as int,
                    dyu as int,
                    fx as int,
                    fy as int,
                );
            }
            let wx0: u128 = (dxu - fx) as u128;
            let wx1: u128 = fx as u128;
            let wy0: u128 = (dyu - fy) as u128;
            let wy1: u128 = fy as u128;
            let num: u128 = (p00 as u128) * wx0 * wy0 + (p10 as u128) * wx1 * wy0 + (p01
                as u128) * wx0 * wy1 + (p11 as u128) * wx1 * wy1;
            let dd: u128 = (dxu as u128) * (dyu as u128);
            let val: u128 = num / dd;
            proof {
                vstd::arithmetic::div_mod::lemma_div_is_ordered(
                    num as int,
                    (GRAY_WHITE as int) * (dd as int),
                    dd as int,
                );
                vstd::arithmetic::div_mod::lemma_div_multiples_vanish(
                    GRAY_WHITE as int,
                    dd as int,
                );
                assert((dd as int) * (GRAY_WHITE as int) == (GRAY_WHITE as int) * (dd as int))
                    by (nonlinear_arith);
                assert(val as int == bilinear_px(
                    gs,
                    w as nat,
                    h as nat,
                    nw as nat,
                    nh as nat,
                    x as nat,
                    y as nat,
                ));
            }
            let idx: usize = out.len();
            out.push(val as i64);
            proof {
                vstd::arithmetic::div_mod::lemma_fundamental_div_mod_converse_div(
                    idx as int,
                    nw as int,
                    y as int,
                    x as int,
                );
                vstd::arithmetic::div_mod::lemma_fundamental_div_mod_converse_mod(
                    idx as int,
                    nw as int,
                    y as int,
                    x as int,
                );
                vstd::arithmetic::mul::lemma_mul_upper_bound(
                    y as int,
                    (nh - 1) as int,
                    nw as int,
                    nw as int,
                );
                assert(idx < nw * nh) by (nonlinear_arith)
                    requires idx == y * nw + x && x < nw && y < nh
                ;
            }
            x = x + 1;
        }
        y = y + 1;
        proof {
            assert((y - 1) * nw + nw == y * nw) by (nonlinear_arith);
        }
    }
    proof {
        vstd::arithmetic::mul::lemma_mul_is_commutative(nh as int, nw as int);
        assert(out@ =~= spec_resized(gs, w as nat, h as nat, nw as nat, nh as nat));
    }
    out
}

/// An interpolated source coordinate stays inside the source axis: sampling
/// position `x` of `n` target pixels lands at or before source pixel `w - 1`.
proof fn lemma_axis_sample_bound(x: nat, w: nat, n: nat)
    requires
        1 <= w,
        x < n || (n == 0 && x == 0),
    ensures
        (x * (w - 1)) / (axis_den(n) as int) <= w - 1,
        (x * (w - 1)) % (axis_den(n) as int) < axis_den(n),
{
    let d = axis_den(n) as int;
    let s = x * (w - 1);
    if n <= 1 {
        assert(x == 0);
        assert(s == 0) by (nonlinear_arith)
            requires s == x * (w - 1) && x == 0
        ;
    } else {
        vstd::arithmetic::mul::lemma_mul_inequality(x as int, (n - 1) as int, (w - 1) as int);
        vstd::arithmetic::div_mod::lemma_div_is_ordered(s as int, (n - 1) * (w - 1), d);
        vstd::arithmetic::div_mod::lemma_div_multiples_vanish((w - 1) as int, d);
    }
    vstd::arithmetic::div_mod::lemma_remainder_upper(s as int, d);
    assert(s % d < d) by (nonlinear_arith)
        requires d >= 1 && s >= 0
    ;
}

/// A coordinate pair inside the grid indexes inside the row-major buffer.
proof fn lemma_grid_index(x: nat, y: nat, w: nat, h: nat)
    requires
        x < w,
        y < h,
    ensures
        y * w + x < w * h,
        (y * w + x) as int == (y as int) * (w as int) + x as int,
{
    assert(y * w + x < w * h) by (nonlinear_arith)
        requires x < w && y < h
    ;
}

/// The bilinear numerator of in-range pixels stays within `GRAY_WHITE` times
/// the weight grid.
proof fn lemma_bilinear_bounds(p00: int, p10: int, p01: int, p11: int, dx: int, dy: int, fx: int, fy: int)
    requires
        0 <= p00 <= GRAY_WHITE as int,
        0 <= p10 <= GRAY_WHITE as int,
        0 <= p01 <= GRAY_WHITE as int,
        0 <= p11 <= GRAY_WHITE as int,
        1 <= dx <= 0xFFFFFFFF,
        1 <= dy <= 0xFFFFFFFF,
        0 <= fx < dx,
        0 <= fy < dy,
    ensures
        0 <= p00 * (dx - fx) * (dy - fy) + p10 * fx * (dy - fy) + p01 * (dx - fx) * fy + p11 * fx
            * fy <= (GRAY_WHITE as int) * (dx * dy),
        1 <= dx * dy <= 0x10000000000000000,
        0 <= p00 * (dx - fx) <= 0x400000000000000,
        0 <= p10 * fx <= 0x400000000000000,
        0 <= p01 * (dx - fx) <= 0x400000000000000,
        0 <= p11 * fx <= 0x400000000000000,
        0 <= p00 * (dx - fx) * (dy - fy) <= 0x8000000000000000000000000,
        0 <= p10 * fx * (dy - fy) <= 0x8000000000000000000000000,
        0 <= p01 * (dx - fx) * fy <= 0x8000000000000000000000000,
        0 <= p11 * fx * fy <= 0x8000000000000000000000000,
{
    assert(0 <= p00 * (dx - fx) <= 0x400000000000000) by (nonlinear_arith)
        requires 0 <= p00 <= GRAY_WHITE as int && 0 <= dx - fx <= 0xFFFFFFFF
    ;
    assert(0 <= p10 * fx <= 0x400000000000000) by (nonlinear_arith)
        requires 0 <= p10 <= GRAY_WHITE as int && 0 <= fx <= 0xFFFFFFFF
    ;
    assert(0 <= p01 * (dx - fx) <= 0x400000000000000) by (nonlinear_arith)
        requires 0 <= p01 <= GRAY_WHITE as int && 0 <= dx - fx <= 0xFFFFFFFF
    ;
    assert(0 <= p11 * fx <= 0x400000000000000) by (nonlinear_arith)
        requires 0 <= p11 <= GRAY_WHITE as int && 0 <= fx <= 0xFFFFFFFF
    ;
    vstd::arithmetic::mul::lemma_mul_upper_bound(p00 * (dx - fx), 0x400000000000000, dy - fy, 0xFFFFFFFF);
    vstd::arithmetic::mul::lemma_mul_upper_bound(p10 * fx, 0x400000000000000, dy - fy, 0xFFFFFFFF);
    vstd::arithmetic::mul::lemma_mul_upper_bound(p01 * (dx - fx), 0x400000000000000, fy, 0xFFFFFFFF);
    vstd::arithmetic::mul::lemma_mul_upper_bound(p11 * fx, 0x400000000000000, fy, 0xFFFFFFFF);
    vstd::arithmetic::mul::lemma_mul_nonnegative(p00 * (dx - fx), dy - fy);
    vstd::arithmetic::mul::lemma_mul_nonnegative(p10 * fx, dy - fy);
    vstd::arithmetic::mul::lemma_mul_nonnegative(p01 * (dx - fx), fy);
    vstd::arithmetic::mul::lemma_mul_nonnegative(p11 * fx, fy);
    assert(1 <= dx * dy <= 0x10000000000000000) by (nonlinear_arith)
        requires 1 <= dx <= 0xFFFFFFFF && 1 <= dy <= 0xFFFFFFFF
    ;
    let gw = GRAY_WHITE as int;
    assert(0 <= p00 * (dx - fx) * (dy - fy) <= gw * ((dx - fx) * (dy - fy))) by (nonlinear_arith)
        requires 0 <= p00 <= gw && 0 <= dx - fx && 0 <= dy - fy
    ;
    assert(0 <= p10 * fx * (dy - fy) <= gw * (fx * (dy - fy))) by (nonlinear_arith)
        requires 0 <= p10 <= gw && 0 <= fx && 0 <= dy - fy
    ;
    assert(0 <= p01 * (dx - fx) * fy <= gw * ((dx - fx) * fy)) by (nonlinear_arith)
        requires 0 <= p01 <= gw && 0 <= dx - fx && 0 <= fy
    ;
    assert(0 <= p11 * fx * fy <= gw * (fx * fy)) by (nonlinear_arith)
        requires 0 <= p11 <= gw && 0 <= fx && 0 <= fy
    ;
    assert((dx - fx) * (dy - fy) + fx * (dy - fy) + (dx - fx) * fy + fx * fy == dx * dy)
        by (nonlinear_arith);
    let wa = (dx - fx) * (dy - fy);
    let wb = fx * (dy - fy);
    let wc = (dx - fx) * fy;
    let wd = fx * fy;
    vstd::arithmetic::mul::lemma_mul_is_distributive_add(gw, wa, wb);
    vstd::arithmetic::mul::lemma_mul_is_distributive_add(gw, wa + wb, wc);
    vstd::arithmetic::mul::lemma_mul_is_distributive_add(gw, wa + wb + wc, wd);
    assert(gw * wa + gw * wb + gw * wc + gw * wd == gw * (dx * dy));
    assert(1 <= dx * dy) by (nonlinear_arith)
        requires 1 <= dx && 1 <= dy
    ;
}


// ── Binarisation ──────────────────────────────────────────────────────────

/// Threshold binarisation: a pixel darker than 50% becomes black (true).
pub open spec fn spec_threshold(g: Seq<i64>) -> Seq<bool> {
    Seq::new(g.len(), |i: int| g[i] < GRAY_THRESHOLD)
}

/// Threshold a grayscale buffer: fixed-point luminance below 128 is black.
fn threshold(g: &Vec<i64>) -> (r: Vec<bool>)
    ensures
        r@ == spec_threshold(g@),
{
    let n = g.len();
    let mut out: Vec<bool> = Vec::new();
    let mut i: usize = 0;
    while i < n
        invariant
            i <= n,
            n == g@.len(),
            out@.len() == i,
            forall|j: int| 0 <= j < i ==> out@[j] == (g@[j] < GRAY_THRESHOLD),
        decreases n - i,
    {
        out.push(g[i] < GRAY_THRESHOLD);
        i = i + 1;
    }
    assert(out@ =~= spec_threshold(g@));
    out
}

/// Clamp an unbounded integer into `[-i64::MAX, i64::MAX]`.
pub open spec fn sat_i64(v: int) -> int {
    if v > i64::MAX as int {
        i64::MAX as int
    } else if v < -(i64::MAX as int) {
        -(i64::MAX as int)
    } else {
        v
    }
}

/// A buffer cell after receiving the share `num/16` of the quantisation
/// error `e`, rounded down and saturating at the i64 range.
pub open spec fn diffused(v: i64, e: int, num: int) -> i64 {
    sat_i64(v + (e * num) / 16) as i64
}

/// One Floyd–Steinberg step at scan position `idx`: quantise the pixel and
/// spread its error 7/16 right, 3/16 below-left, 5/16 below and 1/16
/// below-right, skipping neighbours outside the image.
pub open spec fn fs_step(
    b: Seq<i64>,
    m: Seq<bool>,
    w: nat,
    h: nat,
    idx: nat,
) -> (Seq<i64>, Seq<bool>) {
    let x = idx % w;
    let y = idx / w;
    let old_v = b[idx as int] as int;
    let new_v: int = if old_v < GRAY_THRESHOLD as int {
        0
    } else {
        GRAY_WHITE as int
    };
    let e = old_v - new_v;
    let m2 = m.update(idx as int, new_v == 0);
    let b1 = if x + 1 < w {
        b.update(idx as int + 1, diffused(b[idx as int + 1], e, 7))
    } else {
        b
    };
    let b2 = if y + 1 < h && x > 0 {
        b1.update(idx as int + w as int - 1, diffused(b1[idx as int + w as int - 1], e, 3))
    } else {
        b1
    };
    let b3 = if y + 1 < h {
        b2.update(idx as int + w as int, diffused(b2[idx as int + w as int], e, 5))
    } else {
        b2
    };
    let b4 = if y + 1 < h && x + 1 < w {
        b3.update(idx as int + w as int + 1, diffused(b3[idx as int + w as int + 1], e, 1))
    } else {
        b3
    };
    (b4, m2)
}

/// The Floyd–Steinberg working state after the first `k` pixels of the
/// row-major scan: the error buffer and the monochrome bits so far.
pub open spec fn fs_state(g: Seq<i64>, w: nat, h: nat, k: nat) -> (Seq<i64>, Seq<bool>)
    decreases k,
{
    if k == 0 {
        (g, Seq::new(g.len(), |i: int| false))
    } else {
        let s = fs_state(g, w, h, (k - 1) as nat);
        fs_step(s.0, s.1, w, h, (k - 1) as nat)
    }
}

/// The monochrome bitmap Floyd–Steinberg produces for a whole image.
pub open spec fn fs_mono(g: Seq<i64>, w: nat, h: nat) -> Seq<bool> {
    fs_state(g, w, h, g.len()).1
}

/// Error diffusion never changes the size of the buffer or the bitmap.
pub proof fn lemma_fs_state_len(g: Seq<i64>, w: nat, h: nat, k: nat)
    requires
        g.len() == w * h,
        k <= g.len(),
    ensures
        fs_state(g, w, h, k).0.len() == g.len(),
        fs_state(g, w, h, k).1.len() == g.len(),
    decreases k,
{
    if k > 0 {
        lemma_fs_state_len(g, w, h, (k - 1) as nat);
        let idx = (k - 1) as nat;
        assert(w >= 1) by (nonlinear_arith)
            requires idx < w * h && w >= 0
        ;
        let x = idx % w;
        let y = idx / w;
        vstd::arithmetic::div_mod::lemma_fundamental_div_mod(idx as int, w as int);
        vstd::arithmetic::mul::lemma_mul_is_commutative(y as int, w as int);
        assert(y < h) by (nonlinear_arith)
            requires idx < w * h && idx as int == y * w + x && 0 <= x && w >= 1 && y >= 0
        ;
        if x + 1 < w {
            lemma_grid_index((x + 1) as nat, y, w, h);
        }
        if y + 1 < h {
            lemma_grid_index((if x > 0 { (x - 1) as nat } else { 0 }) as nat, (y + 1) as nat, w, h);
            lemma_grid_index(x, (y + 1) as nat, w, h);
            if x + 1 < w {
                lemma_grid_index((x + 1) as nat, (y + 1) as nat, w, h);
            }
            assert((y + 1) * w == y * w + w) by (nonlinear_arith);
        }
    }
}

/// Add the share `num/16` of the error `e` to a buffer cell, rounding the
/// share down and saturating at the i64 range.
fn add_err(v: i64, e: i128, num: i128) -> (r: i64)
    requires
        1 <= num <= 7,
        -0x20000000000000000 <= e <= 0x20000000000000000,
    ensures
        r == diffused(v, e as int, num as int),
{
    proof {
        assert(-0x100000000000000000 <= (e as int) * (num as int) <= 0x100000000000000000)
            by (nonlinear_arith)
            requires 1 <= num <= 7 && -0x20000000000000000 <= e <= 0x20000000000000000
        ;
    }
    let p: i128 = e * num;
    let d: i128 = if p >= 0 {
        ((p as u128) / 16) as i128
    } else {
        proof {
            lemma_floor_div16((-p) as int);
        }
        -((((-p) as u128 + 15) / 16) as i128)
    };
    let s: i128 = (v as i128) + d;
    if s > i64::MAX as i128 {
        i64::MAX
    } else if s < -(i64::MAX as i128) {
        -i64::MAX
    } else {
        s as i64
    }
}

/// Euclidean division by 16 of a negated positive value, written with
/// unsigned operations: `(-m) / 16 == -((m + 15) / 16)`.
proof fn lemma_floor_div16(m: int)
    requires
        m > 0,
    ensures
        (-m) / 16 == -((m + 15) / 16),
{
    let qm = m / 16;
    let rm = m % 16;
    vstd::arithmetic::div_mod::lemma_fundamental_div_mod(m, 16);
    if rm == 0 {
        vstd::arithmetic::div_mod::lemma_fundamental_div_mod_converse_div(-m, 16, -qm, 0);
        vstd::arithmetic::div_mod::lemma_fundamental_div_mod_converse_div(m + 15, 16, qm, 15);
    } else {
        vstd::arithmetic::div_mod::lemma_fundamental_div_mod_converse_div(
            -m,
            16,
            -qm - 1,
            16 - rm,
        );
        vstd::arithmetic::div_mod::lemma_fundamental_div_mod_converse_div(
            m + 15,
            16,
            qm + 1,
            rm - 1,
        );
    }
}

/// Copy a grayscale buffer into a fresh working vector.
fn copy_buf(g: &Vec<i64>) -> (r: Vec<i64>)
    ensures
        r@ == g@,
{
    let n = g.len();
    let mut out: Vec<i64> = Vec::new();
    let mut i: usize = 0;
    while i < n
        invariant
            i <= n,
            n == g@.len(),
            out@.len() == i,
            forall|j: int| 0 <= j < i ==> out@[j] == g@[j],
        decreases n - i,
    {
        out.push(g[i]);
        i = i + 1;
    }
    assert(out@ =~= g@);
    out
}

/// Floyd–Steinberg error-diffusion dithering over the fixed-point grayscale
/// buffer, row-major, with the error accumulating across rows.
fn floyd_steinberg(g: &Vec<i64>, w: u32, h: u32) -> (r: Vec<bool>)
    requires
        g@.len() == w * h,
    ensures
        r@ == fs_mono(g@, w as nat, h as nat),
{
    let n = g.len();
    let wus = w as usize;
    let hus = h as usize;
    let ghost gs = g@;
    let mut buf = copy_buf(g);
    let mut mono: Vec<bool> = vec![false; n];
    assert(mono@ =~= fs_state(gs, w as nat, h as nat, 0).1);
    let mut k: usize = 0;
    while k < n
        invariant
            k <= n,
            n == gs.len(),
            n == w * h,
            wus == w,
            hus == h,
            buf@.len() == n,
            mono@.len() == n,
            buf@ == fs_state(gs, w as nat, h as nat, k as nat).0,
            mono@ == fs_state(gs, w as nat, h as nat, k as nat).1,
        decreases n - k,
    {
        assert(w >= 1) by (nonlinear_arith)
            requires k < n && n == w * h && w >= 0
        ;
        let x = k % wus;
        let y = k / wus;
        proof {
            vstd::arithmetic::div_mod::lemma_fundamental_div_mod(k as int, wus as int);
            vstd::arithmetic::mul::lemma_mul_is_commutative(y as int, w as int);
            assert(y < h) by (nonlinear_arith)
                requires k < w * h && k == y * w + x && 0 <= x && w >= 1 && y >= 0
            ;
            if x + 1 < w {
                lemma_grid_index((x + 1) as nat, y as nat, w as nat, h as nat);
            }
            if y + 1 < h {
                lemma_grid_index((if x > 0 { (x - 1) as nat } else { 0 }) as nat, (y + 1) as nat, w as nat, h as nat);
                lemma_grid_index(x as nat, (y + 1) as nat, w as nat, h as nat);
                if x + 1 < w {
                    lemma_grid_index((x + 1) as nat, (y + 1) as nat, w as nat, h as nat);
                }
                assert((y + 1) * w == y * w + w) by (nonlinear_arith);
            }
        }
        let old_v = buf[k];
        let new_v: i64 = if old_v < GRAY_THRESHOLD {
            0
        } else {
            GRAY_WHITE
        };
        mono[k] = new_v == 0;
        let e: i128 = old_v as i128 - new_v as i128;
        if x + 1 < wus {
            buf[k + 1] = add_err(buf[k + 1], e, 7);
        }
        if y + 1 < hus {
            if x > 0 {
                buf[k + wus - 1] = add_err(buf[k + wus - 1], e, 3);
            }
            buf[k + wus] = add_err(buf[k + wus], e, 5);
            if x + 1 < wus {
                buf[k + wus + 1] = add_err(buf[k + wus + 1], e, 1);
            }
        }
        proof {
            let st = fs_state(gs, w as nat, h as nat, k as nat);
            let st2 = fs_step(st.0, st.1, w as nat, h as nat, k as nat);
            assert(fs_state(gs, w as nat, h as nat, (k + 1) as nat) == st2);
            assert(buf@ =~= st2.0);
            assert(mono@ =~= st2.1);
        }
        k = k + 1;
    }
    mono
}


// ── Bit packing ───────────────────────────────────────────────────────────

/// Packed bytes per raster line: the pixel width padded up to whole bytes.
pub open spec fn line_bytes(w: nat) -> nat {
    (w + 7) / 8
}

/// The MSB-first mask of bit position `i` within a byte (0 is the leftmost
/// pixel).
pub open spec fn bit_mask(i: nat) -> u8 {
    if i == 0 {
        0x80
    } else if i == 1 {
        0x40
    } else if i == 2 {
        0x20
    } else if i == 3 {
        0x10
    } else if i == 4 {
        0x08
    } else if i == 5 {
        0x04
    } else if i == 6 {
        0x02
    } else {
        0x01
    }
}

/// Byte `bi` of raster row `y` with its first `k` bits placed: bit `j` is
/// set exactly when pixel `bi*8 + j` of the row is inside the image and
/// black.
pub open spec fn row_byte_rec(m: Seq<bool>, w: nat, y: nat, bi: nat, k: nat) -> u8
    decreases k,
{
    if k == 0 {
        0
    } else {
        let prev = row_byte_rec(m, w, y, bi, (k - 1) as nat);
        let x = bi * 8 + (k - 1);
        if x < w && m[(y * w + x) as int] {
            prev | bit_mask((k - 1) as nat)
        } else {
            prev
        }
    }
}

/// One whole packed byte of a raster row.
pub open spec fn row_byte(m: Seq<bool>, w: nat, y: nat, bi: nat) -> u8 {
    row_byte_rec(m, w, y, bi, 8)
}

/// The packed raster rows of a monochrome bitmap, row-major, each row padded
/// to whole bytes, MSB first, 1 = black.
pub open spec fn pack_bytes(m: Seq<bool>, w: nat, h: nat) -> Seq<u8> {
    Seq::new(
        line_bytes(w) * h,
        |i: int| row_byte(m, w, (i / line_bytes(w) as int) as nat, (i % line_bytes(w) as int) as nat),
    )
}

/// The whole raster command of a monochrome bitmap: the 8-byte header (with
/// both dimensions truncated to 16 bits) followed by the packed rows.
pub open spec fn spec_pack_cmd(m: Seq<bool>, w: nat, h: nat) -> Seq<u8> {
    crate::commands::raster_image_bytes(
        (line_bytes(w) % 0x10000) as u16,
        (h % 0x10000) as u16,
        pack_bytes(m, w, h),
    )
}

/// The executable mask of bit position `i` within a byte.
fn bit_mask_exec(i: usize) -> (r: u8)
    requires
        i < 8,
    ensures
        r == bit_mask(i as nat),
{
    match i {
        0 => 0x80,
        1 => 0x40,
        2 => 0x20,
        3 => 0x10,
        4 => 0x08,
        5 => 0x04,
        6 => 0x02,
        _ => 0x01,
    }
}

/// How many bits of byte `bi` are placed once `x` columns of a row are done.
pub open spec fn bits_done(x: nat, bi: nat) -> nat {
    if x >= bi * 8 + 8 {
        8
    } else if x >= bi * 8 {
        (x - bi * 8) as nat
    } else {
        0
    }
}

/// Pixel columns at or past the image width add no bits: a partially filled
/// last byte is already the whole byte.
proof fn lemma_row_byte_saturates(m: Seq<bool>, w: nat, y: nat, bi: nat, k1: nat, k2: nat)
    requires
        k1 <= k2 <= 8,
        k1 == k2 || bi * 8 + k1 >= w,
    ensures
        row_byte_rec(m, w, y, bi, k2) == row_byte_rec(m, w, y, bi, k1),
    decreases k2,
{
    if k2 > k1 {
        lemma_row_byte_saturates(m, w, y, bi, k1, (k2 - 1) as nat);
    }
}

/// A pixel column indexes a packed byte inside the padded row.
proof fn lemma_byte_index(x: nat, w: nat)
    requires
        x < w,
    ensures
        x / 8 < line_bytes(w),
        x % 8 < 8,
        8 * (x / 8) + x % 8 == x,
        bits_done(x, x / 8) == x % 8,
        bits_done((x + 1) as nat, x / 8) == x % 8 + 1,
{
    vstd::arithmetic::div_mod::lemma_fundamental_div_mod(x as int, 8);
    vstd::arithmetic::div_mod::lemma_hoist_over_denominator(x as int, 1, 8);
    vstd::arithmetic::div_mod::lemma_div_is_ordered(x as int + 8, w as int + 7, 8);
    assert((x / 8) * 8 == 8 * (x / 8)) by (nonlinear_arith);
}

/// Pack a 1-bit monochrome bitmap into a `GS v 0` raster command: rows
/// padded to whole bytes, MSB first, 1 = black, the 8-byte header carrying
/// both dimensions truncated to 16 bits.
#[verifier::rlimit(30)]
pub fn pack_raster(mono: &Vec<bool>, width: u32, height: u32) -> (r: Vec<u8>)
    requires
        mono@.len() == width * height,
    ensures
        r@ == spec_pack_cmd(mono@, width as nat, height as nat),
        r@.len() == 8 + line_bytes(width as nat) * height,
{
    let n = mono.len();
    let ghost ms = mono@;
    let bpl32: u32 = width / 8 + (if width % 8 == 0 {
        0
    } else {
        1
    });
    proof {
        vstd::arithmetic::div_mod::lemma_fundamental_div_mod(width as int, 8);
        vstd::arithmetic::div_mod::lemma_hoist_over_denominator(width as int, 1, 8);
        if width % 8 == 0 {
            vstd::arithmetic::div_mod::lemma_fundamental_div_mod_converse_div(
                width as int + 7,
                8,
                width as int / 8,
                7,
            );
        }
        assert(bpl32 == line_bytes(width as nat));
    }
    let bpl = bpl32 as usize;
    let wus = width as usize;
    let mut raster: Vec<u8> = Vec::new();
    let mut y: u32 = 0;
    while y < height
        invariant
            y <= height,
            n == ms.len(),
            mono@ == ms,
            n == width * height,
            wus == width,
            bpl == line_bytes(width as nat),
            bpl32 == bpl,
            raster@.len() == y * bpl,
            forall|i: int|
                0 <= i < raster@.len() ==> raster@[i] == pack_bytes(
                    ms,
                    width as nat,
                    height as nat,
                )[i],
        decreases height - y,
    {
        proof {
            vstd::arithmetic::mul::lemma_mul_upper_bound(
                y as int + 1,
                height as int,
                bpl as int,
                bpl as int,
            );
            assert(height * bpl <= width * height || width == 0) by (nonlinear_arith)
                requires bpl <= width && height >= 0 && width >= 0
            ;
            assert(bpl <= width || width == 0);
            assert((y + 1) * bpl <= usize::MAX);
            assert(y * bpl + bpl == (y + 1) * bpl) by (nonlinear_arith);
        }
        let mut row: Vec<u8> = vec![0u8; bpl];
        let mut x: u32 = 0;
        while x < width
            invariant
                x <= width,
                y < height,
                n == ms.len(),
                mono@ == ms,
                n == width * height,
                wus == width,
                bpl == line_bytes(width as nat),
                row@.len() == bpl,
                forall|bj: int|
                    0 <= bj < bpl ==> row@[bj] == row_byte_rec(
                        ms,
                        width as nat,
                        y as nat,
                        bj as nat,
                        bits_done(x as nat, bj as nat),
                    ),
            decreases width - x,
        {
            proof {
                lemma_grid_index(x as nat, y as nat, width as nat, height as nat);
                lemma_byte_index(x as nat, width as nat);
            }
            if mono[(y as usize) * wus + (x as usize)] {
                let bi = (x / 8) as usize;
                let mask = bit_mask_exec((x % 8) as usize);
                row[bi] = row[bi] | mask;
            }
            x = x + 1;
            proof {
                assert(forall|bj: int|
                    0 <= bj < bpl ==> row@[bj] == row_byte_rec(
                        ms,
                        width as nat,
                        y as nat,
                        bj as nat,
                        bits_done(x as nat, bj as nat),
                    ));
            }
        }
        proof {
            assert forall|bj: int| 0 <= bj < bpl implies row@[bj] == row_byte(
                ms,
                width as nat,
                y as nat,
                bj as nat,
            ) by {
                lemma_row_byte_saturates(
                    ms,
                    width as nat,
                    y as nat,
                    bj as nat,
                    bits_done(width as nat, bj as nat),
                    8,
                );
            }
        }
        let ghost before = raster@;
        raster.extend_from_slice(row.as_slice());
        proof {
            assert forall|i: int| 0 <= i < raster@.len() implies raster@[i] == pack_bytes(
                ms,
                width as nat,
                height as nat,
            )[i] by {
                if i >= before.len() {
                    let bj = i - before.len();
                    vstd::arithmetic::div_mod::lemma_fundamental_div_mod_converse_div(
                        i,
                        bpl as int,
                        y as int,
                        bj,
                    );
                    vstd::arithmetic::div_mod::lemma_fundamental_div_mod_converse_mod(
                        i,
                        bpl as int,
                        y as int,
                        bj,
                    );
                    vstd::arithmetic::mul::lemma_mul_inequality(
                        y as int + 1,
                        height as int,
                        bpl as int,
                    );
                    vstd::arithmetic::mul::lemma_mul_is_commutative(height as int, bpl as int);
                    assert(i < line_bytes(width as nat) * height);
                    assert(raster@[i] == row@[bj]);
                    assert(i / (bpl as int) == y && i % (bpl as int) == bj);
                }
            }
        }
        y = y + 1;
    }
    proof {
        vstd::arithmetic::mul::lemma_mul_is_commutative(height as int, bpl as int);
        assert(raster@ =~= pack_bytes(ms, width as nat, height as nat));
        assert(bpl32 % 0x10000 == line_bytes(width as nat) % 0x10000);
    }
    let r = crate::commands::raster_image(
        (bpl32 % 0x10000) as u16,
        (height % 0x10000) as u16,
        raster.as_slice(),
    );
    proof {
        assert(r@ =~= spec_pack_cmd(ms, width as nat, height as nat));
    }
    r
}


// ── Whole pipeline ────────────────────────────────────────────────────────

/// The monochrome bitmap of a grayscale buffer under the chosen method.
pub open spec fn spec_mono(g: Seq<i64>, w: nat, h: nat, method: DitherMethod) -> Seq<bool> {
    match method {
        DitherMethod::Threshold => spec_threshold(g),
        DitherMethod::FloydSteinberg => fs_mono(g, w, h),
    }
}

/// The grayscale buffer after the optional downscale step.
pub open spec fn spec_scaled_gray(rgba: Seq<u8>, w: nat, h: nat, maxw: nat) -> Seq<i64> {
    let g = spec_gray(rgba);
    if w <= maxw {
        g
    } else {
        spec_resized(g, w, h, resize_dims(w, h, maxw).0, resize_dims(w, h, maxw).1)
    }
}

/// The whole raster command a given RGBA image dithers to.
pub open spec fn spec_dither(
    rgba: Seq<u8>,
    w: nat,
    h: nat,
    maxw: nat,
    method: DitherMethod,
) -> Seq<u8> {
    let dims = resize_dims(w, h, maxw);
    spec_pack_cmd(spec_mono(spec_scaled_gray(rgba, w, h, maxw), dims.0, dims.1, method), dims.0, dims.1)
}

/// Convert RGBA pixel data to a raster command using the given dithering
/// method.
///
/// `rgba` holds 4 bytes per pixel in RGBA order and must be exactly
/// `width * height * 4` bytes long — that is a caller precondition, as is a
/// nonzero height when the image is wider than `max_width_px`. Images wider
/// than `max_width_px` are scaled down proportionally. The result is a
/// `GS v 0` command of exactly `8 + ceil(w'/8) * h'` bytes for the final
/// dimensions `(w', h')`, ready for a receipt builder's raw-logo call.
pub fn dither_rgba(rgba: &[u8], width: u32, height: u32, max_width_px: u32, method: DitherMethod) -> (r: Vec<u8>)
    requires
        rgba@.len() == width * height * 4,
        width > max_width_px ==> height >= 1,
    ensures
        r@ == spec_dither(rgba@, width as nat, height as nat, max_width_px as nat, method),
        r@.len() == 8 + line_bytes(resize_dims(width as nat, height as nat, max_width_px as nat).0)
            * resize_dims(width as nat, height as nat, max_width_px as nat).1,
{
    let total = rgba.len();
    proof {
        assert(width * height * 4 <= usize::MAX);
        assert(width * height <= usize::MAX) by (nonlinear_arith)
            requires width * height * 4 <= usize::MAX && width >= 0 && height >= 0
        ;
        vstd::arithmetic::div_mod::lemma_div_multiples_vanish(
            (width * height) as int,
            4,
        );
        assert(4 * (width * height) == width * height * 4) by (nonlinear_arith);
    }
    let n: usize = (width as usize) * (height as usize);
    let gray = to_grayscale(rgba, n);

    let (gray2, nw, nh): (Vec<i64>, u32, u32) = if width <= max_width_px {
        (gray, width, height)
    } else {
        proof {
            vstd::arithmetic::mul::lemma_mul_upper_bound(
                height as int,
                0xFFFFFFFF,
                max_width_px as int,
                0xFFFFFFFF,
            );
            vstd::arithmetic::mul::lemma_mul_inequality(
                max_width_px as int,
                width as int,
                height as int,
            );
            vstd::arithmetic::mul::lemma_mul_is_commutative(height as int, width as int);
            vstd::arithmetic::mul::lemma_mul_is_commutative(height as int, max_width_px as int);
            vstd::arithmetic::div_mod::lemma_div_is_ordered(
                (height * max_width_px) as int,
                (height * width) as int,
                width as int,
            );
            vstd::arithmetic::div_mod::lemma_div_multiples_vanish(height as int, width as int);
        }
        let nh0: u32 = ((height as u64 * max_width_px as u64) / width as u64) as u32;
        let nh1: u32 = if nh0 >= 1 {
            nh0
        } else {
            1
        };
        let resized = resize_gray(&gray, width, height, max_width_px, nh1);
        (resized, max_width_px, nh1)
    };

    let ghost dims = resize_dims(width as nat, height as nat, max_width_px as nat);
    assert(nw == dims.0 && nh == dims.1);
    assert(gray2@ == spec_scaled_gray(rgba@, width as nat, height as nat, max_width_px as nat));
    assert(gray2@.len() == nw * nh) by {
        if width <= max_width_px {
        } else {
            vstd::arithmetic::mul::lemma_mul_is_commutative(nw as int, nh as int);
        }
    }

    let mono = match method {
        DitherMethod::Threshold => threshold(&gray2),
        DitherMethod::FloydSteinberg => floyd_steinberg(&gray2, nw, nh),
    };
    assert(mono@ == spec_mono(gray2@, nw as nat, nh as nat, method));
    proof {
        lemma_fs_state_len(gray2@, nw as nat, nh as nat, gray2@.len());
    }
    pack_raster(&mono, nw, nh)
}

/// Convert RGBA pixel data to a raster command using the simple threshold.
/// Convenience wrapper for `dither_rgba` with `DitherMethod::Threshold`.
pub fn threshold_rgba(rgba: &[u8], width: u32, height: u32, max_width_px: u32) -> (r: Vec<u8>)
    requires
        rgba@.len() == width * height * 4,
        width > max_width_px ==> height >= 1,
    ensures
        r@ == spec_dither(
            rgba@,
            width as nat,
            height as nat,
            max_width_px as nat,
            DitherMethod::Threshold,
        ),
{
    dither_rgba(rgba, width, height, max_width_px, DitherMethod::Threshold)
}

/// Convert RGBA pixel data to a raster command using Floyd–Steinberg.
/// Convenience wrapper for `dither_rgba` with `DitherMethod::FloydSteinberg`.
pub fn floyd_steinberg_rgba(rgba: &[u8], width: u32, height: u32, max_width_px: u32) -> (r: Vec<u8>)
    requires
        rgba@.len() == width * height * 4,
        width > max_width_px ==> height >= 1,
    ensures
        r@ == spec_dither(
            rgba@,
            width as nat,
            height as nat,
            max_width_px as nat,
            DitherMethod::FloydSteinberg,
        ),
{
    dither_rgba(rgba, width, height, max_width_px, DitherMethod::FloydSteinberg)
}


// ── The blank-image law ───────────────────────────────────────────────────

/// A bilinear sample of an all-white buffer is white.
proof fn lemma_bilinear_blank(g: Seq<i64>, w: nat, h: nat, nw: nat, nh: nat, x: nat, y: nat)
    requires
        1 <= w,
        1 <= h,
        x < nw,
        y < nh,
        g.len() == w * h,
        forall|i: int| 0 <= i < g.len() ==> g[i] == GRAY_WHITE,
    ensures
        bilinear_px(g, w, h, nw, nh, x, y) == GRAY_WHITE as int,
{
    let dx = axis_den(nw) as int;
    let dy = axis_den(nh) as int;
    let sxn = x * (w - 1);
    let syn = y * (h - 1);
    lemma_axis_sample_bound(x, w, nw);
    lemma_axis_sample_bound(y, h, nh);
    let x0 = (sxn / dx) as nat;
    let y0 = (syn / dy) as nat;
    let fx = sxn % dx;
    let fy = syn % dy;
    let x1 = if x0 + 1 < w - 1 { (x0 + 1) as nat } else { (w - 1) as nat };
    let y1 = if y0 + 1 < h - 1 { (y0 + 1) as nat } else { (h - 1) as nat };
    lemma_grid_index(x0, y0, w, h);
    lemma_grid_index(x1, y0, w, h);
    lemma_grid_index(x0, y1, w, h);
    lemma_grid_index(x1, y1, w, h);
    let gw = GRAY_WHITE as int;
    let wa = (dx - fx) * (dy - fy);
    let wb = fx * (dy - fy);
    let wc = (dx - fx) * fy;
    let wd = fx * fy;
    assert(wa + wb + wc + wd == dx * dy) by (nonlinear_arith)
        requires
            wa == (dx - fx) * (dy - fy) && wb == fx * (dy - fy) && wc == (dx - fx) * fy && wd
                == fx * fy,
    ;
    assert(gw * (wa + wb + wc + wd) == gw * wa + gw * wb + gw * wc + gw * wd) by (nonlinear_arith);
    assert(gw * (dx - fx) * (dy - fy) == gw * wa) by (nonlinear_arith)
        requires wa == (dx - fx) * (dy - fy)
    ;
    assert(gw * fx * (dy - fy) == gw * wb) by (nonlinear_arith)
        requires wb == fx * (dy - fy)
    ;
    assert(gw * (dx - fx) * fy == gw * wc) by (nonlinear_arith)
        requires wc == (dx - fx) * fy
    ;
    assert(gw * fx * fy == gw * wd) by (nonlinear_arith)
        requires wd == fx * fy
    ;
    assert(gw * (dx * dy) == (dx * dy) * gw) by (nonlinear_arith);
    assert(dx * dy >= 1) by (nonlinear_arith)
        requires dx >= 1 && dy >= 1
    ;
    vstd::arithmetic::div_mod::lemma_div_multiples_vanish(gw, dx * dy);
    assert(bilinear_px(g, w, h, nw, nh, x, y) == ((dx * dy) * gw) / (dx * dy));
}

/// Error diffusion leaves an all-white buffer untouched and marks no pixel
/// black: every quantisation error is zero.
proof fn lemma_fs_blank(g: Seq<i64>, w: nat, h: nat, k: nat)
    requires
        g.len() == w * h,
        k <= g.len(),
        forall|i: int| 0 <= i < g.len() ==> g[i] == GRAY_WHITE,
    ensures
        fs_state(g, w, h, k).0 == g,
        fs_state(g, w, h, k).1 == Seq::new(g.len(), |i: int| false),
    decreases k,
{
    if k > 0 {
        lemma_fs_blank(g, w, h, (k - 1) as nat);
        let idx = (k - 1) as nat;
        assert(w >= 1) by (nonlinear_arith)
            requires idx < w * h && w >= 0
        ;
        let x = idx % w;
        let y = idx / w;
        vstd::arithmetic::div_mod::lemma_fundamental_div_mod(idx as int, w as int);
        vstd::arithmetic::mul::lemma_mul_is_commutative(y as int, w as int);
        assert(y < h) by (nonlinear_arith)
            requires idx < w * h && idx as int == y * w + x && 0 <= x && w >= 1 && y >= 0
        ;
        if x + 1 < w {
            lemma_grid_index((x + 1) as nat, y, w, h);
        }
        if y + 1 < h {
            lemma_grid_index((if x > 0 { (x - 1) as nat } else { 0 }) as nat, (y + 1) as nat, w, h);
            lemma_grid_index(x, (y + 1) as nat, w, h);
            if x + 1 < w {
                lemma_grid_index((x + 1) as nat, (y + 1) as nat, w, h);
            }
            assert((y + 1) * w == y * w + w) by (nonlinear_arith);
        }
        let st = fs_state(g, w, h, idx);
        assert(st.0[idx as int] == GRAY_WHITE);
        assert(0int * 7 == 0 && 0int * 3 == 0 && 0int * 5 == 0 && 0int * 1 == 0);
        assert(diffused(GRAY_WHITE, 0, 7) == GRAY_WHITE);
        assert(diffused(GRAY_WHITE, 0, 3) == GRAY_WHITE);
        assert(diffused(GRAY_WHITE, 0, 5) == GRAY_WHITE);
        assert(diffused(GRAY_WHITE, 0, 1) == GRAY_WHITE);
        assert(fs_state(g, w, h, k).0 =~= g);
        assert(fs_state(g, w, h, k).1 =~= Seq::new(g.len(), |i: int| false));
    }
}

/// A packed byte of an all-white bitmap is zero.
proof fn lemma_row_byte_blank(m: Seq<bool>, w: nat, h: nat, y: nat, bi: nat, k: nat)
    requires
        m.len() == w * h,
        y < h,
        k <= 8,
        forall|i: int| 0 <= i < m.len() ==> !m[i],
    ensures
        row_byte_rec(m, w, y, bi, k) == 0,
    decreases k,
{
    if k > 0 {
        lemma_row_byte_blank(m, w, h, y, bi, (k - 1) as nat);
        let x = (bi * 8 + (k - 1)) as nat;
        if x < w {
            lemma_grid_index(x, y, w, h);
        }
    }
}

/// A fully transparent image dithers to a blank raster: every RGBA pixel
/// with alpha zero composites to white, so whatever the size, the maximum
/// width and the method, every byte after the 8-byte raster header is zero.
pub proof fn lemma_transparent_dithers_blank(
    rgba: Seq<u8>,
    w: nat,
    h: nat,
    maxw: nat,
    method: DitherMethod,
)
    requires
        rgba.len() == w * h * 4,
        w > maxw ==> h >= 1,
        forall|i: int| 0 <= i < w * h ==> #[trigger] rgba[4 * i + 3] == 0,
    ensures
        forall|j: int|
            8 <= j < spec_dither(rgba, w, h, maxw, method).len() ==> spec_dither(
                rgba,
                w,
                h,
                maxw,
                method,
            )[j] == 0,
{
    let g = spec_gray(rgba);
    assert(4 * (w * h) == w * h * 4) by (nonlinear_arith);
    vstd::arithmetic::div_mod::lemma_div_multiples_vanish((w * h) as int, 4);
    assert(g.len() == w * h);
    assert forall|i: int| 0 <= i < g.len() implies g[i] == GRAY_WHITE by {
        let a = rgba[4 * i + 3];
        assert(a == 0);
        assert((299 * rgba[4 * i] + 587 * rgba[4 * i + 1] + 114 * rgba[4 * i + 2]) * 0 == 0)
            by (nonlinear_arith);
    }
    let dims = resize_dims(w, h, maxw);
    let nw = dims.0;
    let nh = dims.1;
    let sg = spec_scaled_gray(rgba, w, h, maxw);
    assert(sg.len() == nw * nh) by {
        if w <= maxw {
        } else {
            vstd::arithmetic::mul::lemma_mul_is_commutative(nw as int, nh as int);
        }
    }
    assert forall|i: int| 0 <= i < sg.len() implies sg[i] == GRAY_WHITE by {
        if w <= maxw {
        } else {
            assert(w >= 1);
            let x = (i % nw as int) as nat;
            let y = (i / nw as int) as nat;
            assert(nw >= 1) by (nonlinear_arith)
                requires i < nw * nh && i >= 0 && nw >= 0
            ;
            vstd::arithmetic::div_mod::lemma_fundamental_div_mod(i, nw as int);
            vstd::arithmetic::mul::lemma_mul_is_commutative(y as int, nw as int);
            assert(y < nh) by (nonlinear_arith)
                requires
                    i < nw * nh && i == y * nw + x && 0 <= x < nw && nw >= 1 && y >= 0,
            ;
            lemma_bilinear_blank(g, w, h, nw, nh, x, y);
        }
    }
    let m = spec_mono(sg, nw, nh, method);
    assert(m.len() == nw * nh && forall|i: int| 0 <= i < m.len() ==> !m[i]) by {
        match method {
            DitherMethod::Threshold => {
                assert(spec_threshold(sg).len() == sg.len());
            },
            DitherMethod::FloydSteinberg => {
                lemma_fs_blank(sg, nw, nh, sg.len());
            },
        }
    }
    let packed = pack_bytes(m, nw, nh);
    assert forall|j: int| 0 <= j < packed.len() implies packed[j] == 0 by {
        let bpl = line_bytes(nw) as int;
        assert(bpl >= 1) by (nonlinear_arith)
            requires j < bpl * nh && j >= 0 && bpl >= 0
        ;
        let ry = j / bpl;
        vstd::arithmetic::div_mod::lemma_fundamental_div_mod(j, bpl);
        vstd::arithmetic::mul::lemma_mul_is_commutative(ry, bpl);
        assert(ry < nh) by (nonlinear_arith)
            requires
                j < bpl * nh && j == ry * bpl + (j % bpl) && 0 <= j % bpl < bpl && bpl >= 1
                    && ry >= 0,
        ;
        lemma_row_byte_blank(m, nw, nh, ry as nat, (j % bpl) as nat, 8);
    }
    let out = spec_dither(rgba, w, h, maxw, method);
    assert forall|j: int| 8 <= j < out.len() implies out[j] == 0 by {
        assert(out[j] == packed[j - 8]);
    }
}

} // verus!
