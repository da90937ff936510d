//! Exact coordinate-space math: window pixel, normalized-device, quad,
//! texture-UV and texture-pixel conversions.
//!
//! The render kernel's forward transform and its inverse are modelled over
//! exact rational numbers, so the inverse is the algebraic inverse of the
//! forward transform — not merely close to it. A rational is an unreduced
//! numerator/denominator pair; callers convert to and from the host's
//! floating-point values at the edge.

use vstd::prelude::*;

use crate::helpers::Size;

verus! {

/// Bound on the numerators, denominators and sizes the executable
/// transforms accept, chosen so every intermediate product fits in `i128`.
pub const RAT_MAG: i128 = 0x10_0000;

/// A rational as a ghost pair: numerator and denominator.
pub open spec fn int_rat(n: int) -> (int, int) {
    (n, 1)
}

/// Two rationals denote the same value (cross multiplication; sound when
/// denominators are nonzero).
pub open spec fn rat_eq(a: (int, int), b: (int, int)) -> bool {
    a.0 * b.1 == b.0 * a.1
}

/// `a <= b` for rationals with positive denominators.
pub open spec fn rat_le(a: (int, int), b: (int, int)) -> bool {
    a.0 * b.1 <= b.0 * a.1
}

pub open spec fn rat_add(a: (int, int), b: (int, int)) -> (int, int) {
    (a.0 * b.1 + b.0 * a.1, a.1 * b.1)
}

pub open spec fn rat_sub(a: (int, int), b: (int, int)) -> (int, int) {
    (a.0 * b.1 - b.0 * a.1, a.1 * b.1)
}

pub open spec fn rat_mul(a: (int, int), b: (int, int)) -> (int, int) {
    (a.0 * b.0, a.1 * b.1)
}

pub open spec fn rat_div(a: (int, int), b: (int, int)) -> (int, int) {
    (a.0 * b.1, a.1 * b.0)
}

pub open spec fn rat_min(a: (int, int), b: (int, int)) -> (int, int) {
    if rat_le(a, b) {
        a
    } else {
        b
    }
}

/// An exact rational value: a numerator and a positive denominator.
#[derive(Clone, Copy, PartialEq, Eq, Structural, Debug)]
pub struct Frac {
    pub num: i128,
    pub den: i128,
}

impl Frac {
    pub open spec fn view(self) -> (int, int) {
        (self.num as int, self.den as int)
    }

    /// Well-formed: the denominator is positive.
    pub open spec fn wf(self) -> bool {
        self.den > 0
    }

    /// Small enough to enter the executable transforms.
    pub open spec fn small(self) -> bool {
        &&& -RAT_MAG <= self.num <= RAT_MAG
        &&& 0 < self.den <= RAT_MAG
    }

    pub fn new(num: i64, den: i64) -> (r: Self)
        requires
            den > 0,
        ensures
            r@ == (num as int, den as int),
            r.wf(),
    {
        Self { num: num as i128, den: den as i128 }
    }

    pub fn from_int(n: i64) -> (r: Self)
        ensures
            r@ == int_rat(n as int),
            r.wf(),
    {
        Self { num: n as i128, den: 1 }
    }

    /// The largest integer at or below the value.
    ///
    /// Spec division on `int` rounds toward negative infinity when the
    /// divisor is positive, so the contract is exactly the floor.
    pub fn floor(self) -> (r: i64)
        requires
            self.wf(),
            self@.0 > i128::MIN,
            -0x4000_0000_0000_0000 <= self@.0 / self@.1 <= 0x4000_0000_0000_0000,
        ensures
            r == self@.0 / self@.1,
    {
        if self.num >= 0 {
            let q = self.num / self.den;
            q as i64
        } else {
            let a = -self.num;
            let q = a / self.den;
            let rem = a % self.den;
            proof {
                vstd::arithmetic::div_mod::lemma_fundamental_div_mod(a as int, self.den as int);
                if rem == 0 {
                    assert(self.num == self.den * (-q) + 0) by (nonlinear_arith)
                        requires
                            a == self.den * (a as int / self.den as int) + a as int % self.den as int,
                            q == a as int / self.den as int,
                            rem == a as int % self.den as int,
                            rem == 0,
                            self.num == -a,
                    ;
                    vstd::arithmetic::div_mod::lemma_fundamental_div_mod_converse(
                        self.num as int,
                        self.den as int,
                        -q as int,
                        0,
                    );
                } else {
                    assert(self.num == self.den * (-q - 1) + (self.den - rem)) by (nonlinear_arith)
                        requires
                            a == self.den * (a as int / self.den as int) + a as int % self.den as int,
                            q == a as int / self.den as int,
                            rem == a as int % self.den as int,
                            self.num == -a,
                    ;
                    vstd::arithmetic::div_mod::lemma_fundamental_div_mod_converse(
                        self.num as int,
                        self.den as int,
                        -q as int - 1,
                        self.den as int - rem as int,
                    );
                }
            }
            if rem == 0 {
                (-q) as i64
            } else {
                (-q - 1) as i64
            }
        }
    }

    /// The value rounded down to a multiple of `1/den`: the exact policy by
    /// which oversized exact results are brought back into a bounded
    /// range.
    pub fn quantize(self, den: i64) -> (r: Frac)
        requires
            self.wf(),
            0 < den,
            i128::MIN < self@.0 * den <= i128::MAX,
        ensures
            r@ == ((self@.0 * den as int) / self@.1, den as int),
            r.wf(),
            self@.0 * den >= 0 ==> 0 <= r@.0 <= self@.0 * den,
            self@.0 * den < 0 ==> self@.0 * den <= r@.0 <= 0,
    {
        let sn: i128 = self.num * (den as i128);
        let d: i128 = self.den;
        if sn >= 0 {
            let q = sn / d;
            proof {
                vstd::arithmetic::div_mod::lemma_fundamental_div_mod(sn as int, d as int);
                assert(0 <= sn as int / d as int <= sn) by (nonlinear_arith)
                    requires
                        sn == d * (sn as int / d as int) + (sn as int % d as int),
                        0 <= (sn as int % d as int) && (sn as int % d as int) < d,
                        1 <= d,
                        0 <= sn,
                ;
            }
            Frac { num: q, den: den as i128 }
        } else {
            let a = -sn;
            let q = a / d;
            let rem = a % d;
            proof {
                vstd::arithmetic::div_mod::lemma_fundamental_div_mod(a as int, d as int);
                if rem == 0 {
                    assert(sn == d * (-q) + 0) by (nonlinear_arith)
                        requires
                            a == d * (a as int / d as int) + (a as int % d as int),
                            q == a as int / d as int,
                            rem == a as int % d as int,
                            rem == 0,
                            sn == -a,
                    ;
                    vstd::arithmetic::div_mod::lemma_fundamental_div_mod_converse(
                        sn as int,
                        d as int,
                        -q as int,
                        0,
                    );
                } else {
                    assert(sn == d * (-q - 1) + (d - rem)) by (nonlinear_arith)
                        requires
                            a == d * (a as int / d as int) + (a as int % d as int),
                            q == a as int / d as int,
                            rem == a as int % d as int,
                            sn == -a,
                    ;
                    vstd::arithmetic::div_mod::lemma_fundamental_div_mod_converse(
                        sn as int,
                        d as int,
                        -q as int - 1,
                        d as int - rem as int,
                    );
                }
                assert(sn <= sn as int / d as int <= 0) by (nonlinear_arith)
                    requires
                        sn == d * (sn as int / d as int) + (sn as int % d as int),
                        0 <= (sn as int % d as int) && (sn as int % d as int) < d,
                        1 <= d,
                        sn < 0,
                ;
            }
            if rem == 0 {
                Frac { num: -q, den: den as i128 }
            } else {
                Frac { num: -q - 1, den: den as i128 }
            }
        }
    }
}

/// Largest window or texture dimension the executable transforms accept.
pub const DIM_MAG: u32 = 0x4000;

/// Bounds on a zoom value: a positive percentage with a modest denominator.
pub open spec fn zoom_ok(z: Frac) -> bool {
    0 < z.num <= RAT_MAG && 0 < z.den <= 0x400
}

/// The product of two bounded values is bounded, and positive factors give
/// a positive product.
pub(crate) proof fn lemma_mul_bounds(a: int, b: int, ba: int, bb: int) by (nonlinear_arith)
    requires
        -ba <= a <= ba,
        -bb <= b <= bb,
        0 <= ba,
        0 <= bb,
    ensures
        -(ba * bb) <= a * b <= ba * bb,
        (a > 0 && b > 0) ==> a * b > 0,
{
}

/// Last step of the round-trip proofs: once both sides are expressed over
/// the common factor `k`, the cross products agree.
proof fn lemma_round_trip_tail(
    r0: int,
    r1: int,
    c1: int,
    m: int,
    k: int,
    t0: int,
    t1: int,
    tw: int,
    o1: int,
    q1: int,
) by (nonlinear_arith)
    requires
        r0 == (2 * m) * tw,
        r1 == 4 * c1,
        c1 == k * q1,
        m == k * (((2 * t0) * o1) * o1),
        q1 == ((t1 * tw) * o1) * o1,
    ensures
        r0 * t1 == t0 * r1,
{
}

/// Horizontal view scale from the aspect ratios and the zoom percentage:
/// `min(textureAspect/windowAspect, 1) * zoom/100`, kept as an exact
/// rational with the ratio of aspects written as `(tw*wh, th*ww)`.
pub open spec fn spec_scale_x(ww: int, wh: int, tw: int, th: int, z: (int, int)) -> (int, int) {
    rat_mul(rat_min((tw * wh, th * ww), int_rat(1)), rat_div(z, int_rat(100)))
}

/// Vertical view scale: `min(windowAspect/textureAspect, 1) * zoom/100`.
pub open spec fn spec_scale_y(ww: int, wh: int, tw: int, th: int, z: (int, int)) -> (int, int) {
    rat_mul(rat_min((th * ww, tw * wh), int_rat(1)), rat_div(z, int_rat(100)))
}

/// Recomputes the view scale from the window/texture aspect ratios and the
/// zoom percentage, exactly.
pub fn scale_from_zoom(win: Size<u32>, tex: Size<u32>, zoom: Frac) -> (r: (Frac, Frac))
    requires
        0 < win.width <= DIM_MAG,
        0 < win.height <= DIM_MAG,
        0 < tex.width <= DIM_MAG,
        0 < tex.height <= DIM_MAG,
        zoom_ok(zoom),
    ensures
        r.0@ == spec_scale_x(win.width as int, win.height as int, tex.width as int,
            tex.height as int, zoom@),
        r.1@ == spec_scale_y(win.width as int, win.height as int, tex.width as int,
            tex.height as int, zoom@),
        r.0.wf(),
        r.1.wf(),
        r.0.num > 0,
        r.1.num > 0,
        r.0.num <= 0x1_0000_0000_0000,
        r.0.den <= 0x2000_0000_0000,
        r.1.num <= 0x1_0000_0000_0000,
        r.1.den <= 0x2000_0000_0000,
{
    let wwv = win.width as i128;
    let whv = win.height as i128;
    let twv = tex.width as i128;
    let thv = tex.height as i128;
    proof {
        lemma_mul_bounds(twv as int, whv as int, DIM_MAG as int, DIM_MAG as int);
        lemma_mul_bounds(thv as int, wwv as int, DIM_MAG as int, DIM_MAG as int);
    }
    let rn = twv * whv;
    let rd = thv * wwv;
    let (mxn, mxd): (i128, i128) = if rn <= rd { (rn, rd) } else { (1, 1) };
    let (myn, myd): (i128, i128) = if rd <= rn { (rd, rn) } else { (1, 1) };
    let zd100 = zoom.den * 100;
    proof {
        lemma_mul_bounds(mxn as int, zoom.num as int, 0x1000_0000, RAT_MAG as int);
        lemma_mul_bounds(mxd as int, zd100 as int, 0x1000_0000, 0x19000);
        lemma_mul_bounds(myn as int, zoom.num as int, 0x1000_0000, RAT_MAG as int);
        lemma_mul_bounds(myd as int, zd100 as int, 0x1000_0000, 0x19000);
    }
    let sx = Frac { num: mxn * zoom.num, den: mxd * zd100 };
    let sy = Frac { num: myn * zoom.num, den: myd * zd100 };
    proof {
        // spell out the components of the divided zoom for the solver
        let q = rat_div(zoom@, int_rat(100));
        assert(q.0 == zoom@.0 * 1);
        assert(q.1 == zoom@.1 * 100);
    }
    (sx, sy)
}

/// Maps a window-pixel position to a texture-pixel position: the exact
/// inverse of the render kernel's transform under the same zoom and
/// offset. Produces out-of-texture-bounds coordinates silently when the
/// pointer is outside the canvas; callers clamp before indexing pixels.
#[verifier::rlimit(80)]
pub fn window_to_texture(
    p: (Frac, Frac),
    win: Size<u32>,
    tex: Size<u32>,
    zoom: Frac,
    offset: (Frac, Frac),
) -> (r: (Frac, Frac))
    requires
        0 < win.width <= DIM_MAG,
        0 < win.height <= DIM_MAG,
        0 < tex.width <= DIM_MAG,
        0 < tex.height <= DIM_MAG,
        zoom_ok(zoom),
        p.0.small(),
        p.1.small(),
        offset.0.small(),
        offset.1.small(),
    ensures
        r.0@ == spec_window_to_texture_x(
            p.0@,
            win.width as int,
            spec_scale_x(win.width as int, win.height as int, tex.width as int,
                tex.height as int, zoom@),
            offset.0@,
            tex.width as int,
        ),
        r.1@ == spec_window_to_texture_y(
            p.1@,
            win.height as int,
            spec_scale_y(win.width as int, win.height as int, tex.width as int,
                tex.height as int, zoom@),
            offset.1@,
            tex.height as int,
        ),
        r.0.wf(),
        r.1.wf(),
{
    let (sx, sy) = scale_from_zoom(win, tex, zoom);
    let wv = win.width as i128;
    let hv = win.height as i128;
    let twv = tex.width as i128;
    let thv = tex.height as i128;
    // horizontal: ndc = 2*(px/w) - 1; quad = ndc/sx - ox; uv = quad/2 + 1/2
    proof {
        lemma_mul_bounds(p.0.den as int, wv as int, RAT_MAG as int, DIM_MAG as int);
    }
    let xm: i128 = p.0.den * wv;
    let xndc_n: i128 = 2 * p.0.num - xm;
    proof {
        lemma_mul_bounds(xndc_n as int, sx.den as int, 0x8_0000_0000, 0x2000_0000_0000);
        lemma_mul_bounds(xm as int, sx.num as int, 0x4_0000_0000, 0x1_0000_0000_0000);
    }
    let xf_n: i128 = xndc_n * sx.den;
    let xf_d: i128 = xm * sx.num;
    proof {
        lemma_mul_bounds(xf_n as int, offset.0.den as int, 0x1_0000_0000_0000_0000_0000,
            RAT_MAG as int);
        lemma_mul_bounds(offset.0.num as int, xf_d as int, RAT_MAG as int,
            0x4_0000_0000_0000_0000_0000);
        lemma_mul_bounds(xf_d as int, offset.0.den as int, 0x4_0000_0000_0000_0000_0000,
            RAT_MAG as int);
    }
    let xq_n: i128 = xf_n * offset.0.den - offset.0.num * xf_d;
    let xq_d: i128 = xf_d * offset.0.den;
    let xuv_n: i128 = 2 * xq_n + 2 * xq_d;
    let xuv_d: i128 = 4 * xq_d;
    proof {
        lemma_mul_bounds(xuv_n as int, twv as int, 0x400_0000_0000_0000_0000_0000_0000,
            DIM_MAG as int);
    }
    let rx = Frac { num: xuv_n * twv, den: xuv_d };
    // vertical: ndc = 1 - 2*(py/h); quad = ndc/sy - oy; uv = -quad/2 + 1/2
    proof {
        lemma_mul_bounds(p.1.den as int, hv as int, RAT_MAG as int, DIM_MAG as int);
    }
    let ym: i128 = p.1.den * hv;
    let yndc_n: i128 = ym - 2 * p.1.num;
    proof {
        lemma_mul_bounds(yndc_n as int, sy.den as int, 0x8_0000_0000, 0x2000_0000_0000);
        lemma_mul_bounds(ym as int, sy.num as int, 0x4_0000_0000, 0x1_0000_0000_0000);
    }
    let yf_n: i128 = yndc_n * sy.den;
    let yf_d: i128 = ym * sy.num;
    proof {
        lemma_mul_bounds(yf_n as int, offset.1.den as int, 0x1_0000_0000_0000_0000_0000,
            RAT_MAG as int);
        lemma_mul_bounds(offset.1.num as int, yf_d as int, RAT_MAG as int,
            0x4_0000_0000_0000_0000_0000);
        lemma_mul_bounds(yf_d as int, offset.1.den as int, 0x4_0000_0000_0000_0000_0000,
            RAT_MAG as int);
    }
    let yq_n: i128 = yf_n * offset.1.den - offset.1.num * yf_d;
    let yq_d: i128 = yf_d * offset.1.den;
    let yuv_n: i128 = 2 * yq_d - 2 * yq_n;
    let yuv_d: i128 = 4 * yq_d;
    proof {
        lemma_mul_bounds(yuv_n as int, thv as int, 0x400_0000_0000_0000_0000_0000_0000,
            DIM_MAG as int);
    }
    let ry = Frac { num: yuv_n * thv, den: yuv_d };
    (rx, ry)
}

/// Maps a texture-pixel position to a window-pixel position, as the render
/// kernel places it on screen.
#[verifier::rlimit(80)]
pub fn texture_to_window(
    t: (Frac, Frac),
    win: Size<u32>,
    tex: Size<u32>,
    zoom: Frac,
    offset: (Frac, Frac),
) -> (r: (Frac, Frac))
    requires
        0 < win.width <= DIM_MAG,
        0 < win.height <= DIM_MAG,
        0 < tex.width <= DIM_MAG,
        0 < tex.height <= DIM_MAG,
        zoom_ok(zoom),
        t.0.small(),
        t.1.small(),
        offset.0.small(),
        offset.1.small(),
    ensures
        r.0@ == spec_texture_to_window_x(
            t.0@,
            tex.width as int,
            spec_scale_x(win.width as int, win.height as int, tex.width as int,
                tex.height as int, zoom@),
            offset.0@,
            win.width as int,
        ),
        r.1@ == spec_texture_to_window_y(
            t.1@,
            tex.height as int,
            spec_scale_y(win.width as int, win.height as int, tex.width as int,
                tex.height as int, zoom@),
            offset.1@,
            win.height as int,
        ),
        r.0.wf(),
        r.1.wf(),
{
    let (sx, sy) = scale_from_zoom(win, tex, zoom);
    let wv = win.width as i128;
    let hv = win.height as i128;
    let twv = tex.width as i128;
    let thv = tex.height as i128;
    // horizontal: quad = 2*(tx/tw) - 1; ndc = (quad + ox)*sx; px = (ndc+1)/2*w
    proof {
        lemma_mul_bounds(t.0.den as int, twv as int, RAT_MAG as int, DIM_MAG as int);
    }
    let xm: i128 = t.0.den * twv;
    let xq_n: i128 = 2 * t.0.num - xm;
    proof {
        lemma_mul_bounds(xq_n as int, offset.0.den as int, 0x8_0000_0000, RAT_MAG as int);
        lemma_mul_bounds(offset.0.num as int, xm as int, RAT_MAG as int, 0x4_0000_0000);
        lemma_mul_bounds(xm as int, offset.0.den as int, 0x4_0000_0000, RAT_MAG as int);
    }
    let xa_n: i128 = xq_n * offset.0.den + offset.0.num * xm;
    let xa_d: i128 = xm * offset.0.den;
    proof {
        lemma_mul_bounds(xa_n as int, sx.num as int, 0x100_0000_0000_0000,
            0x1_0000_0000_0000);
        lemma_mul_bounds(xa_d as int, sx.den as int, 0x80_0000_0000_0000,
            0x2000_0000_0000);
    }
    let xndc_n: i128 = xa_n * sx.num;
    let xndc_d: i128 = xa_d * sx.den;
    proof {
        lemma_mul_bounds((xndc_n + xndc_d) as int, wv as int,
            0x200_0000_0000_0000_0000_0000_0000, DIM_MAG as int);
    }
    let rx = Frac { num: (xndc_n + xndc_d) * wv, den: 2 * xndc_d };
    // vertical: quad = 1 - 2*(ty/th); ndc = (quad + oy)*sy; py = (1-ndc)/2*h
    proof {
        lemma_mul_bounds(t.1.den as int, thv as int, RAT_MAG as int, DIM_MAG as int);
    }
    let ym: i128 = t.1.den * thv;
    let yq_n: i128 = ym - 2 * t.1.num;
    proof {
        lemma_mul_bounds(yq_n as int, offset.1.den as int, 0x8_0000_0000, RAT_MAG as int);
        lemma_mul_bounds(offset.1.num as int, ym as int, RAT_MAG as int, 0x4_0000_0000);
        lemma_mul_bounds(ym as int, offset.1.den as int, 0x4_0000_0000, RAT_MAG as int);
    }
    let ya_n: i128 = yq_n * offset.1.den + offset.1.num * ym;
    let ya_d: i128 = ym * offset.1.den;
    proof {
        lemma_mul_bounds(ya_n as int, sy.num as int, 0x100_0000_0000_0000,
            0x1_0000_0000_0000);
        lemma_mul_bounds(ya_d as int, sy.den as int, 0x80_0000_0000_0000,
            0x2000_0000_0000);
    }
    let yndc_n: i128 = ya_n * sy.num;
    let yndc_d: i128 = ya_d * sy.den;
    proof {
        lemma_mul_bounds((yndc_d - yndc_n) as int, hv as int,
            0x200_0000_0000_0000_0000_0000_0000, DIM_MAG as int);
    }
    let ry = Frac { num: (yndc_d - yndc_n) * hv, den: 2 * yndc_d };
    (rx, ry)
}

/// Inverse transform, horizontal axis: window pixel to texture pixel.
///
/// `ndc = 2*(px/w) - 1; quad = ndc/s - o; uv = quad/2 + 1/2; tex = uv*tw`.
pub open spec fn spec_window_to_texture_x(
    p: (int, int),
    w: int,
    s: (int, int),
    o: (int, int),
    tw: int,
) -> (int, int) {
    let ndc = rat_sub(rat_mul(rat_div(p, int_rat(w)), int_rat(2)), int_rat(1));
    let quad = rat_sub(rat_div(ndc, s), o);
    let uv = rat_add(rat_mul(quad, (1, 2)), (1, 2));
    rat_mul(uv, int_rat(tw))
}

/// Inverse transform, vertical axis (the device's y axis points down, so
/// the quad is flipped): `ndc = 1 - 2*(py/h); quad = ndc/s - o;
/// uv = -quad/2 + 1/2; tex = uv*th`.
pub open spec fn spec_window_to_texture_y(
    p: (int, int),
    h: int,
    s: (int, int),
    o: (int, int),
    th: int,
) -> (int, int) {
    let ndc = rat_sub(int_rat(1), rat_mul(rat_div(p, int_rat(h)), int_rat(2)));
    let quad = rat_sub(rat_div(ndc, s), o);
    let uv = rat_add(rat_mul(quad, (-1, 2)), (1, 2));
    rat_mul(uv, int_rat(th))
}

/// Forward transform, horizontal axis: texture pixel to window pixel, as
/// the render kernel computes it: `uv = tex/tw; quad = 2*uv - 1;
/// ndc = (quad + o)*s; px = (ndc + 1)/2 * w`.
pub open spec fn spec_texture_to_window_x(
    t: (int, int),
    tw: int,
    s: (int, int),
    o: (int, int),
    w: int,
) -> (int, int) {
    let quad = rat_sub(rat_mul(rat_div(t, int_rat(tw)), int_rat(2)), int_rat(1));
    let ndc = rat_mul(rat_add(quad, o), s);
    rat_mul(rat_div(rat_add(ndc, int_rat(1)), int_rat(2)), int_rat(w))
}

/// Forward transform, vertical axis: `uv = tex/th; quad = 1 - 2*uv;
/// ndc = (quad + o)*s; py = (1 - ndc)/2 * h`.
pub open spec fn spec_texture_to_window_y(
    t: (int, int),
    th: int,
    s: (int, int),
    o: (int, int),
    h: int,
) -> (int, int) {
    let quad = rat_sub(int_rat(1), rat_mul(rat_div(t, int_rat(th)), int_rat(2)));
    let ndc = rat_mul(rat_add(quad, o), s);
    rat_mul(rat_div(rat_sub(int_rat(1), ndc), int_rat(2)), int_rat(h))
}

/// The zoom after a scroll, pan or pinch step:
/// `max(zoom + delta*speed/100, 1)`, exactly.
pub open spec fn spec_apply_zoom(z: (int, int), d: (int, int), sp: (int, int)) -> (int, int) {
    let stepped = rat_add(z, rat_div(rat_mul(d, sp), int_rat(100)));
    if rat_le(stepped, int_rat(1)) {
        int_rat(1)
    } else {
        stepped
    }
}

/// Applies a zoom step and clamps at 100/100 of the base scale's floor of
/// one percent. The result is exact; callers quantize it back into
/// [`zoom_ok`] range before storing it.
pub fn apply_zoom(zoom: Frac, delta: Frac, speed: Frac) -> (r: Frac)
    requires
        zoom_ok(zoom),
        delta.small(),
        speed.small(),
    ensures
        r@ == spec_apply_zoom(zoom@, delta@, speed@),
        r.wf(),
{
    proof {
        lemma_mul_bounds(delta.num as int, speed.num as int, RAT_MAG as int, RAT_MAG as int);
        lemma_mul_bounds(delta.den as int, speed.den as int, RAT_MAG as int, RAT_MAG as int);
    }
    let dn: i128 = delta.num * speed.num;
    let dd: i128 = delta.den * speed.den;
    let dd100: i128 = dd * 100;
    proof {
        lemma_mul_bounds(zoom.num as int, dd100 as int, RAT_MAG as int, 0x1_9000_0000_0000);
        lemma_mul_bounds(dn as int, zoom.den as int, 0x100_0000_0000, 0x400);
        lemma_mul_bounds(zoom.den as int, dd100 as int, 0x400, 0x1_9000_0000_0000);
    }
    let sn: i128 = zoom.num * dd100 + dn * zoom.den;
    let sd: i128 = zoom.den * dd100;
    if sn <= sd {
        Frac { num: 1, den: 1 }
    } else {
        Frac { num: sn, den: sd }
    }
}

/// The pan delta along one axis: the pointer movement `d` (window pixels)
/// scaled by a thousandth, divided by the texture dimension's share of the
/// reference dimension and by the view scale.
pub open spec fn spec_pan_delta(d: (int, int), dim: int, sel: int, s: (int, int)) -> (int, int) {
    rat_div(rat_div(rat_mul(d, (1, 1000)), (dim, sel)), s)
}

/// The reference dimension of a pan: the texture width when the horizontal
/// scale is the smaller one, the texture height otherwise.
pub open spec fn spec_pan_sel(sx: (int, int), sy: (int, int), tw: int, th: int) -> int {
    if sx.0 * sy.1 < sy.0 * sx.1 {
        tw
    } else {
        th
    }
}

/// Clamps a value into `[-m, m]`.
pub open spec fn clamp_i(v: int, m: int) -> int {
    if v > m {
        m
    } else if v < -m {
        -m
    } else {
        v
    }
}

/// The view offset after a right-drag pan step.
///
/// Policy: the offset moves by the pointer delta scaled as
/// [`spec_pan_delta`] says, with the delta rounded down to a multiple of
/// two to the negative twentieth and clamped to two normalized-device
/// units per step, so the result stays representable; the machine's points
/// are untouched, so a grabbed point keeps its texture-space position
/// while the view moves. The vertical axis moves against the pointer (the
/// device's y axis points down).
pub fn pan_offset(
    grab_offset: (Frac, Frac),
    grab_pos: (Frac, Frac),
    cur_pos: (Frac, Frac),
    scale: (Frac, Frac),
    tex: Size<u32>,
) -> (r: (Frac, Frac))
    requires
        grab_offset.0.small(),
        grab_offset.1.small(),
        grab_pos.0.small(),
        grab_pos.1.small(),
        cur_pos.0.small(),
        cur_pos.1.small(),
        scale.0.wf(),
        scale.1.wf(),
        0 < scale.0.num <= 0x1_0000_0000_0000,
        scale.0.den <= 0x2000_0000_0000,
        0 < scale.1.num <= 0x1_0000_0000_0000,
        scale.1.den <= 0x2000_0000_0000,
        0 < tex.width <= DIM_MAG,
        0 < tex.height <= DIM_MAG,
    ensures
        ({
            let sel = spec_pan_sel(scale.0@, scale.1@, tex.width as int, tex.height as int);
            let dx = spec_pan_delta(
                rat_sub(cur_pos.0@, grab_pos.0@),
                tex.width as int,
                sel,
                scale.0@,
            );
            let dy = spec_pan_delta(
                rat_sub(grab_pos.1@, cur_pos.1@),
                tex.height as int,
                sel,
                scale.1@,
            );
            &&& r.0@ == rat_add(
                grab_offset.0@,
                (clamp_i((dx.0 * 0x10_0000) / dx.1, 0x20_0000), 0x10_0000),
            )
            &&& r.1@ == rat_add(
                grab_offset.1@,
                (clamp_i((dy.0 * 0x10_0000) / dy.1, 0x20_0000), 0x10_0000),
            )
        }),
        r.0.wf(),
        r.1.wf(),
{
    let twv = tex.width as i128;
    let thv = tex.height as i128;
    proof {
        lemma_mul_bounds(scale.0.num as int, scale.1.den as int, 0x1_0000_0000_0000,
            0x2000_0000_0000);
        lemma_mul_bounds(scale.1.num as int, scale.0.den as int, 0x1_0000_0000_0000,
            0x2000_0000_0000);
    }
    let sel: i128 = if scale.0.num * scale.1.den < scale.1.num * scale.0.den {
        twv
    } else {
        thv
    };
    // horizontal: d = cur - grab, then /1000, /(tw/sel), /sx
    proof {
        lemma_mul_bounds(cur_pos.0.num as int, grab_pos.0.den as int, RAT_MAG as int,
            RAT_MAG as int);
        lemma_mul_bounds(grab_pos.0.num as int, cur_pos.0.den as int, RAT_MAG as int,
            RAT_MAG as int);
        lemma_mul_bounds(cur_pos.0.den as int, grab_pos.0.den as int, RAT_MAG as int,
            RAT_MAG as int);
    }
    let dxn: i128 = cur_pos.0.num * grab_pos.0.den - grab_pos.0.num * cur_pos.0.den;
    let dxd: i128 = cur_pos.0.den * grab_pos.0.den;
    proof {
        lemma_mul_bounds(dxn as int, sel as int, 0x200_0000_0000, DIM_MAG as int);
        lemma_mul_bounds(dxd as int * 1000, twv as int, 0x4_0000_0000_0000, DIM_MAG as int);
    }
    let dxn2: i128 = dxn * sel;
    let dxd2: i128 = (dxd * 1000) * twv;
    proof {
        lemma_mul_bounds(dxn2 as int, scale.0.den as int, 0x800_0000_0000_0000,
            0x2000_0000_0000);
        lemma_mul_bounds(dxd2 as int, scale.0.num as int, 0x1_0000_0000_0000_0000,
            0x1_0000_0000_0000);
    }
    let dxn3: i128 = dxn2 * scale.0.den;
    let dxd3: i128 = dxd2 * scale.0.num;
    let qx0 = (Frac { num: dxn3, den: dxd3 }).quantize(0x10_0000);
    let qxn: i128 = if qx0.num > 0x20_0000 {
        0x20_0000
    } else if qx0.num < -0x20_0000 {
        -0x20_0000
    } else {
        qx0.num
    };
    proof {
        lemma_mul_bounds(qxn as int, grab_offset.0.den as int, 0x20_0000, RAT_MAG as int);
    }
    let rx = Frac {
        num: grab_offset.0.num * 0x10_0000 + qxn * grab_offset.0.den,
        den: grab_offset.0.den * 0x10_0000,
    };
    // vertical: d = grab - cur (the device's y axis points down)
    proof {
        lemma_mul_bounds(grab_pos.1.num as int, cur_pos.1.den as int, RAT_MAG as int,
            RAT_MAG as int);
        lemma_mul_bounds(cur_pos.1.num as int, grab_pos.1.den as int, RAT_MAG as int,
            RAT_MAG as int);
        lemma_mul_bounds(grab_pos.1.den as int, cur_pos.1.den as int, RAT_MAG as int,
            RAT_MAG as int);
    }
    let dyn_: i128 = grab_pos.1.num * cur_pos.1.den - cur_pos.1.num * grab_pos.1.den;
    let dyd: i128 = grab_pos.1.den * cur_pos.1.den;
    proof {
        lemma_mul_bounds(dyn_ as int, sel as int, 0x200_0000_0000, DIM_MAG as int);
        lemma_mul_bounds(dyd as int * 1000, thv as int, 0x4_0000_0000_0000, DIM_MAG as int);
    }
    let dyn2: i128 = dyn_ * sel;
    let dyd2: i128 = (dyd * 1000) * thv;
    proof {
        lemma_mul_bounds(dyn2 as int, scale.1.den as int, 0x800_0000_0000_0000,
            0x2000_0000_0000);
        lemma_mul_bounds(dyd2 as int, scale.1.num as int, 0x1_0000_0000_0000_0000,
            0x1_0000_0000_0000);
    }
    let dyn3: i128 = dyn2 * scale.1.den;
    let dyd3: i128 = dyd2 * scale.1.num;
    let qy0 = (Frac { num: dyn3, den: dyd3 }).quantize(0x10_0000);
    let qyn: i128 = if qy0.num > 0x20_0000 {
        0x20_0000
    } else if qy0.num < -0x20_0000 {
        -0x20_0000
    } else {
        qy0.num
    };
    proof {
        lemma_mul_bounds(qyn as int, grab_offset.1.den as int, 0x20_0000, RAT_MAG as int);
    }
    let ry = Frac {
        num: grab_offset.1.num * 0x10_0000 + qyn * grab_offset.1.den,
        den: grab_offset.1.den * 0x10_0000,
    };
    (rx, ry)
}

/// Round trip, horizontal axis: mapping a texture point to the window and
/// back yields the same rational, for any window and texture width, any
/// offset, and any nonzero scale.
pub proof fn lemma_round_trip_x(
    t0: int,
    t1: int,
    tw: int,
    w: int,
    s: (int, int),
    o: (int, int),
)
    requires
        t1 != 0,
        tw > 0,
        w > 0,
        s.0 != 0,
        s.1 > 0,
        o.1 > 0,
    ensures
        rat_eq(
            spec_window_to_texture_x(
                spec_texture_to_window_x((t0, t1), tw, s, o, w),
                w,
                s,
                o,
                tw,
            ),
            (t0, t1),
        ),
{
    let p = spec_texture_to_window_x((t0, t1), tw, s, o, w);
    let r = spec_window_to_texture_x(p, w, s, o, tw);
    // forward stages
    let quad = rat_sub(rat_mul(rat_div((t0, t1), int_rat(tw)), int_rat(2)), int_rat(1));
    let a = rat_add(quad, o);
    let ndc = rat_mul(a, s);
    // inverse stages
    let ndc2 = rat_sub(rat_mul(rat_div(p, int_rat(w)), int_rat(2)), int_rat(1));
    let f = rat_div(ndc2, s);
    let quad2 = rat_sub(f, o);
    let k = 2 * (w * (s.0 * s.1));
    assert(ndc2.0 == 2 * (ndc.0 * w) && ndc2.1 == 2 * (ndc.1 * w)) by (nonlinear_arith)
        requires
            ndc2.0 == 2 * p.0 - p.1 * w,
            ndc2.1 == p.1 * w,
            p.0 == (ndc.0 + ndc.1) * w,
            p.1 == 2 * ndc.1,
    ;
    assert(f.0 == k * a.0 && f.1 == k * a.1) by (nonlinear_arith)
        requires
            k == 2 * (w * (s.0 * s.1)),
            f.0 == ndc2.0 * s.1,
            f.1 == ndc2.1 * s.0,
            ndc2.0 == 2 * (ndc.0 * w),
            ndc2.1 == 2 * (ndc.1 * w),
            ndc.0 == a.0 * s.0,
            ndc.1 == a.1 * s.1,
    ;
    assert(quad2.0 == k * (a.0 * o.1 - o.0 * a.1) && quad2.1 == k * (a.1 * o.1))
        by (nonlinear_arith)
        requires
            quad2.0 == f.0 * o.1 - o.0 * f.1,
            quad2.1 == f.1 * o.1,
            f.0 == k * a.0,
            f.1 == k * a.1,
    ;
    assert(a.0 * o.1 - o.0 * a.1 == (quad.0 * o.1) * o.1 && a.1 * o.1 == (quad.1 * o.1) * o.1)
        by (nonlinear_arith)
        requires
            a.0 == quad.0 * o.1 + o.0 * quad.1,
            a.1 == quad.1 * o.1,
    ;
    let c0 = quad2.0;
    let c1 = quad2.1;
    let q0 = (quad.0 * o.1) * o.1;
    let q1 = (quad.1 * o.1) * o.1;
    assert(q0 + q1 == ((2 * t0) * o.1) * o.1) by (nonlinear_arith)
        requires
            q0 == (quad.0 * o.1) * o.1,
            q1 == (quad.1 * o.1) * o.1,
            quad.0 == 2 * t0 - t1 * tw,
            quad.1 == t1 * tw,
    ;
    assert(c0 + c1 == k * (q0 + q1)) by (nonlinear_arith)
        requires
            c0 == k * q0,
            c1 == k * q1,
    ;
    lemma_round_trip_tail(r.0, r.1, c1, c0 + c1, k, t0, t1, tw, o.1, q1);
}

/// Round trip, vertical axis.
pub proof fn lemma_round_trip_y(
    t0: int,
    t1: int,
    th: int,
    h: int,
    s: (int, int),
    o: (int, int),
)
    requires
        t1 != 0,
        th > 0,
        h > 0,
        s.0 != 0,
        s.1 > 0,
        o.1 > 0,
    ensures
        rat_eq(
            spec_window_to_texture_y(
                spec_texture_to_window_y((t0, t1), th, s, o, h),
                h,
                s,
                o,
                th,
            ),
            (t0, t1),
        ),
{
    let p = spec_texture_to_window_y((t0, t1), th, s, o, h);
    let r = spec_window_to_texture_y(p, h, s, o, th);
    // forward stages
    let quad = rat_sub(int_rat(1), rat_mul(rat_div((t0, t1), int_rat(th)), int_rat(2)));
    let a = rat_add(quad, o);
    let ndc = rat_mul(a, s);
    // inverse stages
    let ndc2 = rat_sub(int_rat(1), rat_mul(rat_div(p, int_rat(h)), int_rat(2)));
    let f = rat_div(ndc2, s);
    let quad2 = rat_sub(f, o);
    let k = 2 * (h * (s.0 * s.1));
    assert(ndc2.0 == 2 * (ndc.0 * h) && ndc2.1 == 2 * (ndc.1 * h)) by (nonlinear_arith)
        requires
            ndc2.0 == p.1 * h - 2 * p.0,
            ndc2.1 == p.1 * h,
            p.0 == (ndc.1 - ndc.0) * h,
            p.1 == 2 * ndc.1,
    ;
    assert(f.0 == k * a.0 && f.1 == k * a.1) by (nonlinear_arith)
        requires
            k == 2 * (h * (s.0 * s.1)),
            f.0 == ndc2.0 * s.1,
            f.1 == ndc2.1 * s.0,
            ndc2.0 == 2 * (ndc.0 * h),
            ndc2.1 == 2 * (ndc.1 * h),
            ndc.0 == a.0 * s.0,
            ndc.1 == a.1 * s.1,
    ;
    assert(quad2.0 == k * (a.0 * o.1 - o.0 * a.1) && quad2.1 == k * (a.1 * o.1))
        by (nonlinear_arith)
        requires
            quad2.0 == f.0 * o.1 - o.0 * f.1,
            quad2.1 == f.1 * o.1,
            f.0 == k * a.0,
            f.1 == k * a.1,
    ;
    assert(a.0 * o.1 - o.0 * a.1 == (quad.0 * o.1) * o.1 && a.1 * o.1 == (quad.1 * o.1) * o.1)
        by (nonlinear_arith)
        requires
            a.0 == quad.0 * o.1 + o.0 * quad.1,
            a.1 == quad.1 * o.1,
    ;
    let c0 = quad2.0;
    let c1 = quad2.1;
    let q0 = (quad.0 * o.1) * o.1;
    let q1 = (quad.1 * o.1) * o.1;
    assert(q1 - q0 == ((2 * t0) * o.1) * o.1) by (nonlinear_arith)
        requires
            q0 == (quad.0 * o.1) * o.1,
            q1 == (quad.1 * o.1) * o.1,
            quad.0 == t1 * th - 2 * t0,
            quad.1 == t1 * th,
    ;
    assert(c1 - c0 == k * (q1 - q0)) by (nonlinear_arith)
        requires
            c0 == k * q0,
            c1 == k * q1,
    ;
    lemma_round_trip_tail(r.0, r.1, c1, c1 - c0, k, t0, t1, th, o.1, q1);
}


/// Round trip through the full view pipeline: with the scale the zoom and
/// the window/texture sizes induce, mapping a texture point to the window
/// and back yields the same rational, for any sizes, any positive zoom and
/// any offset.
pub proof fn lemma_view_round_trip(
    t0: int,
    t1: int,
    ww: int,
    wh: int,
    tw: int,
    th: int,
    z: (int, int),
    ox: (int, int),
    oy: (int, int),
)
    requires
        t1 != 0,
        0 < ww,
        0 < wh,
        0 < tw,
        0 < th,
        z.0 > 0,
        z.1 > 0,
        ox.1 > 0,
        oy.1 > 0,
    ensures
        rat_eq(
            spec_window_to_texture_x(
                spec_texture_to_window_x((t0, t1), tw, spec_scale_x(ww, wh, tw, th, z), ox, ww),
                ww,
                spec_scale_x(ww, wh, tw, th, z),
                ox,
                tw,
            ),
            (t0, t1),
        ),
        rat_eq(
            spec_window_to_texture_y(
                spec_texture_to_window_y((t0, t1), th, spec_scale_y(ww, wh, tw, th, z), oy, wh),
                wh,
                spec_scale_y(ww, wh, tw, th, z),
                oy,
                th,
            ),
            (t0, t1),
        ),
{
    let sx = spec_scale_x(ww, wh, tw, th, z);
    let sy = spec_scale_y(ww, wh, tw, th, z);
    let mx = rat_min((tw * wh, th * ww), int_rat(1));
    let my = rat_min((th * ww, tw * wh), int_rat(1));
    lemma_mul_bounds(tw, wh, tw, wh);
    lemma_mul_bounds(th, ww, th, ww);
    assert(mx.0 > 0 && mx.1 > 0 && my.0 > 0 && my.1 > 0);
    lemma_mul_bounds(mx.0, z.0 * 1, mx.0, z.0 * 1);
    lemma_mul_bounds(mx.1, z.1 * 100, mx.1, z.1 * 100);
    lemma_mul_bounds(my.0, z.0 * 1, my.0, z.0 * 1);
    lemma_mul_bounds(my.1, z.1 * 100, my.1, z.1 * 100);
    assert(sx.0 > 0 && sx.1 > 0 && sy.0 > 0 && sy.1 > 0);
    lemma_round_trip_x(t0, t1, tw, ww, sx, ox);
    lemma_round_trip_y(t0, t1, th, wh, sy, oy);
}

} // verus!
