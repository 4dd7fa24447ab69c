//! Laws of the transform algebra.
//!
//! These proof functions state the guarantees callers rely on: the inverse
//! map undoes the forward map, an identity transform moves nothing,
//! composing with an identity transform is neutral, and a composed transform
//! acts exactly like the two transforms applied in sequence.

use vstd::prelude::*;

use crate::rational::{
    Frac, frac_add, frac_div, frac_eq, frac_from_int, frac_mul, frac_sub, frac_wf,
    lemma_add_comm, lemma_add_sub_cancel, lemma_add_sub_cancel_left, lemma_add_zero,
    lemma_frac_add_cong, lemma_frac_div_cong, lemma_frac_eq_trans, lemma_frac_mul_cong,
    lemma_frac_ops_wf, lemma_frac_sub_cong, lemma_mul_comm, lemma_mul_div_cancel, lemma_mul_one,
    lemma_mul_shuffle, lemma_sub_add_cancel, lemma_sub_zero,
};
use crate::transform::{
    FracPoint, TransV, compose_spec, fp_eq, fp_wf, ft_spec, is_identity, it_spec, rot_fwd_x,
    rot_fwd_y, rot_inv_x, rot_inv_y, rotation_unit, tv_wf,
};

verus! {

/// Rotating a point forward and then backward by the same unit vector gives
/// back the point.
#[verifier::rlimit(25)]
pub proof fn lemma_rot_roundtrip(x: Frac, y: Frac, c: Frac, s: Frac)
    requires
        frac_wf(x),
        frac_wf(y),
        frac_wf(c),
        frac_wf(s),
        frac_eq(frac_add(frac_mul(c, c), frac_mul(s, s)), frac_from_int(1)),
    ensures
        frac_eq(rot_inv_x(rot_fwd_x(x, y, c, s), rot_fwd_y(x, y, c, s), c, s), x),
        frac_eq(rot_inv_y(rot_fwd_x(x, y, c, s), rot_fwd_y(x, y, c, s), c, s), y),
{
    let a = rot_fwd_x(x, y, c, s);
    let b = rot_fwd_y(x, y, c, s);
    let zx = rot_inv_x(a, b, c, s);
    let zy = rot_inv_y(a, b, c, s);
    let unit = (c.n * c.n) * (s.d * s.d) + (s.n * s.n) * (c.d * c.d);
    let p = a.d;
    assert(b.d == p) by (nonlinear_arith)
        requires
            p == (x.d * c.d) * (y.d * s.d),
            b.d == (y.d * c.d) * (x.d * s.d),
    ;
    // Factor the shared denominator product out of the inverse numerators.
    let ex = (a.n * c.n) * s.d - (b.n * s.n) * c.d;
    assert(zx.n == p * ex) by (nonlinear_arith)
        requires
            zx.n == (a.n * c.n) * (b.d * s.d) - (b.n * s.n) * (a.d * c.d),
            b.d == p,
            a.d == p,
            ex == (a.n * c.n) * s.d - (b.n * s.n) * c.d,
    ;
    // Expand the numerator; the cross terms cancel and the unit condition
    // collapses what is left to the original coordinate.
    let cc = (c.n * c.n) * (s.d * s.d);
    let ss = (s.n * s.n) * (c.d * c.d);
    let d2 = (c.d * c.d) * (s.d * s.d);
    assert(unit == d2);
    let a1 = (x.n * c.n) * (y.d * s.d);
    let a2 = (y.n * s.n) * (x.d * c.d);
    let b1 = (y.n * c.n) * (x.d * s.d);
    let b2 = (x.n * s.n) * (y.d * c.d);
    assert((a.n * c.n) * s.d == (a1 * c.n) * s.d + (a2 * c.n) * s.d) by (nonlinear_arith)
        requires
            a.n == a1 + a2,
    ;
    assert((b.n * s.n) * c.d == (b1 * s.n) * c.d - (b2 * s.n) * c.d) by (nonlinear_arith)
        requires
            b.n == b1 - b2,
    ;
    lemma_mul_shuffle(y.n, s.n, x.d, c.d, c.n, s.d);
    assert((a2 * c.n) * s.d == (b1 * s.n) * c.d);
    assert((a1 * c.n) * s.d == (x.n * y.d) * cc) by (nonlinear_arith)
        requires
            a1 == (x.n * c.n) * (y.d * s.d),
            cc == (c.n * c.n) * (s.d * s.d),
    ;
    assert((b2 * s.n) * c.d == (x.n * y.d) * ss) by (nonlinear_arith)
        requires
            b2 == (x.n * s.n) * (y.d * c.d),
            ss == (s.n * s.n) * (c.d * c.d),
    ;
    assert(ex == (x.n * y.d) * cc + (x.n * y.d) * ss);
    assert(ex == (x.n * y.d) * d2) by (nonlinear_arith)
        requires
            ex == (x.n * y.d) * cc + (x.n * y.d) * ss,
            cc + ss == d2,
    ;
    assert(p * (c.d * s.d) == (x.d * y.d) * d2) by (nonlinear_arith)
        requires
            p == (x.d * c.d) * (y.d * s.d),
            d2 == (c.d * c.d) * (s.d * s.d),
    ;
    assert(zx.d == p * (p * (c.d * s.d))) by (nonlinear_arith)
        requires
            zx.d == (a.d * c.d) * (b.d * s.d),
            a.d == p,
            b.d == p,
    ;
    assert(zx.d == p * ((x.d * y.d) * d2));
    assert(zx.n * x.d == x.n * zx.d) by (nonlinear_arith)
        requires
            zx.n == p * ((x.n * y.d) * d2),
            zx.d == p * ((x.d * y.d) * d2),
    ;
    // The same route for the second coordinate.
    let ey = (a.n * s.n) * c.d + (b.n * c.n) * s.d;
    assert(zy.n == p * ey) by (nonlinear_arith)
        requires
            zy.n == (a.n * s.n) * (b.d * c.d) + (b.n * c.n) * (a.d * s.d),
            b.d == p,
            a.d == p,
            ey == (a.n * s.n) * c.d + (b.n * c.n) * s.d,
    ;
    assert((a.n * s.n) * c.d == (a1 * s.n) * c.d + (a2 * s.n) * c.d) by (nonlinear_arith)
        requires
            a.n == a1 + a2,
    ;
    assert((b.n * c.n) * s.d == (b1 * c.n) * s.d - (b2 * c.n) * s.d) by (nonlinear_arith)
        requires
            b.n == b1 - b2,
    ;
    lemma_mul_shuffle(x.n, c.n, y.d, s.d, s.n, c.d);
    assert((a1 * s.n) * c.d == (b2 * c.n) * s.d);
    assert((a2 * s.n) * c.d == (y.n * x.d) * ss) by (nonlinear_arith)
        requires
            a2 == (y.n * s.n) * (x.d * c.d),
            ss == (s.n * s.n) * (c.d * c.d),
    ;
    assert((b1 * c.n) * s.d == (y.n * x.d) * cc) by (nonlinear_arith)
        requires
            b1 == (y.n * c.n) * (x.d * s.d),
            cc == (c.n * c.n) * (s.d * s.d),
    ;
    assert(ey == (y.n * x.d) * ss + (y.n * x.d) * cc);
    assert(ey == (y.n * x.d) * d2) by (nonlinear_arith)
        requires
            ey == (y.n * x.d) * ss + (y.n * x.d) * cc,
            cc + ss == d2,
    ;
    assert(zy.d == p * (p * (s.d * c.d))) by (nonlinear_arith)
        requires
            zy.d == (a.d * s.d) * (b.d * c.d),
            a.d == p,
            b.d == p,
    ;
    assert(p * (s.d * c.d) == (x.d * y.d) * d2) by (nonlinear_arith)
        requires
            p == (x.d * c.d) * (y.d * s.d),
            d2 == (c.d * c.d) * (s.d * s.d),
    ;
    assert(zy.d == p * ((x.d * y.d) * d2));
    assert(zy.n * y.d == y.n * zy.d) by (nonlinear_arith)
        requires
            zy.n == p * ((y.n * x.d) * d2),
            zy.d == p * ((x.d * y.d) * d2),
    ;
}

/// Inverse law: for every transform with a unit rotation and a non-zero
/// scale, and every point, mapping forward and then backward returns the
/// point, exactly.
pub proof fn lemma_forward_inverse(t: TransV, p: FracPoint)
    requires
        tv_wf(t),
        fp_wf(p),
        rotation_unit(t),
        t.scale.n != 0,
    ensures
        fp_eq(it_spec(t, ft_spec(t, p)), p),
{
    let c = t.rot_cos;
    let s = t.rot_sin;
    let k = t.scale;
    let f = ft_spec(t, p);
    let cx = frac_sub(p.x, t.midx);
    let cy = frac_sub(p.y, t.midy);
    let rx = rot_fwd_x(cx, cy, c, s);
    let ry = rot_fwd_y(cx, cy, c, s);
    let sx = frac_mul(rx, k);
    let sy = frac_mul(ry, k);
    let ax = frac_add(sx, t.midx);
    let ay = frac_add(sy, t.midy);
    lemma_frac_ops_wf(p.x, t.midx);
    lemma_frac_ops_wf(p.y, t.midy);
    lemma_frac_ops_wf(cx, c);
    lemma_frac_ops_wf(cy, s);
    lemma_frac_ops_wf(cy, c);
    lemma_frac_ops_wf(cx, s);
    lemma_frac_ops_wf(frac_mul(cx, c), frac_mul(cy, s));
    lemma_frac_ops_wf(frac_mul(cy, c), frac_mul(cx, s));
    lemma_frac_ops_wf(rx, k);
    lemma_frac_ops_wf(ry, k);
    lemma_frac_ops_wf(sx, t.midx);
    lemma_frac_ops_wf(sy, t.midy);
    lemma_frac_ops_wf(ax, t.tx);
    lemma_frac_ops_wf(ay, t.ty);
    // Peel the translation.
    let ux = frac_sub(f.x, t.tx);
    let uy = frac_sub(f.y, t.ty);
    lemma_frac_ops_wf(f.x, t.tx);
    lemma_frac_ops_wf(f.y, t.ty);
    lemma_add_sub_cancel(ax, t.tx);
    lemma_add_sub_cancel(ay, t.ty);
    // Peel the recentring.
    let vx = frac_sub(ux, t.midx);
    let vy = frac_sub(uy, t.midy);
    lemma_frac_ops_wf(ux, t.midx);
    lemma_frac_ops_wf(uy, t.midy);
    lemma_frac_sub_cong(ux, ax, t.midx, t.midx);
    lemma_frac_sub_cong(uy, ay, t.midy, t.midy);
    lemma_frac_ops_wf(ax, t.midx);
    lemma_frac_ops_wf(ay, t.midy);
    lemma_add_sub_cancel(sx, t.midx);
    lemma_add_sub_cancel(sy, t.midy);
    lemma_frac_eq_trans(vx, frac_sub(ax, t.midx), sx);
    lemma_frac_eq_trans(vy, frac_sub(ay, t.midy), sy);
    // Peel the scale.
    let wx = frac_div(vx, k);
    let wy = frac_div(vy, k);
    lemma_frac_ops_wf(vx, k);
    lemma_frac_ops_wf(vy, k);
    lemma_frac_div_cong(vx, sx, k);
    lemma_frac_div_cong(vy, sy, k);
    lemma_frac_ops_wf(sx, k);
    lemma_frac_ops_wf(sy, k);
    lemma_mul_div_cancel(rx, k);
    lemma_mul_div_cancel(ry, k);
    lemma_frac_eq_trans(wx, frac_div(sx, k), rx);
    lemma_frac_eq_trans(wy, frac_div(sy, k), ry);
    // Peel the rotation.
    let zx = rot_inv_x(wx, wy, c, s);
    let zy = rot_inv_y(wx, wy, c, s);
    lemma_frac_mul_cong(wx, rx, c, c);
    lemma_frac_mul_cong(wy, ry, s, s);
    lemma_frac_mul_cong(wx, rx, s, s);
    lemma_frac_mul_cong(wy, ry, c, c);
    lemma_frac_ops_wf(wx, c);
    lemma_frac_ops_wf(wy, s);
    lemma_frac_ops_wf(wx, s);
    lemma_frac_ops_wf(wy, c);
    lemma_frac_ops_wf(rx, c);
    lemma_frac_ops_wf(ry, s);
    lemma_frac_ops_wf(rx, s);
    lemma_frac_ops_wf(ry, c);
    lemma_frac_sub_cong(frac_mul(wx, c), frac_mul(rx, c), frac_mul(wy, s), frac_mul(ry, s));
    lemma_frac_add_cong(frac_mul(wx, s), frac_mul(rx, s), frac_mul(wy, c), frac_mul(ry, c));
    lemma_frac_ops_wf(frac_mul(wx, c), frac_mul(wy, s));
    lemma_frac_ops_wf(frac_mul(rx, c), frac_mul(ry, s));
    lemma_frac_ops_wf(frac_mul(wx, s), frac_mul(wy, c));
    lemma_frac_ops_wf(frac_mul(rx, s), frac_mul(ry, c));
    lemma_rot_roundtrip(cx, cy, c, s);
    lemma_frac_eq_trans(zx, rot_inv_x(rx, ry, c, s), cx);
    lemma_frac_eq_trans(zy, rot_inv_y(rx, ry, c, s), cy);
    // Undo the centring.
    let ox = frac_add(zx, t.midx);
    let oy = frac_add(zy, t.midy);
    lemma_frac_ops_wf(zx, t.midx);
    lemma_frac_ops_wf(zy, t.midy);
    lemma_frac_add_cong(zx, cx, t.midx, t.midx);
    lemma_frac_add_cong(zy, cy, t.midy, t.midy);
    lemma_frac_ops_wf(cx, t.midx);
    lemma_frac_ops_wf(cy, t.midy);
    lemma_sub_add_cancel(p.x, t.midx);
    lemma_sub_add_cancel(p.y, t.midy);
    lemma_frac_eq_trans(ox, frac_add(cx, t.midx), p.x);
    lemma_frac_eq_trans(oy, frac_add(cy, t.midy), p.y);
    assert(it_spec(t, f).x == ox);
    assert(it_spec(t, f).y == oy);
}

/// The forward map of a well-formed transform yields a well-formed point.
pub proof fn lemma_ft_wf(t: TransV, p: FracPoint)
    requires
        tv_wf(t),
        fp_wf(p),
    ensures
        fp_wf(ft_spec(t, p)),
{
    let cx = frac_sub(p.x, t.midx);
    let cy = frac_sub(p.y, t.midy);
    let rx = rot_fwd_x(cx, cy, t.rot_cos, t.rot_sin);
    let ry = rot_fwd_y(cx, cy, t.rot_cos, t.rot_sin);
    lemma_frac_ops_wf(p.x, t.midx);
    lemma_frac_ops_wf(p.y, t.midy);
    lemma_frac_ops_wf(cx, t.rot_cos);
    lemma_frac_ops_wf(cy, t.rot_sin);
    lemma_frac_ops_wf(cy, t.rot_cos);
    lemma_frac_ops_wf(cx, t.rot_sin);
    lemma_frac_ops_wf(frac_mul(cx, t.rot_cos), frac_mul(cy, t.rot_sin));
    lemma_frac_ops_wf(frac_mul(cy, t.rot_cos), frac_mul(cx, t.rot_sin));
    lemma_frac_ops_wf(rx, t.scale);
    lemma_frac_ops_wf(ry, t.scale);
    lemma_frac_ops_wf(frac_mul(rx, t.scale), t.midx);
    lemma_frac_ops_wf(frac_mul(ry, t.scale), t.midy);
    lemma_frac_ops_wf(frac_add(frac_mul(rx, t.scale), t.midx), t.tx);
    lemma_frac_ops_wf(frac_add(frac_mul(ry, t.scale), t.midy), t.ty);
}

/// Identity law: a transform with unit scale, no rotation and no translation
/// maps every point to itself, wherever its pivot sits.
pub proof fn lemma_identity_point(t: TransV, p: FracPoint)
    requires
        tv_wf(t),
        fp_wf(p),
        is_identity(t),
    ensures
        fp_eq(ft_spec(t, p), p),
{
    let c = t.rot_cos;
    let s = t.rot_sin;
    let k = t.scale;
    let cx = frac_sub(p.x, t.midx);
    let cy = frac_sub(p.y, t.midy);
    let rx = rot_fwd_x(cx, cy, c, s);
    let ry = rot_fwd_y(cx, cy, c, s);
    let sx = frac_mul(rx, k);
    let sy = frac_mul(ry, k);
    let ax = frac_add(sx, t.midx);
    let ay = frac_add(sy, t.midy);
    lemma_frac_ops_wf(p.x, t.midx);
    lemma_frac_ops_wf(p.y, t.midy);
    lemma_frac_ops_wf(cx, c);
    lemma_frac_ops_wf(cy, s);
    lemma_frac_ops_wf(cy, c);
    lemma_frac_ops_wf(cx, s);
    lemma_frac_ops_wf(frac_mul(cx, c), frac_mul(cy, s));
    lemma_frac_ops_wf(frac_mul(cy, c), frac_mul(cx, s));
    lemma_frac_ops_wf(rx, k);
    lemma_frac_ops_wf(ry, k);
    lemma_frac_ops_wf(sx, t.midx);
    lemma_frac_ops_wf(sy, t.midy);
    lemma_frac_ops_wf(ax, t.tx);
    lemma_frac_ops_wf(ay, t.ty);
    lemma_frac_ops_wf(cx, t.midx);
    lemma_frac_ops_wf(cy, t.midy);
    // The rotation is trivial.
    assert(s.n == 0);
    assert(frac_mul(cy, s).n == 0) by (nonlinear_arith)
        requires
            s.n == 0,
            frac_mul(cy, s).n == cy.n * s.n,
    ;
    assert(frac_mul(cx, s).n == 0) by (nonlinear_arith)
        requires
            s.n == 0,
            frac_mul(cx, s).n == cx.n * s.n,
    ;
    lemma_mul_one(cx, c);
    lemma_add_zero(frac_mul(cx, c), frac_mul(cy, s));
    lemma_frac_eq_trans(rx, frac_mul(cx, c), cx);
    lemma_mul_one(cy, c);
    lemma_sub_zero(frac_mul(cy, c), frac_mul(cx, s));
    lemma_frac_eq_trans(ry, frac_mul(cy, c), cy);
    // The scale is trivial.
    lemma_mul_one(rx, k);
    lemma_frac_eq_trans(sx, rx, cx);
    lemma_mul_one(ry, k);
    lemma_frac_eq_trans(sy, ry, cy);
    // Recentring undoes the centring.
    lemma_frac_add_cong(sx, cx, t.midx, t.midx);
    lemma_sub_add_cancel(p.x, t.midx);
    lemma_frac_eq_trans(ax, frac_add(cx, t.midx), p.x);
    lemma_frac_add_cong(sy, cy, t.midy, t.midy);
    lemma_sub_add_cancel(p.y, t.midy);
    lemma_frac_eq_trans(ay, frac_add(cy, t.midy), p.y);
    // The translation is trivial.
    lemma_add_zero(ax, t.tx);
    lemma_frac_eq_trans(frac_add(ax, t.tx), ax, p.x);
    lemma_add_zero(ay, t.ty);
    lemma_frac_eq_trans(frac_add(ay, t.ty), ay, p.y);
}

/// Neutrality of composition: composing an identity camera with any local
/// transform gives back the local transform, field for field.
pub proof fn lemma_compose_identity(p: TransV, l: TransV)
    requires
        tv_wf(p),
        tv_wf(l),
        is_identity(p),
    ensures
        compose_spec(p, l).midx == l.midx,
        compose_spec(p, l).midy == l.midy,
        frac_eq(compose_spec(p, l).rot_cos, l.rot_cos),
        frac_eq(compose_spec(p, l).rot_sin, l.rot_sin),
        frac_eq(compose_spec(p, l).scale, l.scale),
        frac_eq(compose_spec(p, l).tx, l.tx),
        frac_eq(compose_spec(p, l).ty, l.ty),
{
    let anchor = FracPoint { x: frac_add(l.midx, l.tx), y: frac_add(l.midy, l.ty) };
    let moved = ft_spec(p, anchor);
    lemma_frac_ops_wf(l.midx, l.tx);
    lemma_frac_ops_wf(l.midy, l.ty);
    lemma_frac_ops_wf(p.rot_cos, l.rot_cos);
    lemma_frac_ops_wf(p.rot_sin, l.rot_sin);
    lemma_frac_ops_wf(p.rot_sin, l.rot_cos);
    lemma_frac_ops_wf(p.rot_cos, l.rot_sin);
    lemma_frac_ops_wf(frac_mul(p.rot_cos, l.rot_cos), frac_mul(p.rot_sin, l.rot_sin));
    lemma_frac_ops_wf(frac_mul(p.rot_sin, l.rot_cos), frac_mul(p.rot_cos, l.rot_sin));
    // Rotation: the camera contributes cosine one and sine zero.
    lemma_mul_comm(p.rot_cos, l.rot_cos);
    lemma_mul_one(l.rot_cos, p.rot_cos);
    lemma_sub_zero(frac_mul(p.rot_cos, l.rot_cos), frac_mul(p.rot_sin, l.rot_sin));
    lemma_frac_eq_trans(
        frac_sub(frac_mul(p.rot_cos, l.rot_cos), frac_mul(p.rot_sin, l.rot_sin)),
        frac_mul(p.rot_cos, l.rot_cos),
        l.rot_cos,
    );
    lemma_add_comm(frac_mul(p.rot_sin, l.rot_cos), frac_mul(p.rot_cos, l.rot_sin));
    lemma_add_zero(frac_mul(p.rot_cos, l.rot_sin), frac_mul(p.rot_sin, l.rot_cos));
    lemma_mul_comm(p.rot_cos, l.rot_sin);
    lemma_mul_one(l.rot_sin, p.rot_cos);
    lemma_frac_eq_trans(
        frac_add(frac_mul(p.rot_sin, l.rot_cos), frac_mul(p.rot_cos, l.rot_sin)),
        frac_mul(p.rot_cos, l.rot_sin),
        l.rot_sin,
    );
    // Scale: multiplied by one.
    lemma_mul_comm(p.scale, l.scale);
    lemma_mul_one(l.scale, p.scale);
    // Translation: the identity camera leaves the anchor in place.
    lemma_identity_point(p, anchor);
    lemma_ft_wf(p, anchor);
    lemma_frac_ops_wf(moved.x, l.midx);
    lemma_frac_ops_wf(moved.y, l.midy);
    lemma_frac_ops_wf(anchor.x, l.midx);
    lemma_frac_ops_wf(anchor.y, l.midy);
    lemma_frac_sub_cong(moved.x, anchor.x, l.midx, l.midx);
    lemma_add_sub_cancel_left(l.midx, l.tx);
    lemma_frac_eq_trans(frac_sub(moved.x, l.midx), frac_sub(anchor.x, l.midx), l.tx);
    lemma_frac_sub_cong(moved.y, anchor.y, l.midy, l.midy);
    lemma_add_sub_cancel_left(l.midy, l.ty);
    lemma_frac_eq_trans(frac_sub(moved.y, l.midy), frac_sub(anchor.y, l.midy), l.ty);
}

} // verus!
