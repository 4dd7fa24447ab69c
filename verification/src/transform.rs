//! Affine stamp transforms.
//!
//! A [`Transform`] scales a point about a pivot, rotates it about the same
//! pivot, recentres it, and finally translates it. The rotation is carried as
//! an exact (cosine, sine) pair, so the forward map [`ftransform`] and its
//! algebraic inverse [`itransform`] are exact rational computations. The fixed
//! operation order (centre, rotate, scale, recentre, translate) is part of the
//! contract: reordering changes results whenever rotation and translation are
//! both non-trivial.

use vstd::prelude::*;

use crate::GeometryError;
use crate::rational::{
    Frac, Rat, add_fits, div_fits, frac_add, frac_div, frac_eq, frac_from_int, frac_mul, frac_sub,
    frac_wf, mul_fits, sub_fits,
};

verus! {

/// A point with exact rational coordinates.
#[derive(Clone, Copy, Debug, PartialEq, Eq, Structural)]
pub struct RatPoint {
    pub x: Rat,
    pub y: Rat,
}

/// The mathematical value of a point: a pair of fractions.
pub ghost struct FracPoint {
    pub x: Frac,
    pub y: Frac,
}

pub open spec fn fp_wf(p: FracPoint) -> bool {
    frac_wf(p.x) && frac_wf(p.y)
}

/// Coordinate-wise rational equality of two points.
pub open spec fn fp_eq(a: FracPoint, b: FracPoint) -> bool {
    frac_eq(a.x, b.x) && frac_eq(a.y, b.y)
}

impl RatPoint {
    pub open spec fn v(self) -> FracPoint {
        FracPoint { x: self.x.v(), y: self.y.v() }
    }

    pub open spec fn wf(self) -> bool {
        self.x.wf() && self.y.wf()
    }

    pub fn new(x: Rat, y: Rat) -> (r: RatPoint)
        ensures
            r.v() == (FracPoint { x: x.v(), y: y.v() }),
    {
        RatPoint { x, y }
    }

    /// The point `(x, y)` with whole-number coordinates.
    pub fn from_ints(x: i64, y: i64) -> (r: RatPoint)
        ensures
            r.wf(),
            r.v() == (FracPoint { x: frac_from_int(x as int), y: frac_from_int(y as int) }),
    {
        RatPoint { x: Rat::from_int(x), y: Rat::from_int(y) }
    }
}

/// An affine transform: uniform scale and rotation anchored at the pivot
/// `(midx, midy)`, followed by the translation `(tx, ty)`.
///
/// The rotation is the unit vector `(rot_cos, rot_sin)`; a well-behaved
/// transform satisfies [`rotation_unit`] (cosine squared plus sine squared is
/// one) and a non-zero `scale`. Neither is enforced structurally — mirroring
/// how the scale invariant is a semantic requirement, not a checked one — but
/// the inverse laws hold only under them.
#[derive(Clone, Copy, Debug, PartialEq, Eq, Structural)]
pub struct Transform {
    pub midx: Rat,
    pub midy: Rat,
    pub rot_cos: Rat,
    pub rot_sin: Rat,
    pub tx: Rat,
    pub ty: Rat,
    pub scale: Rat,
}

/// The mathematical value of a transform.
pub ghost struct TransV {
    pub midx: Frac,
    pub midy: Frac,
    pub rot_cos: Frac,
    pub rot_sin: Frac,
    pub tx: Frac,
    pub ty: Frac,
    pub scale: Frac,
}

pub open spec fn tv_wf(t: TransV) -> bool {
    &&& frac_wf(t.midx)
    &&& frac_wf(t.midy)
    &&& frac_wf(t.rot_cos)
    &&& frac_wf(t.rot_sin)
    &&& frac_wf(t.tx)
    &&& frac_wf(t.ty)
    &&& frac_wf(t.scale)
}

/// The rotation pair lies on the unit circle.
pub open spec fn rotation_unit(t: TransV) -> bool {
    frac_eq(
        frac_add(frac_mul(t.rot_cos, t.rot_cos), frac_mul(t.rot_sin, t.rot_sin)),
        frac_from_int(1),
    )
}

/// The value of a freshly made identity placement for a sprite of nominal
/// size `width` by `height`.
pub open spec fn fresh_tv(width: int, height: int) -> TransV {
    TransV {
        midx: Frac { n: width, d: 2 },
        midy: Frac { n: height, d: 2 },
        rot_cos: frac_from_int(1),
        rot_sin: frac_from_int(0),
        tx: frac_from_int(0),
        ty: frac_from_int(0),
        scale: frac_from_int(1),
    }
}

impl Transform {
    pub open spec fn v(self) -> TransV {
        TransV {
            midx: self.midx.v(),
            midy: self.midy.v(),
            rot_cos: self.rot_cos.v(),
            rot_sin: self.rot_sin.v(),
            tx: self.tx.v(),
            ty: self.ty.v(),
            scale: self.scale.v(),
        }
    }

    pub open spec fn wf(self) -> bool {
        tv_wf(self.v())
    }

    /// The identity placement for a sprite of the given nominal size: unit
    /// scale, no rotation, no translation, pivot at the sprite's centre.
    pub fn new(width: u32, height: u32) -> (r: Transform)
        ensures
            r.wf(),
            rotation_unit(r.v()),
            r.v() == fresh_tv(width as int, height as int),
            r.v().midx == (Frac { n: width as int, d: 2 }),
            r.v().midy == (Frac { n: height as int, d: 2 }),
            r.v().rot_cos == frac_from_int(1),
            r.v().rot_sin == frac_from_int(0),
            r.v().tx == frac_from_int(0),
            r.v().ty == frac_from_int(0),
            r.v().scale == frac_from_int(1),
    {
        let midx = match Rat::new(width as i128, 2) {
            Ok(q) => q,
            Err(_) => Rat::from_int(0),
        };
        let midy = match Rat::new(height as i128, 2) {
            Ok(q) => q,
            Err(_) => Rat::from_int(0),
        };
        let r = Transform {
            scale: Rat::from_int(1),
            midx,
            midy,
            rot_cos: Rat::from_int(1),
            rot_sin: Rat::from_int(0),
            tx: Rat::from_int(0),
            ty: Rat::from_int(0),
        };
        proof {
            let one = frac_from_int(1);
            let z = frac_from_int(0);
            assert(frac_mul(one, one) == one) by {
                assert(1int * 1int == 1int) by (nonlinear_arith);
            }
            assert(frac_mul(z, z) == (Frac { n: 0, d: 1 })) by {
                assert(0int * 0int == 0int) by (nonlinear_arith);
                assert(1int * 1int == 1int) by (nonlinear_arith);
            }
            assert(frac_add(frac_mul(one, one), frac_mul(z, z)) == (Frac { n: 1, d: 1 }));
            assert(rotation_unit(r.v()));
        }
        r
    }
}

/// The transform moves nothing: unit scale, no rotation, no translation.
/// The pivot may sit anywhere; it only anchors scale and rotation.
pub open spec fn is_identity(t: TransV) -> bool {
    &&& frac_eq(t.scale, frac_from_int(1))
    &&& frac_eq(t.rot_cos, frac_from_int(1))
    &&& frac_eq(t.rot_sin, frac_from_int(0))
    &&& frac_eq(t.tx, frac_from_int(0))
    &&& frac_eq(t.ty, frac_from_int(0))
}

/// X coordinate after rotating `(x, y)` forward by the unit vector `(c, s)`.
pub open spec fn rot_fwd_x(x: Frac, y: Frac, c: Frac, s: Frac) -> Frac {
    frac_add(frac_mul(x, c), frac_mul(y, s))
}

/// Y coordinate after rotating `(x, y)` forward by the unit vector `(c, s)`.
pub open spec fn rot_fwd_y(x: Frac, y: Frac, c: Frac, s: Frac) -> Frac {
    frac_sub(frac_mul(y, c), frac_mul(x, s))
}

/// X coordinate after the inverse rotation.
pub open spec fn rot_inv_x(x: Frac, y: Frac, c: Frac, s: Frac) -> Frac {
    frac_sub(frac_mul(x, c), frac_mul(y, s))
}

/// Y coordinate after the inverse rotation.
pub open spec fn rot_inv_y(x: Frac, y: Frac, c: Frac, s: Frac) -> Frac {
    frac_add(frac_mul(x, s), frac_mul(y, c))
}

/// The forward map: centre on the pivot, rotate, scale, recentre, translate.
pub open spec fn ft_spec(t: TransV, p: FracPoint) -> FracPoint {
    let cx = frac_sub(p.x, t.midx);
    let cy = frac_sub(p.y, t.midy);
    let rx = rot_fwd_x(cx, cy, t.rot_cos, t.rot_sin);
    let ry = rot_fwd_y(cx, cy, t.rot_cos, t.rot_sin);
    let sx = frac_mul(rx, t.scale);
    let sy = frac_mul(ry, t.scale);
    FracPoint {
        x: frac_add(frac_add(sx, t.midx), t.tx),
        y: frac_add(frac_add(sy, t.midy), t.ty),
    }
}

/// The inverse map: untranslate, uncentre, unscale, unrotate, recentre.
pub open spec fn it_spec(t: TransV, p: FracPoint) -> FracPoint {
    let ux = frac_sub(p.x, t.tx);
    let uy = frac_sub(p.y, t.ty);
    let vx = frac_sub(ux, t.midx);
    let vy = frac_sub(uy, t.midy);
    let wx = frac_div(vx, t.scale);
    let wy = frac_div(vy, t.scale);
    let zx = rot_inv_x(wx, wy, t.rot_cos, t.rot_sin);
    let zy = rot_inv_y(wx, wy, t.rot_cos, t.rot_sin);
    FracPoint { x: frac_add(zx, t.midx), y: frac_add(zy, t.midy) }
}

/// Every step of the forward map stays in the machine range.
pub open spec fn ft_ok(t: TransV, p: FracPoint) -> bool {
    let cx = frac_sub(p.x, t.midx);
    let cy = frac_sub(p.y, t.midy);
    let rx = rot_fwd_x(cx, cy, t.rot_cos, t.rot_sin);
    let ry = rot_fwd_y(cx, cy, t.rot_cos, t.rot_sin);
    let sx = frac_mul(rx, t.scale);
    let sy = frac_mul(ry, t.scale);
    &&& sub_fits(p.x, t.midx)
    &&& sub_fits(p.y, t.midy)
    &&& mul_fits(cx, t.rot_cos)
    &&& mul_fits(cy, t.rot_sin)
    &&& add_fits(frac_mul(cx, t.rot_cos), frac_mul(cy, t.rot_sin))
    &&& mul_fits(cy, t.rot_cos)
    &&& mul_fits(cx, t.rot_sin)
    &&& sub_fits(frac_mul(cy, t.rot_cos), frac_mul(cx, t.rot_sin))
    &&& mul_fits(rx, t.scale)
    &&& mul_fits(ry, t.scale)
    &&& add_fits(sx, t.midx)
    &&& add_fits(frac_add(sx, t.midx), t.tx)
    &&& add_fits(sy, t.midy)
    &&& add_fits(frac_add(sy, t.midy), t.ty)
}

/// Every step of the inverse map stays in the machine range.
pub open spec fn it_ok(t: TransV, p: FracPoint) -> bool {
    let ux = frac_sub(p.x, t.tx);
    let uy = frac_sub(p.y, t.ty);
    let vx = frac_sub(ux, t.midx);
    let vy = frac_sub(uy, t.midy);
    let wx = frac_div(vx, t.scale);
    let wy = frac_div(vy, t.scale);
    &&& sub_fits(p.x, t.tx)
    &&& sub_fits(p.y, t.ty)
    &&& sub_fits(ux, t.midx)
    &&& sub_fits(uy, t.midy)
    &&& div_fits(vx, t.scale)
    &&& div_fits(vy, t.scale)
    &&& mul_fits(wx, t.rot_cos)
    &&& mul_fits(wy, t.rot_sin)
    &&& sub_fits(frac_mul(wx, t.rot_cos), frac_mul(wy, t.rot_sin))
    &&& mul_fits(wx, t.rot_sin)
    &&& mul_fits(wy, t.rot_cos)
    &&& add_fits(frac_mul(wx, t.rot_sin), frac_mul(wy, t.rot_cos))
    &&& add_fits(rot_inv_x(wx, wy, t.rot_cos, t.rot_sin), t.midx)
    &&& add_fits(rot_inv_y(wx, wy, t.rot_cos, t.rot_sin), t.midy)
}

/// Maps a point from the transform's local space into world space.
///
/// Exact: on success the result is precisely `ft_spec` of the inputs; the
/// call fails only when an intermediate value leaves the machine range.
pub fn ftransform(t: &Transform, p: RatPoint) -> (r: Result<RatPoint, GeometryError>)
    requires
        t.wf(),
        p.wf(),
    ensures
        r matches Ok(q) ==> q.wf() && q.v() == ft_spec(t.v(), p.v()),
        r is Ok <==> ft_ok(t.v(), p.v()),
        r matches Err(e) ==> e == GeometryError::NumericOverflow,
{
    let cx = p.x.sub(t.midx)?;
    let cy = p.y.sub(t.midy)?;
    let a1 = cx.mul(t.rot_cos)?;
    let a2 = cy.mul(t.rot_sin)?;
    let rx = a1.add(a2)?;
    let b1 = cy.mul(t.rot_cos)?;
    let b2 = cx.mul(t.rot_sin)?;
    let ry = b1.sub(b2)?;
    let sx = rx.mul(t.scale)?;
    let sy = ry.mul(t.scale)?;
    let m1 = sx.add(t.midx)?;
    let ox = m1.add(t.tx)?;
    let m2 = sy.add(t.midy)?;
    let oy = m2.add(t.ty)?;
    Ok(RatPoint { x: ox, y: oy })
}

/// Maps a world-space point back into the transform's local space.
///
/// The exact algebraic inverse of [`ftransform`]; it needs a non-zero scale.
pub fn itransform(t: &Transform, p: RatPoint) -> (r: Result<RatPoint, GeometryError>)
    requires
        t.wf(),
        p.wf(),
        t.v().scale.n != 0,
    ensures
        r matches Ok(q) ==> q.wf() && q.v() == it_spec(t.v(), p.v()),
        r is Ok <==> it_ok(t.v(), p.v()),
        r matches Err(e) ==> e == GeometryError::NumericOverflow,
{
    let ux = p.x.sub(t.tx)?;
    let uy = p.y.sub(t.ty)?;
    let vx = ux.sub(t.midx)?;
    let vy = uy.sub(t.midy)?;
    let wx = vx.div(t.scale)?;
    let wy = vy.div(t.scale)?;
    let z1 = wx.mul(t.rot_cos)?;
    let z2 = wy.mul(t.rot_sin)?;
    let zx = z1.sub(z2)?;
    let z3 = wx.mul(t.rot_sin)?;
    let z4 = wy.mul(t.rot_cos)?;
    let zy = z3.add(z4)?;
    let ox = zx.add(t.midx)?;
    let oy = zy.add(t.midy)?;
    Ok(RatPoint { x: ox, y: oy })
}

/// The single transform equivalent to applying `l` in its own frame and then
/// `p` to the result. Its pivot is `l`'s pivot; its rotation is the product
/// of the two unit vectors; its translation carries `l`'s anchored position
/// through `p`.
pub open spec fn compose_spec(p: TransV, l: TransV) -> TransV {
    let anchor = FracPoint { x: frac_add(l.midx, l.tx), y: frac_add(l.midy, l.ty) };
    let moved = ft_spec(p, anchor);
    TransV {
        midx: l.midx,
        midy: l.midy,
        rot_cos: frac_sub(frac_mul(p.rot_cos, l.rot_cos), frac_mul(p.rot_sin, l.rot_sin)),
        rot_sin: frac_add(frac_mul(p.rot_sin, l.rot_cos), frac_mul(p.rot_cos, l.rot_sin)),
        tx: frac_sub(moved.x, l.midx),
        ty: frac_sub(moved.y, l.midy),
        scale: frac_mul(p.scale, l.scale),
    }
}

/// Every step of composition stays in the machine range.
pub open spec fn compose_ok(p: TransV, l: TransV) -> bool {
    let anchor = FracPoint { x: frac_add(l.midx, l.tx), y: frac_add(l.midy, l.ty) };
    let moved = ft_spec(p, anchor);
    &&& mul_fits(p.rot_cos, l.rot_cos)
    &&& mul_fits(p.rot_sin, l.rot_sin)
    &&& sub_fits(frac_mul(p.rot_cos, l.rot_cos), frac_mul(p.rot_sin, l.rot_sin))
    &&& mul_fits(p.rot_sin, l.rot_cos)
    &&& mul_fits(p.rot_cos, l.rot_sin)
    &&& add_fits(frac_mul(p.rot_sin, l.rot_cos), frac_mul(p.rot_cos, l.rot_sin))
    &&& mul_fits(p.scale, l.scale)
    &&& add_fits(l.midx, l.tx)
    &&& add_fits(l.midy, l.ty)
    &&& ft_ok(p, anchor)
    &&& sub_fits(moved.x, l.midx)
    &&& sub_fits(moved.y, l.midy)
}

/// Combines a parent (camera) transform with a local (stamp) transform into
/// one effective transform, exactly per [`compose_spec`].
pub fn compose(parent: &Transform, local: &Transform) -> (r: Result<Transform, GeometryError>)
    requires
        parent.wf(),
        local.wf(),
    ensures
        r matches Ok(t) ==> t.wf() && t.v() == compose_spec(parent.v(), local.v()),
        r is Ok <==> compose_ok(parent.v(), local.v()),
        r matches Err(e) ==> e == GeometryError::NumericOverflow,
{
    let c1 = parent.rot_cos.mul(local.rot_cos)?;
    let c2 = parent.rot_sin.mul(local.rot_sin)?;
    let c = c1.sub(c2)?;
    let s1 = parent.rot_sin.mul(local.rot_cos)?;
    let s2 = parent.rot_cos.mul(local.rot_sin)?;
    let s = s1.add(s2)?;
    let k = parent.scale.mul(local.scale)?;
    let ax = local.midx.add(local.tx)?;
    let ay = local.midy.add(local.ty)?;
    let moved = ftransform(parent, RatPoint { x: ax, y: ay })?;
    let tx = moved.x.sub(local.midx)?;
    let ty = moved.y.sub(local.midy)?;
    Ok(
        Transform {
            midx: local.midx,
            midy: local.midy,
            rot_cos: c,
            rot_sin: s,
            tx,
            ty,
            scale: k,
        },
    )
}

/// Every step of the bounding-box computation stays in the machine range.
pub open spec fn bbox_ok(t: TransV) -> bool {
    let w2 = frac_add(t.midx, t.midx);
    let h2 = frac_add(t.midy, t.midy);
    let z = frac_from_int(0);
    &&& add_fits(t.midx, t.midx)
    &&& add_fits(t.midy, t.midy)
    &&& ft_ok(t, FracPoint { x: z, y: z })
    &&& ft_ok(t, FracPoint { x: z, y: h2 })
    &&& ft_ok(t, FracPoint { x: w2, y: h2 })
    &&& ft_ok(t, FracPoint { x: w2, y: z })
}

impl Transform {
    /// The forward images of the corners of the local rectangle
    /// `[0, 2 * midx] x [0, 2 * midy]`, in the fixed winding order
    /// top-left, bottom-left, bottom-right, top-right.
    pub fn to_bbox(&self) -> (r: Result<Vec<RatPoint>, GeometryError>)
        requires
            self.wf(),
        ensures
            r is Ok <==> bbox_ok(self.v()),
            r matches Ok(v) ==> {
                let w2 = frac_add(self.v().midx, self.v().midx);
                let h2 = frac_add(self.v().midy, self.v().midy);
                let z = frac_from_int(0);
                &&& v@.len() == 4
                &&& (forall|i: int| 0 <= i < 4 ==> #[trigger] v@[i].wf())
                &&& v@[0].v() == ft_spec(self.v(), FracPoint { x: z, y: z })
                &&& v@[1].v() == ft_spec(self.v(), FracPoint { x: z, y: h2 })
                &&& v@[2].v() == ft_spec(self.v(), FracPoint { x: w2, y: h2 })
                &&& v@[3].v() == ft_spec(self.v(), FracPoint { x: w2, y: z })
            },
    {
        let zero = Rat::from_int(0);
        let w2 = self.midx.add(self.midx)?;
        let h2 = self.midy.add(self.midy)?;
        let p0 = ftransform(self, RatPoint { x: zero, y: zero })?;
        let p1 = ftransform(self, RatPoint { x: zero, y: h2 })?;
        let p2 = ftransform(self, RatPoint { x: w2, y: h2 })?;
        let p3 = ftransform(self, RatPoint { x: w2, y: zero })?;
        let mut out: Vec<RatPoint> = Vec::new();
        out.push(p0);
        out.push(p1);
        out.push(p2);
        out.push(p3);
        Ok(out)
    }
}

} // verus!
