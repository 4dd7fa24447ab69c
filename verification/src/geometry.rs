//! Level geometry and the segment-versus-level intersection engine.
//!
//! A level ([`Svg`]) is an ordered list of placed stamps, each a local-space
//! outline polygon with its own transform and fill color. The engine tests a
//! directed probe segment against every stamp's world-space outline, in level
//! order, and returns the corrective displacement for the first crossing
//! found, or `None`. World-space outlines are memoized in a [`GeomCache`]
//! keyed by the stamp's position in the level; stamps are immutable during a
//! session, so a cache hit always equals what recomputation would produce.

use vstd::prelude::*;

use crate::Color;
use crate::GeometryError;
use crate::rational::{
    Frac, Rat, add_fits, div_fits, frac_add, frac_div, frac_eq, frac_from_int, frac_le, frac_mul,
    frac_neg, frac_reduce, frac_sub, in_i128, mul_fits, sub_fits,
};
use crate::transform::{FracPoint, RatPoint, Transform, fp_wf, ft_ok, ft_spec, ftransform};

verus! {

/// A placed shape: an identified local-space outline polygon with its
/// placement transform and fill color.
#[derive(Clone, Debug)]
pub struct Stamp {
    /// The stable identity key from the level data (an href plus clip mask).
    pub href: String,
    /// The outline polygon in local space, in drawing order.
    pub outline: Vec<RatPoint>,
    /// The placement of the outline in world space.
    pub transform: Transform,
    /// The fill color, carried for the renderer.
    pub fill: Color,
}

impl Stamp {
    pub open spec fn wf(self) -> bool {
        &&& self.transform.wf()
        &&& forall|i: int| 0 <= i < self.outline@.len() ==> (#[trigger] self.outline@[i]).wf()
    }

    /// A stamp whose outline is the axis-aligned rectangle `[0, width] x
    /// [0, height]` in local space, in the winding order top-left,
    /// bottom-left, bottom-right, top-right.
    pub fn rect(href: String, width: u32, height: u32, fill: Color, transform: Transform) -> (r:
        Stamp)
        requires
            transform.wf(),
        ensures
            r.wf(),
            r.transform == transform,
            r.fill == fill,
            r.outline@.len() == 4,
            r.outline@[0].v() == (FracPoint {
                x: frac_from_int(0),
                y: frac_from_int(0),
            }),
            r.outline@[1].v() == (FracPoint {
                x: frac_from_int(0),
                y: frac_from_int(height as int),
            }),
            r.outline@[2].v() == (FracPoint {
                x: frac_from_int(width as int),
                y: frac_from_int(height as int),
            }),
            r.outline@[3].v() == (FracPoint {
                x: frac_from_int(width as int),
                y: frac_from_int(0),
            }),
    {
        let mut outline: Vec<RatPoint> = Vec::new();
        let w = Rat::from_int(width as i64);
        let h = Rat::from_int(height as i64);
        let z = Rat::from_int(0);
        outline.push(RatPoint { x: z, y: z });
        outline.push(RatPoint { x: z, y: h });
        outline.push(RatPoint { x: w, y: h });
        outline.push(RatPoint { x: w, y: z });
        Stamp { href, outline, transform, fill }
    }
}

/// A level: a canvas size and an ordered list of placed stamps.
#[derive(Clone, Debug)]
pub struct Svg {
    pub width: u64,
    pub height: u64,
    pub stamps: Vec<Stamp>,
}

impl Svg {
    pub open spec fn wf(self) -> bool {
        forall|i: int| 0 <= i < self.stamps@.len() ==> (#[trigger] self.stamps@[i]).wf()
    }

    /// An empty level of the given canvas size.
    pub fn new(width: u64, height: u64) -> (r: Svg)
        ensures
            r.wf(),
            r.width == width,
            r.height == height,
            r.stamps@.len() == 0,
    {
        Svg { width, height, stamps: Vec::new() }
    }

    /// Appends a stamp; level order is iteration order for collision tests.
    pub fn add_stamp(&mut self, stamp: Stamp)
        requires
            stamp.wf(),
            old(self).wf(),
        ensures
            final(self).wf(),
            final(self).width == old(self).width,
            final(self).height == old(self).height,
            final(self).stamps@ == old(self).stamps@.push(stamp),
    {
        self.stamps.push(stamp);
    }
}

/// The memoized world-space outlines, indexed by stamp position. A missing
/// or `None` entry means the outline has not been computed yet.
pub struct GeomCache {
    entries: Vec<Option<Vec<RatPoint>>>,
}

impl GeomCache {
    /// The mathematical content: for each stamp index, the cached outline as
    /// a sequence of fractions, if present.
    pub closed spec fn v(self) -> Seq<Option<Seq<FracPoint>>> {
        self.entries@.map_values(
            |e: Option<Vec<RatPoint>>|
                match e {
                    Some(pts) => Some(pts@.map_values(|p: RatPoint| p.v())),
                    None => None,
                },
        )
    }

    pub closed spec fn wf(self) -> bool {
        forall|i: int|
            0 <= i < self.entries@.len() ==> match #[trigger] self.entries@[i] {
                Some(pts) => forall|j: int| 0 <= j < pts@.len() ==> (#[trigger] pts@[j]).wf(),
                None => true,
            }
    }

    /// An empty cache.
    pub fn new() -> (r: GeomCache)
        ensures
            r.wf(),
            r.v().len() == 0,
    {
        let r = GeomCache { entries: Vec::new() };
        proof {
            assert(r.v() =~= Seq::<Option<Seq<FracPoint>>>::empty());
        }
        r
    }

    /// How many entries the cache holds (filled or not).
    pub fn len(&self) -> (r: usize)
        ensures
            r == self.v().len(),
    {
        self.entries.len()
    }

    /// How many outlines are actually memoized.
    pub fn cached_count(&self) -> (r: usize)
        ensures
            r <= self.v().len(),
    {
        let mut count: usize = 0;
        let mut i: usize = 0;
        while i < self.entries.len()
            invariant
                count <= i <= self.entries@.len(),
            decreases self.entries@.len() - i,
        {
            if self.entries[i].is_some() {
                count = count + 1;
            }
            i = i + 1;
        }
        count
    }
}

/// The cached outline for stamp `i`, if any.
pub open spec fn cache_get(c: Seq<Option<Seq<FracPoint>>>, i: int) -> Option<Seq<FracPoint>> {
    if 0 <= i < c.len() {
        c[i]
    } else {
        None
    }
}

/// The cache after memoizing outline `o` for stamp `i`, padding with empty
/// entries if the cache is still shorter than `i`.
pub open spec fn cache_put(
    c: Seq<Option<Seq<FracPoint>>>,
    i: int,
    o: Seq<FracPoint>,
) -> Seq<Option<Seq<FracPoint>>>
    recommends
        i >= 0,
{
    if i < c.len() {
        c.update(i, Some(o))
    } else {
        c + Seq::new((i - c.len()) as nat, |k: int| None) + seq![Some(o)]
    }
}

/// Each arithmetic step of the edge test reduces its result to lowest
/// terms; that keeps the exact values inside the machine range through the
/// whole chain.
pub open spec fn radd(a: Frac, b: Frac) -> Frac {
    frac_reduce(frac_add(a, b))
}

pub open spec fn rsub(a: Frac, b: Frac) -> Frac {
    frac_reduce(frac_sub(a, b))
}

pub open spec fn rmul(a: Frac, b: Frac) -> Frac {
    frac_reduce(frac_mul(a, b))
}

pub open spec fn rdiv(a: Frac, b: Frac) -> Frac {
    frac_reduce(frac_div(a, b))
}

pub open spec fn rneg(a: Frac) -> Frac {
    frac_reduce(frac_neg(a))
}

/// Which side of the probe's supporting line the point `r` lies on: the
/// cross product of `r - a` with the probe direction. A positive numerator
/// is one side, a negative one the other, zero is on the line. For an edge
/// endpoint this is exactly the `u`-parameter numerator of the edge test.
pub open spec fn probe_side(a: FracPoint, d1: FracPoint, r: FracPoint) -> Frac {
    rsub(rmul(rsub(r.x, a.x), d1.y), rmul(rsub(r.y, a.y), d1.x))
}

/// The parameter lies in the closed unit interval.
pub open spec fn param_in_unit(t: Frac) -> bool {
    frac_le(frac_from_int(0), t) && frac_le(t, frac_from_int(1))
}

/// Every machine step of one probe-versus-edge test stays in range. The
/// structure mirrors the test itself: steps behind a guard count only when
/// the guard is reached.
pub open spec fn seg_ok(a: FracPoint, b: FracPoint, d1: FracPoint, p: FracPoint, q: FracPoint) -> bool {
    let d2x = rsub(q.x, p.x);
    let d2y = rsub(q.y, p.y);
    let denom = rsub(rmul(d1.x, d2y), rmul(d1.y, d2x));
    &&& sub_fits(q.x, p.x)
    &&& sub_fits(q.y, p.y)
    &&& (!(frac_eq(d2x, frac_from_int(0)) && frac_eq(d2y, frac_from_int(0))) ==> {
        &&& mul_fits(d1.x, d2y)
        &&& mul_fits(d1.y, d2x)
        &&& sub_fits(rmul(d1.x, d2y), rmul(d1.y, d2x))
        &&& (!frac_eq(denom, frac_from_int(0)) ==> seg_params_ok(a, b, d1, p, q))
    })
}

/// Range conditions for the parametric solution and, on a hit, the
/// corrective vector.
pub open spec fn seg_params_ok(
    a: FracPoint,
    b: FracPoint,
    d1: FracPoint,
    p: FracPoint,
    q: FracPoint,
) -> bool {
    let d2x = rsub(q.x, p.x);
    let d2y = rsub(q.y, p.y);
    let denom = rsub(rmul(d1.x, d2y), rmul(d1.y, d2x));
    let apx = rsub(p.x, a.x);
    let apy = rsub(p.y, a.y);
    let tn = rsub(rmul(apx, d2y), rmul(apy, d2x));
    let un = rsub(rmul(apx, d1.y), rmul(apy, d1.x));
    let t = rdiv(tn, denom);
    let u = rdiv(un, denom);
    &&& sub_fits(p.x, a.x)
    &&& sub_fits(p.y, a.y)
    &&& mul_fits(apx, d2y)
    &&& mul_fits(apy, d2x)
    &&& sub_fits(rmul(apx, d2y), rmul(apy, d2x))
    &&& mul_fits(apx, d1.y)
    &&& mul_fits(apy, d1.x)
    &&& sub_fits(rmul(apx, d1.y), rmul(apy, d1.x))
    &&& div_fits(tn, denom)
    &&& div_fits(un, denom)
    &&& (param_in_unit(t) && param_in_unit(u) ==> corr_ok(a, b, d1, d2x, d2y, t))
}

/// Range conditions for the corrective vector of a confirmed crossing.
pub open spec fn corr_ok(
    a: FracPoint,
    b: FracPoint,
    d1: FracPoint,
    d2x: Frac,
    d2y: Frac,
    t: Frac,
) -> bool {
    let ix = radd(a.x, rmul(t, d1.x));
    let iy = radd(a.y, rmul(t, d1.y));
    let vx = rsub(b.x, ix);
    let vy = rsub(b.y, iy);
    let nx = rneg(d2y);
    let ny = d2x;
    let vn = radd(rmul(vx, nx), rmul(vy, ny));
    let nn = radd(rmul(nx, nx), rmul(ny, ny));
    let coef = rdiv(vn, nn);
    &&& mul_fits(t, d1.x)
    &&& add_fits(a.x, rmul(t, d1.x))
    &&& mul_fits(t, d1.y)
    &&& add_fits(a.y, rmul(t, d1.y))
    &&& sub_fits(b.x, ix)
    &&& sub_fits(b.y, iy)
    &&& in_i128(-d2y.n)
    &&& mul_fits(vx, nx)
    &&& mul_fits(vy, ny)
    &&& add_fits(rmul(vx, nx), rmul(vy, ny))
    &&& mul_fits(nx, nx)
    &&& mul_fits(ny, ny)
    &&& add_fits(rmul(nx, nx), rmul(ny, ny))
    &&& div_fits(vn, nn)
    &&& mul_fits(coef, nx)
    &&& mul_fits(coef, ny)
    &&& in_i128(-rmul(coef, nx).n)
    &&& in_i128(-rmul(coef, ny).n)
}

/// The mathematical outcome of one probe-versus-edge test: the corrective
/// displacement if the probe `a -> b` (with direction `d1 = b - a`) crosses
/// the edge `p -> q`, and `None` for degenerate or parallel edges or an
/// out-of-range crossing. On a hit the correction is the penetration
/// `b - i` (from the crossing point `i` to the probe's far end) projected
/// onto the edge's normal, negated — it pushes the probe back out.
pub open spec fn seg_result(
    a: FracPoint,
    b: FracPoint,
    d1: FracPoint,
    p: FracPoint,
    q: FracPoint,
) -> Option<FracPoint> {
    let d2x = rsub(q.x, p.x);
    let d2y = rsub(q.y, p.y);
    let denom = rsub(rmul(d1.x, d2y), rmul(d1.y, d2x));
    if frac_eq(d2x, frac_from_int(0)) && frac_eq(d2y, frac_from_int(0)) {
        None
    } else if frac_eq(denom, frac_from_int(0)) {
        None
    } else {
        let apx = rsub(p.x, a.x);
        let apy = rsub(p.y, a.y);
        let tn = rsub(rmul(apx, d2y), rmul(apy, d2x));
        let un = rsub(rmul(apx, d1.y), rmul(apy, d1.x));
        let t = rdiv(tn, denom);
        let u = rdiv(un, denom);
        if param_in_unit(t) && param_in_unit(u) {
            let ix = radd(a.x, rmul(t, d1.x));
            let iy = radd(a.y, rmul(t, d1.y));
            let vx = rsub(b.x, ix);
            let vy = rsub(b.y, iy);
            let nx = rneg(d2y);
            let ny = d2x;
            let vn = radd(rmul(vx, nx), rmul(vy, ny));
            let nn = radd(rmul(nx, nx), rmul(ny, ny));
            let coef = rdiv(vn, nn);
            Some(FracPoint { x: rneg(rmul(coef, nx)), y: rneg(rmul(coef, ny)) })
        } else {
            None
        }
    }
}

/// Tests the probe `a -> b` against the single edge `p -> q` and returns the
/// corrective displacement of a crossing, exactly per [`seg_result`].
///
/// Degenerate (zero-length) edges are skipped, not errors; the call fails
/// only when an intermediate value leaves the machine range.
fn seg_correction(a: &RatPoint, b: &RatPoint, d1: &RatPoint, p: &RatPoint, q: &RatPoint) -> (r:
    Result<Option<RatPoint>, GeometryError>)
    requires
        a.wf(),
        b.wf(),
        d1.wf(),
        p.wf(),
        q.wf(),
    ensures
        r matches Err(e) ==> e == GeometryError::NumericOverflow,
        r is Err <==> !seg_ok(a.v(), b.v(), d1.v(), p.v(), q.v()),
        r matches Ok(o) ==> {
            let m = seg_result(a.v(), b.v(), d1.v(), p.v(), q.v());
            &&& (o is Some) == (m is Some)
            &&& (o matches Some(cp) ==> cp.wf() && (m matches Some(mv) && cp.v() == mv))
        },
{
    let d2x = match q.x.sub(p.x) {
        Ok(v) => v.reduced(),
        Err(_) => return Err(GeometryError::NumericOverflow),
    };
    let d2y = match q.y.sub(p.y) {
        Ok(v) => v.reduced(),
        Err(_) => return Err(GeometryError::NumericOverflow),
    };
    if d2x.is_zero() && d2y.is_zero() {
        // A zero-length edge cannot be crossed; skip it.
        return Ok(None);
    }
    let c1 = match d1.x.mul(d2y) {
        Ok(v) => v.reduced(),
        Err(_) => return Err(GeometryError::NumericOverflow),
    };
    let c2 = match d1.y.mul(d2x) {
        Ok(v) => v.reduced(),
        Err(_) => return Err(GeometryError::NumericOverflow),
    };
    let denom = match c1.sub(c2) {
        Ok(v) => v.reduced(),
        Err(_) => return Err(GeometryError::NumericOverflow),
    };
    if denom.is_zero() {
        // Parallel or collinear: no transversal crossing.
        return Ok(None);
    }
    let apx = match p.x.sub(a.x) {
        Ok(v) => v.reduced(),
        Err(_) => return Err(GeometryError::NumericOverflow),
    };
    let apy = match p.y.sub(a.y) {
        Ok(v) => v.reduced(),
        Err(_) => return Err(GeometryError::NumericOverflow),
    };
    let t1 = match apx.mul(d2y) {
        Ok(v) => v.reduced(),
        Err(_) => return Err(GeometryError::NumericOverflow),
    };
    let t2 = match apy.mul(d2x) {
        Ok(v) => v.reduced(),
        Err(_) => return Err(GeometryError::NumericOverflow),
    };
    let tn = match t1.sub(t2) {
        Ok(v) => v.reduced(),
        Err(_) => return Err(GeometryError::NumericOverflow),
    };
    let u1 = match apx.mul(d1.y) {
        Ok(v) => v.reduced(),
        Err(_) => return Err(GeometryError::NumericOverflow),
    };
    let u2 = match apy.mul(d1.x) {
        Ok(v) => v.reduced(),
        Err(_) => return Err(GeometryError::NumericOverflow),
    };
    let un = match u1.sub(u2) {
        Ok(v) => v.reduced(),
        Err(_) => return Err(GeometryError::NumericOverflow),
    };
    let t = match tn.div(denom) {
        Ok(v) => v.reduced(),
        Err(_) => return Err(GeometryError::NumericOverflow),
    };
    let u = match un.div(denom) {
        Ok(v) => v.reduced(),
        Err(_) => return Err(GeometryError::NumericOverflow),
    };
    if !(t.n >= 0 && t.n <= t.d && u.n >= 0 && u.n <= u.d) {
        // The lines cross outside one of the two segments.
        return Ok(None);
    }
    let i1 = match t.mul(d1.x) {
        Ok(v) => v.reduced(),
        Err(_) => return Err(GeometryError::NumericOverflow),
    };
    let ix = match a.x.add(i1) {
        Ok(v) => v.reduced(),
        Err(_) => return Err(GeometryError::NumericOverflow),
    };
    let i2 = match t.mul(d1.y) {
        Ok(v) => v.reduced(),
        Err(_) => return Err(GeometryError::NumericOverflow),
    };
    let iy = match a.y.add(i2) {
        Ok(v) => v.reduced(),
        Err(_) => return Err(GeometryError::NumericOverflow),
    };
    let vx = match b.x.sub(ix) {
        Ok(v) => v.reduced(),
        Err(_) => return Err(GeometryError::NumericOverflow),
    };
    let vy = match b.y.sub(iy) {
        Ok(v) => v.reduced(),
        Err(_) => return Err(GeometryError::NumericOverflow),
    };
    let nx = match d2y.neg() {
        Ok(v) => v.reduced(),
        Err(_) => return Err(GeometryError::NumericOverflow),
    };
    let ny = d2x;
    let m1 = match vx.mul(nx) {
        Ok(v) => v.reduced(),
        Err(_) => return Err(GeometryError::NumericOverflow),
    };
    let m2 = match vy.mul(ny) {
        Ok(v) => v.reduced(),
        Err(_) => return Err(GeometryError::NumericOverflow),
    };
    let vn = match m1.add(m2) {
        Ok(v) => v.reduced(),
        Err(_) => return Err(GeometryError::NumericOverflow),
    };
    let s1 = match nx.mul(nx) {
        Ok(v) => v.reduced(),
        Err(_) => return Err(GeometryError::NumericOverflow),
    };
    let s2 = match ny.mul(ny) {
        Ok(v) => v.reduced(),
        Err(_) => return Err(GeometryError::NumericOverflow),
    };
    let nn = match s1.add(s2) {
        Ok(v) => v.reduced(),
        Err(_) => return Err(GeometryError::NumericOverflow),
    };
    proof {
        // The edge is not degenerate, so its normal is not the zero vector
        // and the squared norm is a positive rational: its reduced
        // numerator cannot be zero.
        let sqx = frac_mul(nx.v(), nx.v());
        let sqy = frac_mul(ny.v(), ny.v());
        assert(sqx.n >= 0 && sqy.n >= 0) by (nonlinear_arith)
            requires
                sqx.n == nx.v().n * nx.v().n,
                sqy.n == ny.v().n * ny.v().n,
        ;
        assert(nx.v().n != 0 ==> sqx.n != 0) by (nonlinear_arith)
            requires
                sqx.n == nx.v().n * nx.v().n,
        ;
        assert(ny.v().n != 0 ==> sqy.n != 0) by (nonlinear_arith)
            requires
                sqy.n == ny.v().n * ny.v().n,
        ;
        assert(s1.v().n >= 0) by (nonlinear_arith)
            requires
                s1.v().n * sqx.d == sqx.n * s1.v().d,
                sqx.n >= 0,
                sqx.d >= 1,
                s1.v().d >= 1,
        ;
        assert(s2.v().n >= 0) by (nonlinear_arith)
            requires
                s2.v().n * sqy.d == sqy.n * s2.v().d,
                sqy.n >= 0,
                sqy.d >= 1,
                s2.v().d >= 1,
        ;
        assert(frac_add(s1.v(), s2.v()).n != 0) by (nonlinear_arith)
            requires
                frac_add(s1.v(), s2.v()).n == s1.v().n * s2.v().d + s2.v().n * s1.v().d,
                s1.v().n >= 0,
                s2.v().n >= 0,
                s1.v().d >= 1,
                s2.v().d >= 1,
                s1.v().n != 0 || s2.v().n != 0,
        ;
    }
    let coef = match vn.div(nn) {
        Ok(v) => v.reduced(),
        Err(_) => return Err(GeometryError::NumericOverflow),
    };
    let k1 = match coef.mul(nx) {
        Ok(v) => v.reduced(),
        Err(_) => return Err(GeometryError::NumericOverflow),
    };
    let k2 = match coef.mul(ny) {
        Ok(v) => v.reduced(),
        Err(_) => return Err(GeometryError::NumericOverflow),
    };
    let cx = match k1.neg() {
        Ok(v) => v.reduced(),
        Err(_) => return Err(GeometryError::NumericOverflow),
    };
    let cy = match k2.neg() {
        Ok(v) => v.reduced(),
        Err(_) => return Err(GeometryError::NumericOverflow),
    };
    Ok(Some(RatPoint { x: cx, y: cy }))
}

/// The world-space outline of a stamp: every local outline point under the
/// stamp's own transform.
pub open spec fn outline_spec(s: Stamp) -> Seq<FracPoint> {
    s.outline@.map_values(|p: RatPoint| ft_spec(s.transform.v(), p.v()))
}

/// Every outline point transforms within the machine range.
pub open spec fn outline_ok(s: Stamp) -> bool {
    forall|j: int|
        0 <= j < s.outline@.len() ==> ft_ok(s.transform.v(), (#[trigger] s.outline@[j]).v())
}

pub open spec fn pts_wf(pts: Seq<FracPoint>) -> bool {
    forall|j: int| 0 <= j < pts.len() ==> fp_wf(#[trigger] pts[j])
}

/// Computes a stamp's world-space outline, exactly per [`outline_spec`].
fn compute_outline(s: &Stamp) -> (r: Result<Vec<RatPoint>, GeometryError>)
    requires
        s.wf(),
    ensures
        r matches Err(e) ==> e == GeometryError::NumericOverflow,
        r is Ok <==> outline_ok(*s),
        r matches Ok(v) ==> {
            &&& v@.map_values(|p: RatPoint| p.v()) =~= outline_spec(*s)
            &&& forall|j: int| 0 <= j < v@.len() ==> (#[trigger] v@[j]).wf()
        },
{
    let mut out: Vec<RatPoint> = Vec::new();
    let n = s.outline.len();
    let mut j: usize = 0;
    while j < n
        invariant
            0 <= j <= n,
            n == s.outline@.len(),
            s.wf(),
            out@.len() == j,
            forall|k: int|
                0 <= k < j ==> (#[trigger] out@[k]).wf() && out@[k].v() == ft_spec(
                    s.transform.v(),
                    s.outline@[k].v(),
                ),
            forall|k: int| 0 <= k < j ==> ft_ok(s.transform.v(), (#[trigger] s.outline@[k]).v()),
        decreases n - j,
    {
        let p = match ftransform(&s.transform, s.outline[j]) {
            Ok(v) => v,
            Err(_) => {
                return Err(GeometryError::NumericOverflow);
            },
        };
        out.push(p);
        j = j + 1;
    }
    proof {
        assert(out@.map_values(|p: RatPoint| p.v()) =~= outline_spec(*s));
    }
    Ok(out)
}

/// A plain element-for-element copy of a point list.
fn clone_points(v: &Vec<RatPoint>) -> (r: Vec<RatPoint>)
    ensures
        r@ == v@,
{
    let mut out: Vec<RatPoint> = Vec::new();
    let mut j: usize = 0;
    while j < v.len()
        invariant
            0 <= j <= v@.len(),
            out@ =~= v@.take(j as int),
        decreases v@.len() - j,
    {
        out.push(v[j]);
        j = j + 1;
    }
    proof {
        assert(out@ =~= v@);
    }
    out
}

impl GeomCache {
    /// A copy of the memoized outline for stamp `i`, if one is present.
    fn get_copy(&self, i: usize) -> (r: Option<Vec<RatPoint>>)
        requires
            self.wf(),
        ensures
            (r is Some) == (cache_get(self.v(), i as int) is Some),
            r matches Some(v) ==> {
                &&& cache_get(self.v(), i as int) matches Some(o) && v@.map_values(
                    |p: RatPoint| p.v(),
                ) == o
                &&& forall|j: int| 0 <= j < v@.len() ==> (#[trigger] v@[j]).wf()
            },
    {
        if i < self.entries.len() {
            match &self.entries[i] {
                Some(pts) => {
                    let c = clone_points(pts);
                    Some(c)
                },
                None => None,
            }
        } else {
            None
        }
    }

    /// Memoizes outline `pts` for stamp `i`, padding any gap with empty
    /// entries.
    fn put(&mut self, i: usize, pts: Vec<RatPoint>)
        requires
            old(self).wf(),
            forall|j: int| 0 <= j < pts@.len() ==> (#[trigger] pts@[j]).wf(),
        ensures
            final(self).wf(),
            final(self).v() =~= cache_put(
                old(self).v(),
                i as int,
                pts@.map_values(|p: RatPoint| p.v()),
            ),
    {
        if i < self.entries.len() {
            self.entries[i] = Some(pts);
        } else {
            let ghost c0 = self.entries@;
            while self.entries.len() < i
                invariant
                    old(self).wf(),
                    c0 == old(self).entries@,
                    c0.len() <= self.entries@.len() <= i,
                    self.entries@ =~= c0 + Seq::new(
                        (self.entries@.len() - c0.len()) as nat,
                        |k: int| None::<Vec<RatPoint>>,
                    ),
                decreases i - self.entries@.len(),
            {
                self.entries.push(None);
            }
            self.entries.push(Some(pts));
        }
    }
}

/// One stamp outline scanned edge by edge: the first crossing's correction,
/// `None` when no edge is crossed, or the overflow error.
pub open spec fn outline_scan(
    pts: Seq<FracPoint>,
    a: FracPoint,
    b: FracPoint,
    d1: FracPoint,
    j: int,
) -> Result<Option<FracPoint>, GeometryError>
    decreases pts.len() - j,
{
    if j < 0 || j >= pts.len() {
        Ok(None)
    } else {
        let q = pts[if j + 1 == pts.len() {
            0int
        } else {
            j + 1
        }];
        if !seg_ok(a, b, d1, pts[j], q) {
            Err(GeometryError::NumericOverflow)
        } else {
            match seg_result(a, b, d1, pts[j], q) {
                Some(cr) => Ok(Some(cr)),
                None => outline_scan(pts, a, b, d1, j + 1),
            }
        }
    }
}

/// Tests the probe against every edge of one outline, exactly per
/// [`outline_scan`].
fn outline_hit(a: &RatPoint, b: &RatPoint, d1: &RatPoint, pts: &Vec<RatPoint>) -> (r: Result<
    Option<RatPoint>,
    GeometryError,
>)
    requires
        a.wf(),
        b.wf(),
        d1.wf(),
        forall|j: int| 0 <= j < pts@.len() ==> (#[trigger] pts@[j]).wf(),
    ensures
        ({
            let m = outline_scan(
                pts@.map_values(|p: RatPoint| p.v()),
                a.v(),
                b.v(),
                d1.v(),
                0,
            );
            &&& (r is Err) == (m is Err)
            &&& (r matches Err(e) ==> m matches Err(e2) && e == e2)
            &&& (r matches Ok(o) ==> m matches Ok(mo) && (o is Some) == (mo is Some) && (
            o matches Some(cp) ==> cp.wf() && (mo matches Some(mv) && cp.v() == mv)))
        }),
{
    let ghost sv = pts@.map_values(|p: RatPoint| p.v());
    let n = pts.len();
    let mut j: usize = 0;
    while j < n
        invariant
            0 <= j <= n,
            n == pts@.len(),
            sv == pts@.map_values(|p: RatPoint| p.v()),
            a.wf(),
            b.wf(),
            d1.wf(),
            forall|k: int| 0 <= k < pts@.len() ==> (#[trigger] pts@[k]).wf(),
            outline_scan(sv, a.v(), b.v(), d1.v(), 0) == outline_scan(
                sv,
                a.v(),
                b.v(),
                d1.v(),
                j as int,
            ),
        decreases n - j,
    {
        let qi = if j + 1 == n {
            0
        } else {
            j + 1
        };
        match seg_correction(a, b, d1, &pts[j], &pts[qi]) {
            Err(e) => {
                return Err(e);
            },
            Ok(Some(c)) => {
                return Ok(Some(c));
            },
            Ok(None) => {
                j = j + 1;
            },
        }
    }
    Ok(None)
}

/// One coordinate of a corrective displacement exceeds the noise threshold
/// of one millionth of a unit in magnitude.
pub open spec fn significant_coord(f: Frac) -> bool {
    f.n * 1000000 > f.d || f.n * 1000000 < -f.d
}

/// The epsilon policy: a correction counts as a real collision only when
/// one of its components exceeds one millionth of a unit in magnitude;
/// anything smaller is floating-point-scale noise and is treated as no
/// collision for user-visible purposes (though it may still be applied to a
/// position as a harmless nudge).
pub open spec fn significant_spec(c: FracPoint) -> bool {
    significant_coord(c.x) || significant_coord(c.y)
}

/// Classifies a corrective displacement under the epsilon policy, exactly
/// per [`significant_spec`].
pub fn is_significant(c: &RatPoint) -> (r: bool)
    requires
        c.wf(),
    ensures
        r == significant_spec(c.v()),
{
    coord_significant(&c.x) || coord_significant(&c.y)
}

fn coord_significant(r: &Rat) -> (b: bool)
    requires
        r.wf(),
    ensures
        b == significant_coord(r.v()),
{
    match r.n.checked_mul(1000000) {
        Some(p) => p > r.d || p < -r.d,
        None => {
            // The scaled numerator left the 128-bit range, so its magnitude
            // certainly exceeds the denominator.
            true
        },
    }
}

/// The engine's full pass over the level, stamp by stamp in level order,
/// memoizing outlines as it goes: the first crossing's correction and the
/// cache left behind.
pub open spec fn scan(
    stamps: Seq<Stamp>,
    c: Seq<Option<Seq<FracPoint>>>,
    a: FracPoint,
    b: FracPoint,
    d1: FracPoint,
    i: int,
) -> (Result<Option<FracPoint>, GeometryError>, Seq<Option<Seq<FracPoint>>>)
    decreases stamps.len() - i,
{
    if i < 0 || i >= stamps.len() {
        (Ok(None), c)
    } else {
        match cache_get(c, i) {
            Some(pts) => match outline_scan(pts, a, b, d1, 0) {
                Err(e) => (Err(e), c),
                Ok(Some(x)) => (Ok(Some(x)), c),
                Ok(None) => scan(stamps, c, a, b, d1, i + 1),
            },
            None => {
                if outline_ok(stamps[i]) {
                    let pts = outline_spec(stamps[i]);
                    let c2 = cache_put(c, i, pts);
                    match outline_scan(pts, a, b, d1, 0) {
                        Err(e) => (Err(e), c2),
                        Ok(Some(x)) => (Ok(Some(x)), c2),
                        Ok(None) => scan(stamps, c2, a, b, d1, i + 1),
                    }
                } else {
                    (Err(GeometryError::NumericOverflow), c)
                }
            },
        }
    }
}

/// What one intersection call computes: the probe direction, the degenerate
/// probe check, then the scan over the level.
pub open spec fn intersect_spec(
    stamps: Seq<Stamp>,
    c: Seq<Option<Seq<FracPoint>>>,
    a: FracPoint,
    b: FracPoint,
) -> (Result<Option<FracPoint>, GeometryError>, Seq<Option<Seq<FracPoint>>>) {
    if !sub_fits(b.x, a.x) || !sub_fits(b.y, a.y) {
        (Err(GeometryError::NumericOverflow), c)
    } else {
        let d1 = FracPoint { x: rsub(b.x, a.x), y: rsub(b.y, a.y) };
        if frac_eq(d1.x, frac_from_int(0)) && frac_eq(d1.y, frac_from_int(0)) {
            (Err(GeometryError::DegenerateProbe), c)
        } else {
            scan(stamps, c, a, b, d1, 0)
        }
    }
}

/// Pure memoization: every filled cache entry equals the world-space outline
/// the engine would recompute for that stamp.
pub open spec fn cache_valid(c: Seq<Option<Seq<FracPoint>>>, stamps: Seq<Stamp>) -> bool {
    &&& c.len() <= stamps.len()
    &&& forall|i: int|
        0 <= i < c.len() ==> match #[trigger] c[i] {
            Some(o) => o == outline_spec(stamps[i]),
            None => true,
        }
}

impl Svg {
    /// Tests the directed probe segment `a -> b` against every stamp in
    /// level order and returns the corrective displacement of the first
    /// crossing found, `None` when nothing is crossed, or a typed failure:
    /// [`GeometryError::DegenerateProbe`] for a zero-length probe,
    /// [`GeometryError::NumericOverflow`] when an intermediate value leaves
    /// the machine range.
    ///
    /// Outlines are memoized in `cache` (keyed by stamp position); the whole
    /// call behaves exactly like [`intersect_spec`] on the old cache.
    pub fn intersect(&self, a: RatPoint, b: RatPoint, cache: &mut GeomCache) -> (r: Result<
        Option<RatPoint>,
        GeometryError,
    >)
        requires
            self.wf(),
            a.wf(),
            b.wf(),
            old(cache).wf(),
        ensures
            final(cache).wf(),
            ({
                let (res, c2) = intersect_spec(self.stamps@, old(cache).v(), a.v(), b.v());
                &&& final(cache).v() == c2
                &&& (r is Err) == (res is Err)
                &&& (r matches Err(e) ==> res matches Err(e2) && e == e2)
                &&& (r matches Ok(o) ==> res matches Ok(mo) && (o is Some) == (mo is Some) && (
                o matches Some(cp) ==> cp.wf() && (mo matches Some(mv) && cp.v() == mv)))
            }),
    {
        let d1x = match b.x.sub(a.x) {
            Ok(v) => v.reduced(),
            Err(_) => {
                return Err(GeometryError::NumericOverflow);
            },
        };
        let d1y = match b.y.sub(a.y) {
            Ok(v) => v.reduced(),
            Err(_) => {
                return Err(GeometryError::NumericOverflow);
            },
        };
        if d1x.is_zero() && d1y.is_zero() {
            return Err(GeometryError::DegenerateProbe);
        }
        let d1 = RatPoint { x: d1x, y: d1y };
        let n = self.stamps.len();
        let mut i: usize = 0;
        while i < n
            invariant
                0 <= i <= n,
                n == self.stamps@.len(),
                self.wf(),
                a.wf(),
                b.wf(),
                d1.wf(),
                cache.wf(),
                d1.v() == (FracPoint {
                    x: rsub(b.v().x, a.v().x),
                    y: rsub(b.v().y, a.v().y),
                }),
                sub_fits(b.v().x, a.v().x),
                sub_fits(b.v().y, a.v().y),
                !(frac_eq(d1.v().x, frac_from_int(0)) && frac_eq(d1.v().y, frac_from_int(0))),
                scan(self.stamps@, old(cache).v(), a.v(), b.v(), d1.v(), 0) == scan(
                    self.stamps@,
                    cache.v(),
                    a.v(),
                    b.v(),
                    d1.v(),
                    i as int,
                ),
            decreases n - i,
        {
            let ghost head = cache.v();
            let pts: Vec<RatPoint> = match cache.get_copy(i) {
                Some(v) => v,
                None => {
                    let computed = match compute_outline(&self.stamps[i]) {
                        Ok(v) => v,
                        Err(_) => {
                            proof {
                                assert(scan(
                                    self.stamps@,
                                    head,
                                    a.v(),
                                    b.v(),
                                    d1.v(),
                                    i as int,
                                ) == (
                                    Err::<Option<FracPoint>, GeometryError>(
                                        GeometryError::NumericOverflow,
                                    ),
                                    head,
                                ));
                            }
                            return Err(GeometryError::NumericOverflow);
                        },
                    };
                    let copy = clone_points(&computed);
                    cache.put(i, computed);
                    proof {
                        assert(cache.v() =~= cache_put(
                            head,
                            i as int,
                            outline_spec(self.stamps@[i as int]),
                        ));
                    }
                    copy
                },
            };
            proof {
                let ptsv = pts@.map_values(|p: RatPoint| p.v());
                assert(cache_get(head, i as int) matches Some(o) ==> o == ptsv);
                assert(cache_get(head, i as int) is None ==> {
                    &&& outline_ok(self.stamps@[i as int])
                    &&& ptsv == outline_spec(self.stamps@[i as int])
                    &&& cache.v() == cache_put(head, i as int, ptsv)
                });
            }
            match outline_hit(&a, &b, &d1, &pts) {
                Err(e) => {
                    proof {
                        assert(scan(self.stamps@, head, a.v(), b.v(), d1.v(), i as int) == (
                            Err::<Option<FracPoint>, GeometryError>(e),
                            cache.v(),
                        ));
                    }
                    return Err(e);
                },
                Ok(Some(c)) => {
                    proof {
                        assert(scan(self.stamps@, head, a.v(), b.v(), d1.v(), i as int) == (
                            Ok::<Option<FracPoint>, GeometryError>(Some(c.v())),
                            cache.v(),
                        ));
                    }
                    return Ok(Some(c));
                },
                Ok(None) => {
                    proof {
                        assert(scan(self.stamps@, head, a.v(), b.v(), d1.v(), i as int) == scan(
                            self.stamps@,
                            cache.v(),
                            a.v(),
                            b.v(),
                            d1.v(),
                            i + 1,
                        ));
                    }
                    i = i + 1;
                },
            }
        }
        Ok(None)
    }
}

} // verus!
