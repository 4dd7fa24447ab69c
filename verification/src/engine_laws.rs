//! Laws of the intersection engine's cache.
//!
//! The cache is pure memoization: a scan only ever adds true world-space
//! outlines, never disturbs an existing entry, and a repeated call with the
//! same probe returns the same answer and leaves the cache untouched.

use vstd::prelude::*;

use crate::geometry::{
    Stamp, cache_get, cache_put, cache_valid, intersect_spec, outline_ok, outline_scan,
    outline_spec, probe_side, rdiv, rmul, rsub, scan, seg_result,
};
use crate::rational::{
    Frac, frac_add, frac_div, frac_eq, frac_from_int, frac_le, frac_mul, frac_sub,
    frac_wf, lemma_addsub_shuffle, lemma_frac_add_cong, lemma_frac_eq_trans, lemma_frac_le_cong,
    lemma_frac_mul_cong, lemma_frac_ops_wf, lemma_frac_sub_cong, lemma_mul_add_distrib,
    lemma_mul_comm, lemma_reduce_props, lemma_sub_split,
};
use crate::transform::{FracPoint, fp_wf};

verus! {

/// Reduction of a difference: well formed and equal to the plain difference.
proof fn lemma_rsub_eq(x: Frac, y: Frac)
    requires
        frac_wf(x),
        frac_wf(y),
    ensures
        frac_wf(frac_sub(x, y)),
        frac_wf(rsub(x, y)),
        frac_eq(rsub(x, y), frac_sub(x, y)),
        rsub(x, y).n == 0 <==> frac_sub(x, y).n == 0,
{
    lemma_frac_ops_wf(x, y);
    lemma_reduce_props(frac_sub(x, y));
}

/// Reduction of a product: well formed and equal to the plain product.
proof fn lemma_rmul_eq(x: Frac, y: Frac)
    requires
        frac_wf(x),
        frac_wf(y),
    ensures
        frac_wf(frac_mul(x, y)),
        frac_wf(rmul(x, y)),
        frac_eq(rmul(x, y), frac_mul(x, y)),
{
    lemma_frac_ops_wf(x, y);
    lemma_reduce_props(frac_mul(x, y));
}

/// The side of an edge's far endpoint equals the side of its near endpoint
/// minus the edge test's denominator: crossing the edge means crossing the
/// probe's supporting line.
proof fn lemma_side_relation(a: FracPoint, d1: FracPoint, p: FracPoint, q: FracPoint)
    requires
        fp_wf(a),
        fp_wf(d1),
        fp_wf(p),
        fp_wf(q),
    ensures
        ({
            let d2x = rsub(q.x, p.x);
            let d2y = rsub(q.y, p.y);
            let denom = rsub(rmul(d1.x, d2y), rmul(d1.y, d2x));
            let un = probe_side(a, d1, p);
            &&& frac_wf(un)
            &&& frac_wf(denom)
            &&& frac_wf(frac_sub(un, denom))
            &&& frac_wf(probe_side(a, d1, q))
            &&& frac_eq(probe_side(a, d1, q), frac_sub(un, denom))
        }),
{
    let apxu = frac_sub(p.x, a.x);
    let apyu = frac_sub(p.y, a.y);
    let aqxu = frac_sub(q.x, a.x);
    let aqyu = frac_sub(q.y, a.y);
    let d2xu = frac_sub(q.x, p.x);
    let d2yu = frac_sub(q.y, p.y);
    let apx = rsub(p.x, a.x);
    let apy = rsub(p.y, a.y);
    let aqx = rsub(q.x, a.x);
    let aqy = rsub(q.y, a.y);
    let d2x = rsub(q.x, p.x);
    let d2y = rsub(q.y, p.y);
    lemma_rsub_eq(p.x, a.x);
    lemma_rsub_eq(p.y, a.y);
    lemma_rsub_eq(q.x, a.x);
    lemma_rsub_eq(q.y, a.y);
    lemma_rsub_eq(q.x, p.x);
    lemma_rsub_eq(q.y, p.y);
    // The far endpoint's offset splits through the near endpoint.
    lemma_sub_split(a.x, p.x, q.x);
    lemma_sub_split(a.y, p.y, q.y);
    lemma_frac_ops_wf(apxu, d2xu);
    lemma_frac_ops_wf(apyu, d2yu);
    lemma_frac_add_cong(apxu, apx, d2xu, d2x);
    lemma_frac_add_cong(apyu, apy, d2yu, d2y);
    lemma_frac_ops_wf(apx, d2x);
    lemma_frac_ops_wf(apy, d2y);
    lemma_frac_eq_trans(aqx, aqxu, frac_add(apxu, d2xu));
    lemma_frac_eq_trans(aqx, frac_add(apxu, d2xu), frac_add(apx, d2x));
    lemma_frac_eq_trans(aqy, aqyu, frac_add(apyu, d2yu));
    lemma_frac_eq_trans(aqy, frac_add(apyu, d2yu), frac_add(apy, d2y));
    // Distribute the cross products over the split.
    let ka = frac_mul(apx, d1.y);
    let kb = frac_mul(d2x, d1.y);
    let kc = frac_mul(apy, d1.x);
    let kd = frac_mul(d2y, d1.x);
    lemma_frac_ops_wf(apx, d1.y);
    lemma_frac_ops_wf(d2x, d1.y);
    lemma_frac_ops_wf(apy, d1.x);
    lemma_frac_ops_wf(d2y, d1.x);
    lemma_frac_ops_wf(aqx, d1.y);
    lemma_frac_ops_wf(aqy, d1.x);
    lemma_frac_ops_wf(frac_add(apx, d2x), d1.y);
    lemma_frac_ops_wf(frac_add(apy, d2y), d1.x);
    lemma_frac_ops_wf(ka, kb);
    lemma_frac_ops_wf(kc, kd);
    lemma_frac_mul_cong(aqx, frac_add(apx, d2x), d1.y, d1.y);
    lemma_frac_mul_cong(aqy, frac_add(apy, d2y), d1.x, d1.x);
    lemma_mul_add_distrib(apx, d2x, d1.y);
    lemma_mul_add_distrib(apy, d2y, d1.x);
    lemma_frac_eq_trans(
        frac_mul(aqx, d1.y),
        frac_mul(frac_add(apx, d2x), d1.y),
        frac_add(ka, kb),
    );
    lemma_frac_eq_trans(
        frac_mul(aqy, d1.x),
        frac_mul(frac_add(apy, d2y), d1.x),
        frac_add(kc, kd),
    );
    // Peel the reductions off the side value of the far endpoint.
    let sq = probe_side(a, d1, q);
    lemma_rmul_eq(aqx, d1.y);
    lemma_rmul_eq(aqy, d1.x);
    lemma_rsub_eq(rmul(aqx, d1.y), rmul(aqy, d1.x));
    lemma_frac_ops_wf(rmul(aqx, d1.y), rmul(aqy, d1.x));
    lemma_frac_eq_trans(rmul(aqx, d1.y), frac_mul(aqx, d1.y), frac_add(ka, kb));
    lemma_frac_eq_trans(rmul(aqy, d1.x), frac_mul(aqy, d1.x), frac_add(kc, kd));
    lemma_frac_ops_wf(frac_add(ka, kb), frac_add(kc, kd));
    lemma_frac_sub_cong(
        rmul(aqx, d1.y),
        frac_add(ka, kb),
        rmul(aqy, d1.x),
        frac_add(kc, kd),
    );
    lemma_frac_eq_trans(
        sq,
        frac_sub(rmul(aqx, d1.y), rmul(aqy, d1.x)),
        frac_sub(frac_add(ka, kb), frac_add(kc, kd)),
    );
    // Regroup into the near side minus the denominator.
    lemma_addsub_shuffle(ka, kb, kc, kd);
    lemma_frac_ops_wf(ka, kc);
    lemma_frac_ops_wf(kd, kb);
    lemma_frac_ops_wf(frac_sub(ka, kc), frac_sub(kd, kb));
    lemma_frac_eq_trans(
        sq,
        frac_sub(frac_add(ka, kb), frac_add(kc, kd)),
        frac_sub(frac_sub(ka, kc), frac_sub(kd, kb)),
    );
    // The near side and the denominator, with their reductions peeled.
    let un = probe_side(a, d1, p);
    lemma_rmul_eq(apx, d1.y);
    lemma_rmul_eq(apy, d1.x);
    lemma_rsub_eq(rmul(apx, d1.y), rmul(apy, d1.x));
    lemma_frac_sub_cong(rmul(apx, d1.y), ka, rmul(apy, d1.x), kc);
    lemma_frac_ops_wf(ka, kc);
    lemma_frac_eq_trans(un, frac_sub(rmul(apx, d1.y), rmul(apy, d1.x)), frac_sub(ka, kc));
    let denom = rsub(rmul(d1.x, d2y), rmul(d1.y, d2x));
    lemma_rmul_eq(d1.x, d2y);
    lemma_rmul_eq(d1.y, d2x);
    lemma_rsub_eq(rmul(d1.x, d2y), rmul(d1.y, d2x));
    lemma_mul_comm(d1.x, d2y);
    lemma_mul_comm(d1.y, d2x);
    lemma_frac_ops_wf(frac_mul(d1.x, d2y), frac_mul(d1.y, d2x));
    lemma_frac_sub_cong(
        rmul(d1.x, d2y),
        frac_mul(d1.x, d2y),
        rmul(d1.y, d2x),
        frac_mul(d1.y, d2x),
    );
    lemma_frac_eq_trans(
        denom,
        frac_sub(rmul(d1.x, d2y), rmul(d1.y, d2x)),
        frac_sub(kd, kb),
    );
    // Put the pieces together.
    lemma_frac_sub_cong(frac_sub(ka, kc), un, frac_sub(kd, kb), denom);
    lemma_frac_ops_wf(un, denom);
    lemma_frac_eq_trans(
        sq,
        frac_sub(frac_sub(ka, kc), frac_sub(kd, kb)),
        frac_sub(un, denom),
    );
}

/// Both endpoints of the edge lie strictly on one side of the probe's
/// supporting line.
pub open spec fn edge_strictly_aside(a: FracPoint, d1: FracPoint, p: FracPoint, q: FracPoint) -> bool {
    ||| probe_side(a, d1, p).n > 0 && probe_side(a, d1, q).n > 0
    ||| probe_side(a, d1, p).n < 0 && probe_side(a, d1, q).n < 0
}

/// An edge that stays strictly on one side of the probe's supporting line
/// is never crossed.
pub proof fn lemma_aside_edge_misses(
    a: FracPoint,
    b: FracPoint,
    d1: FracPoint,
    p: FracPoint,
    q: FracPoint,
)
    requires
        fp_wf(a),
        fp_wf(b),
        fp_wf(d1),
        fp_wf(p),
        fp_wf(q),
        edge_strictly_aside(a, d1, p, q),
    ensures
        seg_result(a, b, d1, p, q) is None,
{
    let d2x = rsub(q.x, p.x);
    let d2y = rsub(q.y, p.y);
    let denom = rsub(rmul(d1.x, d2y), rmul(d1.y, d2x));
    let un = probe_side(a, d1, p);
    let sq = probe_side(a, d1, q);
    lemma_side_relation(a, d1, p, q);
    let s = frac_sub(un, denom);
    if !(frac_eq(d2x, frac_from_int(0)) && frac_eq(d2y, frac_from_int(0))) && !frac_eq(
        denom,
        frac_from_int(0),
    ) {
        let u = rdiv(un, denom);
        if crate::geometry::param_in_unit(rdiv(rsub(rmul(rsub(p.x, a.x), d2y), rmul(rsub(p.y, a.y), d2x)), denom))
            && crate::geometry::param_in_unit(u) {
            // A crossing would put the edge's endpoints on opposite sides
            // of the probe's line; the hypothesis says they are not.
            let dv = frac_div(un, denom);
            lemma_frac_ops_wf(un, denom);
            lemma_reduce_props(dv);
            let one = frac_from_int(1);
            let zero = frac_from_int(0);
            lemma_frac_le_cong(zero, zero, u, dv);
            lemma_frac_le_cong(u, dv, one, one);
            assert(frac_le(zero, dv));
            assert(frac_le(dv, one));
            if denom.n >= 0 {
                assert(dv.n == un.n * denom.d && dv.d == un.d * denom.n);
                assert(un.n >= 0) by (nonlinear_arith)
                    requires
                        un.n * denom.d >= 0,
                        denom.d >= 1,
                ;
                assert(un.n * denom.d <= un.d * denom.n);
                assert(s.n <= 0) by (nonlinear_arith)
                    requires
                        s.n == un.n * denom.d - denom.n * un.d,
                        un.n * denom.d <= un.d * denom.n,
                ;
                assert(sq.n <= 0) by (nonlinear_arith)
                    requires
                        sq.n * s.d == s.n * sq.d,
                        s.n <= 0,
                        s.d >= 1,
                        sq.d >= 1,
                ;
                assert(false);
            } else {
                assert(dv.n == -(un.n * denom.d) && dv.d == -(un.d * denom.n));
                assert(un.n <= 0) by (nonlinear_arith)
                    requires
                        -(un.n * denom.d) >= 0,
                        denom.d >= 1,
                ;
                assert(-(un.n * denom.d) <= -(un.d * denom.n));
                assert(s.n >= 0) by (nonlinear_arith)
                    requires
                        s.n == un.n * denom.d - denom.n * un.d,
                        -(un.n * denom.d) <= -(un.d * denom.n),
                ;
                assert(sq.n >= 0) by (nonlinear_arith)
                    requires
                        sq.n * s.d == s.n * sq.d,
                        s.n >= 0,
                        s.d >= 1,
                        sq.d >= 1,
                ;
                assert(false);
            }
        }
    }
}

/// Every point of the outline lies strictly on one side of the probe's
/// supporting line.
pub open spec fn outline_strictly_aside(pts: Seq<FracPoint>, a: FracPoint, d1: FracPoint) -> bool {
    ||| forall|k: int| 0 <= k < pts.len() ==> (#[trigger] probe_side(a, d1, pts[k])).n > 0
    ||| forall|k: int| 0 <= k < pts.len() ==> (#[trigger] probe_side(a, d1, pts[k])).n < 0
}

/// An outline that stays strictly on one side of the probe's supporting
/// line is never hit by any of its edges.
pub proof fn lemma_aside_outline_misses(
    pts: Seq<FracPoint>,
    a: FracPoint,
    b: FracPoint,
    d1: FracPoint,
    j: int,
)
    requires
        fp_wf(a),
        fp_wf(b),
        fp_wf(d1),
        forall|k: int| 0 <= k < pts.len() ==> fp_wf(#[trigger] pts[k]),
        outline_strictly_aside(pts, a, d1),
    ensures
        !(outline_scan(pts, a, b, d1, j) matches Ok(Some(_))),
    decreases pts.len() - j,
{
    if j < 0 || j >= pts.len() {
    } else {
        let qi = if j + 1 == pts.len() {
            0int
        } else {
            j + 1
        };
        lemma_aside_edge_misses(a, b, d1, pts[j], pts[qi]);
        lemma_aside_outline_misses(pts, a, b, d1, j + 1);
    }
}

/// Every stamp's world-space outline lies strictly on one side of the
/// probe's supporting line (each stamp on its own side).
pub open spec fn level_strictly_aside(stamps: Seq<Stamp>, a: FracPoint, d1: FracPoint) -> bool {
    forall|i: int|
        0 <= i < stamps.len() ==> outline_strictly_aside(
            outline_spec(#[trigger] stamps[i]),
            a,
            d1,
        )
}

/// The points of a well-formed stamp's world-space outline are well formed.
proof fn lemma_outline_spec_wf(s: Stamp)
    requires
        s.wf(),
    ensures
        forall|k: int| 0 <= k < outline_spec(s).len() ==> fp_wf(#[trigger] outline_spec(s)[k]),
{
    assert forall|k: int| 0 <= k < outline_spec(s).len() implies fp_wf(
        #[trigger] outline_spec(s)[k],
    ) by {
        assert(outline_spec(s)[k] == crate::transform::ft_spec(
            s.transform.v(),
            s.outline@[k].v(),
        ));
        crate::transform_laws::lemma_ft_wf(s.transform.v(), s.outline@[k].v());
    }
}

/// No stamp whose outline stays strictly aside of the probe's supporting
/// line is ever reported hit by a scan.
pub proof fn lemma_scan_aside_misses(
    stamps: Seq<Stamp>,
    c: Seq<Option<Seq<FracPoint>>>,
    a: FracPoint,
    b: FracPoint,
    d1: FracPoint,
    i: int,
)
    requires
        cache_valid(c, stamps),
        forall|k: int| 0 <= k < stamps.len() ==> (#[trigger] stamps[k]).wf(),
        fp_wf(a),
        fp_wf(b),
        fp_wf(d1),
        level_strictly_aside(stamps, a, d1),
    ensures
        !(scan(stamps, c, a, b, d1, i).0 matches Ok(Some(_))),
    decreases stamps.len() - i,
{
    if i < 0 || i >= stamps.len() {
    } else {
        lemma_outline_spec_wf(stamps[i]);
        match cache_get(c, i) {
            Some(pts) => {
                assert(pts == outline_spec(stamps[i]));
                lemma_aside_outline_misses(pts, a, b, d1, 0);
                match outline_scan(pts, a, b, d1, 0) {
                    Err(_) => {},
                    Ok(Some(_)) => {},
                    Ok(None) => {
                        lemma_scan_aside_misses(stamps, c, a, b, d1, i + 1);
                    },
                }
            },
            None => {
                if outline_ok(stamps[i]) {
                    let pts = outline_spec(stamps[i]);
                    let c2 = cache_put(c, i, pts);
                    lemma_cache_put_valid(c, stamps, i);
                    lemma_aside_outline_misses(pts, a, b, d1, 0);
                    match outline_scan(pts, a, b, d1, 0) {
                        Err(_) => {},
                        Ok(Some(_)) => {},
                        Ok(None) => {
                            lemma_scan_aside_misses(stamps, c2, a, b, d1, i + 1);
                        },
                    }
                }
            },
        }
    }
}

/// No-collision law: a probe whose supporting line leaves every outline
/// point of every shape strictly on one side — in particular a probe that
/// runs beside every shape's bounding region — is reported as no collision:
/// a successful intersection call returns `None`.
pub proof fn lemma_separated_probe_misses(
    stamps: Seq<Stamp>,
    c: Seq<Option<Seq<FracPoint>>>,
    a: FracPoint,
    b: FracPoint,
)
    requires
        cache_valid(c, stamps),
        forall|k: int| 0 <= k < stamps.len() ==> (#[trigger] stamps[k]).wf(),
        fp_wf(a),
        fp_wf(b),
        level_strictly_aside(
            stamps,
            a,
            FracPoint { x: rsub(b.x, a.x), y: rsub(b.y, a.y) },
        ),
    ensures
        !(intersect_spec(stamps, c, a, b).0 matches Ok(Some(_))),
{
    let d1 = FracPoint { x: rsub(b.x, a.x), y: rsub(b.y, a.y) };
    lemma_rsub_eq(b.x, a.x);
    lemma_rsub_eq(b.y, a.y);
    lemma_scan_aside_misses(stamps, c, a, b, d1, 0);
}

/// A scan never disturbs an outline that is already memoized.
pub proof fn lemma_scan_monotone(
    stamps: Seq<Stamp>,
    c: Seq<Option<Seq<FracPoint>>>,
    a: FracPoint,
    b: FracPoint,
    d1: FracPoint,
    i: int,
    j: int,
)
    requires
        cache_get(c, j) is Some,
    ensures
        cache_get(scan(stamps, c, a, b, d1, i).1, j) == cache_get(c, j),
    decreases stamps.len() - i,
{
    if i < 0 || i >= stamps.len() {
    } else {
        match cache_get(c, i) {
            Some(pts) => {
                match outline_scan(pts, a, b, d1, 0) {
                    Err(_) => {},
                    Ok(Some(_)) => {},
                    Ok(None) => {
                        lemma_scan_monotone(stamps, c, a, b, d1, i + 1, j);
                    },
                }
            },
            None => {
                if outline_ok(stamps[i]) {
                    let pts = outline_spec(stamps[i]);
                    let c2 = cache_put(c, i, pts);
                    assert(cache_get(c2, j) == cache_get(c, j));
                    match outline_scan(pts, a, b, d1, 0) {
                        Err(_) => {},
                        Ok(Some(_)) => {},
                        Ok(None) => {
                            lemma_scan_monotone(stamps, c2, a, b, d1, i + 1, j);
                        },
                    }
                }
            },
        }
    }
}

/// Memoizing an outline keeps the cache valid: the new entry is the true
/// outline, and nothing else moves.
proof fn lemma_cache_put_valid(
    c: Seq<Option<Seq<FracPoint>>>,
    stamps: Seq<Stamp>,
    i: int,
)
    requires
        cache_valid(c, stamps),
        0 <= i < stamps.len(),
    ensures
        cache_valid(cache_put(c, i, outline_spec(stamps[i])), stamps),
{
    let c2 = cache_put(c, i, outline_spec(stamps[i]));
    assert forall|k: int| 0 <= k < c2.len() implies match #[trigger] c2[k] {
        Some(o) => o == outline_spec(stamps[k]),
        None => true,
    } by {
        if i < c.len() {
            if k != i {
                assert(c2[k] == c[k]);
            }
        } else {
            if k < c.len() {
                assert(c2[k] == c[k]);
            } else if k < i {
                assert(c2[k] is None);
            }
        }
    }
}

/// Every cache a scan leaves behind is valid: filled entries are exactly the
/// outlines recomputation would produce.
pub proof fn lemma_scan_preserves_cache_valid(
    stamps: Seq<Stamp>,
    c: Seq<Option<Seq<FracPoint>>>,
    a: FracPoint,
    b: FracPoint,
    d1: FracPoint,
    i: int,
)
    requires
        cache_valid(c, stamps),
    ensures
        cache_valid(scan(stamps, c, a, b, d1, i).1, stamps),
    decreases stamps.len() - i,
{
    if i < 0 || i >= stamps.len() {
    } else {
        match cache_get(c, i) {
            Some(pts) => {
                match outline_scan(pts, a, b, d1, 0) {
                    Err(_) => {},
                    Ok(Some(_)) => {},
                    Ok(None) => {
                        lemma_scan_preserves_cache_valid(stamps, c, a, b, d1, i + 1);
                    },
                }
            },
            None => {
                if outline_ok(stamps[i]) {
                    let pts = outline_spec(stamps[i]);
                    let c2 = cache_put(c, i, pts);
                    lemma_cache_put_valid(c, stamps, i);
                    match outline_scan(pts, a, b, d1, 0) {
                        Err(_) => {},
                        Ok(Some(_)) => {},
                        Ok(None) => {
                            lemma_scan_preserves_cache_valid(stamps, c2, a, b, d1, i + 1);
                        },
                    }
                }
            },
        }
    }
}

/// A successful scan is idempotent: run again on the cache it produced, with
/// the same probe, it returns the same answer and the same cache.
pub proof fn lemma_scan_idempotent(
    stamps: Seq<Stamp>,
    c: Seq<Option<Seq<FracPoint>>>,
    a: FracPoint,
    b: FracPoint,
    d1: FracPoint,
    i: int,
)
    requires
        scan(stamps, c, a, b, d1, i).0 is Ok,
    ensures
        scan(stamps, scan(stamps, c, a, b, d1, i).1, a, b, d1, i) == scan(
            stamps,
            c,
            a,
            b,
            d1,
            i,
        ),
    decreases stamps.len() - i,
{
    let c1 = scan(stamps, c, a, b, d1, i).1;
    if i < 0 || i >= stamps.len() {
    } else {
        match cache_get(c, i) {
            Some(pts) => {
                match outline_scan(pts, a, b, d1, 0) {
                    Err(_) => {},
                    Ok(Some(_)) => {},
                    Ok(None) => {
                        lemma_scan_monotone(stamps, c, a, b, d1, i + 1, i);
                        assert(cache_get(c1, i) == Some(pts));
                        lemma_scan_idempotent(stamps, c, a, b, d1, i + 1);
                    },
                }
            },
            None => {
                if outline_ok(stamps[i]) {
                    let pts = outline_spec(stamps[i]);
                    let c2 = cache_put(c, i, pts);
                    assert(cache_get(c2, i) == Some(pts));
                    match outline_scan(pts, a, b, d1, 0) {
                        Err(_) => {},
                        Ok(Some(_)) => {},
                        Ok(None) => {
                            lemma_scan_monotone(stamps, c2, a, b, d1, i + 1, i);
                            assert(cache_get(c1, i) == Some(pts));
                            lemma_scan_idempotent(stamps, c2, a, b, d1, i + 1);
                        },
                    }
                }
            },
        }
    }
}

/// Cache correctness for one intersection call: a valid cache stays valid.
/// With stamps fixed for the session, two calls with different probes can
/// only add entries, and every entry either call leaves behind equals what
/// recomputation would produce.
pub proof fn lemma_intersect_preserves_cache_valid(
    stamps: Seq<Stamp>,
    c: Seq<Option<Seq<FracPoint>>>,
    a: FracPoint,
    b: FracPoint,
)
    requires
        cache_valid(c, stamps),
    ensures
        cache_valid(intersect_spec(stamps, c, a, b).1, stamps),
{
    let probe = FracPoint { x: crate::geometry::rsub(b.x, a.x), y: crate::geometry::rsub(b.y, a.y) };
    lemma_scan_preserves_cache_valid(stamps, c, a, b, probe, 0);
}

/// Cache correctness for a repeated call: calling `intersect` again with the
/// same shape set and the same probe, after a successful call, returns the
/// identical displacement and leaves the cache exactly as it was — the
/// memoized geometry is not recomputed differently and the cache does not
/// grow.
pub proof fn lemma_intersect_idempotent(
    stamps: Seq<Stamp>,
    c: Seq<Option<Seq<FracPoint>>>,
    a: FracPoint,
    b: FracPoint,
)
    requires
        intersect_spec(stamps, c, a, b).0 is Ok,
    ensures
        intersect_spec(stamps, intersect_spec(stamps, c, a, b).1, a, b) == intersect_spec(
            stamps,
            c,
            a,
            b,
        ),
{
    let probe = FracPoint { x: crate::geometry::rsub(b.x, a.x), y: crate::geometry::rsub(b.y, a.y) };
    lemma_scan_idempotent(stamps, c, a, b, probe, 0);
}

} // verus!
