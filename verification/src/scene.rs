//! Scene state: two entities moving over a level, with collision resolution.
//!
//! The scene owns the level, the two entity placements (a cat and a mouse),
//! a camera transform for rendering, and the session-lifetime geometry
//! cache. Each simulation step probes both entities' leading edges against
//! the level and applies the corrective displacements the engine returns.
//! Input is an explicit [`KeysDown`] value and quitting is surfaced as a
//! return value, so the scene can be driven and tested without any window
//! or event plumbing.

use vstd::prelude::*;

use crate::GeometryError;
use crate::geometry::{
    GeomCache, Svg, cache_valid, intersect_spec, Stamp,
};
use crate::rational::{Rat, add_fits, frac_add, frac_from_int};
use crate::transform::{FracPoint, Transform, TransV, RatPoint};

verus! {

/// The keys the scene reacts to.
#[derive(Clone, Copy, Debug, PartialEq, Eq, Structural)]
pub enum Key {
    A,
    D,
    W,
    S,
    Left,
    Right,
    Up,
    Down,
    Escape,
    KpEnter,
    Return,
    Space,
}

/// Which keys are currently held down.
#[derive(Clone, Copy, Debug, Default, PartialEq, Eq, Structural)]
pub struct KeysDown {
    pub a: bool,
    pub d: bool,
    pub w: bool,
    pub s: bool,
    pub left: bool,
    pub right: bool,
    pub up: bool,
    pub down: bool,
    pub escape: bool,
    pub kp_enter: bool,
}

/// How far the cursor moves per event: four cells while the key-repeat
/// interval is at the desired frame duration (one millisecond) or shorter,
/// one cell otherwise.
pub fn mouse_move(delta: i32, repeat_nanos: u128) -> (r: i32)
    requires
        -1000000 <= delta <= 1000000,
    ensures
        r == if repeat_nanos <= 1000000 {
            4 * delta
        } else {
            delta as int
        },
{
    if repeat_nanos <= 1000000 {
        delta * 4
    } else {
        delta
    }
}

/// The mathematical state a simulation step acts on: both entity
/// placements and the memoized geometry.
pub ghost struct SceneV {
    pub cat: TransV,
    pub mouse: TransV,
    pub cache: Seq<Option<Seq<FracPoint>>>,
}

/// The probe for one entity: from the middle of its lower edge to either
/// its lower-right corner's column top (`right`) or its origin.
pub open spec fn probe_points(loc: TransV, right: bool) -> (FracPoint, FracPoint) {
    let ax = frac_add(loc.tx, loc.midx);
    let ay = frac_add(loc.ty, frac_add(loc.midy, loc.midy));
    let b = if right {
        FracPoint { x: frac_add(loc.tx, frac_add(loc.midx, loc.midx)), y: loc.ty }
    } else {
        FracPoint { x: loc.tx, y: loc.ty }
    };
    (FracPoint { x: ax, y: ay }, b)
}

/// Building the probe endpoints stays in the machine range.
pub open spec fn probe_build_ok(loc: TransV, right: bool) -> bool {
    &&& add_fits(loc.tx, loc.midx)
    &&& add_fits(loc.midy, loc.midy)
    &&& add_fits(loc.ty, frac_add(loc.midy, loc.midy))
    &&& (right ==> add_fits(loc.midx, loc.midx) && add_fits(
        loc.tx,
        frac_add(loc.midx, loc.midx),
    ))
}

/// One probe of one entity against the level: the placement after applying
/// the engine's correction, if any, and the cache left behind.
pub open spec fn collide_step_spec(
    stamps: Seq<Stamp>,
    c: Seq<Option<Seq<FracPoint>>>,
    loc: TransV,
    right: bool,
) -> (Result<TransV, GeometryError>, Seq<Option<Seq<FracPoint>>>) {
    if !probe_build_ok(loc, right) {
        (Err(GeometryError::NumericOverflow), c)
    } else {
        let (pa, pb) = probe_points(loc, right);
        let (res, c2) = intersect_spec(stamps, c, pa, pb);
        match res {
            Err(e) => (Err(e), c2),
            Ok(None) => (Ok(loc), c2),
            Ok(Some(corr)) => {
                if add_fits(loc.tx, corr.x) && add_fits(loc.ty, corr.y) {
                    (
                        Ok(
                            TransV {
                                tx: frac_add(loc.tx, corr.x),
                                ty: frac_add(loc.ty, corr.y),
                                ..loc
                            },
                        ),
                        c2,
                    )
                } else {
                    (Err(GeometryError::NumericOverflow), c2)
                }
            },
        }
    }
}

/// One full collision pass: both probes of the cat, then both probes of the
/// mouse, each applied to the placement the previous step produced. A
/// failure stops the pass; the steps already taken keep their effect.
#[verifier::opaque]
pub open spec fn do_collisions_spec(stamps: Seq<Stamp>, s: SceneV) -> (
    Result<(), GeometryError>,
    SceneV,
) {
    let (r1, c1) = collide_step_spec(stamps, s.cache, s.cat, true);
    match r1 {
        Err(e) => (Err(e), SceneV { cache: c1, ..s }),
        Ok(cat1) => {
            let (r2, c2) = collide_step_spec(stamps, c1, cat1, false);
            match r2 {
                Err(e) => (Err(e), SceneV { cat: cat1, cache: c2, ..s }),
                Ok(cat2) => {
                    let (r3, c3) = collide_step_spec(stamps, c2, s.mouse, true);
                    match r3 {
                        Err(e) => (Err(e), SceneV { cat: cat2, cache: c3, ..s }),
                        Ok(m1) => {
                            let (r4, c4) = collide_step_spec(stamps, c3, m1, false);
                            match r4 {
                                Err(e) => (
                                    Err(e),
                                    SceneV { cat: cat2, mouse: m1, cache: c4 },
                                ),
                                Ok(m2) => (Ok(()), SceneV { cat: cat2, mouse: m2, cache: c4 }),
                            }
                        },
                    }
                },
            }
        },
    }
}

/// One key's effect on the state: move one entity by `delta` whole units
/// along one axis, then run a full collision pass.
#[verifier::opaque]
pub open spec fn nudge_spec(
    stamps: Seq<Stamp>,
    s: SceneV,
    cat_entity: bool,
    x_axis: bool,
    delta: int,
) -> (Result<(), GeometryError>, SceneV) {
    let loc = if cat_entity {
        s.cat
    } else {
        s.mouse
    };
    let coord = if x_axis {
        loc.tx
    } else {
        loc.ty
    };
    if !add_fits(coord, frac_from_int(delta)) {
        (Err(GeometryError::NumericOverflow), s)
    } else {
        let moved = if x_axis {
            TransV { tx: frac_add(loc.tx, frac_from_int(delta)), ..loc }
        } else {
            TransV { ty: frac_add(loc.ty, frac_from_int(delta)), ..loc }
        };
        let s2 = if cat_entity {
            SceneV { cat: moved, ..s }
        } else {
            SceneV { mouse: moved, ..s }
        };
        do_collisions_spec(stamps, s2)
    }
}

/// Runs one key's effect when its key is down and the chain has not failed.
#[verifier::opaque]
pub open spec fn cond_nudge(
    stamps: Seq<Stamp>,
    st: (Result<(), GeometryError>, SceneV),
    down: bool,
    cat_entity: bool,
    x_axis: bool,
    delta: int,
) -> (Result<(), GeometryError>, SceneV) {
    match st.0 {
        Err(_) => st,
        Ok(_) => {
            if down {
                nudge_spec(stamps, st.1, cat_entity, x_axis, delta)
            } else {
                st
            }
        },
    }
}

/// A result of the unit type that is `Ok` is `Ok(())`.
pub proof fn lemma_ok_unit(r: Result<(), GeometryError>)
    requires
        r is Ok,
    ensures
        r == Ok::<(), GeometryError>(()),
{
    match r {
        Ok(u) => {
            assert(u == ());
        },
        Err(_) => {
            assert(false);
        },
    }
}

/// A failed chain stays as it is: a key step after a failure changes
/// nothing.
pub proof fn lemma_cond_nudge_err(
    stamps: Seq<Stamp>,
    st: (Result<(), GeometryError>, SceneV),
    down: bool,
    cat_entity: bool,
    x_axis: bool,
    delta: int,
)
    requires
        st.0 is Err,
    ensures
        cond_nudge(stamps, st, down, cat_entity, x_axis, delta) == st,
{
    reveal(cond_nudge);
}

/// The full effect of the held keys, in the fixed order a, d, w, s, left,
/// right, up, down: the cat moves one unit left or two right, two up or two
/// down; the mouse moves one unit per arrow key. Every move is followed by
/// a collision pass, and a failure stops the chain.
pub open spec fn cat_keys_spec(
    stamps: Seq<Stamp>,
    st: (Result<(), GeometryError>, SceneV),
    keys: KeysDown,
) -> (Result<(), GeometryError>, SceneV) {
    let st1 = cond_nudge(stamps, st, keys.a, true, true, -1);
    let st2 = cond_nudge(stamps, st1, keys.d, true, true, 2);
    let st3 = cond_nudge(stamps, st2, keys.w, true, false, -2);
    cond_nudge(stamps, st3, keys.s, true, false, 2)
}

pub open spec fn mouse_keys_spec(
    stamps: Seq<Stamp>,
    st: (Result<(), GeometryError>, SceneV),
    keys: KeysDown,
) -> (Result<(), GeometryError>, SceneV) {
    let st1 = cond_nudge(stamps, st, keys.left, false, true, -1);
    let st2 = cond_nudge(stamps, st1, keys.right, false, true, 1);
    let st3 = cond_nudge(stamps, st2, keys.up, false, false, -1);
    cond_nudge(stamps, st3, keys.down, false, false, 1)
}

pub open spec fn apply_keys_spec(stamps: Seq<Stamp>, s: SceneV, keys: KeysDown) -> (
    Result<(), GeometryError>,
    SceneV,
) {
    mouse_keys_spec(stamps, cat_keys_spec(stamps, (Ok::<(), GeometryError>(()), s), keys), keys)
}

/// The scene: cursor, entity placements, window size, level, camera and the
/// session geometry cache.
pub struct SceneState {
    pub cursor_x: i32,
    pub cursor_y: i32,
    pub mouse_location: Transform,
    pub cat_location: Transform,
    pub window_width: u32,
    pub window_height: u32,
    pub svg: Svg,
    pub camera_transform: Transform,
    pub cache: GeomCache,
}

impl SceneState {
    /// The state a simulation step acts on.
    pub open spec fn sim_v(self) -> SceneV {
        SceneV {
            cat: self.cat_location.v(),
            mouse: self.mouse_location.v(),
            cache: self.cache.v(),
        }
    }

    pub open spec fn wf(self) -> bool {
        &&& self.svg.wf()
        &&& self.mouse_location.wf()
        &&& self.cat_location.wf()
        &&& self.camera_transform.wf()
        &&& self.cache.wf()
        &&& cache_valid(self.cache.v(), self.svg.stamps@)
    }

    /// Everything that a simulation step leaves alone.
    pub open spec fn frame_eq(self, o: SceneState) -> bool {
        &&& self.cursor_x == o.cursor_x
        &&& self.cursor_y == o.cursor_y
        &&& self.window_width == o.window_width
        &&& self.window_height == o.window_height
        &&& self.svg == o.svg
        &&& self.camera_transform == o.camera_transform
    }

    /// A fresh scene over the given level: the mouse is a 32-unit sprite,
    /// the cat a 64-unit sprite, the camera is untransformed, the cache is
    /// empty.
    pub fn new(width: u32, height: u32, svg: Svg) -> (r: SceneState)
        requires
            svg.wf(),
        ensures
            r.wf(),
            r.cursor_x == 0,
            r.cursor_y == 0,
            r.window_width == width,
            r.window_height == height,
            r.svg == svg,
            r.mouse_location.v() == crate::transform::fresh_tv(32, 32),
            r.cat_location.v() == crate::transform::fresh_tv(64, 64),
            r.camera_transform.v() == crate::transform::fresh_tv(0, 0),
            r.cache.v().len() == 0,
    {
        SceneState {
            cursor_x: 0,
            cursor_y: 0,
            mouse_location: Transform::new(32, 32),
            cat_location: Transform::new(64, 64),
            window_width: width,
            window_height: height,
            svg,
            camera_transform: Transform::new(0, 0),
            cache: GeomCache::new(),
        }
    }

    /// One probe of one entity, applied in place.
    fn collide_entity(&mut self, cat_entity: bool, right: bool) -> (r: Result<(), GeometryError>)
        requires
            old(self).wf(),
        ensures
            final(self).wf(),
            final(self).frame_eq(*old(self)),
            ({
                let loc0 = if cat_entity {
                    old(self).cat_location.v()
                } else {
                    old(self).mouse_location.v()
                };
                let other0 = if cat_entity {
                    old(self).mouse_location
                } else {
                    old(self).cat_location
                };
                let (res, c2) = collide_step_spec(
                    old(self).svg.stamps@,
                    old(self).cache.v(),
                    loc0,
                    right,
                );
                &&& final(self).cache.v() == c2
                &&& (if cat_entity {
                    final(self).mouse_location
                } else {
                    final(self).cat_location
                }) == other0
                &&& (r is Ok) == (res is Ok)
                &&& (r matches Err(e) ==> res matches Err(e2) && e == e2)
                &&& (r is Ok ==> (res matches Ok(l2) && (if cat_entity {
                    final(self).cat_location.v()
                } else {
                    final(self).mouse_location.v()
                }) == l2))
                &&& (r is Err ==> (if cat_entity {
                    final(self).cat_location
                } else {
                    final(self).mouse_location
                }) == (if cat_entity {
                    old(self).cat_location
                } else {
                    old(self).mouse_location
                }))
            }),
    {
        let loc = if cat_entity {
            self.cat_location
        } else {
            self.mouse_location
        };
        let ax = match loc.tx.add(loc.midx) {
            Ok(v) => v,
            Err(_) => return Err(GeometryError::NumericOverflow),
        };
        let my2 = match loc.midy.add(loc.midy) {
            Ok(v) => v,
            Err(_) => return Err(GeometryError::NumericOverflow),
        };
        let ay = match loc.ty.add(my2) {
            Ok(v) => v,
            Err(_) => return Err(GeometryError::NumericOverflow),
        };
        let pb = if right {
            let mx2 = match loc.midx.add(loc.midx) {
                Ok(v) => v,
                Err(_) => return Err(GeometryError::NumericOverflow),
            };
            let bx = match loc.tx.add(mx2) {
                Ok(v) => v,
                Err(_) => return Err(GeometryError::NumericOverflow),
            };
            RatPoint { x: bx, y: loc.ty }
        } else {
            RatPoint { x: loc.tx, y: loc.ty }
        };
        let pa = RatPoint { x: ax, y: ay };
        let hit = match self.svg.intersect(pa, pb, &mut self.cache) {
            Ok(v) => v,
            Err(e) => {
                proof {
                    crate::engine_laws::lemma_intersect_preserves_cache_valid(
                        self.svg.stamps@,
                        old(self).cache.v(),
                        pa.v(),
                        pb.v(),
                    );
                }
                return Err(e);
            },
        };
        proof {
            crate::engine_laws::lemma_intersect_preserves_cache_valid(
                self.svg.stamps@,
                old(self).cache.v(),
                pa.v(),
                pb.v(),
            );
        }
        match hit {
            None => Ok(()),
            Some(corr) => {
                let tx2 = match loc.tx.add(corr.x) {
                    Ok(v) => v,
                    Err(_) => return Err(GeometryError::NumericOverflow),
                };
                let ty2 = match loc.ty.add(corr.y) {
                    Ok(v) => v,
                    Err(_) => return Err(GeometryError::NumericOverflow),
                };
                let moved = Transform { tx: tx2, ty: ty2, ..loc };
                if cat_entity {
                    self.cat_location = moved;
                } else {
                    self.mouse_location = moved;
                }
                Ok(())
            },
        }
    }

    /// One full collision pass over both entities, exactly per
    /// [`do_collisions_spec`]: each entity's two leading-edge probes are
    /// tested in a fixed order and any returned displacement is applied to
    /// the entity's translation at once.
    pub fn do_collisions(&mut self) -> (r: Result<(), GeometryError>)
        requires
            old(self).wf(),
        ensures
            final(self).wf(),
            final(self).frame_eq(*old(self)),
            ({
                let (res, s2) = do_collisions_spec(old(self).svg.stamps@, old(self).sim_v());
                &&& (r is Ok) == (res is Ok)
                &&& (r matches Err(e) ==> res matches Err(e2) && e == e2)
                &&& final(self).sim_v() == s2
            }),
    {
        proof {
            reveal(do_collisions_spec);
        }
        match self.collide_entity(true, true) {
            Ok(()) => {},
            Err(e) => return Err(e),
        }
        match self.collide_entity(true, false) {
            Ok(()) => {},
            Err(e) => return Err(e),
        }
        match self.collide_entity(false, true) {
            Ok(()) => {},
            Err(e) => return Err(e),
        }
        match self.collide_entity(false, false) {
            Ok(()) => {},
            Err(e) => return Err(e),
        }
        Ok(())
    }

    /// One simulation tick: a collision pass.
    pub fn sim(&mut self) -> (r: Result<(), GeometryError>)
        requires
            old(self).wf(),
        ensures
            final(self).wf(),
            final(self).frame_eq(*old(self)),
            ({
                let (res, s2) = do_collisions_spec(old(self).svg.stamps@, old(self).sim_v());
                &&& (r is Ok) == (res is Ok)
                &&& final(self).sim_v() == s2
            }),
    {
        self.do_collisions()
    }

    /// One key's effect: move one entity by a whole number of units along
    /// one axis, then run a full collision pass, exactly per [`nudge_spec`].
    fn nudge(&mut self, cat_entity: bool, x_axis: bool, delta: i64) -> (r: Result<
        (),
        GeometryError,
    >)
        requires
            old(self).wf(),
        ensures
            final(self).wf(),
            final(self).frame_eq(*old(self)),
            ({
                let (res, s2) = nudge_spec(
                    old(self).svg.stamps@,
                    old(self).sim_v(),
                    cat_entity,
                    x_axis,
                    delta as int,
                );
                &&& (r is Ok) == (res is Ok)
                &&& (r matches Err(e) ==> res matches Err(e2) && e == e2)
                &&& final(self).sim_v() == s2
            }),
    {
        proof {
            reveal(nudge_spec);
        }
        let loc = if cat_entity {
            self.cat_location
        } else {
            self.mouse_location
        };
        let d = Rat::from_int(delta);
        let moved = if x_axis {
            let tx2 = match loc.tx.add(d) {
                Ok(v) => v,
                Err(_) => return Err(GeometryError::NumericOverflow),
            };
            Transform { tx: tx2, ..loc }
        } else {
            let ty2 = match loc.ty.add(d) {
                Ok(v) => v,
                Err(_) => return Err(GeometryError::NumericOverflow),
            };
            Transform { ty: ty2, ..loc }
        };
        if cat_entity {
            self.cat_location = moved;
        } else {
            self.mouse_location = moved;
        }
        self.do_collisions()
    }

    /// Applies the held keys: cat steering (a, d, w, s), mouse steering
    /// (arrow keys), each move followed by a collision pass, exactly per
    /// [`apply_keys_spec`]. Quitting is surfaced in the result: `Ok(true)`
    /// when the escape key is down. The enter, return and space keys click,
    /// which places nothing yet.
    /// One conditional key step of [`apply_keys`], exactly one `cond_nudge`
    /// link of the chain.
    fn key_step(&mut self, down: bool, cat_entity: bool, x_axis: bool, delta: i64) -> (r: Result<
        (),
        GeometryError,
    >)
        requires
            old(self).wf(),
        ensures
            final(self).wf(),
            final(self).frame_eq(*old(self)),
            ({
                let (res, s2) = cond_nudge(
                    old(self).svg.stamps@,
                    (Ok::<(), GeometryError>(()), old(self).sim_v()),
                    down,
                    cat_entity,
                    x_axis,
                    delta as int,
                );
                &&& (r is Ok) == (res is Ok)
                &&& (r matches Err(e) ==> res matches Err(e2) && e == e2)
                &&& final(self).sim_v() == s2
            }),
    {
        proof {
            reveal(cond_nudge);
        }
        if down {
            self.nudge(cat_entity, x_axis, delta)
        } else {
            Ok(())
        }
    }

    /// The cat-steering half of [`apply_keys`], exactly per
    /// [`cat_keys_spec`].
    fn apply_cat_keys(&mut self, keys_down: &KeysDown) -> (r: Result<(), GeometryError>)
        requires
            old(self).wf(),
        ensures
            final(self).wf(),
            final(self).frame_eq(*old(self)),
            ({
                let (res, s2) = cat_keys_spec(
                    old(self).svg.stamps@,
                    (Ok::<(), GeometryError>(()), old(self).sim_v()),
                    *keys_down,
                );
                &&& (r is Ok) == (res is Ok)
                &&& (r matches Err(e) ==> res matches Err(e2) && e == e2)
                &&& final(self).sim_v() == s2
            }),
    {
        let ghost stamps = self.svg.stamps@;
        let ghost st0 = (Ok::<(), GeometryError>(()), self.sim_v());
        let ghost st1 = cond_nudge(stamps, st0, keys_down.a, true, true, -1);
        let ghost st2 = cond_nudge(stamps, st1, keys_down.d, true, true, 2);
        let ghost st3 = cond_nudge(stamps, st2, keys_down.w, true, false, -2);
        let ghost st4 = cond_nudge(stamps, st3, keys_down.s, true, false, 2);
        match self.key_step(keys_down.a, true, true, -1) {
            Ok(()) => {
                proof {
                    lemma_ok_unit(st1.0);
                    assert(st1 == (Ok::<(), GeometryError>(()), self.sim_v()));
                }
            },
            Err(e) => {
                proof {
                    lemma_cond_nudge_err(stamps, st1, keys_down.d, true, true, 2);
                    lemma_cond_nudge_err(stamps, st2, keys_down.w, true, false, -2);
                    lemma_cond_nudge_err(stamps, st3, keys_down.s, true, false, 2);
                }
                return Err(e);
            },
        }
        match self.key_step(keys_down.d, true, true, 2) {
            Ok(()) => {
                proof {
                    lemma_ok_unit(st2.0);
                    assert(st2 == (Ok::<(), GeometryError>(()), self.sim_v()));
                }
            },
            Err(e) => {
                proof {
                    lemma_cond_nudge_err(stamps, st2, keys_down.w, true, false, -2);
                    lemma_cond_nudge_err(stamps, st3, keys_down.s, true, false, 2);
                }
                return Err(e);
            },
        }
        match self.key_step(keys_down.w, true, false, -2) {
            Ok(()) => {
                proof {
                    lemma_ok_unit(st3.0);
                    assert(st3 == (Ok::<(), GeometryError>(()), self.sim_v()));
                }
            },
            Err(e) => {
                proof {
                    lemma_cond_nudge_err(stamps, st3, keys_down.s, true, false, 2);
                }
                return Err(e);
            },
        }
        match self.key_step(keys_down.s, true, false, 2) {
            Ok(()) => {
                proof {
                    lemma_ok_unit(st4.0);
                    assert(st4 == (Ok::<(), GeometryError>(()), self.sim_v()));
                }
            },
            Err(e) => {
                return Err(e);
            },
        }
        Ok(())
    }

    /// The mouse-steering half of [`apply_keys`], exactly per
    /// [`mouse_keys_spec`].
    fn apply_mouse_keys(&mut self, keys_down: &KeysDown) -> (r: Result<(), GeometryError>)
        requires
            old(self).wf(),
        ensures
            final(self).wf(),
            final(self).frame_eq(*old(self)),
            ({
                let (res, s2) = mouse_keys_spec(
                    old(self).svg.stamps@,
                    (Ok::<(), GeometryError>(()), old(self).sim_v()),
                    *keys_down,
                );
                &&& (r is Ok) == (res is Ok)
                &&& (r matches Err(e) ==> res matches Err(e2) && e == e2)
                &&& final(self).sim_v() == s2
            }),
    {
        let ghost stamps = self.svg.stamps@;
        let ghost st0 = (Ok::<(), GeometryError>(()), self.sim_v());
        let ghost st1 = cond_nudge(stamps, st0, keys_down.left, false, true, -1);
        let ghost st2 = cond_nudge(stamps, st1, keys_down.right, false, true, 1);
        let ghost st3 = cond_nudge(stamps, st2, keys_down.up, false, false, -1);
        let ghost st4 = cond_nudge(stamps, st3, keys_down.down, false, false, 1);
        match self.key_step(keys_down.left, false, true, -1) {
            Ok(()) => {
                proof {
                    lemma_ok_unit(st1.0);
                    assert(st1 == (Ok::<(), GeometryError>(()), self.sim_v()));
                }
            },
            Err(e) => {
                proof {
                    lemma_cond_nudge_err(stamps, st1, keys_down.right, false, true, 1);
                    lemma_cond_nudge_err(stamps, st2, keys_down.up, false, false, -1);
                    lemma_cond_nudge_err(stamps, st3, keys_down.down, false, false, 1);
                }
                return Err(e);
            },
        }
        match self.key_step(keys_down.right, false, true, 1) {
            Ok(()) => {
                proof {
                    lemma_ok_unit(st2.0);
                    assert(st2 == (Ok::<(), GeometryError>(()), self.sim_v()));
                }
            },
            Err(e) => {
                proof {
                    lemma_cond_nudge_err(stamps, st2, keys_down.up, false, false, -1);
                    lemma_cond_nudge_err(stamps, st3, keys_down.down, false, false, 1);
                }
                return Err(e);
            },
        }
        match self.key_step(keys_down.up, false, false, -1) {
            Ok(()) => {
                proof {
                    lemma_ok_unit(st3.0);
                    assert(st3 == (Ok::<(), GeometryError>(()), self.sim_v()));
                }
            },
            Err(e) => {
                proof {
                    lemma_cond_nudge_err(stamps, st3, keys_down.down, false, false, 1);
                }
                return Err(e);
            },
        }
        match self.key_step(keys_down.down, false, false, 1) {
            Ok(()) => {
                proof {
                    lemma_ok_unit(st4.0);
                    assert(st4 == (Ok::<(), GeometryError>(()), self.sim_v()));
                }
            },
            Err(e) => {
                return Err(e);
            },
        }
        Ok(())
    }

    /// Applies the held keys: cat steering (a, d, w, s), mouse steering
    /// (arrow keys), each move followed by a collision pass, exactly per
    /// [`apply_keys_spec`]. Quitting is surfaced in the result: `Ok(true)`
    /// when the escape key is down. The enter, return and space keys click,
    /// which places nothing yet.
    pub fn apply_keys(&mut self, keys_down: &KeysDown, new_key: Option<Key>, repeat: bool) -> (r:
        Result<bool, GeometryError>)
        requires
            old(self).wf(),
        ensures
            final(self).wf(),
            final(self).frame_eq(*old(self)),
            ({
                let (res, s2) = apply_keys_spec(
                    old(self).svg.stamps@,
                    old(self).sim_v(),
                    *keys_down,
                );
                &&& (r is Ok) == (res is Ok)
                &&& (r matches Err(e) ==> res matches Err(e2) && e == e2)
                &&& (r matches Ok(quit) ==> quit == keys_down.escape)
                &&& final(self).sim_v() == s2
            }),
    {
        let ghost stamps = self.svg.stamps@;
        let ghost cat_st = cat_keys_spec(
            stamps,
            (Ok::<(), GeometryError>(()), self.sim_v()),
            *keys_down,
        );
        match self.apply_cat_keys(keys_down) {
            Ok(()) => {
                proof {
                    lemma_ok_unit(cat_st.0);
                    assert(cat_st == (Ok::<(), GeometryError>(()), self.sim_v()));
                }
            },
            Err(e) => {
                proof {
                    assert(mouse_keys_spec(stamps, cat_st, *keys_down) == cat_st) by {
                        lemma_cond_nudge_err(stamps, cat_st, keys_down.left, false, true, -1);
                        lemma_cond_nudge_err(stamps, cat_st, keys_down.right, false, true, 1);
                        lemma_cond_nudge_err(stamps, cat_st, keys_down.up, false, false, -1);
                        lemma_cond_nudge_err(stamps, cat_st, keys_down.down, false, false, 1);
                    }
                }
                return Err(e);
            },
        }
        match self.apply_mouse_keys(keys_down) {
            Ok(()) => {},
            Err(e) => {
                return Err(e);
            },
        }
        if keys_down.escape {
            return Ok(true);
        }
        if keys_down.kp_enter {
            self.click();
        }
        match new_key {
            Some(Key::Return) => {
                if !repeat {
                    self.click();
                }
            },
            Some(Key::Space) => {
                if !repeat {
                    self.click();
                }
            },
            _ => {},
        }
        Ok(false)
    }

    /// Placing a stamp on click is not part of this scene yet.
    pub fn click(&mut self)
        ensures
            *final(self) == *old(self),
    {
    }
}

} // verus!
