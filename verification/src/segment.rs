//! The directed line-segment primitive and the geometric predicates built on
//! the vector algebra: intersection by orientation testing, the contact
//! normal, and a simple collision response.

use vstd::prelude::*;

use crate::error::VecError;
use crate::model::RatModel;
use crate::model::VecModel;
use crate::model::normal_degenerate;
use crate::model::normal_ok;
use crate::model::reaction_ok;
use crate::model::spec_cross;
use crate::model::spec_is_zero;
use crate::model::spec_normal;
use crate::model::spec_normal_dir;
use crate::model::spec_reaction;
use crate::model::spec_signal;
use crate::model::spec_sub;
use crate::model::spec_unit;
use crate::model::unit_ok;
use crate::model::vec_in_range;
use crate::model::vec_wf;
use crate::rational::Rational;
use crate::vector::Vector;

verus! {

/// Model of a segment: its two endpoint vectors, directed from `x` to `y`.
pub struct SegModel {
    pub x: VecModel,
    pub y: VecModel,
}

/// The scalar one.
pub open spec fn one_rat() -> RatModel {
    RatModel { num: 1, den: 1 }
}

/// Whether both cross products exist and their z signs differ: the test that
/// `b`'s endpoints lie on opposite sides of the line through `a`.
pub open spec fn opposite_sides(base: VecModel, to_first: VecModel, to_second: VecModel) -> bool {
    match (spec_cross(base, to_first), spec_cross(base, to_second)) {
        (Some(p), Some(q)) => spec_signal(p, 3) != spec_signal(q, 3),
        _ => false,
    }
}

/// The orientation-based proper-intersection test: each segment's endpoints
/// lie strictly on opposite sides of the other's supporting line. Boundary
/// touches, where a cross product is exactly zero, count as non-intersecting.
pub open spec fn spec_intersects(a: SegModel, b: SegModel) -> bool {
    let ab = spec_sub(a.y, a.x);
    let ac = spec_sub(b.x, a.x);
    let ad = spec_sub(b.y, a.x);
    let cd = spec_sub(b.y, b.x);
    let ca = spec_sub(a.x, b.x);
    let cb = spec_sub(a.y, b.x);
    opposite_sides(ab, ac, ad) && opposite_sides(cd, ca, cb)
}

/// The cross product, where defined, is representable.
pub open spec fn cross_in_range(x: VecModel, y: VecModel) -> bool {
    match spec_cross(x, y) {
        Some(c) => vec_in_range(c),
        None => true,
    }
}

/// Every value the intersection test computes is representable: the six
/// difference vectors, the first pair of cross products, and, where the
/// first orientation gate passes, the second pair.
pub open spec fn intersects_ok(a: SegModel, b: SegModel) -> bool {
    let ab = spec_sub(a.y, a.x);
    let ac = spec_sub(b.x, a.x);
    let ad = spec_sub(b.y, a.x);
    let cd = spec_sub(b.y, b.x);
    let ca = spec_sub(a.x, b.x);
    let cb = spec_sub(a.y, b.x);
    vec_in_range(ab) && vec_in_range(ac) && vec_in_range(ad) && vec_in_range(cd) && vec_in_range(ca)
        && vec_in_range(cb) && cross_in_range(ab, ac) && cross_in_range(ab, ad) && (opposite_sides(
        ab,
        ac,
        ad,
    ) ==> cross_in_range(cd, ca) && cross_in_range(cd, cb))
}

/// The direction the segment sweeps, terminus minus origin.
pub open spec fn spec_seg_dir(s: SegModel) -> VecModel {
    spec_sub(s.y, s.x)
}

/// The direction whose normal the segment reports, origin minus terminus.
pub open spec fn spec_normal_base(s: SegModel) -> VecModel {
    spec_sub(s.x, s.y)
}

/// The segment's normal exists and every step of it is representable.
pub open spec fn get_normal_ok(s: SegModel) -> bool {
    vec_in_range(spec_normal_base(s)) && normal_ok(spec_normal_base(s))
}

/// The collision response of `a` against `b`: the direction of `a` reacted
/// against the normal of `b` with both restitution coefficients one.
pub open spec fn spec_bounce(a: SegModel, b: SegModel) -> VecModel {
    spec_reaction(spec_seg_dir(a), one_rat(), spec_normal(spec_normal_base(b)), one_rat())
}

/// Every value the collision response computes is representable.
pub open spec fn collide_ok(a: SegModel, b: SegModel) -> bool {
    intersects_ok(a, b) && (spec_intersects(a, b) ==> get_normal_ok(b) && vec_in_range(
        spec_seg_dir(a),
    ) && reaction_ok(spec_seg_dir(a), one_rat(), spec_normal(spec_normal_base(b)), one_rat()))
}

/// A directed line segment: two endpoint vectors, from `x` to `y`.
#[derive(Debug)]
pub struct LineSegment {
    x: Vector,
    y: Vector,
}

/// What a collision query reports: no contact, or the reaction vector of the
/// bounce.
#[derive(Debug)]
pub enum Collision {
    Miss,
    Bounce(Vector),
}

impl View for LineSegment {
    type V = SegModel;

    closed spec fn view(&self) -> SegModel {
        SegModel { x: self.x@, y: self.y@ }
    }
}

impl LineSegment {
    pub open spec fn wf(&self) -> bool {
        vec_wf(self@.x) && vec_wf(self@.y)
    }

    /// Store the two endpoints as given; no validation.
    pub fn new(x: Vector, y: Vector) -> (r: LineSegment)
        requires
            x.wf(),
            y.wf(),
        ensures
            r@.x == x@,
            r@.y == y@,
            r.wf(),
    {
        LineSegment { x, y }
    }

    /// The segment's direction vector, terminus minus origin.
    pub fn vec_from_seg(&self) -> (r: Result<Vector, VecError>)
        requires
            self.wf(),
        ensures
            r is Ok <==> vec_in_range(spec_seg_dir(self@)),
            r matches Ok(v) ==> v@ == spec_seg_dir(self@) && v.wf(),
            r matches Err(e) ==> e == VecError::NumericRange,
    {
        self.y.subtract(&self.x)
    }

    /// A unit normal of the segment, from the normal-vector operation on
    /// origin minus terminus; fails on a degenerate segment.
    pub fn get_normal(&self) -> (r: Result<Vector, VecError>)
        requires
            self.wf(),
        ensures
            r is Ok <==> get_normal_ok(self@),
            r matches Ok(u) ==> u@ == spec_normal(spec_normal_base(self@)) && u.wf(),
            r == Err::<Vector, VecError>(VecError::DegenerateReference) <==> (vec_in_range(
                spec_normal_base(self@),
            ) && normal_degenerate(spec_normal_base(self@))),
            r matches Err(e) ==> e != VecError::UnsupportedCardinality,
    {
        let seg_vec = match self.x.subtract(&self.y) {
            Ok(v) => v,
            Err(e) => {
                return Err(e);
            },
        };
        seg_vec.normal_vec()
    }

    /// The orientation-based intersection test; boundary touches count as
    /// non-intersecting.
    pub fn intersects(&self, other: &LineSegment) -> (r: Result<bool, VecError>)
        requires
            self.wf(),
            other.wf(),
        ensures
            r is Ok <==> intersects_ok(self@, other@),
            r matches Ok(b) ==> b == spec_intersects(self@, other@),
            r matches Err(e) ==> e == VecError::NumericRange,
    {
        let ab = match self.y.subtract(&self.x) {
            Ok(v) => v,
            Err(e) => {
                return Err(e);
            },
        };
        let ac = match other.x.subtract(&self.x) {
            Ok(v) => v,
            Err(e) => {
                return Err(e);
            },
        };
        let ad = match other.y.subtract(&self.x) {
            Ok(v) => v,
            Err(e) => {
                return Err(e);
            },
        };
        let cd = match other.y.subtract(&other.x) {
            Ok(v) => v,
            Err(e) => {
                return Err(e);
            },
        };
        let ca = match self.x.subtract(&other.x) {
            Ok(v) => v,
            Err(e) => {
                return Err(e);
            },
        };
        let cb = match self.y.subtract(&other.x) {
            Ok(v) => v,
            Err(e) => {
                return Err(e);
            },
        };
        let ab_x_ac = match ab.cross_product(&ac) {
            Ok(v) => Some(v),
            Err(VecError::UnsupportedCardinality) => None,
            Err(e) => {
                return Err(e);
            },
        };
        let ab_x_ad = match ab.cross_product(&ad) {
            Ok(v) => Some(v),
            Err(VecError::UnsupportedCardinality) => None,
            Err(e) => {
                return Err(e);
            },
        };
        let gate = match (ab_x_ac, ab_x_ad) {
            (Some(p), Some(q)) => p.signal_in_r(3) != q.signal_in_r(3),
            _ => false,
        };
        assert(gate == opposite_sides(spec_sub(self@.y, self@.x), spec_sub(other@.x, self@.x), spec_sub(other@.y, self@.x)));
        if !gate {
            return Ok(false);
        }
        let cd_x_ca = match cd.cross_product(&ca) {
            Ok(v) => Some(v),
            Err(VecError::UnsupportedCardinality) => None,
            Err(e) => {
                return Err(e);
            },
        };
        let cd_x_cb = match cd.cross_product(&cb) {
            Ok(v) => Some(v),
            Err(VecError::UnsupportedCardinality) => None,
            Err(e) => {
                return Err(e);
            },
        };
        let hit = match (cd_x_ca, cd_x_cb) {
            (Some(u), Some(w)) => u.signal_in_r(3) != w.signal_in_r(3),
            _ => false,
        };
        Ok(hit)
    }

    /// Resolve a collision of `self` against `other`: report a miss when the
    /// segments do not intersect, and otherwise the reaction of `self`'s
    /// direction against `other`'s normal with both restitution coefficients
    /// one.
    pub fn collide(&self, other: &LineSegment) -> (r: Result<Collision, VecError>)
        requires
            self.wf(),
            other.wf(),
        ensures
            r is Ok <==> collide_ok(self@, other@),
            r matches Ok(c) ==> (c is Miss <==> !spec_intersects(self@, other@)),
            r matches Ok(c) ==> (c matches Collision::Bounce(v) ==> v@ == spec_bounce(self@, other@)
                && v.wf()),
            r == Err::<Collision, VecError>(VecError::DegenerateReference) <==> (intersects_ok(
                self@,
                other@,
            ) && spec_intersects(self@, other@) && vec_in_range(spec_normal_base(other@))
                && normal_degenerate(spec_normal_base(other@))),
            r matches Err(e) ==> e != VecError::UnsupportedCardinality,
    {
        let hit = match self.intersects(other) {
            Ok(b) => b,
            Err(e) => {
                return Err(e);
            },
        };
        if !hit {
            return Ok(Collision::Miss);
        }
        let normal = match other.get_normal() {
            Ok(n) => n,
            Err(e) => {
                return Err(e);
            },
        };
        let dir = match self.vec_from_seg() {
            Ok(v) => v,
            Err(e) => {
                return Err(e);
            },
        };
        let alpha = Rational::new(1, 1);
        let beta = Rational::new(1, 1);
        proof {
            assert(!spec_is_zero(normal@)) by {
                let base = spec_normal_base(other@);
                assert(unit_ok(spec_normal_dir(base)));
                assert(normal@.nums == spec_normal_dir(base).nums);
            }
        }
        match dir.parameterized_reaction(&alpha, &normal, &beta) {
            Ok(v) => Ok(Collision::Bounce(v)),
            Err(e) => Err(e),
        }
    }
}

} // verus!
