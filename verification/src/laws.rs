//! The algebraic laws of the kernel, proved over the mathematical models
//! that every executable operation is pinned to.

use vstd::prelude::*;

use crate::model::RatModel;
use crate::model::VecModel;
use crate::model::lemma_dot_prefix_comm;
use crate::model::lemma_self_dot_prefix;
use crate::model::lemma_sqrt_floor_bounds;
use crate::model::spec_modulus;
use crate::model::max_len;
use crate::model::pad;
use crate::model::self_dot;
use crate::model::spec_add;
use crate::model::spec_cross;
use crate::model::spec_dot;
use crate::model::spec_is_zero;
use crate::model::spec_orth;
use crate::model::spec_proj;
use crate::model::spec_scale;
use crate::model::spec_sub;
use crate::model::vec_val_eq;
use crate::model::vec_wf;
use crate::model::zero_model;

verus! {

/// Adding the zero vector of the same cardinality changes nothing: the
/// result is the identical model.
pub proof fn lemma_add_zero_identity(v: VecModel)
    requires
        vec_wf(v),
    ensures
        spec_add(v, zero_model(v.nums.len())) == v,
{
    let z = zero_model(v.nums.len());
    let r = spec_add(v, z);
    assert forall|i: int| 0 <= i < v.nums.len() implies r.nums[i] == v.nums[i] by {
        assert(pad(v.nums, v.nums.len())[i] == v.nums[i]);
        assert(pad(z.nums, v.nums.len())[i] == 0);
    }
    assert(r.nums =~= v.nums);
    assert(r =~= v);
}

/// Subtracting an addend recovers the other addend: `(a + b) - b` denotes
/// the same vector as `a`.
pub proof fn lemma_add_sub_cancel(a: VecModel, b: VecModel)
    requires
        vec_wf(a),
        vec_wf(b),
    ensures
        vec_val_eq(spec_sub(spec_add(a, b), b), a),
{
    let n = max_len(a.nums.len(), b.nums.len());
    let s = spec_add(a, b);
    let r = spec_sub(s, b);
    assert(r.nums.len() == n);
    let m = max_len(r.nums.len(), a.nums.len());
    assert(m == n);
    assert forall|i: int| 0 <= i < m implies pad(r.nums, m)[i] * a.den == pad(a.nums, m)[i]
        * r.den by {
        let x = pad(a.nums, n)[i];
        let y = pad(b.nums, n)[i];
        let ad = a.den;
        let bd = b.den;
        assert(pad(r.nums, m)[i] == (x * bd + y * ad) * bd - y * (ad * bd));
        assert(pad(a.nums, m)[i] == x);
        assert(((x * bd + y * ad) * bd - y * (ad * bd)) * ad == x * ((ad * bd) * bd))
            by (nonlinear_arith);
    }
}

/// Adding back what a subtraction removed recovers the minuend: `(x - y) +
/// y` denotes the same vector as `x`.
pub proof fn lemma_sub_add_cancel(x: VecModel, y: VecModel)
    requires
        vec_wf(x),
        vec_wf(y),
    ensures
        vec_val_eq(spec_add(spec_sub(x, y), y), x),
{
    let n = max_len(x.nums.len(), y.nums.len());
    let s = spec_sub(x, y);
    let r = spec_add(s, y);
    assert(r.nums.len() == n);
    let m = max_len(r.nums.len(), x.nums.len());
    assert(m == n);
    assert forall|i: int| 0 <= i < m implies pad(r.nums, m)[i] * x.den == pad(x.nums, m)[i]
        * r.den by {
        let u = pad(x.nums, n)[i];
        let w = pad(y.nums, n)[i];
        let xd = x.den;
        let yd = y.den;
        assert(pad(r.nums, m)[i] == (u * yd - w * xd) * yd + w * (xd * yd));
        assert(pad(x.nums, m)[i] == u);
        assert(((u * yd - w * xd) * yd + w * (xd * yd)) * xd == u * ((xd * yd) * yd))
            by (nonlinear_arith);
    }
}

/// The two components of a decomposition recombine to the decomposed vector:
/// with `vn` the orthogonal and `vp` the parallel component of `a` against a
/// nonzero `onto`, `vn + vp` denotes the same vector as `a`.
pub proof fn lemma_decompose_recombines(a: VecModel, onto: VecModel)
    requires
        vec_wf(a),
        vec_wf(onto),
        !spec_is_zero(onto),
    ensures
        vec_val_eq(spec_add(spec_orth(a, onto), spec_proj(a, onto)), a),
{
    let p = spec_proj(a, onto);
    lemma_self_dot_prefix(onto.nums, onto.nums.len() as int);
    assert(self_dot(onto) >= 1);
    assert(p.den >= 1) by (nonlinear_arith)
        requires
            p.den == a.den * self_dot(onto),
            a.den >= 1,
            self_dot(onto) >= 1,
    ;
    lemma_sub_add_cancel(a, p);
}

/// The modulus is the square root of the squared norm rounded down: over a
/// common denominator, its numerator squared is at most the self dot
/// product, which the next square exceeds.
pub proof fn lemma_modulus_brackets_norm(v: VecModel)
    ensures
        spec_modulus(v).num * spec_modulus(v).num <= self_dot(v),
        self_dot(v) < (spec_modulus(v).num + 1) * (spec_modulus(v).num + 1),
        spec_modulus(v).den == v.den,
{
    lemma_self_dot_prefix(v.nums, v.nums.len() as int);
    lemma_sqrt_floor_bounds(self_dot(v) as nat);
}

/// The dot product is commutative: the models are identical.
pub proof fn lemma_dot_commutative(a: VecModel, b: VecModel)
    ensures
        spec_dot(a, b) == spec_dot(b, a),
{
    let n = max_len(a.nums.len(), b.nums.len());
    assert(max_len(b.nums.len(), a.nums.len()) == n);
    lemma_dot_prefix_comm(pad(a.nums, n), pad(b.nums, n), n as int);
    assert(a.den * b.den == b.den * a.den) by (nonlinear_arith);
}

/// The cross product is defined exactly for operand cardinalities (2, 2) and
/// (3, 3); every other pairing yields no result.
pub proof fn lemma_cross_defined_only_for_matching_planar_or_spatial(a: VecModel, b: VecModel)
    ensures
        spec_cross(a, b) is Some <==> ((a.nums.len() == 2 && b.nums.len() == 2) || (a.nums.len()
            == 3 && b.nums.len() == 3)),
{
}

/// The cross product is anti-commutative: where `a x b` is defined, so is
/// `b x a`, and `a x b` denotes the same vector as `b x a` scaled by minus
/// one.
pub proof fn lemma_cross_anticommutative(a: VecModel, b: VecModel)
    requires
        vec_wf(a),
        vec_wf(b),
        spec_cross(a, b) is Some,
    ensures
        spec_cross(b, a) is Some,
        vec_val_eq(
            spec_cross(a, b)->Some_0,
            spec_scale(spec_cross(b, a)->Some_0, RatModel { num: -1, den: 1 }),
        ),
{
    let c1 = spec_cross(a, b)->Some_0;
    let c2 = spec_scale(spec_cross(b, a)->Some_0, RatModel { num: -1, den: 1 });
    assert(c1.nums.len() == 3 && c2.nums.len() == 3);
    let m = max_len(c1.nums.len(), c2.nums.len());
    assert(m == 3);
    assert forall|i: int| 0 <= i < m implies pad(c1.nums, m)[i] * c2.den == pad(c2.nums, m)[i]
        * c1.den by {
        let p = spec_cross(b, a)->Some_0.nums[i];
        let x = c1.nums[i];
        let y = c2.nums[i];
        assert(y == p * -1);
        if a.nums.len() == 2 {
            if i == 2 {
                assert(b.nums[0] * a.nums[1] - b.nums[1] * a.nums[0] == -(a.nums[0] * b.nums[1]
                    - a.nums[1] * b.nums[0])) by (nonlinear_arith);
            }
        } else {
            if i == 0 {
                assert(b.nums[1] * a.nums[2] - b.nums[2] * a.nums[1] == -(a.nums[1] * b.nums[2]
                    - a.nums[2] * b.nums[1])) by (nonlinear_arith);
            } else if i == 1 {
                assert(b.nums[2] * a.nums[0] - b.nums[0] * a.nums[2] == -(a.nums[2] * b.nums[0]
                    - a.nums[0] * b.nums[2])) by (nonlinear_arith);
            } else {
                assert(b.nums[0] * a.nums[1] - b.nums[1] * a.nums[0] == -(a.nums[0] * b.nums[1]
                    - a.nums[1] * b.nums[0])) by (nonlinear_arith);
            }
        }
        assert(p == -x);
        assert(c1.den == a.den * b.den);
        assert(c2.den == (b.den * a.den) * 1);
        assert(x * ((b.den * a.den) * 1) == y * (a.den * b.den)) by (nonlinear_arith)
            requires
                y == p * -1,
                p == -x,
        ;
    }
}

} // verus!
