//! The executable vector type and its operations.
//!
//! Every operation computes the exact rational result of its mathematical
//! model; when a numerator or denominator of that exact result does not fit
//! the machine coordinate type, the operation reports `NumericRange` instead
//! of returning a rounded value.

use vstd::prelude::*;

use crate::error::VecError;
use crate::model::RatModel;
use crate::model::VecModel;
use crate::model::int_in_range;
use crate::model::basis_first;
use crate::model::decompose_ok;
use crate::model::lemma_den_mul;
use crate::model::lemma_mul_bounds;
use crate::model::lemma_mul_ge_one;
use crate::model::lemma_mul_i32;
use crate::model::lemma_nonzero_mul_dominates;
use crate::model::lemma_self_dot_prefix;
use crate::model::lemma_sqrt_floor_unique;
use crate::model::normal_degenerate;
use crate::model::normal_ok;
use crate::model::proj_ok;
use crate::model::reaction_ok;
use crate::model::reflected_ok;
use crate::model::spec_modulus;
use crate::model::spec_normal;
use crate::model::spec_orth;
use crate::model::spec_proj;
use crate::model::spec_reaction;
use crate::model::spec_reflected;
use crate::model::spec_unit;
use crate::model::sqrt_floor;
use crate::model::unit_ok;
use crate::model::max_len;
use crate::model::pad;
use crate::model::rat_in_range;
use crate::model::spec_add;
use crate::model::spec_cross;
use crate::model::spec_dot;
use crate::model::spec_is_zero;
use crate::model::spec_scale;
use crate::model::spec_signal;
use crate::model::spec_sub;
use crate::model::dot_prefix;
use crate::model::self_dot;
use crate::model::vec_in_range;
use crate::model::vec_val_eq;
use crate::model::vec_wf;
use crate::rational::Rational;
use crate::segment::LineSegment;

verus! {

/// A vector of exact rational coordinates: coordinate `i` has the value
/// `nums[i] / den`, with `den >= 1` shared by all coordinates.
#[derive(Debug)]
pub struct Vector {
    nums: Vec<i32>,
    den: i32,
}

impl View for Vector {
    type V = VecModel;

    closed spec fn view(&self) -> VecModel {
        VecModel { nums: self.nums@.map(|i: int, x: i32| x as int), den: self.den as int }
    }
}

impl Vector {
    pub open spec fn wf(&self) -> bool {
        vec_wf(self@)
    }

    /// Construct a vector directly from a coordinate sequence: numerators
    /// over one positive denominator.
    pub fn new(nums: Vec<i32>, den: i32) -> (r: Vector)
        requires
            den >= 1,
        ensures
            r@ == (VecModel { nums: nums@.map(|i: int, x: i32| x as int), den: den as int }),
            r.wf(),
    {
        Vector { nums, den }
    }

    /// An identical copy (vectors are immutable values).
    pub fn duplicate(&self) -> (r: Vector)
        ensures
            r@ == self@,
    {
        let r = Vector { nums: self.copy_nums(), den: self.den };
        proof {
            assert(r@ =~= self@);
        }
        r
    }

    /// The number of coordinates.
    pub fn cardinality(&self) -> (r: usize)
        ensures
            r == self@.nums.len(),
    {
        self.nums.len()
    }

    /// The numerators of the coordinates, in order.
    pub fn coords(&self) -> (r: &Vec<i32>)
        ensures
            r@.len() == self@.nums.len(),
            forall|i: int| 0 <= i < r@.len() ==> r@[i] as int == self@.nums[i],
    {
        &self.nums
    }

    /// The shared denominator of the coordinates.
    pub fn denominator(&self) -> (r: i32)
        ensures
            r as int == self@.den,
    {
        self.den
    }

    /// Whether the value at 1-indexed coordinate `r` is strictly positive;
    /// false when `r` exceeds the cardinality.
    pub fn signal_in_r(&self, r: usize) -> (res: bool)
        requires
            r >= 1,
            self.wf(),
        ensures
            res == spec_signal(self@, r as int),
    {
        if r > self.nums.len() {
            false
        } else {
            self.nums[r - 1] > 0
        }
    }

    /// Value equality: the same vector after zero-padding to a common
    /// cardinality, whatever the representations.
    pub fn equals(&self, other: &Vector) -> (r: bool)
        requires
            self.wf(),
            other.wf(),
        ensures
            r == vec_val_eq(self@, other@),
    {
        let sl = self.nums.len();
        let ol = other.nums.len();
        let n = if sl >= ol {
            sl
        } else {
            ol
        };
        let ghost ns = max_len(self@.nums.len(), other@.nums.len());
        assert(ns == n as int);
        let mut i: usize = 0;
        while i < n
            invariant
                i <= n,
                ns == n as int,
                sl == self.nums.len(),
                ol == other.nums.len(),
                self.wf(),
                other.wf(),
                forall|j: int|
                    0 <= j < i ==> pad(self@.nums, ns)[j] * other@.den == pad(other@.nums, ns)[j]
                        * self@.den,
            decreases n - i,
        {
            let ai: i64 = if i < sl {
                self.nums[i] as i64
            } else {
                0
            };
            let bi: i64 = if i < ol {
                other.nums[i] as i64
            } else {
                0
            };
            proof {
                lemma_mul_bounds(ai as int, other@.den, 0x8000_0000, 0x7fff_ffff);
                lemma_mul_bounds(bi as int, self@.den, 0x8000_0000, 0x7fff_ffff);
            }
            if ai * (other.den as i64) != bi * (self.den as i64) {
                assert(!vec_val_eq(self@, other@)) by {
                    assert(pad(
                        self@.nums,
                        max_len(self@.nums.len(), other@.nums.len()),
                    )[i as int] * other@.den != pad(
                        other@.nums,
                        max_len(self@.nums.len(), other@.nums.len()),
                    )[i as int] * self@.den);
                }
                return false;
            }
            i += 1;
        }
        true
    }

    /// Coordinate-wise sum or difference after dimension equalization: the
    /// shorter operand is read as zero-padded to the longer cardinality.
    fn combine(&self, other: &Vector, diff: bool) -> (r: Result<Vector, VecError>)
        requires
            self.wf(),
            other.wf(),
        ensures
            ({
                let m = if diff {
                    spec_sub(self@, other@)
                } else {
                    spec_add(self@, other@)
                };
                &&& (r is Ok <==> vec_in_range(m))
                &&& (r matches Ok(v) ==> v@ == m && v.wf())
                &&& (r matches Err(e) ==> e == VecError::NumericRange)
            }),
    {
        let ghost m = if diff {
            spec_sub(self@, other@)
        } else {
            spec_add(self@, other@)
        };
        let sd = self.den as i64;
        let od = other.den as i64;
        proof {
            lemma_den_mul(sd as int, od as int);
        }
        let d = sd * od;
        if d > i32::MAX as i64 {
            assert(!vec_in_range(m));
            return Err(VecError::NumericRange);
        }
        let sl = self.nums.len();
        let ol = other.nums.len();
        let n = if sl >= ol {
            sl
        } else {
            ol
        };
        assert(m.nums.len() == n as int);
        let mut out: Vec<i32> = Vec::new();
        let mut i: usize = 0;
        while i < n
            invariant
                i <= n,
                m == if diff {
                    spec_sub(self@, other@)
                } else {
                    spec_add(self@, other@)
                },
                m.nums.len() == n as int,
                sl == self.nums.len(),
                ol == other.nums.len(),
                n as int == max_len(self@.nums.len(), other@.nums.len()),
                sd == self@.den,
                od == other@.den,
                self.wf(),
                other.wf(),
                out@.len() == i,
                forall|j: int| 0 <= j < i ==> out@[j] as int == m.nums[j],
            decreases n - i,
        {
            let ai: i64 = if i < sl {
                self.nums[i] as i64
            } else {
                0
            };
            let bi: i64 = if i < ol {
                other.nums[i] as i64
            } else {
                0
            };
            proof {
                lemma_mul_bounds(ai as int, od as int, 0x8000_0000, 0x7fff_ffff);
                lemma_mul_bounds(bi as int, sd as int, 0x8000_0000, 0x7fff_ffff);
            }
            let x: i64 = if diff {
                ai * od - bi * sd
            } else {
                ai * od + bi * sd
            };
            assert(x as int == m.nums[i as int]);
            if x < i32::MIN as i64 || x > i32::MAX as i64 {
                assert(!int_in_range(m.nums[i as int]));
                return Err(VecError::NumericRange);
            }
            out.push(x as i32);
            i += 1;
        }
        let v = Vector { nums: out, den: d as i32 };
        proof {
            assert(v@.nums =~= m.nums);
            assert(v@ =~= m);
        }
        Ok(v)
    }

    /// Coordinate-wise sum after dimension equalization.
    pub fn add(&self, other: &Vector) -> (r: Result<Vector, VecError>)
        requires
            self.wf(),
            other.wf(),
        ensures
            r is Ok <==> vec_in_range(spec_add(self@, other@)),
            r matches Ok(v) ==> v@ == spec_add(self@, other@) && v.wf(),
            r matches Err(e) ==> e == VecError::NumericRange,
    {
        self.combine(other, false)
    }

    /// Coordinate-wise difference after dimension equalization.
    pub fn subtract(&self, other: &Vector) -> (r: Result<Vector, VecError>)
        requires
            self.wf(),
            other.wf(),
        ensures
            r is Ok <==> vec_in_range(spec_sub(self@, other@)),
            r matches Ok(v) ==> v@ == spec_sub(self@, other@) && v.wf(),
            r matches Err(e) ==> e == VecError::NumericRange,
    {
        self.combine(other, true)
    }

    /// Coordinate-wise multiplication by the scalar `knum / kden`.
    fn scale_parts(&self, knum: i64, kden: i32) -> (r: Result<Vector, VecError>)
        requires
            self.wf(),
            kden >= 1,
            -0x8000_0000 <= knum <= 0x8000_0000,
        ensures
            ({
                let m = spec_scale(self@, RatModel { num: knum as int, den: kden as int });
                &&& (r is Ok <==> vec_in_range(m))
                &&& (r matches Ok(v) ==> v@ == m && v.wf())
                &&& (r matches Err(e) ==> e == VecError::NumericRange)
            }),
    {
        let ghost m = spec_scale(self@, RatModel { num: knum as int, den: kden as int });
        let sd = self.den as i64;
        proof {
            lemma_den_mul(sd as int, kden as int);
        }
        let d = sd * (kden as i64);
        if d > i32::MAX as i64 {
            assert(!vec_in_range(m));
            return Err(VecError::NumericRange);
        }
        let n = self.nums.len();
        let mut out: Vec<i32> = Vec::new();
        let mut i: usize = 0;
        while i < n
            invariant
                i <= n,
                m == spec_scale(self@, RatModel { num: knum as int, den: kden as int }),
                m.nums.len() == n as int,
                n == self.nums.len(),
                -0x8000_0000 <= knum <= 0x8000_0000,
                self.wf(),
                out@.len() == i,
                forall|j: int| 0 <= j < i ==> out@[j] as int == m.nums[j],
            decreases n - i,
        {
            let ai: i64 = self.nums[i] as i64;
            proof {
                lemma_mul_bounds(ai as int, knum as int, 0x8000_0000, 0x8000_0000);
            }
            let x: i64 = ai * knum;
            assert(x as int == m.nums[i as int]);
            if x < i32::MIN as i64 || x > i32::MAX as i64 {
                assert(!int_in_range(m.nums[i as int]));
                return Err(VecError::NumericRange);
            }
            out.push(x as i32);
            i += 1;
        }
        let v = Vector { nums: out, den: d as i32 };
        proof {
            assert(v@.nums =~= m.nums);
            assert(v@ =~= m);
        }
        Ok(v)
    }

    /// Coordinate-wise multiplication by a scalar.
    pub fn scale(&self, k: &Rational) -> (r: Result<Vector, VecError>)
        requires
            self.wf(),
            k.wf(),
        ensures
            r is Ok <==> vec_in_range(spec_scale(self@, k@)),
            r matches Ok(v) ==> v@ == spec_scale(self@, k@) && v.wf(),
            r matches Err(e) ==> e == VecError::NumericRange,
    {
        self.scale_parts(k.num() as i64, k.den())
    }

    /// The numerator of the exact dot product after equalization (over the
    /// denominator product of the operands).
    fn dot_padded_val(&self, other: &Vector) -> (r: i128)
        requires
            self.wf(),
            other.wf(),
        ensures
            r as int == spec_dot(self@, other@).num,
    {
        let sl = self.nums.len();
        let ol = other.nums.len();
        let n = if sl >= ol {
            sl
        } else {
            ol
        };
        let ghost ns = max_len(self@.nums.len(), other@.nums.len());
        let ghost pa = pad(self@.nums, ns);
        let ghost pb = pad(other@.nums, ns);
        let mut acc: i128 = 0;
        let mut i: usize = 0;
        while i < n
            invariant
                i <= n,
                ns == n as int,
                sl == self.nums.len(),
                ol == other.nums.len(),
                pa == pad(self@.nums, ns),
                pb == pad(other@.nums, ns),
                acc as int == dot_prefix(pa, pb, i as int),
                -(i as int * 0x4000_0000_0000_0000) <= acc as int <= i as int
                    * 0x4000_0000_0000_0000,
            decreases n - i,
        {
            let ai: i64 = if i < sl {
                self.nums[i] as i64
            } else {
                0
            };
            let bi: i64 = if i < ol {
                other.nums[i] as i64
            } else {
                0
            };
            proof {
                lemma_mul_bounds(ai as int, bi as int, 0x8000_0000, 0x8000_0000);
            }
            let p: i128 = (ai as i128) * (bi as i128);
            acc = acc + p;
            i += 1;
        }
        acc
    }

    /// The numerator of the vector's exact dot product with itself (over the
    /// square of its denominator).
    fn self_dot_val(&self) -> (r: i128)
        requires
            self.wf(),
        ensures
            r as int == self_dot(self@),
            0 <= r <= 0xffff_ffff_ffff_ffff * 0x4000_0000_0000_0000,
            r == 0 <==> spec_is_zero(self@),
    {
        let n = self.nums.len();
        let mut acc: i128 = 0;
        let mut i: usize = 0;
        while i < n
            invariant
                i <= n,
                n == self.nums.len(),
                acc as int == dot_prefix(self@.nums, self@.nums, i as int),
                -(i as int * 0x4000_0000_0000_0000) <= acc as int <= i as int
                    * 0x4000_0000_0000_0000,
            decreases n - i,
        {
            let ai: i64 = self.nums[i] as i64;
            proof {
                lemma_mul_bounds(ai as int, ai as int, 0x8000_0000, 0x8000_0000);
            }
            let p: i128 = (ai as i128) * (ai as i128);
            acc = acc + p;
            i += 1;
        }
        proof {
            lemma_self_dot_prefix(self@.nums, n as int);
        }
        acc
    }

    /// The dot product after dimension equalization, as an exact scalar.
    pub fn dot_product(&self, other: &Vector) -> (r: Result<Rational, VecError>)
        requires
            self.wf(),
            other.wf(),
        ensures
            r is Ok <==> rat_in_range(spec_dot(self@, other@)),
            r matches Ok(k) ==> k@ == spec_dot(self@, other@) && k.wf(),
            r matches Err(e) ==> e == VecError::NumericRange,
    {
        let s = self.dot_padded_val(other);
        let sd = self.den as i64;
        let od = other.den as i64;
        proof {
            lemma_den_mul(sd as int, od as int);
        }
        let d = sd * od;
        if d > i32::MAX as i64 {
            return Err(VecError::NumericRange);
        }
        if s < i32::MIN as i128 || s > i32::MAX as i128 {
            return Err(VecError::NumericRange);
        }
        Ok(Rational::new(s as i32, d as i32))
    }

    /// The cross product, defined only for cardinalities (2, 2) and (3, 3).
    /// Two-dimensional operands are read in the z = 0 plane; the result is
    /// then the signed area embedded in the z coordinate of a 3-vector.
    pub fn cross_product(&self, other: &Vector) -> (r: Result<Vector, VecError>)
        requires
            self.wf(),
            other.wf(),
        ensures
            r == Err::<Vector, VecError>(VecError::UnsupportedCardinality) <==> spec_cross(
                self@,
                other@,
            ) is None,
            r is Ok <==> (spec_cross(self@, other@) matches Some(m) && vec_in_range(m)),
            r matches Ok(v) ==> (spec_cross(self@, other@) matches Some(m) && v@ == m && v.wf()),
            r == Err::<Vector, VecError>(VecError::NumericRange) <==> (spec_cross(self@, other@)
                matches Some(m) && !vec_in_range(m)),
            r matches Err(e) ==> e != VecError::DegenerateReference,
    {
        let ghost mo = spec_cross(self@, other@);
        let sl = self.nums.len();
        let ol = other.nums.len();
        if !((sl == 2 && ol == 2) || (sl == 3 && ol == 3)) {
            return Err(VecError::UnsupportedCardinality);
        }
        let sd = self.den as i64;
        let od = other.den as i64;
        proof {
            lemma_den_mul(sd as int, od as int);
        }
        let d = sd * od;
        if d > i32::MAX as i64 {
            return Err(VecError::NumericRange);
        }
        if sl == 2 {
            let z = Self::det2(self.nums[0], other.nums[1], self.nums[1], other.nums[0]);
            if z < i32::MIN as i64 || z > i32::MAX as i64 {
                return Err(VecError::NumericRange);
            }
            let mut out: Vec<i32> = Vec::new();
            out.push(0);
            out.push(0);
            out.push(z as i32);
            let v = Vector { nums: out, den: d as i32 };
            proof {
                assert(v@.nums =~= mo->Some_0.nums);
                assert(v@ =~= mo->Some_0);
            }
            Ok(v)
        } else {
            let x = Self::det2(self.nums[1], other.nums[2], self.nums[2], other.nums[1]);
            let y = Self::det2(self.nums[2], other.nums[0], self.nums[0], other.nums[2]);
            let z = Self::det2(self.nums[0], other.nums[1], self.nums[1], other.nums[0]);
            if x < i32::MIN as i64 || x > i32::MAX as i64 || y < i32::MIN as i64 || y > i32::MAX
                as i64 || z < i32::MIN as i64 || z > i32::MAX as i64 {
                return Err(VecError::NumericRange);
            }
            let mut out: Vec<i32> = Vec::new();
            out.push(x as i32);
            out.push(y as i32);
            out.push(z as i32);
            let v = Vector { nums: out, den: d as i32 };
            proof {
                assert(v@.nums =~= mo->Some_0.nums);
                assert(v@ =~= mo->Some_0);
            }
            Ok(v)
        }
    }

    /// The integer square root by bisection: the largest `r` with
    /// `r * r <= q`.
    fn isqrt_i128(q: i128) -> (r: i128)
        requires
            0 <= q <= 0x4000_0000_0000_0000_0000_0000_0000_0000,
        ensures
            r as int == sqrt_floor(q as nat),
            0 <= r <= 0x8000_0000_0000_0000,
            q >= 1 ==> r >= 1,
    {
        if q == 0 {
            proof {
                assert(sqrt_floor(0nat) == 0);
            }
            return 0;
        }
        let mut lo: i128 = 0;
        let mut hi: i128 = 0x8000_0000_0000_0001;
        proof {
            assert((0x8000_0000_0000_0001int) * (0x8000_0000_0000_0001int)
                > 0x4000_0000_0000_0000_0000_0000_0000_0000int) by (nonlinear_arith);
        }
        while lo + 1 < hi
            invariant
                0 <= lo < hi <= 0x8000_0000_0000_0001,
                0 <= q <= 0x4000_0000_0000_0000_0000_0000_0000_0000,
                (lo as int) * (lo as int) <= q as int,
                (q as int) < (hi as int) * (hi as int),
            decreases hi - lo,
        {
            let mid = lo + (hi - lo) / 2;
            proof {
                lemma_mul_bounds(mid as int, mid as int, 0x8000_0000_0000_0000, 0x8000_0000_0000_0000);
            }
            let sq = mid * mid;
            if sq <= q {
                lo = mid;
            } else {
                hi = mid;
            }
        }
        proof {
            assert(lo >= 1) by (nonlinear_arith)
                requires
                    q as int >= 1,
                    (q as int) < ((lo as int) + 1) * ((lo as int) + 1),
                    lo >= 0,
            ;
            lemma_sqrt_floor_unique(q as nat, lo as nat);
        }
        lo
    }

    /// A copy of the coordinate numerators.
    fn copy_nums(&self) -> (r: Vec<i32>)
        ensures
            r@ == self.nums@,
    {
        let n = self.nums.len();
        let mut out: Vec<i32> = Vec::new();
        let mut i: usize = 0;
        while i < n
            invariant
                i <= n,
                n == self.nums.len(),
                out@.len() == i,
                forall|j: int| 0 <= j < i ==> out@[j] == self.nums@[j],
            decreases n - i,
        {
            out.push(self.nums[i]);
            i += 1;
        }
        proof {
            assert(out@ =~= self.nums@);
        }
        out
    }

    /// The Euclidean norm, rounded down to the coarsest representable step
    /// `1 / den`; exact whenever the squared modulus is a perfect square.
    pub fn modulus(&self) -> (r: Result<Rational, VecError>)
        requires
            self.wf(),
        ensures
            r is Ok <==> spec_modulus(self@).num <= i32::MAX,
            r matches Ok(k) ==> k@ == spec_modulus(self@) && k.wf(),
            r matches Err(e) ==> e == VecError::NumericRange,
    {
        let q = self.self_dot_val();
        let s = Self::isqrt_i128(q);
        if s > i32::MAX as i128 {
            return Err(VecError::NumericRange);
        }
        Ok(Rational::new(s as i32, self.den))
    }

    /// The unit vector with the direction of `self`; fails on a zero-length
    /// vector, whose direction is undefined.
    pub fn unit(&self) -> (r: Result<Vector, VecError>)
        requires
            self.wf(),
        ensures
            r is Ok <==> unit_ok(self@),
            r matches Ok(u) ==> u@ == spec_unit(self@) && u.wf(),
            r == Err::<Vector, VecError>(VecError::DegenerateReference) <==> spec_is_zero(self@),
            r matches Err(e) ==> e != VecError::UnsupportedCardinality,
    {
        let q = self.self_dot_val();
        if q == 0 {
            return Err(VecError::DegenerateReference);
        }
        let s = Self::isqrt_i128(q);
        if s > i32::MAX as i128 {
            return Err(VecError::NumericRange);
        }
        let u = Vector { nums: self.copy_nums(), den: s as i32 };
        proof {
            assert(u@.nums =~= self@.nums);
            assert(u@ =~= spec_unit(self@));
        }
        Ok(u)
    }

    /// The orthogonal projection of `self` onto the direction of `other`,
    /// computed in the exact closed form `other * (self . other) / (other .
    /// other)`; fails when `other` has zero length.
    pub fn projected_at(&self, other: &Vector) -> (r: Result<Vector, VecError>)
        requires
            self.wf(),
            other.wf(),
        ensures
            r is Ok <==> proj_ok(self@, other@),
            r matches Ok(v) ==> v@ == spec_proj(self@, other@) && v.wf(),
            r == Err::<Vector, VecError>(VecError::DegenerateReference) <==> spec_is_zero(other@),
            r matches Err(e) ==> e != VecError::UnsupportedCardinality,
    {
        let ghost m = spec_proj(self@, other@);
        let t = other.self_dot_val();
        if t == 0 {
            return Err(VecError::DegenerateReference);
        }
        assert(m.den == self@.den * self_dot(other@));
        if t > i32::MAX as i128 {
            proof {
                lemma_mul_ge_one(self@.den, self_dot(other@));
                assert(!vec_in_range(m));
            }
            return Err(VecError::NumericRange);
        }
        let sd = self.den as i128;
        proof {
            lemma_den_mul(sd as int, t as int);
        }
        let d = sd * t;
        if d > i32::MAX as i128 {
            return Err(VecError::NumericRange);
        }
        let s = self.dot_padded_val(other);
        if s < -0x2_0000_0000 || s > 0x2_0000_0000 {
            proof {
                assert(exists|i: int| 0 <= i < other@.nums.len() && other@.nums[i] != 0);
                let i = choose|i: int| 0 <= i < other@.nums.len() && other@.nums[i] != 0;
                lemma_nonzero_mul_dominates(other@.nums[i], s as int);
                assert(!int_in_range(m.nums[i]));
                assert(!vec_in_range(m));
            }
            return Err(VecError::NumericRange);
        }
        let n = other.nums.len();
        let mut out: Vec<i32> = Vec::new();
        let mut i: usize = 0;
        while i < n
            invariant
                i <= n,
                m == spec_proj(self@, other@),
                m.nums.len() == n as int,
                n == other.nums.len(),
                -0x2_0000_0000 <= s <= 0x2_0000_0000,
                s as int == spec_dot(self@, other@).num,
                other.wf(),
                out@.len() == i,
                forall|j: int| 0 <= j < i ==> out@[j] as int == m.nums[j],
            decreases n - i,
        {
            let oi: i128 = other.nums[i] as i128;
            proof {
                lemma_mul_bounds(oi as int, s as int, 0x8000_0000, 0x2_0000_0000);
            }
            let x: i128 = oi * s;
            assert(x as int == m.nums[i as int]);
            if x < i32::MIN as i128 || x > i32::MAX as i128 {
                assert(!int_in_range(m.nums[i as int]));
                return Err(VecError::NumericRange);
            }
            out.push(x as i32);
            i += 1;
        }
        let v = Vector { nums: out, den: d as i32 };
        proof {
            assert(v@.nums =~= m.nums);
            assert(v@ =~= m);
        }
        Ok(v)
    }

    /// Split `self` into its component orthogonal to `other` and its
    /// component parallel to `other`, returned in that order; their sum is
    /// `self` again. Fails when `other` has zero length.
    pub fn decompose(&self, other: &Vector) -> (r: Result<(Vector, Vector), VecError>)
        requires
            self.wf(),
            other.wf(),
        ensures
            r is Ok <==> decompose_ok(self@, other@),
            r matches Ok(p) ==> p.0@ == spec_orth(self@, other@) && p.1@ == spec_proj(self@, other@)
                && p.0.wf() && p.1.wf(),
            r == Err::<(Vector, Vector), VecError>(VecError::DegenerateReference) <==> spec_is_zero(
                other@,
            ),
            r matches Err(e) ==> e != VecError::UnsupportedCardinality,
    {
        let vp = match self.projected_at(other) {
            Ok(v) => v,
            Err(e) => {
                return Err(e);
            },
        };
        let vn = match self.subtract(&vp) {
            Ok(v) => v,
            Err(e) => {
                return Err(e);
            },
        };
        Ok((vn, vp))
    }

    /// Mirror `self` about the hyperplane orthogonal to `across`: `self`
    /// minus twice its projection onto `across`. Fails when `across` has
    /// zero length.
    pub fn reflected_at(&self, across: &Vector) -> (r: Result<Vector, VecError>)
        requires
            self.wf(),
            across.wf(),
        ensures
            r is Ok <==> reflected_ok(self@, across@),
            r matches Ok(v) ==> v@ == spec_reflected(self@, across@) && v.wf(),
            r == Err::<Vector, VecError>(VecError::DegenerateReference) <==> spec_is_zero(across@),
            r matches Err(e) ==> e != VecError::UnsupportedCardinality,
    {
        let vp = match self.projected_at(across) {
            Ok(v) => v,
            Err(e) => {
                return Err(e);
            },
        };
        let doubled = match vp.scale_parts(2, 1) {
            Ok(v) => v,
            Err(e) => {
                return Err(e);
            },
        };
        match self.subtract(&doubled) {
            Ok(v) => Ok(v),
            Err(e) => Err(e),
        }
    }

    /// Decompose `self` against `other` and recombine with restitution
    /// coefficients: `alpha` scales the orthogonal carry-through, `beta` the
    /// bounce along `other`. Fails when `other` has zero length.
    pub fn parameterized_reaction(
        &self,
        alpha: &Rational,
        other: &Vector,
        beta: &Rational,
    ) -> (r: Result<Vector, VecError>)
        requires
            self.wf(),
            other.wf(),
            alpha.wf(),
            beta.wf(),
        ensures
            r is Ok <==> reaction_ok(self@, alpha@, other@, beta@),
            r matches Ok(v) ==> v@ == spec_reaction(self@, alpha@, other@, beta@) && v.wf(),
            r == Err::<Vector, VecError>(VecError::DegenerateReference) <==> spec_is_zero(other@),
            r matches Err(e) ==> e != VecError::UnsupportedCardinality,
    {
        let (vn, vp) = match self.decompose(other) {
            Ok(p) => p,
            Err(e) => {
                return Err(e);
            },
        };
        let n_scaled = match vn.scale_parts(alpha.num() as i64, alpha.den()) {
            Ok(v) => v,
            Err(e) => {
                return Err(e);
            },
        };
        let p_scaled = match vp.scale_parts(-(beta.num() as i64), beta.den()) {
            Ok(v) => v,
            Err(e) => {
                return Err(e);
            },
        };
        match n_scaled.add(&p_scaled) {
            Ok(v) => Ok(v),
            Err(e) => Err(e),
        }
    }

    /// A unit vector perpendicular to `self` within the plane spanned with
    /// the first standard basis vector, by decomposing against that basis
    /// vector and normalizing parallel minus orthogonal component. Fails on
    /// degenerate input (no coordinates, or a zero direction to normalize).
    pub fn normal_vec(&self) -> (r: Result<Vector, VecError>)
        requires
            self.wf(),
        ensures
            r is Ok <==> normal_ok(self@),
            r matches Ok(u) ==> u@ == spec_normal(self@) && u.wf(),
            r == Err::<Vector, VecError>(VecError::DegenerateReference) <==> normal_degenerate(
                self@,
            ),
            r matches Err(e) ==> e != VecError::UnsupportedCardinality,
    {
        let card = self.nums.len();
        let mut e1nums: Vec<i32> = Vec::new();
        if card >= 1 {
            e1nums.push(1);
            let mut i: usize = 1;
            while i < card
                invariant
                    1 <= i <= card,
                    e1nums@.len() == i,
                    e1nums@[0] == 1i32,
                    forall|j: int| 1 <= j < i ==> e1nums@[j] == 0i32,
                decreases card - i,
            {
                e1nums.push(0);
                i += 1;
            }
        }
        let e1 = Vector { nums: e1nums, den: 1 };
        proof {
            assert(e1@.nums =~= basis_first(self@.nums.len()).nums);
            assert(e1@ =~= basis_first(self@.nums.len()));
        }
        let (vn, vp) = match self.decompose(&e1) {
            Ok(p) => p,
            Err(e) => {
                return Err(e);
            },
        };
        let dir = match vp.subtract(&vn) {
            Ok(v) => v,
            Err(e) => {
                return Err(e);
            },
        };
        match dir.unit() {
            Ok(u) => Ok(u),
            Err(e) => Err(e),
        }
    }

    /// Package two position vectors as the directed segment from `self` to
    /// `other`.
    pub fn to_line_segment(&self, other: &Vector) -> (r: LineSegment)
        requires
            self.wf(),
            other.wf(),
        ensures
            r@.x == self@,
            r@.y == other@,
            r.wf(),
    {
        LineSegment::new(self.duplicate(), other.duplicate())
    }

    /// The 2-by-2 determinant `a * b - c * d` of coordinate numerators.
    fn det2(a: i32, b: i32, c: i32, d: i32) -> (r: i64)
        ensures
            r as int == a as int * b as int - c as int * d as int,
    {
        proof {
            lemma_mul_i32(a as int, b as int);
            lemma_mul_i32(c as int, d as int);
        }
        (a as i64) * (b as i64) - (c as i64) * (d as i64)
    }
}

} // verus!
