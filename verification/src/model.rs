//! The mathematical model of the kernel.
//!
//! A scalar is the rational `num / den` with `den >= 1`; a vector is a
//! sequence of integer numerators over one shared positive denominator, so
//! coordinate `i` has the value `nums[i] / den`. Every executable operation
//! of the kernel is specified as a total function on these models, and two
//! models denote the same vector exactly when `vec_val_eq` holds (equality of
//! the coordinate values after zero-padding to a common cardinality).

use vstd::prelude::*;

verus! {

/// Model of a scalar: the rational `num / den`.
pub struct RatModel {
    pub num: int,
    pub den: int,
}

/// Model of a vector: coordinate `i` has the value `nums[i] / den`.
#[verifier::ext_equal]
pub struct VecModel {
    pub nums: Seq<int>,
    pub den: int,
}

/// A scalar model is well formed when its denominator is positive.
pub open spec fn rat_wf(k: RatModel) -> bool {
    k.den >= 1
}

/// A vector model is well formed when its denominator is positive.
pub open spec fn vec_wf(m: VecModel) -> bool {
    m.den >= 1
}

/// Two scalar models denote the same rational value.
pub open spec fn rat_val_eq(a: RatModel, b: RatModel) -> bool {
    a.num * b.den == b.num * a.den
}

pub open spec fn max_len(a: nat, b: nat) -> nat {
    if a >= b {
        a
    } else {
        b
    }
}

/// Zero-pad a coordinate sequence to length `n` (the equalization step of
/// every binary operation).
pub open spec fn pad(s: Seq<int>, n: nat) -> Seq<int> {
    Seq::new(n, |i: int| if 0 <= i < s.len() {
        s[i]
    } else {
        0
    })
}

/// Two vector models denote the same vector: after padding to a common
/// cardinality, every pair of coordinate values is equal.
pub open spec fn vec_val_eq(a: VecModel, b: VecModel) -> bool {
    forall|i: int|
        0 <= i < max_len(a.nums.len(), b.nums.len()) ==> pad(a.nums, max_len(a.nums.len(), b.nums.len()))[i] * b.den
            == pad(b.nums, max_len(a.nums.len(), b.nums.len()))[i] * a.den
}

/// The zero vector of cardinality `n`.
pub open spec fn zero_model(n: nat) -> VecModel {
    VecModel { nums: Seq::new(n, |i: int| 0), den: 1 }
}

/// The first standard basis vector of cardinality `n`.
pub open spec fn basis_first(n: nat) -> VecModel {
    VecModel {
        nums: Seq::new(n, |i: int| if i == 0 {
            1
        } else {
            0
        }),
        den: 1,
    }
}

/// All coordinates are zero, i.e. the vector has zero length.
pub open spec fn spec_is_zero(m: VecModel) -> bool {
    forall|i: int| 0 <= i < m.nums.len() ==> m.nums[i] == 0
}

/// Coordinate-wise sum after equalization.
pub open spec fn spec_add(a: VecModel, b: VecModel) -> VecModel {
    let n = max_len(a.nums.len(), b.nums.len());
    VecModel {
        nums: Seq::new(n, |i: int| pad(a.nums, n)[i] * b.den + pad(b.nums, n)[i] * a.den),
        den: a.den * b.den,
    }
}

/// Coordinate-wise difference after equalization.
pub open spec fn spec_sub(a: VecModel, b: VecModel) -> VecModel {
    let n = max_len(a.nums.len(), b.nums.len());
    VecModel {
        nums: Seq::new(n, |i: int| pad(a.nums, n)[i] * b.den - pad(b.nums, n)[i] * a.den),
        den: a.den * b.den,
    }
}

/// Coordinate-wise multiplication by the scalar `k`.
pub open spec fn spec_scale(v: VecModel, k: RatModel) -> VecModel {
    VecModel { nums: Seq::new(v.nums.len(), |i: int| v.nums[i] * k.num), den: v.den * k.den }
}

/// Sum of the first `n` products of corresponding entries.
pub open spec fn dot_prefix(a: Seq<int>, b: Seq<int>, n: int) -> int
    recommends
        n <= a.len(),
        n <= b.len(),
    decreases n,
{
    if n <= 0 {
        0
    } else {
        dot_prefix(a, b, n - 1) + a[n - 1] * b[n - 1]
    }
}

/// The numerator of a vector's dot product with itself (its squared modulus
/// times `den * den`).
pub open spec fn self_dot(m: VecModel) -> int {
    dot_prefix(m.nums, m.nums, m.nums.len() as int)
}

/// The dot product after equalization.
pub open spec fn spec_dot(a: VecModel, b: VecModel) -> RatModel {
    let n = max_len(a.nums.len(), b.nums.len());
    RatModel { num: dot_prefix(pad(a.nums, n), pad(b.nums, n), n as int), den: a.den * b.den }
}

/// The cross product: defined only for cardinalities (2, 2) and (3, 3).
/// Two-dimensional operands are read in the z = 0 plane and yield the signed
/// area embedded in the z coordinate of a 3-vector.
pub open spec fn spec_cross(a: VecModel, b: VecModel) -> Option<VecModel> {
    if a.nums.len() == 2 && b.nums.len() == 2 {
        Some(
            VecModel {
                nums: seq![0int, 0int, a.nums[0] * b.nums[1] - a.nums[1] * b.nums[0]],
                den: a.den * b.den,
            },
        )
    } else if a.nums.len() == 3 && b.nums.len() == 3 {
        Some(
            VecModel {
                nums: seq![
                    a.nums[1] * b.nums[2] - a.nums[2] * b.nums[1],
                    a.nums[2] * b.nums[0] - a.nums[0] * b.nums[2],
                    a.nums[0] * b.nums[1] - a.nums[1] * b.nums[0],
                ],
                den: a.den * b.den,
            },
        )
    } else {
        None
    }
}

/// Whether the value at 1-indexed coordinate `r` is strictly positive.
pub open spec fn spec_signal(m: VecModel, r: int) -> bool {
    1 <= r <= m.nums.len() && m.nums[r - 1] > 0
}

/// The orthogonal projection of `a` onto the direction of `onto`, in the
/// division-free closed form `onto * (a . onto) / (onto . onto)`: meaningful
/// only when `onto` is not the zero vector.
pub open spec fn spec_proj(a: VecModel, onto: VecModel) -> VecModel {
    let s = spec_dot(a, onto).num;
    VecModel {
        nums: Seq::new(onto.nums.len(), |i: int| onto.nums[i] * s),
        den: a.den * self_dot(onto),
    }
}

/// The component of `a` orthogonal to `onto` (what remains after removing
/// the projection).
pub open spec fn spec_orth(a: VecModel, onto: VecModel) -> VecModel {
    spec_sub(a, spec_proj(a, onto))
}

/// Mirror `a` about the hyperplane orthogonal to `across`.
pub open spec fn spec_reflected(a: VecModel, across: VecModel) -> VecModel {
    spec_sub(a, spec_scale(spec_proj(a, across), RatModel { num: 2, den: 1 }))
}

/// Scale the orthogonal component by `alpha` and the parallel component by
/// `-beta`: the parameterized elastic/inelastic reaction.
pub open spec fn spec_reaction(a: VecModel, alpha: RatModel, other: VecModel, beta: RatModel) -> VecModel {
    spec_add(
        spec_scale(spec_orth(a, other), alpha),
        spec_scale(spec_proj(a, other), RatModel { num: -beta.num, den: beta.den }),
    )
}

/// The direction the normal-vector operation normalizes: decompose `v`
/// against the first standard basis vector and take parallel minus orthogonal
/// component.
pub open spec fn spec_normal_dir(v: VecModel) -> VecModel {
    spec_sub(spec_proj(v, basis_first(v.nums.len())), spec_orth(v, basis_first(v.nums.len())))
}

/// The integer square root: the largest `r` with `r * r <= q`.
pub open spec fn sqrt_floor(q: nat) -> nat
    decreases q,
{
    if q == 0 {
        0
    } else {
        let r = sqrt_floor((q - 1) as nat);
        if (r + 1) * (r + 1) <= q {
            r + 1
        } else {
            r
        }
    }
}

/// The Euclidean norm, rounded down to the coarsest representable step: with
/// `v = nums / den`, the modulus is `sqrt(self_dot(v)) / den`, and the square
/// root of the integer `self_dot(v)` is taken rounded down.
pub open spec fn spec_modulus(v: VecModel) -> RatModel {
    RatModel { num: sqrt_floor(self_dot(v) as nat) as int, den: v.den }
}

/// The unit vector of `v`: `v` scaled by the reciprocal of its modulus, in
/// the reduced representation `nums / sqrt(self_dot(v))`. Meaningful only
/// when `v` is not the zero vector.
pub open spec fn spec_unit(v: VecModel) -> VecModel {
    VecModel { nums: v.nums, den: spec_modulus(v).num }
}

/// The normal-vector operation: normalize the decomposition direction.
pub open spec fn spec_normal(v: VecModel) -> VecModel {
    spec_unit(spec_normal_dir(v))
}

/// An integer representable as a machine coordinate.
pub open spec fn int_in_range(x: int) -> bool {
    i32::MIN <= x <= i32::MAX
}

/// A scalar model representable by the machine scalar type.
pub open spec fn rat_in_range(k: RatModel) -> bool {
    int_in_range(k.num) && 1 <= k.den <= i32::MAX
}

/// A vector model representable by the machine vector type.
pub open spec fn vec_in_range(m: VecModel) -> bool {
    (forall|i: int| 0 <= i < m.nums.len() ==> int_in_range(m.nums[i])) && 1 <= m.den <= i32::MAX
}

/// The projection exists and is representable.
pub open spec fn proj_ok(a: VecModel, onto: VecModel) -> bool {
    !spec_is_zero(onto) && vec_in_range(spec_proj(a, onto))
}

/// Both components of the decomposition exist and are representable.
pub open spec fn decompose_ok(a: VecModel, onto: VecModel) -> bool {
    proj_ok(a, onto) && vec_in_range(spec_orth(a, onto))
}

/// Every step of the reflection is representable.
pub open spec fn reflected_ok(a: VecModel, across: VecModel) -> bool {
    proj_ok(a, across) && vec_in_range(spec_scale(spec_proj(a, across), RatModel { num: 2, den: 1 }))
        && vec_in_range(spec_reflected(a, across))
}

/// Every step of the parameterized reaction is representable.
pub open spec fn reaction_ok(a: VecModel, alpha: RatModel, other: VecModel, beta: RatModel) -> bool {
    decompose_ok(a, other) && vec_in_range(spec_scale(spec_orth(a, other), alpha)) && vec_in_range(
        spec_scale(spec_proj(a, other), RatModel { num: -beta.num, den: beta.den }),
    ) && vec_in_range(spec_reaction(a, alpha, other, beta))
}

/// The unit vector exists and is representable.
pub open spec fn unit_ok(v: VecModel) -> bool {
    !spec_is_zero(v) && spec_modulus(v).num <= i32::MAX
}

/// The decomposition against the first basis vector and its recombined
/// direction are representable.
pub open spec fn normal_dir_ok(v: VecModel) -> bool {
    decompose_ok(v, basis_first(v.nums.len())) && vec_in_range(spec_normal_dir(v))
}

/// Every step of the normal-vector operation succeeds.
pub open spec fn normal_ok(v: VecModel) -> bool {
    normal_dir_ok(v) && unit_ok(spec_normal_dir(v))
}

/// The normal-vector operation fails for want of a usable direction: either
/// the input has no coordinates, or the direction to normalize has length
/// zero.
pub open spec fn normal_degenerate(v: VecModel) -> bool {
    spec_is_zero(basis_first(v.nums.len())) || (normal_dir_ok(v) && spec_is_zero(spec_normal_dir(v)))
}

/// Bound on a product from bounds on its factors.
pub proof fn lemma_mul_bounds(x: int, y: int, bx: int, by: int)
    by (nonlinear_arith)
    requires
        -bx <= x <= bx,
        -by <= y <= by,
        0 <= bx,
        0 <= by,
    ensures
        -(bx * by) <= x * y <= bx * by,
{
}

/// The exact range of a product of two machine-coordinate values.
pub proof fn lemma_mul_i32(x: int, y: int)
    by (nonlinear_arith)
    requires
        -0x8000_0000 <= x <= 0x7fff_ffff,
        -0x8000_0000 <= y <= 0x7fff_ffff,
    ensures
        -0x3fff_ffff_8000_0000 <= x * y <= 0x4000_0000_0000_0000,
{
}

/// A product of two positive bounded factors is positive and bounded.
pub proof fn lemma_den_mul(x: int, y: int)
    by (nonlinear_arith)
    requires
        1 <= x <= 0x7fff_ffff,
        1 <= y <= 0x7fff_ffff,
    ensures
        1 <= x * y <= 0x7fff_ffff * 0x7fff_ffff,
{
}

/// Scaling a nonnegative value by a factor of at least one does not shrink it.
pub proof fn lemma_mul_ge_one(x: int, y: int)
    by (nonlinear_arith)
    requires
        1 <= x,
        0 <= y,
    ensures
        x * y >= y,
{
}

/// A product with a nonzero integer factor dominates the other factor in
/// magnitude, whatever the signs.
pub proof fn lemma_nonzero_mul_dominates(x: int, y: int)
    by (nonlinear_arith)
    requires
        x != 0,
    ensures
        x * y >= y || x * y <= -y,
        x * y >= -y || x * y <= y,
{
}

/// Squaring is monotone on nonnegative integers.
pub proof fn lemma_sq_mono(x: int, y: int)
    by (nonlinear_arith)
    requires
        0 <= x <= y,
    ensures
        x * x <= y * y,
{
}

/// A prefix dot product of coordinate sequences bounded by `c` is bounded by
/// `n * c * c`.
pub proof fn lemma_dot_prefix_bound(a: Seq<int>, b: Seq<int>, n: int, c: int)
    requires
        0 <= n <= a.len(),
        n <= b.len(),
        0 <= c,
        forall|i: int| 0 <= i < n ==> -c <= #[trigger] a[i] <= c,
        forall|i: int| 0 <= i < n ==> -c <= #[trigger] b[i] <= c,
    ensures
        -(n * (c * c)) <= dot_prefix(a, b, n) <= n * (c * c),
    decreases n,
{
    if n > 0 {
        lemma_dot_prefix_bound(a, b, n - 1, c);
        lemma_mul_bounds(a[n - 1], b[n - 1], c, c);
        assert((n - 1) * (c * c) + c * c == n * (c * c)) by (nonlinear_arith);
    }
}

/// A sequence's dot product with itself is nonnegative, and zero exactly when
/// every entry in the prefix is zero.
pub proof fn lemma_self_dot_prefix(s: Seq<int>, n: int)
    requires
        0 <= n <= s.len(),
    ensures
        dot_prefix(s, s, n) >= 0,
        dot_prefix(s, s, n) == 0 <==> (forall|i: int| 0 <= i < n ==> s[i] == 0),
    decreases n,
{
    if n > 0 {
        lemma_self_dot_prefix(s, n - 1);
        let x = s[n - 1];
        assert(x * x >= 0) by (nonlinear_arith);
        if x != 0 {
            assert(x * x >= 1) by (nonlinear_arith)
                requires
                    x != 0,
            ;
        }
    }
}

/// The prefix dot product is commutative.
pub proof fn lemma_dot_prefix_comm(a: Seq<int>, b: Seq<int>, n: int)
    ensures
        dot_prefix(a, b, n) == dot_prefix(b, a, n),
    decreases n,
{
    if n > 0 {
        lemma_dot_prefix_comm(a, b, n - 1);
        assert(a[n - 1] * b[n - 1] == b[n - 1] * a[n - 1]) by (nonlinear_arith);
    }
}

/// `sqrt_floor` is what its name says: its square is at most `q`, and the
/// next square is beyond `q`.
pub proof fn lemma_sqrt_floor_bounds(q: nat)
    ensures
        sqrt_floor(q) * sqrt_floor(q) <= q,
        q < (sqrt_floor(q) + 1) * (sqrt_floor(q) + 1),
    decreases q,
{
    if q > 0 {
        lemma_sqrt_floor_bounds((q - 1) as nat);
        let r = sqrt_floor((q - 1) as nat);
        assert(sqrt_floor(q) == if (r + 1) * (r + 1) <= q {
            r + 1
        } else {
            r
        });
        if (r + 1) * (r + 1) <= q {
            assert(sqrt_floor(q) == r + 1);
            assert(sqrt_floor(q) * sqrt_floor(q) <= q);
            assert(q <= (r + 1) * (r + 1));
            assert((r + 1) * (r + 1) < (r + 2) * (r + 2)) by (nonlinear_arith);
            assert(q < (sqrt_floor(q) + 1) * (sqrt_floor(q) + 1));
        } else {
            assert(sqrt_floor(q) == r);
            assert(sqrt_floor(q) * sqrt_floor(q) <= q);
            assert(q < (sqrt_floor(q) + 1) * (sqrt_floor(q) + 1));
        }
    } else {
        let s = sqrt_floor(q);
        assert(s == 0);
        assert(s * s <= q && q < (s + 1) * (s + 1)) by (nonlinear_arith)
            requires
                s == 0,
                q == 0,
        ;
    }
}

/// Any integer whose square brackets `q` the same way is `sqrt_floor(q)`.
pub proof fn lemma_sqrt_floor_unique(q: nat, r: nat)
    requires
        r * r <= q,
        q < (r + 1) * (r + 1),
    ensures
        r == sqrt_floor(q),
{
    let s = sqrt_floor(q);
    lemma_sqrt_floor_bounds(q);
    if r < s {
        lemma_sq_mono(r as int + 1, s as int);
        assert(false);
    }
    if s < r {
        lemma_sq_mono(s as int + 1, r as int);
        assert(false);
    }
}

} // verus!
