//! The executable scalar type: an exact rational with a positive denominator.

use vstd::prelude::*;

use crate::model::RatModel;
use crate::model::lemma_mul_bounds;
use crate::model::rat_val_eq;
use crate::model::rat_wf;

verus! {

/// A scalar of the kernel, the exact rational `num / den` with `den >= 1`.
#[derive(Clone, Copy, Debug)]
pub struct Rational {
    num: i32,
    den: i32,
}

impl View for Rational {
    type V = RatModel;

    closed spec fn view(&self) -> RatModel {
        RatModel { num: self.num as int, den: self.den as int }
    }
}

impl Rational {
    pub open spec fn wf(&self) -> bool {
        rat_wf(self@)
    }

    pub fn new(num: i32, den: i32) -> (r: Rational)
        requires
            den >= 1,
        ensures
            r@ == (RatModel { num: num as int, den: den as int }),
            r.wf(),
    {
        Rational { num, den }
    }

    pub fn num(&self) -> (r: i32)
        ensures
            r as int == self@.num,
    {
        self.num
    }

    pub fn den(&self) -> (r: i32)
        ensures
            r as int == self@.den,
    {
        self.den
    }

    /// Value equality of scalars: `a/b == c/d` exactly when `a*d == c*b`.
    pub fn equals(&self, other: &Rational) -> (r: bool)
        ensures
            r == rat_val_eq(self@, other@),
    {
        proof {
            lemma_mul_bounds(self.num as int, other.den as int, 0x8000_0000, 0x8000_0000);
            lemma_mul_bounds(other.num as int, self.den as int, 0x8000_0000, 0x8000_0000);
        }
        (self.num as i64) * (other.den as i64) == (other.num as i64) * (self.den as i64)
    }
}

} // verus!
