//! The per-entity input buffer: raw 2D deltas accumulate here each tick
//! and are consumed at resolution time, either all at once or by an
//! exponential-decay step.

use vstd::prelude::*;

verus! {

use crate::fixed::SCALE;
use crate::fixed::FX_LIM;
use crate::fixed::RATE_LIM;
use crate::fixed::DT_LIM;
use crate::fixed::in_lim;
use crate::fixed::fx_abs;
use crate::fixed::mul_down;
use crate::fixed::fx_mul;
use crate::fixed::lemma_mul_down_fraction;
use crate::fixed::lemma_mul_down_strict;
use crate::fixed::lemma_mul_down_one;
use crate::smooth::exp_neg_spec;
use crate::smooth::exp_neg;
use crate::vec::FxVec2;

/// A buffer that stores and manages a 2D vector delta value.
pub struct DeltaBuffer {
    delta: FxVec2,
}

impl DeltaBuffer {
    /// The accumulated delta currently held.
    pub closed spec fn view(&self) -> FxVec2 {
        self.delta
    }

    /// The held delta stays within the range the decay step accepts.
    pub open spec fn wf(&self) -> bool {
        crate::vec::v2_in_lim(self.view(), FX_LIM as int)
    }

    /// Adds the given delta to the buffer's current value.
    pub fn update(&mut self, delta: FxVec2)
        requires
            in_lim(old(self).view().x + delta.x, FX_LIM as int),
            in_lim(old(self).view().y + delta.y, FX_LIM as int),
        ensures
            final(self).view().x == old(self).view().x + delta.x,
            final(self).view().y == old(self).view().y + delta.y,
            final(self).wf(),
    {
        self.delta = self.delta.plus(delta);
    }

    /// Subtracts the given delta from the buffer's current value. Never
    /// clamps: consuming more than was read is the caller's mistake.
    pub fn consume(&mut self, delta: FxVec2)
        requires
            in_lim(old(self).view().x - delta.x, FX_LIM as int),
            in_lim(old(self).view().y - delta.y, FX_LIM as int),
        ensures
            final(self).view().x == old(self).view().x - delta.x,
            final(self).view().y == old(self).view().y - delta.y,
            final(self).wf(),
    {
        self.delta = self.delta.minus(delta);
    }

    /// Resets the buffer's delta value to zero, discarding unconsumed
    /// input.
    pub fn reset(&mut self)
        ensures
            final(self).view().x == 0 && final(self).view().y == 0,
            final(self).wf(),
    {
        self.delta = FxVec2::zero();
    }

    /// Returns the current delta value without modifying it.
    pub fn read(&self) -> (r: FxVec2)
        ensures
            r == self.view(),
    {
        self.delta
    }

    /// Returns the current delta value and resets the buffer.
    pub fn take(&mut self) -> (r: FxVec2)
        ensures
            r == old(self).view(),
            final(self).view().x == 0 && final(self).view().y == 0,
            final(self).wf(),
    {
        let taken = self.delta;
        self.reset();
        taken
    }

    /// Consumes one exponential-decay step of the held delta and returns
    /// the consumed amount: after the call the buffer keeps exactly the
    /// decayed fraction of each component, and what was returned plus
    /// what remains is what was held. The step never grows a component,
    /// never flips its sign, consumes nothing when `dt == 0`, and once
    /// `rate * dt` reaches one raw step it strictly shrinks every nonzero
    /// component, so repeated steps drain the buffer to zero.
    pub fn decay(&mut self, rate: i64, dt: i64) -> (r: FxVec2)
        requires
            0 < rate <= RATE_LIM,
            0 <= dt <= DT_LIM,
            old(self).wf(),
        ensures
            ({
                let q = exp_neg_spec(mul_down(rate as int, dt as int));
                &&& final(self).view().x == mul_down(old(self).view().x as int, q)
                &&& final(self).view().y == mul_down(old(self).view().y as int, q)
            }),
            r.x == old(self).view().x - final(self).view().x,
            r.y == old(self).view().y - final(self).view().y,
            fx_abs(r.x as int) <= fx_abs(old(self).view().x as int),
            fx_abs(r.y as int) <= fx_abs(old(self).view().y as int),
            old(self).view().x >= 0 ==> 0 <= final(self).view().x <= old(self).view().x,
            old(self).view().x <= 0 ==> old(self).view().x <= final(self).view().x <= 0,
            old(self).view().y >= 0 ==> 0 <= final(self).view().y <= old(self).view().y,
            old(self).view().y <= 0 ==> old(self).view().y <= final(self).view().y <= 0,
            dt == 0 ==> r.x == 0 && r.y == 0 && final(self).view() == old(self).view(),
            rate * dt >= SCALE && old(self).view().x != 0 ==> fx_abs(
                final(self).view().x as int,
            ) <= fx_abs(old(self).view().x as int) - 1,
            rate * dt >= SCALE && old(self).view().y != 0 ==> fx_abs(
                final(self).view().y as int,
            ) <= fx_abs(old(self).view().y as int) - 1,
            final(self).wf(),
    {
        proof {
            vstd::arithmetic::mul::lemma_mul_nonnegative(rate as int, dt as int);
            crate::fixed::lemma_mul_abs_bound(rate as int, dt as int, RATE_LIM as int, DT_LIM as int);
            crate::fixed::lemma_div_tz_bounds(rate * dt, SCALE as int);
            if dt == 0 {
                vstd::arithmetic::mul::lemma_mul_by_zero_is_zero(rate as int);
                lemma_mul_down_one(self.delta.x as int);
                lemma_mul_down_one(self.delta.y as int);
            }
            if rate * dt >= SCALE {
                vstd::arithmetic::div_mod::lemma_div_is_ordered(
                    SCALE as int,
                    rate * dt,
                    SCALE as int,
                );
            }
        }
        let x: i64 = fx_mul(rate, dt);
        let q: i64 = exp_neg(x);
        proof {
            lemma_mul_down_fraction(self.delta.x as int, q as int);
            lemma_mul_down_fraction(self.delta.y as int, q as int);
            if q < SCALE {
                if self.delta.x != 0 {
                    lemma_mul_down_strict(self.delta.x as int, q as int);
                }
                if self.delta.y != 0 {
                    lemma_mul_down_strict(self.delta.y as int, q as int);
                }
            }
            crate::fixed::lemma_mul_abs_bound(self.delta.x as int, q as int, FX_LIM as int, SCALE as int);
            crate::fixed::lemma_mul_abs_bound(self.delta.y as int, q as int, FX_LIM as int, SCALE as int);
        }
        let kept = FxVec2 { x: fx_mul(self.delta.x, q), y: fx_mul(self.delta.y, q) };
        let consumed = self.delta.minus(kept);
        self.delta = kept;
        consumed
    }
}

/// Law of the decay step, over the buffer model `(px, py)` and the decay
/// fraction `q` of a step: the consumed vector and the remaining vector
/// are each no longer than the buffer was, and once the fraction is
/// strictly below one unit, iterating the step reaches the zero vector
/// exactly — convergence without overshoot.
pub proof fn lemma_decay_law(px: int, py: int, q: int, n: nat)
    requires
        in_lim(px, FX_LIM as int),
        in_lim(py, FX_LIM as int),
        0 <= q <= SCALE,
    ensures
        ({
            let cx = px - mul_down(px, q);
            let cy = py - mul_down(py, q);
            cx * cx + cy * cy <= px * px + py * py
        }),
        mul_down(px, q) * mul_down(px, q) + mul_down(py, q) * mul_down(py, q) <= px * px + py
            * py,
        q < SCALE && n >= fx_abs(px) ==> crate::fixed::iter_scale(px, q, n) == 0,
        q < SCALE && n >= fx_abs(py) ==> crate::fixed::iter_scale(py, q, n) == 0,
{
    lemma_mul_down_fraction(px, q);
    lemma_mul_down_fraction(py, q);
    let cx = px - mul_down(px, q);
    let cy = py - mul_down(py, q);
    assert(cx * cx + cy * cy <= px * px + py * py) by (nonlinear_arith)
        requires
            fx_abs(cx) <= fx_abs(px),
            fx_abs(cy) <= fx_abs(py),
    ;
    assert(mul_down(px, q) * mul_down(px, q) + mul_down(py, q) * mul_down(py, q) <= px * px + py
        * py) by (nonlinear_arith)
        requires
            fx_abs(mul_down(px, q)) <= fx_abs(px),
            fx_abs(mul_down(py, q)) <= fx_abs(py),
    ;
    if q < SCALE {
        crate::fixed::lemma_iter_scale_drains(px, q, n);
        crate::fixed::lemma_iter_scale_drains(py, q, n);
    }
}

impl Default for DeltaBuffer {
    /// An empty buffer.
    fn default() -> (r: Self)
        ensures
            r.view().x == 0 && r.view().y == 0,
            r.wf(),
    {
        DeltaBuffer { delta: FxVec2 { x: 0, y: 0 } }
    }
}

} // verus!
