use vstd::prelude::*;
use vstd::arithmetic::div_mod::{lemma_div_is_ordered, lemma_div_pos_is_pos};
use crate::fixed::{abs_i, scale_toward_zero, scaled};
use crate::types::ColorType;

verus! {

/// One explosion fragment. Positions and velocities are fixed-point, in
/// thousandths of a character cell (per tick for velocities); brightness
/// is in thousandths of full brightness.
#[derive(Clone, Copy, Debug)]
pub struct Particle {
    pub x: i64,
    pub y: i64,
    pub vx: i64,
    pub vy: i64,
    pub age: u16,
    pub max_age: u16,
    pub brightness: i64,
    pub symbol: char,
    pub color_type: ColorType,
    pub distance: i64,
}

/// Brightness after an update performed at the given age:
/// `1 - (age/max_age)^2 * 2` in thousandths, clamped below at zero.
pub open spec fn brightness_after(age: int, max_age: int) -> int
    recommends
        max_age >= 1,
{
    let ratio = age * 1000 / max_age;
    let b = 1000 - 2 * ratio * ratio / 1000;
    if b < 0 {
        0
    } else {
        b
    }
}

impl Particle {
    /// Well-formedness: a bounded lifespan, and velocity and position
    /// bands wide enough for every update left in the particle's life,
    /// so that an update can never overflow and keeps the bands.
    pub open spec fn wf(self) -> bool {
        &&& 1 <= self.max_age <= 100
        &&& self.age <= self.max_age
        &&& -2000 <= self.vx <= 2000
        &&& abs_i(self.vy as int) + 8 * (self.max_age - self.age) <= 2000
        &&& abs_i(self.x as int) + 2000 * (self.max_age - self.age) <= 101_000_000
        &&& abs_i(self.y as int) + 2000 * (self.max_age - self.age) <= 101_000_000
        &&& 0 <= self.brightness <= 1000
    }

    /// One tick of kinematics: Euler position step, fixed gravity pull of
    /// 0.008 cells/tick on the vertical velocity, air drag of 0.94 on the
    /// horizontal one, brightness recomputed from the current age, then
    /// the age advanced by one. Never a no-op: the age always grows and
    /// gravity always applies.
    pub fn update(&mut self)
        requires
            old(self).wf(),
            old(self).age < old(self).max_age,
        ensures
            final(self).x == old(self).x + old(self).vx,
            final(self).y == old(self).y + old(self).vy,
            final(self).vy == old(self).vy + 8,
            final(self).vx == scaled(old(self).vx as int, 94, 100),
            final(self).age == old(self).age + 1,
            final(self).brightness == brightness_after(
                old(self).age as int,
                old(self).max_age as int,
            ),
            final(self).max_age == old(self).max_age,
            final(self).symbol == old(self).symbol,
            final(self).color_type == old(self).color_type,
            final(self).distance == old(self).distance,
            final(self).wf(),
    {
        self.x = self.x + self.vx;
        self.y = self.y + self.vy;
        self.vy = self.vy + 8;
        self.vx = scale_toward_zero(self.vx, 94, 100);
        let age_i: i64 = self.age as i64;
        let max_i: i64 = self.max_age as i64;
        let ratio: i64 = age_i * 1000 / max_i;
        proof {
            lemma_div_pos_is_pos(age_i * 1000, max_i as int);
            lemma_div_is_ordered(age_i * 1000, 100_000, max_i as int);
            assert(2 * ratio * ratio >= 0) by (nonlinear_arith)
                requires ratio >= 0,
            ;
            assert(2 * ratio * ratio <= 20_000_000_000) by (nonlinear_arith)
                requires 0 <= ratio <= 100_000,
            ;
            lemma_div_pos_is_pos(2 * ratio * ratio, 1000);
        }
        let b: i64 = 1000 - 2 * ratio * ratio / 1000;
        self.brightness = if b < 0 {
            0
        } else {
            b
        };
        self.age = self.age + 1;
    }
}

/// Brightness, as the update computes it, always lies in `[0, 1000]`.
pub proof fn lemma_brightness_in_range(age: int, max_age: int)
    requires
        0 <= age,
        1 <= max_age,
    ensures
        0 <= brightness_after(age, max_age) <= 1000,
{
    let ratio = age * 1000 / max_age;
    assert(age * 1000 >= 0) by (nonlinear_arith)
        requires age >= 0,
    ;
    lemma_div_pos_is_pos(age * 1000, max_age);
    assert(2 * ratio * ratio >= 0) by (nonlinear_arith)
        requires ratio >= 0,
    ;
    lemma_div_pos_is_pos(2 * ratio * ratio, 1000);
}

/// Brightness decays: once the age grows, the recomputed brightness can
/// only drop or stay level, never rise.
pub proof fn lemma_brightness_monotone(age1: int, age2: int, max_age: int)
    requires
        0 <= age1 <= age2,
        1 <= max_age,
    ensures
        brightness_after(age2, max_age) <= brightness_after(age1, max_age),
{
    let r1 = age1 * 1000 / max_age;
    let r2 = age2 * 1000 / max_age;
    assert(age1 * 1000 <= age2 * 1000) by (nonlinear_arith)
        requires age1 <= age2,
    ;
    assert(age1 * 1000 >= 0) by (nonlinear_arith)
        requires age1 >= 0,
    ;
    lemma_div_pos_is_pos(age1 * 1000, max_age);
    lemma_div_is_ordered(age1 * 1000, age2 * 1000, max_age);
    assert(2 * r1 * r1 <= 2 * r2 * r2) by (nonlinear_arith)
        requires 0 <= r1 <= r2,
    ;
    lemma_div_is_ordered(2 * r1 * r1, 2 * r2 * r2, 1000);
}

} // verus!
