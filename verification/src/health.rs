//! Health meter: a clamped fractional value in hundredths with damage and
//! heal operations, a centered geometric footprint, and a non-linear fill
//! width used when the bar is rendered.

use vstd::prelude::*;

verus! {

/// Full health, in hundredths: `hp == HP_MAX` means a full bar.
pub const HP_MAX: i32 = 100;

/// Clamps a health value (in hundredths) into `[0, HP_MAX]`.
pub open spec fn clamp_hp(v: int) -> int {
    if v < 0 {
        0
    } else if v > HP_MAX {
        HP_MAX as int
    } else {
        v
    }
}

/// A health bar: remaining health in hundredths plus the rectangle it is
/// drawn in.
pub struct HealthBar {
    pub x: i32,
    pub y: i32,
    pub w: i32,
    pub h: i32,
    /// Remaining health in hundredths of a full bar.
    pub hp: i32,
}

impl HealthBar {
    /// Health is always clamped to `[0, HP_MAX]` after any mutation.
    pub open spec fn wf(&self) -> bool {
        0 <= self.hp <= HP_MAX
    }

    pub fn new(x: i32, y: i32, w: i32, h: i32, hp: i32) -> (r: HealthBar)
        ensures
            r.x == x,
            r.y == y,
            r.w == w,
            r.h == h,
            r.hp == clamp_hp(hp as int),
            r.wf(),
    {
        let clamped: i32 = if hp < 0 {
            0
        } else if hp > HP_MAX {
            HP_MAX
        } else {
            hp
        };
        HealthBar { x, y, w, h, hp: clamped }
    }

    /// `hp = clamp(hp - dmg, 0, HP_MAX)`. A negative `dmg` heals.
    pub fn take_damage(&mut self, dmg: i32)
        ensures
            final(self).hp == clamp_hp(old(self).hp - dmg),
            final(self).x == old(self).x,
            final(self).y == old(self).y,
            final(self).w == old(self).w,
            final(self).h == old(self).h,
            final(self).wf(),
    {
        let v: i64 = self.hp as i64 - dmg as i64;
        self.hp = if v < 0 {
            0
        } else if v > HP_MAX as i64 {
            HP_MAX
        } else {
            v as i32
        };
    }

    /// `hp = clamp(new_hp, 0, HP_MAX)`.
    pub fn set_hp(&mut self, new_hp: i32)
        ensures
            final(self).hp == clamp_hp(new_hp as int),
            final(self).x == old(self).x,
            final(self).y == old(self).y,
            final(self).w == old(self).w,
            final(self).h == old(self).h,
            final(self).wf(),
    {
        self.hp = if new_hp < 0 {
            0
        } else if new_hp > HP_MAX {
            HP_MAX
        } else {
            new_hp
        };
    }

    /// Recomputes the top-left anchor so the bar is centered at `(x, y)`.
    pub fn set_center(&mut self, x: i32, y: i32)
        requires
            -0x3fff_ffff <= x <= 0x3fff_ffff,
            -0x3fff_ffff <= y <= 0x3fff_ffff,
            0 <= old(self).w <= 0x3fff_ffff,
            0 <= old(self).h <= 0x3fff_ffff,
        ensures
            final(self).x == x - old(self).w / 2,
            final(self).y == y - old(self).h / 2,
            final(self).w == old(self).w,
            final(self).h == old(self).h,
            final(self).hp == old(self).hp,
    {
        self.x = x - self.w / 2;
        self.y = y - self.h / 2;
    }
}

/// `x` to the fifth power.
pub open spec fn pow5(x: int) -> int {
    x * x * x * x * x
}

/// `x` to the seventh power.
pub open spec fn pow7(x: int) -> int {
    x * x * x * x * x * x * x
}

/// `q` is the floor of the real fifth root of `n`.
pub open spec fn is_root5(n: int, q: int) -> bool {
    0 <= q && pow5(q) <= n < pow5(q + 1)
}

/// The radicand of the fill-width rule: the displayed width is the floor of
/// `w * (hp / HP_MAX)^(7/5)`, which equals the floor of the fifth root of
/// this quantity (integer division by `pow7(HP_MAX)` loses nothing, because
/// taking the floor of the root commutes with flooring the radicand).
pub open spec fn fill_radicand(w: int, hp: int) -> int {
    pow5(w) * pow7(hp) / pow7(HP_MAX as int)
}

pub proof fn lemma_pow5_le(a: int, b: int)
    requires
        0 <= a <= b,
    ensures
        pow5(a) <= pow5(b),
{
    assert(a * a <= b * b) by (nonlinear_arith)
        requires
            0 <= a <= b,
    ;
    assert((a * a) * (a * a) <= (b * b) * (b * b)) by (nonlinear_arith)
        requires
            0 <= a * a <= b * b,
    ;
    assert(((a * a) * (a * a)) * a <= ((b * b) * (b * b)) * b) by (nonlinear_arith)
        requires
            0 <= (a * a) * (a * a) <= (b * b) * (b * b),
            0 <= a <= b,
    ;
    assert(pow5(a) == ((a * a) * (a * a)) * a) by (nonlinear_arith);
    assert(pow5(b) == ((b * b) * (b * b)) * b) by (nonlinear_arith);
}

/// Floor of the fifth root, by counting up.
fn iroot5(n: u128) -> (r: u64)
    requires
        n < 0x1000000000000000000000,  // 2^84, so the root is below 0x20000
    ensures
        is_root5(n as int, r as int),
{
    let mut r: u64 = 0;
    loop
        invariant
            n < 0x1000000000000000000000,
            pow5(r as int) <= n as int,
            r <= 0x20000,
        ensures
            is_root5(n as int, r as int),
        decreases 0x20000int - r as int,
    {
        let next: u64 = r + 1;
        let p: u128 = next as u128;
        assert(p * p <= 0x20001 * 0x20001) by (nonlinear_arith)
            requires
                p <= 0x20001,
        ;
        let p2: u128 = p * p;
        assert(p2 * p2 <= (0x20001 * 0x20001) * (0x20001 * 0x20001)) by (nonlinear_arith)
            requires
                0 <= p2 <= 0x20001 * 0x20001,
        ;
        let p4: u128 = p2 * p2;
        assert(p4 * p <= ((0x20001 * 0x20001) * (0x20001 * 0x20001)) * 0x20001)
            by (nonlinear_arith)
            requires
                0 <= p4 <= (0x20001 * 0x20001) * (0x20001 * 0x20001),
                0 <= p <= 0x20001,
        ;
        let p5: u128 = p4 * p;
        proof {
            assert(p5 == pow5(next as int)) by (nonlinear_arith)
                requires
                    p == next as int,
                    p2 == p * p,
                    p4 == p2 * p2,
                    p5 == p4 * p,
            ;
        }
        if p5 <= n {
            proof {
                if next > 0x20000 {
                    lemma_pow5_le(0x20001, next as int);
                    assert(pow5(0x20001) > 0x1000000000000000000000);
                }
            }
            r = next;
        } else {
            break;
        }
    }
    r
}

impl HealthBar {
    /// The displayed fill width: `max(2, floor(w * (hp / HP_MAX)^1.4))`,
    /// computed exactly — the exponent 1.4 is 7/5, so the width is the floor
    /// of the fifth root of `fill_radicand(w, hp)`, never less than 2 so a
    /// sliver stays visible near zero health.
    pub fn fill_width(&self) -> (r: i32)
        requires
            self.wf(),
            0 <= self.w <= 0x10000,
        ensures
            r >= 2,
            fill_radicand(self.w as int, self.hp as int) < pow5(3) ==> r == 2,
            fill_radicand(self.w as int, self.hp as int) >= pow5(3) ==> is_root5(
                fill_radicand(self.w as int, self.hp as int),
                r as int,
            ),
            self.hp == HP_MAX && self.w >= 2 ==> r == self.w,
    {
        let w: u128 = self.w as u128;
        assert(w * w <= 0x10000 * 0x10000) by (nonlinear_arith)
            requires
                0 <= w <= 0x10000,
        ;
        let w2: u128 = w * w;
        assert(w2 * w2 <= (0x10000 * 0x10000) * (0x10000 * 0x10000)) by (nonlinear_arith)
            requires
                0 <= w2 <= 0x10000 * 0x10000,
        ;
        let w4: u128 = w2 * w2;
        assert(w4 * w <= ((0x10000 * 0x10000) * (0x10000 * 0x10000)) * 0x10000)
            by (nonlinear_arith)
            requires
                0 <= w4 <= (0x10000 * 0x10000) * (0x10000 * 0x10000),
                0 <= w <= 0x10000,
        ;
        let w5: u128 = w4 * w;
        let hp: u128 = self.hp as u128;
        assert(hp * hp <= 10000) by (nonlinear_arith)
            requires
                0 <= hp <= 100,
        ;
        let hp2: u128 = hp * hp;
        assert(hp2 * hp2 <= 100000000) by (nonlinear_arith)
            requires
                0 <= hp2 <= 10000,
        ;
        let hp4: u128 = hp2 * hp2;
        assert(hp4 * hp2 <= 1000000000000 && hp4 * hp2 * hp <= 100000000000000)
            by (nonlinear_arith)
            requires
                0 <= hp4 <= 100000000,
                0 <= hp2 <= 10000,
                0 <= hp <= 100,
        ;
        let hp6: u128 = hp4 * hp2;
        let hp7: u128 = hp6 * hp;
        proof {
            assert(w5 == pow5(w as int)) by (nonlinear_arith)
                requires
                    w2 == w * w,
                    w4 == w2 * w2,
                    w5 == w4 * w,
            ;
            assert(hp7 == pow7(hp as int)) by (nonlinear_arith)
                requires
                    hp2 == hp * hp,
                    hp4 == hp2 * hp2,
                    hp6 == hp4 * hp2,
                    hp7 == hp6 * hp,
            ;
            assert(w5 * hp7 <= 0x100000000000000000000 * 100000000000000)
                by (nonlinear_arith)
                requires
                    0 <= w5 <= 0x100000000000000000000,
                    0 <= hp7 <= 100000000000000,
            ;
        }
        let num: u128 = w5 * hp7;
        let n: u128 = num / 100000000000000u128;
        proof {
            assert(pow7(HP_MAX as int) == 100000000000000);
            assert(n as int == fill_radicand(self.w as int, self.hp as int));
            // n <= w5, so iroot5's bound holds: num <= w5 * pow7(HP_MAX), and
            // dividing both sides keeps the order.
            assert(num <= w5 * 100000000000000) by (nonlinear_arith)
                requires
                    num == w5 * hp7,
                    0 <= hp7 <= 100000000000000,
                    0 <= w5,
            ;
            vstd::arithmetic::div_mod::lemma_div_is_ordered(
                num as int,
                w5 * 100000000000000,
                100000000000000,
            );
            assert(w5 * 100000000000000 == 100000000000000 * (w5 as int));
            vstd::arithmetic::div_mod::lemma_div_multiples_vanish(w5 as int, 100000000000000);
        }
        let q: u64 = iroot5(n);
        proof {
            // q <= w: otherwise pow5(q) >= pow5(w + 1) > pow5(w) >= n.
            if q as int > self.w as int {
                lemma_pow5_le(self.w as int + 1, q as int);
                assert(pow5(self.w as int) < pow5(self.w as int + 1)) by (nonlinear_arith)
                    requires
                        self.w >= 0,
                ;
                assert(false);
            }
            if q >= 3 {
                lemma_pow5_le(3, q as int);
            }
            if q as int + 1 <= 3 {
                lemma_pow5_le(q as int + 1, 3);
            }
            if self.hp == HP_MAX && self.w >= 2 {
                assert(num == 100000000000000 * (w5 as int));
                vstd::arithmetic::div_mod::lemma_div_multiples_vanish(w5 as int, 100000000000000);
                assert(n == w5);
                if (q as int) < self.w as int {
                    lemma_pow5_le(q as int + 1, self.w as int);
                    assert(false);
                }
                if (q as int) > self.w as int {
                    lemma_pow5_le(self.w as int + 1, q as int);
                    assert(pow5(self.w as int) < pow5(self.w as int + 1)) by (nonlinear_arith)
                        requires
                            self.w >= 0,
                    ;
                    assert(false);
                }
            }
        }
        let width: u64 = if q < 2 {
            2
        } else {
            q
        };
        width as i32
    }
}

/// Law: a `take_damage` followed by a `set_hp` always lands in `[0, HP_MAX]`,
/// whatever the starting value and the amounts were — both steps clamp, so
/// the composition does too.
pub proof fn lemma_damage_then_set_stays_clamped(hp: int, dmg: int, new_hp: int)
    ensures
        0 <= clamp_hp(hp - dmg) <= HP_MAX,
        0 <= clamp_hp(new_hp) <= HP_MAX,
{
}

} // verus!
