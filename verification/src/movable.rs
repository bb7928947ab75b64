//! Movable hazard sprite: an axis-aligned box with integer position and
//! velocity that bounces off the edges of a fixed play area and answers
//! strict-interior point containment queries.

use vstd::prelude::*;

verus! {

/// A bounding box: top-left anchor and size.
pub struct BBox {
    pub anchor: (i32, i32),
    pub size: (i32, i32),
}

/// A sprite that moves inside a `scr_w` by `scr_h` play area. `tex` is a
/// non-owning handle into the caller's texture table; `w` and `h` are the
/// extent of that texture, carried here so the logic can reason about the
/// sprite's far edge.
#[derive(Clone, Copy)]
pub struct MovableSprite {
    pub tex: usize,
    pub x: i32,
    pub y: i32,
    pub dx: i32,
    pub dy: i32,
    pub w: i32,
    pub h: i32,
    pub scr_w: i32,
    pub scr_h: i32,
}

/// Magnitude bound under which every sum computed by `update` fits in `i32`.
pub open spec fn small(v: int) -> bool {
    -0x3fff_ffff <= v <= 0x3fff_ffff
}

pub open spec fn abs(v: int) -> int {
    if v < 0 {
        -v
    } else {
        v
    }
}

/// One axis of the bounce rule. Moving toward the low bound, a step that
/// would land at or past 0 flips the velocity first; symmetrically, a step
/// that would push the far edge (`p + extent`) to `bound - 1` or beyond
/// flips it. The (possibly just-flipped) velocity is then applied. Returns
/// the new position and velocity.
pub open spec fn axis_step(p: int, v: int, extent: int, bound: int) -> (int, int) {
    let v1 = if p + v <= 0 && v < 0 {
        -v
    } else {
        v
    };
    let v2 = if p + extent + v1 >= bound - 1 && v1 > 0 {
        -v1
    } else {
        v1
    };
    (p + v2, v2)
}

/// The whole per-tick step: both axes move independently.
pub open spec fn step_spec(s: MovableSprite) -> MovableSprite {
    MovableSprite {
        x: axis_step(s.x as int, s.dx as int, s.w as int, s.scr_w as int).0 as i32,
        dx: axis_step(s.x as int, s.dx as int, s.w as int, s.scr_w as int).1 as i32,
        y: axis_step(s.y as int, s.dy as int, s.h as int, s.scr_h as int).0 as i32,
        dy: axis_step(s.y as int, s.dy as int, s.h as int, s.scr_h as int).1 as i32,
        ..s
    }
}

/// Strict interior containment: points on the edge of the box do not count.
pub open spec fn contains_strict(s: MovableSprite, px: int, py: int) -> bool {
    s.x < px < s.x + s.w && s.y < py < s.y + s.h
}

impl MovableSprite {
    /// All fields are small enough that `update`'s sums fit in `i32`.
    pub open spec fn in_range(&self) -> bool {
        small(self.x as int) && small(self.y as int) && small(self.dx as int) && small(
            self.dy as int,
        ) && small(self.w as int) && small(self.h as int) && small(self.scr_w as int) && small(
            self.scr_h as int,
        )
    }

    /// The sprite sits inside the play area with room to travel: its box is
    /// within `[0, bound - 1]` on both axes and the extent plus a full
    /// round trip of the velocity leaves a margin of two. Under this
    /// invariant `update` never lets the sprite escape.
    pub open spec fn wf(&self) -> bool {
        &&& self.in_range()
        &&& 0 <= self.w
        &&& 0 <= self.h
        &&& 0 <= self.x
        &&& self.x + self.w <= self.scr_w - 1
        &&& 0 <= self.y
        &&& self.y + self.h <= self.scr_h - 1
        &&& self.w + 2 * abs(self.dx as int) <= self.scr_w - 2
        &&& self.h + 2 * abs(self.dy as int) <= self.scr_h - 2
    }

    pub fn new(tex: usize, x: i32, y: i32, dx: i32, dy: i32, w: i32, h: i32, scr_w: i32, scr_h: i32) -> (r:
        MovableSprite)
        ensures
            r == (MovableSprite { tex, x, y, dx, dy, w, h, scr_w, scr_h }),
    {
        MovableSprite { tex, x, y, dx, dy, w, h, scr_w, scr_h }
    }

    /// Whether the point lies strictly inside the sprite's box; a point
    /// exactly on an edge never collides.
    pub fn collides(&self, x: i32, y: i32) -> (r: bool)
        ensures
            r == contains_strict(*self, x as int, y as int),
    {
        ((self.x as i64) < (x as i64) && (x as i64) < (self.x as i64) + (self.w as i64)) && ((
        self.y as i64) < (y as i64) && (y as i64) < (self.y as i64) + (self.h as i64))
    }

    /// The current top-left anchor and the fixed extent.
    pub fn get_bb(&self) -> (r: BBox)
        ensures
            r.anchor == (self.x, self.y),
            r.size == (self.w, self.h),
    {
        BBox { anchor: (self.x, self.y), size: (self.w, self.h) }
    }

    /// Advances one tick: each axis flips its velocity if the step would
    /// cross its bound, then the velocity is applied. A well-formed sprite
    /// stays well-formed.
    pub fn update(&mut self)
        requires
            old(self).in_range(),
        ensures
            *final(self) == step_spec(*old(self)),
            old(self).wf() ==> final(self).wf(),
    {
        let rb_x: i64 = self.x as i64 + self.w as i64;
        let rb_y: i64 = self.y as i64 + self.h as i64;

        if self.x as i64 + self.dx as i64 <= 0 && self.dx < 0 {
            self.dx = -self.dx;
        }
        if self.y as i64 + self.dy as i64 <= 0 && self.dy < 0 {
            self.dy = -self.dy;
        }

        if rb_x + self.dx as i64 >= self.scr_w as i64 - 1 && self.dx > 0 {
            self.dx = -self.dx;
        }
        if rb_y + self.dy as i64 >= self.scr_h as i64 - 1 && self.dy > 0 {
            self.dy = -self.dy;
        }

        self.x = ((self.x as i64) + (self.dx as i64)) as i32;
        self.y = ((self.y as i64) + (self.dy as i64)) as i32;
    }
}

/// Law: the play-area invariant is preserved by every tick — a well-formed
/// sprite's position plus extent stays within `[0, bounds]` on both axes
/// after the step, so by induction at every later tick as well.
pub proof fn lemma_step_preserves_wf(s: MovableSprite)
    requires
        s.wf(),
    ensures
        step_spec(s).wf(),
        0 <= step_spec(s).x && step_spec(s).x + step_spec(s).w <= step_spec(s).scr_w,
        0 <= step_spec(s).y && step_spec(s).y + step_spec(s).h <= step_spec(s).scr_h,
{
}

/// Law: a sprite moving left whose next step would land at or past `x == 0`
/// has its x-velocity sign flipped on that exact tick, moves right by the
/// same magnitude, and does not end below 0. (That no later tick reports a
/// position below 0 is `lemma_step_preserves_wf`, applied tick by tick.)
pub proof fn lemma_left_bounce(s: MovableSprite)
    requires
        s.wf(),
        s.dx < 0,
        s.x + s.dx <= 0,
    ensures
        step_spec(s).dx == -s.dx,
        step_spec(s).x == s.x - s.dx,
        step_spec(s).x >= 0,
{
}

/// Law: `collides` is false for every point exactly on an edge of the
/// bounding box and true for every interior point.
pub proof fn lemma_collides_boundary(s: MovableSprite, px: int, py: int)
    requires
        s.w >= 0,
        s.h >= 0,
        (px == s.x || px == s.x + s.w || py == s.y || py == s.y + s.h),
    ensures
        !contains_strict(s, px, py),
{
}

pub proof fn lemma_collides_interior(s: MovableSprite, px: int, py: int)
    requires
        s.x < px < s.x + s.w,
        s.y < py < s.y + s.h,
    ensures
        contains_strict(s, px, py),
{
}

} // verus!
