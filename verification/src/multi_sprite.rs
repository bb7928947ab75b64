//! Animated sprite: an ordered sequence of frame extents, a current frame
//! index, and a per-frame hold counter that advances on a fixed cadence.
//! Index `N` (one past the last frame) is the canonical inactive sentinel.

use vstd::prelude::*;

verus! {

/// The extent of one frame's texture. `tex` is a non-owning handle into the
/// caller's texture table.
#[derive(Clone, Copy)]
pub struct Frame {
    pub tex: usize,
    pub w: i32,
    pub h: i32,
}

/// A sprite animated from a frame sequence. `gap` is the hold duration: the
/// number of ticks a frame stays before the index advances, so each frame is
/// displayed for `gap + 1` ticks in all.
pub struct MultiSprite {
    pub frames: Vec<Frame>,
    pub current_texture: usize,
    pub x: i32,
    pub y: i32,
    pub gap: i32,
    pub c_gap: i32,
}

/// One tick of the animation: a no-op once the index has left the frame
/// range; while a frame is showing, the hold counter counts up to `gap`,
/// then the index moves on and the counter resets.
pub open spec fn advance_spec(s: MultiSprite) -> MultiSprite {
    if s.current_texture < s.frames.len() {
        if s.c_gap < s.gap {
            MultiSprite { c_gap: (s.c_gap + 1) as i32, ..s }
        } else {
            MultiSprite { current_texture: (s.current_texture + 1) as usize, c_gap: 0, ..s }
        }
    } else {
        s
    }
}

/// The animation after `n` ticks.
pub open spec fn advance_n(s: MultiSprite, n: nat) -> MultiSprite
    decreases n,
{
    if n == 0 {
        s
    } else {
        advance_spec(advance_n(s, (n - 1) as nat))
    }
}

impl MultiSprite {
    /// The index never runs past the inactive sentinel and the hold counter
    /// stays in `[0, max(gap, 0)]`.
    pub open spec fn wf(&self) -> bool {
        &&& self.current_texture <= self.frames.len()
        &&& 0 <= self.c_gap
        &&& self.c_gap <= (if self.gap >= 0 {
            self.gap as int
        } else {
            0
        })
    }

    pub fn new(frames: Vec<Frame>, current_texture: usize, x: i32, y: i32, gap: i32) -> (r:
        MultiSprite)
        ensures
            r.frames == frames,
            r.current_texture == current_texture,
            r.x == x,
            r.y == y,
            r.gap == gap,
            r.c_gap == 0,
    {
        MultiSprite { frames, current_texture, x, y, gap, c_gap: 0 }
    }

    /// Whether a frame is currently showing (the index is in range).
    pub fn active(&self) -> (r: bool)
        ensures
            r == (self.current_texture < self.frames.len()),
    {
        self.current_texture < self.frames.len()
    }

    /// Directly sets the current index (scripted transitions, e.g. showing
    /// a cracked variant of the sprite).
    pub fn set_texture(&mut self, tex: usize)
        ensures
            *final(self) == (MultiSprite { current_texture: tex, ..*old(self) }),
    {
        self.current_texture = tex;
    }

    /// The midpoint of the first frame's extent offset by the position;
    /// `(0, 0)` for an empty frame sequence — a defined degenerate case.
    pub fn center(&self) -> (r: (i32, i32))
        requires
            -0x3fff_ffff <= self.x <= 0x3fff_ffff,
            -0x3fff_ffff <= self.y <= 0x3fff_ffff,
            self.frames.len() > 0 ==> 0 <= self.frames[0].w <= 0x3fff_ffff && 0
                <= self.frames[0].h <= 0x3fff_ffff,
        ensures
            self.frames.len() == 0 ==> r == (0i32, 0i32),
            self.frames.len() > 0 ==> r.0 == self.x + self.frames[0].w / 2 && r.1 == self.y
                + self.frames[0].h / 2,
    {
        if self.frames.len() == 0 {
            (0, 0)
        } else {
            let f = self.frames[0];
            (self.x + f.w / 2, self.y + f.h / 2)
        }
    }

    /// Repositions so the currently indexed frame's extent is centered at
    /// `(x, y)`; an out-of-range index falls back to frame 0's extent, and
    /// an empty frame sequence leaves the position unchanged.
    pub fn set_position_center(&mut self, x: i32, y: i32)
        requires
            -0x3fff_ffff <= x <= 0x3fff_ffff,
            -0x3fff_ffff <= y <= 0x3fff_ffff,
            forall|i: int|
                0 <= i < old(self).frames.len() ==> 0 <= #[trigger] old(self).frames[i].w
                    <= 0x3fff_ffff && 0 <= old(self).frames[i].h <= 0x3fff_ffff,
        ensures
            ({
                let f = if old(self).current_texture < old(self).frames.len() {
                    old(self).frames[old(self).current_texture as int]
                } else {
                    old(self).frames[0]
                };
                if old(self).frames.len() > 0 {
                    *final(self) == (MultiSprite { x: (x - f.w / 2) as i32, y: (y - f.h / 2) as i32, ..*old(self) })
                } else {
                    *final(self) == *old(self)
                }
            }),
    {
        if self.current_texture < self.frames.len() {
            let f = self.frames[self.current_texture];
            self.x = x - f.w / 2;
            self.y = y - f.h / 2;
        } else if self.frames.len() > 0 {
            let f = self.frames[0];
            self.x = x - f.w / 2;
            self.y = y - f.h / 2;
        }
    }

    /// Advances the animation one tick, per `advance_spec`. Well-formedness
    /// is preserved.
    pub fn advance(&mut self)
        requires
            old(self).c_gap < i32::MAX,
            old(self).current_texture < usize::MAX,
        ensures
            *final(self) == advance_spec(*old(self)),
            old(self).wf() ==> final(self).wf(),
    {
        if self.current_texture < self.frames.len() {
            if self.c_gap < self.gap {
                self.c_gap = self.c_gap + 1;
            } else {
                self.current_texture = self.current_texture + 1;
                self.c_gap = 0;
            }
        }
    }

    /// Forces the inactive sentinel index and zeroes the hold counter.
    pub fn make_invisible(&mut self)
        ensures
            *final(self) == (MultiSprite {
                current_texture: old(self).frames.len() as usize,
                c_gap: 0,
                ..*old(self)
            }),
            final(self).wf(),
    {
        self.current_texture = self.frames.len();
        self.c_gap = 0;
    }

    /// Returns to frame 0 and zeroes the hold counter.
    pub fn reset(&mut self)
        ensures
            *final(self) == (MultiSprite { current_texture: 0, c_gap: 0, ..*old(self) }),
            final(self).wf(),
    {
        self.current_texture = 0;
        self.c_gap = 0;
    }
}

/// While the hold counter is filling, the index stays put: from a fresh
/// frame (counter 0), the first `k <= gap` ticks only raise the counter.
pub proof fn lemma_hold_keeps_frame(s: MultiSprite, k: nat)
    requires
        s.current_texture < s.frames.len(),
        s.c_gap == 0,
        0 <= k <= s.gap,
    ensures
        advance_n(s, k).current_texture == s.current_texture,
        advance_n(s, k).c_gap == k,
        advance_n(s, k).frames == s.frames,
        advance_n(s, k).gap == s.gap,
    decreases k,
{
    if k > 0 {
        lemma_hold_keeps_frame(s, (k - 1) as nat);
    }
}

/// Law: each frame is displayed for exactly `gap + 1` ticks — starting a
/// frame with the counter at 0, the next `gap` ticks keep the index, and
/// tick `gap + 1` moves it on with the counter reset.
pub proof fn lemma_frame_period(s: MultiSprite)
    requires
        s.current_texture < s.frames.len(),
        s.c_gap == 0,
        s.gap >= 0,
    ensures
        forall|k: nat|
            k <= s.gap ==> #[trigger] advance_n(s, k).current_texture == s.current_texture,
        advance_n(s, (s.gap + 1) as nat).current_texture == s.current_texture + 1,
        advance_n(s, (s.gap + 1) as nat).c_gap == 0,
{
    assert forall|k: nat| k <= s.gap implies #[trigger] advance_n(s, k).current_texture
        == s.current_texture by {
        lemma_hold_keeps_frame(s, k);
    }
    lemma_hold_keeps_frame(s, s.gap as nat);
}

} // verus!
