//! Simulation state: the hazard collection, the player with its health
//! meter, the invincibility and death counters, and the per-tick world
//! update with its game-phase transitions
//! (idle, playing, dying, awaiting restart).

use vstd::prelude::*;
use crate::health::{HealthBar, clamp_hp, HP_MAX};
use crate::movable::{MovableSprite, step_spec, contains_strict, small};
use crate::multi_sprite::MultiSprite;
use crate::rng::{gen_range_i32, rng_choice_2, shuffle_sprites};

verus! {

/// Health lost per registered hit, in hundredths.
pub const DAMAGE_PER_HIT: i32 = 8;

/// Ticks of invincibility granted by a hit.
pub const I_FRAMES_PER_HIT: i32 = 60;

/// Length of the death countdown, in ticks.
pub const DEATH_TICKS: i32 = 60;

/// Player speed along a single axis, pixels per tick.
pub const MOVE_SPEED: i32 = 5;

/// Player speed per axis when moving diagonally: the axis share of
/// `MOVE_SPEED` at unit length, rounded to the nearest pixel.
pub const MOVE_SPEED_DIAGONAL: i32 = 4;

/// The per-tick input surface: four directional movement flags and the
/// start/restart flag.
pub struct InputState {
    pub up: bool,
    pub left: bool,
    pub down: bool,
    pub right: bool,
    pub enter: bool,
}

/// Side-effect signals a tick emits for the presentation layer's audio
/// sink.
pub struct TickEffects {
    pub play_hurt: bool,
    pub play_break: bool,
}

/// The hazard sprites.
pub struct GameState {
    pub sprites: Vec<MovableSprite>,
}

impl GameState {
    pub open spec fn all_in_range(&self) -> bool {
        forall|i: int| 0 <= i < self.sprites@.len() ==> (#[trigger] self.sprites@[i]).in_range()
    }

    pub open spec fn all_wf(&self) -> bool {
        forall|i: int| 0 <= i < self.sprites@.len() ==> (#[trigger] self.sprites@[i]).wf()
    }

    /// Advances every sprite one tick.
    pub fn update_all(&mut self)
        requires
            old(self).all_in_range(),
        ensures
            final(self).sprites@.len() == old(self).sprites@.len(),
            forall|i: int|
                0 <= i < old(self).sprites@.len() ==> #[trigger] final(self).sprites@[i]
                    == step_spec(old(self).sprites@[i]),
            old(self).all_wf() ==> final(self).all_wf(),
    {
        let n: usize = self.sprites.len();
        let mut i: usize = 0;
        while i < n
            invariant
                0 <= i <= n,
                n == self.sprites@.len(),
                n == old(self).sprites@.len(),
                old(self).all_in_range(),
                forall|j: int| i <= j < n ==> self.sprites@[j] == old(self).sprites@[j],
                forall|j: int|
                    0 <= j < i ==> #[trigger] self.sprites@[j] == step_spec(
                        old(self).sprites@[j],
                    ),
                forall|j: int|
                    0 <= j < i ==> (old(self).sprites@[j].wf() ==> (
                    #[trigger] self.sprites@[j]).wf()),
            decreases n - i,
        {
            let mut s: MovableSprite = self.sprites[i];
            s.update();
            self.sprites[i] = s;
            i = i + 1;
        }
    }

    /// Whether any hazard strictly contains the point.
    pub fn any_collides(&self, x: i32, y: i32) -> (r: bool)
        ensures
            r == exists|i: int|
                0 <= i < self.sprites@.len() && contains_strict(
                    #[trigger] self.sprites@[i],
                    x as int,
                    y as int,
                ),
    {
        let n: usize = self.sprites.len();
        let mut i: usize = 0;
        while i < n
            invariant
                0 <= i <= n,
                n == self.sprites@.len(),
                forall|j: int|
                    0 <= j < i ==> !contains_strict(#[trigger] self.sprites@[j], x as int, y as int),
            decreases n - i,
        {
            if self.sprites[i].collides(x, y) {
                return true;
            }
            i = i + 1;
        }
        false
    }

    /// Reorders the hazards at random; a one-time setup step that changes
    /// nothing observable, since the sprites are treated uniformly.
    pub fn shuffle(&mut self, rng: &mut rand::rngs::ThreadRng)
        ensures
            final(self).sprites@.len() == old(self).sprites@.len(),
            final(self).sprites@.to_multiset() == old(self).sprites@.to_multiset(),
            old(self).all_in_range() ==> final(self).all_in_range(),
            old(self).all_wf() ==> final(self).all_wf(),
    {
        shuffle_sprites(rng, &mut self.sprites);
        proof {
            broadcast use vstd::seq_lib::group_to_multiset_ensures;

            assert forall|i: int| 0 <= i < self.sprites@.len() implies exists|j: int|
                0 <= j < old(self).sprites@.len() && old(self).sprites@[j] == #[trigger] self.sprites@[i] by {
                let x = self.sprites@[i];
                assert(self.sprites@.contains(x));
                assert(self.sprites@.to_multiset().count(x) > 0);
                assert(old(self).sprites@.to_multiset().count(x) > 0);
                assert(old(self).sprites@.contains(x));
                let j = choose|j: int| 0 <= j < old(self).sprites@.len() && old(self).sprites@[j] == x;
                assert(0 <= j < old(self).sprites@.len() && old(self).sprites@[j] == x);
            }
        }
    }
}

/// Creates one hazard at a random in-bounds position (the whole box inside
/// the play area, so the bounce invariant holds from birth) with a random
/// sign on each velocity axis. `tex` is the texture handle and `(w, h)` its
/// extent.
pub fn preconstruct_sprite(scr_w: i32, scr_h: i32, tex: usize, w: i32, h: i32, rng: &mut rand::rngs::ThreadRng, default_vel: i32) -> (r: MovableSprite)
    requires
        0 <= w,
        0 <= h,
        0 <= default_vel,
        w + 2 * default_vel <= scr_w - 2,
        h + 2 * default_vel <= scr_h - 2,
        scr_w <= 0x3fff_ffff,
        scr_h <= 0x3fff_ffff,
    ensures
        r.wf(),
        0 <= r.x <= scr_w - w - 1,
        0 <= r.y <= scr_h - h - 1,
        r.dx == default_vel || r.dx == -default_vel,
        r.dy == default_vel || r.dy == -default_vel,
        r.tex == tex,
        r.w == w,
        r.h == h,
        r.scr_w == scr_w,
        r.scr_h == scr_h,
{
    let x: i32 = gen_range_i32(rng, 0, scr_w - w);
    let y: i32 = gen_range_i32(rng, 0, scr_h - h);
    let dx: i32 = rng_choice_2(rng, -default_vel, default_vel);
    let dy: i32 = rng_choice_2(rng, -default_vel, default_vel);
    MovableSprite::new(tex, x, y, dx, dy, w, h, scr_w, scr_h)
}

/// One step of a click-triggered effect animation: the animation advances,
/// and a press recenters it on the pointer and restarts it from frame 0.
pub fn explosion_step(spr: &mut MultiSprite, pressed: bool, x: i32, y: i32)
    requires
        old(spr).c_gap < i32::MAX,
        old(spr).current_texture < usize::MAX,
        -0x3fff_ffff <= x <= 0x3fff_ffff,
        -0x3fff_ffff <= y <= 0x3fff_ffff,
        forall|i: int|
            0 <= i < old(spr).frames@.len() ==> 0 <= (#[trigger] old(spr).frames@[i]).w
                <= 0x3fff_ffff && 0 <= old(spr).frames@[i].h <= 0x3fff_ffff,
    ensures
        ({
            let a = crate::multi_sprite::advance_spec(*old(spr));
            if !pressed {
                *final(spr) == a
            } else if a.frames@.len() == 0 {
                *final(spr) == (MultiSprite { current_texture: 0, c_gap: 0, ..a })
            } else {
                let f = if a.current_texture < a.frames@.len() {
                    a.frames@[a.current_texture as int]
                } else {
                    a.frames@[0]
                };
                *final(spr) == (MultiSprite {
                    current_texture: 0,
                    c_gap: 0,
                    x: (x - f.w / 2) as i32,
                    y: (y - f.h / 2) as i32,
                    ..a
                })
            }
        }),
{
    spr.advance();
    if pressed {
        spr.set_position_center(x, y);
        spr.reset();
    }
}

/// The top-level game phase.
#[derive(Clone, Copy, Debug, PartialEq, Eq)]
pub enum GamePhase {
    /// Start has not been pressed.
    Idle,
    /// Hazards move, collisions damage, the player can move.
    Playing,
    /// Health reached zero; the death countdown runs.
    Dying,
    /// The countdown finished; a restart input returns to playing.
    AwaitingRestart,
}

/// The whole per-tick simulation state.
pub struct World {
    pub hazards: GameState,
    pub health: HealthBar,
    pub player: MultiSprite,
    /// Ticks of invincibility left; collisions register only at zero.
    pub i_frames: i32,
    /// Ticks since health reached zero, held just past the countdown once
    /// it has run out.
    pub dead_for: i32,
    pub playing: bool,
    /// Ticks survived in the current run.
    pub frames_since_play: i32,
    pub scr_w: i32,
    pub scr_h: i32,
}

pub open spec fn clamp_spec(v: int, lo: int, hi: int) -> int
    recommends
        lo <= hi,
{
    if v < lo {
        lo
    } else if v > hi {
        hi
    } else {
        v
    }
}

pub fn clamp_i32(v: i32, lo: i32, hi: i32) -> (r: i32)
    requires
        lo <= hi,
    ensures
        r == clamp_spec(v as int, lo as int, hi as int),
{
    if v < lo {
        lo
    } else if v > hi {
        hi
    } else {
        v
    }
}

/// Movement intent combined into a per-axis velocity. Zero intent means no
/// movement (never a division by a zero-length vector); a single axis moves
/// at `MOVE_SPEED`, a diagonal at `MOVE_SPEED_DIAGONAL` per axis, the
/// rounded normalized speed.
pub open spec fn move_delta_spec(inp: InputState) -> (int, int) {
    let ix: int = (if inp.right {
        1int
    } else {
        0int
    }) - (if inp.left {
        1int
    } else {
        0int
    });
    let iy: int = (if inp.down {
        1int
    } else {
        0int
    }) - (if inp.up {
        1int
    } else {
        0int
    });
    if ix == 0 && iy == 0 {
        (0int, 0int)
    } else if ix != 0 && iy != 0 {
        ((MOVE_SPEED_DIAGONAL as int) * ix, (MOVE_SPEED_DIAGONAL as int) * iy)
    } else {
        ((MOVE_SPEED as int) * ix, (MOVE_SPEED as int) * iy)
    }
}

pub fn move_delta(inp: &InputState) -> (r: (i32, i32))
    ensures
        r.0 == move_delta_spec(*inp).0,
        r.1 == move_delta_spec(*inp).1,
{
    let ix: i32 = (if inp.right {
        1
    } else {
        0
    }) - (if inp.left {
        1
    } else {
        0
    });
    let iy: i32 = (if inp.down {
        1
    } else {
        0
    }) - (if inp.up {
        1
    } else {
        0
    });
    if ix == 0 && iy == 0 {
        (0, 0)
    } else if ix != 0 && iy != 0 {
        (MOVE_SPEED_DIAGONAL * ix, MOVE_SPEED_DIAGONAL * iy)
    } else {
        (MOVE_SPEED * ix, MOVE_SPEED * iy)
    }
}

/// The invincibility counter after its per-tick decrement.
pub open spec fn spec_i_frames_dec(w: World) -> int {
    if w.i_frames > 0 {
        w.i_frames - 1
    } else {
        0
    }
}

/// The playing flag after the start input is folded in.
pub open spec fn spec_playing_after(w: World, inp: InputState) -> bool {
    w.playing || inp.enter
}

/// The player position after the movement stage: moved by the combined
/// intent and clamped to the play area minus the player extent; only while
/// alive and already playing this tick.
pub open spec fn spec_player_moved(w: World, inp: InputState) -> (int, int) {
    if w.health.hp > 0 && w.playing {
        let d = move_delta_spec(inp);
        (
            clamp_spec(w.player.x + d.0, 0, w.scr_w - w.player.frames@[0].w),
            clamp_spec(w.player.y + d.1, 0, w.scr_h - w.player.frames@[0].h),
        )
    } else {
        (w.player.x as int, w.player.y as int)
    }
}

/// Hazards advance only while alive and playing (start counts this tick).
pub open spec fn spec_hazards_move(w: World, inp: InputState) -> bool {
    w.health.hp > 0 && spec_playing_after(w, inp)
}

/// Hazard `i` after the tick.
pub open spec fn spec_hazard_after(w: World, inp: InputState, i: int) -> MovableSprite {
    if spec_hazards_move(w, inp) {
        step_spec(w.hazards.sprites@[i])
    } else {
        w.hazards.sprites@[i]
    }
}

/// The player's center after the movement stage (frame 0 extent).
pub open spec fn spec_center_after(w: World, inp: InputState) -> (int, int) {
    let p = spec_player_moved(w, inp);
    (p.0 + w.player.frames@[0].w / 2, p.1 + w.player.frames@[0].h / 2)
}

/// A hit registers when alive, out of invincibility after the decrement,
/// playing, and some updated hazard strictly contains the player's center.
pub open spec fn spec_hit(w: World, inp: InputState) -> bool {
    &&& w.health.hp > 0
    &&& spec_i_frames_dec(w) == 0
    &&& spec_playing_after(w, inp)
    &&& exists|i: int|
        0 <= i < w.hazards.sprites@.len() && contains_strict(
            #[trigger] spec_hazard_after(w, inp, i),
            spec_center_after(w, inp).0,
            spec_center_after(w, inp).1,
        )
}

/// The death counter after its increment (it parks one past the countdown).
pub open spec fn spec_dead1(w: World) -> int {
    if w.dead_for <= DEATH_TICKS {
        w.dead_for + 1
    } else {
        w.dead_for as int
    }
}

/// The one-shot break event: the death counter reaches the countdown's end
/// this very tick.
pub open spec fn spec_broke(w: World) -> bool {
    w.health.hp <= 0 && spec_dead1(w) == DEATH_TICKS
}

/// A restart registers once the countdown has run out and start is pressed.
pub open spec fn spec_restart(w: World, inp: InputState) -> bool {
    w.health.hp <= 0 && spec_dead1(w) >= DEATH_TICKS && inp.enter
}

pub open spec fn spec_hp_after(w: World, inp: InputState) -> int {
    if spec_hit(w, inp) {
        clamp_hp(w.health.hp - DAMAGE_PER_HIT)
    } else if spec_restart(w, inp) {
        HP_MAX as int
    } else {
        w.health.hp as int
    }
}

pub open spec fn spec_i_frames_after(w: World, inp: InputState) -> int {
    if spec_hit(w, inp) {
        I_FRAMES_PER_HIT as int
    } else {
        spec_i_frames_dec(w)
    }
}

pub open spec fn spec_dead_for_after(w: World, inp: InputState) -> int {
    if w.health.hp > 0 {
        w.dead_for as int
    } else if spec_restart(w, inp) {
        0
    } else {
        spec_dead1(w)
    }
}

pub open spec fn spec_fsp_after(w: World, inp: InputState) -> int {
    if spec_restart(w, inp) {
        0
    } else if w.playing && w.health.hp > 0 {
        w.frames_since_play + 1
    } else {
        w.frames_since_play as int
    }
}

pub open spec fn spec_player_tex_after(w: World, inp: InputState) -> int {
    if w.health.hp > 0 {
        w.player.current_texture as int
    } else if spec_restart(w, inp) {
        0
    } else if spec_broke(w) {
        1
    } else {
        w.player.current_texture as int
    }
}

/// The death nudge, saturating at the coordinate range bound.
pub open spec fn spec_nudge(v: int, by: int) -> int {
    if v >= -0x3fff_ffff + by {
        v - by
    } else {
        v
    }
}

pub open spec fn spec_player_pos_after(w: World, inp: InputState) -> (int, int) {
    if w.health.hp > 0 {
        spec_player_moved(w, inp)
    } else if spec_broke(w) {
        (spec_nudge(w.player.x as int, 4), spec_nudge(w.player.y as int, 1))
    } else {
        (w.player.x as int, w.player.y as int)
    }
}

impl World {
    pub open spec fn wf(&self) -> bool {
        &&& self.health.wf()
        &&& 0 <= self.i_frames <= I_FRAMES_PER_HIT
        &&& 0 <= self.dead_for <= DEATH_TICKS + 1
        &&& 0 <= self.frames_since_play
        &&& self.player.wf()
        &&& self.player.frames@.len() >= 1
        &&& forall|i: int|
            0 <= i < self.player.frames@.len() ==> 0 <= (#[trigger] self.player.frames@[i]).w
                <= 0x3fff_ffff && 0 <= self.player.frames@[i].h <= 0x3fff_ffff
        &&& self.player.frames@[0].w <= self.scr_w
        &&& self.player.frames@[0].h <= self.scr_h
        &&& 1 <= self.scr_w <= 0x3fff_ffff
        &&& 1 <= self.scr_h <= 0x3fff_ffff
        &&& small(self.player.x as int)
        &&& small(self.player.y as int)
        &&& self.hazards.all_wf()
    }

    /// The current phase, read off the counters.
    pub open spec fn phase_spec(&self) -> GamePhase {
        if !self.playing {
            GamePhase::Idle
        } else if self.health.hp > 0 {
            GamePhase::Playing
        } else if self.dead_for < DEATH_TICKS {
            GamePhase::Dying
        } else {
            GamePhase::AwaitingRestart
        }
    }

    pub fn phase(&self) -> (r: GamePhase)
        ensures
            r == self.phase_spec(),
    {
        if !self.playing {
            GamePhase::Idle
        } else if self.health.hp > 0 {
            GamePhase::Playing
        } else if self.dead_for < DEATH_TICKS {
            GamePhase::Dying
        } else {
            GamePhase::AwaitingRestart
        }
    }

    /// The duty-cycle blink: while invincible the player is drawn only on
    /// ticks where `(counter / 6) mod 2 == 0`; always drawn when dead or
    /// out of invincibility.
    pub fn player_visible(&self) -> (r: bool)
        requires
            self.i_frames >= 0,
        ensures
            r == (self.health.hp <= 0 || self.i_frames == 0 || (self.i_frames / 6) % 2 == 0),
    {
        if self.health.hp <= 0 {
            true
        } else if self.i_frames == 0 {
            true
        } else {
            (self.i_frames / 6) % 2 == 0
        }
    }

    /// Whether the start prompt shows: alive but not yet playing.
    pub fn show_start_prompt(&self) -> (r: bool)
        ensures
            r == (self.health.hp > 0 && !self.playing),
    {
        self.health.hp > 0 && !self.playing
    }

    /// Whether the survival text and restart prompt show: dead, countdown
    /// finished.
    pub fn show_restart_prompt(&self) -> (r: bool)
        ensures
            r == (self.health.hp <= 0 && self.dead_for >= DEATH_TICKS),
    {
        self.health.hp <= 0 && self.dead_for >= DEATH_TICKS
    }

    /// Seconds survived in the current run, at the 60 ticks/second cadence.
    pub fn survived_seconds(&self) -> (r: i32)
        requires
            self.frames_since_play >= 0,
        ensures
            r == self.frames_since_play as int / 60,
    {
        self.frames_since_play / 60
    }

    /// One simulation tick. Every field of the new world, and both effect
    /// signals, are pinned by the `spec_..._after` functions above;
    /// well-formedness is preserved.
    pub fn tick(&mut self, inp: InputState) -> (fx: TickEffects)
        requires
            old(self).wf(),
            old(self).frames_since_play < 0x7fff_ffff,
        ensures
            fx.play_hurt == spec_hit(*old(self), inp),
            fx.play_break == spec_broke(*old(self)),
            final(self).playing == spec_playing_after(*old(self), inp),
            final(self).health.hp == spec_hp_after(*old(self), inp),
            final(self).health.x == old(self).health.x,
            final(self).health.y == old(self).health.y,
            final(self).health.w == old(self).health.w,
            final(self).health.h == old(self).health.h,
            final(self).i_frames == spec_i_frames_after(*old(self), inp),
            final(self).dead_for == spec_dead_for_after(*old(self), inp),
            final(self).frames_since_play == spec_fsp_after(*old(self), inp),
            final(self).player.frames == old(self).player.frames,
            final(self).player.gap == old(self).player.gap,
            final(self).player.c_gap == old(self).player.c_gap,
            final(self).player.current_texture == spec_player_tex_after(*old(self), inp),
            final(self).player.x == spec_player_pos_after(*old(self), inp).0,
            final(self).player.y == spec_player_pos_after(*old(self), inp).1,
            final(self).hazards.sprites@.len() == old(self).hazards.sprites@.len(),
            forall|i: int|
                0 <= i < old(self).hazards.sprites@.len()
                    ==> #[trigger] final(self).hazards.sprites@[i] == spec_hazard_after(
                    *old(self),
                    inp,
                    i,
                ),
            final(self).scr_w == old(self).scr_w,
            final(self).scr_h == old(self).scr_h,
            old(self).hazards.all_wf() ==> final(self).hazards.all_wf(),
            final(self).wf(),
    {
        let mut fx = TickEffects { play_hurt: false, play_break: false };
        if self.i_frames > 0 {
            self.i_frames = self.i_frames - 1;
        }
        let was_playing: bool = self.playing;
        let alive: bool = self.health.hp > 0;
        if was_playing && alive {
            self.frames_since_play = self.frames_since_play + 1;
        }
        if alive && was_playing {
            let d: (i32, i32) = move_delta(&inp);
            let w0: i32 = self.player.frames[0].w;
            let h0: i32 = self.player.frames[0].h;
            self.player.x = clamp_i32(self.player.x + d.0, 0, self.scr_w - w0);
            self.player.y = clamp_i32(self.player.y + d.1, 0, self.scr_h - h0);
        }
        if inp.enter {
            self.playing = true;
        }
        if alive {
            if self.playing {
                self.hazards.update_all();
            }
            if self.i_frames == 0 {
                let c: (i32, i32) = self.player.center();
                let collides: bool = self.hazards.any_collides(c.0, c.1);
                proof {
                    let w0 = *old(self);
                    assert(spec_center_after(w0, inp).0 == c.0 as int && spec_center_after(
                        w0,
                        inp,
                    ).1 == c.1 as int);
                    if collides {
                        let i = choose|i: int|
                            0 <= i < self.hazards.sprites@.len() && contains_strict(
                                #[trigger] self.hazards.sprites@[i],
                                c.0 as int,
                                c.1 as int,
                            );
                        assert(self.hazards.sprites@[i] == spec_hazard_after(w0, inp, i));
                        assert(contains_strict(
                            spec_hazard_after(w0, inp, i),
                            spec_center_after(w0, inp).0,
                            spec_center_after(w0, inp).1,
                        ));
                    } else {
                        assert forall|i: int| 0 <= i < w0.hazards.sprites@.len()
                            implies !contains_strict(
                            #[trigger] spec_hazard_after(w0, inp, i),
                            spec_center_after(w0, inp).0,
                            spec_center_after(w0, inp).1,
                        ) by {
                            assert(self.hazards.sprites@[i] == spec_hazard_after(w0, inp, i));
                            assert(!contains_strict(self.hazards.sprites@[i], c.0 as int, c.1 as int));
                        }
                    }
                }
                if collides && self.playing {
                    fx.play_hurt = true;
                    self.i_frames = I_FRAMES_PER_HIT;
                    self.health.take_damage(DAMAGE_PER_HIT);
                }
            }
        } else {
            if self.dead_for <= DEATH_TICKS {
                self.dead_for = self.dead_for + 1;
            }
            if self.dead_for == DEATH_TICKS {
                if self.player.x >= -0x3fff_ffff + 4 {
                    self.player.x = self.player.x - 4;
                }
                if self.player.y >= -0x3fff_ffff + 1 {
                    self.player.y = self.player.y - 1;
                }
                self.player.set_texture(1);
                fx.play_break = true;
            }
            if self.dead_for >= DEATH_TICKS && inp.enter {
                self.health.set_hp(HP_MAX);
                self.dead_for = 0;
                self.player.set_texture(0);
                self.frames_since_play = 0;
            }
        }
        fx
    }
}

} // verus!
