use dodge_core::game::{move_delta, GamePhase, GameState, InputState, World};
use dodge_core::health::HealthBar;
use dodge_core::movable::MovableSprite;
use dodge_core::multi_sprite::{Frame, MultiSprite};

fn idle_input() -> InputState {
    InputState { up: false, left: false, down: false, right: false, enter: false }
}

fn enter_input() -> InputState {
    InputState { up: false, left: false, down: false, right: false, enter: true }
}

fn full_screen_hazard() -> MovableSprite {
    // A still hazard covering almost the whole play area, so the player's
    // center is always strictly inside it.
    MovableSprite::new(0, 0, 0, 0, 0, 798, 598, 800, 600)
}

fn world(sprites: Vec<MovableSprite>, hp: i32, playing: bool) -> World {
    World {
        hazards: GameState { sprites },
        health: HealthBar::new(0, 0, 128, 32, hp),
        player: MultiSprite::new(vec![Frame { tex: 0, w: 20, h: 20 }], 0, 390, 290, 0),
        i_frames: 0,
        dead_for: 0,
        playing,
        frames_since_play: 0,
        scr_w: 800,
        scr_h: 600,
    }
}

#[test]
fn movement_intent_combines_and_normalizes() {
    let mut inp = idle_input();
    assert_eq!(move_delta(&inp), (0, 0));
    inp.right = true;
    assert_eq!(move_delta(&inp), (5, 0));
    inp.down = true;
    assert_eq!(move_delta(&inp), (4, 4));
    inp.right = false;
    inp.down = false;
    inp.left = true;
    inp.up = true;
    assert_eq!(move_delta(&inp), (-4, -4));
    inp.right = true;
    // Opposite intents cancel.
    assert_eq!(move_delta(&inp), (0, -5));
}

#[test]
fn player_moves_and_clamps_to_the_play_area() {
    let mut w = world(Vec::new(), 100, true);
    let mut inp = idle_input();
    inp.right = true;
    w.tick(inp);
    assert_eq!(w.player.x, 395);
    w.player.x = 779;
    let mut inp2 = idle_input();
    inp2.right = true;
    w.tick(inp2);
    // clamped to scr_w minus the player extent
    assert_eq!(w.player.x, 780);
    w.player.y = 2;
    let mut inp3 = idle_input();
    inp3.up = true;
    w.tick(inp3);
    assert_eq!(w.player.y, 0);
}

#[test]
fn hazards_stay_still_until_playing() {
    let spr = MovableSprite::new(0, 100, 100, 2, 2, 10, 10, 800, 600);
    let mut w = world(vec![spr], 100, false);
    assert_eq!(w.phase(), GamePhase::Idle);
    w.tick(idle_input());
    assert_eq!(w.hazards.sprites[0].x, 100);
    // The start tick already moves them.
    w.tick(enter_input());
    assert_eq!(w.phase(), GamePhase::Playing);
    assert_eq!(w.hazards.sprites[0].x, 102);
}

#[test]
fn three_hits_and_an_invincibility_window() {
    // Health 1.0, hits of 0.08 on every qualifying tick: the counter lets
    // a hit through only every 61st tick, so three hits land at ticks
    // 1, 61 and 121, and no fourth within 60 ticks of the third.
    let mut w = world(vec![full_screen_hazard()], 100, true);
    let fx = w.tick(idle_input());
    assert!(fx.play_hurt);
    assert_eq!(w.health.hp, 92);
    assert_eq!(w.i_frames, 60);
    for t in 2..=120 {
        let fx = w.tick(idle_input());
        assert_eq!(fx.play_hurt, t == 61, "tick {}", t);
    }
    assert_eq!(w.health.hp, 84);
    let fx = w.tick(idle_input());
    assert!(fx.play_hurt);
    assert_eq!(w.health.hp, 76);
    // No further hit registers within the next 59 ticks.
    for t in 122..=180 {
        let fx = w.tick(idle_input());
        assert!(!fx.play_hurt, "tick {}", t);
        assert_eq!(w.health.hp, 76);
    }
}

#[test]
fn death_countdown_breaks_once_and_restart_resets() {
    let mut w = world(vec![full_screen_hazard()], 8, true);
    let fx = w.tick(idle_input());
    assert!(fx.play_hurt);
    assert_eq!(w.health.hp, 0);
    assert_eq!(w.phase(), GamePhase::Dying);
    // 59 dying ticks: countdown runs, nothing breaks yet.
    for _ in 1..60 {
        let fx = w.tick(idle_input());
        assert!(!fx.play_break);
        assert!(!w.show_restart_prompt());
    }
    assert_eq!(w.dead_for, 59);
    let px = w.player.x;
    let py = w.player.y;
    // The 60th dying tick: the one-shot break event.
    let fx = w.tick(idle_input());
    assert!(fx.play_break);
    assert_eq!(w.player.x, px - 4);
    assert_eq!(w.player.y, py - 1);
    assert_eq!(w.player.current_texture, 1);
    assert_eq!(w.phase(), GamePhase::AwaitingRestart);
    assert!(w.show_restart_prompt());
    // It fires exactly once.
    let fx = w.tick(idle_input());
    assert!(!fx.play_break);
    assert_eq!(w.dead_for, 61);
    // Restart: health, counters and the player frame reset.
    w.frames_since_play = 777;
    let fx = w.tick(enter_input());
    assert!(!fx.play_break);
    assert_eq!(w.health.hp, 100);
    assert_eq!(w.dead_for, 0);
    assert_eq!(w.frames_since_play, 0);
    assert_eq!(w.player.current_texture, 0);
    assert_eq!(w.phase(), GamePhase::Playing);
}

#[test]
fn blink_follows_the_duty_cycle() {
    let mut w = world(Vec::new(), 100, true);
    w.i_frames = 0;
    assert!(w.player_visible());
    w.i_frames = 3;
    assert!(w.player_visible()); // 3 / 6 == 0, even
    w.i_frames = 7;
    assert!(!w.player_visible()); // 7 / 6 == 1, odd
    w.i_frames = 13;
    assert!(w.player_visible()); // 13 / 6 == 2, even
    w.health.set_hp(0);
    w.i_frames = 7;
    assert!(w.player_visible()); // always drawn while dead
}

#[test]
fn survival_timer_counts_playing_ticks() {
    let mut w = world(Vec::new(), 100, true);
    for _ in 0..150 {
        w.tick(idle_input());
    }
    assert_eq!(w.frames_since_play, 150);
    assert_eq!(w.survived_seconds(), 2);
    // Not while idle.
    let mut idle = world(Vec::new(), 100, false);
    idle.tick(idle_input());
    assert_eq!(idle.frames_since_play, 0);
    assert!(idle.show_start_prompt());
}

#[test]
fn start_prompt_only_before_playing() {
    let mut w = world(Vec::new(), 100, false);
    assert!(w.show_start_prompt());
    w.tick(enter_input());
    assert!(!w.show_start_prompt());
}

#[test]
fn hazard_collection_updates_every_sprite() {
    let a = MovableSprite::new(0, 10, 10, 3, 0, 10, 10, 800, 600);
    let b = MovableSprite::new(1, 2, 50, -5, 2, 10, 10, 800, 600);
    let mut gs = GameState { sprites: vec![a, b] };
    gs.update_all();
    assert_eq!((gs.sprites[0].x, gs.sprites[0].y), (13, 10));
    // The second sprite bounces off the left bound.
    assert_eq!((gs.sprites[1].x, gs.sprites[1].dx), (7, 5));
    assert!(gs.any_collides(14, 15));
    assert!(!gs.any_collides(400, 400));
}
