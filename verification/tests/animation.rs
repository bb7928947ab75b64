use dodge_core::game::explosion_step;
use dodge_core::multi_sprite::{Frame, MultiSprite};

fn frames3() -> Vec<Frame> {
    vec![
        Frame { tex: 0, w: 16, h: 16 },
        Frame { tex: 1, w: 16, h: 16 },
        Frame { tex: 2, w: 16, h: 16 },
    ]
}

#[test]
fn each_frame_lasts_hold_plus_one_ticks() {
    // frames [A, B, C], hold 2: two ticks only raise the counter, the
    // third advances the frame and resets it.
    let mut spr = MultiSprite::new(frames3(), 0, 0, 0, 2);
    spr.advance();
    assert_eq!((spr.current_texture, spr.c_gap), (0, 1));
    spr.advance();
    assert_eq!((spr.current_texture, spr.c_gap), (0, 2));
    spr.advance();
    assert_eq!((spr.current_texture, spr.c_gap), (1, 0));
    // The full period is hold + 1 = 3 ticks per frame.
    for _ in 0..3 {
        spr.advance();
    }
    assert_eq!((spr.current_texture, spr.c_gap), (2, 0));
    for _ in 0..3 {
        spr.advance();
    }
    assert_eq!((spr.current_texture, spr.c_gap), (3, 0));
}

#[test]
fn advance_is_a_no_op_once_inactive() {
    let mut spr = MultiSprite::new(frames3(), 3, 5, 7, 2);
    assert!(!spr.active());
    spr.advance();
    assert_eq!(spr.current_texture, 3);
    assert_eq!(spr.c_gap, 0);
}

#[test]
fn active_means_index_in_range() {
    let mut spr = MultiSprite::new(frames3(), 2, 0, 0, 1);
    assert!(spr.active());
    spr.make_invisible();
    assert!(!spr.active());
    assert_eq!(spr.current_texture, 3);
    spr.reset();
    assert!(spr.active());
    assert_eq!((spr.current_texture, spr.c_gap), (0, 0));
}

#[test]
fn center_uses_the_first_frame() {
    let spr = MultiSprite::new(frames3(), 2, 100, 200, 1);
    assert_eq!(spr.center(), (108, 208));
}

#[test]
fn center_of_empty_sprite_is_origin() {
    let spr = MultiSprite::new(Vec::new(), 0, 100, 200, 1);
    assert_eq!(spr.center(), (0, 0));
}

#[test]
fn set_position_center_uses_current_frame() {
    let mut frames = frames3();
    frames[1].w = 32;
    frames[1].h = 8;
    let mut spr = MultiSprite::new(frames, 1, 0, 0, 1);
    spr.set_position_center(100, 100);
    assert_eq!((spr.x, spr.y), (100 - 16, 100 - 4));
}

#[test]
fn set_position_center_falls_back_to_frame_zero_when_out_of_range() {
    let mut spr = MultiSprite::new(frames3(), 9, 0, 0, 1);
    spr.set_position_center(100, 100);
    assert_eq!((spr.x, spr.y), (92, 92));
}

#[test]
fn set_texture_switches_the_index() {
    let mut spr = MultiSprite::new(frames3(), 0, 0, 0, 1);
    spr.set_texture(2);
    assert_eq!(spr.current_texture, 2);
}

#[test]
fn explosion_step_recenters_and_restarts_on_press() {
    let mut spr = MultiSprite::new(frames3(), 3, 0, 0, 0);
    explosion_step(&mut spr, false, 0, 0);
    assert_eq!(spr.current_texture, 3); // inactive: advance is a no-op
    explosion_step(&mut spr, true, 50, 60);
    assert_eq!((spr.current_texture, spr.c_gap), (0, 0));
    assert_eq!((spr.x, spr.y), (50 - 8, 60 - 8));
}
