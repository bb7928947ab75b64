use dodge_core::health::{HealthBar, HP_MAX};

#[test]
fn damage_clamps_at_zero() {
    let mut hb = HealthBar::new(0, 0, 128, 32, 10);
    hb.take_damage(25);
    assert_eq!(hb.hp, 0);
}

#[test]
fn negative_damage_heals_and_clamps_at_full() {
    let mut hb = HealthBar::new(0, 0, 128, 32, 90);
    hb.take_damage(-50);
    assert_eq!(hb.hp, HP_MAX);
}

#[test]
fn set_hp_clamps_both_ends() {
    let mut hb = HealthBar::new(0, 0, 128, 32, 50);
    hb.set_hp(250);
    assert_eq!(hb.hp, HP_MAX);
    hb.set_hp(-3);
    assert_eq!(hb.hp, 0);
    hb.set_hp(76);
    assert_eq!(hb.hp, 76);
}

#[test]
fn damage_then_set_always_lands_in_range() {
    let mut hb = HealthBar::new(0, 0, 128, 32, 100);
    hb.take_damage(1000);
    hb.set_hp(-77);
    assert!(0 <= hb.hp && hb.hp <= HP_MAX);
    hb.take_damage(-1000);
    hb.set_hp(101);
    assert!(0 <= hb.hp && hb.hp <= HP_MAX);
}

#[test]
fn fill_width_is_two_at_zero_health() {
    let hb = HealthBar::new(0, 0, 128, 32, 0);
    assert_eq!(hb.fill_width(), 2);
}

#[test]
fn fill_width_is_full_at_full_health() {
    let hb = HealthBar::new(0, 0, 128, 32, HP_MAX);
    assert_eq!(hb.fill_width(), 128);
}

#[test]
fn fill_width_at_half_health_follows_the_exponent() {
    // floor(128 * 0.5^1.4) = floor of the fifth root of 128^5 / 2^7 = 48.
    let hb = HealthBar::new(0, 0, 128, 32, 50);
    assert_eq!(hb.fill_width(), 48);
}

#[test]
fn fill_width_never_drops_below_two() {
    for hp in 0..=HP_MAX {
        let hb = HealthBar::new(0, 0, 128, 32, hp);
        assert!(hb.fill_width() >= 2);
    }
    let narrow = HealthBar::new(0, 0, 1, 32, HP_MAX);
    assert_eq!(narrow.fill_width(), 2);
}

#[test]
fn set_center_recomputes_top_left() {
    let mut hb = HealthBar::new(0, 0, 128, 32, 100);
    hb.set_center(400, 552);
    assert_eq!(hb.x, 400 - 64);
    assert_eq!(hb.y, 552 - 16);
}
