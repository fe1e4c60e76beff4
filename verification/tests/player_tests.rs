use gshot::player::{hit_excluded_by_invisibility, move_input, ShotKind, ShotMarker};
use gshot::hud::{fps_digit, gauge_block_visible, horizontal_line_count};

#[test]
fn shot_names_and_markers() {
    assert_eq!(ShotKind::Straight.sprite_name(), "StraightBullet");
    assert_eq!(ShotKind::LittleSlanting.sprite_name(), "LittleSlantingBullet");
    assert_eq!(ShotKind::Slanting.sprite_name(), "SlantingBullet");
    assert_eq!(ShotKind::Straight.marker(), Some(ShotMarker::Straight));
    assert_eq!(ShotKind::LittleSlanting.marker(), Some(ShotMarker::LittleSlanting));
    assert_eq!(ShotKind::Slanting.marker(), None);
}

#[test]
fn shot_capacity() {
    assert!(ShotKind::Straight.capacity_allows(15));
    assert!(!ShotKind::Straight.capacity_allows(16));
    assert!(ShotKind::LittleSlanting.capacity_allows(10));
    assert!(!ShotKind::LittleSlanting.capacity_allows(11));
    assert!(ShotKind::Slanting.capacity_allows(8));
    assert!(!ShotKind::Slanting.capacity_allows(9));
}

#[test]
fn arrow_keys() {
    let m = move_input(false, true, false, true);
    assert_eq!((m.x, m.y), (1, 1));
    let m = move_input(true, false, true, false);
    assert_eq!((m.x, m.y), (-1, -1));
    let m = move_input(true, true, true, true);
    assert!(m.is_idle());
    assert!(move_input(false, false, false, false).is_idle());
    assert!(!move_input(false, false, true, false).is_idle());
}

#[test]
fn invisibility_rules_out_contact() {
    assert!(hit_excluded_by_invisibility(true, true, false));
    assert!(hit_excluded_by_invisibility(true, false, true));
    assert!(!hit_excluded_by_invisibility(true, false, false));
    assert!(!hit_excluded_by_invisibility(false, true, true));
}

#[test]
fn gauge_blocks() {
    let shown: Vec<usize> = (0..6).filter(|&i| gauge_block_visible(i, 2)).collect();
    assert_eq!(shown, vec![0, 1]);
}

#[test]
fn fps_digits_from_right() {
    assert_eq!(fps_digit(60, 0), '0');
    assert_eq!(fps_digit(60, 1), '6');
    assert_eq!(fps_digit(60, 2), '0');
    assert_eq!(fps_digit(144, 0), '4');
    assert_eq!(fps_digit(144, 2), '1');
    assert_eq!(fps_digit(123_456_789, 0), '9');
}

#[test]
fn background_lines() {
    assert_eq!(horizontal_line_count(16, 704, 512), 22);
    assert_eq!(horizontal_line_count(16, 512, 512), 16);
    assert_eq!(horizontal_line_count(0, 704, 512), 0);
}
