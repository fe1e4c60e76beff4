use gshot::life::{life_slot_visible, Life, INITIAL_LIFE, LIFE_UI_SLOTS};

#[test]
fn new_life_is_three() {
    assert_eq!(Life::new().life, 3);
    assert_eq!(INITIAL_LIFE, 3);
}

#[test]
fn increments_add_up() {
    let mut l = Life::new();
    l.increment(1);
    assert_eq!(l.life, 4);
    l.apply_increments(&vec![1, 1, 2]);
    assert_eq!(l.life, 8);
    l.apply_increments(&vec![]);
    assert_eq!(l.life, 8);
}

#[test]
fn life_icons_show_remaining_lives() {
    let shown: Vec<u32> = (0..LIFE_UI_SLOTS).filter(|&s| life_slot_visible(s, 3)).collect();
    assert_eq!(shown, vec![0, 1, 2]);
    assert!(!life_slot_visible(0, 0));
    assert!(!life_slot_visible(0, -1));
    assert!(life_slot_visible(19, 25));
}

#[test]
fn huge_slot_wraps_negative() {
    assert!(life_slot_visible(u32::MAX, 0));
}

#[test]
fn icon_count_is_clamped_life() {
    for life in [-3, 0, 1, 3, 19, 20, 21, 100] {
        let shown = (0..LIFE_UI_SLOTS).filter(|&s| life_slot_visible(s, life)).count() as i32;
        assert_eq!(shown, life.clamp(0, 20));
    }
}

#[test]
fn huge_increment_reads_as_signed() {
    let mut l = Life::new();
    l.apply_increments(&vec![usize::MAX]);
    assert_eq!(l.life, 3 + (usize::MAX as i32));
    l.increment(usize::MAX);
    assert_eq!(l.life, 3 + 2 * (usize::MAX as i32));
}
