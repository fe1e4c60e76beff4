use gshot::game_state::{go_title, reset_button, title_key_input, GameState};
use gshot::game_clear::{EndSound, GameClear};

#[test]
fn initial_state() {
    assert_eq!(GameState::default(), GameState::BeforeInitialize);
    assert_eq!(go_title(), GameState::TitleMenu);
}

#[test]
fn title_keys() {
    let a = title_key_input(false, true);
    assert!(!a.exit);
    assert_eq!(a.next_state, Some(GameState::InGame));
    let a = title_key_input(true, false);
    assert!(a.exit);
    assert_eq!(a.next_state, None);
    let a = title_key_input(false, false);
    assert!(!a.exit);
    assert_eq!(a.next_state, None);
}

#[test]
fn escape_returns_to_title() {
    assert_eq!(reset_button(true), Some(GameState::TitleMenu));
    assert_eq!(reset_button(false), None);
}

#[test]
fn cleared_game_sequence() {
    let mut g = GameClear::new(true);
    assert!(g.waits_for_tips(true));
    assert!(!g.waits_for_tips(false));
    let a = g.step(false, false, false);
    assert!(!a.spawn_wipes && a.sound.is_none() && !a.finish);
    let a = g.step(true, false, false);
    assert!(a.spawn_wipes && a.spawn_logo);
    let a = g.step(true, true, false);
    assert!(!a.spawn_wipes && !a.spawn_logo);
    assert_eq!(a.sound, Some(EndSound::Fanfare));
    let a = g.step(true, true, true);
    assert_eq!(a.sound, None);
    assert!(a.finish);
}

#[test]
fn game_over_sequence() {
    let mut g = GameClear::new(false);
    assert!(!g.waits_for_tips(true));
    let a = g.step(true, true, false);
    assert!(a.spawn_wipes);
    assert!(!a.spawn_logo);
    assert_eq!(a.sound, Some(EndSound::GameOver));
}
