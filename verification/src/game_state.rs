use vstd::prelude::*;

verus! {

/// The screens the game moves between.
#[derive(Clone, Copy, Debug, PartialEq, Eq, Structural, Hash)]
pub enum GameState {
    BeforeInitialize,
    TitleMenu,
    InGame,
}

impl Default for GameState {
    fn default() -> (s: Self)
        ensures
            s == GameState::BeforeInitialize,
    {
        GameState::BeforeInitialize
    }
}

/// What the title screen does with a frame's key presses.
#[derive(Clone, Copy, Debug, PartialEq, Eq, Structural)]
pub struct TitleAction {
    /// Whether the application is asked to quit.
    pub exit: bool,
    /// The state to move to, if any.
    pub next_state: Option<GameState>,
}

/// The title screen's reaction: Escape quits, Z starts a game.
pub fn title_key_input(escape_just_pressed: bool, z_just_pressed: bool) -> (action: TitleAction)
    ensures
        action.exit == escape_just_pressed,
        action.next_state == (if z_just_pressed {
            Some(GameState::InGame)
        } else {
            None::<GameState>
        }),
{
    let next_state = if z_just_pressed {
        Some(GameState::InGame)
    } else {
        None
    };
    TitleAction { exit: escape_just_pressed, next_state }
}

/// The state asked for while the game initializes: the title screen.
pub fn go_title() -> (next: GameState)
    ensures
        next == GameState::TitleMenu,
{
    GameState::TitleMenu
}

/// Escape, in any state, goes back to the title screen.
pub fn reset_button(escape_just_pressed: bool) -> (next: Option<GameState>)
    ensures
        next == (if escape_just_pressed {
            Some(GameState::TitleMenu)
        } else {
            None::<GameState>
        }),
{
    if escape_just_pressed {
        Some(GameState::TitleMenu)
    } else {
        None
    }
}

} // verus!
