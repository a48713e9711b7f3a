use vstd::prelude::*;

use crate::map::TileMap;
use crate::object::Object;

verus! {

/// The state of a running game: its map.
pub struct Game {
    pub map: TileMap,
}

/// The keys the game tells apart; every other key is `Other`.
#[derive(Clone, Copy, Debug, PartialEq, Eq, Structural)]
pub enum KeyCode {
    Enter,
    Escape,
    Up,
    Down,
    Left,
    Right,
    Other,
}

/// One key press: which key, and whether alt was held.
#[derive(Clone, Copy, Debug, PartialEq, Eq, Structural)]
pub struct KeyEvent {
    pub code: KeyCode,
    pub alt: bool,
}

/// What the game loop does after a key press has been handled.
#[derive(Clone, Copy, Debug, PartialEq, Eq, Structural)]
pub enum KeyAction {
    /// Go on to the next frame.
    Continue,
    /// Switch between windowed and full screen, then go on.
    ToggleFullscreen,
    /// Leave the loop without rendering again.
    Exit,
}

/// Whether `code` is one of the four arrow keys.
pub open spec fn is_arrow(code: KeyCode) -> bool {
    code == KeyCode::Up || code == KeyCode::Down || code == KeyCode::Left || code
        == KeyCode::Right
}

/// The horizontal part of the step an arrow key asks for.
pub open spec fn arrow_dx(code: KeyCode) -> int {
    match code {
        KeyCode::Left => -1,
        KeyCode::Right => 1,
        _ => 0,
    }
}

/// The vertical part of the step an arrow key asks for; `y` grows downwards.
pub open spec fn arrow_dy(code: KeyCode) -> int {
    match code {
        KeyCode::Up => -1,
        KeyCode::Down => 1,
        _ => 0,
    }
}

/// Handles one key press: alt+Enter asks for full screen to be toggled,
/// Escape asks to quit, an arrow key tries to move the player one cell that
/// way, and any other key does nothing.
pub fn handle_keys(key: KeyEvent, player: &mut Object, game: &Game) -> (r: KeyAction)
    requires
        game.map.wf(),
    ensures
        key.code == KeyCode::Enter && key.alt ==> r == KeyAction::ToggleFullscreen && *final(player)
            == *old(player),
        key.code == KeyCode::Escape ==> r == KeyAction::Exit && *final(player) == *old(player),
        is_arrow(key.code) ==> r == KeyAction::Continue && *final(player) == old(player).moved_by(
            arrow_dx(key.code),
            arrow_dy(key.code),
            game.map,
        ),
        !(key.code == KeyCode::Enter && key.alt) && key.code != KeyCode::Escape && !is_arrow(
            key.code,
        ) ==> r == KeyAction::Continue && *final(player) == *old(player),
{
    match key.code {
        KeyCode::Enter if key.alt => KeyAction::ToggleFullscreen,
        KeyCode::Escape => KeyAction::Exit,
        KeyCode::Up => {
            player.move_to(0, -1, game);
            KeyAction::Continue
        },
        KeyCode::Down => {
            player.move_to(0, 1, game);
            KeyAction::Continue
        },
        KeyCode::Left => {
            player.move_to(-1, 0, game);
            KeyAction::Continue
        },
        KeyCode::Right => {
            player.move_to(1, 0, game);
            KeyAction::Continue
        },
        _ => KeyAction::Continue,
    }
}

} // verus!
