use rusty_game::color::Color;
use rusty_game::game::{handle_keys, Game, KeyAction, KeyCode, KeyEvent};
use rusty_game::map::make_map;
use rusty_game::object::Object;
use rusty_game::tile::Tile;

fn blue() -> Color {
    Color::new(0, 0, 255)
}

fn open_game() -> Game {
    Game { map: make_map(80, 45) }
}

#[test]
fn make_map_is_all_ground() {
    let map = make_map(80, 45);
    assert_eq!(map.width(), 80);
    assert_eq!(map.height(), 45);
    for y in 0..45 {
        for x in 0..80 {
            assert_eq!(map.tile(x, y), Tile::empty());
        }
    }
}

#[test]
fn tile_constructors() {
    let e = Tile::empty();
    assert!(!e.blocked && !e.block_sight);
    let w = Tile::wall();
    assert!(w.blocked && w.block_sight);
}

#[test]
fn set_tile_changes_one_cell() {
    let mut map = make_map(4, 3);
    map.set_tile(2, 1, Tile::wall());
    assert_eq!(map.tile(2, 1), Tile::wall());
    assert_eq!(map.tile(1, 2), Tile::empty());
    assert_eq!(map.tile(2, 0), Tile::empty());
    assert!(!map.is_walkable(2, 1));
    assert!(map.is_walkable(1, 2));
    assert!(!map.is_walkable(4, 0));
    assert!(!map.is_walkable(0, -1));
}

#[test]
fn move_right_on_open_map() {
    let game = open_game();
    let mut player = Object::new(39, 19, 'P', blue());
    player.move_to(1, 0, &game);
    assert_eq!((player.x, player.y), (40, 19));
    assert_eq!(player.ch, 'P');
    assert_eq!(player.color, blue());
}

#[test]
fn move_into_wall_is_ignored() {
    let mut map = make_map(80, 45);
    map.set_tile(40, 19, Tile::wall());
    let game = Game { map };
    let mut player = Object::new(39, 19, 'P', blue());
    player.move_to(1, 0, &game);
    assert_eq!((player.x, player.y), (39, 19));
}

#[test]
fn move_off_left_edge_is_ignored() {
    let game = open_game();
    let mut player = Object::new(0, 0, 'P', blue());
    player.move_to(-1, 0, &game);
    assert_eq!((player.x, player.y), (0, 0));
    player.move_to(0, -1, &game);
    assert_eq!((player.x, player.y), (0, 0));
}

#[test]
fn move_off_far_edges_is_ignored() {
    let game = open_game();
    let mut player = Object::new(79, 44, 'P', blue());
    player.move_to(1, 0, &game);
    assert_eq!((player.x, player.y), (79, 44));
    player.move_to(0, 1, &game);
    assert_eq!((player.x, player.y), (79, 44));
}

#[test]
fn every_unit_step_from_the_middle_is_taken() {
    let game = open_game();
    for (dx, dy) in [(1, 0), (-1, 0), (0, 1), (0, -1)] {
        let mut o = Object::new(10, 10, 'E', blue());
        o.move_to(dx, dy, &game);
        assert_eq!((o.x, o.y), (10 + dx, 10 + dy));
    }
}

#[test]
fn extreme_steps_do_not_overflow() {
    let game = open_game();
    let mut o = Object::new(i32::MAX, i32::MIN, 'E', blue());
    o.move_to(i32::MAX, i32::MIN, &game);
    assert_eq!((o.x, o.y), (i32::MAX, i32::MIN));
}

#[test]
fn empty_map_blocks_every_move() {
    let game = Game { map: make_map(0, 0) };
    let mut o = Object::new(0, 0, 'E', blue());
    o.move_to(0, 0, &game);
    assert_eq!((o.x, o.y), (0, 0));
    assert!(!game.map.is_walkable(0, 0));
}

#[test]
fn arrow_keys_move_the_player() {
    let game = open_game();
    let mut player = Object::new(5, 5, 'P', blue());
    let cases = [
        (KeyCode::Up, (5, 4)),
        (KeyCode::Left, (4, 4)),
        (KeyCode::Down, (4, 5)),
        (KeyCode::Right, (5, 5)),
    ];
    for (code, pos) in cases {
        let r = handle_keys(KeyEvent { code, alt: false }, &mut player, &game);
        assert_eq!(r, KeyAction::Continue);
        assert_eq!((player.x, player.y), pos);
    }
}

#[test]
fn arrow_key_into_wall_does_not_move() {
    let mut map = make_map(80, 45);
    map.set_tile(5, 4, Tile::wall());
    let game = Game { map };
    let mut player = Object::new(5, 5, 'P', blue());
    let r = handle_keys(KeyEvent { code: KeyCode::Up, alt: false }, &mut player, &game);
    assert_eq!(r, KeyAction::Continue);
    assert_eq!((player.x, player.y), (5, 5));
}

#[test]
fn quit_key_exits() {
    let game = open_game();
    let mut player = Object::new(39, 19, 'P', blue());
    let r = handle_keys(KeyEvent { code: KeyCode::Escape, alt: false }, &mut player, &game);
    assert_eq!(r, KeyAction::Exit);
    assert_eq!((player.x, player.y), (39, 19));
}

#[test]
fn alt_enter_toggles_fullscreen() {
    let game = open_game();
    let mut player = Object::new(39, 19, 'P', blue());
    let r = handle_keys(KeyEvent { code: KeyCode::Enter, alt: true }, &mut player, &game);
    assert_eq!(r, KeyAction::ToggleFullscreen);
    assert_eq!((player.x, player.y), (39, 19));
}

#[test]
fn other_keys_do_nothing() {
    let game = open_game();
    let mut player = Object::new(39, 19, 'P', blue());
    for key in [
        KeyEvent { code: KeyCode::Enter, alt: false },
        KeyEvent { code: KeyCode::Other, alt: false },
        KeyEvent { code: KeyCode::Other, alt: true },
    ] {
        let r = handle_keys(key, &mut player, &game);
        assert_eq!(r, KeyAction::Continue);
        assert_eq!((player.x, player.y), (39, 19));
    }
}

#[test]
fn map_tiles_are_walls_or_ground() {
    let mut map = make_map(3, 3);
    map.set_tile(1, 1, Tile::wall());
    for y in 0..3 {
        for x in 0..3 {
            let t = map.tile(x, y);
            assert_eq!(t.blocked, t.block_sight);
        }
    }
}
