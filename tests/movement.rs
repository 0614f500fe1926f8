use bomb_arena::grid::{TileMap, TileStatus, ARENA_HEIGHT, ARENA_WIDTH};
use bomb_arena::movement::{axis_displacement, move_horizontal, move_vertical, MovementSystem};
use bomb_arena::player::{init_players, Player, PLAYER_HEIGHT_HALF, PLAYER_WIDTH_HALF};

fn human(x: i32, y: i32) -> Player {
    Player { is_human: true, number: 0, num_bombs: 1, x, y }
}

#[test]
fn axis_displacement_values() {
    assert_eq!(axis_displacement(1000), 12);
    assert_eq!(axis_displacement(-1000), -12);
    assert_eq!(axis_displacement(500), 6);
    assert_eq!(axis_displacement(-999), -11);
    assert_eq!(axis_displacement(0), 0);
}

#[test]
fn free_move_commits() {
    let map = TileMap::default();
    assert_eq!(move_horizontal(&map, 80, 80, 12), 92);
    assert_eq!(move_horizontal(&map, 400, 80, -12), 388);
    assert_eq!(move_vertical(&map, 80, 80, 12), 92);
    assert_eq!(move_vertical(&map, 80, 400, -12), 388);
}

#[test]
fn zero_move_is_no_op() {
    let mut map = TileMap::default();
    map.update_tile(0, 0, TileStatus::PermanentWall);
    assert_eq!(move_horizontal(&map, 80, 80, 0), 80);
    assert_eq!(move_vertical(&map, 80, 80, 0), 80);
}

#[test]
fn movement_stays_in_arena() {
    let map = TileMap::default();
    let mut players = vec![human(80, 80)];
    let system = MovementSystem;
    for _ in 0..400 {
        system.run(&map, &mut players, 1000, 1000);
        let p = players[0];
        assert!(p.x as i64 >= PLAYER_WIDTH_HALF && p.x as i64 <= ARENA_WIDTH - PLAYER_WIDTH_HALF);
        assert!(p.y as i64 >= PLAYER_HEIGHT_HALF && p.y as i64 <= ARENA_HEIGHT - PLAYER_HEIGHT_HALF);
    }
    assert_eq!((players[0].x as i64, players[0].y as i64), (ARENA_WIDTH - PLAYER_WIDTH_HALF, ARENA_HEIGHT - PLAYER_HEIGHT_HALF));
    for _ in 0..400 {
        system.run(&map, &mut players, -1000, -1000);
    }
    assert_eq!((players[0].x as i64, players[0].y as i64), (PLAYER_WIDTH_HALF, PLAYER_HEIGHT_HALF));
}

#[test]
fn wall_blocks_move_on_that_axis() {
    let mut map = TileMap::default();
    map.update_tile(1, 0, TileStatus::Wall);
    map.update_tile(0, 1, TileStatus::PermanentWall);
    // Right edge at 140 + 12 + 60 = 212 lies in column 1, a wall.
    assert_eq!(move_horizontal(&map, 140, 80, 12), 140);
    // Top edge at 140 + 12 + 60 = 212 lies in row 1, a permanent wall.
    assert_eq!(move_vertical(&map, 80, 140, 12), 140);
    // Moving away from the walls is allowed.
    assert_eq!(move_horizontal(&map, 140, 80, -12), 128);
}

#[test]
fn straddling_a_wall_corner_blocks() {
    let mut map = TileMap::default();
    map.update_tile(1, 1, TileStatus::Wall);
    // The player spans rows 0 and 1 (y from 150 to 270); moving right samples
    // column 1 at both rows, one of which is a wall.
    assert_eq!(move_horizontal(&map, 90, 210, 12), 90);
    // Fully in row 0 it passes.
    assert_eq!(move_horizontal(&map, 90, 80, 12), 102);
}

#[test]
fn movement_system_moves_only_humans() {
    let map = TileMap::default();
    let mut players = init_players();
    let before = players.clone();
    MovementSystem.run(&map, &mut players, 1000, 0);
    assert_eq!(players[0].x, before[0].x + 12);
    assert_eq!(players[0].y, before[0].y);
    for i in 1..4 {
        assert_eq!(players[i], before[i]);
    }
}

#[test]
fn init_players_corners() {
    let players = init_players();
    assert_eq!(players.len(), 4);
    assert_eq!(players[0], Player { is_human: true, number: 0, num_bombs: 1, x: 60, y: 60 });
    assert_eq!(players[1], Player { is_human: false, number: 1, num_bombs: 1, x: 2020, y: 60 });
    assert_eq!(players[2], Player { is_human: false, number: 2, num_bombs: 1, x: 60, y: 1700 });
    assert_eq!(players[3], Player { is_human: false, number: 3, num_bombs: 1, x: 2020, y: 1700 });
}
