use bomb_arena::config::{read_map, MapError};
use bomb_arena::grid::{
    tile_centre, Tile, TileMap, TileStatus, ARENA_HEIGHT, ARENA_WIDTH, TILE_COUNT_HORIZONTAL,
    TILE_COUNT_VERTICAL,
};

fn map_text(rows: &[&str]) -> String {
    let mut s = String::new();
    for r in rows {
        s.push_str(r);
        s.push('\n');
    }
    s
}

fn free_rows() -> Vec<String> {
    (0..TILE_COUNT_VERTICAL).map(|_| "-".repeat(TILE_COUNT_HORIZONTAL)).collect()
}

#[test]
fn tile_centre_maps_to_its_tile() {
    let map = TileMap::default();
    for col in 0..TILE_COUNT_HORIZONTAL {
        for row in 0..TILE_COUNT_VERTICAL {
            let (x, y) = tile_centre(col, row);
            let tile = map.get_tile(x, y).unwrap();
            assert_eq!(tile.coordinates, [col, row]);
            assert_eq!(tile, map.get_tile_by_key(col, row));
        }
    }
}

#[test]
fn tile_centre_values() {
    assert_eq!(tile_centre(0, 0), (80, 80));
    assert_eq!(tile_centre(12, 10), (12 * 160 + 80, 10 * 160 + 80));
}

#[test]
fn get_tile_floors_and_rejects_outside() {
    let map = TileMap::default();
    assert_eq!(map.get_tile(159, 0).unwrap().coordinates, [0, 0]);
    assert_eq!(map.get_tile(160, 0).unwrap().coordinates, [1, 0]);
    assert_eq!(map.get_tile(0, 319).unwrap().coordinates, [0, 1]);
    assert_eq!(map.get_tile(ARENA_WIDTH - 1, ARENA_HEIGHT - 1).unwrap().coordinates, [12, 10]);
    assert_eq!(map.get_tile(-1, 0), None);
    assert_eq!(map.get_tile(0, -1), None);
    assert_eq!(map.get_tile(ARENA_WIDTH, 0), None);
    assert_eq!(map.get_tile(0, ARENA_HEIGHT), None);
}

#[test]
fn update_tile_changes_one_cell() {
    let mut map = TileMap::default();
    map.update_tile(4, 7, TileStatus::Wall);
    assert_eq!(map.get_tile_by_key(4, 7), Tile { status: TileStatus::Wall, coordinates: [4, 7] });
    assert_eq!(map.get_tile_by_key(4, 6).status, TileStatus::Free);
    assert_eq!(map.get_tile_by_key(7, 4).status, TileStatus::Free);
}

#[test]
fn all_free_map_round_trip() {
    let rows = free_rows();
    let refs: Vec<&str> = rows.iter().map(|s| s.as_str()).collect();
    let text = map_text(&refs);
    let map = read_map(text.as_bytes()).unwrap();
    for col in 0..TILE_COUNT_HORIZONTAL {
        for row in 0..TILE_COUNT_VERTICAL {
            let tile = map.get_tile_by_key(col, row);
            assert_eq!(tile, Tile { status: TileStatus::Free, coordinates: [col, row] });
        }
    }
}

#[test]
fn read_map_symbols() {
    let mut rows = free_rows();
    rows[0] = "#0-----------".to_string();
    rows[10] = "------------#".to_string();
    let refs: Vec<&str> = rows.iter().map(|s| s.as_str()).collect();
    let text = map_text(&refs);
    let map = read_map(text.as_bytes()).unwrap();
    assert_eq!(map.get_tile_by_key(0, 0).status, TileStatus::PermanentWall);
    assert_eq!(map.get_tile_by_key(1, 0).status, TileStatus::Wall);
    assert_eq!(map.get_tile_by_key(2, 0).status, TileStatus::Free);
    assert_eq!(map.get_tile_by_key(12, 10).status, TileStatus::PermanentWall);
}

#[test]
fn read_map_without_final_line_feed() {
    let rows = free_rows();
    let text = rows.join("\n");
    assert!(read_map(text.as_bytes()).is_ok());
}

#[test]
fn read_map_unknown_symbol() {
    let mut rows = free_rows();
    rows[2] = "---x----y----".to_string();
    let refs: Vec<&str> = rows.iter().map(|s| s.as_str()).collect();
    let text = map_text(&refs);
    assert_eq!(
        read_map(text.as_bytes()).err(),
        Some(MapError::UnknownSymbol { col: 3, row: 2, symbol: b'x' })
    );
}

#[test]
fn read_map_bad_shape() {
    let rows = free_rows();
    let refs: Vec<&str> = rows.iter().take(10).map(|s| s.as_str()).collect();
    assert_eq!(read_map(map_text(&refs).as_bytes()).err(), Some(MapError::BadShape));

    let mut long = free_rows();
    long[0] = "--------------".to_string();
    long[1] = "------------".to_string();
    let refs: Vec<&str> = long.iter().map(|s| s.as_str()).collect();
    assert_eq!(read_map(map_text(&refs).as_bytes()).err(), Some(MapError::BadShape));

    assert_eq!(read_map(b"").err(), Some(MapError::BadShape));
}
