use bomb_arena::blast::{propagate_blast, tile_box};
use bomb_arena::geometry::Aabb;
use bomb_arena::grid::{TileMap, TileStatus};

fn aabb(min_x: i64, min_y: i64, max_x: i64, max_y: i64) -> Aabb {
    Aabb { min_x, min_y, max_x, max_y }
}

#[test]
fn scenario_walls_around_bomb() {
    let mut map = TileMap::default();
    map.update_tile(3, 4, TileStatus::Wall);
    map.update_tile(5, 3, TileStatus::PermanentWall);
    let blast = propagate_blast(&mut map, 3, 3, 2);
    assert_eq!(map.get_tile_by_key(3, 4).status, TileStatus::Free);
    assert_eq!(map.get_tile_by_key(5, 3).status, TileStatus::PermanentWall);
    // Up: rows 3 and 4 of column 3.
    assert_eq!(blast.up, Some(aabb(480, 480, 640, 800)));
    // Right: columns 3 and 4 of row 3, short of the permanent wall.
    assert_eq!(blast.right, Some(aabb(480, 480, 800, 640)));
    assert_eq!(blast.down, Some(aabb(480, 160, 640, 640)));
    assert_eq!(blast.left, Some(aabb(160, 480, 640, 640)));
    assert_eq!(blast.center, aabb(480, 480, 640, 640));
    assert_eq!(blast.cleared, vec![(3, 4)]);
}

#[test]
fn open_blast_has_four_full_arms() {
    let mut map = TileMap::default();
    let blast = propagate_blast(&mut map, 6, 5, 3);
    assert_eq!(blast.up, Some(aabb(960, 800, 1120, 1440)));
    assert_eq!(blast.right, Some(aabb(960, 800, 1600, 960)));
    assert_eq!(blast.down, Some(aabb(960, 320, 1120, 960)));
    assert_eq!(blast.left, Some(aabb(480, 800, 1120, 960)));
    assert_eq!(blast.center, tile_box(6, 5));
    assert_eq!(blast.regions().len(), 4);
    assert!(blast.cleared.is_empty());
    for col in 0..13 {
        for row in 0..11 {
            assert_eq!(map.get_tile_by_key(col, row).status, TileStatus::Free);
        }
    }
}

#[test]
fn destructible_wall_at_step_k_ends_the_arm() {
    let mut map = TileMap::default();
    map.update_tile(6, 7, TileStatus::Wall);
    map.update_tile(6, 8, TileStatus::Wall);
    let blast = propagate_blast(&mut map, 6, 5, 3);
    // Wall at step 2 upward: the arm spans two cells beyond the origin.
    assert_eq!(blast.up, Some(aabb(960, 800, 1120, 1280)));
    assert_eq!(map.get_tile_by_key(6, 7).status, TileStatus::Free);
    // The wall behind it is untouched.
    assert_eq!(map.get_tile_by_key(6, 8).status, TileStatus::Wall);
    assert_eq!(blast.cleared, vec![(6, 7)]);
}

#[test]
fn permanent_wall_blocks_the_arm() {
    let mut map = TileMap::default();
    map.update_tile(7, 5, TileStatus::PermanentWall);
    map.update_tile(8, 5, TileStatus::Wall);
    let blast = propagate_blast(&mut map, 6, 5, 3);
    assert_eq!(blast.right, None);
    assert_eq!(map.get_tile_by_key(7, 5).status, TileStatus::PermanentWall);
    assert_eq!(map.get_tile_by_key(8, 5).status, TileStatus::Wall);
    assert!(blast.cleared.is_empty());
}

#[test]
fn blast_stops_at_grid_edge() {
    let mut map = TileMap::default();
    let blast = propagate_blast(&mut map, 0, 0, 2);
    assert_eq!(blast.down, None);
    assert_eq!(blast.left, None);
    assert_eq!(blast.up, Some(aabb(0, 0, 160, 480)));
    assert_eq!(blast.right, Some(aabb(0, 0, 480, 160)));
    let blast = propagate_blast(&mut map, 12, 10, 4);
    assert_eq!(blast.up, None);
    assert_eq!(blast.right, None);
    assert_eq!(blast.down, Some(aabb(1920, 960, 2080, 1760)));
    assert_eq!(blast.left, Some(aabb(1280, 1600, 2080, 1760)));
}

#[test]
fn blast_partly_past_the_edge_keeps_the_cells_inside() {
    let mut map = TileMap::default();
    let blast = propagate_blast(&mut map, 1, 9, 3);
    assert_eq!(blast.up, Some(aabb(160, 1440, 320, 1760)));
    assert_eq!(blast.left, Some(aabb(0, 1440, 320, 1600)));
}

#[test]
fn zero_power_blast_has_only_the_center() {
    let mut map = TileMap::default();
    map.update_tile(4, 5, TileStatus::Wall);
    let blast = propagate_blast(&mut map, 4, 4, 0);
    assert!(blast.regions().is_empty());
    assert_eq!(blast.center, aabb(640, 640, 800, 800));
    assert_eq!(map.get_tile_by_key(4, 5).status, TileStatus::Wall);
}

#[test]
fn regions_in_direction_order() {
    let mut map = TileMap::default();
    let blast = propagate_blast(&mut map, 0, 0, 1);
    assert_eq!(blast.regions(), vec![aabb(0, 0, 160, 320), aabb(0, 0, 320, 160)]);
}
