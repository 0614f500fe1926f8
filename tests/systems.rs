use bomb_arena::actions::ActionsSystem;
use bomb_arena::bomb::{spawn_bomb, Bomb, BOMB_POWER, FUSE_DURATION_MS};
use bomb_arena::explosion::{create_explosion, Explosion, EXPLOSION_DURATION_MS};
use bomb_arena::explosion_system::ExplosionSystem;
use bomb_arena::geometry::Aabb;
use bomb_arena::grid::{TileMap, TileStatus};
use bomb_arena::player::{init_players, Player};

fn aabb(min_x: i64, min_y: i64, max_x: i64, max_y: i64) -> Aabb {
    Aabb { min_x, min_y, max_x, max_y }
}

fn player(number: u8, x: i32, y: i32) -> Player {
    Player { is_human: number == 0, number, num_bombs: 1, x, y }
}

#[test]
fn spawn_bomb_snaps_to_cell_centre() {
    let map = TileMap::default();
    let bomb = spawn_bomb(&map, 170, 330, 2, 77);
    assert_eq!(bomb, Bomb { created_time: 77, power: BOMB_POWER, player_number: 2, x: 240, y: 400 });
}

#[test]
fn fire_places_one_bomb_and_uses_allowance() {
    let map = TileMap::default();
    let mut players = init_players();
    let bombs = ActionsSystem.run(true, &map, &mut players, 1000);
    assert_eq!(bombs, vec![Bomb { created_time: 1000, power: 1, player_number: 0, x: 80, y: 80 }]);
    assert_eq!(players[0].num_bombs, 0);
    assert_eq!(players[1].num_bombs, 1);
    let again = ActionsSystem.run(true, &map, &mut players, 1100);
    assert!(again.is_empty());
}

#[test]
fn no_fire_places_nothing() {
    let map = TileMap::default();
    let mut players = init_players();
    let before = players.clone();
    assert!(ActionsSystem.run(false, &map, &mut players, 5).is_empty());
    assert_eq!(players, before);
}

#[test]
fn create_explosion_stamps_each_region() {
    let regions = vec![aabb(0, 0, 10, 10), aabb(5, 5, 20, 20)];
    let center = aabb(1, 1, 2, 2);
    let e = create_explosion(&regions, &center, 42);
    assert_eq!(
        e,
        vec![
            Explosion { created_time: 42, collision_polygon: regions[0] },
            Explosion { created_time: 42, collision_polygon: regions[1] },
            Explosion { created_time: 42, collision_polygon: center },
        ]
    );
}

#[test]
fn overlapping_player_is_eliminated() {
    let mut map = TileMap::default();
    let mut players = vec![player(0, 200, 200), player(1, 1000, 1000)];
    let explosions = vec![Explosion { created_time: 0, collision_polygon: aabb(150, 150, 300, 300) }];
    let out = ExplosionSystem.run(&mut map, &mut players, &vec![], &explosions, 10);
    assert_eq!(out.eliminated, vec![true, false]);
    assert_eq!(out.expired, vec![false]);
}

#[test]
fn touching_edge_counts_as_hit() {
    let mut map = TileMap::default();
    // Player box spans x from 240 to 360; the region ends at x = 240.
    let mut players = vec![player(0, 300, 80)];
    let explosions = vec![Explosion { created_time: 0, collision_polygon: aabb(0, 0, 240, 160) }];
    let out = ExplosionSystem.run(&mut map, &mut players, &vec![], &explosions, 10);
    assert_eq!(out.eliminated, vec![true]);
    let explosions = vec![Explosion { created_time: 0, collision_polygon: aabb(0, 0, 239, 160) }];
    let out = ExplosionSystem.run(&mut map, &mut players, &vec![], &explosions, 10);
    assert_eq!(out.eliminated, vec![false]);
}

#[test]
fn explosion_expires_after_its_duration() {
    let e = Explosion { created_time: 100, collision_polygon: aabb(0, 0, 1, 1) };
    assert!(!e.is_expired(100 + EXPLOSION_DURATION_MS - 1));
    assert!(e.is_expired(100 + EXPLOSION_DURATION_MS));
    assert!(!e.is_expired(50));
}

#[test]
fn bomb_detonates_after_fuse_and_refills_owner() {
    let mut map = TileMap::default();
    map.update_tile(3, 4, TileStatus::Wall);
    let mut players = vec![Player { is_human: true, number: 0, num_bombs: 0, x: 2020, y: 1700 }];
    let bombs = vec![Bomb { created_time: 0, power: 2, player_number: 0, x: 560, y: 560 }];

    let early = ExplosionSystem.run(&mut map, &mut players, &bombs, &vec![], FUSE_DURATION_MS - 1);
    assert_eq!(early.detonated, vec![false]);
    assert!(early.spawned.is_empty());
    assert_eq!(players[0].num_bombs, 0);
    assert_eq!(map.get_tile_by_key(3, 4).status, TileStatus::Wall);

    let out = ExplosionSystem.run(&mut map, &mut players, &bombs, &vec![], FUSE_DURATION_MS);
    assert_eq!(out.detonated, vec![true]);
    assert_eq!(players[0].num_bombs, 1);
    assert_eq!(map.get_tile_by_key(3, 4).status, TileStatus::Free);
    assert_eq!(out.cleared, vec![(3, 4)]);
    assert_eq!(out.spawned.len(), 5);
    assert_eq!(out.spawned[0], Explosion { created_time: FUSE_DURATION_MS, collision_polygon: aabb(480, 480, 640, 800) });
    assert_eq!(out.spawned[4], Explosion { created_time: FUSE_DURATION_MS, collision_polygon: aabb(480, 480, 640, 640) });
    // New regions threaten players only from the next tick on.
    assert_eq!(out.eliminated, vec![false]);
}

#[test]
fn two_bombs_detonate_in_order() {
    let mut map = TileMap::default();
    map.update_tile(2, 0, TileStatus::Wall);
    let mut players = vec![player(0, 60, 60), player(1, 2020, 60)];
    players[0].num_bombs = 0;
    players[1].num_bombs = 0;
    let bombs = vec![
        Bomb { created_time: 0, power: 1, player_number: 1, x: 240, y: 80 },
        Bomb { created_time: 0, power: 2, player_number: 0, x: 80, y: 80 },
    ];
    let out = ExplosionSystem.run(&mut map, &mut players, &bombs, &vec![], 5000);
    assert_eq!(out.detonated, vec![true, true]);
    // The first bomb has already cleared (2, 0): the second bomb's right arm
    // runs its full length.
    assert_eq!(out.cleared, vec![(2, 0)]);
    // First bomb at (1, 0): up, right and left arms and the centre.
    assert_eq!(out.spawned.len(), 4 + 3);
    assert_eq!(out.spawned[1].collision_polygon, aabb(160, 0, 480, 160));
    assert_eq!(out.spawned[4].collision_polygon, aabb(0, 0, 160, 480));
    assert_eq!(out.spawned[5].collision_polygon, aabb(0, 0, 480, 160));
    assert_eq!(players[0].num_bombs, 1);
    assert_eq!(players[1].num_bombs, 1);
}
