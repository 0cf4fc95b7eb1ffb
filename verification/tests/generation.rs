//! Generation, grid and classification behaviour, driven end to end with
//! the real random source linked in.

use shellter::gen::{GenError, MAX_ATTEMPTS};
use shellter::grid::xy_idx;
use shellter::location::WorldLocation;
use shellter::path::find_path;
use shellter::tile::{tile_is_solid, tile_is_transparent, TileType};

#[test]
fn index_mapping_is_bijective() {
    let w = 50;
    assert_eq!(xy_idx(3, 2, w), 103);
    assert_eq!(103 % 50, 3);
    assert_eq!(103 / 50, 2);
    assert_eq!(xy_idx(0, 0, w), 0);
    assert_eq!(xy_idx(49, 49, w), 2499);
    // Distinct cells never collide.
    let mut seen = vec![false; 2500];
    for y in 0..50 {
        for x in 0..50 {
            let i = xy_idx(x, y, w);
            assert!(!seen[i]);
            seen[i] = true;
        }
    }
}

#[test]
fn tile_classification_is_total() {
    let all = [
        TileType::Wall,
        TileType::DamagedWall,
        TileType::WeakWall,
        TileType::Floor,
        TileType::Exit,
        TileType::Potion,
        TileType::Coin,
        TileType::BearTrap,
        TileType::BearTrapActived,
        TileType::BloodStain,
        TileType::Door,
        TileType::Chest,
    ];
    for t in all {
        // On this vocabulary transparency is the exact complement of
        // solidity; every variant is classified.
        assert_eq!(tile_is_transparent(t), !tile_is_solid(t));
    }
    assert!(tile_is_solid(TileType::Wall));
    assert!(tile_is_solid(TileType::DamagedWall));
    assert!(tile_is_solid(TileType::WeakWall));
    assert!(tile_is_solid(TileType::Door));
    assert!(!tile_is_solid(TileType::Floor));
    assert!(!tile_is_solid(TileType::Exit));
    assert!(!tile_is_solid(TileType::BearTrap));
    assert!(!tile_is_solid(TileType::BearTrapActived));
    assert!(!tile_is_solid(TileType::Potion));
    assert!(!tile_is_solid(TileType::Coin));
    assert!(!tile_is_solid(TileType::Chest));
    assert!(!tile_is_solid(TileType::BloodStain));
}

#[test]
fn generated_floor_is_connected() {
    let (loc, seed) = WorldLocation::generate(50, 50, 42, 1, 0).expect("generation failed");
    assert!(seed != 0);
    assert_eq!(loc.source.len(), 2500);
    assert_eq!(loc.colors.len(), 2500);
    assert_eq!(loc.width, 50);
    assert_eq!(loc.height, 50);
    assert!((loc.start_x, loc.start_y) != (loc.exit_x, loc.exit_y));
    assert!(matches!(
        loc.source[xy_idx(loc.exit_x, loc.exit_y, 50)],
        TileType::Exit
    ));
    assert!(matches!(
        loc.source[xy_idx(loc.start_x, loc.start_y, 50)],
        TileType::Floor
    ));
    let path = find_path(&loc, (loc.start_x, loc.start_y), (loc.exit_x, loc.exit_y))
        .expect("no route from start to exit");
    assert!(path.len() > 50);
    assert_eq!(path[0], (loc.start_x, loc.start_y));
    assert_eq!(path[path.len() - 1], (loc.exit_x, loc.exit_y));
    // Every step is orthogonal and lands on a walkable cell.
    for k in 0..path.len() - 1 {
        let (ax, ay) = path[k];
        let (bx, by) = path[k + 1];
        assert_eq!((ax - bx).abs() + (ay - by).abs(), 1);
        assert!(!loc.is_solid((bx, by)));
        assert!(!matches!(loc.source[xy_idx(bx, by, 50)], TileType::BearTrap));
    }
}

#[test]
fn generation_is_deterministic_for_a_seed() {
    let (a, sa) = WorldLocation::generate(50, 50, 42, 1, 0).expect("generation failed");
    let (b, sb) = WorldLocation::generate(50, 50, 42, 1, 0).expect("generation failed");
    assert_eq!(sa, sb);
    assert_eq!(a.width, b.width);
    assert_eq!(a.start_x, b.start_x);
    assert_eq!(a.start_y, b.start_y);
    assert_eq!(a.exit_x, b.exit_x);
    assert_eq!(a.exit_y, b.exit_y);
    for i in 0..a.source.len() {
        assert!(a.source[i] == b.source[i]);
        assert_eq!(a.colors[i], b.colors[i]);
    }
}

#[test]
fn find_path_reports_unreachable_goals() {
    // A grid of solid wall except two separated floor cells: no route.
    let w = 16;
    let h = 16;
    let mut source = vec![TileType::Wall; (w * h) as usize];
    source[xy_idx(2, 2, w)] = TileType::Floor;
    source[xy_idx(12, 12, w)] = TileType::Floor;
    let loc = WorldLocation {
        source,
        entities: Vec::new(),
        colors: vec![(190, 190, 190); (w * h) as usize],
        width: w,
        height: h,
        start_x: 2,
        start_y: 2,
        exit_x: 12,
        exit_y: 12,
    };
    assert!(find_path(&loc, (2, 2), (12, 12)).is_none());
}

#[test]
fn find_path_is_shortest_on_an_open_field() {
    let w = 16;
    let h = 16;
    let mut source = vec![TileType::Floor; (w * h) as usize];
    for x in 0..w {
        source[xy_idx(x, 0, w)] = TileType::Wall;
        source[xy_idx(x, h - 1, w)] = TileType::Wall;
    }
    for y in 0..h {
        source[xy_idx(0, y, w)] = TileType::Wall;
        source[xy_idx(w - 1, y, w)] = TileType::Wall;
    }
    let loc = WorldLocation {
        source,
        entities: Vec::new(),
        colors: vec![(190, 190, 190); (w * h) as usize],
        width: w,
        height: h,
        start_x: 1,
        start_y: 1,
        exit_x: 14,
        exit_y: 14,
    };
    let p = find_path(&loc, (1, 1), (14, 14)).expect("open field must connect");
    // On an open field the shortest route has Manhattan length.
    assert_eq!(p.len(), 13 + 13 + 1);
}

#[test]
fn too_small_a_floor_exhausts_the_retries() {
    // On a 16 by 16 grid no route can reach the minimum interesting
    // length, so every attempt is rejected.
    assert!(MAX_ATTEMPTS >= 1);
    let r = WorldLocation::generate(16, 16, 7, 1, 0);
    assert!(matches!(r, Err(GenError::RetriesExhausted)));
}
