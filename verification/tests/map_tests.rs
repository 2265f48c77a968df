use openfront_client::map::{GameMap, TerrainType};
use openfront_client::world::{setup_test_map, test_terrain};

fn small_map() -> GameMap {
    // 3 x 2 map: land, water, land+shore / water, water, land
    GameMap::new(3, 2, vec![0x80, 0x00, 0xC0, 0x00, 0x00, 0x80])
}

#[test]
fn new_map_has_size_and_empty_state() {
    let map = small_map();
    assert_eq!(map.width(), 3);
    assert_eq!(map.height(), 2);
    for t in 0..6 {
        assert_eq!(map.owner_id(t), None);
        assert!(!map.has_fallout(t));
    }
}

#[test]
fn coordinates_round_trip() {
    let map = GameMap::new(7, 5, vec![0; 35]);
    for t in 0..35 {
        let (x, y) = (map.x(t), map.y(t));
        assert_eq!(x, t % 7);
        assert_eq!(y, t / 7);
        assert_eq!(map.ref_from_xy(x, y), t);
    }
    assert_eq!(map.ref_from_xy(3, 4), 31);
}

#[test]
fn valid_coordinates() {
    let map = small_map();
    assert!(map.is_valid_coord(0, 0));
    assert!(map.is_valid_coord(2, 1));
    assert!(!map.is_valid_coord(3, 0));
    assert!(!map.is_valid_coord(0, 2));
    assert!(!map.is_valid_coord(-1, 0));
    assert!(!map.is_valid_coord(0, -1));
}

#[test]
fn terrain_bits() {
    let map = small_map();
    assert!(map.is_land(0));
    assert!(map.is_water(1));
    assert!(map.is_land(2));
    assert!(map.is_shore(2));
    assert!(!map.is_shore(0));
    assert!(map.is_land(5));
    assert!(map.is_water(3));
}

#[test]
fn owner_read_after_write() {
    let mut map = small_map();
    map.set_owner_id(2, 5);
    assert_eq!(map.owner_id(2), Some(5));
    assert_eq!(map.owner_id(1), None);
    map.set_owner_id(2, 0xfff);
    assert_eq!(map.owner_id(2), Some(0xfff));
    map.set_owner_id(2, 0);
    assert_eq!(map.owner_id(2), None);
}

#[test]
fn owner_id_wider_than_twelve_bits_keeps_only_low_bits() {
    let mut map = small_map();
    // 0x2001 also sets the fallout bit; the owner keeps the low twelve bits.
    map.set_owner_id(0, 0x2001);
    assert_eq!(map.owner_id(0), Some(1));
    assert!(map.has_fallout(0));
}

#[test]
fn fallout_and_owner_are_independent() {
    let mut map = small_map();
    map.set_owner_id(4, 9);
    map.set_fallout(4, true);
    assert!(map.has_fallout(4));
    assert_eq!(map.owner_id(4), Some(9));
    map.set_fallout(4, false);
    assert!(!map.has_fallout(4));
    assert_eq!(map.owner_id(4), Some(9));
    map.set_owner_id(4, 3);
    map.set_fallout(4, true);
    map.set_owner_id(4, 2);
    assert!(map.has_fallout(4));
}

#[test]
fn neighbors_in_order_up_down_left_right() {
    let map = GameMap::new(3, 3, vec![0; 9]);
    assert_eq!(map.neighbors(4), vec![1, 7, 3, 5]);
    assert_eq!(map.neighbors(0), vec![3, 1]);
    assert_eq!(map.neighbors(8), vec![5, 7]);
    assert_eq!(map.neighbors(1), vec![4, 0, 2]);
}

#[test]
fn neighbors_are_symmetric() {
    let map = GameMap::new(4, 3, vec![0; 12]);
    for a in 0..12 {
        for b in map.neighbors(a) {
            assert!(map.neighbors(b).contains(&a));
            assert_ne!(a, b);
        }
        assert!(map.neighbors(a).len() <= 4);
    }
}

#[test]
fn single_tile_map_has_no_neighbors() {
    let map = GameMap::new(1, 1, vec![0x80]);
    assert!(map.neighbors(0).is_empty());
}

#[test]
fn border_detection() {
    // 3 x 3 all land; owner 1 on the left two columns, owner 2 on the right.
    let mut map = GameMap::new(3, 3, vec![0x80; 9]);
    for y in 0..3 {
        map.set_owner_id(map.ref_from_xy(0, y), 1);
        map.set_owner_id(map.ref_from_xy(1, y), 1);
        map.set_owner_id(map.ref_from_xy(2, y), 2);
    }
    assert!(!map.is_border(map.ref_from_xy(0, 1)));
    assert!(map.is_border(map.ref_from_xy(1, 1)));
    assert!(map.is_border(map.ref_from_xy(2, 1)));
}

#[test]
fn border_needs_owned_land() {
    let mut map = GameMap::new(2, 1, vec![0x00, 0x80]);
    map.set_owner_id(0, 1);
    // water tile is never a border, even when owned
    assert!(!map.is_border(0));
    // unowned land is never a border
    assert!(!map.is_border(1));
    map.set_owner_id(1, 1);
    assert!(!map.is_border(1));
}

#[test]
fn edge_of_owned_area_next_to_unowned_is_border() {
    let mut map = GameMap::new(2, 1, vec![0x80, 0x80]);
    map.set_owner_id(0, 4);
    assert!(map.is_border(0));
}

#[test]
fn for_each_tile_visits_every_tile_in_order() {
    let map = GameMap::new(4, 2, vec![0; 8]);
    let seen = std::cell::RefCell::new(Vec::new());
    map.for_each_tile(|t| seen.borrow_mut().push(t));
    assert_eq!(seen.into_inner(), (0..8).collect::<Vec<_>>());
}

#[test]
fn map_terrain_type_values() {
    assert_ne!(TerrainType::Land, TerrainType::Water);
    assert_eq!(TerrainType::Desert, TerrainType::Desert);
}

#[test]
fn demo_terrain_islands() {
    let terrain = test_terrain(100, 100);
    assert_eq!(terrain.len(), 10000);
    assert_eq!(terrain[15 * 100 + 15], 0x80);
    assert_eq!(terrain[10 * 100 + 10], 0);
    assert_eq!(terrain[30 * 100 + 50], 0x80);
    assert_eq!(terrain[70 * 100 + 70], 0x80);
    assert_eq!(terrain[0], 0);
    assert_eq!(terrain[99 * 100 + 99], 0);
}

#[test]
fn demo_map_owners() {
    let map = setup_test_map();
    assert_eq!(map.width(), 100);
    assert_eq!(map.owner_id(map.ref_from_xy(15, 15)), Some(1));
    assert_eq!(map.owner_id(map.ref_from_xy(24, 24)), Some(1));
    assert_eq!(map.owner_id(map.ref_from_xy(25, 24)), None);
    assert_eq!(map.owner_id(map.ref_from_xy(45, 30)), Some(2));
    assert_eq!(map.owner_id(map.ref_from_xy(64, 49)), Some(2));
    assert_eq!(map.owner_id(map.ref_from_xy(64, 50)), None);
    for t in 0..10000 {
        if map.owner_id(t).is_some() {
            assert!(map.is_land(t));
        }
    }
    assert!(map.is_border(map.ref_from_xy(15, 20)));
    assert!(!map.is_border(map.ref_from_xy(20, 20)));
}

#[test]
fn neighbors_are_the_tiles_at_distance_one() {
    let map = GameMap::new(5, 4, vec![0; 20]);
    for a in 0..20 {
        for b in 0..20 {
            let d = (map.x(a) as i64 - map.x(b) as i64).abs() + (map.y(a) as i64 - map.y(b) as i64).abs();
            assert_eq!(map.neighbors(a).contains(&b), d == 1, "tiles {} and {}", a, b);
        }
    }
}
