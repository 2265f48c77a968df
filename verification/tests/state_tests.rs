use openfront_client::state::{GameState, Player, PlayerCosmetics, Territory, TerrainType, Unit, UnitType};

fn player(id: u32) -> Player {
    Player {
        id,
        name: format!("P{}", id),
        color_rgba_bits: [1.0f32.to_bits(), 0.5f32.to_bits(), 0.0f32.to_bits(), 1.0f32.to_bits()],
        gold: 100,
        troops: 50,
        territory_count: 1,
        is_alive: true,
        team: None,
        cosmetics: PlayerCosmetics { flag: "us".to_string(), pattern: None },
    }
}

fn territory(q: i32, r: i32, owner: Option<u32>) -> Territory {
    Territory { position: (q, r), owner, troops: 10, terrain_type: TerrainType::Land }
}

#[test]
fn new_state_is_empty() {
    let s = GameState::new();
    assert_eq!(s.tick, 0);
    assert!(s.players.is_empty());
    assert!(s.units.is_empty());
    assert!(s.my_player_id.is_none());
    assert!(!s.game_started);
    assert!(s.get_territory((0, 0)).is_none());
}

#[test]
fn my_player_lookup() {
    let mut s = GameState::new();
    assert!(s.get_my_player().is_none());
    s.add_player(player(7));
    assert!(s.get_my_player().is_none());
    s.my_player_id = Some(7);
    assert_eq!(s.get_my_player().unwrap().name, "P7");
    s.my_player_id = Some(8);
    assert!(s.get_my_player().is_none());
}

#[test]
fn add_player_replaces_same_id() {
    let mut s = GameState::new();
    s.add_player(player(1));
    let mut p = player(1);
    p.gold = 999;
    s.add_player(p);
    assert_eq!(s.players.len(), 1);
    assert_eq!(s.players[&1].gold, 999);
}

#[test]
fn update_territory_changes_existing_only() {
    let mut s = GameState::new();
    s.set_territory((2, -3), territory(2, -3, None));
    s.update_territory((2, -3), Some(4), 77);
    let t = s.get_territory((2, -3)).unwrap();
    assert_eq!(t.owner, Some(4));
    assert_eq!(t.troops, 77);
    assert_eq!(t.position, (2, -3));
    // no territory at this position: nothing is created
    s.update_territory((9, 9), Some(4), 1);
    assert!(s.get_territory((9, 9)).is_none());
}

#[test]
fn positions_with_negative_coordinates_are_distinct() {
    let mut s = GameState::new();
    s.set_territory((-1, 0), territory(-1, 0, Some(1)));
    s.set_territory((0, -1), territory(0, -1, Some(2)));
    s.set_territory((-1, -1), territory(-1, -1, Some(3)));
    assert_eq!(s.get_territory((-1, 0)).unwrap().owner, Some(1));
    assert_eq!(s.get_territory((0, -1)).unwrap().owner, Some(2));
    assert_eq!(s.get_territory((-1, -1)).unwrap().owner, Some(3));
}

#[test]
fn my_territory_and_building() {
    let mut s = GameState::new();
    s.set_territory((1, 1), territory(1, 1, Some(5)));
    s.set_territory((2, 2), territory(2, 2, Some(6)));
    s.set_territory((3, 3), territory(3, 3, None));
    // unknown player: nothing is mine
    assert!(!s.is_my_territory((1, 1)));
    s.my_player_id = Some(5);
    assert!(s.is_my_territory((1, 1)));
    assert!(!s.is_my_territory((2, 2)));
    assert!(!s.is_my_territory((3, 3)));
    assert!(!s.is_my_territory((4, 4)));
    assert!(s.can_build_at((1, 1)));
    assert!(!s.can_build_at((2, 2)));
    s.add_unit(Unit { id: 1, unit_type: UnitType::City, owner: 5, position: (1, 1), health_bits: 80.0f32.to_bits(), max_health_bits: 100.0f32.to_bits() });
    assert!(!s.can_build_at((1, 1)));
    s.remove_unit(1);
    assert!(s.can_build_at((1, 1)));
    assert!(s.units.is_empty());
}

#[test]
fn unit_elsewhere_does_not_block() {
    let mut s = GameState::new();
    s.my_player_id = Some(5);
    s.set_territory((1, 1), territory(1, 1, Some(5)));
    s.add_unit(Unit { id: 2, unit_type: UnitType::Port, owner: 5, position: (1, 2), health_bits: 100.0f32.to_bits(), max_health_bits: 100.0f32.to_bits() });
    assert!(s.can_build_at((1, 1)));
}

#[test]
fn tick_advances_only_after_start() {
    let mut s = GameState::new();
    s.advance_tick(3);
    assert_eq!(s.tick, 0);
    s.game_started = true;
    s.advance_tick(3);
    s.advance_tick(4);
    assert_eq!(s.tick, 7);
}
