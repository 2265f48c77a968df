use openfront_client::hex::{demo_hex_tiles, hex_terrain, sync_tile_owner, HexTile, TerrainType};
use openfront_client::input::{intent_for_event, keyboard_actions, mouse_actions, GameInputEvent, KeyboardInput};
use openfront_client::schemas::{
    GameConfig as StartConfig, GameStartInfo, GameType, Intent, PongMessage, PrestartMessage, ServerMessage,
    StartMessage, TileRef,
};
use openfront_client::state::{GameState, Territory, TerrainType as StateTerrain};
use openfront_client::ui::{seconds_until_start, LobbyPoll, MainMenuState, MenuDialog, Overlay, UIState};

fn no_keys() -> KeyboardInput {
    KeyboardInput {
        join_pressed: false,
        tab_pressed: false,
        enter_pressed: false,
        escape_pressed: false,
        build_pressed: false,
        up_held: false,
        down_held: false,
        left_held: false,
        right_held: false,
        space_pressed: false,
    }
}

#[test]
fn ui_state_default() {
    let ui = UIState::default();
    assert!(!ui.show_leaderboard && !ui.show_chat && !ui.show_build_menu && !ui.show_settings);
    assert!(ui.selected_tile.is_none());
    assert_eq!(ui.ping, 0);
}

#[test]
fn toggle_keys_flip_and_flip_back() {
    let mut ui = UIState::default();
    let keys = KeyboardInput { tab_pressed: true, enter_pressed: true, escape_pressed: true, build_pressed: true, ..no_keys() };
    let out = keyboard_actions(&mut ui, &keys, false);
    assert!(!out.join_game);
    assert!(ui.show_leaderboard && ui.show_chat && ui.show_settings && ui.show_build_menu);
    assert_eq!(out.events.len(), 4);
    assert!(matches!(out.events[0], GameInputEvent::ToggleLeaderboard));
    assert!(matches!(out.events[1], GameInputEvent::ToggleChat));
    assert!(matches!(out.events[2], GameInputEvent::ToggleSettings));
    assert!(matches!(out.events[3], GameInputEvent::ToggleBuildMenu));
    keyboard_actions(&mut ui, &keys, false);
    assert!(!ui.show_leaderboard && !ui.show_chat && !ui.show_settings && !ui.show_build_menu);
}

#[test]
fn pan_keys() {
    let mut ui = UIState::default();
    let out = keyboard_actions(&mut ui, &KeyboardInput { up_held: true, right_held: true, ..no_keys() }, false);
    assert_eq!(out.events.len(), 1);
    assert!(matches!(out.events[0], GameInputEvent::MapPan(10, 10)));
    let out = keyboard_actions(&mut ui, &KeyboardInput { down_held: true, left_held: true, ..no_keys() }, false);
    assert!(matches!(out.events[0], GameInputEvent::MapPan(-10, -10)));
    // opposite keys cancel: no pan event
    let out = keyboard_actions(&mut ui, &KeyboardInput { up_held: true, down_held: true, ..no_keys() }, false);
    assert!(out.events.is_empty());
}

#[test]
fn join_needs_connection_and_space_needs_selection() {
    let mut ui = UIState::default();
    let keys = KeyboardInput { join_pressed: true, space_pressed: true, ..no_keys() };
    let out = keyboard_actions(&mut ui, &keys, true);
    assert!(out.join_game);
    assert!(out.events.is_empty());
    let out = keyboard_actions(&mut ui, &keys, false);
    assert!(!out.join_game);
    ui.selected_tile = Some((3, -4));
    let out = keyboard_actions(&mut ui, &keys, true);
    assert!(matches!(out.events[0], GameInputEvent::SpawnUnit(3, -4)));
}

#[test]
fn clicks_select_and_report() {
    let mut ui = UIState::default();
    let ev = mouse_actions(&mut ui, Some((1, 2)), Some((5, 6)));
    assert_eq!(ui.selected_tile, Some((1, 2)));
    assert!(matches!(ev[0], GameInputEvent::TileClicked(1, 2)));
    assert!(matches!(ev[1], GameInputEvent::TileRightClicked(5, 6)));
    let ev = mouse_actions(&mut ui, None, None);
    assert!(ev.is_empty());
    assert_eq!(ui.selected_tile, Some((1, 2)));
}

#[test]
fn events_to_intents() {
    match intent_for_event(&GameInputEvent::SpawnUnit(2, 3)) {
        Some(Intent::Spawn { tile }) => assert_eq!(tile, TileRef { q: 2, r: 3 }),
        other => panic!("unexpected {:?}", other),
    }
    match intent_for_event(&GameInputEvent::AttackCommand { target: Some(4), troops: 100 }) {
        Some(Intent::Attack { target_id, troops }) => {
            assert_eq!(target_id, Some(4));
            assert_eq!(troops, 100);
        }
        other => panic!("unexpected {:?}", other),
    }
    assert!(intent_for_event(&GameInputEvent::ToggleChat).is_none());
    assert!(intent_for_event(&GameInputEvent::TileClicked(0, 0)).is_none());
}

#[test]
fn build_menu_tile() {
    let mut ui = UIState::default();
    assert_eq!(ui.build_menu_tile(), None);
    ui.selected_tile = Some((2, 2));
    assert_eq!(ui.build_menu_tile(), None);
    ui.show_build_menu = true;
    assert_eq!(ui.build_menu_tile(), Some((2, 2)));
}

#[test]
fn main_menu_defaults_and_restore() {
    let mut m = MainMenuState::default();
    assert!(m.show_menu);
    assert_eq!(m.username, "Player");
    assert_eq!(m.selected_flag, "us");
    m.show_menu = false;
    m.restore_if_unnamed();
    assert!(!m.show_menu);
    m.username.clear();
    m.restore_if_unnamed();
    assert!(m.show_menu);
    assert_eq!(m.username, "Player");
}

#[test]
fn private_join_code() {
    let mut m = MainMenuState::default();
    assert!(m.private_join_code().is_none());
    m.private_lobby_code = "PM7jP0nv".to_string();
    assert_eq!(m.private_join_code().unwrap(), "PM7jP0nv");
}

#[test]
fn server_messages_hide_menu_on_game_start() {
    let mut m = MainMenuState::default();
    m.handle_server_message(&ServerMessage::Pong(PongMessage { tick: 1 }));
    assert!(m.show_menu);
    m.handle_server_message(&ServerMessage::Prestart(PrestartMessage { game_map: "World".to_string(), game_type: GameType::Teams }));
    assert!(!m.show_menu);
    let mut m = MainMenuState::default();
    let start = StartMessage {
        game_start_info: GameStartInfo {
            config: StartConfig { map_name: "World".to_string(), max_players: 8, game_speed_bits: 1.0f32.to_bits() },
            players: vec![],
        },
    };
    m.handle_server_message(&ServerMessage::Start(start));
    assert!(!m.show_menu);
}

#[test]
fn lobby_countdown() {
    assert_eq!(seconds_until_start(10_000, 0), 10);
    assert_eq!(seconds_until_start(10_000, 2_500), 7);
    assert_eq!(seconds_until_start(999, 0), 0);
    assert_eq!(seconds_until_start(1_000, 5_000), 0);
}

#[test]
fn demo_hex_grid() {
    let tiles = demo_hex_tiles();
    assert_eq!(tiles.len(), 91);
    assert_eq!((tiles[0].q, tiles[0].r), (-5, 0));
    assert_eq!(tiles[0].terrain_type, TerrainType::Land);
    for t in &tiles {
        assert!((t.q + t.r).abs() <= 5);
        assert!(t.owner.is_none());
        assert_eq!(t.terrain_type, hex_terrain(t.q, t.r));
    }
    assert_eq!(hex_terrain(0, 0), TerrainType::Water);
    assert_eq!(hex_terrain(1, 2), TerrainType::Water);
    assert_eq!(hex_terrain(-4, 1), TerrainType::Water);
    assert_eq!(hex_terrain(1, 0), TerrainType::Land);
    assert!(!tiles.iter().any(|t| t.terrain_type == TerrainType::Mountain));
}

#[test]
fn hex_tiles_mirror_territory_owners() {
    let mut s = GameState::new();
    s.set_territory((1, 1), Territory { position: (1, 1), owner: Some(9), troops: 0, terrain_type: StateTerrain::Land });
    let mut tile = HexTile { q: 1, r: 1, terrain_type: TerrainType::Land, owner: None };
    sync_tile_owner(&s, &mut tile);
    assert_eq!(tile.owner, Some(9));
    let mut other = HexTile { q: 2, r: 1, terrain_type: TerrainType::Land, owner: Some(3) };
    sync_tile_owner(&s, &mut other);
    assert_eq!(other.owner, Some(3));
}

#[test]
fn joining_a_public_lobby_hides_the_menu_when_connected() {
    let mut menu = MainMenuState::default();
    let game = "AbCd1234".to_string();
    assert_eq!(menu.join_public_lobby(&game, false), None);
    assert!(menu.show_menu);
    assert_eq!(menu.join_public_lobby(&game, true), Some(game.clone()));
    assert!(!menu.show_menu);
}

#[test]
fn joining_a_private_lobby_needs_a_code_and_a_connection() {
    let mut menu = MainMenuState::default();
    menu.show_join_private = true;
    assert_eq!(menu.join_private_lobby(true), None);
    assert!(menu.show_menu && menu.show_join_private);
    menu.private_lobby_code = "PM7jP0nv".to_string();
    assert_eq!(menu.join_private_lobby(false), None);
    assert!(menu.show_menu && menu.show_join_private);
    assert_eq!(menu.join_private_lobby(true), Some("PM7jP0nv".to_string()));
    assert!(!menu.show_menu && !menu.show_join_private);
    assert_eq!(menu.private_lobby_code, "PM7jP0nv");
}

#[test]
fn lobby_polling_refetches_every_five_seconds_even_after_failures() {
    let mut poll = LobbyPoll::new();
    assert!(poll.start_fetch());
    assert!(!poll.start_fetch());
    // a running fetch blocks the periodic one
    assert!(!poll.poll(true, 60_000));
    // the fetch fails or succeeds at 1 s: the next is due after 6 s
    poll.fetch_finished(1_000);
    assert!(!poll.is_fetching);
    assert!(!poll.poll(true, 6_000));
    assert!(!poll.poll(false, 6_001));
    assert!(poll.poll(true, 6_001));
    assert!(poll.is_fetching);
    assert_eq!(poll.last_update_ms, 1_000);
}

#[test]
fn overlay_buttons_flip_one_overlay() {
    let mut ui = UIState::default();
    ui.selected_tile = Some((2, 3));
    ui.toggle_overlay(Overlay::Chat);
    assert!(ui.show_chat && !ui.show_leaderboard && !ui.show_settings && !ui.show_build_menu);
    ui.toggle_overlay(Overlay::Leaderboard);
    ui.toggle_overlay(Overlay::Chat);
    assert!(!ui.show_chat && ui.show_leaderboard);
    ui.set_overlay(Overlay::Settings, true);
    ui.set_overlay(Overlay::Settings, false);
    assert!(!ui.show_settings && ui.show_leaderboard);
    assert_eq!(ui.selected_tile, Some((2, 3)));
}

#[test]
fn menu_dialogs_open_and_close_one_at_a_time() {
    let mut menu = MainMenuState::default();
    menu.set_dialog(MenuDialog::Help, true);
    menu.set_dialog(MenuDialog::JoinPrivate, true);
    assert!(menu.show_help && menu.show_join_private && !menu.show_settings && !menu.show_create_lobby);
    menu.set_dialog(MenuDialog::Help, false);
    assert!(!menu.show_help && menu.show_join_private && menu.show_menu);
}
