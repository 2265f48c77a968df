//! Player input: the events that keys and clicks produce, and the server
//! intents that some of them turn into.
use vstd::prelude::*;
use crate::schemas::{Intent, TileRef};
use crate::ui::UIState;

verus! {

/// Input events of the game. Panning is in whole world units (the keyboard
/// pans by steps of ten); zooming, which comes in fractions from the mouse
/// wheel, is handled outside this type.
#[derive(Debug)]
pub enum GameInputEvent {
    TileClicked(i32, i32),
    TileRightClicked(i32, i32),
    MapPan(i32, i32),
    SpawnUnit(i32, i32),
    AttackCommand { target: Option<u32>, troops: u32 },
    BuildStructure { tile: (i32, i32), unit_type: String },
    ToggleLeaderboard,
    ToggleChat,
    ToggleBuildMenu,
    ToggleSettings,
    SendEmoji(u32),
    QuickChat(String),
}

/// Distance the keyboard pans per frame and direction.
pub const PAN_SPEED: i32 = 10;

/// The keys of one frame: which were just pressed, which are held.
#[derive(Debug, Clone, Copy, PartialEq, Eq, Structural)]
pub struct KeyboardInput {
    /// J: join the demonstration game.
    pub join_pressed: bool,
    /// Tab: leaderboard.
    pub tab_pressed: bool,
    /// Enter: chat.
    pub enter_pressed: bool,
    /// Escape: settings.
    pub escape_pressed: bool,
    /// B: build menu.
    pub build_pressed: bool,
    /// W or arrow up held.
    pub up_held: bool,
    /// S or arrow down held.
    pub down_held: bool,
    /// A or arrow left held.
    pub left_held: bool,
    /// D or arrow right held.
    pub right_held: bool,
    /// Space: spawn at the selected tile.
    pub space_pressed: bool,
}

/// What a frame of keyboard input calls for.
pub struct KeyboardOutcome {
    /// Join the demonstration game (J pressed while a connection exists).
    pub join_game: bool,
    pub events: Vec<GameInputEvent>,
}

/// One event when `cond` holds, none otherwise.
pub open spec fn event_if(cond: bool, e: GameInputEvent) -> Seq<GameInputEvent> {
    if cond {
        seq![e]
    } else {
        Seq::empty()
    }
}

/// The keyboard pan of a frame: up adds and down subtracts on y, left
/// subtracts and right adds on x.
pub open spec fn pan_delta(keys: KeyboardInput) -> (int, int) {
    (
        (if keys.right_held { PAN_SPEED as int } else { 0 }) - (if keys.left_held {
            PAN_SPEED as int
        } else {
            0
        }),
        (if keys.up_held { PAN_SPEED as int } else { 0 }) - (if keys.down_held {
            PAN_SPEED as int
        } else {
            0
        }),
    )
}

/// The events of a frame, in order: the four toggles, the pan (when non-zero),
/// the spawn at the selected tile (when space is pressed and a tile is
/// selected).
pub open spec fn keyboard_events(ui: UIState, keys: KeyboardInput) -> Seq<GameInputEvent> {
    let (dx, dy) = pan_delta(keys);
    event_if(keys.tab_pressed, GameInputEvent::ToggleLeaderboard) + event_if(
        keys.enter_pressed,
        GameInputEvent::ToggleChat,
    ) + event_if(keys.escape_pressed, GameInputEvent::ToggleSettings) + event_if(
        keys.build_pressed,
        GameInputEvent::ToggleBuildMenu,
    ) + event_if(dx != 0 || dy != 0, GameInputEvent::MapPan(dx as i32, dy as i32)) + match ui.selected_tile {
        Some((q, r)) => event_if(keys.space_pressed, GameInputEvent::SpawnUnit(q, r)),
        None => Seq::empty(),
    }
}

fn push_if(events: &mut Vec<GameInputEvent>, cond: bool, e: GameInputEvent)
    ensures
        final(events)@ == old(events)@ + event_if(cond, e),
{
    if cond {
        events.push(e);
    } else {
        assert(events@ == old(events)@ + Seq::<GameInputEvent>::empty());
    }
}

/// Handles a frame of keys: each toggle key flips its overlay, and the events
/// and the join request follow `keyboard_events`.
pub fn keyboard_actions(ui: &mut UIState, keys: &KeyboardInput, connected: bool) -> (r:
    KeyboardOutcome)
    ensures
        r.join_game == (keys.join_pressed && connected),
        r.events@ == keyboard_events(*old(ui), *keys),
        final(ui).show_leaderboard == (old(ui).show_leaderboard != keys.tab_pressed),
        final(ui).show_chat == (old(ui).show_chat != keys.enter_pressed),
        final(ui).show_settings == (old(ui).show_settings != keys.escape_pressed),
        final(ui).show_build_menu == (old(ui).show_build_menu != keys.build_pressed),
        final(ui).selected_tile == old(ui).selected_tile,
        final(ui).ping == old(ui).ping,
{
    let join_game = keys.join_pressed && connected;
    let mut events: Vec<GameInputEvent> = Vec::new();
    if keys.tab_pressed {
        ui.show_leaderboard = !ui.show_leaderboard;
    }
    push_if(&mut events, keys.tab_pressed, GameInputEvent::ToggleLeaderboard);
    if keys.enter_pressed {
        ui.show_chat = !ui.show_chat;
    }
    push_if(&mut events, keys.enter_pressed, GameInputEvent::ToggleChat);
    if keys.escape_pressed {
        ui.show_settings = !ui.show_settings;
    }
    push_if(&mut events, keys.escape_pressed, GameInputEvent::ToggleSettings);
    if keys.build_pressed {
        ui.show_build_menu = !ui.show_build_menu;
    }
    push_if(&mut events, keys.build_pressed, GameInputEvent::ToggleBuildMenu);
    let mut pan_x: i32 = 0;
    let mut pan_y: i32 = 0;
    if keys.up_held {
        pan_y = pan_y + PAN_SPEED;
    }
    if keys.down_held {
        pan_y = pan_y - PAN_SPEED;
    }
    if keys.left_held {
        pan_x = pan_x - PAN_SPEED;
    }
    if keys.right_held {
        pan_x = pan_x + PAN_SPEED;
    }
    push_if(&mut events, pan_x != 0 || pan_y != 0, GameInputEvent::MapPan(pan_x, pan_y));
    match ui.selected_tile {
        Some((q, r)) => push_if(&mut events, keys.space_pressed, GameInputEvent::SpawnUnit(q, r)),
        None => {},
    }
    KeyboardOutcome { join_game, events }
}

/// Handles the clicks of a frame (already converted to tile coordinates): a
/// left click selects its tile and reports it, then a right click is reported.
pub fn mouse_actions(
    ui: &mut UIState,
    left_click: Option<(i32, i32)>,
    right_click: Option<(i32, i32)>,
) -> (r: Vec<GameInputEvent>)
    ensures
        final(ui).selected_tile == (match left_click {
            Some(t) => Some(t),
            None => old(ui).selected_tile,
        }),
        r@ == (match left_click {
            Some((q, rr)) => seq![GameInputEvent::TileClicked(q, rr)],
            None => Seq::empty(),
        }) + (match right_click {
            Some((q, rr)) => seq![GameInputEvent::TileRightClicked(q, rr)],
            None => Seq::empty(),
        }),
        final(ui).show_leaderboard == old(ui).show_leaderboard,
        final(ui).show_chat == old(ui).show_chat,
        final(ui).show_settings == old(ui).show_settings,
        final(ui).show_build_menu == old(ui).show_build_menu,
        final(ui).ping == old(ui).ping,
{
    let mut events: Vec<GameInputEvent> = Vec::new();
    if let Some((q, r)) = left_click {
        ui.selected_tile = Some((q, r));
        events.push(GameInputEvent::TileClicked(q, r));
    }
    if let Some((q, r)) = right_click {
        events.push(GameInputEvent::TileRightClicked(q, r));
    }
    proof {
        assert(events@ =~= (match left_click {
            Some((q, rr)) => seq![GameInputEvent::TileClicked(q, rr)],
            None => Seq::empty(),
        }) + (match right_click {
            Some((q, rr)) => seq![GameInputEvent::TileRightClicked(q, rr)],
            None => Seq::empty(),
        }));
    }
    events
}

/// The server intent an event sends: a spawn at the tile, or an attack with
/// target and troops; other events send nothing.
pub fn intent_for_event(event: &GameInputEvent) -> (r: Option<Intent>)
    ensures
        r == (match *event {
            GameInputEvent::SpawnUnit(q, rr) => Some(Intent::Spawn { tile: TileRef { q, r: rr } }),
            GameInputEvent::AttackCommand { target, troops } => Some(
                Intent::Attack { target_id: target, troops },
            ),
            _ => None,
        }),
{
    match event {
        GameInputEvent::SpawnUnit(q, r) => Some(Intent::Spawn { tile: TileRef { q: *q, r: *r } }),
        GameInputEvent::AttackCommand { target, troops } => Some(
            Intent::Attack { target_id: *target, troops: *troops },
        ),
        _ => None,
    }
}

/// One step of ten for a held key, none otherwise.
pub open spec fn held_step(held: bool) -> int {
    if held {
        10
    } else {
        0
    }
}

/// Panning with the keyboard: in a frame where no toggle key and no space is
/// pressed, the only event is the pan, whose x moves ten right for D / right
/// arrow and ten left for A / left arrow, and whose y moves ten up for W / up
/// arrow and ten down for S / down arrow; no pan event when the keys cancel
/// out. Vertical keys never move x, horizontal keys never move y.
pub proof fn lemma_keyboard_pans(ui: UIState, keys: KeyboardInput)
    requires
        !keys.tab_pressed,
        !keys.enter_pressed,
        !keys.escape_pressed,
        !keys.build_pressed,
        !keys.space_pressed,
    ensures
        ({
            let dx = held_step(keys.right_held) - held_step(keys.left_held);
            let dy = held_step(keys.up_held) - held_step(keys.down_held);
            keyboard_events(ui, keys) == if dx != 0 || dy != 0 {
                seq![GameInputEvent::MapPan(dx as i32, dy as i32)]
            } else {
                Seq::<GameInputEvent>::empty()
            }
        }),
{
    let e = Seq::<GameInputEvent>::empty();
    assert(e + e =~= e);
    match ui.selected_tile {
        Some(_) => {},
        None => {},
    }
    assert(keyboard_events(ui, keys) =~= if held_step(keys.right_held) - held_step(keys.left_held) != 0
        || held_step(keys.up_held) - held_step(keys.down_held) != 0 {
        seq![GameInputEvent::MapPan(
            (held_step(keys.right_held) - held_step(keys.left_held)) as i32,
            (held_step(keys.up_held) - held_step(keys.down_held)) as i32,
        )]
    } else {
        e
    });
}

/// Holding up as well adds ten to the pan's y and leaves its x alone; holding
/// right as well adds ten to its x and leaves its y alone.
pub proof fn lemma_pan_keys_move_their_axis(keys: KeyboardInput)
    requires
        !keys.up_held,
        !keys.right_held,
    ensures
        pan_delta(KeyboardInput { up_held: true, ..keys }).1 == pan_delta(keys).1 + 10,
        pan_delta(KeyboardInput { up_held: true, ..keys }).0 == pan_delta(keys).0,
        pan_delta(KeyboardInput { right_held: true, ..keys }).0 == pan_delta(keys).0 + 10,
        pan_delta(KeyboardInput { right_held: true, ..keys }).1 == pan_delta(keys).1,
{
}

/// The toggle keys: in a frame with no movement key held and no space, Tab
/// reports the leaderboard, Enter the chat, Escape the settings and B the
/// build menu, in that order, each once when pressed and nothing else.
pub proof fn lemma_keyboard_toggles(ui: UIState, keys: KeyboardInput)
    requires
        !keys.up_held,
        !keys.down_held,
        !keys.left_held,
        !keys.right_held,
        !keys.space_pressed,
    ensures
        ({
            let ev = keyboard_events(ui, keys);
            let n = (if keys.tab_pressed { 1int } else { 0 }) + (if keys.enter_pressed { 1int } else { 0 })
                + (if keys.escape_pressed { 1int } else { 0 }) + (if keys.build_pressed { 1int } else { 0 });
            &&& ev.len() == n
            &&& keys.tab_pressed ==> ev[0] == GameInputEvent::ToggleLeaderboard
            &&& keys.enter_pressed ==> ev[if keys.tab_pressed { 1int } else { 0 }] == GameInputEvent::ToggleChat
            &&& keys.escape_pressed ==> ev[n - 1 - (if keys.build_pressed { 1int } else { 0 })]
                == GameInputEvent::ToggleSettings
            &&& keys.build_pressed ==> ev[n - 1] == GameInputEvent::ToggleBuildMenu
        }),
{
    let e = Seq::<GameInputEvent>::empty();
    match ui.selected_tile {
        Some(_) => {},
        None => {},
    }
    assert(event_if(false, GameInputEvent::MapPan(0, 0)) =~= e);
}

} // verus!
