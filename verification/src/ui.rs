//! Interface state: the in-game overlay toggles, the main menu, and the public
//! lobby listing it shows.
use vstd::prelude::*;
use crate::schemas::ServerMessage;

verus! {

/// Which overlays are open, which tile is selected, and the last ping.
#[derive(Debug, Clone, Copy)]
pub struct UIState {
    pub show_leaderboard: bool,
    pub show_chat: bool,
    pub show_build_menu: bool,
    pub show_settings: bool,
    pub selected_tile: Option<(i32, i32)>,
    pub ping: u32,
}

impl Default for UIState {
    /// Everything closed, nothing selected, ping 0.
    fn default() -> (r: Self)
        ensures
            !r.show_leaderboard,
            !r.show_chat,
            !r.show_build_menu,
            !r.show_settings,
            r.selected_tile is None,
            r.ping == 0,
    {
        UIState {
            show_leaderboard: false,
            show_chat: false,
            show_build_menu: false,
            show_settings: false,
            selected_tile: None,
            ping: 0,
        }
    }
}

/// The in-game overlays that can be opened and closed.
#[derive(Debug, Clone, Copy, PartialEq, Eq, Structural)]
pub enum Overlay {
    Leaderboard,
    Chat,
    BuildMenu,
    Settings,
}

/// Whether an overlay is open.
pub open spec fn overlay_open(ui: UIState, o: Overlay) -> bool {
    match o {
        Overlay::Leaderboard => ui.show_leaderboard,
        Overlay::Chat => ui.show_chat,
        Overlay::BuildMenu => ui.show_build_menu,
        Overlay::Settings => ui.show_settings,
    }
}

impl UIState {
    /// Opens or closes an overlay; nothing else changes.
    pub fn set_overlay(&mut self, o: Overlay, open: bool)
        ensures
            overlay_open(*final(self), o) == open,
            forall|p: Overlay| p != o ==> overlay_open(*final(self), p) == overlay_open(*old(self), p),
            final(self).selected_tile == old(self).selected_tile,
            final(self).ping == old(self).ping,
    {
        match o {
            Overlay::Leaderboard => self.show_leaderboard = open,
            Overlay::Chat => self.show_chat = open,
            Overlay::BuildMenu => self.show_build_menu = open,
            Overlay::Settings => self.show_settings = open,
        }
    }

    /// Flips an overlay (its button was clicked); nothing else changes.
    pub fn toggle_overlay(&mut self, o: Overlay)
        ensures
            overlay_open(*final(self), o) == !overlay_open(*old(self), o),
            forall|p: Overlay| p != o ==> overlay_open(*final(self), p) == overlay_open(*old(self), p),
            final(self).selected_tile == old(self).selected_tile,
            final(self).ping == old(self).ping,
    {
        let open = match o {
            Overlay::Leaderboard => self.show_leaderboard,
            Overlay::Chat => self.show_chat,
            Overlay::BuildMenu => self.show_build_menu,
            Overlay::Settings => self.show_settings,
        };
        self.set_overlay(o, !open);
    }
}

impl UIState {
    /// The tile the build menu is shown for: the selected tile while the menu
    /// is open, nothing otherwise.
    pub fn build_menu_tile(&self) -> (r: Option<(i32, i32)>)
        ensures
            r == (if self.show_build_menu {
                self.selected_tile
            } else {
                None
            }),
    {
        if !self.show_build_menu || self.selected_tile.is_none() {
            return None;
        }
        self.selected_tile
    }
}

/// State of the main menu.
#[derive(Debug, Clone)]
pub struct MainMenuState {
    pub show_menu: bool,
    pub username: String,
    pub selected_flag: String,
    pub selected_pattern: Option<String>,
    pub show_help: bool,
    pub show_settings: bool,
    pub show_create_lobby: bool,
    pub show_join_private: bool,
    pub private_lobby_code: String,
}

/// The name offered to a new player.
pub open spec fn default_username() -> Seq<char> {
    "Player"@
}

/// The flag offered to a new player (a lower-case country code).
pub open spec fn default_flag() -> Seq<char> {
    "us"@
}

/// The dialogs of the main menu.
#[derive(Debug, Clone, Copy, PartialEq, Eq, Structural)]
pub enum MenuDialog {
    Help,
    Settings,
    CreateLobby,
    JoinPrivate,
}

/// Whether a dialog of the menu is open.
pub open spec fn dialog_open(m: MainMenuState, d: MenuDialog) -> bool {
    match d {
        MenuDialog::Help => m.show_help,
        MenuDialog::Settings => m.show_settings,
        MenuDialog::CreateLobby => m.show_create_lobby,
        MenuDialog::JoinPrivate => m.show_join_private,
    }
}

impl Default for MainMenuState {
    /// The menu shown, name "Player", flag "us", no pattern, no dialog open,
    /// empty lobby code.
    fn default() -> (r: Self)
        ensures
            r.show_menu,
            r.username@ == default_username(),
            r.selected_flag@ == default_flag(),
            r.selected_pattern is None,
            !r.show_help,
            !r.show_settings,
            !r.show_create_lobby,
            !r.show_join_private,
            r.private_lobby_code@ == Seq::<char>::empty(),
    {
        MainMenuState {
            show_menu: true,
            username: String::from_str("Player"),
            selected_flag: String::from_str("us"),
            selected_pattern: None,
            show_help: false,
            show_settings: false,
            show_create_lobby: false,
            show_join_private: false,
            private_lobby_code: String::new(),
        }
    }
}

impl MainMenuState {
    /// A hidden menu with no username is brought back with the default name.
    pub fn restore_if_unnamed(&mut self)
        ensures
            if !old(self).show_menu && old(self).username@.len() == 0 {
                final(self).show_menu && final(self).username@ == default_username()
            } else {
                final(self).show_menu == old(self).show_menu && final(self).username
                    == old(self).username
            },
            final(self).selected_flag == old(self).selected_flag,
            final(self).selected_pattern == old(self).selected_pattern,
            final(self).show_help == old(self).show_help,
            final(self).show_settings == old(self).show_settings,
            final(self).show_create_lobby == old(self).show_create_lobby,
            final(self).show_join_private == old(self).show_join_private,
            final(self).private_lobby_code == old(self).private_lobby_code,
    {
        if !self.show_menu && self.username.as_str().is_empty() {
            self.show_menu = true;
            self.username = String::from_str("Player");
        }
    }

    /// The game to join from the private-lobby dialog: the typed code, unless
    /// it is empty.
    pub fn private_join_code(&self) -> (r: Option<String>)
        ensures
            r is Some <==> self.private_lobby_code@.len() > 0,
            r matches Some(code) ==> code@ == self.private_lobby_code@,
    {
        if self.private_lobby_code.as_str().is_empty() {
            None
        } else {
            Some(self.private_lobby_code.clone())
        }
    }

    /// Opens or closes one of the menu's dialogs; nothing else changes.
    pub fn set_dialog(&mut self, d: MenuDialog, open: bool)
        ensures
            dialog_open(*final(self), d) == open,
            forall|e: MenuDialog| e != d ==> dialog_open(*final(self), e) == dialog_open(*old(self), e),
            final(self).show_menu == old(self).show_menu,
            final(self).username == old(self).username,
            final(self).selected_flag == old(self).selected_flag,
            final(self).selected_pattern == old(self).selected_pattern,
            final(self).private_lobby_code == old(self).private_lobby_code,
    {
        match d {
            MenuDialog::Help => self.show_help = open,
            MenuDialog::Settings => self.show_settings = open,
            MenuDialog::CreateLobby => self.show_create_lobby = open,
            MenuDialog::JoinPrivate => self.show_join_private = open,
        }
    }

    /// The Join button of a public lobby: with a connection, the menu is
    /// hidden and the lobby's game is the one to join; without one nothing
    /// happens.
    pub fn join_public_lobby(&mut self, game_id: &String, connected: bool) -> (r: Option<String>)
        ensures
            r is Some <==> connected,
            r matches Some(g) ==> g@ == game_id@,
            final(self).show_menu == (old(self).show_menu && !connected),
            final(self).username == old(self).username,
            final(self).selected_flag == old(self).selected_flag,
            final(self).selected_pattern == old(self).selected_pattern,
            final(self).show_help == old(self).show_help,
            final(self).show_settings == old(self).show_settings,
            final(self).show_create_lobby == old(self).show_create_lobby,
            final(self).show_join_private == old(self).show_join_private,
            final(self).private_lobby_code == old(self).private_lobby_code,
    {
        if connected {
            self.show_menu = false;
            Some(game_id.clone())
        } else {
            None
        }
    }

    /// The Join button of the private-lobby dialog: with a connection and a
    /// typed code, the dialog closes, the menu is hidden and the code is the
    /// game to join; otherwise nothing happens.
    pub fn join_private_lobby(&mut self, connected: bool) -> (r: Option<String>)
        ensures
            r is Some <==> (connected && old(self).private_lobby_code@.len() > 0),
            r matches Some(code) ==> code@ == old(self).private_lobby_code@,
            r is Some ==> !final(self).show_menu && !final(self).show_join_private,
            r is None ==> final(self).show_menu == old(self).show_menu
                && final(self).show_join_private == old(self).show_join_private,
            final(self).username == old(self).username,
            final(self).selected_flag == old(self).selected_flag,
            final(self).selected_pattern == old(self).selected_pattern,
            final(self).show_help == old(self).show_help,
            final(self).show_settings == old(self).show_settings,
            final(self).show_create_lobby == old(self).show_create_lobby,
            final(self).private_lobby_code == old(self).private_lobby_code,
    {
        if !connected {
            return None;
        }
        let code = self.private_join_code();
        if code.is_some() {
            self.show_join_private = false;
            self.show_menu = false;
        }
        code
    }

    /// Reacts to a server message: the menu is hidden once the game is about
    /// to start or has started; other messages leave the menu as it is.
    pub fn handle_server_message(&mut self, message: &ServerMessage)
        ensures
            final(self).show_menu == (old(self).show_menu && !(message is Prestart
                || message is Start)),
            final(self).username == old(self).username,
            final(self).selected_flag == old(self).selected_flag,
            final(self).selected_pattern == old(self).selected_pattern,
            final(self).show_help == old(self).show_help,
            final(self).show_settings == old(self).show_settings,
            final(self).show_create_lobby == old(self).show_create_lobby,
            final(self).show_join_private == old(self).show_join_private,
            final(self).private_lobby_code == old(self).private_lobby_code,
    {
        match message {
            ServerMessage::Prestart(_) => {
                self.show_menu = false;
            },
            ServerMessage::Start(_) => {
                self.show_menu = false;
            },
            ServerMessage::Update(_) => {},
            ServerMessage::Error(_) => {},
            ServerMessage::Pong(_) => {},
        }
    }
}

/// Settings of a public lobby as the lobby listing reports them.
#[derive(Debug, Clone)]
pub struct GameConfig {
    pub game_map: String,
    pub game_type: String,
    pub difficulty: String,
    pub game_mode: String,
    pub max_players: u32,
    pub bots: Option<u32>,
}

/// A public lobby.
#[derive(Debug, Clone)]
pub struct LobbyInfo {
    pub game_id: String,
    pub num_clients: u32,
    pub game_config: GameConfig,
    pub ms_until_start: u32,
}

/// The reply of the public-lobbies endpoint.
#[derive(Debug, Clone)]
pub struct ApiPublicLobbiesResponse {
    pub lobbies: Vec<LobbyInfo>,
}

/// How often the lobby listing is refreshed while the menu is shown.
pub const LOBBY_REFRESH_MS: u64 = 5000;

/// Polling of the public-lobby listing: when it was last refreshed or last
/// failed to refresh (milliseconds since start), and whether a fetch runs.
#[derive(Debug, Clone, Copy, PartialEq, Eq, Structural)]
pub struct LobbyPoll {
    pub last_update_ms: u64,
    pub is_fetching: bool,
}

/// Whether `poll` starts a fetch.
pub open spec fn spec_poll_starts(p: LobbyPoll, show_menu: bool, now_ms: u64) -> bool {
    show_menu && now_ms > p.last_update_ms + LOBBY_REFRESH_MS && !p.is_fetching
}

impl LobbyPoll {
    /// Never refreshed, no fetch running.
    pub fn new() -> (r: Self)
        ensures
            r == (LobbyPoll { last_update_ms: 0, is_fetching: false }),
    {
        LobbyPoll { last_update_ms: 0, is_fetching: false }
    }

    /// Starts a fetch unless one is running; tells whether it started one.
    pub fn start_fetch(&mut self) -> (started: bool)
        ensures
            started == !old(self).is_fetching,
            final(self).is_fetching,
            final(self).last_update_ms == old(self).last_update_ms,
    {
        if self.is_fetching {
            return false;
        }
        self.is_fetching = true;
        true
    }

    /// The periodic check: while the menu is shown and more than the refresh
    /// interval has passed since the last refresh, starts a fetch unless one
    /// is running; tells whether it started one.
    pub fn poll(&mut self, show_menu: bool, now_ms: u64) -> (started: bool)
        ensures
            started == spec_poll_starts(*old(self), show_menu, now_ms),
            final(self).is_fetching == (old(self).is_fetching || started),
            final(self).last_update_ms == old(self).last_update_ms,
    {
        if show_menu && now_ms > self.last_update_ms && now_ms - self.last_update_ms > LOBBY_REFRESH_MS {
            self.start_fetch()
        } else {
            false
        }
    }

    /// A fetch ended, with or without a listing: the next one is due a full
    /// interval from now.
    pub fn fetch_finished(&mut self, now_ms: u64)
        ensures
            *final(self) == (LobbyPoll { last_update_ms: now_ms, is_fetching: false }),
    {
        self.last_update_ms = now_ms;
        self.is_fetching = false;
    }
}

/// While the menu stays shown, a fetch that ended (whether it brought a
/// listing or failed) is followed by a new one once the refresh interval has
/// passed: the listing never stops being refreshed.
pub proof fn lemma_lobbies_refetched(finished_at: u64, now_ms: u64)
    requires
        now_ms > finished_at + LOBBY_REFRESH_MS,
    ensures
        spec_poll_starts(LobbyPoll { last_update_ms: finished_at, is_fetching: false }, true, now_ms),
{
}

/// Whole seconds left before a lobby starts, given the milliseconds it reported
/// and the milliseconds elapsed since: the difference (never below zero),
/// rounded down.
pub fn seconds_until_start(ms_until_start: u32, elapsed_ms: u32) -> (r: u32)
    ensures
        r == (if ms_until_start >= elapsed_ms {
            (ms_until_start - elapsed_ms) / 1000
        } else {
            0
        }),
{
    let ms_remaining = ms_until_start.saturating_sub(elapsed_ms);
    ms_remaining / 1000
}

} // verus!
