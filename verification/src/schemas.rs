//! Messages exchanged with the game server. These are the bare data types; the
//! JSON encoding lives with the program that owns the socket.
use vstd::prelude::*;

verus! {

pub type ClientID = String;

pub type GameID = String;

pub type PlayerID = u32;

pub type Tick = u32;

/// Messages sent by the client.
#[derive(Debug, Clone)]
pub enum ClientMessage {
    Join(ClientJoinMessage),
    Intent(ClientIntentMessage),
    Ping(ClientPingMessage),
    Hash(ClientHashMessage),
    Winner(ClientWinnerMessage),
}

#[derive(Debug, Clone)]
pub struct ClientJoinMessage {
    pub game_id: GameID,
    pub client_id: ClientID,
    pub last_turn: u32,
    pub token: String,
    pub username: String,
    pub flag: String,
    pub pattern: Option<String>,
}

#[derive(Debug, Clone)]
pub struct ClientIntentMessage {
    pub tick: Tick,
    pub intent: Intent,
}

#[derive(Debug, Clone)]
pub struct ClientPingMessage {
    pub tick: Tick,
}

#[derive(Debug, Clone)]
pub struct ClientHashMessage {
    pub tick: Tick,
    pub hash: String,
}

#[derive(Debug, Clone)]
pub struct ClientWinnerMessage {
    pub winner: Winner,
    pub stats: AllPlayersStats,
}

/// Messages sent by the server.
#[derive(Debug, Clone)]
pub enum ServerMessage {
    Prestart(PrestartMessage),
    Start(StartMessage),
    Update(UpdateMessage),
    Pong(PongMessage),
    Error(ErrorMessage),
}

#[derive(Debug, Clone)]
pub struct PrestartMessage {
    pub game_map: String,
    pub game_type: GameType,
}

#[derive(Debug, Clone)]
pub struct StartMessage {
    pub game_start_info: GameStartInfo,
}

#[derive(Debug, Clone)]
pub struct UpdateMessage {
    pub tick: Tick,
    pub updates: Vec<GameUpdate>,
}

#[derive(Debug, Clone)]
pub struct PongMessage {
    pub tick: Tick,
}

#[derive(Debug, Clone)]
pub struct ErrorMessage {
    pub error: String,
}

#[derive(Debug, Clone, Copy, PartialEq, Eq, Structural)]
pub enum GameType {
    OneVsOne,
    FreeForAll,
    Teams,
}

/// Player actions.
#[derive(Debug, Clone)]
pub enum Intent {
    Spawn { tile: TileRef },
    Attack { target_id: Option<PlayerID>, troops: u32 },
    BoatAttack { target_id: Option<PlayerID>, dst: TileRef, troops: u32, src: Option<TileRef> },
    Build { unit: UnitType, tile: TileRef },
    Upgrade { unit_id: u32, unit_type: UnitType },
    DeleteUnit { unit_id: u32 },
    CancelAttack { attack_id: String },
    AllianceRequest { recipient: PlayerID },
    AllianceReply { requestor: PlayerID, accepted: bool },
    BreakAlliance { recipient: PlayerID },
    Emoji { recipient: EmojiRecipient, emoji: u32 },
    DonateGold { recipient: PlayerID, gold: Option<u32> },
    DonateTroops { recipient: PlayerID, troops: Option<u32> },
}

#[derive(Debug, Clone)]
pub enum EmojiRecipient {
    Player(PlayerID),
    All(String),
}

/// A tile in axial hex coordinates.
#[derive(Debug, Clone, Copy, PartialEq, Eq, Structural)]
pub struct TileRef {
    pub q: i32,
    pub r: i32,
}

#[derive(Debug, Clone, Copy, PartialEq, Eq, Structural)]
pub enum UnitType {
    Capital,
    City,
    Camp,
    Tower,
    Fort,
    Port,
    Airport,
    Radar,
    Bridge,
}

#[derive(Debug, Clone)]
pub struct PlayerCosmetics {
    pub flag: String,
    pub pattern: Option<String>,
}

#[derive(Debug, Clone)]
pub struct GameStartInfo {
    pub config: GameConfig,
    pub players: Vec<PlayerInfo>,
}

/// Game settings sent with the start message. The game speed is a 32-bit float
/// on the wire; it is carried here as its IEEE-754 bit pattern, unchanged.
#[derive(Debug, Clone)]
pub struct GameConfig {
    pub map_name: String,
    pub max_players: u32,
    pub game_speed_bits: u32,
}

#[derive(Debug, Clone)]
pub struct PlayerInfo {
    pub id: PlayerID,
    pub name: String,
    pub cosmetics: PlayerCosmetics,
    pub team: Option<u32>,
}

#[derive(Debug, Clone, Copy, PartialEq, Eq, Structural)]
pub enum GameUpdate {
    TerritoryUpdate,
    UnitUpdate,
    PlayerUpdate,
    HashUpdate,
    WinUpdate,
}

#[derive(Debug, Clone, Copy, PartialEq, Eq, Structural)]
pub struct Winner {
    pub player_id: Option<PlayerID>,
    pub team_id: Option<u32>,
}

#[derive(Debug, Clone, Copy, PartialEq, Eq, Structural)]
pub struct AllPlayersStats {}

} // verus!
