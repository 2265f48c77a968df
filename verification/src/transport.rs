//! The client side of the game connection: which worker serves a game, the
//! messages the client sends on its own, and the reconnecting socket loop as a
//! state machine (the program that owns the socket performs its actions).
use vstd::prelude::*;
use crate::schemas::{ClientJoinMessage, ClientIntentMessage, ClientMessage, ClientPingMessage, Intent};

verus! {

broadcast use vstd::string::group_string_axioms;

/// Number of game workers behind the production server.
pub const NUM_WORKERS: u32 = 4;

/// Seconds between reconnection attempts.
pub const RECONNECT_DELAY_SECS: u64 = 5;

/// One step of the 32-bit string hash: `h * 31 + code`, wrapped to 32 bits.
pub open spec fn hash_step(h: u32, c: char) -> u32 {
    ((h as int * 31 + (c as u32) as int) % 0x1_0000_0000) as u32
}

/// The bit pattern of the signed 32-bit hash of a character sequence.
pub open spec fn hash_bits(s: Seq<char>) -> u32
    decreases s.len(),
{
    if s.len() == 0 {
        0
    } else {
        hash_step(hash_bits(s.drop_last()), s.last())
    }
}

/// Absolute value of the signed 32-bit number with bit pattern `h`.
pub open spec fn unsigned_abs_bits(h: u32) -> u32 {
    if h < 0x8000_0000 {
        h
    } else {
        (0x1_0000_0000 - h) as u32
    }
}

/// The game-id hash: the absolute value of the signed 32-bit hash.
pub open spec fn spec_simple_hash(s: Seq<char>) -> u32 {
    unsigned_abs_bits(hash_bits(s))
}

/// The worker that serves a game.
pub open spec fn spec_worker_index(game_id: Seq<char>) -> u32 {
    spec_simple_hash(game_id) % NUM_WORKERS
}

/// The decimal digit for a number below ten.
pub open spec fn digit_char(d: u32) -> char {
    if d == 0 {
        '0'
    } else if d == 1 {
        '1'
    } else if d == 2 {
        '2'
    } else if d == 3 {
        '3'
    } else if d == 4 {
        '4'
    } else if d == 5 {
        '5'
    } else if d == 6 {
        '6'
    } else if d == 7 {
        '7'
    } else if d == 8 {
        '8'
    } else {
        '9'
    }
}

/// The socket address of a worker.
pub open spec fn worker_url(index: u32) -> Seq<char> {
    "wss://openfront.io/w"@ + seq![digit_char(index)]
}

/// Hash of a string: `h = h * 31 + code` over its characters in wrapping 32-bit
/// signed arithmetic, then the absolute value.
pub fn simple_hash(s: &str) -> (r: u32)
    ensures
        r == spec_simple_hash(s@),
{
    let mut hash: u32 = 0;
    let ghost chars = s@;
    for ch in it: s.chars()
        invariant
            chars == s@,
            it.seq() == chars,
            hash == hash_bits(chars.take(it.index() as int)),
    {
        let code = ch as u32;
        let next = ((hash as u64 * 31 + code as u64) % 0x1_0000_0000u64) as u32;
        proof {
            let i = it.index() as int;
            assert(chars.take(i + 1).drop_last() == chars.take(i));
            assert(chars.take(i + 1).last() == ch);
            assert(code == ch as u32);
            assert(next == hash_step(hash, ch));
            assert(next == hash_bits(chars.take(i + 1)));
        }
        hash = next;
    }
    proof {
        assert(chars.take(chars.len() as int) == chars);
    }
    if hash < 0x8000_0000 {
        hash
    } else {
        0u32.wrapping_sub(hash)
    }
}

/// The worker index of a game: its hash modulo the number of workers.
pub fn calculate_worker_index(game_id: &str) -> (r: u32)
    ensures
        r == spec_worker_index(game_id@),
        r < NUM_WORKERS,
{
    simple_hash(game_id) % NUM_WORKERS
}

/// Connection settings for the game socket.
pub struct WebSocketConfig {
    pub url: String,
    pub auto_reconnect: bool,
    pub reconnect_delay_secs: u64,
}

impl Default for WebSocketConfig {
    /// No address yet (it is chosen per game), reconnecting every five seconds.
    fn default() -> (r: Self)
        ensures
            r.url@ == Seq::<char>::empty(),
            r.auto_reconnect,
            r.reconnect_delay_secs == RECONNECT_DELAY_SECS,
    {
        WebSocketConfig {
            url: String::new(),
            auto_reconnect: true,
            reconnect_delay_secs: RECONNECT_DELAY_SECS,
        }
    }
}

/// The one-character decimal string of a number below ten.
fn digit_str(d: u32) -> (r: &'static str)
    requires
        d < 10,
    ensures
        r@ == seq![digit_char(d)],
{
    proof {
        reveal_strlit("0");
        reveal_strlit("1");
        reveal_strlit("2");
        reveal_strlit("3");
        reveal_strlit("4");
        reveal_strlit("5");
        reveal_strlit("6");
        reveal_strlit("7");
        reveal_strlit("8");
        reveal_strlit("9");
    }
    if d == 0 {
        "0"
    } else if d == 1 {
        "1"
    } else if d == 2 {
        "2"
    } else if d == 3 {
        "3"
    } else if d == 4 {
        "4"
    } else if d == 5 {
        "5"
    } else if d == 6 {
        "6"
    } else if d == 7 {
        "7"
    } else if d == 8 {
        "8"
    } else {
        "9"
    }
}

impl WebSocketConfig {
    /// Settings for a game: the address of the worker that serves it.
    pub fn for_game(game_id: &str) -> (r: Self)
        ensures
            r.url@ == worker_url(spec_worker_index(game_id@)),
            r.auto_reconnect,
            r.reconnect_delay_secs == RECONNECT_DELAY_SECS,
    {
        let worker_index = calculate_worker_index(game_id);
        let mut url = String::from_str("wss://openfront.io/w");
        url.append(digit_str(worker_index));
        WebSocketConfig { url, auto_reconnect: true, reconnect_delay_secs: RECONNECT_DELAY_SECS }
    }
}

/// What the client needs to (re)join a game after connecting.
#[derive(Debug, Clone)]
pub struct ConnectionInfo {
    pub game_id: String,
    pub client_id: String,
    pub username: String,
    pub token: String,
    pub flag: String,
}

/// The join message sent right after each connection: turn 0, no pattern.
pub fn join_message(info: &ConnectionInfo) -> (r: ClientMessage)
    ensures
        r == ClientMessage::Join(
            ClientJoinMessage {
                game_id: info.game_id,
                client_id: info.client_id,
                last_turn: 0,
                token: info.token,
                username: info.username,
                flag: info.flag,
                pattern: None,
            },
        ),
{
    ClientMessage::Join(
        ClientJoinMessage {
            game_id: info.game_id.clone(),
            client_id: info.client_id.clone(),
            last_turn: 0,
            token: info.token.clone(),
            username: info.username.clone(),
            flag: info.flag.clone(),
            pattern: None,
        },
    )
}

/// The keep-alive ping, sent for tick 0.
pub fn ping_message() -> (r: ClientMessage)
    ensures
        r == ClientMessage::Ping(ClientPingMessage { tick: 0 }),
{
    ClientMessage::Ping(ClientPingMessage { tick: 0 })
}

/// The message that carries a player action for a tick.
pub fn intent_message(tick: u32, intent: Intent) -> (r: ClientMessage)
    ensures
        r == ClientMessage::Intent(ClientIntentMessage { tick, intent }),
{
    ClientMessage::Intent(ClientIntentMessage { tick, intent })
}

/// The kinds of frame the socket can deliver.
#[derive(Debug, Clone, Copy, PartialEq, Eq, Structural)]
pub enum FrameKind {
    Text,
    Binary,
    Ping,
    Pong,
    Close,
    Raw,
    Error,
}

/// Where the socket loop stands.
#[derive(Debug, Clone, Copy, PartialEq, Eq, Structural)]
pub enum LoopPhase {
    /// A connection attempt is under way.
    Connecting,
    /// Connected; the join message is being sent.
    Joining,
    /// Connected and serving (after the join, when the loop joins).
    Open,
    /// Waiting before the next attempt.
    Backoff,
}

/// What happened since the last step.
#[derive(Debug, Clone, Copy, PartialEq, Eq, Structural)]
pub enum LoopEvent {
    ConnectSucceeded,
    ConnectFailed,
    /// The join message was sent.
    JoinSent,
    /// Sending the join message failed.
    JoinSendFailed,
    /// The keep-alive interval elapsed.
    PingDue,
    /// Sending a ping or an outgoing message failed.
    SendFailed,
    /// A ping or an outgoing message was sent.
    Sent,
    FrameReceived(FrameKind),
    SleepFinished,
}

/// What the socket owner does next.
#[derive(Debug, Clone, Copy, PartialEq, Eq, Structural)]
pub enum LoopAction {
    /// Open a connection to the worker.
    Connect,
    /// Send the join message.
    SendJoin,
    /// Start the keep-alive timer: a `PingDue` every this many seconds, the
    /// first one a full interval from now.
    SchedulePings(u64),
    /// Send the keep-alive ping.
    SendPing,
    /// Decode the text frame as a server message and forward it to the game.
    ForwardText,
    /// Keep serving the open connection.
    Continue,
    /// Wait this many seconds.
    Sleep(u64),
}

/// Seconds between keep-alive pings.
pub const PING_INTERVAL_SECS: u64 = 5;

/// The reconnecting socket loop: attempts are counted from 1. `joins` says
/// whether each new connection starts by joining the game (and then keeps it
/// alive with pings).
#[derive(Debug, Clone, Copy, PartialEq, Eq, Structural)]
pub struct SocketLoop {
    pub attempts: u32,
    pub phase: LoopPhase,
    pub joins: bool,
}

/// The loop is waiting for the next attempt, after this action.
pub open spec fn backoff(s: SocketLoop) -> (SocketLoop, LoopAction) {
    (SocketLoop { phase: LoopPhase::Backoff, ..s }, LoopAction::Sleep(RECONNECT_DELAY_SECS))
}

/// The loop starts its next connection attempt.
pub open spec fn reconnect(s: SocketLoop) -> (SocketLoop, LoopAction) {
    (
        SocketLoop { attempts: (s.attempts + 1) as u32, phase: LoopPhase::Connecting, ..s },
        LoopAction::Connect,
    )
}

/// The successor of a loop state under an event, and the action it calls for.
pub open spec fn loop_step(s: SocketLoop, ev: LoopEvent) -> (SocketLoop, LoopAction) {
    match (s.phase, ev) {
        (LoopPhase::Connecting, LoopEvent::ConnectSucceeded) => if s.joins {
            (SocketLoop { phase: LoopPhase::Joining, ..s }, LoopAction::SendJoin)
        } else {
            (SocketLoop { phase: LoopPhase::Open, ..s }, LoopAction::Continue)
        },
        (LoopPhase::Connecting, LoopEvent::ConnectFailed) => backoff(s),
        (LoopPhase::Joining, LoopEvent::JoinSent) => (
            SocketLoop { phase: LoopPhase::Open, ..s },
            LoopAction::SchedulePings(PING_INTERVAL_SECS),
        ),
        (LoopPhase::Joining, LoopEvent::JoinSendFailed) => reconnect(s),
        (LoopPhase::Open, LoopEvent::PingDue) => (
            s,
            if s.joins {
                LoopAction::SendPing
            } else {
                LoopAction::Continue
            },
        ),
        (LoopPhase::Open, LoopEvent::SendFailed) => backoff(s),
        (LoopPhase::Open, LoopEvent::FrameReceived(FrameKind::Text)) => (s, LoopAction::ForwardText),
        (LoopPhase::Open, LoopEvent::FrameReceived(FrameKind::Close)) => backoff(s),
        (LoopPhase::Open, LoopEvent::FrameReceived(FrameKind::Error)) => backoff(s),
        (LoopPhase::Backoff, LoopEvent::SleepFinished) => reconnect(s),
        _ => (s, LoopAction::Continue),
    }
}

impl SocketLoop {
    /// The first connection attempt of a loop that joins on each connection
    /// or, with `joins` false, only serves it.
    pub fn start(joins: bool) -> (r: (SocketLoop, LoopAction))
        ensures
            r.0 == (SocketLoop { attempts: 1, phase: LoopPhase::Connecting, joins }),
            r.1 == LoopAction::Connect,
    {
        (SocketLoop { attempts: 1, phase: LoopPhase::Connecting, joins }, LoopAction::Connect)
    }

    fn back_off(&mut self) -> (action: LoopAction)
        ensures
            (*final(self), action) == backoff(*old(self)),
    {
        self.phase = LoopPhase::Backoff;
        LoopAction::Sleep(RECONNECT_DELAY_SECS)
    }

    fn reconnect(&mut self) -> (action: LoopAction)
        requires
            old(self).attempts < i32::MAX,
        ensures
            (*final(self), action) == reconnect(*old(self)),
    {
        self.attempts = self.attempts + 1;
        self.phase = LoopPhase::Connecting;
        LoopAction::Connect
    }

    /// Advances the loop by one event and returns the action to perform.
    pub fn step(&mut self, ev: LoopEvent) -> (action: LoopAction)
        requires
            old(self).attempts < i32::MAX,
        ensures
            (*final(self), action) == loop_step(*old(self), ev),
    {
        match (self.phase, ev) {
            (LoopPhase::Connecting, LoopEvent::ConnectSucceeded) => {
                if self.joins {
                    self.phase = LoopPhase::Joining;
                    LoopAction::SendJoin
                } else {
                    self.phase = LoopPhase::Open;
                    LoopAction::Continue
                }
            },
            (LoopPhase::Connecting, LoopEvent::ConnectFailed) => self.back_off(),
            (LoopPhase::Joining, LoopEvent::JoinSent) => {
                self.phase = LoopPhase::Open;
                LoopAction::SchedulePings(PING_INTERVAL_SECS)
            },
            (LoopPhase::Joining, LoopEvent::JoinSendFailed) => self.reconnect(),
            (LoopPhase::Open, LoopEvent::PingDue) => {
                if self.joins {
                    LoopAction::SendPing
                } else {
                    LoopAction::Continue
                }
            },
            (LoopPhase::Open, LoopEvent::SendFailed) => self.back_off(),
            (LoopPhase::Open, LoopEvent::FrameReceived(FrameKind::Text)) => LoopAction::ForwardText,
            (LoopPhase::Open, LoopEvent::FrameReceived(FrameKind::Close)) => self.back_off(),
            (LoopPhase::Open, LoopEvent::FrameReceived(FrameKind::Error)) => self.back_off(),
            (LoopPhase::Backoff, LoopEvent::SleepFinished) => self.reconnect(),
            _ => LoopAction::Continue,
        }
    }
}

/// Every game is served by one of the four workers, and its address is that
/// worker's.
pub proof fn lemma_worker_in_range(game_id: Seq<char>)
    ensures
        spec_worker_index(game_id) < NUM_WORKERS,
        worker_url(spec_worker_index(game_id)).len() == "wss://openfront.io/w"@.len() + 1,
{
}

/// The attempt counter never decreases, and it grows (by one) exactly when the
/// loop starts a new connection attempt.
pub proof fn lemma_attempts_count_connections(s: SocketLoop, ev: LoopEvent)
    requires
        s.attempts < i32::MAX,
    ensures
        loop_step(s, ev).0.attempts >= s.attempts,
        loop_step(s, ev).1 == LoopAction::Connect <==> loop_step(s, ev).0.attempts == s.attempts + 1,
        loop_step(s, ev).1 == LoopAction::Connect ==> loop_step(s, ev).0.phase == LoopPhase::Connecting,
{
}

/// A failed connection, a failed send and a closed or broken socket all lead
/// to a five-second wait; only a failed join is retried at once.
pub proof fn lemma_failures_back_off(s: SocketLoop)
    ensures
        s.phase == LoopPhase::Connecting ==> loop_step(s, LoopEvent::ConnectFailed).1
            == LoopAction::Sleep(RECONNECT_DELAY_SECS),
        s.phase == LoopPhase::Open ==> loop_step(s, LoopEvent::SendFailed).1 == LoopAction::Sleep(
            RECONNECT_DELAY_SECS,
        ),
        s.phase == LoopPhase::Open ==> loop_step(s, LoopEvent::FrameReceived(FrameKind::Close)).1
            == LoopAction::Sleep(RECONNECT_DELAY_SECS),
        s.phase == LoopPhase::Open ==> loop_step(s, LoopEvent::FrameReceived(FrameKind::Error)).1
            == LoopAction::Sleep(RECONNECT_DELAY_SECS),
        s.phase == LoopPhase::Joining ==> loop_step(s, LoopEvent::JoinSendFailed).1
            == LoopAction::Connect,
{
}

/// A loop that does not join never asks for the join message nor for pings,
/// and the choice is kept across every step.
pub proof fn lemma_join_only_when_joining(s: SocketLoop, ev: LoopEvent)
    ensures
        loop_step(s, ev).0.joins == s.joins,
        !s.joins ==> loop_step(s, ev).1 != LoopAction::SendJoin && loop_step(s, ev).1
            != LoopAction::SendPing,
        s.joins && s.phase == LoopPhase::Connecting ==> loop_step(s, LoopEvent::ConnectSucceeded).1
            == LoopAction::SendJoin,
{
}

/// The loop state after the first `i` events of a run from `s`.
pub open spec fn state_after(s: SocketLoop, evs: Seq<LoopEvent>, i: nat) -> SocketLoop
    decreases i,
{
    if i == 0 {
        s
    } else {
        loop_step(state_after(s, evs, (i - 1) as nat), evs[i - 1]).0
    }
}

/// The action that event `i` of a run from `s` calls for.
pub open spec fn action_at(s: SocketLoop, evs: Seq<LoopEvent>, i: nat) -> LoopAction {
    loop_step(state_after(s, evs, i), evs[i as int]).1
}

/// How many of the first `i` events of a run from `s` start a connection attempt.
pub open spec fn connects_before(s: SocketLoop, evs: Seq<LoopEvent>, i: nat) -> nat
    decreases i,
{
    if i == 0 {
        0
    } else {
        connects_before(s, evs, (i - 1) as nat) + if action_at(s, evs, (i - 1) as nat)
            == LoopAction::Connect {
            1nat
        } else {
            0nat
        }
    }
}

/// A connection is up: being joined or being served.
pub open spec fn is_connected(p: LoopPhase) -> bool {
    p == LoopPhase::Joining || p == LoopPhase::Open
}

/// Over a whole run, the loop keeps its choice to join, and every time a
/// connection comes up it first asks for the join message (when it joins) or
/// just serves the connection (when it does not).
pub proof fn lemma_run_joins_first(s: SocketLoop, evs: Seq<LoopEvent>, i: nat)
    requires
        i < evs.len(),
    ensures
        state_after(s, evs, i).joins == s.joins,
        !is_connected(state_after(s, evs, i).phase) && is_connected(state_after(s, evs, i + 1).phase)
            ==> action_at(s, evs, i) == if s.joins {
            LoopAction::SendJoin
        } else {
            LoopAction::Continue
        },
    decreases i,
{
    if i > 0 {
        lemma_run_joins_first(s, evs, (i - 1) as nat);
    }
}

/// Over a whole run from a loop that is not yet serving, whenever a joining
/// loop is serving a connection, that connection began with the join being
/// sent, which started the keep-alive timer (first ping a full interval
/// later), and the loop has been serving it ever since. So pings go out only
/// after the join, every `PING_INTERVAL_SECS` seconds.
pub proof fn lemma_run_pings_after_join(s: SocketLoop, evs: Seq<LoopEvent>, i: nat)
    requires
        i <= evs.len(),
        s.phase != LoopPhase::Open,
        s.joins,
        state_after(s, evs, i).phase == LoopPhase::Open,
    ensures
        exists|j: nat|
            {
                &&& j < i
                &&& evs[j as int] == LoopEvent::JoinSent
                &&& #[trigger] action_at(s, evs, j) == LoopAction::SchedulePings(PING_INTERVAL_SECS)
                &&& forall|k: nat| j < k <= i ==> #[trigger] state_after(s, evs, k).phase == LoopPhase::Open
            },
    decreases i,
{
    let p = state_after(s, evs, (i - 1) as nat);
    lemma_run_joins_first(s, evs, (i - 1) as nat);
    if p.phase == LoopPhase::Open {
        lemma_run_pings_after_join(s, evs, (i - 1) as nat);
        let j = choose|j: nat|
            {
                &&& j < i - 1
                &&& evs[j as int] == LoopEvent::JoinSent
                &&& #[trigger] action_at(s, evs, j) == LoopAction::SchedulePings(PING_INTERVAL_SECS)
                &&& forall|k: nat| j < k <= i - 1 ==> #[trigger] state_after(s, evs, k).phase
                    == LoopPhase::Open
            };
        assert forall|k: nat| j < k <= i implies #[trigger] state_after(s, evs, k).phase
            == LoopPhase::Open by {
            if k < i {
            }
        }
    } else {
        assert(evs[i - 1] == LoopEvent::JoinSent);
        assert(action_at(s, evs, (i - 1) as nat) == LoopAction::SchedulePings(PING_INTERVAL_SECS));
        assert forall|k: nat| i - 1 < k <= i implies #[trigger] state_after(s, evs, k).phase
            == LoopPhase::Open by {
        }
    }
}

/// A ping is asked for only while a joining loop serves a connection.
pub proof fn lemma_pings_only_when_open(s: SocketLoop, ev: LoopEvent)
    ensures
        loop_step(s, ev).1 == LoopAction::SendPing ==> s.joins && s.phase == LoopPhase::Open
            && ev == LoopEvent::PingDue && loop_step(s, ev).0 == s,
        s.joins && s.phase == LoopPhase::Open ==> loop_step(s, LoopEvent::PingDue).1
            == LoopAction::SendPing,
{
}

/// Over a whole run started at attempt 1 that stays below the counter's
/// limit, the attempt counter is one more than the number of reconnections:
/// it counts exactly the connection attempts made.
pub proof fn lemma_run_counts_attempts(s: SocketLoop, evs: Seq<LoopEvent>, i: nat)
    requires
        i <= evs.len(),
        s.attempts + evs.len() < i32::MAX,
    ensures
        state_after(s, evs, i).attempts == s.attempts + connects_before(s, evs, i),
        connects_before(s, evs, i) <= i,
    decreases i,
{
    if i > 0 {
        lemma_run_counts_attempts(s, evs, (i - 1) as nat);
        lemma_attempts_count_connections(state_after(s, evs, (i - 1) as nat), evs[i - 1]);
    }
}

/// Once the loop is waiting, nothing but the end of the wait moves it: until
/// the first `SleepFinished` it stays in the same state, and that event starts
/// the next connection attempt.
pub proof fn lemma_run_waits_then_reconnects(s: SocketLoop, evs: Seq<LoopEvent>, i: nat, j: nat)
    requires
        i <= j < evs.len(),
        state_after(s, evs, i).phase == LoopPhase::Backoff,
        forall|k: int| i <= k < j ==> evs[k] != LoopEvent::SleepFinished,
        evs[j as int] == LoopEvent::SleepFinished,
    ensures
        state_after(s, evs, j) == state_after(s, evs, i),
        action_at(s, evs, j) == LoopAction::Connect,
        state_after(s, evs, j + 1).phase == LoopPhase::Connecting,
    decreases j - i,
{
    if i < j {
        assert(evs[i as int] != LoopEvent::SleepFinished);
        assert(state_after(s, evs, i + 1) == state_after(s, evs, i));
        lemma_run_waits_then_reconnects(s, evs, i + 1, j);
    }
}
/// The character for a number below ten is its ASCII decimal digit: code
/// 48 plus the number.
pub proof fn lemma_digit_char_code(d: u32)
    requires
        d < 10,
    ensures
        digit_char(d) as u32 == 48 + d,
{
}

/// A game's worker address is `wss://openfront.io/w` followed by the decimal
/// digit of the game's worker index (the hash of the id modulo four).
pub proof fn lemma_worker_url_spells_index(game_id: Seq<char>)
    ensures
        ({
            let i = spec_simple_hash(game_id) % 4;
            let u = worker_url(spec_worker_index(game_id));
            &&& u.len() == 21
            &&& u.subrange(0, 20) == "wss://openfront.io/w"@
            &&& u[20] as u32 == 48 + i
        }),
{
    reveal_strlit("wss://openfront.io/w");
    let i = spec_worker_index(game_id);
    let u = worker_url(i);
    lemma_digit_char_code(i);
    assert(u.subrange(0, 20) =~= "wss://openfront.io/w"@);
}

/// The hash is built character by character: the empty string hashes to 0,
/// and appending a character multiplies the hash by 31 and adds the
/// character's code, modulo 2^32.
pub proof fn lemma_hash_appends(s: Seq<char>, c: char)
    ensures
        hash_bits(Seq::empty()) == 0,
        hash_bits(s.push(c)) as int == (hash_bits(s) as int * 31 + c as u32 as int) % 0x1_0000_0000,
{
    assert(s.push(c).drop_last() =~= s);
}

} // verus!
