use openfront_client::schemas::{ClientMessage, Intent, TileRef, ServerMessage, PongMessage, PrestartMessage, GameType, UpdateMessage, ErrorMessage};
use openfront_client::transport::{
    calculate_worker_index, intent_message, join_message, ping_message, simple_hash, ConnectionInfo,
    FrameKind, LoopAction, LoopEvent, LoopPhase, SocketLoop, WebSocketConfig,
};

#[test]
fn simple_hash_known_values() {
    assert_eq!(simple_hash(""), 0);
    assert_eq!(simple_hash("a"), 97);
    assert_eq!(simple_hash("abc"), 96354);
    assert_eq!(simple_hash("PM7jP0nv"), 1015857800);
    assert_eq!(simple_hash("hello world"), 1794106052);
}

#[test]
fn simple_hash_takes_absolute_value_of_negative_hash() {
    // the 32-bit signed hash of "game1234" is negative
    assert_eq!(simple_hash("game1234"), 1770255564);
}

#[test]
fn simple_hash_uses_code_points() {
    assert_eq!(simple_hash("\u{1F600}"), 0x1F600);
}

#[test]
fn worker_index_is_hash_mod_four() {
    assert_eq!(calculate_worker_index("PM7jP0nv"), 0);
    assert_eq!(calculate_worker_index("XyZ"), 1);
    assert_eq!(calculate_worker_index("Hello"), 2);
    assert_eq!(calculate_worker_index("openfront"), 3);
    for id in ["x", "yy", "game1234", "abcdefgh", "zzzzzzzzzzzzzz"] {
        assert!(calculate_worker_index(id) < 4);
    }
}

#[test]
fn config_for_game_points_at_worker() {
    let c = WebSocketConfig::for_game("openfront");
    assert_eq!(c.url, "wss://openfront.io/w3");
    assert!(c.auto_reconnect);
    assert_eq!(c.reconnect_delay_secs, 5);
    assert_eq!(WebSocketConfig::for_game("PM7jP0nv").url, "wss://openfront.io/w0");
}

#[test]
fn default_config_has_no_url() {
    let c = WebSocketConfig::default();
    assert_eq!(c.url, "");
    assert!(c.auto_reconnect);
    assert_eq!(c.reconnect_delay_secs, 5);
}

#[test]
fn join_message_copies_connection_info() {
    let info = ConnectionInfo {
        game_id: "PM7jP0nv".to_string(),
        client_id: "AB12CD34".to_string(),
        username: "RustPlayer".to_string(),
        token: "tok".to_string(),
        flag: "us".to_string(),
    };
    match join_message(&info) {
        ClientMessage::Join(j) => {
            assert_eq!(j.game_id, "PM7jP0nv");
            assert_eq!(j.client_id, "AB12CD34");
            assert_eq!(j.username, "RustPlayer");
            assert_eq!(j.token, "tok");
            assert_eq!(j.flag, "us");
            assert_eq!(j.last_turn, 0);
            assert!(j.pattern.is_none());
        }
        other => panic!("unexpected {:?}", other),
    }
}

#[test]
fn ping_and_intent_messages() {
    match ping_message() {
        ClientMessage::Ping(p) => assert_eq!(p.tick, 0),
        other => panic!("unexpected {:?}", other),
    }
    match intent_message(42, Intent::Spawn { tile: TileRef { q: 1, r: -2 } }) {
        ClientMessage::Intent(m) => {
            assert_eq!(m.tick, 42);
            match m.intent {
                Intent::Spawn { tile } => assert_eq!(tile, TileRef { q: 1, r: -2 }),
                other => panic!("unexpected {:?}", other),
            }
        }
        other => panic!("unexpected {:?}", other),
    }
}

#[test]
fn socket_loop_happy_path() {
    let (mut s, a) = SocketLoop::start(true);
    assert_eq!(a, LoopAction::Connect);
    assert_eq!(s.attempts, 1);
    assert_eq!(s.step(LoopEvent::ConnectSucceeded), LoopAction::SendJoin);
    assert_eq!(s.phase, LoopPhase::Joining);
    // before the join is out, a ping tick asks for nothing
    assert_eq!(s.step(LoopEvent::PingDue), LoopAction::Continue);
    assert_eq!(s.step(LoopEvent::JoinSent), LoopAction::SchedulePings(5));
    assert_eq!(s.phase, LoopPhase::Open);
    assert_eq!(s.step(LoopEvent::PingDue), LoopAction::SendPing);
    assert_eq!(s.step(LoopEvent::FrameReceived(FrameKind::Text)), LoopAction::ForwardText);
    assert_eq!(s.step(LoopEvent::FrameReceived(FrameKind::Ping)), LoopAction::Continue);
    assert_eq!(s.step(LoopEvent::FrameReceived(FrameKind::Binary)), LoopAction::Continue);
    assert_eq!(s.step(LoopEvent::Sent), LoopAction::Continue);
    assert_eq!(s.phase, LoopPhase::Open);
    assert_eq!(s.attempts, 1);
}

#[test]
fn socket_loop_reconnects_after_close_with_delay() {
    let (mut s, _) = SocketLoop::start(true);
    s.step(LoopEvent::ConnectSucceeded);
    s.step(LoopEvent::JoinSent);
    assert_eq!(s.step(LoopEvent::FrameReceived(FrameKind::Close)), LoopAction::Sleep(5));
    assert_eq!(s.phase, LoopPhase::Backoff);
    assert_eq!(s.step(LoopEvent::SleepFinished), LoopAction::Connect);
    assert_eq!(s.attempts, 2);
    assert_eq!(s.step(LoopEvent::ConnectFailed), LoopAction::Sleep(5));
    assert_eq!(s.step(LoopEvent::SleepFinished), LoopAction::Connect);
    assert_eq!(s.attempts, 3);
}

#[test]
fn socket_loop_failed_join_retries_at_once() {
    let (mut s, _) = SocketLoop::start(true);
    s.step(LoopEvent::ConnectSucceeded);
    assert_eq!(s.step(LoopEvent::JoinSendFailed), LoopAction::Connect);
    assert_eq!(s.phase, LoopPhase::Connecting);
    assert_eq!(s.attempts, 2);
}

#[test]
fn socket_loop_send_failure_and_error_back_off() {
    let (mut s, _) = SocketLoop::start(true);
    s.step(LoopEvent::ConnectSucceeded);
    s.step(LoopEvent::JoinSent);
    assert_eq!(s.step(LoopEvent::SendFailed), LoopAction::Sleep(5));
    let (mut s, _) = SocketLoop::start(true);
    s.step(LoopEvent::ConnectSucceeded);
    s.step(LoopEvent::JoinSent);
    assert_eq!(s.step(LoopEvent::FrameReceived(FrameKind::Error)), LoopAction::Sleep(5));
}

#[test]
fn server_message_types_construct() {
    let m = ServerMessage::Pong(PongMessage { tick: 3 });
    assert!(matches!(m, ServerMessage::Pong(PongMessage { tick: 3 })));
    let p = ServerMessage::Prestart(PrestartMessage { game_map: "World".to_string(), game_type: GameType::FreeForAll });
    assert!(matches!(p, ServerMessage::Prestart(_)));
    let u = ServerMessage::Update(UpdateMessage { tick: 10, updates: vec![] });
    assert!(matches!(u, ServerMessage::Update(_)));
    let e = ServerMessage::Error(ErrorMessage { error: "bad".to_string() });
    assert!(matches!(e, ServerMessage::Error(_)));
}

#[test]
fn socket_loop_without_join_only_serves() {
    let (mut s, a) = SocketLoop::start(false);
    assert_eq!(a, LoopAction::Connect);
    assert!(!s.joins);
    assert_eq!(s.step(LoopEvent::ConnectSucceeded), LoopAction::Continue);
    assert_eq!(s.phase, LoopPhase::Open);
    assert_eq!(s.step(LoopEvent::PingDue), LoopAction::Continue);
    assert_eq!(s.step(LoopEvent::FrameReceived(FrameKind::Text)), LoopAction::ForwardText);
    assert_eq!(s.step(LoopEvent::FrameReceived(FrameKind::Close)), LoopAction::Sleep(5));
    assert_eq!(s.step(LoopEvent::SleepFinished), LoopAction::Connect);
    assert_eq!(s.attempts, 2);
    assert!(!s.joins);
}

#[test]
fn socket_loop_joins_first_on_every_connection() {
    let (mut s, _) = SocketLoop::start(true);
    let events = [
        LoopEvent::ConnectFailed,
        LoopEvent::SleepFinished,
        LoopEvent::ConnectSucceeded,
        LoopEvent::JoinSent,
        LoopEvent::Sent,
        LoopEvent::FrameReceived(FrameKind::Error),
        LoopEvent::Sent,
        LoopEvent::SleepFinished,
        LoopEvent::ConnectSucceeded,
        LoopEvent::JoinSendFailed,
        LoopEvent::ConnectSucceeded,
    ];
    let mut connects = 0;
    for ev in events {
        let was_open = s.phase == LoopPhase::Open || s.phase == LoopPhase::Joining;
        let action = s.step(ev);
        if action == LoopAction::Connect {
            connects += 1;
        }
        if !was_open && (s.phase == LoopPhase::Open || s.phase == LoopPhase::Joining) {
            assert_eq!(action, LoopAction::SendJoin);
        }
    }
    // the wait ignored the stray send; attempts count the connections made
    assert_eq!(s.attempts, 1 + connects);
    assert_eq!(s.attempts, 4);
}
