use renju::board::{Cell, Player};
use renju::codec::{encode_action, encode_response, GameAction, ServerResponse};
use renju::connection::{FrameReader, Inbound};
use renju::field::{ConnectionState, Renju, RenjuConfig, SessionEvent, Submission};
use renju::game::{GameStatus, MoveError, MoveOutcome};

fn config(name: &str) -> RenjuConfig {
    RenjuConfig { dark_mode: false, connection_ip: "127.0.0.1:7878".to_string(), username: name.to_string() }
}

#[test]
fn zero_length_read_after_connect_reports_one_disconnect() {
    let mut session = Renju::new(config("ann"));
    let greeting = session.submit_connect("127.0.0.1:7878".to_string(), "ann".to_string());
    assert_eq!(greeting, encode_action(&GameAction::Connect("ann".to_string())));
    session.connection_opened();
    let mut reader = FrameReader::new();
    let out = reader.on_read(&[]);
    assert_eq!(out.len(), 1);
    assert!(matches!(out[0], Inbound::Disconnected(_)));
    assert!(reader.is_closed());
    assert!(reader.on_read(&encode_response(&ServerResponse::Reset)).is_empty());
    assert!(reader.on_read(&[]).is_empty());
    assert!(reader.on_error().is_empty());
    let events = session.handle_game_action(out);
    assert_eq!(events, vec![SessionEvent::Disconnected]);
    assert_eq!(session.connection_state(), ConnectionState::Disconnected);
    assert!(matches!(session.status(), GameStatus::Disconnected(_)));
}

#[test]
fn reader_splits_and_joins_messages_across_reads() {
    let a = ServerResponse::MoveApplied(5, Player::One, None);
    let b = ServerResponse::Rejected("not your turn".to_string());
    let c = ServerResponse::Reset;
    let mut bytes = encode_response(&a);
    bytes.extend(encode_response(&b));
    bytes.extend(encode_response(&c));
    let mut reader = FrameReader::new();
    let first = reader.on_read(&bytes[..12]);
    assert_eq!(first, vec![Inbound::Response(a)]);
    let second = reader.on_read(&bytes[12..]);
    assert_eq!(second, vec![Inbound::Response(b), Inbound::Response(c)]);
    assert!(!reader.is_closed());
}

#[test]
fn reader_stops_on_malformed_bytes() {
    let mut bytes = encode_response(&ServerResponse::Accepted(None));
    bytes.push(42);
    bytes.extend(encode_response(&ServerResponse::Reset));
    let mut reader = FrameReader::new();
    let out = reader.on_read(&bytes);
    assert_eq!(out.len(), 2);
    assert_eq!(out[0], Inbound::Response(ServerResponse::Accepted(None)));
    assert!(matches!(out[1], Inbound::Disconnected(_)));
    assert!(reader.is_closed());
}

#[test]
fn reader_reports_failed_read_once() {
    let mut reader = FrameReader::new();
    let out = reader.on_error();
    assert_eq!(out.len(), 1);
    assert!(matches!(out[0], Inbound::Disconnected(_)));
    assert!(reader.on_error().is_empty());
}

#[test]
fn offline_moves_are_played_locally() {
    let mut s = Renju::offline(config("solo"));
    assert!(!s.is_online());
    assert_eq!(s.status(), GameStatus::InProgress(Player::One));
    assert_eq!(s.submit_move(0), Ok(Submission::Played(MoveOutcome { winner: None })));
    assert_eq!(s.cell(0), Cell::Owned(Player::One));
    assert_eq!(s.submit_move(0), Err(MoveError::CellOccupied));
    assert_eq!(s.submit_move(225), Err(MoveError::OutOfBounds));
    assert_eq!(s.submit_move(1), Ok(Submission::Played(MoveOutcome { winner: None })));
    assert_eq!(s.cell(1), Cell::Owned(Player::Two));
    for (one, two) in [(15, 2), (30, 3), (45, 4)] {
        s.submit_move(one).unwrap();
        s.submit_move(two).unwrap();
    }
    assert_eq!(s.submit_move(60), Ok(Submission::Played(MoveOutcome { winner: Some(Player::One) })));
    assert_eq!(s.status(), GameStatus::Finished(Player::One));
    assert_eq!(s.submit_move(100), Err(MoveError::GameAlreadyFinished));
    assert_eq!(s.reset(), None);
    assert_eq!(s.status(), GameStatus::InProgress(Player::One));
    assert!(s.board_snapshot().iter().all(|c| *c == Cell::Empty));
}

#[test]
fn online_moves_go_to_the_authority() {
    let mut s = Renju::new(config("bob"));
    assert!(s.is_online());
    assert_eq!(s.status(), GameStatus::WaitingForConnection);
    let sent = s.submit_move(42).unwrap();
    assert_eq!(sent, Submission::Send(encode_action(&GameAction::Move(42, "bob".to_string()))));
    assert_eq!(s.cell(42), Cell::Empty);
    assert_eq!(s.reset(), Some(encode_action(&GameAction::Reset)));
}

#[test]
fn poll_applies_authority_messages_in_order() {
    let mut s = Renju::new(config("cy"));
    s.submit_connect("10.0.0.1:1".to_string(), "cy".to_string());
    assert_eq!(s.connection_state(), ConnectionState::Connecting);
    s.connection_opened();
    assert_eq!(s.connection_state(), ConnectionState::Connected);
    assert_eq!(s.status(), GameStatus::InProgress(Player::One));
    let inbound = vec![
        Inbound::Response(ServerResponse::Accepted(None)),
        Inbound::Response(ServerResponse::MoveApplied(10, Player::One, None)),
        Inbound::Response(ServerResponse::MoveApplied(10, Player::Two, None)),
        Inbound::Response(ServerResponse::Rejected("slow down".to_string())),
        Inbound::Response(ServerResponse::MoveApplied(11, Player::Two, None)),
    ];
    let events = s.handle_game_action(inbound);
    assert_eq!(
        events,
        vec![
            SessionEvent::MoveApplied(10, Player::One, None),
            SessionEvent::MoveRefused(10, Player::Two, MoveError::CellOccupied),
            SessionEvent::Rejected("slow down".to_string()),
            SessionEvent::MoveApplied(11, Player::Two, None),
        ]
    );
    assert_eq!(s.cell(10), Cell::Owned(Player::One));
    assert_eq!(s.cell(11), Cell::Owned(Player::Two));
    assert_eq!(s.status(), GameStatus::InProgress(Player::One));
    let events = s.handle_game_action(vec![
        Inbound::Response(ServerResponse::Accepted(Some(Player::Two))),
        Inbound::Response(ServerResponse::Reset),
    ]);
    assert_eq!(events, vec![SessionEvent::WinnerDeclared(Player::Two), SessionEvent::GameReset]);
    assert_eq!(s.status(), GameStatus::InProgress(Player::One));
    assert_eq!(s.cell(10), Cell::Empty);
    assert!(s.handle_game_action(Vec::new()).is_empty());
}

#[test]
fn failed_connection_is_reported_not_fatal() {
    let mut s = Renju::new(config("dee"));
    s.submit_connect("nowhere:1".to_string(), "dee".to_string());
    s.connection_failed("connection refused".to_string());
    assert_eq!(s.connection_state(), ConnectionState::Failed("connection refused".to_string()));
    assert_eq!(s.status(), GameStatus::Disconnected("connection refused".to_string()));
}

#[test]
fn connect_keeps_address_and_name() {
    let mut s = Renju::new(RenjuConfig::default());
    s.set_dark_mode(true);
    s.submit_connect("host:9".to_string(), "eve".to_string());
    assert_eq!(
        s.config(),
        &RenjuConfig { dark_mode: true, connection_ip: "host:9".to_string(), username: "eve".to_string() }
    );
}
