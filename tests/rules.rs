use tictactoe::game::{validate_move, Game, Mode, Player, RejectReason, State};
use tictactoe::network::{Handshake, HandshakeStep, HandshakeTimeout, Message, MessageType, NetState};
use tictactoe::state_codec::FormatError;
use tictactoe::terminal::{handle_key, KeyAction};

fn local_state() -> State {
    State {
        board: ['X', ' ', ' ', ' ', 'O', ' ', ' ', ' ', ' '],
        round: 2,
        active: true,
        current_player: Player::X,
        winner: None,
    }
}

fn with_board(board: [char; 9], round: u8, current_player: Player) -> State {
    State { board, round, active: true, current_player, winner: None }
}

#[test]
fn validator_accepts_one_move_by_expected_player() {
    let next = with_board(['X', ' ', ' ', ' ', 'O', ' ', ' ', 'X', ' '], 3, Player::O);
    assert_eq!(validate_move(&local_state(), &next, Player::X), Ok(()));
}

#[test]
fn validator_rejects_two_changes() {
    let next = with_board(['X', 'X', ' ', ' ', 'O', ' ', ' ', 'X', ' '], 3, Player::O);
    assert_eq!(validate_move(&local_state(), &next, Player::X), Err(RejectReason::NotSingleMove));
    let same = local_state();
    assert_eq!(validate_move(&local_state(), &same, Player::X), Err(RejectReason::NotSingleMove));
}

#[test]
fn validator_rejects_stale_round() {
    let next = with_board(['X', ' ', ' ', ' ', 'O', ' ', ' ', 'X', ' '], 2, Player::O);
    assert_eq!(validate_move(&local_state(), &next, Player::X), Err(RejectReason::RoundMismatch));
    let ahead = with_board(['X', ' ', ' ', ' ', 'O', ' ', ' ', 'X', ' '], 4, Player::O);
    assert_eq!(validate_move(&local_state(), &ahead, Player::X), Err(RejectReason::RoundMismatch));
}

#[test]
fn validator_rejects_wrong_mover() {
    let next = with_board(['X', ' ', ' ', ' ', 'O', ' ', ' ', 'O', ' '], 3, Player::O);
    assert_eq!(validate_move(&local_state(), &next, Player::X), Err(RejectReason::WrongMover));
    let erased = with_board([' ', ' ', ' ', ' ', 'O', ' ', ' ', ' ', ' '], 3, Player::O);
    assert_eq!(validate_move(&local_state(), &erased, Player::X), Err(RejectReason::WrongMover));
}

#[test]
fn validator_rejects_turn_not_advanced() {
    let next = with_board(['X', ' ', ' ', ' ', 'O', ' ', ' ', 'X', ' '], 3, Player::X);
    assert_eq!(validate_move(&local_state(), &next, Player::X), Err(RejectReason::TurnNotAdvanced));
}

#[test]
fn validate_keeps_local_state_on_rejection() {
    let mut game = Game::new(Mode::Network, true);
    game.state = local_state();
    let wrong = with_board(['X', ' ', ' ', ' ', 'O', ' ', ' ', 'O', ' '], 3, Player::O);
    assert_eq!(game.validate(wrong), Err(RejectReason::WrongMover));
    assert_eq!(game.state.board, local_state().board);
    assert_eq!(game.state.round, 2);
}

#[test]
fn win_detection_row() {
    let mut s = with_board(['X', 'X', 'X', ' ', 'O', ' ', 'O', ' ', ' '], 5, Player::O);
    s.check_status();
    assert_eq!(s.winner, Some(Player::X));
    assert!(!s.active);
}

#[test]
fn win_detection_anti_diagonal_and_column() {
    let mut s = with_board([' ', 'X', 'O', 'X', 'O', ' ', 'O', ' ', 'X'], 6, Player::X);
    s.check_status();
    assert_eq!(s.winner, Some(Player::O));
    assert!(!s.active);
    let mut c = with_board([' ', 'X', 'O', ' ', 'X', 'O', ' ', 'X', ' '], 5, Player::O);
    c.check_status();
    assert_eq!(c.winner, Some(Player::X));
}

#[test]
fn draw_detection() {
    let mut s = with_board(['O', 'X', 'O', 'O', 'X', 'X', 'X', 'O', 'O'], 9, Player::X);
    s.check_status();
    assert_eq!(s.winner, None);
    assert!(!s.active);
}

#[test]
fn game_in_progress_stays_active() {
    let mut s = with_board(['X', ' ', ' ', ' ', 'O', ' ', ' ', ' ', ' '], 2, Player::X);
    s.check_status();
    assert_eq!(s.winner, None);
    assert!(s.active);
}

#[test]
fn handshake_gives_up_after_five_silent_attempts() {
    let mut h = Handshake::new(true);
    assert!(h.sends_handshake());
    for _ in 0..4 {
        assert_eq!(h.on_read(None), HandshakeStep::Retry { pause: true });
    }
    assert_eq!(h.on_read(None), HandshakeStep::Failed(HandshakeTimeout));
}

#[test]
fn handshake_completes_on_either_message() {
    let mut h = Handshake::new(false);
    assert!(!h.sends_handshake());
    assert_eq!(h.on_read(Some(MessageType::Payload)), HandshakeStep::Retry { pause: false });
    assert_eq!(h.on_read(Some(MessageType::Handshake)), HandshakeStep::Done { send_ack: true });
    let mut g = Handshake::new(true);
    assert_eq!(g.on_read(None), HandshakeStep::Retry { pause: true });
    assert_eq!(g.on_read(Some(MessageType::HandshakeAck)), HandshakeStep::Done { send_ack: false });
}

#[test]
fn new_network_game_roles() {
    let host = Game::new(Mode::Network, true);
    assert_eq!(host.player, Player::O);
    assert_eq!(host.net_state, NetState::Active);
    let guest = Game::new(Mode::Network, false);
    assert_eq!(guest.player, Player::X);
    assert_eq!(guest.net_state, NetState::Waiting);
}

#[test]
fn network_player_places_only_own_mark() {
    let mut guest = Game::new(Mode::Network, false);
    guest.state.current_player = Player::X;
    guest.attempt_placing('O');
    assert_eq!(guest.state.board, [' '; 9]);
    guest.attempt_placing('x');
    assert_eq!(guest.state.board[0], 'X');
    assert_eq!(guest.state.round, 1);
    assert_eq!(guest.state.current_player, Player::O);
}

#[test]
fn placing_off_the_board_or_after_the_end_does_nothing() {
    let mut game = Game::new(Mode::Local, false);
    game.cursor_pos = (1, 1);
    game.attempt_placing('O');
    assert_eq!(game.state.round, 0);
    game.cursor_pos = game.symbol_slots[4];
    game.state.active = false;
    game.attempt_placing('O');
    assert_eq!(game.state.board[4], ' ');
    game.state.active = true;
    game.attempt_placing('?');
    assert_eq!(game.state.board[4], ' ');
}

#[test]
fn restart_only_in_local_mode() {
    let mut local = Game::new(Mode::Local, false);
    local.attempt_placing('O');
    assert_eq!(local.state.round, 1);
    local.restart();
    assert_eq!(local.state.round, 0);
    assert_eq!(local.state.board, [' '; 9]);

    let mut net = Game::new(Mode::Network, true);
    net.attempt_placing('O');
    net.restart();
    assert_eq!(net.state.round, 1);
    assert_eq!(net.state.board[0], 'O');
}

#[test]
fn peer_answers_change_link_state() {
    let mut game = Game::new(Mode::Network, true);
    let r = game.on_message(&Message::signal(MessageType::Accepted)).unwrap();
    assert!(r.is_none());
    assert_eq!(game.net_state, NetState::Waiting);
    let r = game.on_message(&Message::signal(MessageType::Rejected)).unwrap();
    assert!(r.is_none());
    assert_eq!(game.net_state, NetState::Active);
}

#[test]
fn peer_state_is_validated_and_answered() {
    let mut game = Game::new(Mode::Network, true);
    game.state = local_state();
    game.net_state = NetState::Waiting;
    let next = with_board(['X', ' ', ' ', ' ', 'O', ' ', ' ', 'X', ' '], 3, Player::O);
    let reply = game.on_message(&Message::with_payload(next.to_bytes())).unwrap().unwrap();
    assert_eq!(reply.message_type, MessageType::Accepted);
    assert_eq!(game.state.board[7], 'X');
    assert_eq!(game.net_state, NetState::Active);

    let bad = with_board(['X', 'O', ' ', ' ', 'O', ' ', 'O', 'X', ' '], 4, Player::X);
    let reply = game.on_message(&Message::with_payload(bad.to_bytes())).unwrap().unwrap();
    assert_eq!(reply.message_type, MessageType::Rejected);
    assert_eq!(game.state.round, 3);

    let stale = with_board(['X', ' ', ' ', ' ', 'O', ' ', ' ', 'X', ' '], 3, Player::O);
    assert!(game.on_message(&Message::with_payload(stale.to_bytes())).unwrap().is_none());

    let garbage = Message::with_payload(vec![1, 2, 3]);
    assert_eq!(game.on_message(&garbage).unwrap_err(), FormatError::WrongLength);
}

#[test]
fn outgoing_state_only_when_active_in_network() {
    let mut game = Game::new(Mode::Network, true);
    let m = game.outgoing_state().unwrap();
    assert_eq!(m.message_type, MessageType::Payload);
    assert_eq!(m.payload_size, 11);
    assert_eq!(m.payload, game.state.to_bytes());
    game.net_state = NetState::Waiting;
    assert!(game.outgoing_state().is_none());
    assert!(Game::new(Mode::Local, false).outgoing_state().is_none());
}

#[test]
fn keys_drive_the_game() {
    let mut game = Game::new(Mode::Local, false);
    assert_eq!(handle_key(&mut game, b'q'), KeyAction::Quit);
    assert_eq!(handle_key(&mut game, b's'), KeyAction::ShowCursor);
    assert_eq!(handle_key(&mut game, b'h'), KeyAction::HideCursor);
    assert_eq!(handle_key(&mut game, 0x1B), KeyAction::ReadArrow);
    assert_eq!(handle_key(&mut game, b'f'), KeyAction::Nothing);
    assert!(game.free_cursor);
    handle_key(&mut game, b'f');
    assert!(!game.free_cursor);
    handle_key(&mut game, b' ');
    assert_eq!(game.state.board[0], 'O');
    assert_eq!(game.state.current_player, Player::X);
    handle_key(&mut game, b'r');
    assert_eq!(game.state.board, [' '; 9]);
}
