use gossip_chat::game::board::{Board, Piece};
use gossip_chat::game::{Game, GamePhase, Player, PlayerType};
use gossip_chat::identity::SecretKey;
use gossip_chat::state::{ActiveChannel, AppContext, Request, SessionError};
use gossip_chat::utils::{get_secret_key, get_timestamp};

fn room(topic: &str, name: &str) -> ActiveChannel {
    ActiveChannel::new(topic.to_string(), name)
}

#[test]
fn idle_session_refuses_requests() {
    let mut context = AppContext::new();
    assert!(!context.is_active());
    assert_eq!(
        context.get_topic_id(),
        Err(SessionError::NoActiveChannel(Request::GetTopicId))
    );
    assert_eq!(
        context.active_channel(Request::SendMessage),
        Err(SessionError::NoActiveChannel(Request::SendMessage))
    );
    assert_eq!(
        context.generate_ticket(None),
        Err(SessionError::NoActiveChannel(Request::GenerateTicket))
    );
    // what a room that is not there might have issued does not count
    assert_eq!(
        context.generate_ticket(Some("ticket".to_string())),
        Err(SessionError::NoActiveChannel(Request::GenerateTicket))
    );
    assert_eq!(context.latest_ticket(), None);
    assert_eq!(context.drop_channel(None), None);
}

#[test]
fn error_messages_name_the_request() {
    let cases = [
        (Request::GetPeers, "Could not get peers. No active channel."),
        (Request::SendMessage, "Could not send message. No active channel."),
        (Request::GetMessageLog, "Could not get message log. No active channel."),
        (Request::GetTopicId, "Could not get topic ID. No active channel."),
        (Request::GenerateTicket, "Could not generate ticket. No active channel."),
    ];
    for (request, text) in cases {
        assert_eq!(SessionError::NoActiveChannel(request).message(), text);
    }
    assert_eq!(SessionError::TicketUnavailable.message(), "Could not generate ticket.");
}

#[test]
fn active_session_answers() {
    let mut context = AppContext::new();
    assert_eq!(context.start_channel(room("topic-a", "al")), None);
    assert!(context.is_active());
    assert_eq!(context.get_topic_id(), Ok("topic-a".to_string()));
    assert_eq!(context.active_channel(Request::GetPeers), Ok(&room("topic-a", "al")));
    assert_eq!(context.generate_ticket(Some("t1".to_string())), Ok("t1".to_string()));
    assert_eq!(context.latest_ticket(), Some("t1".to_string()));
    assert_eq!(context.generate_ticket(None), Err(SessionError::TicketUnavailable));
    assert_eq!(context.latest_ticket(), Some("t1".to_string()));
}

#[test]
fn starting_a_room_replaces_the_active_one() {
    let mut context = AppContext::new();
    context.start_channel(room("topic-a", "al"));
    assert_eq!(context.start_channel(room("topic-b", "al")), Some(room("topic-a", "al")));
    assert_eq!(context.get_topic_id(), Ok("topic-b".to_string()));
}

#[test]
fn leaving_keeps_the_last_ticket() {
    let mut context = AppContext::new();
    context.start_channel(room("topic-a", "al"));
    context.generate_ticket(Some("t1".to_string())).unwrap();
    assert_eq!(context.drop_channel(Some("t2".to_string())), Some(room("topic-a", "al")));
    assert!(!context.is_active());
    assert_eq!(context.generate_ticket(None), Ok("t2".to_string()));
    // leaving again is harmless
    assert_eq!(context.drop_channel(Some("t3".to_string())), None);
    assert_eq!(context.latest_ticket(), Some("t2".to_string()));
    // a room that could issue no ticket when it was left keeps the former one
    context.start_channel(room("topic-b", "al"));
    assert_eq!(context.drop_channel(None), Some(room("topic-b", "al")));
    assert_eq!(context.latest_ticket(), Some("t2".to_string()));
}

#[test]
fn board_starts_empty_and_keeps_what_is_set() {
    let mut board = Board::new();
    for y in 0..3 {
        for x in 0..3 {
            assert_eq!(board.get(x, y), Piece::Empty);
        }
    }
    board.set(1, 2, Piece::Cross);
    board.set(0, 0, Piece::Naught);
    for y in 0..3 {
        for x in 0..3 {
            let expected = match (x, y) {
                (1, 2) => Piece::Cross,
                (0, 0) => Piece::Naught,
                _ => Piece::Empty,
            };
            assert_eq!(board.get(x, y), expected);
        }
    }
    // squares are stored row by row
    assert_eq!(board.0[7], Piece::Cross);
    assert_eq!(board.get(7, 0), Piece::Cross);
    board.set(1, 2, Piece::Empty);
    assert_eq!(board.get(1, 2), Piece::Empty);
}

#[test]
fn pieces_have_symbols_and_a_default() {
    assert_eq!(Piece::Naught.symbol(), 'O');
    assert_eq!(Piece::Cross.symbol(), 'X');
    assert_eq!(Piece::Empty.symbol(), ' ');
    assert_eq!(Piece::Naught.as_str(), "O");
    assert_eq!(Piece::default(), Piece::Empty);
    let mut board = Board::new();
    board.set(0, 0, Piece::Cross);
    board.set(2, 0, Piece::Naught);
    board.set(0, 1, Piece::Naught);
    assert_eq!(board.to_text(), "X\n \nO\n");
    assert_eq!(PlayerType::default(), PlayerType::Spectator);
}

#[test]
fn game_starts_in_the_lobby() {
    let mut game = Game::new();
    assert!(matches!(game.state, GamePhase::New));
    assert!(game.participants.is_empty());
    assert_eq!(game.version, 0);
    game.participants.insert(Player::Local(PlayerType::Human));
    game.version = 3;
    game.start_game();
    match game.state {
        GamePhase::InProgress { turn, board } => {
            assert_eq!(turn, 0);
            assert!(board.0.iter().all(|p| *p == Piece::Empty));
        }
        _ => panic!("the game has not started"),
    }
    assert_eq!(game.participants.len(), 1);
    assert_eq!(game.version, 3);
}

#[test]
fn stored_secret_key_is_kept_and_a_missing_one_is_made() {
    let stored = SecretKey::from_bytes(&[5; 32]);
    let (key, fresh) = get_secret_key(Some(stored));
    assert_eq!(key.to_bytes(), [5; 32]);
    assert!(!fresh);
    let (first, fresh) = get_secret_key(None);
    assert!(fresh);
    let (second, _) = get_secret_key(None);
    assert_ne!(first.to_bytes(), second.to_bytes());
}

#[test]
fn timestamp_is_in_microseconds_and_does_not_run_backwards_here() {
    let first = get_timestamp();
    let second = get_timestamp();
    // later than the year 2020, earlier than the year 2200
    assert!(first > 1_577_836_800_000_000);
    assert!(first < 7_258_118_400_000_000);
    assert!(second >= first);
}
