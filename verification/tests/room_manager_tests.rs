use std::collections::HashMap;

use tictactoe::room_manager::{GameError, LocalGame, LocalRoom, RoomManager, User};
use tictactoe::types::db::{Game, Move, Player, Room, RoomStatus, Spectator};
use tictactoe::types::ws::{
    CreateInMemoryGameArgs, MoveType, MoveUpdateArgs, ResponseData, SendMessageArgs,
};

fn player(id: u128, name: &str, symbol: Option<MoveType>) -> Player {
    Player { id, username: name.to_string(), symbol }
}

fn spectator(id: u128, name: &str) -> Spectator {
    Spectator { id, username: name.to_string() }
}

fn client(name: &str) -> User {
    let (tx, _rx) = tokio::sync::mpsc::channel::<String>(4);
    User { username: name.to_string(), tx }
}

fn empty_state() -> Vec<Vec<Option<MoveType>>> {
    vec![vec![None; 3]; 3]
}

fn manager_with_game() -> RoomManager {
    let mut rooms = HashMap::new();
    rooms.insert(
        100,
        LocalRoom {
            players: vec![player(1, "ann", Some(MoveType::X)), player(2, "bob", Some(MoveType::O))],
            spectators: vec![spectator(3, "cat"), spectator(4, "dan")],
            game: Some(LocalGame {
                id: 500,
                players: vec![player(1, "ann", Some(MoveType::X)), player(2, "bob", Some(MoveType::O))],
                state: empty_state(),
                moves: Vec::new(),
            }),
            admin: Some(1),
        },
    );
    let mut clients = HashMap::new();
    clients.insert(1, client("ann"));
    clients.insert(2, client("bob"));
    clients.insert(3, client("cat"));
    RoomManager { clients, rooms }
}

fn mv(room_id: u128, move_type: MoveType, x: u8, y: u8) -> MoveUpdateArgs {
    MoveUpdateArgs { game_id: 500, room_id, move_type, x_pos: x, y_pos: y, is_x_turn: None }
}

fn room(id: u128, admin: Option<u128>) -> Room {
    Room {
        id,
        room_name: format!("room {}", id),
        room_code: "ABCD1234".to_string(),
        status: RoomStatus::Open,
        players: vec![player(1, "ann", None)],
        max_players: 2,
        spectators: vec![],
        max_spectators: 4,
        admin,
        created_at: 0,
    }
}

fn game(id: u128, room_id: u128, completed: bool) -> Game {
    Game {
        id,
        room_id,
        players: vec![player(1, "ann", Some(MoveType::X))],
        state: empty_state(),
        moves: vec![],
        winner: None,
        is_completed: completed,
        created_at: 0,
        completed_at: None,
    }
}

#[test]
fn init_room_is_empty() {
    let r = RoomManager::init_room();
    assert!(r.players.is_empty());
    assert!(r.spectators.is_empty());
    assert!(r.game.is_none());
    assert!(r.admin.is_none());
}

#[test]
fn sync_db_attaches_open_games() {
    let m = RoomManager::sync_db(
        vec![room(10, Some(1)), room(11, None)],
        vec![room(12, Some(7))],
        vec![game(90, 10, true), game(91, 11, false), game(92, 11, false), game(93, 12, true)],
    );
    assert!(m.clients.is_empty());
    assert_eq!(m.rooms.len(), 3);
    assert!(m.rooms[&10].game.is_none());
    // of two open games of one room the later one is kept
    assert_eq!(m.rooms[&11].game.as_ref().unwrap().id, 92);
    assert!(m.rooms[&12].game.is_none());
    assert_eq!(m.rooms[&12].admin, Some(7));
    assert_eq!(m.rooms[&10].players.len(), 1);
}

#[test]
fn create_game_puts_game_in_room() {
    let mut m = manager_with_game();
    m.create_game(CreateInMemoryGameArgs {
        game_id: 777,
        room_id: 100,
        players: vec![player(2, "bob", Some(MoveType::X))],
        state: empty_state(),
        moves: vec![Move { symbol: MoveType::X, x_pos: 0, y_pos: 0, timestamp: 5 }],
    });
    let g = m.rooms[&100].game.as_ref().unwrap();
    assert_eq!(g.id, 777);
    assert_eq!(g.moves.len(), 1);
    assert_eq!(m.rooms[&100].players.len(), 2);
}

#[test]
fn apply_move_fills_cell_and_records_move() {
    let mut m = manager_with_game();
    assert_eq!(m.apply_move(mv(100, MoveType::X, 2, 1), 42), Ok(()));
    let g = m.rooms[&100].game.as_ref().unwrap();
    assert_eq!(g.state[1][2], Some(MoveType::X));
    assert_eq!(g.moves.len(), 1);
    assert_eq!(g.moves[0].timestamp, 42);
    assert_eq!(g.moves[0].x_pos, 2);
    assert_eq!(g.moves[0].y_pos, 1);
}

#[test]
fn apply_move_errors() {
    let mut m = manager_with_game();
    assert_eq!(m.apply_move(mv(999, MoveType::X, 0, 0), 1), Err(GameError::RoomNotFound));
    assert_eq!(m.apply_move(mv(100, MoveType::X, 0, 0), 1), Ok(()));
    // a cell once played cannot be played again
    assert_eq!(m.apply_move(mv(100, MoveType::O, 0, 0), 2), Err(GameError::PositionFilled));
    let g = m.rooms.get_mut(&100).unwrap().game.as_mut().unwrap();
    for _ in 0..8 {
        g.moves.push(Move { symbol: MoveType::O, x_pos: 0, y_pos: 0, timestamp: 0 });
    }
    assert_eq!(m.apply_move(mv(100, MoveType::O, 1, 1), 3), Err(GameError::GameFinished));
    assert_eq!(GameError::GameFinished.message(), "Game is finished");
    assert_eq!(GameError::PositionFilled.message(), "Position is already filled");
    assert_eq!(GameError::RoomNotFound.message(), "Error in updating in-memory game");
}

#[test]
fn apply_move_without_game_changes_nothing() {
    let mut m = manager_with_game();
    m.rooms.get_mut(&100).unwrap().game = None;
    assert_eq!(m.apply_move(mv(100, MoveType::X, 0, 0), 1), Ok(()));
    assert!(m.rooms[&100].game.is_none());
}

#[test]
fn update_game_uses_clock() {
    let mut m = manager_with_game();
    let room = m.update_game(mv(100, MoveType::X, 1, 1)).unwrap();
    let g = room.game.as_ref().unwrap();
    assert_eq!(g.state[1][1], Some(MoveType::X));
    // a time after 2020-01-01
    assert!(g.moves[0].timestamp > 1_577_836_800);
    let g = m.rooms[&100].game.as_ref().unwrap();
    assert_eq!(g.moves.len(), 1);
    assert!(matches!(m.update_game(mv(999, MoveType::X, 0, 0)), Err(GameError::RoomNotFound)));
}

#[test]
fn check_winner_rows_columns_diagonals() {
    let mut m = manager_with_game();
    for (x, y) in [(0u8, 0u8), (1, 1), (2, 2)] {
        m.apply_move(mv(100, MoveType::X, x, y), 0).unwrap();
    }
    assert!(m.check_winner(100, MoveType::X));
    assert!(!m.check_winner(100, MoveType::O));

    let mut m = manager_with_game();
    for (x, y) in [(2u8, 0u8), (2, 1), (2, 2)] {
        m.apply_move(mv(100, MoveType::O, x, y), 0).unwrap();
    }
    assert!(m.check_winner(100, MoveType::O));

    let mut m = manager_with_game();
    for (x, y) in [(0u8, 1u8), (1, 1), (2, 1)] {
        m.apply_move(mv(100, MoveType::X, x, y), 0).unwrap();
    }
    assert!(m.check_winner(100, MoveType::X));
}

#[test]
fn check_winner_needs_a_line() {
    let mut m = manager_with_game();
    // X holds four cells but no line: corners 4, 2, 8, 6 never sum to 15 in threes
    for (x, y) in [(0u8, 0u8), (2, 0), (0, 2), (2, 2)] {
        m.apply_move(mv(100, MoveType::X, x, y), 0).unwrap();
    }
    assert!(!m.check_winner(100, MoveType::X));
    let mut m = manager_with_game();
    m.apply_move(mv(100, MoveType::X, 0, 0), 0).unwrap();
    m.apply_move(mv(100, MoveType::X, 1, 0), 0).unwrap();
    assert!(!m.check_winner(100, MoveType::X));
}

#[test]
fn broadcast_message_skips_sender_and_disconnected() {
    let m = manager_with_game();
    let b = m
        .broadcast_message(&SendMessageArgs { room_id: 100, message: "hi".to_string() }, 1)
        .unwrap();
    // player 2 and spectator 3 are connected; spectator 4 is not
    assert_eq!(b.recipients, vec![2, 3]);
    match &b.response.data {
        ResponseData::ChatUpdate(c) => assert_eq!(c.message, "hi"),
        _ => panic!("expected a chat update"),
    }
    assert!(b.follow_up.is_none());
    assert!(m
        .broadcast_message(&SendMessageArgs { room_id: 5, message: "x".to_string() }, 1)
        .is_none());
}

#[test]
fn broadcast_move_tells_whose_turn() {
    let mut m = manager_with_game();
    m.apply_move(mv(100, MoveType::X, 0, 0), 0).unwrap();
    let b = m.broadcast_move(mv(100, MoveType::X, 0, 0)).unwrap();
    assert_eq!(b.recipients, vec![1, 2, 3]);
    match &b.response.data {
        ResponseData::MoveUpdate(u) => {
            assert_eq!(u.is_x_turn, Some(false));
            assert_eq!(u.x_pos, 0);
        }
        _ => panic!("expected a move update"),
    }
}

#[test]
fn broadcast_room_update_with_join_log() {
    let m = manager_with_game();
    let name = "eve".to_string();
    let b = m.broadcast_room_update(100, 2, &name, true, Some(9)).unwrap();
    assert_eq!(b.recipients, vec![1, 3]);
    match &b.response.data {
        ResponseData::RoomUpdate(u) => {
            assert_eq!(u.players.len(), 2);
            assert_eq!(u.spectators.len(), 2);
            assert_eq!(u.admin, Some(9));
        }
        _ => panic!("expected a room update"),
    }
    match &b.follow_up.as_ref().unwrap().data {
        ResponseData::Log(l) => {
            assert_eq!(l.message, "eve has joined the room!");
            assert!(!l.is_error);
        }
        _ => panic!("expected a log"),
    }
    let b = m.broadcast_room_update(100, 2, &name, false, None).unwrap();
    assert!(b.follow_up.is_none());
}

#[test]
fn broadcast_room_close_only_spectators() {
    let m = manager_with_game();
    let b = m.broadcast_room_close(100, 1).unwrap();
    assert_eq!(b.recipients, vec![3]);
    assert!(matches!(b.response.data, ResponseData::RoomClose));
}

#[test]
fn broadcast_start_and_end_game() {
    let m = manager_with_game();
    let b = m.broadcast_start_game(100, 1).unwrap();
    assert_eq!(b.recipients, vec![2, 3]);
    assert!(matches!(b.response.data, ResponseData::StartGame));
    let b = m.broadcast_end_game(100, false, Some("ann".to_string()), None).unwrap();
    assert_eq!(b.recipients, vec![1, 2, 3]);
    match &b.response.data {
        ResponseData::EndGame(e) => {
            assert!(!e.is_draw);
            assert_eq!(e.winner.as_deref(), Some("ann"));
        }
        _ => panic!("expected an end of game"),
    }
    let b = m.broadcast_end_game(100, true, None, Some(3)).unwrap();
    assert_eq!(b.recipients, vec![1, 2]);
    assert!(m.broadcast_end_game(1, true, None, None).is_none());
}

#[test]
fn recipients_of_missing_room() {
    let m = manager_with_game();
    assert!(m.recipients(42, None, true).is_none());
    assert_eq!(m.recipients(100, None, false), Some(vec![3]));
}

#[test]
fn clear_game_drops_game() {
    let mut m = manager_with_game();
    m.clear_game(100);
    assert!(m.rooms[&100].game.is_none());
    assert_eq!(m.rooms[&100].players.len(), 2);
}
