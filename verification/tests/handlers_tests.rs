use std::collections::HashMap;

use tictactoe::handlers::{
    can_play_move, create_game_handler, create_room_handler, handle_move_update,
    join_room_handler, leave_room_handler, play_move, GameResult,
};
use tictactoe::room_manager::{GameError, LocalGame, LocalRoom, RoomManager, User};
use tictactoe::types::db::{Player, Role};
use tictactoe::types::ws::{
    CreateInMemoryGameArgs, CreateRoomArgs, JoinRoomArgs, LeaveRoomArgs, MoveType,
    MoveUpdateArgs, ResponseData, WebSocketResponse,
};

fn client(name: &str) -> User {
    let (tx, _rx) = tokio::sync::mpsc::channel::<String>(4);
    User { username: name.to_string(), tx }
}

fn manager() -> RoomManager {
    let mut clients = HashMap::new();
    for (id, name) in [(1u128, "ann"), (2, "bob"), (3, "cat")] {
        clients.insert(id, client(name));
    }
    RoomManager { clients, rooms: HashMap::new() }
}

fn log_of(r: &WebSocketResponse) -> (String, bool) {
    match &r.data {
        ResponseData::Log(l) => (l.message.clone(), l.is_error),
        _ => panic!("expected a log"),
    }
}

fn mv(move_type: MoveType, x: u8, y: u8) -> MoveUpdateArgs {
    MoveUpdateArgs { game_id: 500, room_id: 100, move_type, x_pos: x, y_pos: y, is_x_turn: None }
}

fn with_game(m: &mut RoomManager) {
    let game = LocalGame {
        id: 500,
        players: vec![
            Player { id: 1, username: "ann".to_string(), symbol: Some(MoveType::X) },
            Player { id: 2, username: "bob".to_string(), symbol: Some(MoveType::O) },
        ],
        state: vec![vec![None; 3]; 3],
        moves: vec![],
    };
    m.rooms.get_mut(&100).unwrap().game = Some(game);
}

fn two_player_room() -> RoomManager {
    let mut m = manager();
    create_room_handler(&mut m, CreateRoomArgs { room_id: 100 }, 1, "ann".to_string());
    join_room_handler(
        &mut m,
        JoinRoomArgs { room_id: 100, role: Role::Player, symbol: Some(MoveType::O) },
        2,
        "bob".to_string(),
    );
    m
}

#[test]
fn create_room_makes_creator_admin() {
    let mut m = manager();
    let reply = create_room_handler(&mut m, CreateRoomArgs { room_id: 100 }, 1, "ann".to_string());
    assert_eq!(log_of(&reply), ("Room Created Successfully".to_string(), false));
    let r = &m.rooms[&100];
    assert_eq!(r.admin, Some(1));
    assert_eq!(r.players.len(), 1);
    assert_eq!(r.players[0].id, 1);
    assert!(r.players[0].symbol.is_none());
    assert!(r.spectators.is_empty());
}

#[test]
fn join_room_adds_member_and_tells_others() {
    let mut m = manager();
    create_room_handler(&mut m, CreateRoomArgs { room_id: 100 }, 1, "ann".to_string());
    let o = join_room_handler(
        &mut m,
        JoinRoomArgs { room_id: 100, role: Role::Spectator, symbol: None },
        3,
        "cat".to_string(),
    );
    assert_eq!(log_of(&o.reply), ("Room Joined Successfully".to_string(), false));
    assert_eq!(m.rooms[&100].spectators.len(), 1);
    let b = o.room_update.unwrap();
    assert_eq!(b.recipients, vec![1]);
    assert_eq!(log_of(b.follow_up.as_ref().unwrap()).0, "cat has joined the room!");
}

#[test]
fn join_missing_room_is_an_error() {
    let mut m = manager();
    let o = join_room_handler(
        &mut m,
        JoinRoomArgs { room_id: 7, role: Role::Player, symbol: None },
        2,
        "bob".to_string(),
    );
    assert_eq!(log_of(&o.reply), ("Room doesn't exist".to_string(), true));
    assert!(o.room_update.is_none());
    assert!(m.rooms.is_empty());
}

#[test]
fn leave_then_rejoin_restores_members() {
    let mut m = two_player_room();
    let before: Vec<u128> = m.rooms[&100].players.iter().map(|p| p.id).collect();
    join_room_handler(
        &mut m,
        JoinRoomArgs { room_id: 100, role: Role::Spectator, symbol: None },
        3,
        "cat".to_string(),
    );
    let name = "cat".to_string();
    leave_room_handler(
        &mut m,
        LeaveRoomArgs { room_id: 100, game_id: None, role: Role::Spectator },
        3,
        &name,
    );
    let after: Vec<u128> = m.rooms[&100].players.iter().map(|p| p.id).collect();
    assert_eq!(before, after);
    assert!(m.rooms[&100].spectators.is_empty());
}

#[test]
fn leave_hands_admin_to_remaining_player() {
    let mut m = two_player_room();
    let name = "ann".to_string();
    let o = leave_room_handler(
        &mut m,
        LeaveRoomArgs { room_id: 100, game_id: None, role: Role::Player },
        1,
        &name,
    );
    assert_eq!(log_of(&o.reply), ("Room Left Successfully".to_string(), false));
    assert_eq!(m.rooms[&100].admin, Some(2));
    assert_eq!(o.new_admin, Some(Some(2)));
    assert!(o.room_closed.is_none());
    let b = o.room_update.unwrap();
    assert_eq!(b.recipients, vec![2]);
    match &b.response.data {
        ResponseData::RoomUpdate(u) => assert_eq!(u.admin, Some(2)),
        _ => panic!("expected a room update"),
    }
    assert!(o.forfeit.is_none());
}

#[test]
fn leave_of_non_admin_keeps_admin() {
    let mut m = two_player_room();
    let name = "bob".to_string();
    let o = leave_room_handler(
        &mut m,
        LeaveRoomArgs { room_id: 100, game_id: None, role: Role::Player },
        2,
        &name,
    );
    assert_eq!(m.rooms[&100].admin, Some(1));
    assert_eq!(o.new_admin, None);
}

#[test]
fn last_player_leaving_closes_room() {
    let mut m = manager();
    create_room_handler(&mut m, CreateRoomArgs { room_id: 100 }, 1, "ann".to_string());
    join_room_handler(
        &mut m,
        JoinRoomArgs { room_id: 100, role: Role::Spectator, symbol: None },
        3,
        "cat".to_string(),
    );
    let name = "ann".to_string();
    let o = leave_room_handler(
        &mut m,
        LeaveRoomArgs { room_id: 100, game_id: None, role: Role::Player },
        1,
        &name,
    );
    assert!(!m.rooms.contains_key(&100));
    let b = o.room_closed.unwrap();
    assert_eq!(b.recipients, vec![3]);
    assert!(matches!(b.response.data, ResponseData::RoomClose));
    assert!(o.room_update.is_none());
}

#[test]
fn leave_missing_room_is_an_error() {
    let mut m = manager();
    let name = "ann".to_string();
    let o = leave_room_handler(
        &mut m,
        LeaveRoomArgs { room_id: 100, game_id: None, role: Role::Player },
        1,
        &name,
    );
    assert_eq!(log_of(&o.reply), ("Room doesn't exist".to_string(), true));
}

#[test]
fn player_leaving_game_forfeits() {
    let mut m = two_player_room();
    with_game(&mut m);
    let name = "ann".to_string();
    let o = leave_room_handler(
        &mut m,
        LeaveRoomArgs { room_id: 100, game_id: Some(500), role: Role::Player },
        1,
        &name,
    );
    let f = o.forfeit.unwrap();
    assert_eq!(f.game_id, 500);
    assert_eq!(f.winner_id, 2);
    assert_eq!(f.end_game.recipients, vec![2]);
    match &f.end_game.response.data {
        ResponseData::EndGame(e) => {
            assert!(!e.is_draw);
            assert_eq!(e.winner.as_deref(), Some("bob"));
        }
        _ => panic!("expected an end of game"),
    }
    assert!(m.rooms[&100].game.is_none());
}

#[test]
fn create_game_handler_starts_game() {
    let mut m = two_player_room();
    let start = create_game_handler(
        &mut m,
        CreateInMemoryGameArgs {
            game_id: 500,
            room_id: 100,
            players: vec![],
            state: vec![vec![None; 3]; 3],
            moves: vec![],
        },
        1,
    );
    assert_eq!(start.recipients, vec![2]);
    assert!(matches!(start.response.data, ResponseData::StartGame));
    assert_eq!(m.rooms[&100].game.as_ref().unwrap().id, 500);
}

#[test]
fn winning_move_ends_game() {
    let mut m = two_player_room();
    with_game(&mut m);
    let ann = "ann".to_string();
    let bob = "bob".to_string();
    for (mt, x, y, id, name) in [
        (MoveType::X, 0u8, 0u8, 1u128, &ann),
        (MoveType::O, 0, 1, 2, &bob),
        (MoveType::X, 1, 0, 1, &ann),
        (MoveType::O, 1, 1, 2, &bob),
    ] {
        let o = play_move(&mut m, mv(mt, x, y), id, name, 10, 20).unwrap();
        assert_eq!(o.result, GameResult::Ongoing);
        assert!(o.end_game.is_none());
        assert_eq!(o.winner, None);
        assert_eq!(o.completed, None);
        assert_eq!(o.completed_at, None);
    }
    let o = play_move(&mut m, mv(MoveType::X, 2, 0), 1, &ann, 11, 12).unwrap();
    assert_eq!(o.result, GameResult::Won);
    assert_eq!(o.winner, Some(1));
    assert_eq!(o.completed, Some(true));
    assert_eq!(o.completed_at, Some(12));
    assert_eq!(o.moves.len(), 5);
    assert_eq!(o.moves[4].timestamp, 11);
    assert_eq!(o.state[0][2], Some(MoveType::X));
    match &o.end_game.unwrap().response.data {
        ResponseData::EndGame(e) => {
            assert!(!e.is_draw);
            assert_eq!(e.winner.as_deref(), Some("ann"));
        }
        _ => panic!("expected an end of game"),
    }
    assert!(m.rooms[&100].game.is_none());
}

#[test]
fn ninth_move_without_line_is_a_draw() {
    let mut m = two_player_room();
    with_game(&mut m);
    let ann = "ann".to_string();
    // X O X / X O O / O X X : no line for either mark
    let cells = [
        (MoveType::X, 0u8, 0u8),
        (MoveType::O, 1, 0),
        (MoveType::X, 2, 0),
        (MoveType::O, 1, 1),
        (MoveType::X, 0, 1),
        (MoveType::O, 2, 1),
        (MoveType::X, 1, 2),
        (MoveType::O, 0, 2),
    ];
    for (mt, x, y) in cells {
        let o = play_move(&mut m, mv(mt, x, y), 1, &ann, 0, 0).unwrap();
        assert_eq!(o.result, GameResult::Ongoing);
    }
    let o = play_move(&mut m, mv(MoveType::X, 2, 2), 1, &ann, 5, 6).unwrap();
    assert_eq!(o.result, GameResult::Draw);
    assert_eq!(o.winner, None);
    assert_eq!(o.completed, Some(true));
    assert_eq!(o.completed_at, Some(6));
    match &o.end_game.unwrap().response.data {
        ResponseData::EndGame(e) => {
            assert!(e.is_draw);
            assert!(e.winner.is_none());
        }
        _ => panic!("expected an end of game"),
    }
    assert!(m.rooms[&100].game.is_none());
}

#[test]
fn refused_move_changes_nothing() {
    let mut m = two_player_room();
    with_game(&mut m);
    let ann = "ann".to_string();
    handle_move_update(&mut m, mv(MoveType::X, 1, 1), 1, &ann).unwrap();
    let r = handle_move_update(&mut m, mv(MoveType::O, 1, 1), 1, &ann);
    assert_eq!(r.err(), Some(GameError::PositionFilled));
    assert_eq!(m.rooms[&100].game.as_ref().unwrap().moves.len(), 1);
    let mut other = mv(MoveType::O, 0, 0);
    other.room_id = 9;
    assert_eq!(handle_move_update(&mut m, other, 1, &ann).err(), Some(GameError::RoomNotFound));
}

#[test]
fn move_update_alternates_turn() {
    let mut m = two_player_room();
    with_game(&mut m);
    let ann = "ann".to_string();
    let o = play_move(&mut m, mv(MoveType::X, 0, 0), 1, &ann, 0, 0).unwrap();
    assert_eq!(o.move_update.recipients, vec![1, 2]);
    match &o.move_update.response.data {
        ResponseData::MoveUpdate(u) => assert_eq!(u.is_x_turn, Some(false)),
        _ => panic!("expected a move update"),
    }
    let o = play_move(&mut m, mv(MoveType::O, 1, 0), 1, &ann, 0, 0).unwrap();
    match &o.move_update.response.data {
        ResponseData::MoveUpdate(u) => assert_eq!(u.is_x_turn, Some(true)),
        _ => panic!("expected a move update"),
    }
}

#[test]
fn playable_moves_keep_marks_on_the_square() {
    let mut m = two_player_room();
    assert!(!can_play_move(&m, mv(MoveType::X, 0, 0)));
    let mut other = mv(MoveType::X, 0, 0);
    other.room_id = 9;
    assert!(can_play_move(&m, other));
    with_game(&mut m);
    assert!(can_play_move(&m, mv(MoveType::X, 2, 2)));
    // a fourth column, with an X outside the magic square
    {
        let game = m.rooms.get_mut(&100).unwrap().game.as_mut().unwrap();
        for row in game.state.iter_mut() {
            row.push(None);
        }
        game.state[0][3] = Some(MoveType::X);
    }
    assert!(!can_play_move(&m, mv(MoveType::X, 1, 1)));
    assert!(can_play_move(&m, mv(MoveType::O, 1, 1)));
    assert!(!can_play_move(&m, mv(MoveType::O, 3, 1)));
    // a taken cell is refused before any check of the marks
    assert!(can_play_move(&m, mv(MoveType::X, 3, 0)));
    assert!(!can_play_move(&m, mv(MoveType::X, 4, 0)));
}
