use tictactoe::routes::{
    assign_symbols, check_role_capacity, check_room_open, check_room_request, join_room,
    leave_room, page_params, paginate, shuffled_symbols, RouteError,
};
use tictactoe::types::db::{Player, Role, Room, RoomStatus, Spectator, User};
use tictactoe::types::route::CreateRoom;
use tictactoe::types::ws::MoveType;

fn room(players: usize, max_players: i16, spectators: usize, max_spectators: i16) -> Room {
    Room {
        id: 1,
        room_name: "r".to_string(),
        room_code: "CODE0001".to_string(),
        status: RoomStatus::Open,
        players: (0..players)
            .map(|i| Player { id: i as u128 + 10, username: format!("p{}", i), symbol: None })
            .collect(),
        max_players,
        spectators: (0..spectators)
            .map(|i| Spectator { id: i as u128 + 20, username: format!("s{}", i) })
            .collect(),
        max_spectators,
        admin: Some(10),
        created_at: 3,
    }
}

#[test]
fn spectator_limit_of_new_room() {
    let ok = CreateRoom { room_name: "a".to_string(), max_spectators: 8 };
    let too_many = CreateRoom { room_name: "a".to_string(), max_spectators: 9 };
    assert_eq!(check_room_request(&ok), Ok(()));
    assert_eq!(check_room_request(&too_many), Err(RouteError::TooManySpectators));
    assert_eq!(RouteError::TooManySpectators.message(), "Cannot have more than 8 spctators");
}

#[test]
fn role_capacity() {
    assert_eq!(check_role_capacity(&Role::Player, &room(1, 2, 0, 1)), Ok(()));
    assert_eq!(check_role_capacity(&Role::Player, &room(2, 2, 0, 1)), Err(RouteError::PlayerCapacity));
    assert_eq!(check_role_capacity(&Role::Spectator, &room(0, 2, 1, 1)), Err(RouteError::SpectatorCapacity));
    assert_eq!(check_role_capacity(&Role::Spectator, &room(0, 2, 0, 1)), Ok(()));
    // a negative limit reads as a huge size and is never reached
    assert_eq!(check_role_capacity(&Role::Player, &room(3, -1, 0, 1)), Ok(()));
    assert_eq!(RouteError::PlayerCapacity.message(), "Max Player capacity reached");
    assert_eq!(RouteError::SpectatorCapacity.message(), "Max Spectator capacity reached");
}

#[test]
fn join_then_leave_restores_room() {
    let r = room(1, 2, 1, 3);
    let joined = join_room(r, Role::Player, 77, "zed".to_string()).unwrap();
    assert_eq!(joined.players.len(), 2);
    assert_eq!(joined.players[1].id, 77);
    assert!(joined.players[1].symbol.is_none());
    let left = leave_room(joined, Role::Player, 77);
    assert_eq!(left.players.len(), 1);
    assert_eq!(left.players[0].id, 10);
    assert_eq!(left.room_code, "CODE0001");

    let joined = join_room(room(0, 2, 1, 3), Role::Spectator, 78, "y".to_string()).unwrap();
    assert_eq!(joined.spectators.len(), 2);
    let left = leave_room(joined, Role::Spectator, 78);
    assert_eq!(left.spectators.len(), 1);
}

#[test]
fn join_full_room_is_refused() {
    assert_eq!(
        join_room(room(2, 2, 0, 0), Role::Player, 1, "a".to_string()).err(),
        Some(RouteError::PlayerCapacity)
    );
    assert_eq!(
        join_room(room(0, 2, 0, 0), Role::Spectator, 1, "a".to_string()).err(),
        Some(RouteError::SpectatorCapacity)
    );
}

#[test]
fn leave_removes_every_entry_of_user() {
    let mut r = room(2, 4, 0, 0);
    r.players.push(Player { id: 10, username: "again".to_string(), symbol: None });
    let left = leave_room(r, Role::Player, 10);
    assert_eq!(left.players.iter().map(|p| p.id).collect::<Vec<_>>(), vec![11]);
}

#[test]
fn game_only_in_open_room() {
    assert_eq!(check_room_open(RoomStatus::Open), Ok(()));
    assert_eq!(check_room_open(RoomStatus::Closed), Err(RouteError::RoomClosed));
    assert_eq!(check_room_open(RoomStatus::InProgress), Err(RouteError::RoomInProgress));
    assert_eq!(RouteError::RoomClosed.message(), "Cannot Join Closed room");
    assert_eq!(RouteError::RoomInProgress.message(), "Cannot Join InProgress room");
}

#[test]
fn shuffled_symbols_are_both_symbols() {
    let mut seen_x_first = false;
    let mut seen_o_first = false;
    for _ in 0..200 {
        let s = shuffled_symbols();
        assert_eq!(s.len(), 2);
        assert_ne!(s[0], s[1]);
        if s[0] == MoveType::X {
            seen_x_first = true;
        } else {
            seen_o_first = true;
        }
    }
    assert!(seen_x_first && seen_o_first);
}

#[test]
fn players_get_symbols_in_order() {
    let users = vec![
        User { id: 1, email: "a@x".into(), username: "ann".into(), password: "p".into(), created_at: 0 },
        User { id: 2, email: "b@x".into(), username: "bob".into(), password: "q".into(), created_at: 0 },
    ];
    let players = assign_symbols(&users, &vec![MoveType::X, MoveType::O]);
    assert_eq!(players.len(), 2);
    assert_eq!(players[0].id, 1);
    assert_eq!(players[0].username, "ann");
    assert_eq!(players[0].symbol, Some(MoveType::X));
    assert_eq!(players[1].symbol, Some(MoveType::O));
}

#[test]
fn page_defaults() {
    assert_eq!(page_params(None, None), (0, 2));
    assert_eq!(page_params(Some(3), Some(5)), (3, 5));
}

#[test]
fn paginate_middle_page() {
    let records: Vec<u8> = (1..=10).collect();
    let p = paginate(records, 1, 3).unwrap();
    assert_eq!(p.items, vec![4, 5, 6]);
    assert_eq!(p.page, 1);
    assert_eq!(p.size, 3);
    assert_eq!(p.pages, 4);
    assert_eq!(p.total, 10);
    assert_eq!(p.previous_page, Some(0));
    assert_eq!(p.next_page, Some(2));
}

#[test]
fn paginate_last_and_first_pages() {
    let records: Vec<u8> = (1..=10).collect();
    let p = paginate(records.clone(), 3, 3).unwrap();
    assert_eq!(p.items, vec![10]);
    assert_eq!(p.next_page, None);
    let p = paginate(records, 0, 3).unwrap();
    assert_eq!(p.items, vec![1, 2, 3]);
    assert_eq!(p.previous_page, None);
    let p = paginate(Vec::<u8>::new(), 0, 2).unwrap();
    assert!(p.items.is_empty());
    assert_eq!(p.pages, 1);
}

#[test]
fn paginate_refuses_pages_past_the_end() {
    let records: Vec<u8> = vec![1, 2, 3, 4, 5];
    assert!(paginate(records.clone(), 10, 2).is_err());
    assert!(paginate(records, 0, 0).is_err());
    assert!(paginate(Vec::<u8>::new(), 0, 0).is_ok());
}

#[test]
fn pages_cover_the_listing_once() {
    let records: Vec<u32> = (0..11).collect();
    let first = paginate(records.clone(), 0, 4).unwrap();
    let mut all = Vec::new();
    for page in 0..first.pages {
        let p = paginate(records.clone(), page, 4).unwrap();
        if page + 1 < first.pages {
            assert_eq!(p.items.len(), 4);
        }
        all.extend(p.items);
    }
    assert_eq!(all, records);
    assert!(paginate(records, first.pages, 4).is_err());
}
