use tictactoe::auth::{check_expiry, select_token, AuthError, Claims, TOKEN_LIFETIME_DAYS};
use tictactoe::clock::{days_later, now_timestamp, EARLIEST_TIMESTAMP, LATEST_TIMESTAMP};
use tictactoe::db::{generate_room_code, new_game, new_room, room_code_from_indices, MAX_PLAYERS};
use tictactoe::types::db::{Player, RoomStatus};
use tictactoe::utils::prepare_log;
use tictactoe::types::ws::ResponseData;

#[test]
fn query_token_comes_first() {
    assert_eq!(select_token(Some("q".into()), Some("h".into())), Ok("q".to_string()));
    assert_eq!(select_token(None, Some("h".into())), Ok("h".to_string()));
    assert_eq!(select_token(None, None), Err(AuthError::MissingToken));
    assert_eq!(AuthError::MissingToken.message(), "JWT Token is not provided");
    assert_eq!(AuthError::MissingSecret.message(), "Error loading JWT secret key");
    assert_eq!(AuthError::InvalidToken.message(), "Invalid JWT token");
}

#[test]
fn expiry_is_checked() {
    let claims = |exp| Claims { sub: 1, username: "ann".to_string(), exp };
    assert!(check_expiry(claims(100), 100).is_ok());
    assert!(check_expiry(claims(100), 99).is_ok());
    assert_eq!(check_expiry(claims(100), 101).err(), Some(AuthError::Expired));
    assert_eq!(AuthError::Expired.message(), "Token has expired, please sign in again");
    let accepted = check_expiry(claims(5), 0).unwrap();
    assert_eq!(accepted.0.sub, 1);
}

#[test]
fn claims_expire_ten_days_later() {
    let c = Claims::issued_at(7, "ann".to_string(), 1_700_000_000).unwrap();
    assert_eq!(c.sub, 7);
    assert_eq!(c.username, "ann");
    assert_eq!(c.exp, 1_700_000_000 + 864_000);
    assert_eq!(TOKEN_LIFETIME_DAYS, 10);
    // chrono cannot represent instants this far away
    assert!(Claims::issued_at(7, "ann".to_string(), i64::MAX - 10).is_none());
    let now = Claims::new(7, "ann".to_string()).unwrap();
    assert!(now.exp > 1_577_836_800 + 864_000);
}

#[test]
fn calendar_bounds_are_chronos() {
    assert_eq!(days_later(0, 1), Some(86_400));
    assert_eq!(days_later(-5, 0), Some(-5));
    assert_eq!(days_later(EARLIEST_TIMESTAMP, 0), Some(EARLIEST_TIMESTAMP));
    assert_eq!(days_later(EARLIEST_TIMESTAMP - 1, 0), None);
    assert_eq!(days_later(LATEST_TIMESTAMP, 0), Some(LATEST_TIMESTAMP));
    assert_eq!(days_later(LATEST_TIMESTAMP + 1, 0), None);
    assert_eq!(days_later(LATEST_TIMESTAMP - 86_400, 1), Some(LATEST_TIMESTAMP));
    assert_eq!(days_later(LATEST_TIMESTAMP - 86_399, 1), None);
    assert_eq!(days_later(EARLIEST_TIMESTAMP, 3), Some(EARLIEST_TIMESTAMP + 3 * 86_400));
    assert_eq!(days_later(0, u64::MAX), None);
    let last = LATEST_TIMESTAMP - 864_000;
    assert_eq!(Claims::issued_at(1, "ann".to_string(), last).unwrap().exp, LATEST_TIMESTAMP);
    assert!(Claims::issued_at(1, "ann".to_string(), last + 1).is_none());
    let t = now_timestamp();
    assert!(t >= 1_577_836_800 && t <= LATEST_TIMESTAMP);
}

#[test]
fn room_codes() {
    for _ in 0..50 {
        let code = generate_room_code();
        assert_eq!(code.chars().count(), 8);
        assert!(code.chars().all(|c| c.is_ascii_uppercase() || c.is_ascii_digit()));
    }
    assert_eq!(room_code_from_indices(&vec![0, 25, 26, 35, 7]), "AZ09H");
}

#[test]
fn new_records() {
    let r = new_room(5, "ann".to_string(), "fun".to_string(), 3);
    assert_eq!(r.status, RoomStatus::Open);
    assert_eq!(r.max_players, MAX_PLAYERS);
    assert_eq!(r.max_players, 2);
    assert_eq!(r.max_spectators, 3);
    assert_eq!(r.players.len(), 1);
    assert_eq!(r.players[0].id, 5);
    assert!(r.spectators.is_empty());
    assert_eq!(r.room_code.len(), 8);
    let g = new_game(9, vec![Player { id: 5, username: "ann".to_string(), symbol: None }]);
    assert_eq!(g.room_id, 9);
    assert_eq!(g.state.len(), 3);
    assert!(g.state.iter().all(|row| row.len() == 3 && row.iter().all(|c| c.is_none())));
    assert!(g.moves.is_empty());
    assert!(!g.is_completed);
    assert!(g.winner.is_none());
}

#[test]
fn logs() {
    let r = prepare_log("hello".to_string(), true);
    match r.data {
        ResponseData::Log(l) => {
            assert_eq!(l.message, "hello");
            assert!(l.is_error);
        }
        _ => panic!("expected a log"),
    }
}
