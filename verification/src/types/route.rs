use vstd::prelude::*;

use crate::types::db::{Move, Player, Role, RoomStatus, Spectator};
use crate::types::ws::MoveType;

verus! {

#[derive(Debug)]
pub struct Signup {
    pub email: String,
    pub username: String,
    pub password: String,
}

#[derive(Debug)]
pub struct Signin {
    pub username: String,
    pub password: String,
}

#[derive(Debug)]
pub struct CreateRoom {
    pub room_name: String,
    pub max_spectators: i16,
}

#[derive(Debug)]
pub struct CreateGameArgs {
    pub room_id: u128,
    pub players: Vec<u128>,
}

#[derive(Debug, Clone, Copy)]
pub struct GetRooms {
    pub status: Option<RoomStatus>,
    pub page: Option<usize>,
    pub limit: Option<usize>,
}

#[derive(Debug)]
pub struct UpdateRoom {
    pub room_id: u128,
    pub status: Option<RoomStatus>,
    pub players: Option<Vec<Player>>,
    pub spectators: Option<Vec<Spectator>>,
}

#[derive(Debug, Clone, Copy)]
pub struct GetGame {
    pub game_id: Option<u128>,
    pub room_id: Option<u128>,
}

#[derive(Debug, Clone, Copy)]
pub struct GetGames {
    pub page: Option<usize>,
    pub limit: Option<usize>,
}

#[derive(Debug)]
pub struct JoinRoom {
    pub room_code: String,
    pub role: Role,
}

#[derive(Debug)]
pub struct UpdateGame {
    pub game_id: u128,
    pub players: Option<Vec<Player>>,
    pub state: Option<Vec<Vec<Option<MoveType>>>>,
    pub moves: Option<Vec<Move>>,
    pub winner: Option<u128>,
    pub is_completed: Option<bool>,
    pub completed_at: Option<i64>,
}

} // verus!
