use vstd::prelude::*;

use crate::types::db::{Move, Player, Role, Spectator};

verus! {

/// The mark a player puts on the board.
#[derive(Debug, Clone, Copy, PartialEq, Eq, Structural)]
pub enum MoveType {
    O,
    X,
}

/// A message a websocket client sends to the server.
#[derive(Debug)]
pub enum WebSocketMessage {
    CreateRoom(CreateRoomArgs),
    CreateGame(CreateInMemoryGameArgs),
    JoinRoom(JoinRoomArgs),
    LeaveRoom(LeaveRoomArgs),
    SendMessage(SendMessageArgs),
    MoveUpdate(MoveUpdateArgs),
}

#[derive(Debug, Clone, Copy)]
pub struct CreateRoomArgs {
    pub room_id: u128,
}

/// A game, already stored in the database, to load into a room in memory.
#[derive(Debug)]
pub struct CreateInMemoryGameArgs {
    pub game_id: u128,
    pub room_id: u128,
    pub players: Vec<Player>,
    pub state: Vec<Vec<Option<MoveType>>>,
    pub moves: Vec<Move>,
}

#[derive(Debug, Clone, Copy)]
pub struct JoinRoomArgs {
    pub room_id: u128,
    pub role: Role,
    pub symbol: Option<MoveType>,
}

#[derive(Debug, Clone, Copy)]
pub struct LeaveRoomArgs {
    pub room_id: u128,
    pub game_id: Option<u128>,
    pub role: Role,
}

#[derive(Debug)]
pub struct SendMessageArgs {
    pub room_id: u128,
    pub message: String,
}

/// A message the server sends to a websocket client.
#[derive(Debug)]
pub struct WebSocketResponse {
    pub data: ResponseData,
}

#[derive(Debug)]
pub enum ResponseData {
    MoveUpdate(MoveUpdateArgs),
    Log(LogArgs),
    ChatUpdate(ChatUpdateArgs),
    RoomUpdate(RoomUpdateArgs),
    StartGame,
    EndGame(EndGameArgs),
    RoomClose,
}

/// A move: `x_pos` is the column and `y_pos` the row of the board.
#[derive(Debug, Clone, Copy)]
pub struct MoveUpdateArgs {
    pub game_id: u128,
    pub room_id: u128,
    pub move_type: MoveType,
    pub x_pos: u8,
    pub y_pos: u8,
    pub is_x_turn: Option<bool>,
}

#[derive(Debug)]
pub struct LogArgs {
    pub message: String,
    pub is_error: bool,
}

#[derive(Debug)]
pub struct ChatUpdateArgs {
    pub message: String,
}

#[derive(Debug)]
pub struct RoomUpdateArgs {
    pub players: Vec<Player>,
    pub spectators: Vec<Spectator>,
    pub admin: Option<u128>,
}

#[derive(Debug)]
pub struct EndGameArgs {
    pub is_draw: bool,
    pub winner: Option<String>,
}

} // verus!
