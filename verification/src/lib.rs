//! Verified core of a multiplayer tic-tac-toe service: the records shared by
//! the HTTP backend and the websocket server, the in-memory room manager, the
//! game rules (a magic-square winner check), the room membership rules and
//! the small pieces of route and authentication logic that decide what is
//! answered.
//!
//! Identifiers (UUIDs in the service) are carried as `u128` values.

pub mod types;
pub mod board;
pub mod clock;
pub mod room_manager;
pub mod utils;
pub mod handlers;
pub mod routes;
pub mod auth;
pub mod db;
