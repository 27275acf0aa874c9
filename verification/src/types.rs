//! Records exchanged between the database, the HTTP routes and the websocket
//! server.

pub mod db;
pub mod route;
pub mod ws;
