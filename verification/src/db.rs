//! The values the database layer creates records with: room codes, new
//! rooms and new games.

use vstd::prelude::*;

use crate::board::{empty_board, grid, new_board};
use crate::types::db::{Move, Player, RoomStatus, Spectator};
use crate::types::ws::MoveType;

verus! {

/// The number of characters of a room code.
pub const ROOM_CODE_LENGTH: usize = 8;

/// The number of characters a room code is drawn from.
pub const CODE_CHARSET_LEN: usize = 36;

/// Character `i` of `ABCDEFGHIJKLMNOPQRSTUVWXYZ0123456789`.
pub open spec fn code_char(i: int) -> char {
    if i < 26 {
        (65 + i) as char
    } else {
        (48 + i - 26) as char
    }
}

/// `c` is an upper-case letter or a digit.
pub open spec fn is_code_char(c: char) -> bool {
    (65 <= c as int <= 90) || (48 <= c as int <= 57)
}

/// Character `i` of the room code alphabet.
pub fn charset_char(i: usize) -> (c: char)
    requires
        i < CODE_CHARSET_LEN,
    ensures
        c == code_char(i as int),
        is_code_char(c),
{
    if i < 26 {
        ((65 + i) as u8) as char
    } else {
        ((48 + i - 26) as u8) as char
    }
}

/// The string of the characters of `chars`, collected by std's
/// `FromIterator<&char> for String`, which keeps them in order.
#[verifier::external_body]
fn string_from_chars(chars: &Vec<char>) -> (s: String)
    ensures
        s@ == chars@,
{
    chars.iter().collect()
}

/// A uniformly drawn index below `bound`, from rand's
/// `Rng::random_range(0..bound)` on the thread's generator, which panics on
/// an empty range.
///
/// The contract claims only what holds of every outcome: the index is below
/// `bound`.
#[verifier::external_body]
fn random_index(bound: usize) -> (i: usize)
    requires
        bound > 0,
    ensures
        i < bound,
{
    rand::Rng::random_range(&mut rand::rng(), 0..bound)
}

/// The room code whose `k`th character is character `indices[k]` of the
/// alphabet.
pub fn room_code_from_indices(indices: &Vec<usize>) -> (code: String)
    requires
        forall|k: int| 0 <= k < indices.len() ==> #[trigger] indices@[k] < CODE_CHARSET_LEN,
    ensures
        code@ == indices@.map_values(|i: usize| code_char(i as int)),
{
    let mut chars: Vec<char> = Vec::new();
    let mut k: usize = 0;
    while k < indices.len()
        invariant
            k <= indices.len(),
            forall|j: int| 0 <= j < indices.len() ==> #[trigger] indices@[j] < CODE_CHARSET_LEN,
            chars@ == indices@.take(k as int).map_values(|i: usize| code_char(i as int)),
        decreases indices.len() - k,
    {
        chars.push(charset_char(indices[k]));
        k += 1;
        assert(chars@ =~= indices@.take(k as int).map_values(|i: usize| code_char(i as int)));
    }
    assert(indices@.take(indices.len() as int) =~= indices@);
    string_from_chars(&chars)
}

/// A random room code: [`ROOM_CODE_LENGTH`] upper-case letters and digits.
pub fn generate_room_code() -> (code: String)
    ensures
        code@.len() == ROOM_CODE_LENGTH,
        forall|k: int| 0 <= k < code@.len() ==> is_code_char(#[trigger] code@[k]),
{
    let mut indices: Vec<usize> = Vec::new();
    let mut n: usize = 0;
    while n < ROOM_CODE_LENGTH
        invariant
            n <= ROOM_CODE_LENGTH,
            indices.len() == n,
            forall|k: int| 0 <= k < n ==> #[trigger] indices@[k] < CODE_CHARSET_LEN,
        decreases ROOM_CODE_LENGTH - n,
    {
        indices.push(random_index(CODE_CHARSET_LEN));
        n += 1;
    }
    let code = room_code_from_indices(&indices);
    assert forall|k: int| 0 <= k < code@.len() implies is_code_char(#[trigger] code@[k]) by {
        assert(indices@[k] < CODE_CHARSET_LEN);
    }
    code
}

/// The number of players of every room.
pub const MAX_PLAYERS: i16 = 2;

/// The values a room is stored with when it is created; the database gives
/// it its id and creation time.
#[derive(Debug)]
pub struct NewRoom {
    pub room_name: String,
    pub room_code: String,
    pub status: RoomStatus,
    pub players: Vec<Player>,
    pub max_players: i16,
    pub spectators: Vec<Spectator>,
    pub max_spectators: i16,
}

/// A new open room with a random code, its creator as its only player, and
/// room for [`MAX_PLAYERS`] players and `max_spectators` spectators.  It is
/// stored with no admin.
pub fn new_room(user_id: u128, username: String, room_name: String, max_spectators: i16) -> (room:
    NewRoom)
    ensures
        room.room_name == room_name,
        room.room_code@.len() == ROOM_CODE_LENGTH,
        forall|k: int| 0 <= k < room.room_code@.len() ==> is_code_char(#[trigger] room.room_code@[k]),
        room.status == RoomStatus::Open,
        room.players@ == seq![Player { id: user_id, username, symbol: None }],
        room.max_players == MAX_PLAYERS,
        room.spectators@ == Seq::<Spectator>::empty(),
        room.max_spectators == max_spectators,
{
    let mut players: Vec<Player> = Vec::new();
    players.push(Player { id: user_id, username, symbol: None });
    let room = NewRoom {
        room_name,
        room_code: generate_room_code(),
        status: RoomStatus::Open,
        players,
        max_players: MAX_PLAYERS,
        spectators: Vec::new(),
        max_spectators,
    };
    assert(room.players@ =~= seq![Player { id: user_id, username, symbol: None }]);
    room
}

/// The values a game is stored with when it is created; the database gives
/// it its id and creation time.
#[derive(Debug)]
pub struct NewGame {
    pub room_id: u128,
    pub players: Vec<Player>,
    pub state: Vec<Vec<Option<MoveType>>>,
    pub moves: Vec<Move>,
    pub winner: Option<u128>,
    pub is_completed: bool,
}

/// A new game of `players` in room `room_id`: an empty 3x3 board, no move,
/// no winner, not completed.
pub fn new_game(room_id: u128, players: Vec<Player>) -> (game: NewGame)
    ensures
        game.room_id == room_id,
        game.players@ == players@,
        grid(game.state@) == empty_board(),
        game.moves@ == Seq::<Move>::empty(),
        game.winner is None,
        !game.is_completed,
{
    NewGame {
        room_id,
        players,
        state: new_board(),
        moves: Vec::new(),
        winner: None,
        is_completed: false,
    }
}

} // verus!
