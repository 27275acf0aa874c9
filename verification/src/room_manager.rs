//! The rooms that the websocket server keeps in memory, the clients connected
//! to it, and what happens to a room's game when a move comes in.
//!
//! Sending is not done here: a broadcast is computed as a [`Broadcast`], the
//! list of clients to reach and the message for them, and the server's
//! runtime delivers it.

use std::collections::HashMap;
use tokio::sync::mpsc::Sender;
use vstd::prelude::*;

use crate::board::{
    collect_magic_numbers, copy_board, grid, has_three_in_a_row, marks_fit,
    lemma_fifteen_iff_three_in_a_row, three_sum,
};
use crate::clock::now_timestamp;
use crate::types::db::{copy_moves, copy_players, copy_spectators, Game, Move, Player, Room, Spectator};
use crate::types::ws::{
    ChatUpdateArgs, CreateInMemoryGameArgs, EndGameArgs, MoveType, MoveUpdateArgs, ResponseData,
    RoomUpdateArgs, SendMessageArgs, WebSocketResponse,
};
use crate::utils::prepare_log;

verus! {

broadcast use vstd::std_specs::hash::group_hash_axioms;

/// The sending half of a tokio channel; a client's messages go through one.
#[verifier::external_type_specification]
#[verifier::external_body]
#[verifier::reject_recursive_types(T)]
pub struct ExSender<T>(Sender<T>);

/// A connected websocket client.
pub struct User {
    pub username: String,
    pub tx: Sender<String>,
}

/// A game being played in a room.
#[derive(Debug)]
pub struct LocalGame {
    pub id: u128,
    pub players: Vec<Player>,
    pub state: Vec<Vec<Option<MoveType>>>,
    pub moves: Vec<Move>,
}

/// A room held in memory.
#[derive(Debug)]
pub struct LocalRoom {
    pub players: Vec<Player>,
    pub spectators: Vec<Spectator>,
    pub game: Option<LocalGame>,
    pub admin: Option<u128>,
}

/// The connected clients and the open rooms, each keyed by its id.
pub struct RoomManager {
    pub clients: HashMap<u128, User>,
    pub rooms: HashMap<u128, LocalRoom>,
}

/// What a game holds, as plain sequences.
pub struct LocalGameView {
    pub id: u128,
    pub players: Seq<Player>,
    pub state: Seq<Seq<Option<MoveType>>>,
    pub moves: Seq<Move>,
}

/// What a room holds, as plain sequences.
pub struct LocalRoomView {
    pub players: Seq<Player>,
    pub spectators: Seq<Spectator>,
    pub game: Option<LocalGameView>,
    pub admin: Option<u128>,
}

impl View for LocalGame {
    type V = LocalGameView;

    open spec fn view(&self) -> LocalGameView {
        LocalGameView {
            id: self.id,
            players: self.players@,
            state: grid(self.state@),
            moves: self.moves@,
        }
    }
}

impl View for LocalRoom {
    type V = LocalRoomView;

    open spec fn view(&self) -> LocalRoomView {
        LocalRoomView {
            players: self.players@,
            spectators: self.spectators@,
            game: match self.game {
                Some(g) => Some(g@),
                None => None,
            },
            admin: self.admin,
        }
    }
}

/// The room without its game.
pub open spec fn with_no_game(room: LocalRoomView) -> LocalRoomView {
    LocalRoomView {
        players: room.players,
        spectators: room.spectators,
        game: None,
        admin: room.admin,
    }
}

/// The rooms of a map, each by its view.
pub open spec fn room_views(m: Map<u128, LocalRoom>) -> Map<u128, LocalRoomView> {
    m.map_values(|r: LocalRoom| r@)
}

/// Why a move was refused.
#[derive(Debug, Clone, Copy, PartialEq, Eq, Structural)]
pub enum GameError {
    /// No room has the move's room id.
    RoomNotFound,
    /// The game already has nine moves.
    GameFinished,
    /// The cell already holds a mark.
    PositionFilled,
}

impl GameError {
    /// The text the server reports for this error.
    pub fn message(&self) -> (m: String)
        ensures
            m@ == self.text(),
    {
        match self {
            GameError::RoomNotFound => String::from_str("Error in updating in-memory game"),
            GameError::GameFinished => String::from_str("Game is finished"),
            GameError::PositionFilled => String::from_str("Position is already filled"),
        }
    }

    pub open spec fn text(&self) -> Seq<char> {
        match self {
            GameError::RoomNotFound => "Error in updating in-memory game"@,
            GameError::GameFinished => "Game is finished"@,
            GameError::PositionFilled => "Position is already filled"@,
        }
    }
}

/// The game after `args`'s mark is put in its cell and the move is recorded
/// with time `timestamp`.
pub open spec fn placed(g: LocalGameView, args: MoveUpdateArgs, timestamp: i64) -> LocalGameView {
    let y = args.y_pos as int;
    let x = args.x_pos as int;
    LocalGameView {
        id: g.id,
        players: g.players,
        state: g.state.update(y, g.state[y].update(x, Some(args.move_type))),
        moves: g.moves.push(
            Move {
                symbol: args.move_type,
                x_pos: args.x_pos,
                y_pos: args.y_pos,
                timestamp: timestamp,
            },
        ),
    }
}

/// The answer to a move and the rooms afterwards, when the move is recorded
/// with time `timestamp`: a room without a game is left as it is and the
/// move is accepted.
pub open spec fn move_outcome(
    rooms: Map<u128, LocalRoomView>,
    args: MoveUpdateArgs,
    timestamp: i64,
) -> (Result<(), GameError>, Map<u128, LocalRoomView>) {
    if !rooms.contains_key(args.room_id) {
        (Err(GameError::RoomNotFound), rooms)
    } else {
        let room = rooms[args.room_id];
        match room.game {
            None => (Ok(()), rooms),
            Some(g) => {
                if g.moves.len() == 9 {
                    (Err(GameError::GameFinished), rooms)
                } else if g.state[args.y_pos as int][args.x_pos as int] is Some {
                    (Err(GameError::PositionFilled), rooms)
                } else {
                    (
                        Ok(()),
                        rooms.insert(
                            args.room_id,
                            LocalRoomView {
                                players: room.players,
                                spectators: room.spectators,
                                game: Some(placed(g, args, timestamp)),
                                admin: room.admin,
                            },
                        ),
                    )
                }
            },
        }
    }
}

/// The move's cell lies on the board wherever the move reaches the board.
pub open spec fn move_in_bounds(rooms: Map<u128, LocalRoomView>, args: MoveUpdateArgs) -> bool {
    rooms.contains_key(args.room_id) ==> match rooms[args.room_id].game {
        Some(g) => g.moves.len() != 9 ==> {
            &&& (args.y_pos as int) < g.state.len()
            &&& (args.x_pos as int) < g.state[args.y_pos as int].len()
        },
        None => true,
    }
}

/// The games of `games` that are not completed, by the id of their room; of
/// two for the same room the later one counts.
pub open spec fn open_games_by_room(games: Seq<Game>) -> Map<u128, Game>
    decreases games.len(),
{
    if games.len() == 0 {
        Map::empty()
    } else {
        let rest = open_games_by_room(games.drop_last());
        let g = games.last();
        if g.is_completed {
            rest
        } else {
            rest.insert(g.room_id, g)
        }
    }
}

/// The in-memory form of a stored game.
pub open spec fn local_game_of(g: Game) -> LocalGameView {
    LocalGameView { id: g.id, players: g.players@, state: grid(g.state@), moves: g.moves@ }
}

/// The in-memory form of a stored room, with its open game if it has one.
pub open spec fn local_room_of(r: Room, games: Map<u128, Game>) -> LocalRoomView {
    LocalRoomView {
        players: r.players@,
        spectators: r.spectators@,
        game: if games.contains_key(r.id) {
            Some(local_game_of(games[r.id]))
        } else {
            None
        },
        admin: r.admin,
    }
}

/// The stored rooms in memory, by id; of two with the same id the later one
/// counts.
pub open spec fn synced_rooms(rooms: Seq<Room>, games: Map<u128, Game>) -> Map<
    u128,
    LocalRoomView,
>
    decreases rooms.len(),
{
    if rooms.len() == 0 {
        Map::empty()
    } else {
        synced_rooms(rooms.drop_last(), games).insert(
            rooms.last().id,
            local_room_of(rooms.last(), games),
        )
    }
}

/// A message to deliver: each recipient, in order, gets `response` and then
/// `follow_up` if there is one.
pub struct Broadcast {
    pub recipients: Vec<u128>,
    pub response: WebSocketResponse,
    pub follow_up: Option<WebSocketResponse>,
}

/// The client `id` is connected and is not the one to leave out.
pub open spec fn reaches(clients: Map<u128, User>, ignore: Option<u128>, id: u128) -> bool {
    ignore != Some(id) && clients.contains_key(id)
}

/// The ids of the players that a broadcast reaches, in the players' order.
pub open spec fn reached_players(ps: Seq<Player>, clients: Map<u128, User>, ignore: Option<u128>) -> Seq<u128>
    decreases ps.len(),
{
    if ps.len() == 0 {
        Seq::empty()
    } else {
        let rest = reached_players(ps.drop_last(), clients, ignore);
        if reaches(clients, ignore, ps.last().id) {
            rest.push(ps.last().id)
        } else {
            rest
        }
    }
}

/// The ids of the spectators that a broadcast reaches, in the spectators' order.
pub open spec fn reached_spectators(
    ss: Seq<Spectator>,
    clients: Map<u128, User>,
    ignore: Option<u128>,
) -> Seq<u128>
    decreases ss.len(),
{
    if ss.len() == 0 {
        Seq::empty()
    } else {
        let rest = reached_spectators(ss.drop_last(), clients, ignore);
        if reaches(clients, ignore, ss.last().id) {
            rest.push(ss.last().id)
        } else {
            rest
        }
    }
}

/// The text of the log that tells a room that `username` joined it.
pub open spec fn joined_text(username: Seq<char>) -> Seq<char> {
    username + " has joined the room!"@
}

/// Who in `room` a broadcast reaches: its connected players (when
/// `to_players`), then its connected spectators, leaving out `ignore`.
pub open spec fn room_audience(
    room: LocalRoomView,
    clients: Map<u128, User>,
    ignore: Option<u128>,
    to_players: bool,
) -> Seq<u128> {
    (if to_players {
        reached_players(room.players, clients, ignore)
    } else {
        Seq::empty()
    }) + reached_spectators(room.spectators, clients, ignore)
}

/// `b` tells everyone in `room` but `ignore` its members and `admin`, and,
/// after a join, that `username` joined.
pub open spec fn is_room_update(
    b: Broadcast,
    room: LocalRoomView,
    clients: Map<u128, User>,
    ignore: u128,
    username: Seq<char>,
    is_join_update: bool,
    admin: Option<u128>,
) -> bool {
    &&& b.recipients@ == room_audience(room, clients, Some(ignore), true)
    &&& b.response.data matches ResponseData::RoomUpdate(update) && update.players@ == room.players
        && update.spectators@ == room.spectators && update.admin == admin
    &&& if is_join_update {
        b.follow_up matches Some(log) && log.data matches ResponseData::Log(l) && l.message@
            == joined_text(username) && !l.is_error
    } else {
        b.follow_up is None
    }
}

/// `b` tells everyone in `room` (but `ignore`, when given) that the game
/// ended, in a draw or won by `winner`.
pub open spec fn is_end_game(
    b: Broadcast,
    room: LocalRoomView,
    clients: Map<u128, User>,
    is_draw: bool,
    winner: Option<String>,
    ignore: Option<u128>,
) -> bool {
    &&& b.recipients@ == room_audience(room, clients, ignore, true)
    &&& b.response.data == ResponseData::EndGame(EndGameArgs { is_draw, winner })
    &&& b.follow_up is None
}

/// `b` tells the spectators of `room` but `ignore` that the room closed.
pub open spec fn is_room_close(
    b: Broadcast,
    room: LocalRoomView,
    clients: Map<u128, User>,
    ignore: u128,
) -> bool {
    &&& b.recipients@ == room_audience(room, clients, Some(ignore), false)
    &&& b.response.data == ResponseData::RoomClose
    &&& b.follow_up is None
}

fn skips(ignore: Option<u128>, id: u128) -> (r: bool)
    ensures
        r == (ignore == Some(id)),
{
    match ignore {
        Some(i) => i == id,
        None => false,
    }
}

proof fn lemma_reached_players(ps: Seq<Player>, clients: Map<u128, User>, ignore: Option<u128>)
    ensures
        forall|i: int|
            0 <= i < reached_players(ps, clients, ignore).len() ==> reaches(
                clients,
                ignore,
                #[trigger] reached_players(ps, clients, ignore)[i],
            ) && exists|j: int|
                0 <= j < ps.len() && #[trigger] ps[j].id == reached_players(ps, clients, ignore)[i],
        forall|j: int|
            0 <= j < ps.len() && reaches(clients, ignore, #[trigger] ps[j].id) ==> reached_players(
                ps,
                clients,
                ignore,
            ).contains(ps[j].id),
    decreases ps.len(),
{
    if ps.len() > 0 {
        let init = ps.drop_last();
        lemma_reached_players(init, clients, ignore);
        let r = reached_players(ps, clients, ignore);
        let r0 = reached_players(init, clients, ignore);
        assert forall|i: int| 0 <= i < r.len() implies reaches(clients, ignore, #[trigger] r[i])
            && exists|j: int| 0 <= j < ps.len() && #[trigger] ps[j].id == r[i] by {
            if i < r0.len() {
                assert(r[i] == r0[i]);
                let j = choose|j: int| 0 <= j < init.len() && #[trigger] init[j].id == r0[i];
                assert(ps[j].id == r[i]);
            } else {
                assert(ps[ps.len() - 1].id == r[i]);
            }
        }
        assert forall|j: int| 0 <= j < ps.len() && reaches(clients, ignore, #[trigger] ps[j].id)
            implies r.contains(ps[j].id) by {
            if j < ps.len() - 1 {
                assert(init[j].id == ps[j].id);
                assert(r0.contains(ps[j].id));
                let k = choose|k: int| 0 <= k < r0.len() && r0[k] == ps[j].id;
                assert(r[k] == ps[j].id);
            } else {
                assert(r[r.len() - 1] == ps[j].id);
            }
        }
    }
}

proof fn lemma_reached_spectators(
    ss: Seq<Spectator>,
    clients: Map<u128, User>,
    ignore: Option<u128>,
)
    ensures
        forall|i: int|
            0 <= i < reached_spectators(ss, clients, ignore).len() ==> reaches(
                clients,
                ignore,
                #[trigger] reached_spectators(ss, clients, ignore)[i],
            ) && exists|j: int|
                0 <= j < ss.len() && #[trigger] ss[j].id == reached_spectators(ss, clients, ignore)[i],
        forall|j: int|
            0 <= j < ss.len() && reaches(clients, ignore, #[trigger] ss[j].id)
                ==> reached_spectators(ss, clients, ignore).contains(ss[j].id),
    decreases ss.len(),
{
    if ss.len() > 0 {
        let init = ss.drop_last();
        lemma_reached_spectators(init, clients, ignore);
        let r = reached_spectators(ss, clients, ignore);
        let r0 = reached_spectators(init, clients, ignore);
        assert forall|i: int| 0 <= i < r.len() implies reaches(clients, ignore, #[trigger] r[i])
            && exists|j: int| 0 <= j < ss.len() && #[trigger] ss[j].id == r[i] by {
            if i < r0.len() {
                assert(r[i] == r0[i]);
                let j = choose|j: int| 0 <= j < init.len() && #[trigger] init[j].id == r0[i];
                assert(ss[j].id == r[i]);
            } else {
                assert(ss[ss.len() - 1].id == r[i]);
            }
        }
        assert forall|j: int| 0 <= j < ss.len() && reaches(clients, ignore, #[trigger] ss[j].id)
            implies r.contains(ss[j].id) by {
            if j < ss.len() - 1 {
                assert(init[j].id == ss[j].id);
                assert(r0.contains(ss[j].id));
                let k = choose|k: int| 0 <= k < r0.len() && r0[k] == ss[j].id;
                assert(r[k] == ss[j].id);
            } else {
                assert(r[r.len() - 1] == ss[j].id);
            }
        }
    }
}

/// Law of the broadcasts: a broadcast to a room reaches only connected
/// clients other than the one left out, each of them a player (when players
/// are addressed) or a spectator of the room; and it reaches every connected
/// spectator, and every connected player when players are addressed, other
/// than the one left out.
pub proof fn lemma_audience_is_connected_members(
    room: LocalRoomView,
    clients: Map<u128, User>,
    ignore: Option<u128>,
    to_players: bool,
)
    ensures
        forall|i: int|
            0 <= i < room_audience(room, clients, ignore, to_players).len() ==> {
                let id = #[trigger] room_audience(room, clients, ignore, to_players)[i];
                &&& clients.contains_key(id)
                &&& ignore != Some(id)
                &&& (exists|j: int| 0 <= j < room.spectators.len() && room.spectators[j].id == id)
                    || (to_players && exists|j: int|
                    0 <= j < room.players.len() && room.players[j].id == id)
            },
        forall|j: int|
            0 <= j < room.spectators.len() && clients.contains_key(#[trigger] room.spectators[j].id)
                && ignore != Some(room.spectators[j].id) ==> room_audience(
                room,
                clients,
                ignore,
                to_players,
            ).contains(room.spectators[j].id),
        to_players ==> forall|j: int|
            0 <= j < room.players.len() && clients.contains_key(#[trigger] room.players[j].id)
                && ignore != Some(room.players[j].id) ==> room_audience(
                room,
                clients,
                ignore,
                to_players,
            ).contains(room.players[j].id),
{
    lemma_reached_players(room.players, clients, ignore);
    lemma_reached_spectators(room.spectators, clients, ignore);
    let p = if to_players {
        reached_players(room.players, clients, ignore)
    } else {
        Seq::empty()
    };
    let s = reached_spectators(room.spectators, clients, ignore);
    let a = room_audience(room, clients, ignore, to_players);
    assert(a == p + s);
    assert forall|i: int| 0 <= i < a.len() implies {
        let id = #[trigger] a[i];
        &&& clients.contains_key(id)
        &&& ignore != Some(id)
        &&& (exists|j: int| 0 <= j < room.spectators.len() && room.spectators[j].id == id) || (
        to_players && exists|j: int| 0 <= j < room.players.len() && room.players[j].id == id)
    } by {
        if i < p.len() {
            assert(a[i] == p[i]);
        } else {
            assert(a[i] == s[i - p.len()]);
        }
    }
    assert forall|j: int|
        0 <= j < room.spectators.len() && clients.contains_key(#[trigger] room.spectators[j].id)
            && ignore != Some(room.spectators[j].id) implies a.contains(room.spectators[j].id) by {
        assert(s.contains(room.spectators[j].id));
        let k = choose|k: int| 0 <= k < s.len() && s[k] == room.spectators[j].id;
        assert(a[p.len() + k] == s[k]);
    }
    if to_players {
        assert forall|j: int|
            0 <= j < room.players.len() && clients.contains_key(#[trigger] room.players[j].id)
                && ignore != Some(room.players[j].id) implies a.contains(room.players[j].id) by {
            assert(p.contains(room.players[j].id));
            let k = choose|k: int| 0 <= k < p.len() && p[k] == room.players[j].id;
            assert(a[k] == p[k]);
        }
    }
}

/// Law of moves: a cell once played cannot be played again; after an
/// accepted move into a game, any move of the same room to the same cell is
/// refused.
pub proof fn lemma_played_cell_is_taken(
    rooms: Map<u128, LocalRoomView>,
    first: MoveUpdateArgs,
    t1: i64,
    second: MoveUpdateArgs,
    t2: i64,
)
    requires
        move_in_bounds(rooms, first),
        rooms.contains_key(first.room_id),
        rooms[first.room_id].game is Some,
        move_outcome(rooms, first, t1).0 is Ok,
        second.room_id == first.room_id,
        second.x_pos == first.x_pos,
        second.y_pos == first.y_pos,
    ensures
        move_outcome(move_outcome(rooms, first, t1).1, second, t2).0 is Err,
{
}

/// Law of moves: starting from at most nine moves, a game never gets more
/// than nine, whatever move comes.
pub proof fn lemma_moves_stay_within_nine(
    rooms: Map<u128, LocalRoomView>,
    args: MoveUpdateArgs,
    t: i64,
    room_id: u128,
)
    requires
        rooms.contains_key(room_id),
        rooms[room_id].game is Some,
        rooms[room_id].game->0.moves.len() <= 9,
    ensures
        move_outcome(rooms, args, t).1.contains_key(room_id),
        move_outcome(rooms, args, t).1[room_id].game is Some,
        move_outcome(rooms, args, t).1[room_id].game->0.moves.len() <= 9,
{
}

/// Law of moves: an accepted move into a game fills the cell it names with
/// the mover's mark and appends exactly one move, which records that same
/// mark, that cell and the move's time; the other cells and the earlier
/// moves stay as they were.
pub proof fn lemma_move_records_its_mark(rooms: Map<u128, LocalRoomView>, args: MoveUpdateArgs, t: i64)
    requires
        move_in_bounds(rooms, args),
        rooms.contains_key(args.room_id),
        rooms[args.room_id].game is Some,
        move_outcome(rooms, args, t).0 is Ok,
    ensures
        ({
            let g = rooms[args.room_id].game->0;
            let h = move_outcome(rooms, args, t).1[args.room_id].game->0;
            let y = args.y_pos as int;
            let x = args.x_pos as int;
            &&& h.state[y][x] == Some(args.move_type)
            &&& h.moves.len() == g.moves.len() + 1
            &&& h.moves.last().symbol == args.move_type
            &&& Some(h.moves.last().symbol) == h.state[h.moves.last().y_pos as int][h.moves.last().x_pos as int]
            &&& h.moves.last().x_pos == args.x_pos
            &&& h.moves.last().y_pos == args.y_pos
            &&& h.moves.last().timestamp == t
            &&& h.moves.drop_last() == g.moves
            &&& h.state.len() == g.state.len()
            &&& forall|i: int, j: int|
                0 <= i < g.state.len() && 0 <= j < g.state[i].len() && !(i == y && j == x)
                    ==> #[trigger] h.state[i][j] == g.state[i][j]
        }),
{
    let g = rooms[args.room_id].game->0;
    let h = move_outcome(rooms, args, t).1[args.room_id].game->0;
    assert(h.moves.drop_last() =~= g.moves);
}

/// Law of loading: every room loaded with a game holds the game stored for
/// that room as it was stored: its id, its players, its board cell for cell
/// and its moves.
pub proof fn lemma_synced_games_are_stored_games(rooms: Seq<Room>, games: Map<u128, Game>, id: u128)
    requires
        synced_rooms(rooms, games).contains_key(id),
        synced_rooms(rooms, games)[id].game is Some,
    ensures
        games.contains_key(id),
        synced_rooms(rooms, games)[id].game->0.id == games[id].id,
        synced_rooms(rooms, games)[id].game->0.players == games[id].players@,
        synced_rooms(rooms, games)[id].game->0.state.len() == games[id].state.len(),
        forall|i: int|
            0 <= i < games[id].state.len() ==> #[trigger] synced_rooms(rooms, games)[id].game->0.state[i]
                == games[id].state@[i]@,
        synced_rooms(rooms, games)[id].game->0.moves == games[id].moves@,
    decreases rooms.len(),
{
    if rooms.last().id != id {
        lemma_synced_games_are_stored_games(rooms.drop_last(), games, id);
    }
}

/// Law of loading: every room loaded holds the members and the admin of a
/// stored room of that id, and it holds a game exactly when an unfinished
/// game of that room was stored.
pub proof fn lemma_synced_rooms_are_stored_rooms(rooms: Seq<Room>, games: Map<u128, Game>, id: u128)
    requires
        synced_rooms(rooms, games).contains_key(id),
    ensures
        exists|k: int|
            0 <= k < rooms.len() && #[trigger] rooms[k].id == id && synced_rooms(rooms, games)[id].players
                == rooms[k].players@ && synced_rooms(rooms, games)[id].spectators
                == rooms[k].spectators@ && synced_rooms(rooms, games)[id].admin == rooms[k].admin,
        synced_rooms(rooms, games)[id].game is Some <==> games.contains_key(id),
    decreases rooms.len(),
{
    if rooms.last().id != id {
        lemma_synced_rooms_are_stored_rooms(rooms.drop_last(), games, id);
        let k = choose|k: int|
            0 <= k < rooms.drop_last().len() && #[trigger] rooms.drop_last()[k].id == id
                && synced_rooms(rooms.drop_last(), games)[id].players == rooms.drop_last()[k].players@
                && synced_rooms(rooms.drop_last(), games)[id].spectators
                == rooms.drop_last()[k].spectators@ && synced_rooms(rooms.drop_last(), games)[id].admin
                == rooms.drop_last()[k].admin;
        assert(rooms[k] == rooms.drop_last()[k]);
    } else {
        assert(rooms[rooms.len() - 1].id == id);
    }
}

impl RoomManager {
    /// The rooms, each by its view.
    pub open spec fn rooms_view(&self) -> Map<u128, LocalRoomView> {
        room_views(self.rooms@)
    }

    /// The manager loaded from the database: the open rooms, then the rooms
    /// in progress, each with the game of that room that is not completed;
    /// no client is connected yet.
    pub fn sync_db(open_rooms: Vec<Room>, in_progress_rooms: Vec<Room>, games: Vec<Game>) -> (manager:
        RoomManager)
        ensures
            manager.clients@ == Map::<u128, User>::empty(),
            manager.rooms_view() == synced_rooms(
                open_rooms@ + in_progress_rooms@,
                open_games_by_room(games@),
            ),
    {
        let clients: HashMap<u128, User> = HashMap::new();
        let mut rooms: HashMap<u128, LocalRoom> = HashMap::new();

        let mut room_list = open_rooms;
        let mut in_progress = in_progress_rooms;
        room_list.append(&mut in_progress);
        let ghost all_rooms = room_list@;

        let ghost all_games = games@;
        let mut games = games;
        let mut game_map: HashMap<u128, Game> = HashMap::new();
        let ghost mut k: int = 0;
        while games.len() > 0
            invariant
                0 <= k <= all_games.len(),
                games@ == all_games.skip(k),
                game_map@ == open_games_by_room(all_games.take(k)),
            decreases games.len(),
        {
            let g = games.remove(0);
            proof {
                assert(all_games.take(k + 1).drop_last() =~= all_games.take(k));
                assert(all_games.take(k + 1).last() == g);
            }
            if !g.is_completed {
                game_map.insert(g.room_id, g);
            }
            proof {
                k = k + 1;
            }
            assert(games@ =~= all_games.skip(k));
        }
        assert(all_games.take(k) =~= all_games);
        let ghost open_games = game_map@;

        let ghost mut n: int = 0;
        while room_list.len() > 0
            invariant
                0 <= n <= all_rooms.len(),
                room_list@ == all_rooms.skip(n),
                game_map@ == open_games,
                room_views(rooms@) == synced_rooms(all_rooms.take(n), open_games),
            decreases room_list.len(),
        {
            let room = room_list.remove(0);
            proof {
                assert(all_rooms.take(n + 1).drop_last() =~= all_rooms.take(n));
                assert(all_rooms.take(n + 1).last() == room);
            }
            let local_game = match game_map.get(&room.id) {
                Some(game) => Some(
                    LocalGame {
                        id: game.id,
                        players: copy_players(&game.players),
                        state: copy_board(&game.state),
                        moves: copy_moves(&game.moves),
                    },
                ),
                None => None,
            };
            let id = room.id;
            let Room { players, spectators, admin, .. } = room;
            let local_room = LocalRoom { players, spectators, game: local_game, admin };
            assert(local_room@ == local_room_of(room, open_games));
            let ghost before = rooms@;
            rooms.insert(id, local_room);
            proof {
                assert(room_views(rooms@) =~= room_views(before).insert(id, local_room_of(room, open_games)));
                n = n + 1;
            }
            assert(room_list@ =~= all_rooms.skip(n));
        }
        assert(all_rooms.take(n) =~= all_rooms);
        RoomManager { clients, rooms }
    }

    /// A room with no member, no game and no admin.
    pub fn init_room() -> (room: LocalRoom)
        ensures
            room@ == (LocalRoomView {
                players: Seq::empty(),
                spectators: Seq::empty(),
                game: None,
                admin: None,
            }),
    {
        LocalRoom { players: Vec::new(), spectators: Vec::new(), game: None, admin: None }
    }

    /// Puts the game of `args` in its room, in place of any game it had.
    /// The room must exist.
    pub fn create_game(&mut self, args: CreateInMemoryGameArgs)
        requires
            old(self).rooms@.contains_key(args.room_id),
        ensures
            final(self).clients@ == old(self).clients@,
            final(self).rooms_view() == old(self).rooms_view().insert(
                args.room_id,
                LocalRoomView {
                    players: old(self).rooms_view()[args.room_id].players,
                    spectators: old(self).rooms_view()[args.room_id].spectators,
                    game: Some(
                        LocalGameView {
                            id: args.game_id,
                            players: args.players@,
                            state: grid(args.state@),
                            moves: args.moves@,
                        },
                    ),
                    admin: old(self).rooms_view()[args.room_id].admin,
                },
            ),
    {
        let ghost before = self.rooms@;
        let room = self.rooms.remove(&args.room_id).unwrap();
        let LocalRoom { players, spectators, admin, .. } = room;
        let game = LocalGame {
            id: args.game_id,
            players: args.players,
            state: args.state,
            moves: args.moves,
        };
        self.rooms.insert(args.room_id, LocalRoom { players, spectators, game: Some(game), admin });
        assert(room_views(self.rooms@) =~= room_views(before).insert(
            args.room_id,
            LocalRoomView {
                players: room_views(before)[args.room_id].players,
                spectators: room_views(before)[args.room_id].spectators,
                game: Some(
                    LocalGameView {
                        id: args.game_id,
                        players: args.players@,
                        state: grid(args.state@),
                        moves: args.moves@,
                    },
                ),
                admin: room_views(before)[args.room_id].admin,
            },
        ));
    }

    /// Plays the move of `args`, recording it with time `timestamp`: refused
    /// when the room does not exist, when its game already has nine moves or
    /// when the cell is taken; a room without a game is left unchanged.
    pub fn apply_move(&mut self, args: MoveUpdateArgs, timestamp: i64) -> (r: Result<(), GameError>)
        requires
            move_in_bounds(old(self).rooms_view(), args),
        ensures
            final(self).clients@ == old(self).clients@,
            (r, final(self).rooms_view()) == move_outcome(old(self).rooms_view(), args, timestamp),
    {
        let y = args.y_pos as usize;
        let x = args.x_pos as usize;
        match self.rooms.get(&args.room_id) {
            None => {
                return Err(GameError::RoomNotFound);
            },
            Some(room) => {
                match &room.game {
                    None => {
                        return Ok(());
                    },
                    Some(game) => {
                        if game.moves.len() == 9 {
                            return Err(GameError::GameFinished);
                        }
                        assert(game.state@[y as int]@ == room_views(self.rooms@)[args.room_id].game->0.state[y as int]);
                        if game.state[y][x].is_some() {
                            return Err(GameError::PositionFilled);
                        }
                    },
                }
            },
        }
        let ghost before = self.rooms@;
        let room = self.rooms.remove(&args.room_id).unwrap();
        let LocalRoom { players, spectators, game, admin } = room;
        let mut game = game.unwrap();
        let ghost g0 = game@;
        let mut row = game.state.remove(y);
        row.set(x, Some(args.move_type));
        game.state.insert(y, row);
        game.moves.push(
            Move { symbol: args.move_type, x_pos: args.x_pos, y_pos: args.y_pos, timestamp },
        );
        assert(game@.state =~= placed(g0, args, timestamp).state);
        assert(game@ == placed(g0, args, timestamp));
        self.rooms.insert(args.room_id, LocalRoom { players, spectators, game: Some(game), admin });
        assert(room_views(self.rooms@) =~= move_outcome(room_views(before), args, timestamp).1);
        Ok(())
    }

    /// Plays the move of `args` at the current time, as [`Self::apply_move`]
    /// does for some timestamp read from the clock, and gives the room after
    /// the move.
    pub fn update_game(&mut self, args: MoveUpdateArgs) -> (r: Result<&LocalRoom, GameError>)
        requires
            move_in_bounds(old(self).rooms_view(), args),
        ensures
            final(self).clients@ == old(self).clients@,
            exists|t: i64|
                #[trigger] move_outcome(old(self).rooms_view(), args, t) == (
                    match r {
                        Ok(_) => Ok::<(), GameError>(()),
                        Err(e) => Err::<(), GameError>(e),
                    },
                    final(self).rooms_view(),
                ),
            r matches Ok(room) ==> room@ == final(self).rooms_view()[args.room_id],
    {
        let timestamp = now_timestamp();
        match self.apply_move(args, timestamp) {
            Err(e) => Err(e),
            Ok(()) => {
                assert(old(self).rooms_view().contains_key(args.room_id));
                assert(self.rooms_view().contains_key(args.room_id));
                assert(self.rooms@.contains_key(args.room_id));
                let room = self.rooms.get(&args.room_id).unwrap();
                Ok(room)
            },
        }
    }

    /// Who in room `room_id` a broadcast reaches, as [`room_audience`] says.
    pub open spec fn audience(&self, room_id: u128, ignore: Option<u128>, to_players: bool) -> Seq<u128> {
        room_audience(self.rooms_view()[room_id], self.clients@, ignore, to_players)
    }

    fn player_recipients(&self, players: &Vec<Player>, ignore: Option<u128>) -> (r: Vec<u128>)
        ensures
            r@ == reached_players(players@, self.clients@, ignore),
    {
        let mut r: Vec<u128> = Vec::new();
        let mut i: usize = 0;
        while i < players.len()
            invariant
                i <= players.len(),
                r@ == reached_players(players@.take(i as int), self.clients@, ignore),
            decreases players.len() - i,
        {
            let id = players[i].id;
            assert(players@.take(i + 1).drop_last() =~= players@.take(i as int));
            if !skips(ignore, id) && self.clients.contains_key(&id) {
                r.push(id);
            }
            i += 1;
        }
        assert(players@.take(players.len() as int) =~= players@);
        r
    }

    fn spectator_recipients(&self, spectators: &Vec<Spectator>, ignore: Option<u128>) -> (r: Vec<
        u128,
    >)
        ensures
            r@ == reached_spectators(spectators@, self.clients@, ignore),
    {
        let mut r: Vec<u128> = Vec::new();
        let mut i: usize = 0;
        while i < spectators.len()
            invariant
                i <= spectators.len(),
                r@ == reached_spectators(spectators@.take(i as int), self.clients@, ignore),
            decreases spectators.len() - i,
        {
            let id = spectators[i].id;
            assert(spectators@.take(i + 1).drop_last() =~= spectators@.take(i as int));
            if !skips(ignore, id) && self.clients.contains_key(&id) {
                r.push(id);
            }
            i += 1;
        }
        assert(spectators@.take(spectators.len() as int) =~= spectators@);
        r
    }

    /// The clients of room `room_id` that a broadcast reaches, as
    /// [`Self::audience`] says; nothing when the room does not exist.
    pub fn recipients(&self, room_id: u128, ignore: Option<u128>, to_players: bool) -> (r: Option<
        Vec<u128>,
    >)
        ensures
            self.rooms@.contains_key(room_id) <==> r is Some,
            r matches Some(ids) ==> ids@ == self.audience(room_id, ignore, to_players),
    {
        match self.rooms.get(&room_id) {
            None => None,
            Some(room) => {
                let mut ids: Vec<u128> = if to_players {
                    self.player_recipients(&room.players, ignore)
                } else {
                    Vec::new()
                };
                let mut more = self.spectator_recipients(&room.spectators, ignore);
                ids.append(&mut more);
                Some(ids)
            },
        }
    }

    /// A chat message of a member to everyone else in the room.
    pub fn broadcast_message(&self, args: &SendMessageArgs, user_id_to_ignore: u128) -> (b: Option<
        Broadcast,
    >)
        ensures
            self.rooms@.contains_key(args.room_id) <==> b is Some,
            b matches Some(b) ==> {
                &&& b.recipients@ == self.audience(args.room_id, Some(user_id_to_ignore), true)
                &&& b.response.data == ResponseData::ChatUpdate(
                    ChatUpdateArgs { message: args.message },
                )
                &&& b.follow_up is None
            },
    {
        match self.recipients(args.room_id, Some(user_id_to_ignore), true) {
            None => None,
            Some(recipients) => Some(
                Broadcast {
                    recipients,
                    response: WebSocketResponse {
                        data: ResponseData::ChatUpdate(
                            ChatUpdateArgs { message: args.message.clone() },
                        ),
                    },
                    follow_up: None,
                },
            ),
        }
    }

    /// A move to everyone in the room, with whose turn is next: X's when the
    /// game holds an even number of moves.  A room that exists must hold a
    /// game.
    pub fn broadcast_move(&self, args: MoveUpdateArgs) -> (b: Option<Broadcast>)
        requires
            self.rooms@.contains_key(args.room_id) ==> self.rooms_view()[args.room_id].game is Some,
        ensures
            self.rooms@.contains_key(args.room_id) <==> b is Some,
            b matches Some(b) ==> {
                &&& b.recipients@ == self.audience(args.room_id, None, true)
                &&& b.response.data == ResponseData::MoveUpdate(
                    MoveUpdateArgs {
                        game_id: args.game_id,
                        room_id: args.room_id,
                        move_type: args.move_type,
                        x_pos: args.x_pos,
                        y_pos: args.y_pos,
                        is_x_turn: Some(
                            self.rooms_view()[args.room_id].game->0.moves.len() % 2 == 0,
                        ),
                    },
                )
                &&& b.follow_up is None
            },
    {
        match self.rooms.get(&args.room_id) {
            None => None,
            Some(room) => {
                let game = room.game.as_ref().unwrap();
                let is_x_turn = game.moves.len() % 2 == 0;
                let recipients = self.recipients(args.room_id, None, true).unwrap();
                Some(
                    Broadcast {
                        recipients,
                        response: WebSocketResponse {
                            data: ResponseData::MoveUpdate(
                                MoveUpdateArgs {
                                    game_id: args.game_id,
                                    room_id: args.room_id,
                                    move_type: args.move_type,
                                    x_pos: args.x_pos,
                                    y_pos: args.y_pos,
                                    is_x_turn: Some(is_x_turn),
                                },
                            ),
                        },
                        follow_up: None,
                    },
                )
            },
        }
    }

    /// The members of the room to everyone but `user_id_to_ignore`, with
    /// the room's admin as given; after a join each of them also gets a log
    /// that `username` joined.
    pub fn broadcast_room_update(
        &self,
        room_id: u128,
        user_id_to_ignore: u128,
        username: &String,
        is_join_update: bool,
        admin: Option<u128>,
    ) -> (b: Option<Broadcast>)
        ensures
            self.rooms@.contains_key(room_id) <==> b is Some,
            b matches Some(b) ==> is_room_update(
                b,
                self.rooms_view()[room_id],
                self.clients@,
                user_id_to_ignore,
                username@,
                is_join_update,
                admin,
            ),
    {
        match self.rooms.get(&room_id) {
            None => None,
            Some(room) => {
                let recipients = self.recipients(room_id, Some(user_id_to_ignore), true).unwrap();
                let update = RoomUpdateArgs {
                    players: copy_players(&room.players),
                    spectators: copy_spectators(&room.spectators),
                    admin,
                };
                let follow_up = if is_join_update {
                    let mut text = username.clone();
                    text.append(" has joined the room!");
                    Some(prepare_log(text, false))
                } else {
                    None
                };
                Some(
                    Broadcast {
                        recipients,
                        response: WebSocketResponse { data: ResponseData::RoomUpdate(update) },
                        follow_up,
                    },
                )
            },
        }
    }

    /// The closing of the room to its spectators but `user_id_to_ignore`.
    pub fn broadcast_room_close(&self, room_id: u128, user_id_to_ignore: u128) -> (b: Option<
        Broadcast,
    >)
        ensures
            self.rooms@.contains_key(room_id) <==> b is Some,
            b matches Some(b) ==> is_room_close(
                b,
                self.rooms_view()[room_id],
                self.clients@,
                user_id_to_ignore,
            ),
    {
        match self.recipients(room_id, Some(user_id_to_ignore), false) {
            None => None,
            Some(recipients) => Some(
                Broadcast {
                    recipients,
                    response: WebSocketResponse { data: ResponseData::RoomClose },
                    follow_up: None,
                },
            ),
        }
    }

    /// The start of the game to everyone in the room but `user_id_to_ignore`.
    pub fn broadcast_start_game(&self, room_id: u128, user_id_to_ignore: u128) -> (b: Option<
        Broadcast,
    >)
        ensures
            self.rooms@.contains_key(room_id) <==> b is Some,
            b matches Some(b) ==> {
                &&& b.recipients@ == self.audience(room_id, Some(user_id_to_ignore), true)
                &&& b.response.data == ResponseData::StartGame
                &&& b.follow_up is None
            },
    {
        match self.recipients(room_id, Some(user_id_to_ignore), true) {
            None => None,
            Some(recipients) => Some(
                Broadcast {
                    recipients,
                    response: WebSocketResponse { data: ResponseData::StartGame },
                    follow_up: None,
                },
            ),
        }
    }

    /// The end of the game, a draw or won by `winner`, to everyone in the
    /// room but `user_id_to_ignore` when one is given.
    pub fn broadcast_end_game(
        &self,
        room_id: u128,
        is_draw: bool,
        winner: Option<String>,
        user_id_to_ignore: Option<u128>,
    ) -> (b: Option<Broadcast>)
        ensures
            self.rooms@.contains_key(room_id) <==> b is Some,
            b matches Some(b) ==> is_end_game(
                b,
                self.rooms_view()[room_id],
                self.clients@,
                is_draw,
                winner,
                user_id_to_ignore,
            ),
    {
        match self.recipients(room_id, user_id_to_ignore, true) {
            None => None,
            Some(recipients) => Some(
                Broadcast {
                    recipients,
                    response: WebSocketResponse {
                        data: ResponseData::EndGame(EndGameArgs { is_draw, winner }),
                    },
                    follow_up: None,
                },
            ),
        }
    }

    /// Drops the game of room `room_id`, which must exist.
    pub fn clear_game(&mut self, room_id: u128)
        requires
            old(self).rooms@.contains_key(room_id),
        ensures
            final(self).clients@ == old(self).clients@,
            final(self).rooms_view() == old(self).rooms_view().insert(
                room_id,
                with_no_game(old(self).rooms_view()[room_id]),
            ),
    {
        let ghost before = self.rooms@;
        let room = self.rooms.remove(&room_id).unwrap();
        let LocalRoom { players, spectators, admin, .. } = room;
        self.rooms.insert(room_id, LocalRoom { players, spectators, game: None, admin });
        assert(room_views(self.rooms@) =~= room_views(before).insert(
            room_id,
            with_no_game(room_views(before)[room_id]),
        ));
    }

    /// The mark `move_type` holds a complete row, column or diagonal of the
    /// room's game.  The room must exist, hold a game, and every cell that
    /// holds the mark must lie within the first three rows and columns.
    pub fn check_winner(&self, room_id: u128, move_type: MoveType) -> (won: bool)
        requires
            self.rooms@.contains_key(room_id),
            self.rooms_view()[room_id].game is Some,
            marks_fit(self.rooms_view()[room_id].game->0.state, move_type),
        ensures
            won == has_three_in_a_row(self.rooms_view()[room_id].game->0.state, move_type),
    {
        let room = self.rooms.get(&room_id).unwrap();
        let game = room.game.as_ref().unwrap();
        let magic_numbers = collect_magic_numbers(&game.state, move_type);
        proof {
            lemma_fifteen_iff_three_in_a_row(grid(game.state@), move_type, magic_numbers@);
        }
        if magic_numbers.len() < 3 {
            assert(!crate::board::has_fifteen_triple(magic_numbers@));
            return false;
        }
        assert(crate::board::pair_sums_fit(magic_numbers@));
        three_sum(magic_numbers)
    }
}

} // verus!
