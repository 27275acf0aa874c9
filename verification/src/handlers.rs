//! What the websocket server does with a client's request: how the rooms in
//! memory change, what the client is answered, which broadcasts go out and
//! what is to be written to the database.  The server's runtime performs the
//! sending and the database writes, in the order the fields are listed.

use vstd::prelude::*;

use crate::board::{copy_board, grid, has_three_in_a_row, marks_fit, marks_fit_board};
use crate::clock::now_timestamp;
use crate::room_manager::{
    is_end_game, is_room_close, is_room_update, move_in_bounds, move_outcome, room_audience,
    room_views, with_no_game, Broadcast, GameError, LocalGameView, LocalRoom, LocalRoomView,
    RoomManager, User,
};
use crate::types::db::{
    copy_moves, copy_players, lemma_players_leave_undoes_join, lemma_spectators_leave_undoes_join, players_without, remove_player, remove_spectator, spectators_without, Move, Player,
    Role, Spectator,
};
use crate::types::ws::{
    CreateInMemoryGameArgs, CreateRoomArgs, EndGameArgs, JoinRoomArgs, LeaveRoomArgs, MoveType, MoveUpdateArgs, ResponseData,
    WebSocketResponse,
};
use crate::utils::{is_log, log_text};

verus! {

broadcast use vstd::std_specs::hash::group_hash_axioms;

/// Creates room `args.room_id` with the user as its only player and its
/// admin, replacing any room of that id; the answer is a log.
pub fn create_room_handler(
    room_manager: &mut RoomManager,
    args: CreateRoomArgs,
    user_id: u128,
    username: String,
) -> (reply: WebSocketResponse)
    ensures
        final(room_manager).clients@ == old(room_manager).clients@,
        final(room_manager).rooms_view() == old(room_manager).rooms_view().insert(
            args.room_id,
            LocalRoomView {
                players: seq![Player { id: user_id, username, symbol: None }],
                spectators: Seq::empty(),
                game: None,
                admin: Some(user_id),
            },
        ),
        is_log(reply, "Room Created Successfully"@, false),
{
    let mut room = RoomManager::init_room();
    room.admin = Some(user_id);
    room.players.push(Player { id: user_id, username, symbol: None });
    let ghost before = room_manager.rooms@;
    let ghost view = room@;
    room_manager.rooms.insert(args.room_id, room);
    assert(view.players =~= seq![Player { id: user_id, username, symbol: None }]);
    assert(room_views(room_manager.rooms@) =~= room_views(before).insert(args.room_id, view));
    log_text("Room Created Successfully", false)
}

/// Loads the game of `args` into its room, which must exist, and tells
/// everyone in the room but the requesting user that the game starts.
pub fn create_game_handler(
    room_manager: &mut RoomManager,
    args: CreateInMemoryGameArgs,
    user_id: u128,
) -> (start: Broadcast)
    requires
        old(room_manager).rooms@.contains_key(args.room_id),
    ensures
        final(room_manager).clients@ == old(room_manager).clients@,
        final(room_manager).rooms_view() == old(room_manager).rooms_view().insert(
            args.room_id,
            LocalRoomView {
                players: old(room_manager).rooms_view()[args.room_id].players,
                spectators: old(room_manager).rooms_view()[args.room_id].spectators,
                game: Some(
                    LocalGameView {
                        id: args.game_id,
                        players: args.players@,
                        state: grid(args.state@),
                        moves: args.moves@,
                    },
                ),
                admin: old(room_manager).rooms_view()[args.room_id].admin,
            },
        ),
        start.recipients@ == final(room_manager).audience(args.room_id, Some(user_id), true),
        start.response.data == ResponseData::StartGame,
        start.follow_up is None,
{
    let room_id = args.room_id;
    room_manager.create_game(args);
    assert(room_manager.rooms_view().contains_key(room_id));
    assert(room_manager.rooms@.contains_key(room_id));
    room_manager.broadcast_start_game(room_id, user_id).unwrap()
}

/// The room with the user added as a player (with `symbol`) or as a
/// spectator.
pub open spec fn joined(
    room: LocalRoomView,
    role: Role,
    user_id: u128,
    username: String,
    symbol: Option<MoveType>,
) -> LocalRoomView {
    match role {
        Role::Player => LocalRoomView {
            players: room.players.push(Player { id: user_id, username, symbol }),
            spectators: room.spectators,
            game: room.game,
            admin: room.admin,
        },
        Role::Spectator => LocalRoomView {
            players: room.players,
            spectators: room.spectators.push(Spectator { id: user_id, username }),
            game: room.game,
            admin: room.admin,
        },
    }
}

/// What a join request produces: the answer to the user and the room update
/// for the others.
pub struct JoinRoomOutcome {
    pub reply: WebSocketResponse,
    pub room_update: Option<Broadcast>,
}

/// Adds the user to room `args.room_id` in the role asked for, answers with
/// a log, and tells everyone else in the room its new members and that the
/// user joined.  A room that does not exist is answered with an error log.
pub fn join_room_handler(
    room_manager: &mut RoomManager,
    args: JoinRoomArgs,
    user_id: u128,
    username: String,
) -> (o: JoinRoomOutcome)
    ensures
        final(room_manager).clients@ == old(room_manager).clients@,
        !old(room_manager).rooms@.contains_key(args.room_id) ==> {
            &&& final(room_manager).rooms_view() == old(room_manager).rooms_view()
            &&& is_log(o.reply, "Room doesn't exist"@, true)
            &&& o.room_update is None
        },
        old(room_manager).rooms@.contains_key(args.room_id) ==> {
            &&& final(room_manager).rooms_view() == old(room_manager).rooms_view().insert(
                args.room_id,
                joined(
                    old(room_manager).rooms_view()[args.room_id],
                    args.role,
                    user_id,
                    username,
                    args.symbol,
                ),
            )
            &&& is_log(o.reply, "Room Joined Successfully"@, false)
            &&& o.room_update matches Some(b) && is_room_update(
                b,
                final(room_manager).rooms_view()[args.room_id],
                final(room_manager).clients@,
                user_id,
                username@,
                true,
                None,
            )
        },
{
    if !room_manager.rooms.contains_key(&args.room_id) {
        return JoinRoomOutcome { reply: log_text("Room doesn't exist", true), room_update: None };
    }
    let ghost before = room_manager.rooms@;
    let mut room = room_manager.rooms.remove(&args.room_id).unwrap();
    let name = username.clone();
    match args.role {
        Role::Player => {
            room.players.push(Player { id: user_id, username: name, symbol: args.symbol });
        },
        Role::Spectator => {
            room.spectators.push(Spectator { id: user_id, username: name });
        },
    }
    let ghost view = room@;
    room_manager.rooms.insert(args.room_id, room);
    assert(view == joined(room_views(before)[args.room_id], args.role, user_id, username, args.symbol));
    assert(room_views(room_manager.rooms@) =~= room_views(before).insert(args.room_id, view));
    let reply = log_text("Room Joined Successfully", false);
    let room_update = room_manager.broadcast_room_update(args.room_id, user_id, &username, true, None);
    JoinRoomOutcome { reply, room_update }
}

/// The room without the user in the role it leaves.
pub open spec fn without_member(room: LocalRoomView, role: Role, user_id: u128) -> LocalRoomView {
    match role {
        Role::Player => LocalRoomView {
            players: players_without(room.players, user_id),
            spectators: room.spectators,
            game: room.game,
            admin: room.admin,
        },
        Role::Spectator => LocalRoomView {
            players: room.players,
            spectators: spectators_without(room.spectators, user_id),
            game: room.game,
            admin: room.admin,
        },
    }
}

/// Law of rooms: a user who was not a member of a room, joins it and then
/// leaves it in the same role leaves the room as it was.
pub proof fn lemma_leave_undoes_join(
    room: LocalRoomView,
    role: Role,
    user_id: u128,
    username: String,
    symbol: Option<MoveType>,
)
    requires
        role == Role::Player ==> forall|i: int|
            0 <= i < room.players.len() ==> #[trigger] room.players[i].id != user_id,
        role == Role::Spectator ==> forall|i: int|
            0 <= i < room.spectators.len() ==> #[trigger] room.spectators[i].id != user_id,
    ensures
        without_member(joined(room, role, user_id, username, symbol), role, user_id) == room,
{
    match role {
        Role::Player => {
            lemma_players_leave_undoes_join(room.players, Player { id: user_id, username, symbol });
        },
        Role::Spectator => {
            lemma_spectators_leave_undoes_join(room.spectators, Spectator { id: user_id, username });
        },
    }
}

/// The admin of a room once a member left: a last remaining player who is
/// not the admin becomes the admin; otherwise the admin stays.
pub open spec fn next_admin(room: LocalRoomView) -> Option<u128> {
    if room.players.len() == 1 && room.admin != Some(room.players[0].id) {
        Some(room.players[0].id)
    } else {
        room.admin
    }
}

/// The room with `admin` as its admin.
pub open spec fn with_admin(room: LocalRoomView, admin: Option<u128>) -> LocalRoomView {
    LocalRoomView {
        players: room.players,
        spectators: room.spectators,
        game: room.game,
        admin: admin,
    }
}

/// Law of rooms: when a member leaves and exactly one player remains, that
/// player is the room's admin.
pub proof fn lemma_lone_player_is_admin(room: LocalRoomView, role: Role, user_id: u128)
    ensures
        ({
            let rest = without_member(room, role, user_id);
            rest.players.len() == 1 ==> next_admin(rest) == Some(rest.players[0].id)
        }),
{
}

/// A player leaving names the game of the room: the other player wins it.
pub open spec fn forfeits(room: LocalRoomView, args: LeaveRoomArgs) -> bool {
    &&& args.role == Role::Player
    &&& args.game_id is Some
    &&& room.game is Some
    &&& room.game->0.id == args.game_id->0
}

/// Position `i` holds the first player of `ps` who is not `user_id`.
pub open spec fn is_first_other(ps: Seq<Player>, user_id: u128, i: int) -> bool {
    &&& 0 <= i < ps.len()
    &&& ps[i].id != user_id
    &&& forall|k: int| 0 <= k < i ==> #[trigger] ps[k].id == user_id
}

/// Some player of `ps` is not `user_id`.
pub open spec fn has_other_player(ps: Seq<Player>, user_id: u128) -> bool {
    exists|i: int| 0 <= i < ps.len() && #[trigger] ps[i].id != user_id
}

/// The first player of `ps` who is not `user_id`.
pub open spec fn first_other_player(ps: Seq<Player>, user_id: u128) -> Player {
    ps[choose|i: int| is_first_other(ps, user_id, i)]
}

fn first_other_index(players: &Vec<Player>, user_id: u128) -> (i: usize)
    requires
        has_other_player(players@, user_id),
    ensures
        is_first_other(players@, user_id, i as int),
        players@[i as int] == first_other_player(players@, user_id),
{
    let mut i: usize = 0;
    while players[i].id == user_id
        invariant
            exists|j: int| i <= j < players.len() && #[trigger] players@[j].id != user_id,
            forall|k: int| 0 <= k < i ==> #[trigger] players@[k].id == user_id,
        decreases players.len() - i,
    {
        i += 1;
    }
    assert(is_first_other(players@, user_id, i as int));
    let ghost c = choose|c: int| is_first_other(players@, user_id, c);
    assert(c == i as int) by {
        if c < i {
            assert(players@[c].id == user_id);
        } else if c > i {
            assert(players@[i as int].id == user_id);
        }
    }
    i
}

/// A game lost by leaving it.
pub struct Forfeit {
    /// The end of the game, for everyone in the room but the leaving player.
    pub end_game: Broadcast,
    /// The game to store as completed.
    pub game_id: u128,
    /// The player to store as its winner.
    pub winner_id: u128,
}

/// What a leave request produces.
pub struct LeaveRoomOutcome {
    /// The answer to the leaving user.
    pub reply: WebSocketResponse,
    /// When the last player left: the room is dropped, this tells its
    /// spectators, and the stored room is to be marked closed.
    pub room_closed: Option<Broadcast>,
    /// When the room's admin changed: the admin to store.
    pub new_admin: Option<Option<u128>>,
    /// The room's members, for everyone else in it.
    pub room_update: Option<Broadcast>,
    /// When a player left the game being played.
    pub forfeit: Option<Forfeit>,
}

/// The user can leave room `args.room_id` without the server failing: a
/// single player left behind is known to the room's admin field, and a
/// player who gives up the game leaves an opponent.
pub open spec fn can_leave(rooms: Map<u128, LocalRoomView>, args: LeaveRoomArgs, user_id: u128) -> bool {
    rooms.contains_key(args.room_id) ==> {
        let rest = without_member(rooms[args.room_id], args.role, user_id);
        &&& rest.players.len() == 1 ==> rest.admin is Some
        &&& rest.players.len() > 0 && forfeits(rest, args) ==> has_other_player(
            rest.game->0.players,
            user_id,
        )
    }
}

/// Whether [`leave_room_handler`] can be called for this request: the
/// condition [`can_leave`], computed.
pub fn can_leave_room(room_manager: &RoomManager, args: LeaveRoomArgs, user_id: u128) -> (r: bool)
    ensures
        r == can_leave(room_manager.rooms_view(), args, user_id),
{
    match room_manager.rooms.get(&args.room_id) {
        None => true,
        Some(room) => {
            assert(room_manager.rooms_view()[args.room_id] == room@);
            let ghost rest = without_member(room_manager.rooms_view()[args.room_id], args.role, user_id);
            assert(rest.game == room@.game);
            let players = match args.role {
                Role::Player => remove_player(&room.players, user_id),
                Role::Spectator => copy_players(&room.players),
            };
            assert(players@ == rest.players);
            if players.len() == 1 && room.admin.is_none() {
                return false;
            }
            if players.len() == 0 {
                return true;
            }
            let playing = match (args.role, args.game_id, &room.game) {
                (Role::Player, Some(game_id), Some(game)) => game.id == game_id,
                _ => false,
            };
            if !playing {
                return true;
            }
            let game = room.game.as_ref().unwrap();
            has_other(&game.players, user_id)
        },
    }
}

fn has_other(players: &Vec<Player>, user_id: u128) -> (r: bool)
    ensures
        r == has_other_player(players@, user_id),
{
    let mut k: usize = 0;
    while k < players.len()
        invariant
            k <= players.len(),
            forall|j: int| 0 <= j < k ==> #[trigger] players@[j].id == user_id,
        decreases players.len() - k,
    {
        if players[k].id != user_id {
            assert(has_other_player(players@, user_id));
            return true;
        }
        k += 1;
    }
    false
}

/// `o` and `after` are the outcome of user `user_id`, named `username`,
/// leaving as `args` asks, and the rooms afterwards, from the rooms `before`
/// with the connected clients `clients`.
pub open spec fn left_room(
    before: Map<u128, LocalRoomView>,
    clients: Map<u128, User>,
    args: LeaveRoomArgs,
    user_id: u128,
    username: String,
    o: LeaveRoomOutcome,
    after: Map<u128, LocalRoomView>,
) -> bool {
    if !before.contains_key(args.room_id) {
        &&& after == before
        &&& is_log(o.reply, "Room doesn't exist"@, true)
        &&& o.room_closed is None
        &&& o.new_admin is None
        &&& o.room_update is None
        &&& o.forfeit is None
    } else {
        let old_room = before[args.room_id];
        let rest = without_member(old_room, args.role, user_id);
        let admin = next_admin(rest);
        let room = with_admin(rest, admin);
        &&& is_log(o.reply, "Room Left Successfully"@, false)
        &&& if rest.players.len() == 0 {
            &&& after == before.remove(args.room_id)
            &&& o.room_closed matches Some(b) && is_room_close(b, room, clients, user_id)
            &&& o.new_admin is None
            &&& o.room_update is None
            &&& o.forfeit is None
        } else {
            &&& o.room_closed is None
            &&& o.new_admin == if admin != old_room.admin {
                Some(admin)
            } else {
                None
            }
            &&& o.room_update matches Some(b) && is_room_update(
                b,
                room,
                clients,
                user_id,
                username@,
                false,
                admin,
            )
            &&& if forfeits(rest, args) {
                let winner = first_other_player(rest.game->0.players, user_id);
                &&& after == before.insert(args.room_id, with_no_game(room))
                &&& o.forfeit matches Some(f) && f.game_id == args.game_id->0 && f.winner_id
                    == winner.id && is_end_game(
                    f.end_game,
                    room,
                    clients,
                    false,
                    Some(winner.username),
                    Some(user_id),
                )
            } else {
                &&& after == before.insert(args.room_id, room)
                &&& o.forfeit is None
            }
        }
    }
}

/// Removes the user from room `args.room_id` in the role given.  When no
/// player is left the room is dropped and its spectators are told; otherwise
/// a single remaining player becomes the admin, the others are told the new
/// members, and a player who leaves the game being played gives the win to
/// the first other player of that game, whose game is then dropped.
pub fn leave_room_handler(
    room_manager: &mut RoomManager,
    args: LeaveRoomArgs,
    user_id: u128,
    username: &String,
) -> (o: LeaveRoomOutcome)
    requires
        can_leave(old(room_manager).rooms_view(), args, user_id),
    ensures
        final(room_manager).clients@ == old(room_manager).clients@,
        left_room(
            old(room_manager).rooms_view(),
            old(room_manager).clients@,
            args,
            user_id,
            *username,
            o,
            final(room_manager).rooms_view(),
        ),
{
    if !room_manager.rooms.contains_key(&args.room_id) {
        return LeaveRoomOutcome {
            reply: log_text("Room doesn't exist", true),
            room_closed: None,
            new_admin: None,
            room_update: None,
            forfeit: None,
        };
    }
    let ghost before = room_manager.rooms@;
    let ghost old_room = room_views(before)[args.room_id];
    assert(room_views(before).contains_key(args.room_id));
    let room = room_manager.rooms.remove(&args.room_id).unwrap();
    let LocalRoom { players, spectators, game, admin } = room;
    let (players, spectators) = match args.role {
        Role::Player => (remove_player(&players, user_id), spectators),
        Role::Spectator => (players, remove_spectator(&spectators, user_id)),
    };
    let ghost rest = without_member(old_room, args.role, user_id);
    assert(players@ == rest.players);
    assert(spectators@ == rest.spectators);

    let reply = log_text("Room Left Successfully", false);

    let old_admin = admin;
    let mut new_admin = admin;
    if players.len() == 1 {
        if admin.unwrap() != players[0].id {
            new_admin = Some(players[0].id);
        }
    }
    assert(new_admin == next_admin(rest));
    let remaining = players.len();
    let room = LocalRoom { players, spectators, game, admin: new_admin };
    let ghost room_view = room@;
    assert(room_view == with_admin(rest, next_admin(rest)));
    room_manager.rooms.insert(args.room_id, room);
    assert(room_views(room_manager.rooms@) =~= room_views(before).insert(args.room_id, room_view));

    if remaining == 0 {
        let room_closed = room_manager.broadcast_room_close(args.room_id, user_id);
        room_manager.rooms.remove(&args.room_id);
        assert(room_views(room_manager.rooms@) =~= room_views(before).remove(args.room_id));
        return LeaveRoomOutcome {
            reply,
            room_closed,
            new_admin: None,
            room_update: None,
            forfeit: None,
        };
    }
    let admin_changed = match (old_admin, new_admin) {
        (Some(a), Some(b)) => a != b,
        (None, None) => false,
        _ => true,
    };
    let stored_admin = if admin_changed {
        Some(new_admin)
    } else {
        None
    };
    let room_update = room_manager.broadcast_room_update(
        args.room_id,
        user_id,
        username,
        false,
        new_admin,
    );

    let mut forfeit: Option<Forfeit> = None;
    if let Some(game_id) = args.game_id {
        if let Role::Player = args.role {
            let room = room_manager.rooms.get(&args.room_id).unwrap();
            if let Some(game) = &room.game {
                if game.id == game_id {
                    let i = first_other_index(&game.players, user_id);
                    let winner_id = game.players[i].id;
                    let winner_name = game.players[i].username.clone();
                    let end_game = room_manager.broadcast_end_game(
                        args.room_id,
                        false,
                        Some(winner_name),
                        Some(user_id),
                    ).unwrap();
                    room_manager.clear_game(args.room_id);
                    assert(room_manager.rooms_view() =~= room_views(before).insert(
                        args.room_id,
                        with_no_game(room_view),
                    ));
                    forfeit = Some(Forfeit { end_game, game_id, winner_id });
                }
            }
        }
    }
    LeaveRoomOutcome { reply, room_closed: None, new_admin: stored_admin, room_update, forfeit }
}

/// How a game stands after a move.
#[derive(Debug, Clone, Copy, PartialEq, Eq, Structural)]
pub enum GameResult {
    /// The mover holds a complete line.
    Won,
    /// Nine moves were made and nobody won.
    Draw,
    /// The game goes on.
    Ongoing,
}

/// How the game `g` stands once `mover` moved.
pub open spec fn game_result(g: LocalGameView, mover: MoveType) -> GameResult {
    if has_three_in_a_row(g.state, mover) {
        GameResult::Won
    } else if g.moves.len() == 9 {
        GameResult::Draw
    } else {
        GameResult::Ongoing
    }
}

/// What an accepted move produces.
pub struct MoveOutcome {
    /// The move, for everyone in the room.
    pub move_update: Broadcast,
    /// When the game ended: the result, for everyone in the room.
    pub end_game: Option<Broadcast>,
    pub result: GameResult,
    /// The board and the moves after the move, to store.
    pub state: Vec<Vec<Option<MoveType>>>,
    pub moves: Vec<Move>,
    /// The winner to store: the mover, when the move won the game.
    pub winner: Option<u128>,
    /// Whether the game is to be stored as completed; nothing to change
    /// while it goes on.
    pub completed: Option<bool>,
    /// When the game ended, to store; nothing while it goes on.
    pub completed_at: Option<i64>,
}

/// The move in `args` can be played on the rooms `rooms`: when the room
/// exists it holds a game, and when the move is placed on that game, every
/// cell then holding the mover's mark lies within the first three rows and
/// columns.
pub open spec fn can_play(rooms: Map<u128, LocalRoomView>, args: MoveUpdateArgs) -> bool {
    &&& move_in_bounds(rooms, args)
    &&& rooms.contains_key(args.room_id) ==> {
        let g = rooms[args.room_id].game->0;
        &&& rooms[args.room_id].game is Some
        &&& g.moves.len() != 9 && g.state[args.y_pos as int][args.x_pos as int] is None ==> {
            &&& marks_fit(g.state, args.move_type)
            &&& args.y_pos < 3
            &&& args.x_pos < 3
        }
    }
}

/// Whether [`play_move`] can be called for this move: the condition
/// [`can_play`], computed.
pub fn can_play_move(room_manager: &RoomManager, args: MoveUpdateArgs) -> (r: bool)
    ensures
        r == can_play(room_manager.rooms_view(), args),
{
    match room_manager.rooms.get(&args.room_id) {
        None => true,
        Some(room) => match &room.game {
            None => false,
            Some(game) => {
                assert(room_manager.rooms_view()[args.room_id] == room@);
                assert(room@.game->0.state == grid(game.state@));
                let y = args.y_pos as usize;
                let x = args.x_pos as usize;
                if game.moves.len() == 9 {
                    return true;
                }
                if !(y < game.state.len() && x < game.state[y].len()) {
                    return false;
                }
                if game.state[y][x].is_some() {
                    return true;
                }
                y < 3 && x < 3 && marks_fit_board(&game.state, args.move_type)
            },
        },
    }
}

/// `r` and `after` are the answer to the move of user `user_id`, named
/// `username`, in `args` and the rooms afterwards, the move being recorded
/// with time `timestamp` and a game it ends with time `finished_at`.
pub open spec fn move_played(
    before: Map<u128, LocalRoomView>,
    clients: Map<u128, User>,
    args: MoveUpdateArgs,
    user_id: u128,
    username: String,
    timestamp: i64,
    finished_at: i64,
    r: Result<MoveOutcome, GameError>,
    after: Map<u128, LocalRoomView>,
) -> bool {
    let outcome = move_outcome(before, args, timestamp);
    match outcome.0 {
        Err(e) => r == Err::<MoveOutcome, GameError>(e) && after == before,
        Ok(_) => {
            let room = outcome.1[args.room_id];
            let g = room.game->0;
            let result = game_result(g, args.move_type);
            r matches Ok(o) && {
                &&& o.result == result
                &&& o.move_update.recipients@ == room_audience(room, clients, None, true)
                &&& o.move_update.response.data == ResponseData::MoveUpdate(
                    MoveUpdateArgs {
                        game_id: args.game_id,
                        room_id: args.room_id,
                        move_type: args.move_type,
                        x_pos: args.x_pos,
                        y_pos: args.y_pos,
                        is_x_turn: Some(g.moves.len() % 2 == 0),
                    },
                )
                &&& o.move_update.follow_up is None
                &&& grid(o.state@) == g.state
                &&& o.moves@ == g.moves
                &&& o.winner == if result == GameResult::Won {
                    Some(user_id)
                } else {
                    None
                }
                &&& o.completed == if result == GameResult::Ongoing {
                    None
                } else {
                    Some(true)
                }
                &&& o.completed_at == if result == GameResult::Ongoing {
                    None
                } else {
                    Some(finished_at)
                }
                &&& match result {
                    GameResult::Won => o.end_game matches Some(b) && is_end_game(
                        b,
                        room,
                        clients,
                        false,
                        Some(username),
                        None,
                    ),
                    GameResult::Draw => o.end_game matches Some(b) && is_end_game(
                        b,
                        room,
                        clients,
                        true,
                        None,
                        None,
                    ),
                    GameResult::Ongoing => o.end_game is None,
                }
                &&& after == if result == GameResult::Ongoing {
                    outcome.1
                } else {
                    outcome.1.insert(args.room_id, with_no_game(room))
                }
            }
        },
    }
}

/// Plays the move of user `user_id`, named `username`, in `args`, recorded
/// with time `timestamp`: a refused move leaves the rooms as they were; an
/// accepted one is told to the room, and a win by the mover or a ninth move
/// without a winner ends the game at time `finished_at`, which is told to
/// the room and dropped from it.
pub fn play_move(
    room_manager: &mut RoomManager,
    args: MoveUpdateArgs,
    user_id: u128,
    username: &String,
    timestamp: i64,
    finished_at: i64,
) -> (r: Result<MoveOutcome, GameError>)
    requires
        can_play(old(room_manager).rooms_view(), args),
    ensures
        final(room_manager).clients@ == old(room_manager).clients@,
        move_played(
            old(room_manager).rooms_view(),
            old(room_manager).clients@,
            args,
            user_id,
            *username,
            timestamp,
            finished_at,
            r,
            final(room_manager).rooms_view(),
        ),
{
    let ghost before = room_manager.rooms_view();
    match room_manager.apply_move(args, timestamp) {
        Err(e) => {
            return Err(e);
        },
        Ok(()) => {},
    }
    let ghost after_move = room_manager.rooms_view();
    assert(before.contains_key(args.room_id));
    assert(after_move.contains_key(args.room_id));
    assert(room_manager.rooms@.contains_key(args.room_id));
    assert(marks_fit(after_move[args.room_id].game->0.state, args.move_type)) by {
        let s0 = before[args.room_id].game->0.state;
        let s1 = after_move[args.room_id].game->0.state;
        assert forall|i: int, j: int| #[trigger]
            crate::board::owns(s1, args.move_type, i, j) implies i < 3 && j < 3 by {
            if !(i == args.y_pos && j == args.x_pos) {
                assert(crate::board::owns(s0, args.move_type, i, j));
            }
        }
    }
    let won = room_manager.check_winner(args.room_id, args.move_type);
    let move_update = room_manager.broadcast_move(args).unwrap();
    let room = room_manager.rooms.get(&args.room_id).unwrap();
    let game = room.game.as_ref().unwrap();
    let full = game.moves.len() == 9;
    let state = copy_board(&game.state);
    let moves = copy_moves(&game.moves);
    let (result, end_game) = if won {
        (
            GameResult::Won,
            room_manager.broadcast_end_game(args.room_id, false, Some(username.clone()), None),
        )
    } else if full {
        (GameResult::Draw, room_manager.broadcast_end_game(args.room_id, true, None, None))
    } else {
        (GameResult::Ongoing, None)
    };
    let (winner, completed, completed_at) = if won {
        (Some(user_id), Some(true), Some(finished_at))
    } else if full {
        (None, Some(true), Some(finished_at))
    } else {
        (None, None, None)
    };
    if won || full {
        room_manager.clear_game(args.room_id);
    }
    Ok(MoveOutcome { move_update, end_game, result, state, moves, winner, completed, completed_at })
}

/// Plays the move of user `user_id`, named `username`, in `args` at the
/// current time, as [`play_move`] does for the times read from the clock.
pub fn handle_move_update(
    room_manager: &mut RoomManager,
    args: MoveUpdateArgs,
    user_id: u128,
    username: &String,
) -> (r: Result<MoveOutcome, GameError>)
    requires
        can_play(old(room_manager).rooms_view(), args),
    ensures
        final(room_manager).clients@ == old(room_manager).clients@,
        exists|t: i64, f: i64|
            #[trigger] move_played(
                old(room_manager).rooms_view(),
                old(room_manager).clients@,
                args,
                user_id,
                *username,
                t,
                f,
                r,
                final(room_manager).rooms_view(),
            ),
{
    let timestamp = now_timestamp();
    let finished_at = now_timestamp();
    play_move(room_manager, args, user_id, username, timestamp, finished_at)
}

/// Law of joining: a join as a player appends exactly one player to the
/// room, the user, with the symbol the request asks for; the spectators and
/// the game stay as they were.
pub proof fn lemma_player_joins_with_chosen_symbol(
    before: Map<u128, LocalRoomView>,
    after: Map<u128, LocalRoomView>,
    args: JoinRoomArgs,
    user_id: u128,
    username: String,
)
    requires
        before.contains_key(args.room_id),
        args.role == Role::Player,
        after == before.insert(
            args.room_id,
            joined(before[args.room_id], args.role, user_id, username, args.symbol),
        ),
    ensures
        after[args.room_id].players.len() == before[args.room_id].players.len() + 1,
        after[args.room_id].players.last() == (Player { id: user_id, username, symbol: args.symbol }),
        after[args.room_id].players.drop_last() == before[args.room_id].players,
        after[args.room_id].spectators == before[args.room_id].spectators,
        after[args.room_id].game == before[args.room_id].game,
{
    assert(after[args.room_id].players.drop_last() =~= before[args.room_id].players);
}

/// Law of leaving: a leave in the spectator role never ends the room's
/// game: no forfeit comes of it, and the room, when it stays, keeps the game
/// it had.
pub proof fn lemma_spectator_leave_keeps_game(
    before: Map<u128, LocalRoomView>,
    clients: Map<u128, User>,
    args: LeaveRoomArgs,
    user_id: u128,
    username: String,
    o: LeaveRoomOutcome,
    after: Map<u128, LocalRoomView>,
)
    requires
        left_room(before, clients, args, user_id, username, o, after),
        args.role == Role::Spectator,
    ensures
        o.forfeit is None,
        after.contains_key(args.room_id) ==> after[args.room_id].game == before[args.room_id].game,
{
}

/// Law of leaving: a forfeit comes only of a player leaving the game being
/// played in the room; it goes to another player of that game, whose name
/// the room is told as the winner of a game that is no draw, and the room
/// keeps no game.
pub proof fn lemma_forfeit_goes_to_an_opponent(
    before: Map<u128, LocalRoomView>,
    clients: Map<u128, User>,
    args: LeaveRoomArgs,
    user_id: u128,
    username: String,
    o: LeaveRoomOutcome,
    after: Map<u128, LocalRoomView>,
)
    requires
        left_room(before, clients, args, user_id, username, o, after),
        o.forfeit is Some,
        before.contains_key(args.room_id) ==> has_other_player(
            before[args.room_id].game->0.players,
            user_id,
        ),
    ensures
        args.role == Role::Player,
        before.contains_key(args.room_id),
        before[args.room_id].game matches Some(g) && {
            let f = o.forfeit->0;
            &&& g.id == f.game_id
            &&& args.game_id == Some(g.id)
            &&& exists|i: int|
                0 <= i < g.players.len() && #[trigger] g.players[i].id == f.winner_id
                    && f.winner_id != user_id && f.end_game.response.data == ResponseData::EndGame(
                    EndGameArgs { is_draw: false, winner: Some(g.players[i].username) },
                )
        },
        after.contains_key(args.room_id) && after[args.room_id].game is None,
{
    let g = before[args.room_id].game->0;
    let c = choose|i: int| is_first_other(g.players, user_id, i);
    assert(is_first_other(g.players, user_id, c)) by {
        let j = choose|j: int| 0 <= j < g.players.len() && #[trigger] g.players[j].id != user_id;
        lemma_first_other_exists(g.players, user_id, j);
    }
}

/// A sequence with a player other than `user_id` at `j` has a first one.
proof fn lemma_first_other_exists(ps: Seq<Player>, user_id: u128, j: int)
    requires
        0 <= j < ps.len(),
        ps[j].id != user_id,
    ensures
        exists|i: int| is_first_other(ps, user_id, i),
    decreases j,
{
    if forall|k: int| 0 <= k < j ==> #[trigger] ps[k].id == user_id {
        assert(is_first_other(ps, user_id, j));
    } else {
        let k = choose|k: int| 0 <= k < j && #[trigger] ps[k].id != user_id;
        lemma_first_other_exists(ps, user_id, k);
    }
}

/// Law of moves: an accepted move after which the mover's mark holds a
/// complete row, column or diagonal is a win by the mover, whatever the
/// number of moves, the ninth included: the mover is stored as the winner,
/// the game as completed at its end time, and the room is told that the game
/// ended with no draw and the mover as winner.
pub proof fn lemma_line_is_a_win(
    before: Map<u128, LocalRoomView>,
    clients: Map<u128, User>,
    args: MoveUpdateArgs,
    user_id: u128,
    username: String,
    timestamp: i64,
    finished_at: i64,
    r: Result<MoveOutcome, GameError>,
    after: Map<u128, LocalRoomView>,
)
    requires
        move_played(before, clients, args, user_id, username, timestamp, finished_at, r, after),
        r matches Ok(o) && has_three_in_a_row(grid(o.state@), args.move_type),
    ensures
        r matches Ok(o) && {
            &&& o.result == GameResult::Won
            &&& o.winner == Some(user_id)
            &&& o.completed == Some(true)
            &&& o.completed_at == Some(finished_at)
            &&& o.end_game matches Some(b) && b.response.data == ResponseData::EndGame(
                EndGameArgs { is_draw: false, winner: Some(username) },
            )
        },
{
}

/// Law of moves: an accepted ninth move after which the mover holds no
/// complete line is a draw, stored with no winner; an accepted move before
/// the ninth that makes no line leaves the game going, with nothing ended
/// or completed.
pub proof fn lemma_no_line_is_draw_or_ongoing(
    before: Map<u128, LocalRoomView>,
    clients: Map<u128, User>,
    args: MoveUpdateArgs,
    user_id: u128,
    username: String,
    timestamp: i64,
    finished_at: i64,
    r: Result<MoveOutcome, GameError>,
    after: Map<u128, LocalRoomView>,
)
    requires
        move_played(before, clients, args, user_id, username, timestamp, finished_at, r, after),
        r matches Ok(o) && !has_three_in_a_row(grid(o.state@), args.move_type),
    ensures
        r matches Ok(o) && {
            &&& o.moves.len() == 9 ==> {
                &&& o.result == GameResult::Draw
                &&& o.winner is None
                &&& o.completed == Some(true)
                &&& o.end_game matches Some(b) && b.response.data == ResponseData::EndGame(
                    EndGameArgs { is_draw: true, winner: None },
                )
            }
            &&& o.moves.len() != 9 ==> {
                &&& o.result == GameResult::Ongoing
                &&& o.winner is None
                &&& o.completed is None
                &&& o.end_game is None
            }
        },
{
}

} // verus!
