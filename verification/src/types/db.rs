use vstd::prelude::*;

use crate::types::ws::MoveType;

verus! {

/// A registered user as stored in the database.
#[derive(Debug)]
pub struct User {
    pub id: u128,
    pub email: String,
    pub username: String,
    pub password: String,
    pub created_at: i64,
}

#[derive(Debug, Clone, Copy, PartialEq, Eq, Structural)]
pub enum RoomStatus {
    Open,
    InProgress,
    Closed,
}

/// A room as stored in the database.
#[derive(Debug)]
pub struct Room {
    pub id: u128,
    pub room_name: String,
    pub room_code: String,
    pub status: RoomStatus,
    pub players: Vec<Player>,
    pub max_players: i16,
    pub spectators: Vec<Spectator>,
    pub max_spectators: i16,
    pub admin: Option<u128>,
    pub created_at: i64,
}

/// The part a user takes in a room.
#[derive(Debug, Clone, Copy, PartialEq, Eq, Structural)]
pub enum Role {
    Player,
    Spectator,
}

/// A game as stored in the database.
#[derive(Debug)]
pub struct Game {
    pub id: u128,
    pub room_id: u128,
    pub players: Vec<Player>,
    pub state: Vec<Vec<Option<MoveType>>>,
    pub moves: Vec<Move>,
    pub winner: Option<u128>,
    pub is_completed: bool,
    pub created_at: i64,
    pub completed_at: Option<i64>,
}

#[derive(Debug)]
pub struct Player {
    pub id: u128,
    pub username: String,
    pub symbol: Option<MoveType>,
}

#[derive(Debug)]
pub struct Spectator {
    pub id: u128,
    pub username: String,
}

/// One move of a game, with the time (seconds since the epoch) it was made.
#[derive(Debug, Clone, Copy)]
pub struct Move {
    pub symbol: MoveType,
    pub x_pos: u8,
    pub y_pos: u8,
    pub timestamp: i64,
}

impl Player {
    /// A field-by-field copy of the player.
    pub fn duplicate(&self) -> (r: Player)
        ensures
            r == *self,
    {
        Player { id: self.id, username: self.username.clone(), symbol: self.symbol }
    }
}

impl Spectator {
    /// A field-by-field copy of the spectator.
    pub fn duplicate(&self) -> (r: Spectator)
        ensures
            r == *self,
    {
        Spectator { id: self.id, username: self.username.clone() }
    }
}

/// A copy of a list of players.
pub fn copy_players(players: &Vec<Player>) -> (r: Vec<Player>)
    ensures
        r@ == players@,
{
    let mut r: Vec<Player> = Vec::new();
    let mut i: usize = 0;
    while i < players.len()
        invariant
            i <= players.len(),
            r@ == players@.take(i as int),
        decreases players.len() - i,
    {
        r.push(players[i].duplicate());
        i += 1;
        assert(r@ =~= players@.take(i as int));
    }
    assert(players@.take(players.len() as int) =~= players@);
    r
}

/// A copy of a list of spectators.
pub fn copy_spectators(spectators: &Vec<Spectator>) -> (r: Vec<Spectator>)
    ensures
        r@ == spectators@,
{
    let mut r: Vec<Spectator> = Vec::new();
    let mut i: usize = 0;
    while i < spectators.len()
        invariant
            i <= spectators.len(),
            r@ == spectators@.take(i as int),
        decreases spectators.len() - i,
    {
        r.push(spectators[i].duplicate());
        i += 1;
        assert(r@ =~= spectators@.take(i as int));
    }
    assert(spectators@.take(spectators.len() as int) =~= spectators@);
    r
}

/// The players of `ps` whose id is not `id`, in their order.
pub open spec fn players_without(ps: Seq<Player>, id: u128) -> Seq<Player>
    decreases ps.len(),
{
    if ps.len() == 0 {
        ps
    } else {
        let rest = players_without(ps.drop_last(), id);
        if ps.last().id != id {
            rest.push(ps.last())
        } else {
            rest
        }
    }
}

/// The spectators of `ss` whose id is not `id`, in their order.
pub open spec fn spectators_without(ss: Seq<Spectator>, id: u128) -> Seq<Spectator>
    decreases ss.len(),
{
    if ss.len() == 0 {
        ss
    } else {
        let rest = spectators_without(ss.drop_last(), id);
        if ss.last().id != id {
            rest.push(ss.last())
        } else {
            rest
        }
    }
}

/// Removing an id that no player has changes nothing.
pub proof fn lemma_players_without_absent(ps: Seq<Player>, id: u128)
    requires
        forall|i: int| 0 <= i < ps.len() ==> #[trigger] ps[i].id != id,
    ensures
        players_without(ps, id) == ps,
    decreases ps.len(),
{
    if ps.len() > 0 {
        lemma_players_without_absent(ps.drop_last(), id);
        assert(ps.drop_last().push(ps.last()) =~= ps);
    }
}

/// Removing an id that no spectator has changes nothing.
pub proof fn lemma_spectators_without_absent(ss: Seq<Spectator>, id: u128)
    requires
        forall|i: int| 0 <= i < ss.len() ==> #[trigger] ss[i].id != id,
    ensures
        spectators_without(ss, id) == ss,
    decreases ss.len(),
{
    if ss.len() > 0 {
        lemma_spectators_without_absent(ss.drop_last(), id);
        assert(ss.drop_last().push(ss.last()) =~= ss);
    }
}

/// Law of membership: a newcomer who joins a list of players and then
/// leaves it leaves the list as it was.
pub proof fn lemma_players_leave_undoes_join(ps: Seq<Player>, newcomer: Player)
    requires
        forall|i: int| 0 <= i < ps.len() ==> #[trigger] ps[i].id != newcomer.id,
    ensures
        players_without(ps.push(newcomer), newcomer.id) == ps,
{
    assert(ps.push(newcomer).drop_last() =~= ps);
    lemma_players_without_absent(ps, newcomer.id);
}

/// Law of membership: a newcomer who joins a list of spectators and then
/// leaves it leaves the list as it was.
pub proof fn lemma_spectators_leave_undoes_join(ss: Seq<Spectator>, newcomer: Spectator)
    requires
        forall|i: int| 0 <= i < ss.len() ==> #[trigger] ss[i].id != newcomer.id,
    ensures
        spectators_without(ss.push(newcomer), newcomer.id) == ss,
{
    assert(ss.push(newcomer).drop_last() =~= ss);
    lemma_spectators_without_absent(ss, newcomer.id);
}

proof fn lemma_players_without_drops(ps: Seq<Player>, id: u128)
    ensures
        forall|i: int|
            0 <= i < players_without(ps, id).len() ==> #[trigger] players_without(ps, id)[i].id
                != id,
    decreases ps.len(),
{
    if ps.len() > 0 {
        lemma_players_without_drops(ps.drop_last(), id);
        let r = players_without(ps, id);
        let r0 = players_without(ps.drop_last(), id);
        assert forall|i: int| 0 <= i < r.len() implies #[trigger] r[i].id != id by {
            if i < r0.len() {
                assert(r[i] == r0[i]);
            }
        }
    }
}

proof fn lemma_spectators_without_drops(ss: Seq<Spectator>, id: u128)
    ensures
        forall|i: int|
            0 <= i < spectators_without(ss, id).len() ==> #[trigger] spectators_without(ss, id)[i].id
                != id,
    decreases ss.len(),
{
    if ss.len() > 0 {
        lemma_spectators_without_drops(ss.drop_last(), id);
        let r = spectators_without(ss, id);
        let r0 = spectators_without(ss.drop_last(), id);
        assert forall|i: int| 0 <= i < r.len() implies #[trigger] r[i].id != id by {
            if i < r0.len() {
                assert(r[i] == r0[i]);
            }
        }
    }
}

/// Law of membership: after a leave no member with the leaver's id is left.
pub proof fn lemma_leaver_is_gone(ps: Seq<Player>, ss: Seq<Spectator>, id: u128)
    ensures
        forall|i: int|
            0 <= i < players_without(ps, id).len() ==> #[trigger] players_without(ps, id)[i].id
                != id,
        forall|i: int|
            0 <= i < spectators_without(ss, id).len() ==> #[trigger] spectators_without(ss, id)[i].id
                != id,
{
    lemma_players_without_drops(ps, id);
    lemma_spectators_without_drops(ss, id);
}

/// The players but those with id `id`, in their order.
pub fn remove_player(players: &Vec<Player>, id: u128) -> (r: Vec<Player>)
    ensures
        r@ == players_without(players@, id),
{
    let mut r: Vec<Player> = Vec::new();
    let mut i: usize = 0;
    while i < players.len()
        invariant
            i <= players.len(),
            r@ == players_without(players@.take(i as int), id),
        decreases players.len() - i,
    {
        assert(players@.take(i + 1).drop_last() =~= players@.take(i as int));
        if players[i].id != id {
            r.push(players[i].duplicate());
        }
        i += 1;
    }
    assert(players@.take(players.len() as int) =~= players@);
    r
}

/// The spectators but those with id `id`, in their order.
pub fn remove_spectator(spectators: &Vec<Spectator>, id: u128) -> (r: Vec<Spectator>)
    ensures
        r@ == spectators_without(spectators@, id),
{
    let mut r: Vec<Spectator> = Vec::new();
    let mut i: usize = 0;
    while i < spectators.len()
        invariant
            i <= spectators.len(),
            r@ == spectators_without(spectators@.take(i as int), id),
        decreases spectators.len() - i,
    {
        assert(spectators@.take(i + 1).drop_last() =~= spectators@.take(i as int));
        if spectators[i].id != id {
            r.push(spectators[i].duplicate());
        }
        i += 1;
    }
    assert(spectators@.take(spectators.len() as int) =~= spectators@);
    r
}

/// A copy of a list of moves.
pub fn copy_moves(moves: &Vec<Move>) -> (r: Vec<Move>)
    ensures
        r@ == moves@,
{
    let mut r: Vec<Move> = Vec::new();
    let mut i: usize = 0;
    while i < moves.len()
        invariant
            i <= moves.len(),
            r@ == moves@.take(i as int),
        decreases moves.len() - i,
    {
        r.push(moves[i]);
        i += 1;
        assert(r@ =~= moves@.take(i as int));
    }
    assert(moves@.take(moves.len() as int) =~= moves@);
    r
}

} // verus!
