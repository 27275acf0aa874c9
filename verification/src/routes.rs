//! The decisions of the HTTP routes: which requests are refused, how a
//! stored room changes when a user joins or leaves it, which symbol each
//! player of a new game gets, and which page of a listing is returned.

use vstd::prelude::*;
use vstd::pervasive::VecAdditionalExecFns;

use crate::types::db::{
    players_without, remove_player, remove_spectator, spectators_without, Player, Role, Room,
    RoomStatus, Spectator, User,
};
use crate::types::route::CreateRoom;
use crate::types::ws::MoveType;

verus! {

broadcast use vstd::seq_lib::group_to_multiset_ensures;

/// Why a request to the HTTP routes is refused.
#[derive(Debug, Clone, Copy, PartialEq, Eq, Structural)]
pub enum RouteError {
    /// A room may not ask for more than 8 spectators.
    TooManySpectators,
    /// A game cannot start in a closed room.
    RoomClosed,
    /// A game cannot start in a room whose game is in progress.
    RoomInProgress,
    /// The room has no player place left.
    PlayerCapacity,
    /// The room has no spectator place left.
    SpectatorCapacity,
}

impl RouteError {
    pub open spec fn text(&self) -> Seq<char> {
        match self {
            RouteError::TooManySpectators => "Cannot have more than 8 spctators"@,
            RouteError::RoomClosed => "Cannot Join Closed room"@,
            RouteError::RoomInProgress => "Cannot Join InProgress room"@,
            RouteError::PlayerCapacity => "Max Player capacity reached"@,
            RouteError::SpectatorCapacity => "Max Spectator capacity reached"@,
        }
    }

    /// The text the routes answer with for this error.
    pub fn message(&self) -> (m: String)
        ensures
            m@ == self.text(),
    {
        match self {
            RouteError::TooManySpectators => String::from_str("Cannot have more than 8 spctators"),
            RouteError::RoomClosed => String::from_str("Cannot Join Closed room"),
            RouteError::RoomInProgress => String::from_str("Cannot Join InProgress room"),
            RouteError::PlayerCapacity => String::from_str("Max Player capacity reached"),
            RouteError::SpectatorCapacity => String::from_str("Max Spectator capacity reached"),
        }
    }
}

/// The most spectators a room may ask for.
pub const MAX_SPECTATORS: i16 = 8;

/// The request to create a room asks for at most [`MAX_SPECTATORS`] spectators.
pub fn check_room_request(body: &CreateRoom) -> (r: Result<(), RouteError>)
    ensures
        r == if body.max_spectators > MAX_SPECTATORS {
            Err(RouteError::TooManySpectators)
        } else {
            Ok(())
        },
{
    if body.max_spectators > MAX_SPECTATORS {
        Err(RouteError::TooManySpectators)
    } else {
        Ok(())
    }
}

/// What [`check_role_capacity`] answers: the role is refused when its list
/// holds as many members as the room's limit, read as an unsigned size (so
/// that a negative limit is never reached in practice).
pub open spec fn role_capacity(role: Role, room: Room) -> Result<(), RouteError> {
    match role {
        Role::Player => if room.players@.len() >= room.max_players as usize {
            Err(RouteError::PlayerCapacity)
        } else {
            Ok(())
        },
        Role::Spectator => if room.spectators@.len() >= room.max_spectators as usize {
            Err(RouteError::SpectatorCapacity)
        } else {
            Ok(())
        },
    }
}

/// The room has a place left for one more member in `role`.
pub fn check_role_capacity(role: &Role, room: &Room) -> (r: Result<(), RouteError>)
    ensures
        r == role_capacity(*role, *room),
{
    match role {
        Role::Player => {
            if room.players.len() >= room.max_players as usize {
                return Err(RouteError::PlayerCapacity);
            }
        },
        Role::Spectator => {
            if room.spectators.len() >= room.max_spectators as usize {
                return Err(RouteError::SpectatorCapacity);
            }
        },
    }
    Ok(())
}

/// Law of capacity: a join that the capacity check accepts keeps the role's
/// members within the room's limit, when that limit is not negative.
pub proof fn lemma_join_stays_within_capacity(room: Room, role: Role)
    requires
        role_capacity(role, room) is Ok,
        0 <= room.max_players,
        0 <= room.max_spectators,
    ensures
        role == Role::Player ==> room.players@.len() + 1 <= room.max_players,
        role == Role::Spectator ==> room.spectators@.len() + 1 <= room.max_spectators,
{
}

/// The stored room's fields other than its members are those of `other`.
pub open spec fn same_settings(room: Room, other: Room) -> bool {
    &&& room.id == other.id
    &&& room.room_name == other.room_name
    &&& room.room_code == other.room_code
    &&& room.status == other.status
    &&& room.max_players == other.max_players
    &&& room.max_spectators == other.max_spectators
    &&& room.admin == other.admin
    &&& room.created_at == other.created_at
}

/// The stored room with the user added in `role` (a player without a
/// symbol), refused when the role has no place left.
pub fn join_room(room: Room, role: Role, user_id: u128, username: String) -> (r: Result<
    Room,
    RouteError,
>)
    ensures
        role_capacity(role, room) matches Err(e) ==> r == Err::<Room, RouteError>(e),
        role_capacity(role, room) is Ok ==> (r matches Ok(joined) && same_settings(joined, room)
            && match role {
            Role::Player => joined.players@ == room.players@.push(
                Player { id: user_id, username, symbol: None },
            ) && joined.spectators@ == room.spectators@,
            Role::Spectator => joined.players@ == room.players@ && joined.spectators@
                == room.spectators@.push(Spectator { id: user_id, username }),
        }),
{
    if let Err(e) = check_role_capacity(&role, &room) {
        return Err(e);
    }
    let mut room = room;
    match role {
        Role::Player => {
            room.players.push(Player { id: user_id, username, symbol: None });
        },
        Role::Spectator => {
            room.spectators.push(Spectator { id: user_id, username });
        },
    }
    Ok(room)
}

/// The stored room without the user in `role`.
pub fn leave_room(room: Room, role: Role, user_id: u128) -> (r: Room)
    ensures
        same_settings(r, room),
        match role {
            Role::Player => r.players@ == players_without(room.players@, user_id)
                && r.spectators@ == room.spectators@,
            Role::Spectator => r.players@ == room.players@ && r.spectators@ == spectators_without(
                room.spectators@,
                user_id,
            ),
        },
{
    let mut room = room;
    match role {
        Role::Player => {
            room.players = remove_player(&room.players, user_id);
        },
        Role::Spectator => {
            room.spectators = remove_spectator(&room.spectators, user_id);
        },
    }
    room
}

/// A game can start in the room: it is neither closed nor in progress.
pub fn check_room_open(status: RoomStatus) -> (r: Result<(), RouteError>)
    ensures
        r == match status {
            RoomStatus::Closed => Err(RouteError::RoomClosed),
            RoomStatus::InProgress => Err(RouteError::RoomInProgress),
            RoomStatus::Open => Ok(()),
        },
{
    match status {
        RoomStatus::Closed => Err(RouteError::RoomClosed),
        RoomStatus::InProgress => Err(RouteError::RoomInProgress),
        RoomStatus::Open => Ok(()),
    }
}

/// Puts the symbols in a random order with rand's `SliceRandom::shuffle`
/// on the thread's generator.
///
/// The contract claims only what holds of every outcome: the result holds
/// the same symbols, as many times each.
#[verifier::external_body]
fn shuffle_symbols(symbols: &mut Vec<MoveType>)
    ensures
        final(symbols)@.to_multiset() == old(symbols)@.to_multiset(),
{
    rand::seq::SliceRandom::shuffle(symbols.as_mut_slice(), &mut rand::rng());
}

/// The two symbols in a random order.
pub fn shuffled_symbols() -> (symbols: Vec<MoveType>)
    ensures
        symbols@ == seq![MoveType::O, MoveType::X] || symbols@ == seq![MoveType::X, MoveType::O],
{
    let mut symbols: Vec<MoveType> = Vec::new();
    symbols.push(MoveType::O);
    symbols.push(MoveType::X);
    let ghost start = symbols@;
    shuffle_symbols(&mut symbols);
    proof {
        assert(start =~= seq![MoveType::O].push(MoveType::X));
        assert(seq![MoveType::O] =~= Seq::<MoveType>::empty().push(MoveType::O));
        let m = start.to_multiset();
        assert(m.count(MoveType::O) == 1);
        assert(m.count(MoveType::X) == 1);
        let s = symbols@;
        assert(start.to_multiset().len() == 2);
        assert(s.to_multiset().len() == s.len());
        assert(s.len() == 2);
        assert(s.contains(s[0]));
        assert(s.contains(s[1]));
        if s[0] == s[1] {
            assert(s =~= seq![s[0]].push(s[0]));
            assert(seq![s[0]] =~= Seq::<MoveType>::empty().push(s[0]));
            assert(s.to_multiset().count(s[0]) == 2);
        }
        assert(s =~= seq![s[0], s[1]]);
    }
    symbols
}

/// Law of new games: the two players of a game, given in order the symbols
/// that [`shuffled_symbols`] draws, get different symbols.
pub proof fn lemma_players_get_different_symbols(symbols: Seq<MoveType>, players: Seq<Player>)
    requires
        symbols == seq![MoveType::O, MoveType::X] || symbols == seq![MoveType::X, MoveType::O],
        players.len() == 2,
        forall|i: int| 0 <= i < 2 ==> #[trigger] players[i].symbol == Some(symbols[i]),
    ensures
        players[0].symbol != players[1].symbol,
{
    assert(players[0].symbol == Some(symbols[0]));
    assert(players[1].symbol == Some(symbols[1]));
}

/// The players of a new game: the `i`th user plays the `i`th symbol.
pub fn assign_symbols(users: &Vec<User>, symbols: &Vec<MoveType>) -> (players: Vec<Player>)
    requires
        users.len() <= symbols.len(),
    ensures
        players.len() == users.len(),
        forall|i: int|
            0 <= i < users.len() ==> #[trigger] players@[i] == (Player {
                id: users@[i].id,
                username: users@[i].username,
                symbol: Some(symbols@[i]),
            }),
{
    let mut players: Vec<Player> = Vec::new();
    let mut i: usize = 0;
    while i < users.len()
        invariant
            i <= users.len(),
            users.len() <= symbols.len(),
            players.len() == i,
            forall|k: int|
                0 <= k < i ==> #[trigger] players@[k] == (Player {
                    id: users@[k].id,
                    username: users@[k].username,
                    symbol: Some(symbols@[k]),
                }),
        decreases users.len() - i,
    {
        let user = &users[i];
        players.push(
            Player { id: user.id, username: user.username.clone(), symbol: Some(symbols[i]) },
        );
        i += 1;
    }
    players
}

/// The page and page size a listing asks for, 0 and 2 when not given.
pub fn page_params(page: Option<usize>, limit: Option<usize>) -> (r: (usize, usize))
    ensures
        r.0 == match page {
            Some(p) => p,
            None => 0,
        },
        r.1 == match limit {
            Some(l) => l,
            None => 2,
        },
{
    let mut p: usize = 0;
    let mut l: usize = 2;
    if page.is_some() {
        p = page.unwrap();
    }
    if limit.is_some() {
        l = limit.unwrap();
    }
    (p, l)
}

/// A page of a listing.
#[derive(Debug)]
pub struct RecordPage<T> {
    pub items: Vec<T>,
    /// The index of this page, from 0.
    pub page: usize,
    /// The number of records a page holds.
    pub size: usize,
    /// The number of records in the listing.
    pub total: usize,
    /// The number of pages, at least 1.
    pub pages: usize,
    pub previous_page: Option<usize>,
    pub next_page: Option<usize>,
}

/// The number of pages of `size` records that `total` records fill; at least
/// 1, and 1 for pages of no record.
pub open spec fn page_count(total: nat, size: nat) -> nat {
    if size == 0 {
        1
    } else {
        let full = (total + size - 1) as int / size as int;
        if full == 0 {
            1
        } else {
            full as nat
        }
    }
}

/// The page is refused: its index is past the last page, or pages of no
/// record are asked of a listing that has records.
pub open spec fn page_refused(total: nat, page: nat, size: nat) -> bool {
    page >= page_count(total, size) || (size == 0 && total > 0)
}

/// `p` is page `page` of `size` records of a listing of `total` records,
/// apart from its items.
pub open spec fn page_fields<T>(p: RecordPage<T>, total: nat, page: nat, size: nat) -> bool {
    let pages = page_count(total, size);
    &&& p.page == page
    &&& p.size == size
    &&& p.total == total
    &&& p.pages == pages
    &&& p.previous_page == if page == 0 {
        None
    } else {
        Some((page - 1) as usize)
    }
    &&& p.next_page == if page == pages - 1 {
        None
    } else {
        Some((page + 1) as usize)
    }
}

/// The positions that page `page` of `size` records covers in a listing of
/// `total` records: from `page * size` up to `page * size + size`, cut at
/// the end of the listing.
pub open spec fn page_end(total: nat, page: nat, size: nat) -> nat {
    if page * size + size <= total {
        page * size + size
    } else {
        total
    }
}

/// A page that is not refused starts within the listing.
proof fn lemma_page_start(total: nat, page: nat, size: nat)
    requires
        !page_refused(total, page, size),
    ensures
        page * size <= total,
{
    if size == 0 {
        assert(page * size == 0) by (nonlinear_arith)
            requires
                size == 0,
        ;
    } else {
        let x = (total + size - 1) as int;
        let full = x / size as int;
        vstd::arithmetic::div_mod::lemma_fundamental_div_mod(x, size as int);
        vstd::arithmetic::div_mod::lemma_mod_bound(x, size as int);
        assert(size * full <= x);
        if full <= 0 {
            assert(page == 0);
            assert(page * size == 0) by (nonlinear_arith)
                requires
                    page == 0,
            ;
        } else {
            assert(page <= full - 1);
            assert(page * size <= (full - 1) * size) by (nonlinear_arith)
                requires
                    page <= full - 1,
                    size > 0,
            ;
            assert((full - 1) * size == size * full - size) by (nonlinear_arith);
        }
    }
}

/// Law of pagination: with pages of at least one record, every page before
/// the last holds exactly `size` records and the last page ends with the
/// listing, so that the pages in order cover the listing once.
pub proof fn lemma_pages_cover_listing(total: nat, size: nat, page: nat)
    requires
        size > 0,
        page < page_count(total, size),
    ensures
        page + 1 < page_count(total, size) ==> page_end(total, page, size) == page * size + size,
        page + 1 == page_count(total, size) ==> page_end(total, page, size) == total,
{
    let x = (total + size - 1) as int;
    let full = x / size as int;
    vstd::arithmetic::div_mod::lemma_fundamental_div_mod(x, size as int);
    vstd::arithmetic::div_mod::lemma_mod_bound(x, size as int);
    assert(size * full <= x);
    assert(size * full > x - size);
    assert(page * size + size == (page + 1) * size) by (nonlinear_arith);
    if full <= 0 {
        assert(total == 0) by (nonlinear_arith)
            requires
                size * full > x - size,
                full <= 0,
                x == total + size - 1,
                size > 0,
        ;
    } else {
        if page + 1 < full {
            assert((page + 1) * size <= (full - 1) * size) by (nonlinear_arith)
                requires
                    page + 1 <= full - 1,
                    size > 0,
            ;
            assert((full - 1) * size == size * full - size) by (nonlinear_arith);
        } else if page + 1 == full {
            assert((page + 1) * size == size * full) by (nonlinear_arith)
                requires
                    page + 1 == full,
            ;
        }
    }
}

/// page_hunter's `paginate_records` on a list of positions.
///
/// The contract states what its source does: the records from position
/// `size * page` on, at most `size` of them, with the page count rounded up
/// (and at least 1); the page is refused when its index is past the last
/// page, or when pages of no record are asked of a non-empty list.  The text
/// of a refusal is page_hunter's and is not stated.  The product
/// `size * page` must not overflow, as page_hunter computes it, and neither
/// may `page + 1`, which it computes for the next page before any check.
#[verifier::external_body]
fn paginate_positions(positions: &Vec<usize>, page: usize, size: usize) -> (r: Result<
    RecordPage<usize>,
    String,
>)
    requires
        size * page <= usize::MAX,
        page < usize::MAX,
    ensures
        r is Err <==> page_refused(positions.len() as nat, page as nat, size as nat),
        r matches Ok(p) ==> {
            &&& page_fields(p, positions.len() as nat, page as nat, size as nat)
            &&& p.items@ == positions@.subrange(
                (page * size) as int,
                page_end(positions.len() as nat, page as nat, size as nat) as int,
            )
        },
{
    match page_hunter::paginate_records(positions, page, size) {
        Ok(p) => Ok(
            RecordPage {
                items: p.get_items().clone(),
                page: p.get_page(),
                size: p.get_size(),
                total: p.get_total(),
                pages: p.get_pages(),
                previous_page: p.get_previous_page(),
                next_page: p.get_next_page(),
            },
        ),
        Err(e) => Err(e.to_string()),
    }
}

/// The records of `records`, each in a slot of its own, in order.
fn record_slots<T>(records: Vec<T>) -> (slots: Vec<Option<T>>)
    ensures
        slots.len() == records.len(),
        forall|k: int| 0 <= k < records.len() ==> #[trigger] slots@[k] == Some(records@[k]),
{
    let ghost all = records@;
    let mut records = records;
    let total = records.len();
    let mut slots: Vec<Option<T>> = Vec::new();
    let mut i: usize = 0;
    while i < total
        invariant
            i <= total,
            slots.len() == i,
        decreases total - i,
    {
        slots.push(None);
        i += 1;
    }
    while records.len() > 0
        invariant
            slots.len() == total,
            all.len() == total,
            records.len() <= total,
            records@ == all.subrange(0, records.len() as int),
            forall|k: int| records.len() <= k < total ==> #[trigger] slots@[k] == Some(all[k]),
        decreases records.len(),
    {
        let k = records.len() - 1;
        let record = records.pop().unwrap();
        slots.set(k, Some(record));
    }
    slots
}

/// Page `page` of `size` records of `records`, as page_hunter cuts it; a
/// refused page gives page_hunter's text.  The product `page * size` must
/// not overflow, nor the index of the next page.
pub fn paginate<T>(records: Vec<T>, page: usize, size: usize) -> (r: Result<RecordPage<T>, String>)
    requires
        size * page <= usize::MAX,
        page < usize::MAX,
    ensures
        r is Err <==> page_refused(records.len() as nat, page as nat, size as nat),
        r matches Ok(p) ==> {
            &&& page_fields(p, records.len() as nat, page as nat, size as nat)
            &&& p.items@ == records@.subrange(
                (page * size) as int,
                page_end(records.len() as nat, page as nat, size as nat) as int,
            )
        },
{
    let total = records.len();
    let ghost records_before = records@;
    let mut positions: Vec<usize> = Vec::new();
    let mut i: usize = 0;
    while i < total
        invariant
            i <= total,
            positions.len() == i,
            forall|k: int| 0 <= k < i ==> #[trigger] positions@[k] == k,
        decreases total - i,
    {
        positions.push(i);
        i += 1;
    }
    match paginate_positions(&positions, page, size) {
        Err(e) => Err(e),
        Ok(window) => {
            proof {
                lemma_page_start(total as nat, page as nat, size as nat);
            }
            let start = size * page;
            assert(start == page * size) by (nonlinear_arith)
                requires
                    start == size * page,
            ;
            let end = if total - start >= size {
                start + size
            } else {
                total
            };
            assert(end == page_end(total as nat, page as nat, size as nat));
            assert(window.items@ == positions@.subrange(start as int, end as int));
            let mut slots = record_slots(records);
            let mut items: Vec<T> = Vec::new();
            let mut i: usize = 0;
            while i < window.items.len()
                invariant
                    start <= end <= total,
                    window.items@ == positions@.subrange(start as int, end as int),
                    forall|k: int| 0 <= k < total ==> #[trigger] positions@[k] == k,
                    positions.len() == total,
                    i <= window.items.len(),
                    slots.len() == total,
                    forall|k: int|
                        start + i <= k < total ==> #[trigger] slots@[k] == Some(records_before[k]),
                    items@ == records_before.subrange(start as int, start + i),
                    records_before.len() == total,
                decreases window.items.len() - i,
            {
                let position = window.items[i];
                assert(position == start + i);
                let mut taken: Option<T> = None;
                slots.set_and_swap(position, &mut taken);
                items.push(taken.unwrap());
                assert(items@ =~= records_before.subrange(start as int, start + i + 1));
                i += 1;
            }
            Ok(
                RecordPage {
                    items,
                    page: window.page,
                    size: window.size,
                    total: window.total,
                    pages: window.pages,
                    previous_page: window.previous_page,
                    next_page: window.next_page,
                },
            )
        },
    }
}

} // verus!
