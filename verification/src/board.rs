//! The game board and the winner check.
//!
//! A board is a grid of rows; the cell in row `i` and column `j` is
//! `board[i][j]`.  The winner check reads every cell owned by one mark as a
//! number of the Lo Shu magic square and looks for three of them that sum to
//! 15: in that square the triples of distinct numbers that sum to 15 are
//! exactly the rows, columns and diagonals.

use std::collections::HashSet;
use vstd::prelude::*;

use crate::types::ws::MoveType;

verus! {

broadcast use vstd::std_specs::hash::group_hash_axioms;

/// The board as a grid of plain sequences.
pub open spec fn grid(board: Seq<Vec<Option<MoveType>>>) -> Seq<Seq<Option<MoveType>>> {
    board.map_values(|row: Vec<Option<MoveType>>| row@)
}

/// Every cell that holds the mark `mt` lies within the first three rows and
/// columns, so that it has a number in the magic square.
pub open spec fn marks_fit(g: Seq<Seq<Option<MoveType>>>, mt: MoveType) -> bool {
    forall|i: int, j: int| #[trigger] owns(g, mt, i, j) ==> i < 3 && j < 3
}

/// The Lo Shu magic square `[[4, 9, 2], [3, 5, 7], [8, 1, 6]]`.
pub open spec fn magic(i: int, j: int) -> int {
    if i == 0 {
        if j == 0 { 4 } else if j == 1 { 9 } else { 2 }
    } else if i == 1 {
        if j == 0 { 3 } else if j == 1 { 5 } else { 7 }
    } else {
        if j == 0 { 8 } else if j == 1 { 1 } else { 6 }
    }
}

/// The row of the magic square that holds the number `v` (1 to 9).
pub open spec fn row_of(v: int) -> int {
    if v == 4 || v == 9 || v == 2 { 0 } else if v == 3 || v == 5 || v == 7 { 1 } else { 2 }
}

/// The column of the magic square that holds the number `v` (1 to 9).
pub open spec fn col_of(v: int) -> int {
    if v == 4 || v == 3 || v == 8 { 0 } else if v == 9 || v == 5 || v == 1 { 1 } else { 2 }
}

/// Cell `(i, j)` exists on the board and holds the mark `mt`.
pub open spec fn owns(g: Seq<Seq<Option<MoveType>>>, mt: MoveType, i: int, j: int) -> bool {
    0 <= i < g.len() && 0 <= j < g[i].len() && g[i][j] == Some(mt)
}

/// The cell whose magic number is `v` holds the mark `mt`.
pub open spec fn owns_value(g: Seq<Seq<Option<MoveType>>>, mt: MoveType, v: int) -> bool {
    owns(g, mt, row_of(v), col_of(v))
}

/// `mt` holds the three cells `(i1, j1)`, `(i2, j2)`, `(i3, j3)`.
pub open spec fn owns_line(
    g: Seq<Seq<Option<MoveType>>>,
    mt: MoveType,
    i1: int,
    j1: int,
    i2: int,
    j2: int,
    i3: int,
    j3: int,
) -> bool {
    owns(g, mt, i1, j1) && owns(g, mt, i2, j2) && owns(g, mt, i3, j3)
}

/// `mt` holds a complete row, column or diagonal of the 3x3 board.
pub open spec fn has_three_in_a_row(g: Seq<Seq<Option<MoveType>>>, mt: MoveType) -> bool {
    ||| owns_line(g, mt, 0, 0, 0, 1, 0, 2)
    ||| owns_line(g, mt, 1, 0, 1, 1, 1, 2)
    ||| owns_line(g, mt, 2, 0, 2, 1, 2, 2)
    ||| owns_line(g, mt, 0, 0, 1, 0, 2, 0)
    ||| owns_line(g, mt, 0, 1, 1, 1, 2, 1)
    ||| owns_line(g, mt, 0, 2, 1, 2, 2, 2)
    ||| owns_line(g, mt, 0, 0, 1, 1, 2, 2)
    ||| owns_line(g, mt, 0, 2, 1, 1, 2, 0)
}

/// Entries `a < b < c` of `s` sum to 15.
pub open spec fn triple_at(s: Seq<u8>, a: int, b: int, c: int) -> bool {
    0 <= a < b < c < s.len() && s[a] + s[b] + s[c] == 15
}

/// Some three entries of `s`, at distinct positions, sum to 15.
pub open spec fn has_fifteen_triple(s: Seq<u8>) -> bool {
    exists|a: int, b: int, c: int| #[trigger] triple_at(s, a, b, c)
}

/// `s` lists the magic numbers of exactly the cells that `mt` holds, each once.
pub open spec fn lists_owned_values(
    g: Seq<Seq<Option<MoveType>>>,
    mt: MoveType,
    s: Seq<u8>,
) -> bool {
    &&& forall|k: int|
        0 <= k < s.len() ==> 1 <= #[trigger] s[k] <= 9 && owns_value(g, mt, s[k] as int)
    &&& forall|v: u8| 1 <= v <= 9 && owns_value(g, mt, v as int) ==> #[trigger] s.contains(v)
    &&& forall|k1: int, k2: int| 0 <= k1 < k2 < s.len() ==> s[k1] != s[k2]
}

/// Three rows of three empty cells.
pub open spec fn empty_board() -> Seq<Seq<Option<MoveType>>> {
    Seq::new(3, |i: int| seq![None::<MoveType>, None, None])
}

/// A copy of a board.
pub fn copy_board(board: &Vec<Vec<Option<MoveType>>>) -> (r: Vec<Vec<Option<MoveType>>>)
    ensures
        grid(r@) == grid(board@),
{
    let mut r: Vec<Vec<Option<MoveType>>> = Vec::new();
    let mut i: usize = 0;
    while i < board.len()
        invariant
            i <= board.len(),
            r.len() == i,
            forall|k: int| 0 <= k < i ==> (#[trigger] r@[k])@ == board@[k]@,
        decreases board.len() - i,
    {
        let row = &board[i];
        let mut copy: Vec<Option<MoveType>> = Vec::new();
        let mut j: usize = 0;
        while j < row.len()
            invariant
                j <= row.len(),
                copy@ == row@.take(j as int),
            decreases row.len() - j,
        {
            copy.push(row[j]);
            j += 1;
            assert(copy@ =~= row@.take(j as int));
        }
        assert(copy@ =~= row@);
        r.push(copy);
        i += 1;
    }
    assert(grid(r@) =~= grid(board@));
    r
}

/// A 3x3 board with every cell empty, the board a new game starts from.
pub fn new_board() -> (board: Vec<Vec<Option<MoveType>>>)
    ensures
        grid(board@) == empty_board(),
{
    let mut board: Vec<Vec<Option<MoveType>>> = Vec::new();
    let mut i: usize = 0;
    while i < 3
        invariant
            i <= 3,
            board.len() == i,
            forall|k: int| 0 <= k < i ==> (#[trigger] board@[k])@ == seq![None::<MoveType>, None, None],
        decreases 3 - i,
    {
        let row: Vec<Option<MoveType>> = vec![None, None, None];
        board.push(row);
        i += 1;
    }
    assert(grid(board@) =~= empty_board());
    board
}

/// Whether every cell of `board` that holds `mt` lies within the first three
/// rows and columns.
pub fn marks_fit_board(board: &Vec<Vec<Option<MoveType>>>, mt: MoveType) -> (r: bool)
    ensures
        r == marks_fit(grid(board@), mt),
{
    let ghost g = grid(board@);
    let mut i: usize = 0;
    while i < board.len()
        invariant
            g == grid(board@),
            i <= board.len(),
            forall|a: int, b: int| a < i && #[trigger] owns(g, mt, a, b) ==> a < 3 && b < 3,
        decreases board.len() - i,
    {
        let row = &board[i];
        assert(row@ == g[i as int]);
        let mut j: usize = 0;
        while j < row.len()
            invariant
                g == grid(board@),
                i < board.len(),
                row@ == g[i as int],
                j <= row.len(),
                forall|a: int, b: int|
                    (a < i || (a == i && b < j)) && #[trigger] owns(g, mt, a, b) ==> a < 3 && b < 3,
            decreases row.len() - j,
        {
            let owned = match row[j] {
                Some(m) => m == mt,
                None => false,
            };
            if owned && (i >= 3 || j >= 3) {
                assert(owns(g, mt, i as int, j as int));
                return false;
            }
            j += 1;
        }
        i += 1;
    }
    true
}

/// The number of the magic square at row `i`, column `j`.
fn magic_number(i: usize, j: usize) -> (v: u8)
    requires
        i < 3,
        j < 3,
    ensures
        v == magic(i as int, j as int),
{
    if i == 0 {
        if j == 0 { 4 } else if j == 1 { 9 } else { 2 }
    } else if i == 1 {
        if j == 0 { 3 } else if j == 1 { 5 } else { 7 }
    } else {
        if j == 0 { 8 } else if j == 1 { 1 } else { 6 }
    }
}

proof fn lemma_magic_cell(i: int, j: int)
    requires
        0 <= i < 3,
        0 <= j < 3,
    ensures
        1 <= magic(i, j) <= 9,
        row_of(magic(i, j)) == i,
        col_of(magic(i, j)) == j,
{
}

/// Three distinct numbers from 1 to 9 that sum to 15 lie on one row, column
/// or diagonal of the magic square.
proof fn lemma_fifteen_is_a_line(g: Seq<Seq<Option<MoveType>>>, mt: MoveType, a: int, b: int, c: int)
    requires
        1 <= a <= 9,
        1 <= b <= 9,
        1 <= c <= 9,
        a != b,
        b != c,
        a != c,
        a + b + c == 15,
        owns_value(g, mt, a),
        owns_value(g, mt, b),
        owns_value(g, mt, c),
    ensures
        has_three_in_a_row(g, mt),
{
    assert(a == 1 || a == 2 || a == 3 || a == 4 || a == 5 || a == 6 || a == 7 || a == 8 || a == 9);
    assert(b == 1 || b == 2 || b == 3 || b == 4 || b == 5 || b == 6 || b == 7 || b == 8 || b == 9);
}

/// Three distinct positions of a sequence can be put in increasing order.
proof fn lemma_ordered_triple(s: Seq<u8>, p: int, q: int, r: int)
    requires
        0 <= p < s.len(),
        0 <= q < s.len(),
        0 <= r < s.len(),
        p != q,
        q != r,
        p != r,
        s[p] + s[q] + s[r] == 15,
    ensures
        has_fifteen_triple(s),
{
    if p < q && q < r {
        assert(triple_at(s, p, q, r));
    } else if p < r && r < q {
        assert(triple_at(s, p, r, q));
    } else if q < p && p < r {
        assert(triple_at(s, q, p, r));
    } else if q < r && r < p {
        assert(triple_at(s, q, r, p));
    } else if r < p && p < q {
        assert(triple_at(s, r, p, q));
    } else {
        assert(triple_at(s, r, q, p));
    }
}

/// The owned cells of one line give three distinct listed numbers summing to 15.
proof fn lemma_line_gives_triple(
    g: Seq<Seq<Option<MoveType>>>,
    mt: MoveType,
    s: Seq<u8>,
    x: u8,
    y: u8,
    z: u8,
)
    requires
        lists_owned_values(g, mt, s),
        1 <= x <= 9,
        1 <= y <= 9,
        1 <= z <= 9,
        x != y,
        y != z,
        x != z,
        x + y + z == 15,
        owns_value(g, mt, x as int),
        owns_value(g, mt, y as int),
        owns_value(g, mt, z as int),
    ensures
        has_fifteen_triple(s),
{
    assert(s.contains(x));
    assert(s.contains(y));
    assert(s.contains(z));
    let p = choose|p: int| 0 <= p < s.len() && s[p] == x;
    let q = choose|q: int| 0 <= q < s.len() && s[q] == y;
    let r = choose|r: int| 0 <= r < s.len() && s[r] == z;
    lemma_ordered_triple(s, p, q, r);
}

/// Law of the winner check: when `s` lists, each once, the magic numbers of
/// the cells that `mt` holds, some three of its entries sum to 15 exactly
/// when `mt` holds a complete row, column or diagonal.
pub proof fn lemma_fifteen_iff_three_in_a_row(
    g: Seq<Seq<Option<MoveType>>>,
    mt: MoveType,
    s: Seq<u8>,
)
    requires
        lists_owned_values(g, mt, s),
    ensures
        has_fifteen_triple(s) == has_three_in_a_row(g, mt),
{
    if has_fifteen_triple(s) {
        let (a, b, c) = choose|a: int, b: int, c: int| #[trigger] triple_at(s, a, b, c);
        lemma_fifteen_is_a_line(g, mt, s[a] as int, s[b] as int, s[c] as int);
    }
    if has_three_in_a_row(g, mt) {
        if owns_line(g, mt, 0, 0, 0, 1, 0, 2) {
            lemma_line_gives_triple(g, mt, s, 4, 9, 2);
        } else if owns_line(g, mt, 1, 0, 1, 1, 1, 2) {
            lemma_line_gives_triple(g, mt, s, 3, 5, 7);
        } else if owns_line(g, mt, 2, 0, 2, 1, 2, 2) {
            lemma_line_gives_triple(g, mt, s, 8, 1, 6);
        } else if owns_line(g, mt, 0, 0, 1, 0, 2, 0) {
            lemma_line_gives_triple(g, mt, s, 4, 3, 8);
        } else if owns_line(g, mt, 0, 1, 1, 1, 2, 1) {
            lemma_line_gives_triple(g, mt, s, 9, 5, 1);
        } else if owns_line(g, mt, 0, 2, 1, 2, 2, 2) {
            lemma_line_gives_triple(g, mt, s, 2, 7, 6);
        } else if owns_line(g, mt, 0, 0, 1, 1, 2, 2) {
            lemma_line_gives_triple(g, mt, s, 4, 5, 6);
        } else {
            lemma_line_gives_triple(g, mt, s, 2, 5, 8);
        }
    }
}

/// The magic numbers of the first `upto` cells of row `i` that hold `mt`,
/// in order.
pub open spec fn row_magic_numbers(row: Seq<Option<MoveType>>, mt: MoveType, i: int, upto: int) -> Seq<
    u8,
>
    decreases upto,
{
    if upto <= 0 {
        Seq::empty()
    } else {
        let rest = row_magic_numbers(row, mt, i, upto - 1);
        if row[upto - 1] == Some(mt) {
            rest.push(magic(i, upto - 1) as u8)
        } else {
            rest
        }
    }
}

/// The magic numbers of the cells of the first `rows` rows that hold `mt`,
/// in row-major order.
pub open spec fn magic_numbers(g: Seq<Seq<Option<MoveType>>>, mt: MoveType, rows: int) -> Seq<u8>
    decreases rows,
{
    if rows <= 0 {
        Seq::empty()
    } else {
        magic_numbers(g, mt, rows - 1) + row_magic_numbers(
            g[rows - 1],
            mt,
            rows - 1,
            g[rows - 1].len() as int,
        )
    }
}

/// The magic numbers of the cells holding `move_type`, in row-major order.
pub fn collect_magic_numbers(board: &Vec<Vec<Option<MoveType>>>, move_type: MoveType) -> (mn: Vec<u8>)
    requires
        marks_fit(grid(board@), move_type),
    ensures
        mn@ == magic_numbers(grid(board@), move_type, board@.len() as int),
        lists_owned_values(grid(board@), move_type, mn@),
{
    let ghost g = grid(board@);
    let mut mn: Vec<u8> = Vec::new();
    let mut i: usize = 0;
    while i < board.len()
        invariant
            g == grid(board@),
            marks_fit(g, move_type),
            i <= board.len(),
            mn@ == magic_numbers(g, move_type, i as int),
            forall|k: int|
                0 <= k < mn.len() ==> 1 <= #[trigger] mn@[k] <= 9 && owns_value(
                    g,
                    move_type,
                    mn@[k] as int,
                ) && row_of(mn@[k] as int) < i,
            forall|v: u8|
                1 <= v <= 9 && owns_value(g, move_type, v as int) && row_of(v as int) < i
                    ==> #[trigger] mn@.contains(v),
            forall|k1: int, k2: int| 0 <= k1 < k2 < mn.len() ==> mn@[k1] != mn@[k2],
        decreases board.len() - i,
    {
        let row = &board[i];
        assert(row@ == g[i as int]);
        let mut j: usize = 0;
        while j < row.len()
            invariant
                g == grid(board@),
                marks_fit(g, move_type),
                i < board.len(),
                row@ == g[i as int],
                j <= row.len(),
                mn@ == magic_numbers(g, move_type, i as int) + row_magic_numbers(
                    g[i as int],
                    move_type,
                    i as int,
                    j as int,
                ),
                forall|k: int|
                    0 <= k < mn.len() ==> 1 <= #[trigger] mn@[k] <= 9 && owns_value(
                        g,
                        move_type,
                        mn@[k] as int,
                    ) && (row_of(mn@[k] as int) < i || (row_of(mn@[k] as int) == i && col_of(
                        mn@[k] as int,
                    ) < j)),
                forall|v: u8|
                    1 <= v <= 9 && owns_value(g, move_type, v as int) && (row_of(v as int) < i || (
                    row_of(v as int) == i && col_of(v as int) < j)) ==> #[trigger] mn@.contains(v),
                forall|k1: int, k2: int| 0 <= k1 < k2 < mn.len() ==> mn@[k1] != mn@[k2],
            decreases row.len() - j,
        {
            let owned = match row[j] {
                Some(player_move) => match (player_move, move_type) {
                    (MoveType::O, MoveType::O) | (MoveType::X, MoveType::X) => true,
                    _ => false,
                },
                None => false,
            };
            assert(owned == (row@[j as int] == Some(move_type)));
            let ghost before = mn@;
            if owned {
                assert(owns(g, move_type, i as int, j as int));
                proof {
                    lemma_magic_cell(i as int, j as int);
                }
                let v = magic_number(i, j);
                let ghost old_mn = mn@;
                mn.push(v);
                proof {
                    assert forall|w: u8|
                        1 <= w <= 9 && owns_value(g, move_type, w as int) && (row_of(w as int) < i
                            || (row_of(w as int) == i && col_of(w as int) < j + 1)) implies #[trigger] mn@.contains(
                        w,
                    ) by {
                        if row_of(w as int) == i && col_of(w as int) == j {
                            assert(w == v);
                            assert(mn@[mn@.len() - 1] == v);
                        } else {
                            assert(old_mn.contains(w));
                            let k = choose|k: int| 0 <= k < old_mn.len() && old_mn[k] == w;
                            assert(mn@[k] == w);
                        }
                    }
                }
            } else {
                proof {
                    assert forall|w: u8|
                        1 <= w <= 9 && owns_value(g, move_type, w as int) && (row_of(w as int) < i
                            || (row_of(w as int) == i && col_of(w as int) < j + 1)) implies #[trigger] mn@.contains(
                        w,
                    ) by {
                        if row_of(w as int) == i && col_of(w as int) == j {
                            assert(owns(g, move_type, i as int, j as int));
                            assert(false);
                        }
                    }
                }
            }
            assert(mn@ =~= magic_numbers(g, move_type, i as int) + row_magic_numbers(
                g[i as int],
                move_type,
                i as int,
                j + 1,
            ));
            j += 1;
        }
        assert(mn@ =~= magic_numbers(g, move_type, i + 1));
        i += 1;
    }
    mn
}

/// The byte `v` read as a signed byte, as `v as i8` reads it.
pub open spec fn signed_byte(v: int) -> int {
    if v < 128 {
        v
    } else {
        v - 256
    }
}

/// Entries `a < b < c` of `s` sum to 15 in byte arithmetic, that is modulo 256.
pub open spec fn wrapped_triple_at(s: Seq<u8>, a: int, b: int, c: int) -> bool {
    0 <= a < b < c < s.len() && (s[a] + s[b] + s[c]) % 256 == 15
}

/// Some three entries of `s`, at distinct positions, sum to 15 modulo 256.
pub open spec fn has_wrapped_fifteen_triple(s: Seq<u8>) -> bool {
    exists|a: int, b: int, c: int| #[trigger] wrapped_triple_at(s, a, b, c)
}

/// Every two entries of `s` sum to a byte, and to none from 128 to 143,
/// whose signed reading 15 could not be taken from in a signed byte.
pub open spec fn pair_sums_fit(s: Seq<u8>) -> bool {
    forall|a: int, c: int|
        #![trigger s[a], s[c]]
        0 <= a < c < s.len() ==> s[a] + s[c] <= 255 && !(128 <= s[a] + s[c] <= 143)
}

proof fn lemma_signed_byte(v: u8)
    ensures
        (v as i8) as int == signed_byte(v as int),
{
    assert(v < 128 ==> (v as i8) as i16 == v as i16) by (bit_vector);
    assert(v >= 128 ==> (v as i8) as i16 == v as i16 - 256) by (bit_vector);
}

/// The third value that the signed lookup finds for a pair summing to `sum`
/// is exactly one that completes 15 modulo 256.
proof fn lemma_lookup_matches(sum: int, v: int)
    requires
        0 <= sum <= 255,
        !(128 <= sum <= 143),
        0 <= v <= 255,
    ensures
        (15 - signed_byte(sum) == signed_byte(v)) <==> (sum + v) % 256 == 15,
{
    if sum + v < 256 {
        vstd::arithmetic::div_mod::lemma_small_mod((sum + v) as nat, 256);
    } else {
        vstd::arithmetic::div_mod::lemma_small_mod((sum + v - 256) as nat, 256);
        vstd::arithmetic::div_mod::lemma_mod_add_multiples_vanish(sum + v - 256, 256);
    }
}

/// Whether three entries of `magic_numbers`, at distinct positions, sum to
/// 15 in byte arithmetic.
///
/// For each first entry it walks the later ones, keeping the entries seen
/// between them in a set of signed bytes and looking up the third value that
/// 15 still needs.  Every two entries must sum to a byte whose signed
/// reading 15 can be taken from, as the lookup computes in those types.  On
/// entries up to 90, whose triples stay below 271, the answer is whether
/// three of them sum to 15.
pub fn three_sum(magic_numbers: Vec<u8>) -> (found: bool)
    requires
        pair_sums_fit(magic_numbers@),
    ensures
        found == has_wrapped_fifteen_triple(magic_numbers@),
        (forall|k: int| 0 <= k < magic_numbers.len() ==> #[trigger] magic_numbers[k] <= 90)
            ==> found == has_fifteen_triple(magic_numbers@),
{
    let length = magic_numbers.len();
    let ghost s = magic_numbers@;
    proof {
        lemma_small_triples(s);
    }
    for i in 0..length
        invariant
            length == s.len(),
            s == magic_numbers@,
            pair_sums_fit(s),
            forall|a: int, b: int, c: int| a < i ==> !#[trigger] wrapped_triple_at(s, a, b, c),
    {
        let mut set: HashSet<i8> = HashSet::new();
        for j in i + 1..length
            invariant
                length == s.len(),
                s == magic_numbers@,
                pair_sums_fit(s),
                i < length,
                forall|a: int, b: int, c: int| a < i ==> !#[trigger] wrapped_triple_at(s, a, b, c),
                forall|b: int, c: int| c < j ==> !#[trigger] wrapped_triple_at(s, i as int, b, c),
                forall|x: i8|
                    #[trigger] set@.contains(x) <==> exists|k: int|
                        i < k < j && signed_byte(s[k] as int) == x as int,
        {
            assert(s[i as int] + s[j as int] <= 255 && !(128 <= s[i as int] + s[j as int] <= 143));
            let sum: u8 = magic_numbers[i] + magic_numbers[j];
            proof {
                lemma_signed_byte(sum);
            }
            let diff: i8 = 15 - sum as i8;
            if set.contains(&diff) {
                proof {
                    let k = choose|k: int| i < k < j && signed_byte(s[k] as int) == diff as int;
                    lemma_lookup_matches(sum as int, s[k] as int);
                    assert(wrapped_triple_at(s, i as int, k, j as int));
                    lemma_small_triples(s);
                }
                return true;
            }
            proof {
                assert forall|b: int, c: int| c < j + 1 implies !#[trigger] wrapped_triple_at(
                    s,
                    i as int,
                    b,
                    c,
                ) by {
                    if c == j && wrapped_triple_at(s, i as int, b, c) {
                        lemma_lookup_matches(sum as int, s[b] as int);
                        lemma_signed_byte(s[b]);
                        assert(set@.contains(s[b] as i8));
                    }
                }
            }
            let entry: i8 = magic_numbers[j] as i8;
            proof {
                lemma_signed_byte(magic_numbers[j as int]);
            }
            set.insert(entry);
        }
        proof {
            assert forall|a: int, b: int, c: int| a < i + 1 implies !#[trigger] wrapped_triple_at(
                s,
                a,
                b,
                c,
            ) by {
                if a == i && wrapped_triple_at(s, a, b, c) {
                    assert(c < length);
                }
            }
        }
    }
    false
}

/// On entries up to 90 three of them sum to 15 modulo 256 exactly when they
/// sum to 15.
proof fn lemma_small_triples(s: Seq<u8>)
    ensures
        (forall|k: int| 0 <= k < s.len() ==> #[trigger] s[k] <= 90) ==> has_wrapped_fifteen_triple(s)
            == has_fifteen_triple(s),
{
    if forall|k: int| 0 <= k < s.len() ==> #[trigger] s[k] <= 90 {
        assert forall|a: int, b: int, c: int| #[trigger]
            wrapped_triple_at(s, a, b, c) == triple_at(s, a, b, c) by {
            if 0 <= a < b < c < s.len() {
                let t = s[a] + s[b] + s[c];
                assert(0 <= t <= 270);
                if t < 256 {
                    vstd::arithmetic::div_mod::lemma_small_mod(t as nat, 256);
                } else {
                    vstd::arithmetic::div_mod::lemma_small_mod((t - 256) as nat, 256);
                    vstd::arithmetic::div_mod::lemma_mod_add_multiples_vanish(t - 256, 256);
                }
            }
        }
        if has_wrapped_fifteen_triple(s) {
            let (a, b, c) = choose|a: int, b: int, c: int| #[trigger] wrapped_triple_at(s, a, b, c);
            assert(triple_at(s, a, b, c));
        }
        if has_fifteen_triple(s) {
            let (a, b, c) = choose|a: int, b: int, c: int| #[trigger] triple_at(s, a, b, c);
            assert(wrapped_triple_at(s, a, b, c));
        }
    }
}

} // verus!
