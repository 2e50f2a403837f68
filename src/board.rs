use vstd::prelude::*;

verus! {

/// One of the two players.
#[derive(Clone, Copy, Debug, PartialEq, Eq, Structural, Default)]
pub enum Player {
    #[default]
    One,
    Two,
}

/// A square of the board: empty, or holding a token of a player.
#[derive(Clone, Copy, Debug, PartialEq, Eq, Structural, Default)]
pub enum Cell {
    #[default]
    Empty,
    Occupied(Player),
}

/// Number of rows; row 0 is the top.
pub const ROWS: usize = 6;

/// Number of columns, numbered from the left.
pub const COLUMNS: usize = 7;

/// Tokens each player holds at the start of a game.
pub const TOKENS_PER_PLAYER: u8 = 21;

/// A grid of cells, indexed by row and then by column.
pub type Board = [[Cell; 7]; 6];

pub open spec fn other(p: Player) -> Player {
    match p {
        Player::One => Player::Two,
        Player::Two => Player::One,
    }
}

pub open spec fn in_bounds(r: int, c: int) -> bool {
    0 <= r < 6 && 0 <= c < 7
}

/// Every cell of `b` is empty.
pub open spec fn all_empty(b: Board) -> bool {
    forall|r: int, c: int| #![trigger b[r][c]] in_bounds(r, c) ==> b[r][c] == Cell::Empty
}

/// No column has an empty top cell.
pub open spec fn top_row_full(b: Board) -> bool {
    forall|c: int| 0 <= c < 7 ==> #[trigger] b[0][c] != Cell::Empty
}

/// The rows above `k` (rows `0 .. k`) are empty.
pub open spec fn empty_prefix(b: Board, k: int) -> bool {
    forall|r: int, c: int| #![trigger b[r][c]] 0 <= r < k && 0 <= c < 7 ==> b[r][c] == Cell::Empty
}

/// No token of `b` hangs over an empty cell.
pub open spec fn settled(b: Board) -> bool {
    forall|r: int, c: int| 1 <= r < 6 && 0 <= c < 7 ==> !#[trigger] hangs_over_gap(b, r, c)
}

/// The cell at (`r`, `c`) is empty and the cell above it is not.
pub open spec fn hangs_over_gap(b: Board, r: int, c: int) -> bool {
    b[r][c] == Cell::Empty && b[r - 1][c] != Cell::Empty
}

/// Player `p` holds the cell at row `r`, column `c` (which lies on the board).
pub open spec fn owns(b: Board, r: int, c: int, p: Player) -> bool {
    in_bounds(r, c) && b[r][c] == Cell::Occupied(p)
}

/// One of the four directions a winning line is read in, from its first cell:
/// right, down, down-right and down-left.
pub open spec fn is_direction(dr: int, dc: int) -> bool {
    (dr == 0 && dc == 1) || (dr == 1 && dc == 0) || (dr == 1 && dc == 1) || (dr == 1 && dc == -1)
}

/// Player `p` holds the three cells that follow (`r`, `c`) in direction (`dr`, `dc`).
pub open spec fn three_after(b: Board, r: int, c: int, dr: int, dc: int, p: Player) -> bool {
    owns(b, r + dr, c + dc, p) && owns(b, r + 2 * dr, c + 2 * dc, p) && owns(b, r + 3 * dr, c + 3
        * dc, p)
}

/// Player `p` holds four cells in a row starting at (`r`, `c`) in direction (`dr`, `dc`).
pub open spec fn four_from(b: Board, r: int, c: int, dr: int, dc: int, p: Player) -> bool {
    owns(b, r, c, p) && three_after(b, r, c, dr, dc, p)
}

/// Player `p` has four in a row somewhere on `b`.
pub open spec fn has_four(b: Board, p: Player) -> bool {
    exists|r: int, c: int, dr: int, dc: int|
        is_direction(dr, dc) && #[trigger] four_from(b, r, c, dr, dc, p)
}

/// The lowest empty row of column `c` among rows `0 ..= r`, or -1 if there is none.
pub open spec fn lowest_empty_upto(b: Board, c: int, r: int) -> int
    decreases r + 1,
{
    if r < 0 {
        -1
    } else if b[r][c] == Cell::Empty {
        r
    } else {
        lowest_empty_upto(b, c, r - 1)
    }
}

/// The lowest empty row of column `c`, or -1 if the column is full.
pub open spec fn lowest_empty(b: Board, c: int) -> int {
    lowest_empty_upto(b, c, 5)
}

/// The cell at (`r`, `c`) after one step of gravity: everything above the lowest
/// empty cell of the column moves down one row.
pub open spec fn fall_cell(b: Board, r: int, c: int) -> Cell {
    let g = lowest_empty(b, c);
    if g < 0 {
        b[r][c]
    } else if r == 0 {
        Cell::Empty
    } else if r <= g {
        b[r - 1][c]
    } else {
        b[r][c]
    }
}

/// The cell at (`r`, `c`) after the whole board moved down one row.
pub open spec fn shift_cell(b: Board, r: int, c: int) -> Cell {
    if r == 0 {
        Cell::Empty
    } else {
        b[r - 1][c]
    }
}

pub open spec fn holds(cell: Cell, p: Player) -> nat {
    if cell == Cell::Occupied(p) {
        1
    } else {
        0
    }
}

/// Tokens of `p` in rows `0 .. n` of column `c`.
pub open spec fn col_count(b: Board, c: int, p: Player, n: int) -> nat
    decreases n,
{
    if n <= 0 {
        0
    } else {
        col_count(b, c, p, n - 1) + holds(b[n - 1][c], p)
    }
}

/// Tokens of `p` in columns `0 .. m`.
pub open spec fn count_cols(b: Board, p: Player, m: int) -> nat
    decreases m,
{
    if m <= 0 {
        0
    } else {
        count_cols(b, p, m - 1) + col_count(b, m - 1, p, 6)
    }
}

/// Tokens of `p` on the board.
pub open spec fn count(b: Board, p: Player) -> nat {
    count_cols(b, p, 7)
}

/// Tokens of either player on the board.
pub open spec fn occupied(b: Board) -> nat {
    count(b, Player::One) + count(b, Player::Two)
}

/// Tokens of `p` in the bottom row, columns `0 .. m`.
pub open spec fn bottom_count(b: Board, p: Player, m: int) -> nat
    decreases m,
{
    if m <= 0 {
        0
    } else {
        bottom_count(b, p, m - 1) + holds(b[5][m - 1], p)
    }
}

} // verus!

verus! {

pub proof fn lemma_lowest_empty(b: Board, c: int, r: int)
    requires
        0 <= c < 7,
        -1 <= r <= 5,
    ensures
        -1 <= lowest_empty_upto(b, c, r) <= r,
        lowest_empty_upto(b, c, r) >= 0 ==> b[lowest_empty_upto(b, c, r)][c] == Cell::Empty,
        forall|k: int| lowest_empty_upto(b, c, r) < k <= r ==> b[k][c] != Cell::Empty,
    decreases r + 1,
{
    if r >= 0 {
        lemma_lowest_empty(b, c, r - 1);
    }
}

pub proof fn lemma_col_count_ext(b1: Board, b2: Board, c1: int, c2: int, p: Player, n: int)
    requires
        0 <= c1 < 7,
        0 <= c2 < 7,
        n <= 6,
        forall|r: int| 0 <= r < n ==> b1[r][c1] == b2[r][c2],
    ensures
        col_count(b1, c1, p, n) == col_count(b2, c2, p, n),
    decreases n,
{
    if n > 0 {
        lemma_col_count_ext(b1, b2, c1, c2, p, n - 1);
    }
}

/// Changing one cell of a column changes its count by what that cell held.
pub proof fn lemma_col_count_update(b1: Board, b2: Board, c: int, r0: int, p: Player, n: int)
    requires
        0 <= c < 7,
        forall|r: int| 0 <= r < n && r != r0 ==> b1[r][c] == b2[r][c],
    ensures
        col_count(b2, c, p, n) + (if 0 <= r0 < n { holds(b1[r0][c], p) } else { 0 })
            == col_count(b1, c, p, n) + (if 0 <= r0 < n { holds(b2[r0][c], p) } else { 0 }),
    decreases n,
{
    if n > 0 {
        lemma_col_count_update(b1, b2, c, r0, p, n - 1);
    }
}

/// Column counts of two boards that differ in column `c0` only.
pub proof fn lemma_count_cols_update(b1: Board, b2: Board, c0: int, p: Player, m: int)
    requires
        0 <= c0,
        forall|c: int| 0 <= c < m && c != c0 ==> col_count(b1, c, p, 6) == col_count(b2, c, p, 6),
    ensures
        count_cols(b2, p, m) + (if c0 < m { col_count(b1, c0, p, 6) } else { 0 })
            == count_cols(b1, p, m) + (if c0 < m { col_count(b2, c0, p, 6) } else { 0 }),
    decreases m,
{
    if m > 0 {
        lemma_count_cols_update(b1, b2, c0, p, m - 1);
    }
}

pub proof fn lemma_count_cols_ext(b1: Board, b2: Board, p: Player, m: int)
    requires
        forall|c: int| 0 <= c < m ==> col_count(b1, c, p, 6) == col_count(b2, c, p, 6),
    ensures
        count_cols(b1, p, m) == count_cols(b2, p, m),
    decreases m,
{
    if m > 0 {
        lemma_count_cols_ext(b1, b2, p, m - 1);
    }
}

/// Gravity keeps the tokens of a column: for `n` rows, the count of the new
/// column is the count of the old one shifted past the lowest empty cell.
pub proof fn lemma_fall_col_count_prefix(b1: Board, b2: Board, c: int, p: Player, n: int)
    requires
        0 <= c < 7,
        0 <= n <= 6,
        0 <= lowest_empty(b1, c),
        forall|r: int| 0 <= r < 6 ==> b2[r][c] == fall_cell(b1, r, c),
    ensures
        col_count(b2, c, p, n) == (if n == 0 {
            0
        } else if n <= lowest_empty(b1, c) + 1 {
            col_count(b1, c, p, n - 1)
        } else {
            col_count(b1, c, p, n)
        }),
    decreases n,
{
    lemma_lowest_empty(b1, c, 5);
    if n > 0 {
        lemma_fall_col_count_prefix(b1, b2, c, p, n - 1);
        assert(b2[n - 1][c] == fall_cell(b1, n - 1, c));
        if n >= 2 {
            lemma_col_count_split(b1, c, p, n - 1);
        }
    }
}

pub proof fn lemma_fall_col_count(b1: Board, b2: Board, c: int, p: Player)
    requires
        0 <= c < 7,
        forall|r: int| 0 <= r < 6 ==> b2[r][c] == fall_cell(b1, r, c),
    ensures
        col_count(b2, c, p, 6) == col_count(b1, c, p, 6),
{
    lemma_lowest_empty(b1, c, 5);
    if lowest_empty(b1, c) < 0 {
        assert forall|r: int| 0 <= r < 6 implies b1[r][c] == b2[r][c] by {
            assert(b2[r][c] == fall_cell(b1, r, c));
        }
        lemma_col_count_ext(b1, b2, c, c, p, 6);
    } else {
        lemma_fall_col_count_prefix(b1, b2, c, p, 6);
    }
}

pub proof fn lemma_shift_col_count_prefix(b1: Board, b2: Board, c: int, p: Player, n: int)
    requires
        0 <= c < 7,
        1 <= n <= 6,
        forall|r: int| 0 <= r < 6 ==> b2[r][c] == shift_cell(b1, r, c),
    ensures
        col_count(b2, c, p, n) == col_count(b1, c, p, n - 1),
    decreases n,
{
    assert(b2[n - 1][c] == shift_cell(b1, n - 1, c));
    lemma_col_count_split(b2, c, p, n);
    if n > 1 {
        lemma_shift_col_count_prefix(b1, b2, c, p, n - 1);
        lemma_col_count_split(b1, c, p, n - 1);
    } else {
        assert(col_count(b2, c, p, 0) == 0);
    }
}

/// Moving the board down one row drops exactly the bottom row's tokens.
pub proof fn lemma_shift_count_cols(b1: Board, b2: Board, p: Player, m: int)
    requires
        0 <= m <= 7,
        forall|r: int, c: int| #![trigger b2[r][c]] in_bounds(r, c) ==> b2[r][c] == shift_cell(b1, r, c),
    ensures
        count_cols(b2, p, m) + bottom_count(b1, p, m) == count_cols(b1, p, m),
    decreases m,
{
    if m > 0 {
        lemma_shift_count_cols(b1, b2, p, m - 1);
        let c = m - 1;
        assert forall|r: int| 0 <= r < 6 implies b2[r][c] == shift_cell(b1, r, c) by {
            assert(in_bounds(r, c));
        }
        lemma_shift_col_count_prefix(b1, b2, c, p, 6);
        lemma_col_count_split(b1, c, p, 6);
        assert(count_cols(b2, p, m) == count_cols(b2, p, m - 1) + col_count(b2, c, p, 6));
        assert(count_cols(b1, p, m) == count_cols(b1, p, m - 1) + col_count(b1, c, p, 6));
        assert(bottom_count(b1, p, m) == bottom_count(b1, p, m - 1) + holds(b1[5][c], p));
    }
}

pub proof fn lemma_bottom_count_le(b: Board, p: Player, m: int)
    requires
        0 <= m <= 7,
    ensures
        bottom_count(b, p, m) <= count_cols(b, p, m),
    decreases m,
{
    if m > 0 {
        lemma_bottom_count_le(b, p, m - 1);
        lemma_col_count_split(b, m - 1, p, 6);
    }
}

pub proof fn lemma_col_count_split(b: Board, c: int, p: Player, n: int)
    requires
        0 <= c < 7,
        1 <= n <= 6,
    ensures
        col_count(b, c, p, n) == col_count(b, c, p, n - 1) + holds(b[n - 1][c], p),
{
}

/// A column holds at most one token per row, and fewer when its top is empty.
pub proof fn lemma_col_occupancy(b: Board, c: int, n: int)
    requires
        0 <= c < 7,
        0 <= n <= 6,
    ensures
        col_count(b, c, Player::One, n) + col_count(b, c, Player::Two, n) <= n,
        n >= 1 && b[0][c] == Cell::Empty ==> col_count(b, c, Player::One, n) + col_count(
            b,
            c,
            Player::Two,
            n,
        ) < n,
        (forall|r: int| 0 <= r < n ==> b[r][c] != Cell::Empty) ==> col_count(b, c, Player::One, n)
            + col_count(b, c, Player::Two, n) == n,
    decreases n,
{
    if n > 0 {
        lemma_col_occupancy(b, c, n - 1);
    }
}

pub proof fn lemma_board_occupancy(b: Board, m: int, c0: int)
    requires
        0 <= m <= 7,
    ensures
        count_cols(b, Player::One, m) + count_cols(b, Player::Two, m) <= 6 * m,
        0 <= c0 < m && b[0][c0] == Cell::Empty ==> count_cols(b, Player::One, m) + count_cols(
            b,
            Player::Two,
            m,
        ) < 6 * m,
    decreases m,
{
    if m > 0 {
        lemma_board_occupancy(b, m - 1, c0);
        lemma_col_occupancy(b, m - 1, 6);
    }
}

pub proof fn lemma_empty_count(b: Board, p: Player, m: int)
    requires
        0 <= m <= 7,
        all_empty(b),
    ensures
        count_cols(b, p, m) == 0,
    decreases m,
{
    if m > 0 {
        lemma_empty_count(b, p, m - 1);
        assert forall|r: int| 0 <= r < 6 implies b[r][m - 1] == Cell::Empty by {
            assert(in_bounds(r, m - 1));
        }
        lemma_empty_col_count(b, m - 1, p, 6);
    }
}

pub proof fn lemma_empty_col_count(b: Board, c: int, p: Player, n: int)
    requires
        0 <= c < 7,
        n <= 6,
        forall|r: int| 0 <= r < n ==> b[r][c] == Cell::Empty,
    ensures
        col_count(b, c, p, n) == 0,
    decreases n,
{
    if n > 0 {
        lemma_empty_col_count(b, c, p, n - 1);
    }
}

} // verus!

verus! {

/// Putting a token of `q` into an empty cell adds one to `q`'s counts and
/// leaves the other player's unchanged.
pub proof fn lemma_place(b1: Board, b2: Board, r0: int, c0: int, q: Player)
    requires
        in_bounds(r0, c0),
        b1[r0][c0] == Cell::Empty,
        b2[r0][c0] == Cell::Occupied(q),
        forall|r: int, c: int| #![trigger b2[r][c]] in_bounds(r, c) && !(r == r0 && c == c0) ==> b2[r][c] == b1[r][c],
    ensures
        forall|c: int, p: Player| #![trigger col_count(b2, c, p, 6)] 0 <= c < 7 ==> col_count(b2, c, p, 6) == col_count(b1, c, p, 6) + (if c == c0 && p == q { 1nat } else { 0nat }),
        forall|p: Player| #![trigger count(b2, p)] count(b2, p) == count(b1, p) + (if p == q { 1nat } else { 0nat }),
{
    assert forall|c: int, p: Player| #![trigger col_count(b2, c, p, 6)] 0 <= c < 7 implies col_count(b2, c, p, 6) == col_count(b1, c, p, 6) + (if c == c0 && p == q { 1nat } else { 0nat }) by {
        assert forall|r: int| 0 <= r < 6 && r != r0 implies b1[r][c] == b2[r][c] by {
            assert(in_bounds(r, c));
        }
        if c == c0 {
            lemma_col_count_update(b1, b2, c, r0, p, 6);
        } else {
            assert forall|r: int| 0 <= r < 6 implies b1[r][c] == b2[r][c] by {
                assert(in_bounds(r, c));
            }
            lemma_col_count_ext(b1, b2, c, c, p, 6);
        }
    }
    assert forall|p: Player| #![trigger count(b2, p)] count(b2, p) == count(b1, p) + (if p == q { 1nat } else { 0nat }) by {
        assert(col_count(b2, c0, p, 6) == col_count(b1, c0, p, 6) + (if p == q { 1nat } else { 0nat }));
        assert forall|c: int| 0 <= c < 7 && c != c0 implies col_count(b1, c, p, 6) == col_count(b2, c, p, 6) by {
            assert(col_count(b2, c, p, 6) == col_count(b1, c, p, 6) + 0nat);
        }
        lemma_count_cols_update(b1, b2, c0, p, 7);
    }
}

/// A token of `q` never completes a line of the other player.
pub proof fn lemma_place_keeps_other_lines(b1: Board, b2: Board, r0: int, c0: int, q: Player, p: Player)
    requires
        p != q,
        b2[r0][c0] == Cell::Occupied(q),
        forall|r: int, c: int| #![trigger b2[r][c]] in_bounds(r, c) && !(r == r0 && c == c0) ==> b2[r][c] == b1[r][c],
        !has_four(b1, p),
    ensures
        !has_four(b2, p),
{
    if has_four(b2, p) {
        let (r, c, dr, dc) = choose|r: int, c: int, dr: int, dc: int|
            is_direction(dr, dc) && #[trigger] four_from(b2, r, c, dr, dc, p);
        assert(four_from(b1, r, c, dr, dc, p));
    }
}

} // verus!

verus! {

/// Once no token hangs over an empty cell, a step of gravity changes nothing.
pub proof fn lemma_settled_fall_is_identity(b: Board)
    requires
        settled(b),
    ensures
        forall|r: int, c: int| #![trigger fall_cell(b, r, c)] in_bounds(r, c) ==> fall_cell(b, r, c) == b[r][c],
{
    assert forall|r: int, c: int| #![trigger fall_cell(b, r, c)] in_bounds(r, c) implies fall_cell(b, r, c) == b[r][c] by {
        lemma_lowest_empty(b, c, 5);
        let g = lowest_empty(b, c);
        if g >= 0 {
            lemma_settled_column_empty_above(b, c, g);
        }
    }
}

/// On a settled board every cell above an empty cell is empty.
pub proof fn lemma_settled_column_empty_above(b: Board, c: int, g: int)
    requires
        settled(b),
        0 <= c < 7,
        0 <= g < 6,
        b[g][c] == Cell::Empty,
    ensures
        forall|r: int| 0 <= r <= g ==> #[trigger] b[r][c] == Cell::Empty,
    decreases g,
{
    if g > 0 {
        assert(!hangs_over_gap(b, g, c));
        lemma_settled_column_empty_above(b, c, g - 1);
    }
}

/// Four cells of one player in a row, in any of the four directions, make a win.
pub proof fn lemma_line_of_four_wins(b: Board, r: int, c: int, dr: int, dc: int, p: Player)
    requires
        is_direction(dr, dc),
        four_from(b, r, c, dr, dc, p),
    ensures
        has_four(b, p),
{
}

/// Three cells in a row, on a board that holds no other token, make no win.
pub proof fn lemma_line_of_three_does_not_win(b: Board, r: int, c: int, dr: int, dc: int)
    requires
        is_direction(dr, dc),
        forall|x: int, y: int| #![trigger b[x][y]] in_bounds(x, y) && b[x][y] != Cell::Empty ==>
            (x == r && y == c) || (x == r + dr && y == c + dc) || (x == r + 2 * dr && y == c + 2 * dc),
    ensures
        !has_four(b, Player::One),
        !has_four(b, Player::Two),
{
    assert forall|p: Player| !has_four(b, p) by {
        if has_four(b, p) {
            let (x, y, ex, ey) = choose|x: int, y: int, ex: int, ey: int|
                is_direction(ex, ey) && #[trigger] four_from(b, x, y, ex, ey, p);
            assert(b[x][y] != Cell::Empty);
            assert(b[x + ex][y + ey] != Cell::Empty);
            assert(b[x + 2 * ex][y + 2 * ey] != Cell::Empty);
            assert(b[x + 3 * ex][y + 3 * ey] != Cell::Empty);
        }
    }
}

} // verus!
