use vstd::prelude::*;

pub use crate::board::{Cell, Player};
use crate::board::{
    all_empty, bottom_count, col_count, count, empty_prefix, fall_cell, four_from, has_four,
    is_direction, top_row_full, lemma_board_occupancy, lemma_bottom_count_le, lemma_col_count_ext,
    lemma_col_occupancy, lemma_count_cols_ext, lemma_empty_col_count, lemma_empty_count,
    lemma_fall_col_count, lemma_lowest_empty, lemma_place,
    lemma_place_keeps_other_lines, lemma_shift_count_cols, lowest_empty, occupied, other, owns,
    shift_cell, three_after, in_bounds, Board, COLUMNS, ROWS, TOKENS_PER_PLAYER,
};

verus! {

/// The game engine: a logical board that decides moves and wins, and a
/// displayed board on which tokens fall one row per tick.
#[derive(Debug)]
pub struct Game {
    validation_board: Board,
    animated_board: Board,
    current_player: Player,
    winner: Option<Player>,
    tokens_one: u8,
    tokens_two: u8,
    resetting: bool,
}

/// Whether player `p` holds the cell at (`r`, `c`); positions off the board hold nothing.
fn owns_at(b: &Board, r: i64, c: i64, p: Player) -> (res: bool)
    ensures
        res == owns(*b, r as int, c as int, p),
{
    if r < 0 || r >= 6 || c < 0 || c >= 7 {
        false
    } else {
        b[r as usize][c as usize] == Cell::Occupied(p)
    }
}

/// Whether every cell of `b` is empty.
fn board_is_empty(b: &Board) -> (res: bool)
    ensures
        res == all_empty(*b),
{
    let mut row: usize = 0;
    while row < ROWS
        invariant
            row <= 6,
            forall|r: int, c: int| #![trigger b[r][c]] 0 <= r < row && 0 <= c < 7 ==> b[r][c] == Cell::Empty,
        decreases 6 - row,
    {
        let mut column: usize = 0;
        while column < COLUMNS
            invariant
                row < 6,
                column <= 7,
                forall|r: int, c: int| #![trigger b[r][c]]
                    (0 <= r < row && 0 <= c < 7) || (r == row && 0 <= c < column) ==> b[r][c] == Cell::Empty,
            decreases 7 - column,
        {
            if b[row][column] != Cell::Empty {
                return false;
            }
            column += 1;
        }
        row += 1;
    }
    true
}

impl Game {
    /// The board on which moves and wins are decided.
    pub closed spec fn logical(&self) -> Board {
        self.validation_board
    }

    /// The board as shown, with tokens on their way down.
    pub closed spec fn display(&self) -> Board {
        self.animated_board
    }

    /// The player whose move is next.
    pub closed spec fn turn(&self) -> Player {
        self.current_player
    }

    /// The winner, once there is one.
    pub closed spec fn result(&self) -> Option<Player> {
        self.winner
    }

    /// The tokens that player `p` has not played.
    pub closed spec fn tokens(&self, p: Player) -> nat {
        match p {
            Player::One => self.tokens_one as nat,
            Player::Two => self.tokens_two as nat,
        }
    }

    /// The board is being cleared, one row per tick.
    pub closed spec fn is_resetting(&self) -> bool {
        self.resetting
    }

    /// The engine's invariant.
    pub closed spec fn wf(&self) -> bool {
        &&& self.tokens_one + count(self.animated_board, Player::One) == 21
        &&& self.tokens_two + count(self.animated_board, Player::Two) == 21
        &&& !self.resetting ==> {
            &&& forall|c: int, p: Player| #![trigger col_count(self.animated_board, c, p, 6)]
                0 <= c < 7 ==> col_count(self.animated_board, c, p, 6) == col_count(
                    self.validation_board,
                    c,
                    p,
                    6,
                )
            &&& self.current_player == Player::One ==> self.tokens_one == self.tokens_two
            &&& self.current_player == Player::Two ==> self.tokens_two == self.tokens_one + 1
        }
        &&& self.winner.is_none() ==> !has_four(self.validation_board, Player::One) && !has_four(
            self.validation_board,
            Player::Two,
        )
    }

    /// A drop into `column` is taken: nobody has won, the board is not being
    /// cleared, and the top cell of the column as shown is empty.
    pub open spec fn accepts(&self, column: int) -> bool {
        &&& self.result().is_none()
        &&& !self.is_resetting()
        &&& self.display()[0][column] == Cell::Empty
    }

    /// `self` is what a drop into `column` makes of `before`.
    pub open spec fn is_drop_of(&self, before: Game, column: int) -> bool {
        &&& !before.accepts(column) ==> *self == before
        &&& before.accepts(column) ==> {
            let p = before.turn();
            let g = lowest_empty(before.logical(), column);
            &&& 0 <= g
            &&& forall|r: int, c: int| #![trigger self.display()[r][c]] 0 <= r < 6 && 0 <= c < 7
                ==> self.display()[r][c] == if r == 0 && c == column {
                    Cell::Occupied(p)
                } else {
                    before.display()[r][c]
                }
            &&& forall|r: int, c: int| #![trigger self.logical()[r][c]] 0 <= r < 6 && 0 <= c < 7
                ==> self.logical()[r][c] == if r == g && c == column {
                    Cell::Occupied(p)
                } else {
                    before.logical()[r][c]
                }
            &&& self.tokens(p) + 1 == before.tokens(p)
            &&& self.tokens(other(p)) == before.tokens(other(p))
            &&& self.turn() == other(p)
            &&& self.result() == if has_four(self.logical(), p) {
                Some(p)
            } else {
                None
            }
            &&& !self.is_resetting()
        }
    }

    /// `self` is what one tick makes of `before`.
    pub open spec fn is_tick_of(&self, before: Game) -> bool {
        &&& !before.is_resetting() ==> {
            &&& forall|r: int, c: int| #![trigger self.display()[r][c]] 0 <= r < 6 && 0 <= c < 7
                ==> self.display()[r][c] == fall_cell(before.display(), r, c)
            &&& self.logical() == before.logical()
            &&& self.turn() == before.turn()
            &&& self.result() == before.result()
            &&& self.tokens(Player::One) == before.tokens(Player::One)
            &&& self.tokens(Player::Two) == before.tokens(Player::Two)
            &&& !self.is_resetting()
        }
        &&& before.is_resetting() ==> {
            &&& forall|r: int, c: int| #![trigger self.display()[r][c]] 0 <= r < 6 && 0 <= c < 7
                ==> self.display()[r][c] == shift_cell(before.display(), r, c)
            &&& self.tokens(Player::One) == before.tokens(Player::One) + bottom_count(before.display(), Player::One, 7)
            &&& self.tokens(Player::Two) == before.tokens(Player::Two) + bottom_count(before.display(), Player::Two, 7)
            &&& forall|k: int| 0 <= k < 6 && #[trigger] empty_prefix(before.display(), k)
                ==> empty_prefix(self.display(), k + 1)
            &&& self.is_resetting() == !empty_prefix(before.display(), 5)
            &&& self.is_resetting() ==> {
                &&& self.logical() == before.logical()
                &&& self.turn() == before.turn()
                &&& self.result() == before.result()
            }
            &&& !self.is_resetting() ==> {
                &&& all_empty(self.display())
                &&& all_empty(self.logical())
                &&& self.turn() == Player::One
                &&& self.result().is_none()
                &&& self.tokens(Player::One) == 21
                &&& self.tokens(Player::Two) == 21
            }
        }
    }

    /// `self` is `before` with the clearing of the board started.
    pub open spec fn is_reset_of(&self, before: Game) -> bool {
        &&& self.is_resetting()
        &&& self.display() == before.display()
        &&& self.logical() == before.logical()
        &&& self.turn() == before.turn()
        &&& self.result() == before.result()
        &&& self.tokens(Player::One) == before.tokens(Player::One)
        &&& self.tokens(Player::Two) == before.tokens(Player::Two)
    }

    /// Both boards empty, player One to move, nobody has won, 21 tokens each.
    pub open spec fn is_new_game(&self) -> bool {
        &&& all_empty(self.logical())
        &&& all_empty(self.display())
        &&& self.turn() == Player::One
        &&& self.result().is_none()
        &&& !self.is_resetting()
        &&& self.tokens(Player::One) == 21
        &&& self.tokens(Player::Two) == 21
    }

    /// A new game.
    pub fn new() -> (g: Game)
        ensures
            g.wf(),
            g.is_new_game(),
    {
        let g = Game {
            validation_board: [[Cell::Empty; 7]; 6],
            animated_board: [[Cell::Empty; 7]; 6],
            current_player: Player::One,
            winner: None,
            tokens_one: TOKENS_PER_PLAYER,
            tokens_two: TOKENS_PER_PLAYER,
            resetting: false,
        };
        proof {
            lemma_empty_count(g.animated_board, Player::One, 7);
            lemma_empty_count(g.animated_board, Player::Two, 7);
            lemma_empty_has_no_four(g.validation_board, Player::One);
            lemma_empty_has_no_four(g.validation_board, Player::Two);
            assert forall|c: int, p: Player| 0 <= c < 7 implies col_count(g.animated_board, c, p, 6) == col_count(g.validation_board, c, p, 6) by {
                lemma_col_count_ext(g.animated_board, g.validation_board, c, c, p, 6);
            }
        }
        g
    }

    /// The board as shown.
    pub fn board(&self) -> (b: &Board)
        ensures
            *b == self.display(),
    {
        &self.animated_board
    }

    pub fn current_player(&self) -> (p: Player)
        ensures
            p == self.turn(),
    {
        self.current_player
    }

    pub fn winner(&self) -> (w: Option<Player>)
        ensures
            w == self.result(),
    {
        self.winner
    }

    /// The tokens that player `p` has left to play.
    pub fn tokens_remaining(&self, p: Player) -> (n: u8)
        ensures
            n as nat == self.tokens(p),
    {
        match p {
            Player::One => self.tokens_one,
            Player::Two => self.tokens_two,
        }
    }

    /// Whether the three cells after (`row`, `column`) in direction
    /// (`row_delta`, `column_delta`) lie on the board and belong to `player`.
    fn is_four_in_a_row(
        &self,
        row: usize,
        column: usize,
        row_delta: i64,
        column_delta: i64,
        player: Player,
    ) -> (res: bool)
        requires
            row < 6,
            column < 7,
            -1 <= row_delta <= 1,
            -1 <= column_delta <= 1,
        ensures
            res == three_after(self.logical(), row as int, column as int, row_delta as int, column_delta as int, player),
    {
        let b = &self.validation_board;
        let r = row as i64;
        let c = column as i64;
        owns_at(b, r + row_delta, c + column_delta, player) && owns_at(
            b,
            r + 2 * row_delta,
            c + 2 * column_delta,
            player,
        ) && owns_at(b, r + 3 * row_delta, c + 3 * column_delta, player)
    }

    /// Scans the logical board, row by row, for four in a row.
    fn compute_winner(&self) -> (w: Option<Player>)
        ensures
            w.is_none() <==> !has_four(self.logical(), Player::One) && !has_four(self.logical(), Player::Two),
            w matches Some(p) ==> has_four(self.logical(), p),
    {
        let ghost b = self.validation_board;
        let mut row: usize = 0;
        while row < 6
            invariant
                b == self.validation_board,
                row <= 6,
                forall|r: int, c: int, dr: int, dc: int, p: Player| #![trigger four_from(b, r, c, dr, dc, p)]
                    r < row && is_direction(dr, dc) ==> !four_from(b, r, c, dr, dc, p),
            decreases 6 - row,
        {
            let mut column: usize = 0;
            while column < 7
                invariant
                    b == self.validation_board,
                    row < 6,
                    column <= 7,
                    forall|r: int, c: int, dr: int, dc: int, p: Player| #![trigger four_from(b, r, c, dr, dc, p)]
                        (r < row || (r == row && c < column)) && is_direction(dr, dc) ==> !four_from(b, r, c, dr, dc, p),
                decreases 7 - column,
            {
                if let Cell::Occupied(p) = self.validation_board[row][column] {
                    if self.is_four_in_a_row(row, column, 0, 1, p) {
                        assert(four_from(b, row as int, column as int, 0, 1, p));
                        return Some(p);
                    }
                    if self.is_four_in_a_row(row, column, 1, 0, p) {
                        assert(four_from(b, row as int, column as int, 1, 0, p));
                        return Some(p);
                    }
                    if self.is_four_in_a_row(row, column, 1, 1, p) {
                        assert(four_from(b, row as int, column as int, 1, 1, p));
                        return Some(p);
                    }
                    if self.is_four_in_a_row(row, column, 1, -1, p) {
                        assert(four_from(b, row as int, column as int, 1, -1, p));
                        return Some(p);
                    }
                }
                column += 1;
            }
            row += 1;
        }
        None
    }

    /// Plays the current player's token into `column`, if the drop is taken
    /// (see `accepts`); otherwise nothing changes. The token appears in the top
    /// row of the shown board and lands at once on the logical board.
    pub fn drop(&mut self, column: usize)
        requires
            old(self).wf(),
            column < 7,
        ensures
            final(self).wf(),
            final(self).is_drop_of(*old(self), column as int),
    {
        if self.winner.is_some() || self.resetting {
            return;
        }
        if self.animated_board[0][column] != Cell::Empty {
            return;
        }
        let ghost s0 = *self;
        let p = self.current_player;
        proof {
            lemma_board_occupancy(s0.animated_board, 7, column as int);
            lemma_col_occupancy(s0.animated_board, column as int, 6);
            lemma_col_occupancy(s0.validation_board, column as int, 6);
            assert(col_count(s0.animated_board, column as int, Player::One, 6) == col_count(s0.validation_board, column as int, Player::One, 6));
            assert(col_count(s0.animated_board, column as int, Player::Two, 6) == col_count(s0.validation_board, column as int, Player::Two, 6));
            lemma_lowest_empty(s0.validation_board, column as int, 5);
        }
        // the token enters at the top of the shown board
        self.animated_board[0][column] = Cell::Occupied(p);
        match p {
            Player::One => {
                self.tokens_one = self.tokens_one - 1;
            },
            Player::Two => {
                self.tokens_two = self.tokens_two - 1;
            },
        }
        // and lands at once on the logical board
        let ghost g = lowest_empty(s0.validation_board, column as int);
        let mut row: usize = 5;
        while self.validation_board[row][column] != Cell::Empty
            invariant
                self.validation_board == s0.validation_board,
                0 <= g <= row <= 5,
                column < 7,
                s0.validation_board[g][column as int] == Cell::Empty,
            decreases row,
        {
            row = row - 1;
        }
        assert(row == g) by {
            assert(forall|k: int| g < k <= 5 ==> s0.validation_board[k][column as int] != Cell::Empty);
        }
        self.validation_board[row][column] = Cell::Occupied(p);
        self.current_player = match p {
            Player::One => Player::Two,
            Player::Two => Player::One,
        };
        proof {
            let d0 = s0.animated_board;
            let d1 = self.animated_board;
            let l0 = s0.validation_board;
            let l1 = self.validation_board;
            lemma_place(d0, d1, 0, column as int, p);
            lemma_place(l0, l1, g, column as int, p);
            lemma_place_keeps_other_lines(l0, l1, g, column as int, p, other(p));
            assert(count(d1, Player::One) == count(d0, Player::One) + (if Player::One == p { 1nat } else { 0nat }));
            assert(count(d1, Player::Two) == count(d0, Player::Two) + (if Player::Two == p { 1nat } else { 0nat }));
            assert forall|c: int, q: Player| #![trigger col_count(d1, c, q, 6)] 0 <= c < 7 implies col_count(d1, c, q, 6) == col_count(l1, c, q, 6) by {
                assert(col_count(d0, c, q, 6) == col_count(l0, c, q, 6));
            }
        }
        let w = self.compute_winner();
        self.winner = w;
    }

    /// One tick. While playing, every token above an empty cell of its column
    /// moves down one row. While the board is being cleared, the bottom row's
    /// tokens go back to their players and the whole shown board moves down one
    /// row; once it is empty, a new game begins.
    pub fn animate(&mut self)
        requires
            old(self).wf(),
        ensures
            final(self).wf(),
            final(self).is_tick_of(*old(self)),
    {
        if self.resetting {
            let ghost b0 = self.animated_board;
            self.clear_step();
            proof {
                let d1 = self.animated_board;
                assert forall|k: int| 0 <= k < 6 && #[trigger] empty_prefix(b0, k) implies empty_prefix(d1, k + 1) by {
                    assert forall|r: int, c: int| #![trigger d1[r][c]] 0 <= r < k + 1 && 0 <= c < 7 implies d1[r][c] == Cell::Empty by {
                        if r > 0 {
                            assert(b0[r - 1][c] == Cell::Empty);
                        }
                    }
                }
                if !self.resetting {
                    assert(empty_prefix(d1, 6));
                    assert(all_empty(d1));
                    lemma_empty_count(d1, Player::One, 7);
                    lemma_empty_count(d1, Player::Two, 7);
                }
            }
        } else {
            self.fall_step();
        }
    }

    fn fall_step(&mut self)
        requires
            old(self).wf(),
            !old(self).resetting,
        ensures
            final(self).wf(),
            forall|r: int, c: int| #![trigger final(self).animated_board[r][c]] 0 <= r < 6 && 0 <= c < 7
                ==> final(self).animated_board[r][c] == fall_cell(old(self).animated_board, r, c),
            final(self).validation_board == old(self).validation_board,
            final(self).current_player == old(self).current_player,
            final(self).winner == old(self).winner,
            final(self).tokens_one == old(self).tokens_one,
            final(self).tokens_two == old(self).tokens_two,
            final(self).resetting == old(self).resetting,
    {
        let ghost b0 = self.animated_board;
        let mut b = self.animated_board;
        let mut column: usize = 0;
        while column < 7
            invariant
                column <= 7,
                forall|r: int, c: int| #![trigger b[r][c]] 0 <= r < 6 && 0 <= c < 7 ==> b[r][c] == if c < column {
                    fall_cell(b0, r, c)
                } else {
                    b0[r][c]
                },
            decreases 7 - column,
        {
            let ghost g = lowest_empty(b0, column as int);
            proof {
                lemma_lowest_empty(b0, column as int, 5);
            }
            let mut row: usize = 5;
            while row > 0
                invariant
                    column < 7,
                    row <= 5,
                    g == lowest_empty(b0, column as int),
                    -1 <= g <= 5,
                    g >= 0 ==> b0[g][column as int] == Cell::Empty,
                    forall|k: int| g < k <= 5 ==> b0[k][column as int] != Cell::Empty,
                    forall|r: int, c: int| #![trigger b[r][c]] 0 <= r < 6 && 0 <= c < 7 && c != column ==> b[r][c] == if c < column {
                        fall_cell(b0, r, c)
                    } else {
                        b0[r][c]
                    },
                    forall|r: int| #![trigger b[r][column as int]] 0 <= r < 6 ==> b[r][column as int] == if g > row {
                        if r > g {
                            b0[r][column as int]
                        } else if r > row {
                            b0[r - 1][column as int]
                        } else if r == row {
                            Cell::Empty
                        } else {
                            b0[r][column as int]
                        }
                    } else {
                        b0[r][column as int]
                    },
                decreases row,
            {
                if b[row][column] == Cell::Empty {
                    b[row][column] = b[row - 1][column];
                    b[row - 1][column] = Cell::Empty;
                }
                row = row - 1;
            }
            column = column + 1;
        }
        self.animated_board = b;
        proof {
            let d1 = self.animated_board;
            assert forall|c: int, p: Player| #![trigger col_count(d1, c, p, 6)] 0 <= c < 7 implies col_count(d1, c, p, 6) == col_count(b0, c, p, 6) by {
                assert forall|r: int| 0 <= r < 6 implies d1[r][c] == fall_cell(b0, r, c) by {}
                lemma_fall_col_count(b0, d1, c, p);
            }
            lemma_count_cols_ext(d1, b0, Player::One, 7);
            lemma_count_cols_ext(d1, b0, Player::Two, 7);
        }
    }

    fn clear_step(&mut self)
        requires
            old(self).wf(),
            old(self).resetting,
        ensures
            final(self).wf(),
            forall|r: int, c: int| #![trigger final(self).animated_board[r][c]] 0 <= r < 6 && 0 <= c < 7
                ==> final(self).animated_board[r][c] == shift_cell(old(self).animated_board, r, c),
            final(self).tokens_one == old(self).tokens_one + bottom_count(old(self).animated_board, Player::One, 7),
            final(self).tokens_two == old(self).tokens_two + bottom_count(old(self).animated_board, Player::Two, 7),
            final(self).resetting == !empty_prefix(old(self).animated_board, 5),
            final(self).resetting ==> {
                &&& final(self).validation_board == old(self).validation_board
                &&& final(self).current_player == old(self).current_player
                &&& final(self).winner == old(self).winner
            },
            !final(self).resetting ==> {
                &&& all_empty(final(self).validation_board)
                &&& final(self).current_player == Player::One
                &&& final(self).winner.is_none()
            },
    {
        let ghost b0 = self.animated_board;
        proof {
            lemma_bottom_count_le(b0, Player::One, 7);
            lemma_bottom_count_le(b0, Player::Two, 7);
        }
        // the bottom row's tokens go back to their players
        let mut back_one: u8 = 0;
        let mut back_two: u8 = 0;
        let mut column: usize = 0;
        while column < 7
            invariant
                b0 == self.animated_board,
                column <= 7,
                back_one as nat == bottom_count(b0, Player::One, column as int),
                back_two as nat == bottom_count(b0, Player::Two, column as int),
                back_one <= column,
                back_two <= column,
            decreases 7 - column,
        {
            match self.animated_board[5][column] {
                Cell::Occupied(Player::One) => {
                    back_one = back_one + 1;
                },
                Cell::Occupied(Player::Two) => {
                    back_two = back_two + 1;
                },
                Cell::Empty => {},
            }
            column = column + 1;
        }
        self.tokens_one = self.tokens_one + back_one;
        self.tokens_two = self.tokens_two + back_two;
        // every row moves down one
        let mut b = self.animated_board;
        let mut row: usize = 5;
        while row > 0
            invariant
                row <= 5,
                forall|r: int, c: int| #![trigger b[r][c]] 0 <= r < 6 && 0 <= c < 7 ==> b[r][c] == if r > row {
                    b0[r - 1][c]
                } else {
                    b0[r][c]
                },
            decreases row,
        {
            b[row] = b[row - 1];
            row = row - 1;
        }
        b[0] = [Cell::Empty; 7];
        self.animated_board = b;
        proof {
            let d1 = self.animated_board;
            assert forall|r: int, c: int| #![trigger d1[r][c]] in_bounds(r, c) implies d1[r][c] == shift_cell(b0, r, c) by {}
            lemma_shift_count_cols(b0, d1, Player::One, 7);
            lemma_shift_count_cols(b0, d1, Player::Two, 7);
            assert(all_empty(d1) == empty_prefix(b0, 5)) by {
                if empty_prefix(b0, 5) {
                    assert forall|r: int, c: int| #![trigger d1[r][c]] in_bounds(r, c) implies d1[r][c] == Cell::Empty by {
                        if r > 0 {
                            assert(b0[r - 1][c] == Cell::Empty);
                        }
                    }
                }
                if all_empty(d1) {
                    assert forall|r: int, c: int| #![trigger b0[r][c]] 0 <= r < 5 && 0 <= c < 7 implies b0[r][c] == Cell::Empty by {
                        assert(d1[r + 1][c] == shift_cell(b0, r + 1, c));
                    }
                }
            }
        }
        if board_is_empty(&self.animated_board) {
            self.resetting = false;
            self.current_player = Player::One;
            self.winner = None;
            self.validation_board = [[Cell::Empty; 7]; 6];
            proof {
                let d1 = self.animated_board;
                let l1 = self.validation_board;
                lemma_empty_count(d1, Player::One, 7);
                lemma_empty_count(d1, Player::Two, 7);
                lemma_empty_has_no_four(l1, Player::One);
                lemma_empty_has_no_four(l1, Player::Two);
                assert forall|c: int, p: Player| #![trigger col_count(d1, c, p, 6)] 0 <= c < 7 implies col_count(d1, c, p, 6) == col_count(l1, c, p, 6) by {
                    assert forall|r: int| 0 <= r < 6 implies d1[r][c] == Cell::Empty by {
                        assert(in_bounds(r, c));
                    }
                    assert forall|r: int| 0 <= r < 6 implies l1[r][c] == Cell::Empty by {
                        assert(in_bounds(r, c));
                    }
                    lemma_empty_col_count(d1, c, p, 6);
                    lemma_empty_col_count(l1, c, p, 6);
                }
            }
        }
    }

    /// Starts clearing the board; the ticks that follow do the clearing.
    pub fn reset(&mut self)
        requires
            old(self).wf(),
        ensures
            final(self).wf(),
            final(self).is_reset_of(*old(self)),
    {
        self.resetting = true;
    }

    /// The logical board has no empty cell in its top row.
    pub fn is_full(&self) -> (full: bool)
        ensures
            full == top_row_full(self.logical()),
    {
        let mut column: usize = 0;
        while column < 7
            invariant
                column <= 7,
                forall|c: int| 0 <= c < column ==> #[trigger] self.logical()[0][c] != Cell::Empty,
            decreases 7 - column,
        {
            if self.validation_board[0][column] == Cell::Empty {
                return false;
            }
            column += 1;
        }
        true
    }
}

impl Default for Game {
    fn default() -> (g: Self)
        ensures
            g.wf(),
            g.is_new_game(),
    {
        Game::new()
    }
}

/// While the board is not being cleared, the tokens both players still hold
/// and the tokens on the logical board always make 42.
pub proof fn lemma_tokens_conserved(g: &Game)
    requires
        g.wf(),
        !g.is_resetting(),
    ensures
        g.tokens(Player::One) + g.tokens(Player::Two) + occupied(g.logical()) == 42,
{
    lemma_count_cols_ext(g.animated_board, g.validation_board, Player::One, 7);
    lemma_count_cols_ext(g.animated_board, g.validation_board, Player::Two, 7);
}

/// Turns alternate: player One is to move exactly when an even number of
/// tokens stand on the logical board.
pub proof fn lemma_turn_parity(g: &Game)
    requires
        g.wf(),
        !g.is_resetting(),
    ensures
        (g.turn() == Player::One) == (occupied(g.logical()) % 2 == 0),
{
    lemma_tokens_conserved(g);
}

pub proof fn lemma_empty_has_no_four(b: Board, p: Player)
    requires
        all_empty(b),
    ensures
        !has_four(b, p),
{
    if has_four(b, p) {
        let (r, c, dr, dc) = choose|r: int, c: int, dr: int, dc: int|
            is_direction(dr, dc) && #[trigger] four_from(b, r, c, dr, dc, p);
        assert(owns(b, r, c, p));
    }
}

} // verus!
