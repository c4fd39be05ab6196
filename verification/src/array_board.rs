use vstd::prelude::*;

use crate::bit_board::HEIGHT;
use crate::game_state::{Cell, GameError, GameState};
use rand::Rng;

verus! {

/// Relies on rand's `thread_rng` and `gen_range`: draws a column index, and
/// whatever was drawn lies below seven. Nothing more is assumed of a random
/// value.
#[verifier::external_body]
fn random_column() -> (c: usize)
    ensures
        c < 7,
{
    rand::thread_rng().gen_range(0..7)
}

/// A board with fewer than 42 coins has at least one playable column.
proof fn lemma_arr_column_free(b: ArrayBoard)
    requires
        b.well_formed(),
        b.num_moves < 42,
    ensures
        exists|c: int| arr_valid_move(b, c),
{
    let h: Seq<usize> = b.heights@;
    if h[0] < 6 {
        assert(arr_valid_move(b, 0));
    } else if h[1] < 6 {
        assert(arr_valid_move(b, 1));
    } else if h[2] < 6 {
        assert(arr_valid_move(b, 2));
    } else if h[3] < 6 {
        assert(arr_valid_move(b, 3));
    } else if h[4] < 6 {
        assert(arr_valid_move(b, 4));
    } else if h[5] < 6 {
        assert(arr_valid_move(b, 5));
    } else if h[6] < 6 {
        assert(arr_valid_move(b, 6));
    } else {
        assert(sum_heights(h) == 42);
        assert(false);
    }
}

/// What the cell at column `c`, row `r` of the grid holds; rows are counted
/// from the bottom and the grid is stored row-major.
pub open spec fn cell_at(b: ArrayBoard, c: int, r: int) -> Cell {
    b.board@[7 * r + c]
}

/// The coin of the side to move.
pub open spec fn mover_coin(b: ArrayBoard) -> Cell {
    if b.red_turn {
        Cell::Red
    } else {
        Cell::Yellow
    }
}

/// Total number of coins: the sum of the seven column heights.
pub open spec fn sum_heights(h: Seq<usize>) -> int {
    h[0] + h[1] + h[2] + h[3] + h[4] + h[5] + h[6]
}

/// The move is inside the board and its column still has a free cell.
pub open spec fn arr_valid_move(b: ArrayBoard, c: int) -> bool {
    0 <= c < 7 && b.heights@[c] < 6
}

/// Cell (`c`, `r`) counts for the side to move once its coin lands on
/// (`c0`, `r0`): either it is that landing cell itself, or it already holds
/// the mover's coin.
pub open spec fn covered(b: ArrayBoard, c0: int, r0: int, c: int, r: int) -> bool {
    (c == c0 && r == r0) || cell_at(b, c, r) == mover_coin(b)
}

/// The four cells from column `s` rightward on row `r0` all count for the
/// mover.
pub open spec fn h_window_at(b: ArrayBoard, c0: int, r0: int, s: int) -> bool {
    forall|k: int| 0 <= k < 4 ==> #[trigger] covered(b, c0, r0, s + k, r0)
}

/// A horizontal window of four cells through the landing cell, all counting
/// for the mover.
pub open spec fn win_window_h(b: ArrayBoard, c0: int, r0: int) -> bool {
    exists|s: int| 0 <= s && s + 3 < 7 && s <= c0 <= s + 3 && #[trigger] h_window_at(b, c0, r0, s)
}

/// The four cells from row `s` upward in column `c0` all count for the
/// mover.
pub open spec fn v_window_at(b: ArrayBoard, c0: int, r0: int, s: int) -> bool {
    forall|k: int| 0 <= k < 4 ==> #[trigger] covered(b, c0, r0, c0, s + k)
}

/// A vertical window of four cells through the landing cell, all counting
/// for the mover.
pub open spec fn win_window_v(b: ArrayBoard, c0: int, r0: int) -> bool {
    exists|s: int| 0 <= s && s + 3 < 6 && s <= r0 <= s + 3 && #[trigger] v_window_at(b, c0, r0, s)
}

/// The four cells of the rising diagonal through (`c0`, `r0`) that start at
/// column `s` all count for the mover; cell `x` of that diagonal sits at row
/// `r0 - c0 + x`.
pub open spec fn u_window_at(b: ArrayBoard, c0: int, r0: int, s: int) -> bool {
    forall|k: int| 0 <= k < 4 ==> #[trigger] covered(b, c0, r0, s + k, r0 - c0 + s + k)
}

/// A rising-diagonal window of four cells through the landing cell, all
/// counting for the mover.
pub open spec fn win_window_u(b: ArrayBoard, c0: int, r0: int) -> bool {
    exists|s: int|
        0 <= s && s + 3 < 7 && s <= c0 <= s + 3 && 0 <= r0 - c0 + s && r0 - c0 + s + 3 < 6
            && #[trigger] u_window_at(b, c0, r0, s)
}

/// The four cells of the falling diagonal through (`c0`, `r0`) that start at
/// column `s` all count for the mover; cell `x` of that diagonal sits at row
/// `r0 + c0 - x`.
pub open spec fn d_window_at(b: ArrayBoard, c0: int, r0: int, s: int) -> bool {
    forall|k: int| 0 <= k < 4 ==> #[trigger] covered(b, c0, r0, s + k, r0 + c0 - s - k)
}

/// A falling-diagonal window of four cells through the landing cell, all
/// counting for the mover.
pub open spec fn win_window_d(b: ArrayBoard, c0: int, r0: int) -> bool {
    exists|s: int|
        0 <= s && s + 3 < 7 && s <= c0 <= s + 3 && 0 <= r0 + c0 - s - 3 && r0 + c0 - s < 6
            && #[trigger] d_window_at(b, c0, r0, s)
}

/// Dropping the mover's coin into column `c` completes four in a row in some
/// direction: the brute-force cell-grid meaning of a winning move.
pub open spec fn arr_wins_through(b: ArrayBoard, c: int) -> bool {
    let r0: int = b.heights@[c] as int;
    win_window_h(b, c, r0) || win_window_v(b, c, r0) || win_window_u(b, c, r0) || win_window_d(
        b,
        c,
        r0,
    )
}

/// The game state reported for a play of column `c` on board `b`, relative
/// to the side that makes that move.
pub open spec fn arr_state_after(b: ArrayBoard, c: int) -> GameState {
    if arr_wins_through(b, c) {
        if b.red_turn {
            GameState::Win
        } else {
            GameState::Loss
        }
    } else if b.num_moves + 1 == 42 {
        GameState::Tie
    } else {
        GameState::InProgress
    }
}

/// Characterizes a horizontal win through the landing cell by the two
/// maximal runs of mover coins beside it: a window exists exactly when the
/// runs span at least three further cells.
proof fn lemma_h_char(b: ArrayBoard, c0: int, r0: int, a: int, bb: int)
    requires
        0 <= c0 < 7,
        0 <= a,
        0 <= bb,
        c0 + a < 7,
        c0 - bb >= 0,
        forall|k: int| 1 <= k <= a ==> #[trigger] covered(b, c0, r0, c0 + k, r0),
        forall|k: int| 1 <= k <= bb ==> #[trigger] covered(b, c0, r0, c0 - k, r0),
        c0 + a + 1 >= 7 || cell_at(b, c0 + a + 1, r0) != mover_coin(b),
        c0 - bb - 1 < 0 || cell_at(b, c0 - bb - 1, r0) != mover_coin(b),
    ensures
        (1 + a + bb >= 4) <==> win_window_h(b, c0, r0),
{
    if 1 + a + bb >= 4 {
        let s: int = if a >= 3 {
            c0
        } else {
            c0 + a - 3
        };
        assert forall|k: int| 0 <= k < 4 implies #[trigger] covered(b, c0, r0, s + k, r0) by {
            let x: int = s + k;
            if x > c0 {
                assert(covered(b, c0, r0, c0 + (x - c0), r0));
            } else if x < c0 {
                assert(covered(b, c0, r0, c0 - (c0 - x), r0));
            }
        }
        assert(h_window_at(b, c0, r0, s));
        assert(win_window_h(b, c0, r0));
    }
    if win_window_h(b, c0, r0) {
        let s: int = choose|s: int|
            0 <= s && s + 3 < 7 && s <= c0 <= s + 3 && #[trigger] h_window_at(b, c0, r0, s);
        if s + 3 > c0 + a {
            let x: int = c0 + a + 1;
            assert(covered(b, c0, r0, s + (x - s), r0));
            assert(false);
        }
        if c0 - s > bb {
            let x: int = c0 - bb - 1;
            assert(covered(b, c0, r0, s + (x - s), r0));
            assert(false);
        }
        assert(1 + a + bb >= 4);
    }
}

/// Characterizes a vertical win through the landing cell: since every cell
/// above the stack is empty, the only possible window is the landing cell
/// atop three mover coins.
proof fn lemma_v_char(b: ArrayBoard, c0: int, r0: int)
    requires
        b.well_formed(),
        0 <= c0 < 7,
        r0 == b.heights@[c0],
        0 <= r0 < 6,
    ensures
        win_window_v(b, c0, r0) <==> (r0 >= 3 && cell_at(b, c0, r0 - 1) == mover_coin(b)
            && cell_at(b, c0, r0 - 2) == mover_coin(b) && cell_at(b, c0, r0 - 3) == mover_coin(
            b,
        )),
{
    if r0 >= 3 && cell_at(b, c0, r0 - 1) == mover_coin(b) && cell_at(b, c0, r0 - 2) == mover_coin(
        b,
    ) && cell_at(b, c0, r0 - 3) == mover_coin(b) {
        let s: int = r0 - 3;
        assert forall|k: int| 0 <= k < 4 implies #[trigger] covered(b, c0, r0, c0, s + k) by {
            if k < 3 {
                assert(cell_at(b, c0, r0 - (3 - k)) == mover_coin(b));
            }
        }
        assert(v_window_at(b, c0, r0, s));
        assert(win_window_v(b, c0, r0));
    }
    if win_window_v(b, c0, r0) {
        let s: int = choose|s: int|
            0 <= s && s + 3 < 6 && s <= r0 <= s + 3 && #[trigger] v_window_at(b, c0, r0, s);
        if s + 3 > r0 {
            assert(covered(b, c0, r0, c0, s + 3));
            assert(cell_at(b, c0, s + 3) == mover_coin(b));
            assert(cell_at(b, c0, s + 3) != Cell::Empty);
            assert(false);
        }
        assert(s == r0 - 3);
        assert(covered(b, c0, r0, c0, s + 0));
        assert(covered(b, c0, r0, c0, s + 1));
        assert(covered(b, c0, r0, c0, s + 2));
        assert(cell_at(b, c0, r0 - 3) == mover_coin(b));
        assert(cell_at(b, c0, r0 - 2) == mover_coin(b));
        assert(cell_at(b, c0, r0 - 1) == mover_coin(b));
    }
}

/// Characterizes a rising-diagonal win through the landing cell by the two
/// maximal diagonal runs of mover coins beside it.
proof fn lemma_u_char(b: ArrayBoard, c0: int, r0: int, ur: int, dl: int)
    requires
        0 <= c0 < 7,
        0 <= r0 < 6,
        0 <= ur,
        0 <= dl,
        c0 + ur < 7,
        r0 + ur < 6,
        c0 - dl >= 0,
        r0 - dl >= 0,
        forall|k: int| 1 <= k <= ur ==> #[trigger] covered(b, c0, r0, c0 + k, r0 + k),
        forall|k: int| 1 <= k <= dl ==> #[trigger] covered(b, c0, r0, c0 - k, r0 - k),
        c0 + ur + 1 >= 7 || r0 + ur + 1 >= 6 || cell_at(b, c0 + ur + 1, r0 + ur + 1)
            != mover_coin(b),
        c0 - dl - 1 < 0 || r0 - dl - 1 < 0 || cell_at(b, c0 - dl - 1, r0 - dl - 1) != mover_coin(
            b,
        ),
    ensures
        (1 + ur + dl >= 4) <==> win_window_u(b, c0, r0),
{
    if 1 + ur + dl >= 4 {
        let s: int = if ur >= 3 {
            c0
        } else {
            c0 + ur - 3
        };
        assert forall|k: int| 0 <= k < 4 implies #[trigger] covered(
            b,
            c0,
            r0,
            s + k,
            r0 - c0 + s + k,
        ) by {
            let x: int = s + k;
            if x > c0 {
                assert(covered(b, c0, r0, c0 + (x - c0), r0 + (x - c0)));
            } else if x < c0 {
                assert(covered(b, c0, r0, c0 - (c0 - x), r0 - (c0 - x)));
            }
        }
        assert(u_window_at(b, c0, r0, s));
        assert(win_window_u(b, c0, r0));
    }
    if win_window_u(b, c0, r0) {
        let s: int = choose|s: int|
            0 <= s && s + 3 < 7 && s <= c0 <= s + 3 && 0 <= r0 - c0 + s && r0 - c0 + s + 3 < 6
                && #[trigger] u_window_at(b, c0, r0, s);
        if s + 3 > c0 + ur {
            let x: int = c0 + ur + 1;
            assert(covered(b, c0, r0, s + (x - s), r0 - c0 + s + (x - s)));
            assert(false);
        }
        if c0 - s > dl {
            let x: int = c0 - dl - 1;
            assert(covered(b, c0, r0, s + (x - s), r0 - c0 + s + (x - s)));
            assert(false);
        }
        assert(1 + ur + dl >= 4);
    }
}

/// Characterizes a falling-diagonal win through the landing cell by the two
/// maximal diagonal runs of mover coins beside it.
proof fn lemma_d_char(b: ArrayBoard, c0: int, r0: int, ul: int, dr: int)
    requires
        0 <= c0 < 7,
        0 <= r0 < 6,
        0 <= ul,
        0 <= dr,
        c0 - ul >= 0,
        r0 + ul < 6,
        c0 + dr < 7,
        r0 - dr >= 0,
        forall|k: int| 1 <= k <= ul ==> #[trigger] covered(b, c0, r0, c0 - k, r0 + k),
        forall|k: int| 1 <= k <= dr ==> #[trigger] covered(b, c0, r0, c0 + k, r0 - k),
        c0 - ul - 1 < 0 || r0 + ul + 1 >= 6 || cell_at(b, c0 - ul - 1, r0 + ul + 1) != mover_coin(
            b,
        ),
        c0 + dr + 1 >= 7 || r0 - dr - 1 < 0 || cell_at(b, c0 + dr + 1, r0 - dr - 1) != mover_coin(
            b,
        ),
    ensures
        (1 + ul + dr >= 4) <==> win_window_d(b, c0, r0),
{
    if 1 + ul + dr >= 4 {
        let s: int = if dr >= 3 {
            c0
        } else {
            c0 + dr - 3
        };
        assert forall|k: int| 0 <= k < 4 implies #[trigger] covered(
            b,
            c0,
            r0,
            s + k,
            r0 + c0 - s - k,
        ) by {
            let x: int = s + k;
            if x > c0 {
                assert(covered(b, c0, r0, c0 + (x - c0), r0 - (x - c0)));
            } else if x < c0 {
                assert(covered(b, c0, r0, c0 - (c0 - x), r0 + (c0 - x)));
            }
        }
        assert(d_window_at(b, c0, r0, s));
        assert(win_window_d(b, c0, r0));
    }
    if win_window_d(b, c0, r0) {
        let s: int = choose|s: int|
            0 <= s && s + 3 < 7 && s <= c0 <= s + 3 && 0 <= r0 + c0 - s - 3 && r0 + c0 - s < 6
                && #[trigger] d_window_at(b, c0, r0, s);
        if s + 3 > c0 + dr {
            let x: int = c0 + dr + 1;
            assert(covered(b, c0, r0, s + (x - s), r0 + c0 - s - (x - s)));
            assert(false);
        }
        if c0 - s > ul {
            let x: int = c0 - ul - 1;
            assert(covered(b, c0, r0, s + (x - s), r0 + c0 - s - (x - s)));
            assert(false);
        }
        assert(1 + ul + dr >= 4);
    }
}

/// A reference board that stores one `Cell` per grid position, row-major
/// from the bottom, with per-column heights. Slower than `BitBoard` but
/// direct: win detection walks the cells instead of shifting masks.
pub struct ArrayBoard {
    /// The 42 cells, row-major from the bottom-left corner.
    pub board: [Cell; 42],
    /// Number of coins placed so far.
    pub num_moves: usize,
    /// True when it is red's turn.
    pub red_turn: bool,
    /// Number of coins in each column.
    pub heights: [usize; 7],
}

impl ArrayBoard {
    /// The structural invariant: heights at most six, an accurate move
    /// count, the turn flag tied to parity, and a cell filled exactly when
    /// it lies below its column's height.
    pub open spec fn well_formed(self) -> bool {
        (forall|c: int| 0 <= c < 7 ==> #[trigger] self.heights@[c] <= 6) && self.num_moves
            == sum_heights(self.heights@) && self.red_turn == (self.num_moves % 2 == 0) && (forall|
            c: int,
            r: int,
        |
            0 <= c < 7 && 0 <= r < 6 ==> ((#[trigger] cell_at(self, c, r)) != Cell::Empty <==> r
                < self.heights@[c]))
    }

    /// An empty board with red to move.
    pub fn new() -> (r: Self)
        ensures
            r.well_formed(),
            r.num_moves == 0,
            r.red_turn,
            forall|c: int, rr: int| 0 <= c < 7 && 0 <= rr < 6 ==> cell_at(r, c, rr) == Cell::Empty,
    {
        let board: [Cell; 42] = [Cell::Empty; 42];
        let heights: [usize; 7] = [0; 7];
        ArrayBoard { board, num_moves: 0, red_turn: true, heights }
    }

    /// True when a coin can still be dropped into column `column`.
    pub fn is_move_valid(&self, column: usize) -> (r: bool)
        requires
            column < 7,
        ensures
            r == arr_valid_move(*self, column as int),
    {
        self.heights[column] < HEIGHT
    }

    /// True when all 42 cells are filled.
    pub fn is_draw(&self) -> (r: bool)
        ensures
            r == (self.num_moves == 42),
    {
        self.num_moves == 42
    }

    /// Number of coins placed so far.
    pub fn get_num_moves(&self) -> (r: usize)
        ensures
            r == self.num_moves,
    {
        self.num_moves
    }

    /// Drops a coin of the side to move into column `column`; trusts its
    /// precondition like the bit board's primitive.
    pub fn play_move(&mut self, column: usize)
        requires
            old(self).well_formed(),
            arr_valid_move(*old(self), column as int),
        ensures
            final(self).well_formed(),
            final(self).board@ == old(self).board@.update(
                7 * (old(self).heights@[column as int] as int) + column,
                mover_coin(*old(self)),
            ),
            final(self).heights@ == old(self).heights@.update(
                column as int,
                (old(self).heights@[column as int] + 1) as usize,
            ),
            final(self).num_moves == old(self).num_moves + 1,
            final(self).red_turn == !old(self).red_turn,
    {
        let coin: Cell = if self.red_turn {
            Cell::Red
        } else {
            Cell::Yellow
        };
        let h: usize = self.heights[column];
        self.num_moves = self.num_moves + 1;
        self.board[7 * h + column] = coin;
        self.heights[column] = h + 1;
        self.red_turn = !self.red_turn;
        proof {
            let c: int = column as int;
            assert(sum_heights(self.heights@) == sum_heights(old(self).heights@) + 1);
            assert forall|cc: int, rr: int| 0 <= cc < 7 && 0 <= rr < 6 implies ((#[trigger]
            cell_at(*self, cc, rr)) != Cell::Empty <==> rr < self.heights@[cc]) by {
                if cc == c && rr == h {
                } else {
                    assert(7 * rr + cc != 7 * (h as int) + c);
                    assert(cell_at(*self, cc, rr) == cell_at(*old(self), cc, rr));
                }
            }
        }
    }

    /// Takes back the topmost coin of column `column`; fails when the column
    /// holds no coin.
    pub fn undo_move(&mut self, column: usize) -> (r: Result<(), GameError>)
        requires
            column < 7,
            old(self).well_formed(),
        ensures
            old(self).heights@[column as int] == 0 ==> r == Err::<(), GameError>(
                GameError::EmptyColumnUndo,
            ) && *final(self) == *old(self),
            old(self).heights@[column as int] >= 1 ==> r == Ok::<(), GameError>(())
                && final(self).well_formed()
                && final(self).board@ == old(self).board@.update(
                    7 * (old(self).heights@[column as int] - 1) + column,
                    Cell::Empty,
                )
                && final(self).heights@ == old(self).heights@.update(
                    column as int,
                    (old(self).heights@[column as int] - 1) as usize,
                )
                && final(self).num_moves == old(self).num_moves - 1
                && final(self).red_turn == !old(self).red_turn,
    {
        if self.heights[column] == 0 {
            return Err(GameError::EmptyColumnUndo);
        }
        self.red_turn = !self.red_turn;
        self.num_moves = self.num_moves - 1;
        let h: usize = self.heights[column];
        self.board[7 * (h - 1) + column] = Cell::Empty;
        self.heights[column] = h - 1;
        proof {
            let c: int = column as int;
            assert(sum_heights(self.heights@) == sum_heights(old(self).heights@) - 1);
            assert forall|cc: int, rr: int| 0 <= cc < 7 && 0 <= rr < 6 implies ((#[trigger]
            cell_at(*self, cc, rr)) != Cell::Empty <==> rr < self.heights@[cc]) by {
                if cc == c && rr == h - 1 {
                } else {
                    assert(7 * rr + cc != 7 * ((h - 1) as int) + c);
                    assert(cell_at(*self, cc, rr) == cell_at(*old(self), cc, rr));
                }
            }
        }
        Ok(())
    }

    /// True when dropping a coin of the side to move into column `column`
    /// would complete four in a row for that side: the brute-force check
    /// that walks the cells around the landing cell in all four directions.
    #[verifier::rlimit(100)]
    pub fn is_winning_move(&self, column: usize) -> (r: bool)
        requires
            self.well_formed(),
            arr_valid_move(*self, column as int),
        ensures
            r == arr_wins_through(*self, column as int),
    {
        let coin: Cell = if self.red_turn {
            Cell::Red
        } else {
            Cell::Yellow
        };
        let h: usize = self.heights[column];
        let ghost c0: int = column as int;
        let ghost r0: int = h as int;

        // Vertical: the landing cell can only top a stack of three.
        proof {
            lemma_v_char(*self, c0, r0);
        }
        if h >= 3 {
            if self.board[7 * (h - 1) + column] == coin && self.board[7 * (h - 2) + column] == coin
                && self.board[7 * (h - 3) + column] == coin {
                return true;
            }
        }

        // Horizontal: count the maximal runs right and left of the landing
        // cell.
        let mut count: usize = 1;
        let mut x: usize = 1;
        while column + x < 7 && self.board[7 * h + column + x] == coin
            invariant
                self.well_formed(),
                column < 7,
                h == self.heights@[column as int],
                h < 6,
                c0 == column as int,
                r0 == h as int,
                coin == mover_coin(*self),
                1 <= x,
                column + x <= 7,
                count == x,
                forall|k: int| 1 <= k < x ==> #[trigger] covered(*self, c0, r0, c0 + k, r0),
            decreases 7 - (column + x),
        {
            x = x + 1;
            count = count + 1;
        }
        let ghost run_r: int = x - 1;
        proof {
            assert(c0 + run_r + 1 >= 7 || cell_at(*self, c0 + run_r + 1, r0) != mover_coin(*self));
        }
        x = 1;
        while column >= x && self.board[7 * h + column - x] == coin
            invariant
                self.well_formed(),
                column < 7,
                h == self.heights@[column as int],
                h < 6,
                c0 == column as int,
                r0 == h as int,
                coin == mover_coin(*self),
                1 <= x,
                x <= column + 1,
                count == run_r + x,
                0 <= run_r <= 6,
                forall|k: int| 1 <= k < x ==> #[trigger] covered(*self, c0, r0, c0 - k, r0),
            decreases column + 1 - x,
        {
            x = x + 1;
            count = count + 1;
        }
        let ghost run_l: int = x - 1;
        proof {
            assert(c0 - run_l - 1 < 0 || cell_at(*self, c0 - run_l - 1, r0) != mover_coin(*self));
            lemma_h_char(*self, c0, r0, run_r, run_l);
        }
        if count >= 4 {
            return true;
        }

        // Falling diagonal: maximal runs up-left and down-right.
        let mut dcount: usize = 1;
        let mut d: usize = 1;
        while column >= d && d + h < 6 && self.board[7 * (h + d) + column - d] == coin
            invariant
                self.well_formed(),
                column < 7,
                h == self.heights@[column as int],
                h < 6,
                c0 == column as int,
                r0 == h as int,
                coin == mover_coin(*self),
                1 <= d,
                d <= column + 1,
                r0 + d - 1 < 6,
                dcount == d,
                forall|k: int| 1 <= k < d ==> #[trigger] covered(*self, c0, r0, c0 - k, r0 + k),
            decreases column + 1 - d,
        {
            d = d + 1;
            dcount = dcount + 1;
        }
        let ghost run_ul: int = d - 1;
        proof {
            assert(c0 - run_ul - 1 < 0 || r0 + run_ul + 1 >= 6 || cell_at(
                *self,
                c0 - run_ul - 1,
                r0 + run_ul + 1,
            ) != mover_coin(*self));
        }
        d = 1;
        while column + d < 7 && h >= d && self.board[7 * (h - d) + column + d] == coin
            invariant
                self.well_formed(),
                column < 7,
                h == self.heights@[column as int],
                h < 6,
                c0 == column as int,
                r0 == h as int,
                coin == mover_coin(*self),
                1 <= d,
                column + d <= 7,
                d <= h + 1,
                dcount == run_ul + d,
                0 <= run_ul <= 6,
                forall|k: int| 1 <= k < d ==> #[trigger] covered(*self, c0, r0, c0 + k, r0 - k),
            decreases 7 - (column + d),
        {
            d = d + 1;
            dcount = dcount + 1;
        }
        let ghost run_dr: int = d - 1;
        proof {
            assert(c0 + run_dr + 1 >= 7 || r0 - run_dr - 1 < 0 || cell_at(
                *self,
                c0 + run_dr + 1,
                r0 - run_dr - 1,
            ) != mover_coin(*self));
            lemma_d_char(*self, c0, r0, run_ul, run_dr);
        }
        if dcount >= 4 {
            return true;
        }

        // Rising diagonal: maximal runs up-right and down-left.
        let mut ucount: usize = 1;
        d = 1;
        while column + d < 7 && d + h < 6 && self.board[7 * (h + d) + column + d] == coin
            invariant
                self.well_formed(),
                column < 7,
                h == self.heights@[column as int],
                h < 6,
                c0 == column as int,
                r0 == h as int,
                coin == mover_coin(*self),
                1 <= d,
                column + d <= 7,
                r0 + d - 1 < 6,
                ucount == d,
                forall|k: int| 1 <= k < d ==> #[trigger] covered(*self, c0, r0, c0 + k, r0 + k),
            decreases 7 - (column + d),
        {
            d = d + 1;
            ucount = ucount + 1;
        }
        let ghost run_ur: int = d - 1;
        proof {
            assert(c0 + run_ur + 1 >= 7 || r0 + run_ur + 1 >= 6 || cell_at(
                *self,
                c0 + run_ur + 1,
                r0 + run_ur + 1,
            ) != mover_coin(*self));
        }
        d = 1;
        while column >= d && h >= d && self.board[7 * (h - d) + column - d] == coin
            invariant
                self.well_formed(),
                column < 7,
                h == self.heights@[column as int],
                h < 6,
                c0 == column as int,
                r0 == h as int,
                coin == mover_coin(*self),
                1 <= d,
                d <= column + 1,
                d <= h + 1,
                ucount == run_ur + d,
                0 <= run_ur <= 6,
                forall|k: int| 1 <= k < d ==> #[trigger] covered(*self, c0, r0, c0 - k, r0 - k),
            decreases column + 1 - d,
        {
            d = d + 1;
            ucount = ucount + 1;
        }
        let ghost run_dl: int = d - 1;
        proof {
            assert(c0 - run_dl - 1 < 0 || r0 - run_dl - 1 < 0 || cell_at(
                *self,
                c0 - run_dl - 1,
                r0 - run_dl - 1,
            ) != mover_coin(*self));
            lemma_u_char(*self, c0, r0, run_ur, run_dl);
        }
        if ucount >= 4 {
            return true;
        }

        false
    }

    /// Validated play of one turn: rejects columns outside the board and
    /// full columns, otherwise drops the coin and reports the game state
    /// relative to the side that just moved.
    pub fn play_turn(&mut self, column: usize) -> (r: Result<GameState, GameError>)
        requires
            old(self).well_formed(),
        ensures
            final(self).well_formed(),
            column >= 7 ==> r == Err::<GameState, GameError>(GameError::InvalidColumn)
                && *final(self) == *old(self),
            column < 7 && !arr_valid_move(*old(self), column as int) ==> r == Err::<
                GameState,
                GameError,
            >(GameError::ColumnFull) && *final(self) == *old(self),
            arr_valid_move(*old(self), column as int) ==> r == Ok::<GameState, GameError>(
                arr_state_after(*old(self), column as int),
            ) && final(self).board@ == old(self).board@.update(
                7 * (old(self).heights@[column as int] as int) + column,
                mover_coin(*old(self)),
            ) && final(self).heights@ == old(self).heights@.update(
                column as int,
                (old(self).heights@[column as int] + 1) as usize,
            ) && final(self).num_moves == old(self).num_moves + 1 && final(self).red_turn == !old(
                self,
            ).red_turn,
    {
        if column >= 7 {
            return Err(GameError::InvalidColumn);
        }
        if !self.is_move_valid(column) {
            return Err(GameError::ColumnFull);
        }
        let winning: bool = self.is_winning_move(column);
        let state: GameState = if winning {
            if self.red_turn {
                GameState::Win
            } else {
                GameState::Loss
            }
        } else if self.num_moves + 1 == 42 {
            GameState::Tie
        } else {
            GameState::InProgress
        };
        self.play_move(column);
        Ok(state)
    }

    /// Plays one turn for a random opponent: tries a randomly drawn column
    /// and falls back to the first legal column when the drawn one is full.
    /// Fails only when the board is already full.
    ///
    /// The single draw with a deterministic fallback is deliberate: a
    /// redraw-until-legal loop has no bound on its number of draws, so its
    /// termination cannot be proved, and on a full board it would never end.
    /// The price is a different distribution over columns when the first
    /// draw lands on a full one.
    pub fn ai_move(&mut self) -> (r: Result<GameState, GameError>)
        requires
            old(self).well_formed(),
        ensures
            final(self).well_formed(),
            old(self).num_moves == 42 ==> r == Err::<GameState, GameError>(GameError::NoLegalMove)
                && *final(self) == *old(self),
            old(self).num_moves < 42 ==> (exists|c: int|
                #[trigger] arr_valid_move(*old(self), c) && r == Ok::<GameState, GameError>(
                    arr_state_after(*old(self), c),
                ) && final(self).board@ == old(self).board@.update(
                    7 * (old(self).heights@[c] as int) + c,
                    mover_coin(*old(self)),
                ) && final(self).heights@ == old(self).heights@.update(
                    c,
                    (old(self).heights@[c] + 1) as usize,
                ) && final(self).num_moves == old(self).num_moves + 1 && final(self).red_turn
                    == !old(self).red_turn),
    {
        let ghost s0: ArrayBoard = *self;
        if self.get_num_moves() >= 42 {
            proof {
                assert forall|c: int| !arr_valid_move(s0, c) by {
                    if arr_valid_move(s0, c) {
                        assert(sum_heights(s0.heights@) < 42);
                    }
                }
            }
            return Err(GameError::NoLegalMove);
        }
        let start: usize = random_column();
        if self.is_move_valid(start) {
            return self.play_turn(start);
        }
        let mut col: usize = 0;
        while col < 7
            invariant
                col <= 7,
                s0 == *old(self),
                *self == s0,
                s0.well_formed(),
                s0.num_moves < 42,
                forall|c: int| 0 <= c < col ==> !#[trigger] arr_valid_move(s0, c),
            decreases 7 - col,
        {
            if self.is_move_valid(col) {
                return self.play_turn(col);
            }
            col = col + 1;
        }
        proof {
            lemma_arr_column_free(s0);
            assert(false);
        }
        Err(GameError::NoLegalMove)
    }
}

} // verus!
