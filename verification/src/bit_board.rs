use vstd::prelude::*;

use crate::game_state::{Cell, GameError, GameState};
use crate::wins::{four_in_a_row, mask_bit};
use crate::wins::lemma_win_check_equiv;
use crate::bit_proofs::{
    lemma_group_form, lemma_play_total, lemma_undo_total, lemma_player_play,
    lemma_player_undo, lemma_play_preserves_wf, lemma_play_undo_roundtrip,
    lemma_submask, lemma_zero_board,
};

verus! {

/// Number of columns of the board.
pub const WIDTH: usize = 7;

/// Number of playable rows of each column.
pub const HEIGHT: usize = 6;

/// Total number of playable cells.
pub const TOTAL_CELLS: usize = 42;

/// One bit per column at the bottom playable row: bits 0, 7, ..., 42.
pub const BOTTOM_ROW_MASK: u64 = 0x40810204081;

/// The guard bit of every column (bit 6 of each 7-bit group): always zero in
/// a well-formed mask, so that bit tricks never carry from one column into
/// the next.
pub const GUARD_MASK: u64 = 0x1020408102040;

/// Every well-formed mask is below 2^49: seven columns of seven bits each.
pub const MASK_LIMIT: u64 = 0x2000000000000;

/// The seven low bits that belong to column `c`: bit `7*c + r` holds row `r`
/// of that column, rows counted from the bottom; row 6 is the guard row.
pub open spec fn col_group(m: u64, c: u64) -> u64 {
    (m >> ((7 * c) as u64)) & 0x7f
}

/// Number of coins in column `c`, read off the column's bit group. Meaningful
/// when the group is a contiguous run of low bits, as `col_ok` demands.
pub open spec fn col_height(m: u64, c: u64) -> u64 {
    let g: u64 = col_group(m, c);
    if g == 0 {
        0
    } else if g == 1 {
        1
    } else if g == 3 {
        2
    } else if g == 7 {
        3
    } else if g == 15 {
        4
    } else if g == 31 {
        5
    } else {
        6
    }
}

/// Column `c` holds a contiguous run of coins from the bottom (the group is
/// of the form 2^h - 1) and its guard bit is clear.
pub open spec fn col_ok(m: u64, c: u64) -> bool {
    col_group(m, c) < 64 && col_group(m, c) & ((col_group(m, c) + 1) as u64) == 0
}

/// A mask uses only the 49 board bits, every column is a contiguous stack,
/// and no guard bit is set.
pub open spec fn board_shape(m: u64) -> bool {
    m < MASK_LIMIT && col_ok(m, 0) && col_ok(m, 1) && col_ok(m, 2) && col_ok(m, 3)
        && col_ok(m, 4) && col_ok(m, 5) && col_ok(m, 6)
}

/// Total number of coins on the board: the sum of the seven column heights.
pub open spec fn count_coins(m: u64) -> int {
    col_height(m, 0) + col_height(m, 1) + col_height(m, 2) + col_height(m, 3)
        + col_height(m, 4) + col_height(m, 5) + col_height(m, 6)
}

/// The bit of the bottom cell (row 0) of column `c`.
pub open spec fn spec_bottom_col(c: u64) -> u64 {
    1u64 << ((7 * c) as u64)
}

/// The bit a coin dropped into column `c` would land on.
pub open spec fn play_bit(m: u64, c: u64) -> u64 {
    1u64 << ((7 * c + col_height(m, c)) as u64)
}

/// The bit of the topmost coin of column `c` (meaningful when the column is
/// not empty).
pub open spec fn top_bit(m: u64, c: u64) -> u64 {
    1u64 << ((7 * c + col_height(m, c) - 1) as u64)
}

/// A position encoded as two 49-bit masks plus move bookkeeping.
///
/// `total_mask` holds every occupied cell, `player_mask` the cells owned by
/// the red player (the side that moves first). Each column occupies seven
/// consecutive bits: six playable rows and one always-zero guard bit.
#[derive(Copy, Clone, PartialEq, Eq, Structural, Debug)]
pub struct BitBoard {
    /// Cells owned by the red player; always a subset of `total_mask`.
    pub player_mask: u64,
    /// All occupied cells.
    pub total_mask: u64,
    /// The constant `BOTTOM_ROW_MASK`, kept on the value for the gravity-carry
    /// arithmetic of `play_move` and `undo_move`.
    pub bottom_row: u64,
    /// Number of coins placed so far.
    pub num_moves: usize,
    /// True when it is red's turn, equivalent to an even number of moves.
    pub red_turn: bool,
}

/// The move is inside the board and its column still has a free cell.
pub open spec fn spec_valid_move(b: BitBoard, c: u64) -> bool {
    c < 7 && col_height(b.total_mask, c) < 6
}

/// The board after a coin of the side to move drops into column `c`.
pub open spec fn spec_play(b: BitBoard, c: u64) -> BitBoard {
    let bit: u64 = play_bit(b.total_mask, c);
    BitBoard {
        player_mask: if b.red_turn {
            b.player_mask | bit
        } else {
            b.player_mask
        },
        total_mask: b.total_mask | bit,
        bottom_row: b.bottom_row,
        num_moves: (b.num_moves + 1) as usize,
        red_turn: !b.red_turn,
    }
}

/// The mask of the side about to move in `b`.
pub open spec fn mover_mask(b: BitBoard) -> u64 {
    if b.red_turn {
        b.player_mask
    } else {
        b.total_mask ^ b.player_mask
    }
}

/// The mask of the side about to move in `b`, after its coin has dropped
/// into column `c`: the mask a win test after that move must inspect.
pub open spec fn mover_mask_after(b: BitBoard, c: u64) -> u64 {
    let nb: BitBoard = spec_play(b, c);
    if b.red_turn {
        nb.player_mask
    } else {
        nb.total_mask ^ nb.player_mask
    }
}

/// The fingerprint of a (position, side to move) pair: the side-to-move mask
/// plus the total mask. Distinct only up to transposition-table use, not
/// guaranteed collision free across all positions.
pub open spec fn spec_key(b: BitBoard) -> int {
    (if b.red_turn {
        b.player_mask
    } else {
        b.player_mask ^ b.total_mask
    }) + b.total_mask
}

/// The game state reported for a play of column `c` on board `b`, relative
/// to the side that makes that move: a win for that side when the move
/// completes four in a row, a tie when it fills the last cell, otherwise the
/// game goes on.
pub open spec fn spec_state_after(b: BitBoard, c: u64) -> GameState {
    if four_in_a_row(mover_mask_after(b, c)) {
        if b.red_turn {
            GameState::Win
        } else {
            GameState::Loss
        }
    } else if b.num_moves + 1 == 42 {
        GameState::Tie
    } else {
        GameState::InProgress
    }
}

/// What cell (`c`, `r`) of board `b` holds.
pub open spec fn spec_cell(b: BitBoard, c: u64, r: u64) -> Cell {
    if mask_bit(b.player_mask, c, r) {
        Cell::Red
    } else if mask_bit(b.total_mask, c, r) {
        Cell::Yellow
    } else {
        Cell::Empty
    }
}

/// The board after the topmost coin of column `c` is taken back, the coin
/// being attributed to the side that moved last.
pub open spec fn spec_undo(b: BitBoard, c: u64) -> BitBoard {
    let bit: u64 = top_bit(b.total_mask, c);
    BitBoard {
        player_mask: if !b.red_turn {
            b.player_mask ^ bit
        } else {
            b.player_mask
        },
        total_mask: b.total_mask ^ bit,
        bottom_row: b.bottom_row,
        num_moves: (b.num_moves - 1) as usize,
        red_turn: !b.red_turn,
    }
}

impl BitBoard {
    /// The structural invariant of a board: shaped masks, red's coins a
    /// subset of all coins, an accurate move count, and the turn flag tied to
    /// the move count's parity.
    pub open spec fn well_formed(self) -> bool {
        board_shape(self.total_mask) && self.player_mask & self.total_mask == self.player_mask
            && self.bottom_row == BOTTOM_ROW_MASK && self.num_moves == count_coins(self.total_mask)
            && self.red_turn == (self.num_moves % 2 == 0)
    }

    /// An empty board with red to move.
    pub fn new() -> (r: Self)
        ensures
            r.well_formed(),
            r.total_mask == 0,
            r.player_mask == 0,
            r.num_moves == 0,
            r.red_turn,
    {
        proof {
            lemma_zero_board();
        }
        Self {
            player_mask: 0,
            total_mask: 0,
            bottom_row: BOTTOM_ROW_MASK,
            num_moves: 0,
            red_turn: true,
        }
    }

    /// The bit of the top playable cell of column `col`.
    pub fn top_col_mask(&self, col: usize) -> (r: u64)
        requires
            col < 7,
        ensures
            r == 0x20u64 << ((7 * (col as u64)) as u64),
    {
        let s: u64 = 7 * (col as u64);
        0x20u64 << s
    }

    /// The bit of the bottom cell of column `col`.
    pub fn bottom_col_mask(&self, col: usize) -> (r: u64)
        requires
            col < 7,
        ensures
            r == spec_bottom_col(col as u64),
    {
        let s: u64 = 7 * (col as u64);
        1u64 << s
    }

    /// All six playable bits of column `col`.
    pub fn full_col_mask(&self, col: usize) -> (r: u64)
        requires
            col < 7,
        ensures
            r == 0x3fu64 << ((7 * (col as u64)) as u64),
    {
        let s: u64 = 7 * (col as u64);
        0x3fu64 << s
    }

    /// True when a coin can still be dropped into column `col`: the column's
    /// top playable cell is free.
    pub fn is_move_valid(&self, col: usize) -> (r: bool)
        requires
            col < 7,
            self.well_formed(),
        ensures
            r == spec_valid_move(*self, col as u64),
    {
        proof {
            lemma_group_form(self.total_mask, col as u64);
        }
        self.total_mask & self.top_col_mask(col) == 0
    }

    /// The total mask plus one bit per column just above its stack; used by
    /// the carry arithmetic of `undo_move`.
    pub fn get_height_mask(&self) -> (r: u64)
        requires
            board_shape(self.total_mask),
            self.bottom_row == BOTTOM_ROW_MASK,
        ensures
            r == self.total_mask + BOTTOM_ROW_MASK,
    {
        self.total_mask + self.bottom_row
    }

    /// True when all 42 cells are filled.
    pub fn is_draw(&self) -> (r: bool)
        ensures
            r == (self.num_moves == 42),
    {
        self.num_moves == WIDTH * HEIGHT
    }

    /// Number of coins placed so far.
    pub fn get_num_moves(&self) -> (r: usize)
        ensures
            r == self.num_moves,
    {
        self.num_moves
    }

    /// Drops a coin of the side to move into column `col`. The caller must
    /// have validated the move: this primitive trusts its precondition and
    /// performs no check.
    #[verifier::rlimit(60)]
    pub fn play_move(&mut self, col: usize)
        requires
            old(self).well_formed(),
            spec_valid_move(*old(self), col as u64),
        ensures
            *final(self) == spec_play(*old(self), col as u64),
            final(self).well_formed(),
    {
        proof {
            lemma_play_total(self.total_mask, col as u64);
            lemma_player_play(
                self.player_mask,
                self.total_mask,
                play_bit(self.total_mask, col as u64),
            );
            lemma_play_preserves_wf(*self, col as u64);
        }
        let ghost m0: u64 = self.total_mask;
        let yellow_mask: u64 = self.player_mask ^ self.total_mask;
        let bottom: u64 = self.bottom_col_mask(col);
        self.total_mask = self.total_mask | (self.total_mask + bottom);
        proof {
            assert(self.total_mask == m0 | play_bit(m0, col as u64));
        }
        if self.red_turn {
            self.player_mask = yellow_mask ^ self.total_mask;
        }
        self.num_moves = self.num_moves + 1;
        self.red_turn = !self.red_turn;
    }

    /// Takes back the topmost coin of column `col`; the exact inverse of a
    /// `play_move` on the same column. Fails when the column holds no coin.
    pub fn undo_move(&mut self, col: usize) -> (r: Result<(), GameError>)
        requires
            col < 7,
            board_shape(old(self).total_mask),
            old(self).bottom_row == BOTTOM_ROW_MASK,
            old(self).num_moves == count_coins(old(self).total_mask),
        ensures
            col_height(old(self).total_mask, col as u64) == 0 ==> r == Err::<(), GameError>(
                GameError::EmptyColumnUndo,
            ) && *final(self) == *old(self),
            col_height(old(self).total_mask, col as u64) >= 1 ==> r == Ok::<(), GameError>(())
                && *final(self) == spec_undo(*old(self), col as u64),
    {
        proof {
            lemma_group_form(self.total_mask, col as u64);
        }
        if self.total_mask & self.bottom_col_mask(col) == 0 {
            return Err(GameError::EmptyColumnUndo);
        }
        proof {
            lemma_undo_total(self.total_mask, col as u64);
            lemma_player_undo(
                self.player_mask,
                self.total_mask,
                top_bit(self.total_mask, col as u64),
            );
        }
        let ghost m0: u64 = self.total_mask;
        self.red_turn = !self.red_turn;
        self.num_moves = self.num_moves - 1;
        let yellow_mask: u64 = self.player_mask ^ self.total_mask;
        let bottom: u64 = self.bottom_col_mask(col);
        let height_mask: u64 = self.get_height_mask();
        self.total_mask = self.total_mask ^ (((self.total_mask + bottom) & height_mask) >> 1);
        proof {
            assert(self.total_mask == m0 ^ top_bit(m0, col as u64));
        }
        if self.red_turn {
            self.player_mask = yellow_mask ^ self.total_mask;
        }
        Ok(())
    }

    /// True when dropping a coin of the side to move into column `col` would
    /// complete four in a row for that side. Simulates the move (play, test,
    /// undo) and tests all four directions with shift-and-AND bit tricks;
    /// the result is exactly the cell-grid meaning of a win.
    pub fn is_winning_move(&mut self, col: usize) -> (r: bool)
        requires
            old(self).well_formed(),
            spec_valid_move(*old(self), col as u64),
        ensures
            *final(self) == *old(self),
            r == four_in_a_row(mover_mask_after(*old(self), col as u64)),
    {
        let ghost b0: BitBoard = *self;
        proof {
            lemma_play_total(b0.total_mask, col as u64);
        }
        self.play_move(col);
        let position: u64 = if self.red_turn {
            self.total_mask ^ self.player_mask
        } else {
            self.player_mask
        };
        proof {
            lemma_submask(self.player_mask, self.total_mask);
            lemma_win_check_equiv(position);
        }
        let _ = self.undo_move(col);
        proof {
            lemma_play_undo_roundtrip(b0, col as u64);
        }
        let n1: u64 = position & (position >> 7);
        if n1 & (n1 >> 14) > 0 {
            return true;
        }
        let n2: u64 = position & (position >> 1);
        if n2 & (n2 >> 2) > 0 {
            return true;
        }
        let n3: u64 = position & (position >> 6);
        if n3 & (n3 >> 12) > 0 {
            return true;
        }
        let n4: u64 = position & (position >> 8);
        if n4 & (n4 >> 16) > 0 {
            return true;
        }
        false
    }

    /// The fingerprint used as a transposition-table key.
    pub fn get_unique_key(&self) -> (r: u64)
        requires
            self.well_formed(),
        ensures
            r == spec_key(*self),
    {
        proof {
            lemma_submask(self.player_mask, self.total_mask);
        }
        let current: u64 = if self.red_turn {
            self.player_mask
        } else {
            self.player_mask ^ self.total_mask
        };
        current + self.total_mask
    }

    /// Validated play of one turn: rejects columns outside the board and
    /// full columns, otherwise drops the coin and reports the game state
    /// relative to the side that just moved.
    pub fn play_turn(&mut self, col: usize) -> (r: Result<GameState, GameError>)
        requires
            old(self).well_formed(),
        ensures
            final(self).well_formed(),
            col >= 7 ==> r == Err::<GameState, GameError>(GameError::InvalidColumn) && *final(self)
                == *old(self),
            col < 7 && !spec_valid_move(*old(self), col as u64) ==> r == Err::<
                GameState,
                GameError,
            >(GameError::ColumnFull) && *final(self) == *old(self),
            spec_valid_move(*old(self), col as u64) ==> r == Ok::<GameState, GameError>(
                spec_state_after(*old(self), col as u64),
            ) && *final(self) == spec_play(*old(self), col as u64),
    {
        if col >= WIDTH {
            return Err(GameError::InvalidColumn);
        }
        if !self.is_move_valid(col) {
            return Err(GameError::ColumnFull);
        }
        let winning = self.is_winning_move(col);
        let state = if winning {
            if self.red_turn {
                GameState::Win
            } else {
                GameState::Loss
            }
        } else if self.num_moves + 1 == TOTAL_CELLS {
            GameState::Tie
        } else {
            GameState::InProgress
        };
        self.play_move(col);
        Ok(state)
    }

    /// Read-only cell inspection: what the cell at (`col`, `row`) holds,
    /// rows counted from the bottom.
    pub fn get_cell(&self, col: usize, row: usize) -> (r: Cell)
        requires
            col < 7,
            row < 6,
        ensures
            r == spec_cell(*self, col as u64, row as u64),
    {
        let idx: u64 = 7 * (col as u64) + (row as u64);
        let bit: u64 = 1u64 << idx;
        if self.player_mask & bit != 0 {
            Cell::Red
        } else if self.total_mask & bit != 0 {
            Cell::Yellow
        } else {
            Cell::Empty
        }
    }
}

} // verus!
