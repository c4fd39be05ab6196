use vstd::prelude::*;

use crate::bit_board::{
    count_coins, col_height, mover_mask_after, spec_key, spec_play, spec_state_after,
    spec_valid_move, BitBoard, TOTAL_CELLS, WIDTH,
};
use crate::bit_proofs::{lemma_play_total, lemma_play_undo_roundtrip};
use crate::game_state::{GameError, GameState};
use crate::trans_table::{spec_slot, TranspositionTable};
use crate::wins::four_in_a_row;

verus! {

/// A search depth that a 42-cell game can never exhaust: with this budget
/// the solver searches the full game tree and the depth cap never bites.
pub const FULL_DEPTH: i64 = 42;

/// Packs a signed search score into the non-negative form the table stores:
/// one fixed re-centering offset, applied symmetrically on write and read,
/// large enough that every legal score maps to a strictly positive value, so
/// that zero can safely mean an empty slot.
pub fn pack_score(score: i64) -> (r: u64)
    requires
        -21 <= score <= 21,
    ensures
        r == score + 22,
        1 <= r <= 43,
{
    (score + 22) as u64
}

/// Reads a packed table value back into a signed search score, with the same
/// fixed offset `pack_score` applied.
pub fn unpack_score(val: u64) -> (r: i64)
    requires
        1 <= val <= 43,
    ensures
        r == val - 22,
        -21 <= r <= 21,
{
    (val as i64) - 22
}

/// Every value stored in the table is either the empty-slot marker zero or a
/// packed score.
pub open spec fn values_ok(t: Seq<(u64, u64)>) -> bool {
    forall|i: int| 0 <= i < t.len() ==> ((#[trigger] t[i]).1 == 0 || (1 <= t[i].1 <= 43))
}

/// The fixed center-out sequence the search explores columns in.
pub open spec fn spec_order() -> Seq<u64> {
    seq![3u64, 2, 4, 1, 5, 0, 6]
}

/// Some playable column completes four in a row for the side to move.
pub open spec fn immediate_win(b: BitBoard) -> bool {
    exists|c: u64| #[trigger] spec_valid_move(b, c) && four_in_a_row(mover_mask_after(b, c))
}

/// Alpha raised to the provable floor: the opponent cannot make the side to
/// move lose faster than the remaining moves allow.
pub open spec fn raised_alpha(alpha: int, n: int) -> int {
    let floor: int = -((42 - 2 - n) / 2);
    if alpha < floor {
        floor
    } else {
        alpha
    }
}

/// Beta capped by the best still-achievable score at this move count,
/// tightened further by the cached bound stored under `key`, when the slot
/// holds one.
pub open spec fn capped_beta(beta: int, t: Seq<(u64, u64)>, key: u64, n: int) -> int {
    let stored: u64 = t[spec_slot(key, t.len() as int)].1;
    let cap: int = if stored != 0 {
        stored - 22
    } else {
        (42 - 1 - n) / 2
    };
    if beta > cap {
        cap
    } else {
        beta
    }
}

/// The exact score-and-cache transform the search computes: a spec-level
/// mirror of `negamax`, so that its result is a function of the board, the
/// cache contents and the window alone.
pub open spec fn spec_negamax(
    b: BitBoard,
    t: Seq<(u64, u64)>,
    alpha: int,
    beta: int,
    depth: int,
) -> (int, Seq<(u64, u64)>)
    decreases 42 - b.num_moves, 8int,
{
    let n: int = b.num_moves as int;
    if n >= 40 {
        (0, t)
    } else if immediate_win(b) {
        ((42 + 1 - n) / 2, t)
    } else {
        let floor: int = -((42 - 2 - n) / 2);
        let a1: int = raised_alpha(alpha, n);
        if alpha < floor && a1 >= beta {
            (a1, t)
        } else {
            let stored: u64 = t[spec_slot(spec_key(b) as u64, t.len() as int)].1;
            let cap: int = if stored != 0 {
                stored - 22
            } else {
                (42 - 1 - n) / 2
            };
            if beta > cap && a1 >= cap {
                (cap, t)
            } else {
                let b1: int = capped_beta(beta, t, spec_key(b) as u64, n);
                if depth == 0 {
                    ((42 + 1 - n) / 2, t)
                } else {
                    spec_search_children(b, t, a1, b1, depth, 0)
                }
            }
        }
    }
}

/// The children fold of the search: explores columns `i` onward of the fixed
/// order, threading the window and the cache through the recursive calls,
/// returning at once on a beta cutoff, and storing the discovered bound under
/// the position's key once every child was explored.
pub open spec fn spec_search_children(
    b: BitBoard,
    t: Seq<(u64, u64)>,
    alpha: int,
    beta: int,
    depth: int,
    i: int,
) -> (int, Seq<(u64, u64)>)
    decreases 42 - b.num_moves, 7 - i,
{
    if i >= 7 {
        let key: u64 = spec_key(b) as u64;
        (alpha, t.update(spec_slot(key, t.len() as int), (key, (alpha + 22) as u64)))
    } else {
        let c: u64 = spec_order()[i];
        if spec_valid_move(b, c) && b.num_moves < 42 {
            let child: (int, Seq<(u64, u64)>) = spec_negamax(
                spec_play(b, c),
                t,
                -beta,
                -alpha,
                depth - 1,
            );
            let s: int = -child.0;
            if s >= beta {
                (s, child.1)
            } else if s > alpha {
                spec_search_children(b, child.1, s, beta, depth, i + 1)
            } else {
                spec_search_children(b, child.1, alpha, beta, depth, i + 1)
            }
        } else {
            spec_search_children(b, t, alpha, beta, depth, i + 1)
        }
    }
}

/// The first column of the search order that wins at once, or 7 when none
/// does.
pub open spec fn spec_win_col(b: BitBoard, i: int) -> int
    decreases 7 - i,
{
    if i >= 7 {
        7
    } else {
        let c: u64 = spec_order()[i];
        if spec_valid_move(b, c) && four_in_a_row(mover_mask_after(b, c)) {
            c as int
        } else {
            spec_win_col(b, i + 1)
        }
    }
}

/// The top-level move selection: from column `i` of the order onward, each
/// legal column is searched with the full window, the cache threading from
/// child to child, and the best-scoring column is kept, ties resolved in
/// favor of the column searched earlier.
pub open spec fn spec_best_move(
    b: BitBoard,
    t: Seq<(u64, u64)>,
    depth: int,
    i: int,
    best: int,
    best_s: int,
) -> (int, int, Seq<(u64, u64)>)
    decreases 7 - i,
{
    if i >= 7 {
        (best, best_s, t)
    } else {
        let c: u64 = spec_order()[i];
        if spec_valid_move(b, c) && b.num_moves < 42 {
            let init: int = (42 + 1 - b.num_moves) / 2;
            let child: (int, Seq<(u64, u64)>) = spec_negamax(
                spec_play(b, c),
                t,
                -init,
                init,
                depth,
            );
            let s: int = -child.0;
            if s > best_s {
                spec_best_move(b, child.1, depth, i + 1, c as int, s)
            } else {
                spec_best_move(b, child.1, depth, i + 1, best, best_s)
            }
        } else {
            spec_best_move(b, t, depth, i + 1, best, best_s)
        }
    }
}

/// Determinism of the solver (the move-selection half): with equal boards,
/// equal cache contents and equal depth budgets, the search settles on the
/// same column, the same score and the same final cache. Together with
/// `make_move`'s postcondition — whose outcome is exactly `spec_win_col` or
/// `spec_best_move` of its inputs — two searches of the same position from
/// equal tables play the same move and report the same state.
pub proof fn lemma_selection_deterministic(
    b1: BitBoard,
    t1: Seq<(u64, u64)>,
    d1: int,
    b2: BitBoard,
    t2: Seq<(u64, u64)>,
    d2: int,
)
    requires
        b1 == b2,
        t1 == t2,
        d1 == d2,
    ensures
        spec_best_move(b1, t1, d1, 0, 7, -22) == spec_best_move(b2, t2, d2, 0, 7, -22),
        spec_win_col(b1, 0) == spec_win_col(b2, 0),
{
}

/// Each entry of the solver's column order is the corresponding entry of the
/// search-order sequence, and lies on the board.
proof fn lemma_order_entry(ai: AIGame, i: int)
    requires
        ai.wf(),
        0 <= i < 7,
    ensures
        ai.column_order@[i] as u64 == spec_order()[i],
        spec_order()[i] < 7,
{
    if i == 0 {
        assert(ai.column_order@[0] == 3usize);
        assert(spec_order()[0] == 3u64);
    } else if i == 1 {
        assert(ai.column_order@[1] == 2usize);
        assert(spec_order()[1] == 2u64);
    } else if i == 2 {
        assert(ai.column_order@[2] == 4usize);
        assert(spec_order()[2] == 4u64);
    } else if i == 3 {
        assert(ai.column_order@[3] == 1usize);
        assert(spec_order()[3] == 1u64);
    } else if i == 4 {
        assert(ai.column_order@[4] == 5usize);
        assert(spec_order()[4] == 5u64);
    } else if i == 5 {
        assert(ai.column_order@[5] == 0usize);
        assert(spec_order()[5] == 0u64);
    } else {
        assert(ai.column_order@[6] == 6usize);
        assert(spec_order()[6] == 6u64);
    }
}

/// When an immediate win exists, the first winning column of the order is a
/// playable winning column on the board.
proof fn lemma_spec_win_col(b: BitBoard)
    requires
        immediate_win(b),
    ensures
        0 <= spec_win_col(b, 0) < 7,
        spec_valid_move(b, spec_win_col(b, 0) as u64),
        four_in_a_row(mover_mask_after(b, spec_win_col(b, 0) as u64)),
{
    let w: u64 = choose|c: u64|
        #[trigger] spec_valid_move(b, c) && four_in_a_row(mover_mask_after(b, c));
    assert(w < 7);
    assert(spec_order()[0] == 3u64);
    assert(spec_order()[1] == 2u64);
    assert(spec_order()[2] == 4u64);
    assert(spec_order()[3] == 1u64);
    assert(spec_order()[4] == 5u64);
    assert(spec_order()[5] == 0u64);
    assert(spec_order()[6] == 6u64);
    assert(spec_win_col(b, 7) == 7);
    assert(spec_win_col(b, 6) == 7 ==> !(spec_valid_move(b, 6) && four_in_a_row(
        mover_mask_after(b, 6),
    )));
    assert(spec_win_col(b, 5) == 7 ==> spec_win_col(b, 6) == 7 && !(spec_valid_move(b, 0)
        && four_in_a_row(mover_mask_after(b, 0))));
    assert(spec_win_col(b, 4) == 7 ==> spec_win_col(b, 5) == 7 && !(spec_valid_move(b, 5)
        && four_in_a_row(mover_mask_after(b, 5))));
    assert(spec_win_col(b, 3) == 7 ==> spec_win_col(b, 4) == 7 && !(spec_valid_move(b, 1)
        && four_in_a_row(mover_mask_after(b, 1))));
    assert(spec_win_col(b, 2) == 7 ==> spec_win_col(b, 3) == 7 && !(spec_valid_move(b, 4)
        && four_in_a_row(mover_mask_after(b, 4))));
    assert(spec_win_col(b, 1) == 7 ==> spec_win_col(b, 2) == 7 && !(spec_valid_move(b, 2)
        && four_in_a_row(mover_mask_after(b, 2))));
    assert(spec_win_col(b, 0) == 7 ==> spec_win_col(b, 1) == 7 && !(spec_valid_move(b, 3)
        && four_in_a_row(mover_mask_after(b, 3))));
    if spec_win_col(b, 0) == 7 {
        assert(false);
    }
    assert(spec_win_col(b, 6) != 7 ==> 0 <= spec_win_col(b, 6) < 7 && spec_valid_move(
        b,
        spec_win_col(b, 6) as u64,
    ) && four_in_a_row(mover_mask_after(b, spec_win_col(b, 6) as u64)));
    assert(spec_win_col(b, 5) != 7 ==> 0 <= spec_win_col(b, 5) < 7 && spec_valid_move(
        b,
        spec_win_col(b, 5) as u64,
    ) && four_in_a_row(mover_mask_after(b, spec_win_col(b, 5) as u64)));
    assert(spec_win_col(b, 4) != 7 ==> 0 <= spec_win_col(b, 4) < 7 && spec_valid_move(
        b,
        spec_win_col(b, 4) as u64,
    ) && four_in_a_row(mover_mask_after(b, spec_win_col(b, 4) as u64)));
    assert(spec_win_col(b, 3) != 7 ==> 0 <= spec_win_col(b, 3) < 7 && spec_valid_move(
        b,
        spec_win_col(b, 3) as u64,
    ) && four_in_a_row(mover_mask_after(b, spec_win_col(b, 3) as u64)));
    assert(spec_win_col(b, 2) != 7 ==> 0 <= spec_win_col(b, 2) < 7 && spec_valid_move(
        b,
        spec_win_col(b, 2) as u64,
    ) && four_in_a_row(mover_mask_after(b, spec_win_col(b, 2) as u64)));
    assert(spec_win_col(b, 1) != 7 ==> 0 <= spec_win_col(b, 1) < 7 && spec_valid_move(
        b,
        spec_win_col(b, 1) as u64,
    ) && four_in_a_row(mover_mask_after(b, spec_win_col(b, 1) as u64)));
    assert(spec_win_col(b, 0) != 7 ==> 0 <= spec_win_col(b, 0) < 7 && spec_valid_move(
        b,
        spec_win_col(b, 0) as u64,
    ) && four_in_a_row(mover_mask_after(b, spec_win_col(b, 0) as u64)));
}

/// A board with fewer than 42 coins has at least one playable column.
proof fn lemma_some_column_free(b: BitBoard)
    requires
        b.well_formed(),
        b.num_moves < 42,
    ensures
        exists|c: u64| spec_valid_move(b, c),
{
    let m: u64 = b.total_mask;
    if col_height(m, 0) < 6 {
        assert(spec_valid_move(b, 0));
    } else if col_height(m, 1) < 6 {
        assert(spec_valid_move(b, 1));
    } else if col_height(m, 2) < 6 {
        assert(spec_valid_move(b, 2));
    } else if col_height(m, 3) < 6 {
        assert(spec_valid_move(b, 3));
    } else if col_height(m, 4) < 6 {
        assert(spec_valid_move(b, 4));
    } else if col_height(m, 5) < 6 {
        assert(spec_valid_move(b, 5));
    } else if col_height(m, 6) < 6 {
        assert(spec_valid_move(b, 6));
    } else {
        assert(count_coins(m) == 42);
        assert(false);
    }
}

/// The game-tree searcher: negamax with alpha-beta pruning over a shared
/// `BitBoard`, a fixed center-out move ordering, and a lossy transposition
/// cache consulted to tighten the pruning window.
pub struct AIGame {
    /// The fixed move ordering: center column first, then alternating
    /// outward, so that cutoffs are found early.
    column_order: [usize; 7],
    /// Remaining-depth budget handed to the search; `FULL_DEPTH` means the
    /// cap never bites and the game tree is searched exhaustively.
    depth: i64,
}

impl AIGame {
    /// The solver's invariant: the move ordering is exactly the center-out
    /// sequence and the depth budget is non-negative.
    pub closed spec fn wf(self) -> bool {
        self.column_order@ == seq![3usize, 2, 4, 1, 5, 0, 6] && 0 <= self.depth
    }

    /// The depth budget this solver hands to its searches.
    pub closed spec fn spec_depth(self) -> int {
        self.depth as int
    }

    /// A solver that searches the full game tree.
    pub fn new() -> (r: Self)
        ensures
            r.wf(),
            r.spec_depth() == FULL_DEPTH,
    {
        Self::with_depth(FULL_DEPTH)
    }

    /// A solver with a bounded depth budget; at the budget's end the search
    /// falls back to an optimistic move-count heuristic.
    pub fn with_depth(depth: i64) -> (r: Self)
        requires
            0 <= depth,
        ensures
            r.wf(),
            r.spec_depth() == depth,
    {
        let mut column_order: [usize; 7] = [0; 7];
        let mut i: usize = 0;
        while i < 7
            invariant
                i <= 7,
                forall|j: int|
                    0 <= j < i ==> column_order@[j] == seq![3usize, 2, 4, 1, 5, 0, 6][j],
            decreases 7 - i,
        {
            // Center-out ordering: column 3, then one step left, one right,
            // two left, two right, and so on outward.
            let step: usize = (i + 1) / 2;
            if i % 2 == 0 {
                column_order[i] = WIDTH / 2 + step;
            } else {
                column_order[i] = WIDTH / 2 - step;
            }
            i = i + 1;
        }
        proof {
            assert(column_order@ =~= seq![3usize, 2, 4, 1, 5, 0, 6]);
        }
        AIGame { column_order, depth }
    }

    /// Negamax over the shared board: explores every legal column within the
    /// `(alpha, beta)` window, mutating the board with `play_move` and
    /// restoring it with the matching `undo_move` on every path, so the board
    /// always comes back exactly as it was. The returned score and the final
    /// cache contents are exactly what the spec-level mirror `spec_negamax`
    /// computes from the inputs, so the search is a function of board, cache
    /// and window alone.
    pub fn negamax(
        &self,
        game: &mut BitBoard,
        trans_table: &mut TranspositionTable,
        alpha: i64,
        beta: i64,
        depth: i64,
    ) -> (score: i64)
        requires
            self.wf(),
            old(game).well_formed(),
            old(trans_table).well_formed(),
            values_ok(old(trans_table)@),
            -21 <= alpha <= 21,
            -21 <= beta <= 21,
            0 <= depth,
        ensures
            *final(game) == *old(game),
            final(trans_table).well_formed(),
            values_ok(final(trans_table)@),
            -21 <= score <= 21,
            ({
                let expected = spec_negamax(
                    *old(game),
                    old(trans_table)@,
                    alpha as int,
                    beta as int,
                    depth as int,
                );
                score == expected.0 && final(trans_table)@ == expected.1
            }),
            old(game).num_moves >= 40 ==> score == 0,
            old(game).num_moves < 40 && immediate_win(*old(game)) ==> score == (42 + 1 - old(
                game,
            ).num_moves) / 2,
            depth == 0 && old(game).num_moves < 40 && !immediate_win(*old(game)) && raised_alpha(
                alpha as int,
                old(game).num_moves as int,
            ) < capped_beta(
                beta as int,
                old(trans_table)@,
                spec_key(*old(game)) as u64,
                old(game).num_moves as int,
            ) ==> score == (42 + 1 - old(game).num_moves) / 2,
        decreases 42 - old(game).num_moves,
    {
        let ghost g0: BitBoard = *game;
        let ghost t0: Seq<(u64, u64)> = trans_table@;
        let ghost alpha0: int = alpha as int;
        let ghost beta0: int = beta as int;
        let ghost expected: (int, Seq<(u64, u64)>) = spec_negamax(
            g0,
            t0,
            alpha0,
            beta0,
            depth as int,
        );
        let n: usize = game.get_num_moves();

        // Terminal pruning: with at most two empty cells left, no unseen win
        // can still be forced.
        if n >= TOTAL_CELLS - 2 {
            return 0;
        }

        // An immediate win for the side to move scores highest: decided in
        // `(42 + 1 - n) / 2` total moves.
        let mut col: usize = 0;
        while col < 7
            invariant
                col <= 7,
                g0 == *old(game),
                t0 == old(trans_table)@,
                g0.well_formed(),
                g0.num_moves < 40,
                n == g0.num_moves,
                *game == g0,
                *trans_table == *old(trans_table),
                trans_table.well_formed(),
                values_ok(trans_table@),
                expected == spec_negamax(g0, t0, alpha as int, beta as int, depth as int),
                forall|c2: u64|
                    c2 < col ==> !(#[trigger] spec_valid_move(g0, c2) && four_in_a_row(
                        mover_mask_after(g0, c2),
                    )),
            decreases 7 - col,
        {
            if game.is_move_valid(col) {
                if game.is_winning_move(col) {
                    proof {
                        assert(immediate_win(g0));
                        assert(expected.0 == (42 + 1 - n) / 2 && expected.1 == t0);
                    }
                    return ((TOTAL_CELLS + 1 - n) / 2) as i64;
                }
            }
            col = col + 1;
        }
        proof {
            assert(!immediate_win(g0));
        }

        let mut alpha_w: i64 = alpha;
        let mut beta_w: i64 = beta;

        // The opponent cannot lose faster than the remaining moves allow:
        // raise the window's lower edge to that provable floor.
        let ghost a1: int = raised_alpha(alpha0, n as int);
        let min_score: i64 = -(((TOTAL_CELLS - 2 - n) / 2) as i64);
        if alpha_w < min_score {
            alpha_w = min_score;
            if alpha_w >= beta_w {
                proof {
                    assert(expected.0 == a1 && expected.1 == t0);
                }
                return alpha_w;
            }
        }
        proof {
            assert(alpha_w as int == a1);
        }

        // The side to move cannot win faster than the remaining moves allow,
        // and a cached bound for this fingerprint may cap it further.
        let mut max_score: i64 = ((TOTAL_CELLS - 1 - n) / 2) as i64;
        let key: u64 = game.get_unique_key();
        proof {
            assert(spec_key(g0) as u64 == key);
        }
        let ghost b1: int = capped_beta(beta0, t0, key, n as int);
        let val: u64 = trans_table.get(key);
        if val != 0 {
            max_score = unpack_score(val);
        }
        if beta_w > max_score {
            beta_w = max_score;
            if alpha_w >= beta_w {
                proof {
                    assert(expected.0 == b1 && expected.1 == t0);
                }
                return beta_w;
            }
        }
        proof {
            assert(beta_w as int == b1);
        }

        // Out of depth budget: fall back to the optimistic heuristic.
        if depth == 0 {
            proof {
                assert(expected.0 == (42 + 1 - n) / 2 && expected.1 == t0);
            }
            return ((TOTAL_CELLS + 1 - n) / 2) as i64;
        }
        proof {
            assert(expected == spec_search_children(g0, t0, a1, b1, depth as int, 0));
        }

        let mut i: usize = 0;
        while i < 7
            invariant
                self.wf(),
                i <= 7,
                g0 == *old(game),
                t0 == old(trans_table)@,
                g0.well_formed(),
                g0.num_moves < 40,
                n == g0.num_moves,
                *game == g0,
                trans_table.well_formed(),
                values_ok(trans_table@),
                -21 <= alpha_w <= 21,
                -21 <= beta_w <= 21,
                beta_w as int == b1,
                1 <= depth,
                !immediate_win(g0),
                expected == spec_negamax(g0, t0, alpha as int, beta as int, depth as int),
                expected == spec_search_children(
                    g0,
                    trans_table@,
                    alpha_w as int,
                    b1,
                    depth as int,
                    i as int,
                ),
            decreases 7 - i,
        {
            let chosen_col: usize = self.column_order[i];
            proof {
                lemma_order_entry(*self, i as int);
            }
            if game.is_move_valid(chosen_col) {
                game.play_move(chosen_col);
                let score: i64 = -self.negamax(game, trans_table, -beta_w, -alpha_w, depth - 1);
                let _ = game.undo_move(chosen_col);
                proof {
                    lemma_play_total(g0.total_mask, chosen_col as u64);
                    lemma_play_undo_roundtrip(g0, chosen_col as u64);
                }
                if score >= beta_w {
                    proof {
                        assert(expected == (score as int, trans_table@));
                    }
                    return score;
                }
                if score > alpha_w {
                    alpha_w = score;
                }
            }
            i = i + 1;
        }

        // Every child explored without a cutoff: store the bound discovered
        // for this position, then report it.
        let key2: u64 = game.get_unique_key();
        proof {
            assert(spec_key(g0) as u64 == key2);
        }
        trans_table.insert(key2, pack_score(alpha_w));
        proof {
            assert(expected == (alpha_w as int, trans_table@));
        }
        alpha_w
    }

    /// Picks and plays the engine's move: the first winning column of the
    /// search order at once and with no search at all, otherwise the column
    /// `spec_best_move` selects — the best of the children's returned
    /// negamax scores, ties going to the column searched earlier. Fails only
    /// when the board is already full.
    pub fn make_move(
        &self,
        game: &mut BitBoard,
        trans_table: &mut TranspositionTable,
    ) -> (r: Result<GameState, GameError>)
        requires
            self.wf(),
            old(game).well_formed(),
            old(trans_table).well_formed(),
            values_ok(old(trans_table)@),
        ensures
            final(game).well_formed(),
            final(trans_table).well_formed(),
            values_ok(final(trans_table)@),
            old(game).num_moves == 42 ==> r == Err::<GameState, GameError>(GameError::NoLegalMove)
                && *final(game) == *old(game) && final(trans_table)@ == old(trans_table)@,
            old(game).num_moves < 42 ==> (exists|c: u64|
                #[trigger] spec_valid_move(*old(game), c) && *final(game) == spec_play(
                    *old(game),
                    c,
                ) && r == Ok::<GameState, GameError>(spec_state_after(*old(game), c))),
            old(game).num_moves < 42 && immediate_win(*old(game)) ==> ({
                let c = spec_win_col(*old(game), 0);
                0 <= c < 7 && spec_valid_move(*old(game), c as u64) && *final(game) == spec_play(
                    *old(game),
                    c as u64,
                ) && r == Ok::<GameState, GameError>(spec_state_after(*old(game), c as u64))
                    && final(trans_table)@ == old(trans_table)@
            }),
            old(game).num_moves < 42 && !immediate_win(*old(game)) ==> ({
                let bm = spec_best_move(
                    *old(game),
                    old(trans_table)@,
                    self.spec_depth(),
                    0,
                    7,
                    -22,
                );
                0 <= bm.0 < 7 && spec_valid_move(*old(game), bm.0 as u64) && *final(game)
                    == spec_play(*old(game), bm.0 as u64) && r == Ok::<GameState, GameError>(
                    spec_state_after(*old(game), bm.0 as u64),
                ) && final(trans_table)@ == bm.2
            }),
            immediate_win(*old(game)) ==> r == Ok::<GameState, GameError>(
                if old(game).red_turn {
                    GameState::Win
                } else {
                    GameState::Loss
                },
            ),
    {
        let ghost g0: BitBoard = *game;
        let ghost t0: Seq<(u64, u64)> = trans_table@;
        let n: usize = game.get_num_moves();
        if n >= TOTAL_CELLS {
            proof {
                assert forall|c: u64| !spec_valid_move(g0, c) by {
                    if spec_valid_move(g0, c) {
                        assert(count_coins(g0.total_mask) < 42);
                    }
                }
            }
            return Err(GameError::NoLegalMove);
        }

        // Immediate-win short-circuit: the first winning column of the
        // search order is played at once, before any recursive search.
        let mut i: usize = 0;
        while i < 7
            invariant
                i <= 7,
                self.wf(),
                g0 == *old(game),
                t0 == old(trans_table)@,
                g0.well_formed(),
                g0.num_moves < 42,
                *game == g0,
                *trans_table == *old(trans_table),
                trans_table.well_formed(),
                values_ok(trans_table@),
                spec_win_col(g0, i as int) == spec_win_col(g0, 0),
                forall|j: int|
                    0 <= j < i ==> !(spec_valid_move(
                        g0,
                        (#[trigger] self.column_order@[j]) as u64,
                    ) && four_in_a_row(mover_mask_after(g0, (self.column_order@[j]) as u64))),
            decreases 7 - i,
        {
            let chosen_col: usize = self.column_order[i];
            proof {
                lemma_order_entry(*self, i as int);
            }
            if game.is_move_valid(chosen_col) {
                if game.is_winning_move(chosen_col) {
                    proof {
                        assert(immediate_win(g0));
                        assert(spec_win_col(g0, i as int) == chosen_col as int);
                    }
                    let res = game.play_turn(chosen_col);
                    return res;
                }
            }
            i = i + 1;
        }
        proof {
            if immediate_win(g0) {
                let w: u64 = choose|c: u64|
                    #[trigger] spec_valid_move(g0, c) && four_in_a_row(mover_mask_after(g0, c));
                assert(w < 7);
                assert(self.column_order@[0] == 3usize);
                assert(self.column_order@[1] == 2usize);
                assert(self.column_order@[2] == 4usize);
                assert(self.column_order@[3] == 1usize);
                assert(self.column_order@[4] == 5usize);
                assert(self.column_order@[5] == 0usize);
                assert(self.column_order@[6] == 6usize);
                assert(false);
            }
        }

        // Full-window search of every legal column, keeping the best score:
        // the exec loop follows `spec_best_move` step for step, threading the
        // cache from child to child.
        let ghost d: int = self.depth as int;
        let ghost exp_bm: (int, int, Seq<(u64, u64)>) = spec_best_move(g0, t0, d, 0, 7, -22);
        let init: i64 = ((TOTAL_CELLS + 1 - n) / 2) as i64;
        let mut best_move: usize = 0;
        let mut best_score: i64 = -22;
        let mut i: usize = 0;
        while i < 7
            invariant
                self.wf(),
                i <= 7,
                g0 == *old(game),
                t0 == old(trans_table)@,
                g0.well_formed(),
                g0.num_moves < 42,
                *game == g0,
                trans_table.well_formed(),
                values_ok(trans_table@),
                d == self.spec_depth(),
                exp_bm == spec_best_move(g0, t0, d, 0, 7, -22),
                init as int == (42 + 1 - g0.num_moves) / 2,
                1 <= init <= 21,
                -22 <= best_score <= 21,
                best_score > -22 ==> best_move < 7 && spec_valid_move(g0, best_move as u64),
                best_score == -22 ==> forall|j: int|
                    0 <= j < i ==> !spec_valid_move(
                        g0,
                        (#[trigger] self.column_order@[j]) as u64,
                    ),
                exp_bm == spec_best_move(
                    g0,
                    trans_table@,
                    d,
                    i as int,
                    (if best_score == -22 {
                        7int
                    } else {
                        best_move as int
                    }),
                    best_score as int,
                ),
            decreases 7 - i,
        {
            let chosen_col: usize = self.column_order[i];
            proof {
                lemma_order_entry(*self, i as int);
            }
            if game.is_move_valid(chosen_col) {
                game.play_move(chosen_col);
                let score: i64 = -self.negamax(game, trans_table, -init, init, self.depth);
                let _ = game.undo_move(chosen_col);
                proof {
                    lemma_play_total(g0.total_mask, chosen_col as u64);
                    lemma_play_undo_roundtrip(g0, chosen_col as u64);
                }
                if score > best_score {
                    best_move = chosen_col;
                    best_score = score;
                }
            }
            i = i + 1;
        }
        proof {
            lemma_some_column_free(g0);
            if best_score == -22 {
                let c: u64 = choose|c: u64| spec_valid_move(g0, c);
                assert(!spec_valid_move(g0, self.column_order@[0] as u64));
                assert(!spec_valid_move(g0, self.column_order@[1] as u64));
                assert(!spec_valid_move(g0, self.column_order@[2] as u64));
                assert(!spec_valid_move(g0, self.column_order@[3] as u64));
                assert(!spec_valid_move(g0, self.column_order@[4] as u64));
                assert(!spec_valid_move(g0, self.column_order@[5] as u64));
                assert(!spec_valid_move(g0, self.column_order@[6] as u64));
                assert(false);
            }
            assert(exp_bm == (best_move as int, best_score as int, trans_table@));
        }
        let res = game.play_turn(best_move);
        res
    }
}

} // verus!
