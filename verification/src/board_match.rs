use vstd::prelude::*;

use crate::array_board::{
    arr_wins_through, cell_at, covered, d_window_at, h_window_at, mover_coin, u_window_at,
    v_window_at, win_window_d, win_window_h, win_window_u, win_window_v, ArrayBoard,
};
use crate::bit_board::{
    col_height, mover_mask, mover_mask_after, play_bit, spec_cell, spec_valid_move, BitBoard,
};
use crate::bit_proofs::{lemma_bit_diff, lemma_bit_or_play, lemma_submask, lemma_yellow_after};
use crate::wins::{dline, four_in_a_row, hline, mask_bit, uline, vline};

verus! {

/// The two board representations describe the same position: same turn,
/// same move count, the same column heights, and the same coin on every
/// cell.
pub open spec fn boards_match(bb: BitBoard, ab: ArrayBoard) -> bool {
    bb.red_turn == ab.red_turn && bb.num_moves == ab.num_moves && (forall|c: u64|
        c < 7 ==> #[trigger] col_height(bb.total_mask, c) == ab.heights@[c as int]) && (forall|
        c: u64,
        r: u64,
    |
        c < 7 && r < 6 ==> #[trigger] spec_cell(bb, c, r) == cell_at(ab, c as int, r as int))
}

/// On matching boards, a bit of the side-to-move mask marks exactly a grid
/// cell that holds the mover's coin.
proof fn lemma_cell_mover(bb: BitBoard, ab: ArrayBoard, x: u64, y: u64)
    requires
        bb.well_formed(),
        boards_match(bb, ab),
        x < 7,
        y < 6,
    ensures
        mask_bit(mover_mask(bb), x, y) <==> (cell_at(ab, x as int, y as int) == mover_coin(ab)),
{
    assert(spec_cell(bb, x, y) == cell_at(ab, x as int, y as int));
    if !bb.red_turn {
        lemma_bit_diff(bb.player_mask, bb.total_mask);
        lemma_submask(bb.player_mask, bb.total_mask);
    }
}

/// The mask a win test inspects after a play is the side-to-move mask with
/// the landing cell's bit added.
proof fn lemma_mover_after_form(bb: BitBoard, c: u64)
    requires
        bb.well_formed(),
        spec_valid_move(bb, c),
    ensures
        mover_mask_after(bb, c) == mover_mask(bb) | play_bit(bb.total_mask, c),
        mover_mask(bb) & bb.total_mask == mover_mask(bb),
{
    lemma_submask(bb.player_mask, bb.total_mask);
    if !bb.red_turn {
        lemma_yellow_after(bb.player_mask, bb.total_mask, c);
    }
}

/// A covered window cell is set in the after-move mask: the landing cell by
/// the new bit, any other by the mover's existing coin.
proof fn lemma_window_cell_to_bit(bb: BitBoard, ab: ArrayBoard, c: u64, x: u64, y: u64)
    requires
        bb.well_formed(),
        boards_match(bb, ab),
        spec_valid_move(bb, c),
        x < 7,
        y < 6,
        covered(ab, c as int, col_height(bb.total_mask, c) as int, x as int, y as int),
    ensures
        mask_bit(mover_mask_after(bb, c), x, y),
{
    lemma_mover_after_form(bb, c);
    lemma_bit_or_play(mover_mask(bb), bb.total_mask, c);
    if !(x == c && y == col_height(bb.total_mask, c)) {
        lemma_cell_mover(bb, ab, x, y);
    }
}

/// Win-detection correctness across representations: on matching boards
/// where the side to move holds no four in a row yet, the bit board's
/// shift-based winning-move test and the brute-force cell-grid reference
/// agree on every playable column.
#[verifier::rlimit(100)]
pub proof fn lemma_win_detection_agrees(bb: BitBoard, ab: ArrayBoard, c: u64)
    requires
        bb.well_formed(),
        ab.well_formed(),
        boards_match(bb, ab),
        spec_valid_move(bb, c),
        !four_in_a_row(mover_mask(bb)),
    ensures
        four_in_a_row(mover_mask_after(bb, c)) <==> arr_wins_through(ab, c as int),
{
    let m: u64 = bb.total_mask;
    let h: u64 = col_height(m, c);
    let p: u64 = mover_mask(bb);
    let p2: u64 = mover_mask_after(bb, c);
    let c0: int = c as int;
    let r0: int = ab.heights@[c0] as int;
    assert(r0 == h);
    lemma_mover_after_form(bb, c);
    lemma_bit_or_play(p, m, c);

    if four_in_a_row(p2) {
        if exists|cs: u64, rs: u64| cs < 4 && rs < 6 && #[trigger] hline(p2, cs, rs) {
            let (cs, rs): (u64, u64) = choose|cs: u64, rs: u64|
                cs < 4 && rs < 6 && #[trigger] hline(p2, cs, rs);
            if rs == h && cs <= c <= cs + 3 {
                assert forall|k: int| 0 <= k < 4 implies #[trigger] covered(
                    ab,
                    c0,
                    r0,
                    cs as int + k,
                    r0,
                ) by {
                    let xx: u64 = (cs + k) as u64;
                    assert(mask_bit(p2, xx, rs));
                    if !(xx == c && rs == h) {
                        lemma_cell_mover(bb, ab, xx, rs);
                    }
                }
                assert(h_window_at(ab, c0, r0, cs as int));
                assert(win_window_h(ab, c0, r0));
            } else {
                assert(hline(p, cs, rs));
                assert(false);
            }
        } else if exists|cs: u64, rs: u64| cs < 7 && rs < 3 && #[trigger] vline(p2, cs, rs) {
            let (cs, rs): (u64, u64) = choose|cs: u64, rs: u64|
                cs < 7 && rs < 3 && #[trigger] vline(p2, cs, rs);
            if cs == c && rs <= h <= rs + 3 {
                assert forall|k: int| 0 <= k < 4 implies #[trigger] covered(
                    ab,
                    c0,
                    r0,
                    c0,
                    rs as int + k,
                ) by {
                    let yy: u64 = (rs + k) as u64;
                    assert(mask_bit(p2, cs, yy));
                    if !(cs == c && yy == h) {
                        lemma_cell_mover(bb, ab, cs, yy);
                    }
                }
                assert(v_window_at(ab, c0, r0, rs as int));
                assert(win_window_v(ab, c0, r0));
            } else {
                assert(vline(p, cs, rs));
                assert(false);
            }
        } else if exists|cs: u64, rs: u64| cs < 4 && rs < 3 && #[trigger] uline(p2, cs, rs) {
            let (cs, rs): (u64, u64) = choose|cs: u64, rs: u64|
                cs < 4 && rs < 3 && #[trigger] uline(p2, cs, rs);
            if cs <= c <= cs + 3 && rs + (c - cs) == h {
                assert forall|k: int| 0 <= k < 4 implies #[trigger] covered(
                    ab,
                    c0,
                    r0,
                    cs as int + k,
                    r0 - c0 + cs as int + k,
                ) by {
                    let xx: u64 = (cs + k) as u64;
                    let yy: u64 = (rs + k) as u64;
                    assert(r0 - c0 + cs as int + k == yy);
                    assert(mask_bit(p2, xx, yy));
                    if !(xx == c && yy == h) {
                        lemma_cell_mover(bb, ab, xx, yy);
                    }
                }
                assert(u_window_at(ab, c0, r0, cs as int));
                assert(win_window_u(ab, c0, r0));
            } else {
                assert(uline(p, cs, rs));
                assert(false);
            }
        } else {
            let (cs, rs): (u64, u64) = choose|cs: u64, rs: u64|
                cs < 4 && 3 <= rs < 6 && #[trigger] dline(p2, cs, rs);
            if cs <= c <= cs + 3 && rs == h + (c - cs) {
                assert forall|k: int| 0 <= k < 4 implies #[trigger] covered(
                    ab,
                    c0,
                    r0,
                    cs as int + k,
                    r0 + c0 - cs as int - k,
                ) by {
                    let xx: u64 = (cs + k) as u64;
                    let yy: u64 = (rs - k) as u64;
                    assert(r0 + c0 - cs as int - k == yy);
                    assert(mask_bit(p2, xx, yy));
                    if !(xx == c && yy == h) {
                        lemma_cell_mover(bb, ab, xx, yy);
                    }
                }
                assert(d_window_at(ab, c0, r0, cs as int));
                assert(win_window_d(ab, c0, r0));
            } else {
                assert(dline(p, cs, rs));
                assert(false);
            }
        }
        assert(arr_wins_through(ab, c0));
    }

    if arr_wins_through(ab, c0) {
        if win_window_h(ab, c0, r0) {
            let s: int = choose|s: int|
                0 <= s && s + 3 < 7 && s <= c0 <= s + 3 && #[trigger] h_window_at(ab, c0, r0, s);
            let su: u64 = s as u64;
            assert(covered(ab, c0, r0, s + 0, r0));
            assert(covered(ab, c0, r0, s + 1, r0));
            assert(covered(ab, c0, r0, s + 2, r0));
            assert(covered(ab, c0, r0, s + 3, r0));
            lemma_window_cell_to_bit(bb, ab, c, su, h);
            lemma_window_cell_to_bit(bb, ab, c, (su + 1) as u64, h);
            lemma_window_cell_to_bit(bb, ab, c, (su + 2) as u64, h);
            lemma_window_cell_to_bit(bb, ab, c, (su + 3) as u64, h);
            assert(hline(p2, su, h));
            assert(four_in_a_row(p2));
        } else if win_window_v(ab, c0, r0) {
            let s: int = choose|s: int|
                0 <= s && s + 3 < 6 && s <= r0 <= s + 3 && #[trigger] v_window_at(ab, c0, r0, s);
            let su: u64 = s as u64;
            assert(covered(ab, c0, r0, c0, s + 0));
            assert(covered(ab, c0, r0, c0, s + 1));
            assert(covered(ab, c0, r0, c0, s + 2));
            assert(covered(ab, c0, r0, c0, s + 3));
            lemma_window_cell_to_bit(bb, ab, c, c, su);
            lemma_window_cell_to_bit(bb, ab, c, c, (su + 1) as u64);
            lemma_window_cell_to_bit(bb, ab, c, c, (su + 2) as u64);
            lemma_window_cell_to_bit(bb, ab, c, c, (su + 3) as u64);
            assert(vline(p2, c, su));
            assert(four_in_a_row(p2));
        } else if win_window_u(ab, c0, r0) {
            let s: int = choose|s: int|
                0 <= s && s + 3 < 7 && s <= c0 <= s + 3 && 0 <= r0 - c0 + s && r0 - c0 + s + 3 < 6
                    && #[trigger] u_window_at(ab, c0, r0, s);
            let su: u64 = s as u64;
            let rs: u64 = (r0 - c0 + s) as u64;
            assert(covered(ab, c0, r0, s + 0, r0 - c0 + s + 0));
            assert(covered(ab, c0, r0, s + 1, r0 - c0 + s + 1));
            assert(covered(ab, c0, r0, s + 2, r0 - c0 + s + 2));
            assert(covered(ab, c0, r0, s + 3, r0 - c0 + s + 3));
            lemma_window_cell_to_bit(bb, ab, c, su, rs);
            lemma_window_cell_to_bit(bb, ab, c, (su + 1) as u64, (rs + 1) as u64);
            lemma_window_cell_to_bit(bb, ab, c, (su + 2) as u64, (rs + 2) as u64);
            lemma_window_cell_to_bit(bb, ab, c, (su + 3) as u64, (rs + 3) as u64);
            assert(uline(p2, su, rs));
            assert(four_in_a_row(p2));
        } else {
            let s: int = choose|s: int|
                0 <= s && s + 3 < 7 && s <= c0 <= s + 3 && 0 <= r0 + c0 - s - 3 && r0 + c0 - s < 6
                    && #[trigger] d_window_at(ab, c0, r0, s);
            let su: u64 = s as u64;
            let rs: u64 = (r0 + c0 - s) as u64;
            assert(covered(ab, c0, r0, s + 0, r0 + c0 - s - 0));
            assert(covered(ab, c0, r0, s + 1, r0 + c0 - s - 1));
            assert(covered(ab, c0, r0, s + 2, r0 + c0 - s - 2));
            assert(covered(ab, c0, r0, s + 3, r0 + c0 - s - 3));
            lemma_window_cell_to_bit(bb, ab, c, su, rs);
            lemma_window_cell_to_bit(bb, ab, c, (su + 1) as u64, (rs - 1) as u64);
            lemma_window_cell_to_bit(bb, ab, c, (su + 2) as u64, (rs - 2) as u64);
            lemma_window_cell_to_bit(bb, ab, c, (su + 3) as u64, (rs - 3) as u64);
            assert(dline(p2, su, rs));
            assert(four_in_a_row(p2));
        }
    }
}

} // verus!
