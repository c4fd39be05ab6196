use vstd::prelude::*;

use crate::bit_board::{GUARD_MASK, MASK_LIMIT};

verus! {

/// Cell (`c`, `r`) — column `c`, row `r` counted from the bottom — is set in
/// the mask `p`.
pub open spec fn mask_bit(p: u64, c: u64, r: u64) -> bool {
    p & (1u64 << ((7 * c + r) as u64)) != 0
}

/// Four cells in a row to the right, starting at (`c`, `r`).
pub open spec fn hline(p: u64, c: u64, r: u64) -> bool {
    mask_bit(p, c, r) && mask_bit(p, (c + 1) as u64, r) && mask_bit(p, (c + 2) as u64, r)
        && mask_bit(p, (c + 3) as u64, r)
}

/// Four cells in a column upward, starting at (`c`, `r`).
pub open spec fn vline(p: u64, c: u64, r: u64) -> bool {
    mask_bit(p, c, r) && mask_bit(p, c, (r + 1) as u64) && mask_bit(p, c, (r + 2) as u64)
        && mask_bit(p, c, (r + 3) as u64)
}

/// Four cells on a rising diagonal, starting at (`c`, `r`).
pub open spec fn uline(p: u64, c: u64, r: u64) -> bool {
    mask_bit(p, c, r) && mask_bit(p, (c + 1) as u64, (r + 1) as u64)
        && mask_bit(p, (c + 2) as u64, (r + 2) as u64) && mask_bit(p, (c + 3) as u64, (r + 3) as u64)
}

/// Four cells on a falling diagonal, starting at (`c`, `r`).
pub open spec fn dline(p: u64, c: u64, r: u64) -> bool {
    mask_bit(p, c, r) && mask_bit(p, (c + 1) as u64, (r - 1) as u64)
        && mask_bit(p, (c + 2) as u64, (r - 2) as u64) && mask_bit(p, (c + 3) as u64, (r - 3) as u64)
}

/// The mask holds four in a row somewhere on the board, in any of the four
/// directions. This is the cell-grid meaning of a win, stated without any
/// bit trick.
pub open spec fn four_in_a_row(p: u64) -> bool {
    (exists|c: u64, r: u64| c < 4 && r < 6 && #[trigger] hline(p, c, r)) || (exists|c: u64, r: u64|
        c < 7 && r < 3 && #[trigger] vline(p, c, r)) || (exists|c: u64, r: u64|
        c < 4 && r < 3 && #[trigger] uline(p, c, r)) || (exists|c: u64, r: u64|
        c < 4 && 3 <= r < 6 && #[trigger] dline(p, c, r))
}

/// The shift-and-AND test for four consecutive set bits at stride `s`: the
/// double AND leaves a bit exactly where four bits `s` apart are all set.
pub open spec fn shift_hit(p: u64, s: u64) -> bool {
    let n: u64 = p & (p >> s);
    n & (n >> ((2 * s) as u64)) != 0
}

/// A horizontal line makes the stride-7 shift test fire.
proof fn lemma_hline_hits(p: u64, c: u64, r: u64)
    by (bit_vector)
    requires
        c < 4,
        r < 6,
        hline(p, c, r),
    ensures
        shift_hit(p, 7),
{
}

/// A vertical line makes the stride-1 shift test fire.
proof fn lemma_vline_hits(p: u64, c: u64, r: u64)
    by (bit_vector)
    requires
        c < 7,
        r < 3,
        vline(p, c, r),
    ensures
        shift_hit(p, 1),
{
}

/// A rising diagonal makes the stride-8 shift test fire.
proof fn lemma_uline_hits(p: u64, c: u64, r: u64)
    by (bit_vector)
    requires
        c < 4,
        r < 3,
        uline(p, c, r),
    ensures
        shift_hit(p, 8),
{
}

/// A falling diagonal makes the stride-6 shift test fire.
proof fn lemma_dline_hits(p: u64, c: u64, r: u64)
    by (bit_vector)
    requires
        c < 4,
        3 <= r < 6,
        dline(p, c, r),
    ensures
        shift_hit(p, 6),
{
}

/// On a 49-bit mask with clear guard bits, a stride-7 hit can only come from
/// one of the 24 horizontal windows of the board.
proof fn lemma_h_shift_sound(p: u64)
    by (bit_vector)
    requires
        p < 0x2000000000000,
        p & 0x1020408102040 == 0,
        shift_hit(p, 7),
    ensures
        hline(p, 0, 0) || hline(p, 0, 1) || hline(p, 0, 2) || hline(p, 0, 3) || hline(p, 0, 4) || hline(p, 0, 5) || hline(p, 1, 0) || hline(p, 1, 1) || hline(p, 1, 2) || hline(p, 1, 3) || hline(p, 1, 4) || hline(p, 1, 5) || hline(p, 2, 0) || hline(p, 2, 1) || hline(p, 2, 2) || hline(p, 2, 3) || hline(p, 2, 4) || hline(p, 2, 5) || hline(p, 3, 0) || hline(p, 3, 1) || hline(p, 3, 2) || hline(p, 3, 3) || hline(p, 3, 4) || hline(p, 3, 5),
{
}

/// On a 49-bit mask with clear guard bits, a stride-1 hit can only come from
/// one of the 21 vertical windows of the board.
proof fn lemma_v_shift_sound(p: u64)
    by (bit_vector)
    requires
        p < 0x2000000000000,
        p & 0x1020408102040 == 0,
        shift_hit(p, 1),
    ensures
        vline(p, 0, 0) || vline(p, 0, 1) || vline(p, 0, 2) || vline(p, 1, 0) || vline(p, 1, 1) || vline(p, 1, 2) || vline(p, 2, 0) || vline(p, 2, 1) || vline(p, 2, 2) || vline(p, 3, 0) || vline(p, 3, 1) || vline(p, 3, 2) || vline(p, 4, 0) || vline(p, 4, 1) || vline(p, 4, 2) || vline(p, 5, 0) || vline(p, 5, 1) || vline(p, 5, 2) || vline(p, 6, 0) || vline(p, 6, 1) || vline(p, 6, 2),
{
}

/// On a 49-bit mask with clear guard bits, a stride-8 hit can only come from
/// one of the 12 rising-diagonal windows of the board.
proof fn lemma_u_shift_sound(p: u64)
    by (bit_vector)
    requires
        p < 0x2000000000000,
        p & 0x1020408102040 == 0,
        shift_hit(p, 8),
    ensures
        uline(p, 0, 0) || uline(p, 0, 1) || uline(p, 0, 2) || uline(p, 1, 0) || uline(p, 1, 1) || uline(p, 1, 2) || uline(p, 2, 0) || uline(p, 2, 1) || uline(p, 2, 2) || uline(p, 3, 0) || uline(p, 3, 1) || uline(p, 3, 2),
{
}

/// On a 49-bit mask with clear guard bits, a stride-6 hit can only come from
/// one of the 12 falling-diagonal windows of the board.
proof fn lemma_d_shift_sound(p: u64)
    by (bit_vector)
    requires
        p < 0x2000000000000,
        p & 0x1020408102040 == 0,
        shift_hit(p, 6),
    ensures
        dline(p, 0, 3) || dline(p, 0, 4) || dline(p, 0, 5) || dline(p, 1, 3) || dline(p, 1, 4) || dline(p, 1, 5) || dline(p, 2, 3) || dline(p, 2, 4) || dline(p, 2, 5) || dline(p, 3, 3) || dline(p, 3, 4) || dline(p, 3, 5),
{
}

/// The four shift-and-AND tests taken together detect exactly the positions
/// that hold four in a row on the cell grid: the bit trick agrees with the
/// brute-force cell meaning of a win on every well-shaped mask.
pub proof fn lemma_win_check_equiv(p: u64)
    requires
        p < MASK_LIMIT,
        p & GUARD_MASK == 0,
    ensures
        (shift_hit(p, 7) || shift_hit(p, 1) || shift_hit(p, 6) || shift_hit(p, 8))
            <==> four_in_a_row(p),
{
    if shift_hit(p, 7) {
        lemma_h_shift_sound(p);
    }
    if shift_hit(p, 1) {
        lemma_v_shift_sound(p);
    }
    if shift_hit(p, 6) {
        lemma_d_shift_sound(p);
    }
    if shift_hit(p, 8) {
        lemma_u_shift_sound(p);
    }
    if four_in_a_row(p) {
        if exists|c: u64, r: u64| c < 4 && r < 6 && #[trigger] hline(p, c, r) {
            let (c, r): (u64, u64) = choose|c: u64, r: u64| c < 4 && r < 6 && #[trigger] hline(p, c, r);
            lemma_hline_hits(p, c, r);
        } else if exists|c: u64, r: u64| c < 7 && r < 3 && #[trigger] vline(p, c, r) {
            let (c, r): (u64, u64) = choose|c: u64, r: u64| c < 7 && r < 3 && #[trigger] vline(p, c, r);
            lemma_vline_hits(p, c, r);
        } else if exists|c: u64, r: u64| c < 4 && r < 3 && #[trigger] uline(p, c, r) {
            let (c, r): (u64, u64) = choose|c: u64, r: u64| c < 4 && r < 3 && #[trigger] uline(p, c, r);
            lemma_uline_hits(p, c, r);
        } else {
            let (c, r): (u64, u64) = choose|c: u64, r: u64|
                c < 4 && 3 <= r < 6 && #[trigger] dline(p, c, r);
            lemma_dline_hits(p, c, r);
        }
    }
}

} // verus!
