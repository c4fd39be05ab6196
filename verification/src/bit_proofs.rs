use vstd::prelude::*;

use crate::bit_board::{
    BitBoard, board_shape, col_group, col_height, col_ok, count_coins, play_bit,
    spec_bottom_col, spec_play, spec_undo, spec_valid_move, top_bit,
};
use crate::wins::mask_bit;

verus! {

/// The empty mask is well shaped and holds no coin.
pub proof fn lemma_zero_board()
    by (bit_vector)
    ensures
        board_shape(0),
        count_coins(0) == 0,
        0u64 & 0u64 == 0u64,
{
}

/// Reads a contiguous column group as a height: the group is `2^h - 1`, the
/// column is playable exactly when its top bit is clear, and it is non-empty
/// exactly when its bottom bit is set.
pub proof fn lemma_group_form(m: u64, c: u64)
    by (bit_vector)
    requires
        c < 7,
        col_ok(m, c),
    ensures
        col_group(m, c) == (1u64 << col_height(m, c)) - 1,
        col_height(m, c) <= 6,
        (m & spec_bottom_col(c) != 0) <==> col_height(m, c) >= 1,
        (m & (0x20u64 << ((7 * c) as u64)) == 0) <==> col_height(m, c) < 6,
{
}

/// The gravity-carry arithmetic of a play: adding the column's bottom bit
/// carries up through the stack, so OR-ing the sum back in sets exactly the
/// lowest free cell of the column and leaves every other column untouched.
pub proof fn lemma_play_total(m: u64, c: u64)
    by (bit_vector)
    requires
        board_shape(m),
        c < 7,
        col_height(m, c) < 6,
    ensures
        m + spec_bottom_col(c) < 0x4000000000000,
        m | ((m + spec_bottom_col(c)) as u64) == m | play_bit(m, c),
        m & play_bit(m, c) == 0,
        board_shape(m | play_bit(m, c)),
        col_height(m | play_bit(m, c), c) == col_height(m, c) + 1,
        (m | play_bit(m, c)) ^ play_bit(m, c) == m,
        forall|c2: u64|
            c2 < 7 && c2 != c ==> col_height(m | play_bit(m, c), c2) == col_height(m, c2),
{
}

/// The carry arithmetic of an undo: the height mask marks the cell just
/// above every stack, so the AND isolates the played column's top coin and
/// the shifted XOR clears exactly that coin.
pub proof fn lemma_undo_total(m: u64, c: u64)
    by (bit_vector)
    requires
        board_shape(m),
        c < 7,
        col_height(m, c) >= 1,
    ensures
        m + spec_bottom_col(c) < 0x4000000000000,
        m + 0x40810204081 < 0x4000000000000,
        m ^ ((((m + spec_bottom_col(c)) as u64) & ((m + 0x40810204081) as u64)) >> 1) == m ^ top_bit(m, c),
        top_bit(m, c) & m == top_bit(m, c),
        board_shape(m ^ top_bit(m, c)),
        col_height(m ^ top_bit(m, c), c) == col_height(m, c) - 1,
        forall|c2: u64|
            c2 < 7 && c2 != c ==> col_height(m ^ top_bit(m, c), c2) == col_height(m, c2),
{
}

/// Mask bookkeeping of a play: with red's coins a subset of the board and a
/// fresh disjoint bit, the XOR dance of `play_move` adds exactly that bit to
/// the mover's mask, and subsets are preserved.
pub proof fn lemma_player_play(p: u64, m: u64, b: u64)
    by (bit_vector)
    requires
        p & m == p,
        m & b == 0,
    ensures
        (p ^ m) ^ (m | b) == p | b,
        (p | b) & (m | b) == p | b,
        p & (m | b) == p,
        (p | b) ^ b == p,
        (p ^ m) & m == p ^ m,
{
}

/// Mask bookkeeping of an undo: removing a bit from the board and re-deriving
/// the mover's mask through the XOR dance removes exactly that bit.
pub proof fn lemma_player_undo(p: u64, m: u64, t: u64)
    by (bit_vector)
    ensures
        (p ^ m) ^ (m ^ t) == p ^ t,
{
}

/// A submask of a shaped board mask stays inside the 49 board bits and keeps
/// every guard bit clear; so does its complement within the board.
pub proof fn lemma_submask(p: u64, m: u64)
    by (bit_vector)
    requires
        p & m == p,
        board_shape(m),
    ensures
        p < 0x2000000000000,
        p & 0x1020408102040 == 0,
        m & 0x1020408102040 == 0,
        p ^ m < 0x2000000000000,
        (p ^ m) & m == p ^ m,
        (p ^ m) & 0x1020408102040 == 0,
        m ^ p == p ^ m,
{
}

/// Adding the played bit to a submask sets exactly the cell the coin lands
/// on and leaves every other cell as it was.
pub proof fn lemma_bit_or_play(p: u64, m: u64, c: u64)
    by (bit_vector)
    requires
        p & m == p,
        board_shape(m),
        c < 7,
        col_height(m, c) < 6,
    ensures
        forall|x: u64, y: u64|
            x < 7 && y < 7 ==> (#[trigger] mask_bit(p | play_bit(m, c), x, y) == (mask_bit(p, x, y)
                || (x == c && y == col_height(m, c)))),
{
}

/// A cell belongs to the complement of red's coins within the board exactly
/// when it is occupied but not red's.
pub proof fn lemma_bit_diff(p: u64, m: u64)
    by (bit_vector)
    requires
        p & m == p,
    ensures
        forall|x: u64, y: u64|
            x < 7 && y < 7 ==> (#[trigger] mask_bit(m ^ p, x, y) == (mask_bit(m, x, y)
                && !mask_bit(p, x, y))),
{
}

/// Playing a coin commutes with taking the yellow side of the board: adding
/// the new bit to the total and removing red's coins equals removing red's
/// coins first and adding the bit.
pub proof fn lemma_yellow_after(p: u64, m: u64, c: u64)
    by (bit_vector)
    requires
        p & m == p,
        board_shape(m),
        c < 7,
        col_height(m, c) < 6,
    ensures
        (m | play_bit(m, c)) ^ p == (m ^ p) | play_bit(m, c),
{
}

/// A legal play keeps the board well formed: the masks stay shaped, the new
/// coin joins the mover's mask, and count and parity advance by one move.
#[verifier::rlimit(60)]
pub proof fn lemma_play_preserves_wf(b: BitBoard, c: u64)
    requires
        b.well_formed(),
        spec_valid_move(b, c),
    ensures
        spec_play(b, c).well_formed(),
{
    let m: u64 = b.total_mask;
    let pb: u64 = play_bit(m, c);
    lemma_play_total(m, c);
    lemma_player_play(b.player_mask, m, pb);
    let m2: u64 = m | pb;
    assert(col_height(m2, c) == col_height(m, c) + 1);
    assert(count_coins(m2) == count_coins(m) + 1);
}

/// Undoing a move on the column it was just played in restores the exact
/// prior board: `play_move` and `undo_move` are inverses.
#[verifier::rlimit(60)]
pub proof fn lemma_play_undo_roundtrip(b: BitBoard, c: u64)
    requires
        b.well_formed(),
        spec_valid_move(b, c),
    ensures
        spec_undo(spec_play(b, c), c) == b,
{
    let m: u64 = b.total_mask;
    let pb: u64 = play_bit(m, c);
    lemma_play_total(m, c);
    lemma_player_play(b.player_mask, m, pb);
    let m2: u64 = m | pb;
    assert(col_height(m2, c) == col_height(m, c) + 1);
    assert(top_bit(m2, c) == pb);
    assert(m2 ^ top_bit(m2, c) == m);
}

} // verus!
