//! A Connect Four engine built around a bit-encoded board: position,
//! legality, mutation and win detection are bit arithmetic on two 49-bit
//! masks, an exhaustive negamax search with alpha-beta pruning picks the
//! engine's move, and a fixed-capacity lossy transposition cache speeds up
//! repeated positions. A direct cell-grid board serves as the brute-force
//! reference for the bit tricks, and the two are proved to agree.

pub mod game_state;
pub mod bit_board;
pub mod bit_proofs;
pub mod wins;
pub mod trans_table;
pub mod ai;
pub mod array_board;
pub mod board_match;
