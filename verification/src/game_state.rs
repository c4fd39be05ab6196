use vstd::prelude::*;

verus! {

/// Outcome of the game relative to the player who just moved, recomputed on
/// demand from the board's masks and move count and never stored as
/// independent truth.
#[derive(Copy, Clone, Eq, PartialEq, Structural, Debug)]
pub enum GameState {
    /// The red player has completed four in a row.
    Win,
    /// The yellow player has completed four in a row.
    Loss,
    /// All cells are filled and nobody has four in a row.
    Tie,
    /// The game goes on.
    InProgress,
}

/// What a single cell of the board holds, for read-only inspection.
#[derive(Copy, Clone, Eq, PartialEq, Structural, Debug)]
pub enum Cell {
    /// A coin of the red player (the side that moves first).
    Red,
    /// A coin of the yellow player.
    Yellow,
    /// No coin yet.
    Empty,
}

/// The closed set of errors the engine can surface.
#[derive(Copy, Clone, Eq, PartialEq, Structural, Debug)]
pub enum GameError {
    /// A column index outside the valid range was supplied.
    InvalidColumn,
    /// A play was attempted on a column that already holds six coins.
    ColumnFull,
    /// An undo was attempted on a column that holds no coin.
    EmptyColumnUndo,
    /// The solver was asked to move on a board that is already full.
    NoLegalMove,
}

} // verus!
