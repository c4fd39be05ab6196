use connect4::array_board::ArrayBoard;
use connect4::bit_board::BitBoard;
use connect4::game_state::{Cell, GameError, GameState};

fn arr_play_all(board: &mut ArrayBoard, cols: &[usize]) {
    for &c in cols {
        assert!(board.is_move_valid(c), "column {} unexpectedly full", c);
        board.play_move(c);
    }
}

fn arr_cell(board: &ArrayBoard, c: usize, r: usize) -> Cell {
    board.board[7 * r + c]
}

#[test]
fn array_board_starts_empty() {
    let b = ArrayBoard::new();
    assert_eq!(b.get_num_moves(), 0);
    assert!(b.red_turn);
    assert!(!b.is_draw());
    for c in 0..7 {
        assert!(b.is_move_valid(c));
        for r in 0..6 {
            assert_eq!(arr_cell(&b, c, r), Cell::Empty);
        }
    }
}

#[test]
fn array_play_and_undo_round_trip() {
    let mut b = ArrayBoard::new();
    arr_play_all(&mut b, &[3, 3, 0, 6, 2]);
    assert_eq!(b.get_num_moves(), 5);
    assert_eq!(arr_cell(&b, 3, 0), Cell::Red);
    assert_eq!(arr_cell(&b, 3, 1), Cell::Yellow);
    assert_eq!(b.undo_move(2), Ok(()));
    assert_eq!(arr_cell(&b, 2, 0), Cell::Empty);
    assert_eq!(b.get_num_moves(), 4);
    assert_eq!(b.undo_move(2), Err(GameError::EmptyColumnUndo));
}

#[test]
fn array_play_turn_errors() {
    let mut b = ArrayBoard::new();
    assert_eq!(b.play_turn(8), Err(GameError::InvalidColumn));
    for _ in 0..6 {
        b.play_turn(4).unwrap();
    }
    assert_eq!(b.play_turn(4), Err(GameError::ColumnFull));
}

#[test]
fn array_vertical_win() {
    let mut b = ArrayBoard::new();
    assert_eq!(b.play_turn(3), Ok(GameState::InProgress));
    assert_eq!(b.play_turn(0), Ok(GameState::InProgress));
    assert_eq!(b.play_turn(3), Ok(GameState::InProgress));
    assert_eq!(b.play_turn(1), Ok(GameState::InProgress));
    assert_eq!(b.play_turn(3), Ok(GameState::InProgress));
    assert_eq!(b.play_turn(2), Ok(GameState::InProgress));
    assert!(b.is_winning_move(3));
    assert_eq!(b.play_turn(3), Ok(GameState::Win));
}

#[test]
fn array_horizontal_win() {
    let mut b = ArrayBoard::new();
    arr_play_all(&mut b, &[0, 6, 1, 6, 2, 6]);
    assert!(b.is_winning_move(3));
    assert!(!b.is_winning_move(4));
}

#[test]
fn array_diagonal_wins() {
    let mut b = ArrayBoard::new();
    arr_play_all(&mut b, &[3, 3, 2, 2, 3, 1, 1, 6, 2, 6, 3, 6]);
    assert!(b.is_winning_move(0), "rising diagonal expected");
    let mut d = ArrayBoard::new();
    arr_play_all(&mut d, &[3, 3, 4, 4, 3, 5, 5, 0, 4, 0, 3, 0]);
    assert!(d.is_winning_move(6), "falling diagonal expected");
}

/// Win-detection cross-check: the bit board's shift tricks and the array
/// board's brute-force cell walk agree on every legal column of every
/// position reached in a batch of pseudo-random games.
#[test]
fn win_detection_agrees_across_representations() {
    let mut seed: u64 = 0x2545F4914F6CDD1D;
    let mut positions: usize = 0;
    for _ in 0..120 {
        let mut bit = BitBoard::new();
        let mut arr = ArrayBoard::new();
        loop {
            // The two representations must agree cell for cell.
            for c in 0..7 {
                for r in 0..6 {
                    assert_eq!(bit.get_cell(c, r), arr_cell(&arr, c, r));
                }
                assert_eq!(bit.is_move_valid(c), arr.is_move_valid(c));
            }
            // And on the winning-move test for every legal column.
            for c in 0..7 {
                if bit.is_move_valid(c) {
                    assert_eq!(
                        bit.is_winning_move(c),
                        arr.is_winning_move(c),
                        "win detection disagrees at column {} after {} moves",
                        c,
                        bit.get_num_moves()
                    );
                }
            }
            positions += 1;
            if bit.is_draw() {
                break;
            }
            // Draw the next column from a fixed linear congruential stream.
            seed = seed.wrapping_mul(6364136223846793005).wrapping_add(1442695040888963407);
            let mut col = (seed >> 33) as usize % 7;
            while !bit.is_move_valid(col) {
                col = (col + 1) % 7;
            }
            let sb = bit.play_turn(col).unwrap();
            let sa = arr.play_turn(col).unwrap();
            assert_eq!(sb, sa, "reported game states disagree");
            if sb != GameState::InProgress {
                break;
            }
        }
    }
    assert!(positions > 1000, "expected a large batch of checked positions");
}

#[test]
fn random_mover_plays_the_only_open_column() {
    // Fill everything except column 6, which keeps one free cell: whatever
    // the random draw was, the mover must end up playing column 6.
    let mut b = ArrayBoard::new();
    for _ in 0..5 {
        for c in 0..7 {
            b.play_move(c);
        }
    }
    for c in 0..6 {
        b.play_move(c);
    }
    assert_eq!(b.get_num_moves(), 41);
    let before = b.get_num_moves();
    let r = b.ai_move();
    assert!(r.is_ok(), "a legal column was open: {:?}", r);
    assert_eq!(b.get_num_moves(), before + 1);
    assert!(!b.is_move_valid(6), "the last open cell was in column 6");

    let r2 = b.ai_move();
    assert_eq!(r2, Err(GameError::NoLegalMove));
}
