use connect4::ai::{pack_score, unpack_score, AIGame};
use connect4::bit_board::BitBoard;
use connect4::game_state::{Cell, GameError, GameState};
use connect4::trans_table::TranspositionTable;

fn play_all(board: &mut BitBoard, cols: &[usize]) {
    for &c in cols {
        assert!(board.is_move_valid(c), "column {} unexpectedly full", c);
        board.play_move(c);
    }
}

fn heights(board: &BitBoard) -> [usize; 7] {
    let mut h = [0usize; 7];
    for c in 0..7 {
        for r in 0..6 {
            if board.get_cell(c, r) != Cell::Empty {
                h[c] = r + 1;
            }
        }
    }
    h
}

/// The column whose height grew from `before` to `after`.
fn played_column(before: &BitBoard, after: &BitBoard) -> usize {
    let hb = heights(before);
    let ha = heights(after);
    for c in 0..7 {
        if ha[c] == hb[c] + 1 {
            return c;
        }
    }
    panic!("no column grew by one");
}

#[test]
fn new_board_is_empty() {
    let b = BitBoard::new();
    assert_eq!(b.get_num_moves(), 0);
    assert!(b.red_turn);
    assert!(!b.is_draw());
    for c in 0..7 {
        assert!(b.is_move_valid(c));
        for r in 0..6 {
            assert_eq!(b.get_cell(c, r), Cell::Empty);
        }
    }
}

#[test]
fn column_masks_have_exact_values() {
    let b = BitBoard::new();
    assert_eq!(b.bottom_col_mask(0), 1);
    assert_eq!(b.bottom_col_mask(1), 1 << 7);
    assert_eq!(b.top_col_mask(0), 0x20);
    assert_eq!(b.top_col_mask(6), 0x20u64 << 42);
    assert_eq!(b.full_col_mask(0), 0x3f);
    assert_eq!(b.get_height_mask(), 0x40810204081);
}

#[test]
fn play_and_undo_round_trip() {
    let mut b = BitBoard::new();
    let cols = [3usize, 3, 0, 6, 2, 3, 5, 1];
    let mut snapshots: Vec<BitBoard> = Vec::new();
    for &c in cols.iter() {
        snapshots.push(b);
        b.play_move(c);
    }
    for &c in cols.iter().rev() {
        assert_eq!(b.undo_move(c), Ok(()));
        let expected = snapshots.pop().unwrap();
        assert_eq!(b, expected, "undo did not restore the prior bit state");
    }
    assert_eq!(b, BitBoard::new());
}

#[test]
fn undo_on_empty_column_fails() {
    let mut b = BitBoard::new();
    assert_eq!(b.undo_move(4), Err(GameError::EmptyColumnUndo));
    b.play_move(2);
    assert_eq!(b.undo_move(3), Err(GameError::EmptyColumnUndo));
}

#[test]
fn play_turn_rejects_bad_columns() {
    let mut b = BitBoard::new();
    assert_eq!(b.play_turn(7), Err(GameError::InvalidColumn));
    assert_eq!(b.play_turn(9), Err(GameError::InvalidColumn));
    for _ in 0..6 {
        b.play_turn(0).unwrap();
    }
    assert_eq!(b.play_turn(0), Err(GameError::ColumnFull));
}

#[test]
fn scenario_column_three_vertical_win() {
    // Red stacks column 3 while yellow plays elsewhere; the first three
    // plies leave the game in progress and red's fourth coin in column 3
    // wins on the spot.
    let mut b = BitBoard::new();
    assert_eq!(b.play_turn(3), Ok(GameState::InProgress)); // red
    assert_eq!(b.play_turn(0), Ok(GameState::InProgress)); // yellow
    assert_eq!(b.play_turn(3), Ok(GameState::InProgress)); // red
    assert_eq!(b.play_turn(1), Ok(GameState::InProgress)); // yellow
    assert_eq!(b.play_turn(3), Ok(GameState::InProgress)); // red
    assert_eq!(b.play_turn(2), Ok(GameState::InProgress)); // yellow
    assert!(b.is_winning_move(3));
    assert!(!b.is_winning_move(0));
    assert_eq!(b.play_turn(3), Ok(GameState::Win));
}

#[test]
fn yellow_win_reports_loss() {
    let mut b = BitBoard::new();
    // Red wanders, yellow stacks column 5.
    for c in [0usize, 5, 1, 5, 2, 5].iter() {
        assert_eq!(b.play_turn(*c), Ok(GameState::InProgress));
    }
    assert_eq!(b.play_turn(6), Ok(GameState::InProgress)); // red
    assert_eq!(b.play_turn(5), Ok(GameState::Loss)); // yellow completes four
}

#[test]
fn horizontal_win_detected() {
    let mut b = BitBoard::new();
    play_all(&mut b, &[0, 6, 1, 6, 2, 6]);
    assert!(b.is_winning_move(3));
    assert!(!b.is_winning_move(4));
}

#[test]
fn rising_diagonal_win_detected() {
    let mut b = BitBoard::new();
    play_all(&mut b, &[3, 3, 2, 2, 3, 1, 1, 6, 2, 6, 3, 6]);
    assert!(b.is_winning_move(0), "red should win on the rising diagonal");
}

#[test]
fn falling_diagonal_win_detected() {
    let mut b = BitBoard::new();
    play_all(&mut b, &[3, 3, 4, 4, 3, 5, 5, 0, 4, 0, 3, 0]);
    assert!(b.is_winning_move(6), "red should win on the falling diagonal");
}

#[test]
fn draw_detection_at_forty_two_moves() {
    let mut b = BitBoard::new();
    for _ in 0..6 {
        for c in 0..7 {
            b.play_move(c);
        }
    }
    assert_eq!(b.get_num_moves(), 42);
    assert!(b.is_draw());
    let mut one_less = BitBoard::new();
    for i in 0..41 {
        one_less.play_move(i % 7);
    }
    assert!(!one_less.is_draw());
}

#[test]
fn full_board_gives_no_legal_move() {
    let mut b = BitBoard::new();
    for _ in 0..6 {
        for c in 0..7 {
            b.play_move(c);
        }
    }
    let ai = AIGame::new();
    let mut table = TranspositionTable::new(1009);
    assert_eq!(
        ai.make_move(&mut b, &mut table),
        Err(GameError::NoLegalMove)
    );
    assert_eq!(b.get_num_moves(), 42);
}

#[test]
fn fingerprint_distinguishes_positions() {
    let b = BitBoard::new();
    assert_eq!(b.get_unique_key(), 0);
    let mut b1 = BitBoard::new();
    b1.play_move(0);
    assert_eq!(b1.get_unique_key(), 1);
    let mut b2 = BitBoard::new();
    b2.play_move(1);
    assert_ne!(b1.get_unique_key(), b2.get_unique_key());
}

#[test]
fn score_packing_round_trips() {
    assert_eq!(pack_score(0), 22);
    assert_eq!(unpack_score(22), 0);
    assert_eq!(pack_score(-21), 1);
    assert_eq!(pack_score(21), 43);
    for s in -21..=21 {
        let packed = pack_score(s);
        assert!(packed >= 1, "a legal score must never pack to the empty marker");
        assert_eq!(unpack_score(packed), s);
    }
}

#[test]
fn trans_table_is_lossy_by_design() {
    let mut t = TranspositionTable::new(1);
    assert_eq!(t.get(5), 0);
    t.insert(5, 30);
    // Any key maps to the single slot and reads the stale value back without
    // key verification.
    assert_eq!(t.get(12), 30);
    t.insert(12, 31);
    assert_eq!(t.get(5), 31);
    t.reset();
    assert_eq!(t.get(5), 0);

    let mut big = TranspositionTable::new(1009);
    big.insert(7, 40);
    assert_eq!(big.get(7), 40);
    assert_eq!(big.get(8), 0);
    assert_eq!(big.index(7), 7);
    assert_eq!(big.index(1009 + 3), 3);
}

#[test]
fn immediate_win_is_played_at_once() {
    // Red holds three coins in column 2 and it is red's turn: the solver
    // must play the winning column and report the win.
    let mut b = BitBoard::new();
    play_all(&mut b, &[2, 0, 2, 1, 2, 3]);
    let before = b;
    let ai = AIGame::new();
    let mut table = TranspositionTable::new(1009);
    assert_eq!(ai.make_move(&mut b, &mut table), Ok(GameState::Win));
    assert_eq!(played_column(&before, &b), 2);
}

#[test]
fn first_winning_column_in_order_is_played() {
    // Red threatens to win in both column 0 and column 4; the search order
    // visits column 4 first (center outward), so that is the column played.
    let mut b = BitBoard::new();
    play_all(&mut b, &[0, 6, 0, 6, 0, 5, 4, 5, 4, 1, 4, 2]);
    assert!(b.is_winning_move(0));
    assert!(b.is_winning_move(4));
    let before = b;
    let ai = AIGame::new();
    let mut table = TranspositionTable::new(1009);
    assert_eq!(ai.make_move(&mut b, &mut table), Ok(GameState::Win));
    assert_eq!(played_column(&before, &b), 4);
}

#[test]
fn search_is_deterministic() {
    // Two fresh solvers with fresh tables on the same position choose the
    // same move and report the same state; a warmed table never changes the
    // chosen move.
    let mut base = BitBoard::new();
    for _ in 0..5 {
        for c in 0..7 {
            base.play_move(c);
        }
    }
    for c in 0..5 {
        base.play_move(c);
    }
    assert_eq!(base.get_num_moves(), 40);

    let ai = AIGame::new();
    let mut b1 = base;
    let mut t1 = TranspositionTable::new(100003);
    let r1 = ai.make_move(&mut b1, &mut t1);
    let c1 = played_column(&base, &b1);

    let mut b2 = base;
    let mut t2 = TranspositionTable::new(100003);
    let r2 = ai.make_move(&mut b2, &mut t2);
    let c2 = played_column(&base, &b2);

    assert_eq!(r1, r2);
    assert_eq!(c1, c2);
    assert_eq!(b1, b2);

    // Re-search the same position with the warmed table.
    let mut b3 = base;
    let r3 = ai.make_move(&mut b3, &mut t1);
    let c3 = played_column(&base, &b3);
    assert_eq!(r1, r3);
    assert_eq!(c1, c3);
}

#[test]
fn mirror_positions_give_mirrored_moves() {
    // A position and its left-right mirror: yellow threatens four in a
    // stack, so red's single best move is the block, and the mirrored
    // position forces the mirrored block.
    let mut a = BitBoard::new();
    let mut m = BitBoard::new();
    for c in [0usize, 1, 2, 1, 4, 1].iter() {
        a.play_move(*c);
        m.play_move(6 - *c);
    }
    // The two boards are cell-for-cell mirrors.
    for c in 0..7 {
        for r in 0..6 {
            assert_eq!(a.get_cell(c, r), m.get_cell(6 - c, r));
        }
    }
    let ai = AIGame::with_depth(6);
    let before_a = a;
    let before_m = m;
    let mut ta = TranspositionTable::new(100003);
    let mut tm = TranspositionTable::new(100003);
    let ra = ai.make_move(&mut a, &mut ta);
    let rm = ai.make_move(&mut m, &mut tm);
    assert_eq!(ra, rm, "mirrored positions must yield the same game state");
    let ca = played_column(&before_a, &a);
    let cm = played_column(&before_m, &m);
    assert_eq!(ca, 1, "red must block yellow's stack");
    assert_eq!(cm, 6 - ca, "mirrored positions must yield mirrored columns");
}

#[test]
fn first_move_from_empty_board_is_center() {
    // Bounded-depth regression fixture: searching from the empty board must
    // pick the center column.
    let mut b = BitBoard::new();
    let ai = AIGame::with_depth(6);
    let mut table = TranspositionTable::new(100003);
    let before = b;
    assert_eq!(ai.make_move(&mut b, &mut table), Ok(GameState::InProgress));
    assert_eq!(played_column(&before, &b), 3);
}
