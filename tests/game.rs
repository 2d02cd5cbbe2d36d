use tictactoe_vm::codec::write_cell;
use tictactoe_vm::game::{check_full, check_win, resolve_move};

const LINES: [[u8; 3]; 8] = [
    [0, 1, 2],
    [3, 4, 5],
    [6, 7, 8],
    [0, 3, 6],
    [1, 4, 7],
    [2, 5, 8],
    [0, 4, 8],
    [6, 4, 2],
];

#[test]
fn every_line_wins_and_resets() {
    for line in LINES.iter() {
        for player in 0u8..2 {
            let board = write_cell(write_cell(0, line[0], player + 1), line[1], player + 1);
            let mv = (player << 4) | line[2];
            let (next, winner) = resolve_move(board, mv);
            assert_eq!(next, 0);
            assert_eq!(winner, Some(player as u32));
        }
    }
}

#[test]
fn full_board_without_line_is_a_draw() {
    // x o x / x o o / o x (x to play at 8)
    let marks: [(u8, u8); 8] = [(0, 1), (1, 2), (2, 1), (3, 1), (4, 2), (5, 2), (6, 2), (7, 1)];
    let mut board = 0u32;
    for (cell, m) in marks.iter() {
        board = write_cell(board, *cell, *m);
    }
    assert!(!check_win(board));
    assert!(!check_full(board));
    let (next, winner) = resolve_move(board, 8);
    assert_eq!(next, 0);
    assert_eq!(winner, None);
}

#[test]
fn ordinary_move_keeps_marker() {
    let (next, winner) = resolve_move(0, 0x14);
    assert_eq!(next, 2 << 8);
    assert_eq!(winner, None);
}
