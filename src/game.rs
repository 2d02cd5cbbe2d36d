//! The game rule applied when a move is accepted: place the marker, then
//! detect a completed line (a win) or a full board (a draw).

use crate::codec::{
    marker, move_cell, move_player, place, player_index, decode_cell, read_cell, slot,
    write_cell, CELLS,
};
use vstd::prelude::*;

verus! {

/// The three cells of winning line `k` (rows, columns, then diagonals).
pub open spec fn line_cells(k: int) -> (u32, u32, u32) {
    if k == 0 {
        (0, 1, 2)
    } else if k == 1 {
        (3, 4, 5)
    } else if k == 2 {
        (6, 7, 8)
    } else if k == 3 {
        (0, 3, 6)
    } else if k == 4 {
        (1, 4, 7)
    } else if k == 5 {
        (2, 5, 8)
    } else if k == 6 {
        (0, 4, 8)
    } else {
        (6, 4, 2)
    }
}

/// The three slots of a triple hold the same nonzero marker.
pub open spec fn triple_won(board: u32, a: u32, b: u32, c: u32) -> bool {
    slot(board, a) != 0 && slot(board, a) == slot(board, b) && slot(board, b) == slot(board, c)
}

/// Line `k` is completed on `board`.
pub open spec fn line_won(board: u32, k: int) -> bool {
    triple_won(board, line_cells(k).0, line_cells(k).1, line_cells(k).2)
}

/// Some line is completed on `board`.
pub open spec fn has_win(board: u32) -> bool {
    line_won(board, 0) || line_won(board, 1) || line_won(board, 2) || line_won(board, 3)
        || line_won(board, 4) || line_won(board, 5) || line_won(board, 6) || line_won(board, 7)
}

/// Every one of the nine cells is occupied.
pub open spec fn board_full(board: u32) -> bool {
    forall|c: u32| c < 9 ==> #[trigger] slot(board, c) != 0
}

/// The board right after the move's marker is placed.
pub open spec fn after_move(board: u32, mv: u8) -> u32 {
    place(board, move_cell(mv) as u32, marker(move_player(mv)))
}

/// The board once the move is applied and the game resolved: a win or a
/// full board resets it to empty.
pub open spec fn next_board(board: u32, mv: u8) -> u32 {
    let b = after_move(board, mv);
    if has_win(b) || board_full(b) {
        0
    } else {
        b
    }
}

/// The winner recorded by the move, if it completes a line.
pub open spec fn move_winner(board: u32, mv: u8) -> Option<u32> {
    if has_win(after_move(board, mv)) {
        Some(move_player(mv) as u32)
    } else {
        None
    }
}

fn triple_complete(board: u32, a: u8, b: u8, c: u8) -> (r: bool)
    requires
        a < 16,
        b < 16,
        c < 16,
    ensures
        r == triple_won(board, a as u32, b as u32, c as u32),
{
    let x = read_cell(board, a);
    let y = read_cell(board, b);
    let z = read_cell(board, c);
    x != 0 && x == y && y == z
}

/// Whether some line is completed on `board`.
pub fn check_win(board: u32) -> (r: bool)
    ensures
        r == has_win(board),
{
    triple_complete(board, 0, 1, 2) || triple_complete(board, 3, 4, 5) || triple_complete(
        board,
        6,
        7,
        8,
    ) || triple_complete(board, 0, 3, 6) || triple_complete(board, 1, 4, 7) || triple_complete(
        board,
        2,
        5,
        8,
    ) || triple_complete(board, 0, 4, 8) || triple_complete(board, 6, 4, 2)
}

/// Whether all nine cells are occupied.
pub fn check_full(board: u32) -> (r: bool)
    ensures
        r == board_full(board),
{
    let mut c: u8 = 0;
    while c < CELLS
        invariant
            c <= 9,
            forall|d: u32| d < c ==> #[trigger] slot(board, d) != 0,
        decreases 9 - c,
    {
        if read_cell(board, c) == 0 {
            assert(slot(board, c as u32) == 0);
            return false;
        }
        c = c + 1;
    }
    true
}

/// Places the move's marker on `board` and resolves the game: returns the
/// next board and the winner, if the move completed a line.
pub fn resolve_move(board: u32, mv: u8) -> (r: (u32, Option<u32>))
    requires
        move_cell(mv) < 9,
    ensures
        r.0 == next_board(board, mv),
        r.1 == move_winner(board, mv),
{
    let cell = decode_cell(mv);
    let player = player_index(mv);
    let placed = write_cell(board, cell, player + 1);
    if check_win(placed) {
        (0, Some(player as u32))
    } else if check_full(placed) {
        (0, None)
    } else {
        (placed, None)
    }
}

/// A move that completes any one of the eight lines records exactly one
/// winner, the mover, and resets the board to empty.
pub proof fn lemma_win_resets(board: u32, mv: u8, k: int)
    requires
        0 <= k < 8,
        move_cell(mv) < 9,
        line_won(after_move(board, mv), k),
    ensures
        next_board(board, mv) == 0,
        move_winner(board, mv) == Some(move_player(mv) as u32),
{
}

/// A move that fills the last empty cell without completing a line resets
/// the board to empty and records no winner.
pub proof fn lemma_draw_resets(board: u32, mv: u8)
    requires
        move_cell(mv) < 9,
        board_full(after_move(board, mv)),
        !has_win(after_move(board, mv)),
    ensures
        next_board(board, mv) == 0,
        move_winner(board, mv) is None,
{
}

} // verus!
