//! Packing of the game board into a `u32` (two bits per cell) and of a
//! single move into a `u8` (cell in bits 0..4, player in bit 4).

use vstd::prelude::*;

verus! {

/// Number of cells on the board.
pub const CELLS: u8 = 9;

/// The two-bit slot of `cell` in a packed board.
pub open spec fn slot(board: u32, cell: u32) -> u32 {
    (board >> ((2 * cell) as u32)) & 3u32
}

/// The board with the slot of `cell` cleared and then set to `value`.
pub open spec fn place(board: u32, cell: u32, value: u32) -> u32 {
    (board & !(3u32 << ((2 * cell) as u32))) | (value << ((2 * cell) as u32))
}

/// The cell index carried by a move.
pub open spec fn move_cell(mv: u8) -> u8 {
    mv & 15u8
}

/// The raw player bit of a move (0 or 16).
pub open spec fn move_player_bit(mv: u8) -> u8 {
    mv & 16u8
}

/// The player of a move, as 0 or 1.
pub open spec fn move_player(mv: u8) -> u8 {
    (mv >> 4u8) & 1u8
}

/// The marker that a player leaves in a board slot: 1 for player 0, 2 for player 1.
pub open spec fn marker(player: u8) -> u32 {
    (player + 1) as u32
}

/// Writing a slot sets that slot and leaves every other slot as it was.
pub proof fn lemma_place_slots(board: u32, cell: u32, value: u32, other: u32)
    requires
        cell < 16,
        other < 16,
        value < 4,
    ensures
        slot(place(board, cell, value), cell) == value,
        other != cell ==> slot(place(board, cell, value), other) == slot(board, other),
{
    assert(slot(place(board, cell, value), cell) == value) by (bit_vector)
        requires
            cell < 16,
            value < 4,
    ;
    assert(other != cell ==> slot(place(board, cell, value), other) == slot(board, other))
        by (bit_vector)
        requires
            cell < 16,
            other < 16,
            value < 4,
    ;
}

/// Packs a move: `player << 4 | cell`.
pub fn encode_move(cell: u8, player: u8) -> (r: u8)
    requires
        cell < 16,
        player < 2,
    ensures
        r == (player << 4u8) | cell,
        move_cell(r) == cell,
        move_player(r) == player,
        move_player_bit(r) == player * 16,
{
    let r: u8 = (player << 4u8) | cell;
    assert(move_cell(r) == cell && move_player(r) == player && move_player_bit(r) == player
        * 16) by (bit_vector)
        requires
            cell < 16,
            player < 2,
            r == (player << 4u8) | cell,
    ;
    r
}

/// The cell index of a move (its low four bits).
pub fn decode_cell(mv: u8) -> (r: u8)
    ensures
        r == move_cell(mv),
        r < 16,
{
    assert(mv & 15u8 < 16) by (bit_vector);
    mv & 15u8
}

/// The raw player bit of a move: 0 or 16.
pub fn decode_player(mv: u8) -> (r: u8)
    ensures
        r == move_player_bit(mv),
        r == 0 || r == 16,
{
    assert(mv & 16u8 == 0 || mv & 16u8 == 16) by (bit_vector);
    mv & 16u8
}

/// The player of a move as 0 or 1.
pub fn player_index(mv: u8) -> (r: u8)
    ensures
        r == move_player(mv),
        r < 2,
        r == 0 <==> move_player_bit(mv) == 0,
{
    assert((mv >> 4u8) & 1u8 < 2 && (((mv >> 4u8) & 1u8 == 0) <==> (mv & 16u8 == 0)))
        by (bit_vector);
    (mv >> 4u8) & 1u8
}

/// Reads the two-bit slot of `cell`.
pub fn read_cell(board: u32, cell: u8) -> (r: u8)
    requires
        cell < 16,
    ensures
        r as u32 == slot(board, cell as u32),
        r < 4,
{
    let c: u32 = cell as u32;
    let v: u32 = (board >> (2 * c)) & 3u32;
    assert(v < 4) by (bit_vector)
        requires
            v == (board >> (2 * c)) & 3u32,
    ;
    v as u8
}

/// Clears and then sets the two-bit slot of `cell` to `value`.
pub fn write_cell(board: u32, cell: u8, value: u8) -> (r: u32)
    requires
        cell < 16,
        value < 4,
    ensures
        r == place(board, cell as u32, value as u32),
        slot(r, cell as u32) == value as u32,
        forall|o: u32| o < 16 && o != cell as u32 ==> #[trigger] slot(r, o) == slot(board, o),
{
    let c: u32 = cell as u32;
    let r: u32 = (board & !(3u32 << (2 * c))) | ((value as u32) << (2 * c));
    proof {
        lemma_place_slots(board, c, value as u32, c);
        assert forall|o: u32| o < 16 && o != c implies #[trigger] slot(r, o) == slot(board, o) by {
            lemma_place_slots(board, c, value as u32, o);
        }
    }
    r
}

} // verus!
