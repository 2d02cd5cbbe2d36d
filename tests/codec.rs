use tictactoe_vm::codec::{decode_cell, decode_player, encode_move, player_index, read_cell, write_cell};

#[test]
fn encode_move_packs_player_and_cell() {
    assert_eq!(encode_move(0, 0), 0);
    assert_eq!(encode_move(5, 1), 0b1_0101);
    assert_eq!(encode_move(8, 1), 24);
}

#[test]
fn decode_move_fields() {
    let mv = encode_move(7, 1);
    assert_eq!(decode_cell(mv), 7);
    assert_eq!(decode_player(mv), 16);
    assert_eq!(player_index(mv), 1);
    let mv0 = encode_move(3, 0);
    assert_eq!(decode_cell(mv0), 3);
    assert_eq!(decode_player(mv0), 0);
    assert_eq!(player_index(mv0), 0);
}

#[test]
fn write_then_read_cell() {
    let b = write_cell(0, 4, 2);
    assert_eq!(b, 2 << 8);
    assert_eq!(read_cell(b, 4), 2);
    assert_eq!(read_cell(b, 3), 0);
    assert_eq!(read_cell(b, 5), 0);
    let b2 = write_cell(b, 4, 1);
    assert_eq!(b2, 1 << 8);
    let full = 0xFFFF_FFFFu32;
    assert_eq!(write_cell(full, 0, 0), 0xFFFF_FFFC);
}
