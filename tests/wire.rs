use tictactoe_vm::block::{Block, BlockError, BlockId, Status};

#[test]
fn bytes_layout_and_id() {
    let b = Block::try_new(BlockId::empty(), 1, 0, Status::Processing).unwrap();
    let mut expected = vec![0u8; 32];
    expected.extend_from_slice(&[0, 0, 0, 0, 0, 0, 0, 1, 0]);
    assert_eq!(b.bytes(), &expected[..]);
    assert_eq!(b.to_vec(), expected);
    let digest: [u8; 32] = [
        134, 204, 84, 82, 243, 37, 39, 133, 96, 247, 144, 221, 64, 102, 23, 47, 13, 118, 232, 149,
        206, 202, 41, 64, 107, 211, 199, 206, 178, 111, 87, 151,
    ];
    assert_eq!(b.id().to_bytes(), digest);
}

#[test]
fn round_trip_from_bytes() {
    let parent = BlockId::new([9u8; 32]);
    let b = Block::try_new(parent, 0x0102_0304_0506_0708, 0x15, Status::Accepted).unwrap();
    let c = Block::from_slice(b.bytes()).unwrap();
    assert_eq!(c.parent_id().to_bytes(), [9u8; 32]);
    assert_eq!(c.height(), 0x0102_0304_0506_0708);
    assert_eq!(c.get_player_move(), 0x15);
    assert_eq!(c.bytes(), b.bytes());
    assert_eq!(c.id().to_bytes(), b.id().to_bytes());
    assert_eq!(c.status(), Status::Processing);
}

#[test]
fn decoding_rejects_wrong_length() {
    assert_eq!(Block::from_slice(&[]).err(), Some(BlockError::Decoding));
    assert_eq!(Block::from_slice(&[0u8; 40]).err(), Some(BlockError::Decoding));
    assert_eq!(Block::from_slice(&[0u8; 42]).err(), Some(BlockError::Decoding));
}

#[test]
fn ids_compare_by_bytes() {
    assert!(BlockId::empty().same_as(&BlockId::new([0u8; 32])));
    assert!(!BlockId::empty().same_as(&BlockId::new([1u8; 32])));
}
