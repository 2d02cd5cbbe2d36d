use tictactoe_vm::block::{Block, BlockError, BlockId, Status};
use tictactoe_vm::codec::encode_move;
use tictactoe_vm::service::{ChainService, GetWinnerArgs, ProposedMoveArgs};
use tictactoe_vm::state::State;

fn genesis(state: &mut State) -> Block {
    let g = Block::try_new(BlockId::empty(), 0, 0, Status::Accepted).unwrap();
    state.add_accepted(&g);
    g
}

fn play(state: &mut State, parent: &Block, cell: u8, player: u8) -> Block {
    let mut b = Block::try_new(parent.id(), parent.height() + 1, encode_move(cell, player), Status::Processing).unwrap();
    assert_eq!(b.verify(state), Ok(()));
    assert_eq!(b.status(), Status::Verified);
    assert!(state.has_verified(&b.id()));
    assert_eq!(b.accept(state), Ok(()));
    assert_eq!(b.status(), Status::Accepted);
    assert!(!state.has_verified(&b.id()));
    assert!(state.has_committed(&b.id()));
    b
}

#[test]
fn end_to_end_game() {
    let mut state = State::new();
    let g = genesis(&mut state);
    assert_eq!(state.get_curr_game(), 0);
    let b1 = play(&mut state, &g, 0, 0);
    assert_eq!(state.get_curr_game() & 0b11, 1);
    let b2 = play(&mut state, &b1, 1, 1);
    let b3 = play(&mut state, &b2, 2, 0);
    assert_eq!(state.get_curr_game(), 0b01_10_01);
    assert_eq!(state.get_winner(0), None);
    let b4 = play(&mut state, &b3, 4, 1);
    let b5 = play(&mut state, &b4, 3, 0);
    let b6 = play(&mut state, &b5, 5, 1);
    let _b7 = play(&mut state, &b6, 6, 0);
    assert_eq!(state.get_winner(0), Some(0));
    assert_eq!(state.get_winner(1), None);
    assert_eq!(state.get_curr_game(), 0);
}

#[test]
fn replay_is_deterministic() {
    let moves: [(u8, u8); 7] = [(4, 1), (0, 0), (8, 1), (2, 0), (1, 0), (6, 1), (3, 1)];
    let mut boards = Vec::new();
    for _ in 0..2 {
        let mut state = State::new();
        let mut parent = genesis(&mut state);
        for (cell, player) in moves.iter() {
            parent = play(&mut state, &parent, *cell, *player);
        }
        boards.push((state.get_curr_game(), state.winners.clone()));
    }
    assert_eq!(boards[0], boards[1]);
}

#[test]
fn verify_unknown_parent() {
    let mut state = State::new();
    let mut b = Block::try_new(BlockId::new([7u8; 32]), 1, 0, Status::Processing).unwrap();
    assert_eq!(b.verify(&mut state), Err(BlockError::UnknownParent));
    assert!(!state.has_verified(&b.id()));
}

#[test]
fn verify_invalid_height() {
    let mut state = State::new();
    let g = genesis(&mut state);
    for h in [0u64, 2, 5, u64::MAX] {
        let mut b = Block::try_new(g.id(), h, 0, Status::Processing).unwrap();
        assert_eq!(b.verify(&mut state), Err(BlockError::InvalidHeight));
        assert_eq!(b.status(), Status::Processing);
    }
}

#[test]
fn verify_illegal_move_on_occupied_cell() {
    let mut state = State::new();
    let g = genesis(&mut state);
    let b1 = play(&mut state, &g, 4, 0);
    let mut b2 = Block::try_new(b1.id(), 2, encode_move(4, 1), Status::Processing).unwrap();
    assert_eq!(b2.verify(&mut state), Err(BlockError::IllegalMove));
    let mut b3 = Block::try_new(b1.id(), 2, encode_move(5, 1), Status::Processing).unwrap();
    assert_eq!(b3.verify(&mut state), Ok(()));
}

#[test]
fn verify_invalid_cell() {
    let mut state = State::new();
    let g = genesis(&mut state);
    let mut b = Block::try_new(g.id(), 1, 9, Status::Processing).unwrap();
    assert_eq!(b.verify(&mut state), Err(BlockError::InvalidCell));
}

#[test]
fn accept_out_of_board_move_fails() {
    let mut state = State::new();
    let g = genesis(&mut state);
    let mut b = Block::try_new(g.id(), 1, 12, Status::Processing).unwrap();
    assert_eq!(b.accept(&mut state), Err(BlockError::StateUpdate));
    assert_eq!(state.get_curr_game(), 0);
    assert!(!state.has_committed(&b.id()));
}

#[test]
fn verify_committed_block_passes() {
    let mut state = State::new();
    let mut g = genesis(&mut state);
    assert_eq!(g.verify(&mut state), Ok(()));
    assert!(!state.has_verified(&g.id()));
}

#[test]
fn siblings_both_verify() {
    let mut state = State::new();
    let g = genesis(&mut state);
    let mut a = Block::try_new(g.id(), 1, encode_move(0, 0), Status::Processing).unwrap();
    let mut b = Block::try_new(g.id(), 1, encode_move(0, 1), Status::Processing).unwrap();
    assert_eq!(a.verify(&mut state), Ok(()));
    assert_eq!(b.verify(&mut state), Ok(()));
    assert_eq!(state.get_curr_game(), 0);
}

#[test]
fn reject_twice_and_unverified() {
    let mut state = State::new();
    let g = genesis(&mut state);
    let mut a = Block::try_new(g.id(), 1, encode_move(0, 0), Status::Processing).unwrap();
    assert_eq!(a.verify(&mut state), Ok(()));
    assert_eq!(a.reject(&mut state), Ok(()));
    assert_eq!(a.status(), Status::Rejected);
    assert!(!state.has_verified(&a.id()));
    assert_eq!(a.reject(&mut state), Ok(()));
    assert!(!state.has_verified(&a.id()));
    let mut never = Block::try_new(g.id(), 1, encode_move(1, 0), Status::Processing).unwrap();
    assert_eq!(never.reject(&mut state), Ok(()));
    assert_eq!(state.get_curr_game(), 0);
    assert!(state.has_committed(&g.id()));
    assert_eq!(state.get_block(&g.id()).unwrap().height(), 0);
}

#[test]
fn get_block_not_found() {
    let state = State::new();
    assert_eq!(state.get_block(&BlockId::empty()).err(), Some(BlockError::NotFound));
}

#[test]
fn service_queries() {
    let mut state = State::new();
    let g = genesis(&mut state);
    let service = ChainService::new(state);
    assert_eq!(service.get_board().board, 0);
    assert_eq!(service.get_winner(GetWinnerArgs { req: 0 }).err(), Some(BlockError::NotFound));
    let b = service.propose_move(&g, ProposedMoveArgs { action: 0x13 }).unwrap();
    assert_eq!(b.height(), 1);
    assert_eq!(b.get_player_move(), 0x13);
    assert_eq!(b.get_move_index(), 3);
    assert_eq!(b.get_player_id(), 16);
    assert_eq!(b.parent_id().to_bytes(), g.id().to_bytes());
    assert_eq!(b.status(), Status::Processing);
}
