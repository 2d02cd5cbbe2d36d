//! The operations that the chain offers to its clients: proposing a move,
//! reading the board and the winners.

use crate::block::{built_view, Block, BlockError, Status};
use crate::state::State;
use vstd::prelude::*;

verus! {

/// Arguments of a move proposal.
#[derive(Clone, Copy, Debug)]
pub struct ProposedMoveArgs {
    /// The encoded move: cell in bits 0..4, player in bit 4.
    pub action: u8,
}

/// Answer to a move proposal.
#[derive(Clone, Copy, Debug)]
pub struct ProposedMoveResponse {
    pub success: bool,
}

/// Arguments of a board query.
#[derive(Clone, Copy, Debug)]
pub struct GetBoardArgs {
    pub id: usize,
}

/// Answer to a board query.
#[derive(Clone, Copy, Debug)]
pub struct GetBoardResponse {
    /// The packed board.
    pub board: u32,
}

/// Arguments of a winner query.
#[derive(Clone, Copy, Debug)]
pub struct GetWinnerArgs {
    /// Index of the finished game.
    pub req: usize,
}

/// Answer to a winner query.
#[derive(Clone, Copy, Debug)]
pub struct GetWinnerResponse {
    /// The winner, 0 or 1.
    pub win: u32,
}

/// The chain's client-facing service over its state store.
#[derive(Debug)]
pub struct ChainService {
    pub state: State,
}

impl ChainService {
    /// A service over the given store.
    pub fn new(state: State) -> (r: ChainService)
        ensures
            r.state@ == state@,
    {
        ChainService { state }
    }

    /// Builds the block that carries `args.action` on top of `parent`, in
    /// `Processing` status; submitting it is left to the caller. Fails with
    /// `InvalidHeight` when the parent's height is the largest there is.
    pub fn propose_move(&self, parent: &Block, args: ProposedMoveArgs) -> (r: Result<
        Block,
        BlockError,
    >)
        ensures
            parent@.height == u64::MAX ==> r == Err::<Block, BlockError>(BlockError::InvalidHeight),
            parent@.height < u64::MAX ==> (r matches Ok(b) && b@ == built_view(
                parent@.id,
                (parent@.height + 1) as u64,
                args.action,
                Status::Processing,
            )),
    {
        let h = parent.height();
        if h == u64::MAX {
            return Err(BlockError::InvalidHeight);
        }
        Block::try_new(parent.id(), h + 1, args.action, Status::Processing)
    }

    /// The current board.
    pub fn get_board(&self) -> (r: GetBoardResponse)
        ensures
            r.board == self.state@.board,
    {
        GetBoardResponse { board: self.state.get_curr_game() }
    }

    /// The winner of the `args.req`-th finished game; `NotFound` when fewer
    /// games have finished.
    pub fn get_winner(&self, args: GetWinnerArgs) -> (r: Result<GetWinnerResponse, BlockError>)
        ensures
            args.req < self.state@.winners.len() ==> (r matches Ok(w) && w.win
                == self.state@.winners[args.req as int]),
            args.req >= self.state@.winners.len() ==> r == Err::<GetWinnerResponse, BlockError>(
                BlockError::NotFound,
            ),
    {
        match self.state.get_winner(args.req) {
            Some(w) => Ok(GetWinnerResponse { win: w }),
            None => Err(BlockError::NotFound),
        }
    }
}

} // verus!
