//! The state store: the board, the winners of finished games, the blocks
//! verified but not yet decided, and the committed blocks.

use crate::block::{Block, BlockError, BlockId, BlockView};
use crate::codec::move_cell;
use crate::game::{move_winner, next_board, resolve_move};
use vstd::prelude::*;

verus! {

/// The map from id to block that a list of blocks stands for; a later entry
/// with the same id takes the place of an earlier one.
pub open spec fn blocks_map(s: Seq<Block>) -> Map<Seq<u8>, BlockView>
    decreases s.len(),
{
    if s.len() == 0 {
        Map::empty()
    } else {
        blocks_map(s.drop_last()).insert(s.last()@.id, s.last()@)
    }
}

/// What the store holds, as mathematical values.
pub ghost struct StateView {
    pub board: u32,
    pub winners: Seq<u32>,
    pub verified: Map<Seq<u8>, BlockView>,
    pub committed: Map<Seq<u8>, BlockView>,
}

/// A block looked up by id: the verified blocks first, then the committed.
pub open spec fn lookup(s: StateView, id: Seq<u8>) -> Option<BlockView> {
    if s.verified.contains_key(id) {
        Some(s.verified[id])
    } else if s.committed.contains_key(id) {
        Some(s.committed[id])
    } else {
        None
    }
}

/// The store once the move of `b` is applied and `b` is committed.
pub open spec fn accepted_state(s: StateView, b: BlockView) -> StateView {
    StateView {
        board: next_board(s.board, b.player_move),
        winners: match move_winner(s.board, b.player_move) {
            Some(w) => s.winners.push(w),
            None => s.winners,
        },
        verified: s.verified.remove(b.id),
        committed: s.committed.insert(b.id, b),
    }
}

/// The store once the block with id `id` is no longer verified.
pub open spec fn discarded_state(s: StateView, id: Seq<u8>) -> StateView {
    StateView { verified: s.verified.remove(id), ..s }
}

/// Manages the board and the blocks of one chain.
#[derive(Debug)]
pub struct State {
    /// The packed board of the game in progress.
    pub curr_game: u32,
    /// The winner (0 or 1) of each finished game, in order.
    pub winners: Vec<u32>,
    /// Blocks verified but neither accepted nor rejected.
    pub verified_blocks: Vec<Block>,
    /// Committed blocks.
    pub blk_map: Vec<Block>,
}

impl View for State {
    type V = StateView;

    open spec fn view(&self) -> StateView {
        StateView {
            board: self.curr_game,
            winners: self.winners@,
            verified: blocks_map(self.verified_blocks@),
            committed: blocks_map(self.blk_map@),
        }
    }
}

/// The list with every block of id `id` left out.
pub open spec fn without_id(s: Seq<Block>, id: Seq<u8>) -> Seq<Block> {
    s.filter(|b: Block| b@.id != id)
}

proof fn lemma_without_id(s: Seq<Block>, id: Seq<u8>)
    ensures
        blocks_map(without_id(s, id)) == blocks_map(s).remove(id),
    decreases s.len(),
{
    if s.len() == 0 {
        assert(without_id(s, id) =~= s);
        assert(blocks_map(s).remove(id) =~= blocks_map(s));
    } else {
        let f = |b: Block| b@.id != id;
        lemma_without_id(s.drop_last(), id);
        assert(s =~= s.drop_last().push(s.last()));
        s.drop_last().lemma_filter_push(s.last(), f);
        if s.last()@.id == id {
            assert(blocks_map(s).remove(id) =~= blocks_map(s.drop_last()).remove(id));
        } else {
            let w = without_id(s, id);
            assert(w.drop_last() =~= without_id(s.drop_last(), id));
            assert(blocks_map(s).remove(id) =~= blocks_map(s.drop_last()).remove(id).insert(
                s.last()@.id,
                s.last()@,
            ));
        }
    }
}

proof fn lemma_map_last(s: Seq<Block>, i: int, id: Seq<u8>)
    requires
        0 <= i < s.len(),
        s[i]@.id == id,
        forall|j: int| i < j < s.len() ==> #[trigger] s[j]@.id != id,
    ensures
        blocks_map(s).contains_key(id),
        blocks_map(s)[id] == s[i]@,
    decreases s.len(),
{
    if i < s.len() - 1 {
        lemma_map_last(s.drop_last(), i, id);
    }
}

proof fn lemma_map_absent(s: Seq<Block>, id: Seq<u8>)
    requires
        forall|j: int| 0 <= j < s.len() ==> #[trigger] s[j]@.id != id,
    ensures
        !blocks_map(s).contains_key(id),
    decreases s.len(),
{
    if s.len() > 0 {
        lemma_map_absent(s.drop_last(), id);
    }
}

/// The position of the last block of `s` with id `id`, if any.
fn find_block(s: &Vec<Block>, id: &BlockId) -> (r: Option<usize>)
    ensures
        match r {
            Some(i) => i < s@.len() && blocks_map(s@).contains_key(id@) && blocks_map(s@)[id@]
                == s@[i as int]@,
            None => !blocks_map(s@).contains_key(id@),
        },
{
    let mut i: usize = s.len();
    while i > 0
        invariant
            i <= s@.len(),
            forall|j: int| i <= j < s@.len() ==> #[trigger] s@[j]@.id != id@,
        decreases i,
    {
        i = i - 1;
        if s[i].id().same_as(id) {
            proof {
                lemma_map_last(s@, i as int, id@);
            }
            return Some(i);
        }
    }
    proof {
        lemma_map_absent(s@, id@);
    }
    None
}

impl State {
    /// An empty store: empty board, no winners, no blocks.
    pub fn new() -> (r: State)
        ensures
            r@ == (StateView {
                board: 0,
                winners: Seq::empty(),
                verified: Map::empty(),
                committed: Map::empty(),
            }),
    {
        let r = State {
            curr_game: 0,
            winners: Vec::new(),
            verified_blocks: Vec::new(),
            blk_map: Vec::new(),
        };
        assert(r@.winners =~= Seq::empty());
        r
    }

    /// The packed board of the game in progress.
    pub fn get_curr_game(&self) -> (r: u32)
        ensures
            r == self@.board,
    {
        self.curr_game
    }

    /// The winner of the `i`-th finished game, if that many have finished.
    pub fn get_winner(&self, i: usize) -> (r: Option<u32>)
        ensures
            i < self@.winners.len() ==> r == Some(self@.winners[i as int]),
            i >= self@.winners.len() ==> r is None,
    {
        if i < self.winners.len() {
            Some(self.winners[i])
        } else {
            None
        }
    }

    /// The block with id `blk_id`: among the verified blocks first, then
    /// among the committed ones.
    pub fn get_block(&self, blk_id: &BlockId) -> (r: Result<Block, BlockError>)
        ensures
            match lookup(self@, blk_id@) {
                Some(v) => r matches Ok(b) && b@ == v,
                None => r == Err::<Block, BlockError>(BlockError::NotFound),
            },
    {
        match find_block(&self.verified_blocks, blk_id) {
            Some(i) => Ok(self.verified_blocks[i].duplicate()),
            None => match find_block(&self.blk_map, blk_id) {
                Some(i) => Ok(self.blk_map[i].duplicate()),
                None => Err(BlockError::NotFound),
            },
        }
    }

    /// Records `block` as verified, in place of any block of the same id.
    pub fn add_verified(&mut self, block: &Block)
        ensures
            final(self)@ == (StateView {
                verified: old(self)@.verified.insert(block@.id, block@),
                ..old(self)@
            }),
    {
        self.verified_blocks.push(block.duplicate());
        assert(self.verified_blocks@.drop_last() =~= old(self).verified_blocks@);
    }

    /// Forgets the verified block of id `blk_id`, if there is one.
    pub fn remove_verified(&mut self, blk_id: &BlockId)
        ensures
            final(self)@ == discarded_state(old(self)@, blk_id@),
    {
        let ghost orig = self.verified_blocks@;
        let ghost mut j: int = 0;
        let mut i: usize = 0;
        while i < self.verified_blocks.len()
            invariant
                0 <= j <= orig.len(),
                self.curr_game == old(self).curr_game,
                self.winners == old(self).winners,
                self.blk_map == old(self).blk_map,
                i == without_id(orig.subrange(0, j), blk_id@).len(),
                self.verified_blocks@ == without_id(orig.subrange(0, j), blk_id@) + orig.subrange(
                    j,
                    orig.len() as int,
                ),
            decreases orig.len() - j,
        {
            proof {
                assert(orig.subrange(0, j + 1) =~= orig.subrange(0, j).push(orig[j]));
                orig.subrange(0, j).lemma_filter_push(orig[j], |b: Block| b@.id != blk_id@);
                assert(self.verified_blocks@[i as int] == orig[j]);
            }
            if self.verified_blocks[i].id().same_as(blk_id) {
                let _ = self.verified_blocks.remove(i);
                proof {
                    assert(self.verified_blocks@ =~= without_id(orig.subrange(0, j + 1), blk_id@)
                        + orig.subrange(j + 1, orig.len() as int));
                }
            } else {
                i = i + 1;
                proof {
                    assert(self.verified_blocks@ =~= without_id(orig.subrange(0, j + 1), blk_id@)
                        + orig.subrange(j + 1, orig.len() as int));
                }
            }
            proof {
                j = j + 1;
            }
        }
        proof {
            assert(j == orig.len());
            assert(orig.subrange(0, j) =~= orig);
            assert(self.verified_blocks@ =~= without_id(orig, blk_id@));
            lemma_without_id(orig, blk_id@);
        }
    }

    /// Whether a verified block has id `blk_id`.
    pub fn has_verified(&self, blk_id: &BlockId) -> (r: bool)
        ensures
            r == self@.verified.contains_key(blk_id@),
    {
        find_block(&self.verified_blocks, blk_id).is_some()
    }

    /// Whether a committed block has id `blk_id`.
    pub fn has_committed(&self, blk_id: &BlockId) -> (r: bool)
        ensures
            r == self@.committed.contains_key(blk_id@),
    {
        find_block(&self.blk_map, blk_id).is_some()
    }

    /// Records `block` as committed, with no effect on the board; this is
    /// how a chain's first block enters the store.
    pub fn add_accepted(&mut self, block: &Block)
        ensures
            final(self)@ == (StateView {
                committed: old(self)@.committed.insert(block@.id, block@),
                ..old(self)@
            }),
    {
        self.blk_map.push(block.duplicate());
        assert(self.blk_map@.drop_last() =~= old(self).blk_map@);
    }

    /// Applies the move of `block` to the board: places the mover's marker,
    /// records the mover as winner if a line is completed, and empties the
    /// board on a win or a full board. Fails, changing nothing, when the
    /// move names no cell of the board.
    pub fn update_board(&mut self, block: &Block) -> (r: Result<(), BlockError>)
        ensures
            move_cell(block@.player_move) >= 9 ==> r == Err::<(), BlockError>(
                BlockError::StateUpdate,
            ) && final(self)@ == old(self)@,
            move_cell(block@.player_move) < 9 ==> r is Ok && final(self)@ == (StateView {
                board: next_board(old(self)@.board, block@.player_move),
                winners: match move_winner(old(self)@.board, block@.player_move) {
                    Some(w) => old(self)@.winners.push(w),
                    None => old(self)@.winners,
                },
                ..old(self)@
            }),
    {
        if block.get_move_index() >= crate::codec::CELLS {
            return Err(BlockError::StateUpdate);
        }
        let (board, winner) = resolve_move(self.curr_game, block.get_player_move());
        self.curr_game = board;
        match winner {
            Some(w) => self.winners.push(w),
            None => {},
        }
        Ok(())
    }
}

impl Default for State {
    fn default() -> (r: State)
        ensures
            r@ == (StateView {
                board: 0,
                winners: Seq::empty(),
                verified: Map::empty(),
                committed: Map::empty(),
            }),
    {
        State::new()
    }
}

/// Board and winners after accepting the given moves, in order, from an
/// empty board.
pub open spec fn replay(moves: Seq<u8>) -> (u32, Seq<u32>)
    decreases moves.len(),
{
    if moves.len() == 0 {
        (0, Seq::empty())
    } else {
        let (board, winners) = replay(moves.drop_last());
        let mv = moves.last();
        (
            next_board(board, mv),
            match move_winner(board, mv) {
                Some(w) => winners.push(w),
                None => winners,
            },
        )
    }
}

/// Accepting a block on a store whose board and winners are those of a
/// replay of some moves gives the board and winners of the replay of those
/// moves followed by the block's move: what accepting a chain of blocks
/// leaves depends on the sequence of their moves alone.
pub proof fn lemma_accept_replays(s: StateView, moves: Seq<u8>, b: BlockView)
    requires
        s.board == replay(moves).0,
        s.winners == replay(moves).1,
    ensures
        accepted_state(s, b).board == replay(moves.push(b.player_move)).0,
        accepted_state(s, b).winners == replay(moves.push(b.player_move)).1,
{
    assert(moves.push(b.player_move).drop_last() =~= moves);
}

/// Two stores that agree on board and winners still agree on them after
/// accepting the same block.
pub proof fn lemma_accept_deterministic(s1: StateView, s2: StateView, b: BlockView)
    requires
        s1.board == s2.board,
        s1.winners == s2.winners,
    ensures
        accepted_state(s1, b).board == accepted_state(s2, b).board,
        accepted_state(s1, b).winners == accepted_state(s2, b).winners,
{
}

} // verus!
