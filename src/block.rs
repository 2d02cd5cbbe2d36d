//! Blocks: immutable, hash-identified values that each carry one move, and
//! their canonical byte form.

use crate::codec::{move_cell, slot};
use crate::state::{accepted_state, discarded_state, lookup, State, StateView};
use vstd::prelude::*;

verus! {

/// Length of a block id (a SHA-256 digest).
pub const ID_LEN: usize = 32;

/// Length of a block's canonical bytes: parent id, big-endian height, move.
pub const BLOCK_LEN: usize = 41;

/// The SHA-256 digest of the given bytes, as computed by `avalanche_types`.
pub uninterp spec fn sha256_of(d: Seq<u8>) -> Seq<u8>;

/// The 32-byte identity of a block.
#[derive(Clone, Copy, Debug)]
pub struct BlockId {
    bytes: [u8; 32],
}

impl View for BlockId {
    type V = Seq<u8>;

    closed spec fn view(&self) -> Seq<u8> {
        self.bytes@
    }
}

/// Relies on `avalanche_types::ids::Id::sha256`: the SHA-256 digest of the
/// bytes, 32 bytes long.
#[verifier::external_body]
fn sha256_id(d: &[u8]) -> (r: BlockId)
    ensures
        r@ == sha256_of(d@),
        r@.len() == ID_LEN,
{
    let id = avalanche_types::ids::Id::sha256(d);
    let mut bytes = [0u8; 32];
    bytes.copy_from_slice(id.as_ref());
    BlockId { bytes }
}

impl BlockId {
    /// The id made of the given bytes.
    pub fn new(bytes: [u8; 32]) -> (r: BlockId)
        ensures
            r@ == bytes@,
    {
        BlockId { bytes }
    }

    /// The all-zero id.
    pub fn empty() -> (r: BlockId)
        ensures
            r@ == Seq::new(32, |i: int| 0u8),
    {
        let r = BlockId { bytes: [0u8; 32] };
        assert(r@ =~= Seq::new(32, |i: int| 0u8));
        r
    }

    /// The id's bytes.
    pub fn to_bytes(&self) -> (r: [u8; 32])
        ensures
            r@ == self@,
    {
        self.bytes
    }

    /// Whether two ids hold the same bytes.
    pub fn same_as(&self, other: &BlockId) -> (r: bool)
        ensures
            r == (self@ == other@),
    {
        let mut i: usize = 0;
        while i < ID_LEN
            invariant
                i <= 32,
                self@.len() == 32,
                other@.len() == 32,
                forall|j: int| 0 <= j < i ==> self@[j] == other@[j],
            decreases 32 - i,
        {
            if self.bytes[i] != other.bytes[i] {
                return false;
            }
            i = i + 1;
        }
        assert(self@ =~= other@);
        true
    }
}

/// Lifecycle status of a block.
#[derive(Clone, Copy, Debug, PartialEq, Eq, Structural)]
pub enum Status {
    Processing,
    Verified,
    Accepted,
    Rejected,
}

/// Why an operation on a block failed.
#[derive(Clone, Copy, Debug, PartialEq, Eq, Structural)]
pub enum BlockError {
    /// The block could not be encoded.
    Encoding,
    /// The bytes are not a block's canonical form.
    Decoding,
    /// The parent is neither verified nor committed.
    UnknownParent,
    /// The height is not the parent's height plus one.
    InvalidHeight,
    /// The target cell is already occupied.
    IllegalMove,
    /// The move names a cell outside the nine of the board.
    InvalidCell,
    /// The accepted move could not be applied to the board.
    StateUpdate,
    /// No block has the requested id.
    NotFound,
}

/// What a block holds, as mathematical values.
pub ghost struct BlockView {
    pub parent_id: Seq<u8>,
    pub height: u64,
    pub player_move: u8,
    pub status: Status,
    pub bytes: Seq<u8>,
    pub id: Seq<u8>,
}

/// Big-endian bytes of a `u64`.
pub open spec fn be_bytes(h: u64) -> Seq<u8> {
    seq![
        (h >> 56u64) as u8,
        (h >> 48u64) as u8,
        (h >> 40u64) as u8,
        (h >> 32u64) as u8,
        (h >> 24u64) as u8,
        (h >> 16u64) as u8,
        (h >> 8u64) as u8,
        h as u8,
    ]
}

/// The `u64` whose big-endian bytes are the first eight of `s`.
pub open spec fn be_value(s: Seq<u8>) -> u64
    recommends
        s.len() >= 8,
{
    ((s[0] as u64) << 56u64) | ((s[1] as u64) << 48u64) | ((s[2] as u64) << 40u64) | ((
    s[3] as u64) << 32u64) | ((s[4] as u64) << 24u64) | ((s[5] as u64) << 16u64) | ((
    s[6] as u64) << 8u64) | (s[7] as u64)
}

/// Canonical bytes of a block: parent id, big-endian height, move.
pub open spec fn encode_block(parent_id: Seq<u8>, height: u64, player_move: u8) -> Seq<u8> {
    parent_id + be_bytes(height) + seq![player_move]
}

/// The parent id, height and move that canonical bytes hold, if they are
/// a block's canonical form.
pub open spec fn decode_block(d: Seq<u8>) -> Option<(Seq<u8>, u64, u8)> {
    if d.len() == BLOCK_LEN {
        Some((d.subrange(0, 32), be_value(d.subrange(32, 40)), d[40]))
    } else {
        None
    }
}

/// The block that `try_new` builds from its arguments.
pub open spec fn built_view(parent_id: Seq<u8>, height: u64, player_move: u8, status: Status) -> BlockView {
    let bytes = encode_block(parent_id, height, player_move);
    BlockView { parent_id, height, player_move, status, bytes, id: sha256_of(bytes) }
}

/// The block that `from_slice` reads from `d`, if `d` is canonical.
pub open spec fn decoded_view(d: Seq<u8>) -> Option<BlockView> {
    match decode_block(d) {
        Some((parent_id, height, player_move)) => Some(
            BlockView {
                parent_id,
                height,
                player_move,
                status: Status::Processing,
                bytes: d,
                id: sha256_of(d),
            },
        ),
        None => None,
    }
}

/// Reading back a block's canonical bytes gives the same parent, height,
/// move, bytes and id; only the status, which is not encoded, starts over
/// as `Processing`.
pub proof fn lemma_round_trip(parent_id: Seq<u8>, height: u64, player_move: u8, status: Status)
    requires
        parent_id.len() == ID_LEN,
    ensures
        decode_block(encode_block(parent_id, height, player_move)) == Some(
            (parent_id, height, player_move),
        ),
        decoded_view(built_view(parent_id, height, player_move, status).bytes) == Some(
            (BlockView { status: Status::Processing, ..built_view(parent_id, height, player_move, status) }),
        ),
{
    let e = encode_block(parent_id, height, player_move);
    assert(e.subrange(0, 32) =~= parent_id);
    assert(e.subrange(32, 40) =~= be_bytes(height));
    let h = height;
    assert(be_value(be_bytes(h)) == h) by (bit_vector);
}

/// A block of the chain.
#[derive(Debug)]
pub struct Block {
    parent_id: BlockId,
    height: u64,
    player_move: u8,
    status: Status,
    bytes: Vec<u8>,
    id: BlockId,
}

impl View for Block {
    type V = BlockView;

    closed spec fn view(&self) -> BlockView {
        BlockView {
            parent_id: self.parent_id@,
            height: self.height,
            player_move: self.player_move,
            status: self.status,
            bytes: self.bytes@,
            id: self.id@,
        }
    }
}

fn copy_bytes(d: &[u8]) -> (r: Vec<u8>)
    ensures
        r@ == d@,
{
    let mut r: Vec<u8> = Vec::new();
    let mut i: usize = 0;
    while i < d.len()
        invariant
            i <= d@.len(),
            r@ == d@.subrange(0, i as int),
        decreases d@.len() - i,
    {
        r.push(d[i]);
        i = i + 1;
        assert(r@ =~= d@.subrange(0, i as int));
    }
    assert(d@.subrange(0, d@.len() as int) =~= d@);
    r
}

impl Block {
    /// Builds a block and computes its canonical bytes and id.
    pub fn try_new(parent_id: BlockId, height: u64, player_move: u8, status: Status) -> (r: Result<Block, BlockError>)
        ensures
            r matches Ok(b) && b@ == built_view(parent_id@, height, player_move, status),
    {
        let bytes = encode_fields(&parent_id, height, player_move);
        let id = sha256_id(bytes.as_slice());
        Ok(Block { parent_id, height, player_move, status, bytes, id })
    }

    /// The canonical bytes of this block's parent id, height and move.
    pub fn to_vec(&self) -> (r: Vec<u8>)
        ensures
            r@ == encode_block(self@.parent_id, self@.height, self@.player_move),
    {
        encode_fields(&self.parent_id, self.height, self.player_move)
    }

    /// Reads a block from canonical bytes; its id is the digest of exactly
    /// those bytes.
    pub fn from_slice(d: &[u8]) -> (r: Result<Block, BlockError>)
        ensures
            decoded_view(d@) is None ==> r == Err::<Block, BlockError>(BlockError::Decoding),
            decoded_view(d@) matches Some(v) ==> (r matches Ok(b) && b@ == v),
    {
        if d.len() != BLOCK_LEN {
            return Err(BlockError::Decoding);
        }
        let mut p = [0u8; 32];
        let mut i: usize = 0;
        while i < ID_LEN
            invariant
                i <= 32,
                d@.len() == 41,
                p@.len() == 32,
                forall|j: int| 0 <= j < i ==> p@[j] == d@[j],
            decreases 32 - i,
        {
            p[i] = d[i];
            i = i + 1;
        }
        assert(p@ =~= d@.subrange(0, 32));
        let height: u64 = ((d[32] as u64) << 56u64) | ((d[33] as u64) << 48u64) | ((
        d[34] as u64) << 40u64) | ((d[35] as u64) << 32u64) | ((d[36] as u64) << 24u64) | ((
        d[37] as u64) << 16u64) | ((d[38] as u64) << 8u64) | (d[39] as u64);
        assert(height == be_value(d@.subrange(32, 40)));
        let bytes = copy_bytes(d);
        let id = sha256_id(d);
        Ok(Block {
            parent_id: BlockId { bytes: p },
            height,
            player_move: d[40],
            status: Status::Processing,
            bytes,
            id,
        })
    }

    /// A copy of this block.
    pub fn duplicate(&self) -> (r: Block)
        ensures
            r@ == self@,
    {
        Block {
            parent_id: self.parent_id,
            height: self.height,
            player_move: self.player_move,
            status: self.status,
            bytes: copy_bytes(self.bytes.as_slice()),
            id: self.id,
        }
    }

    /// The parent block's id.
    pub fn parent_id(&self) -> (r: BlockId)
        ensures
            r@ == self@.parent_id,
    {
        self.parent_id
    }

    /// The height of this block.
    pub fn height(&self) -> (r: u64)
        ensures
            r == self@.height,
    {
        self.height
    }

    /// The encoded move this block carries.
    pub fn get_player_move(&self) -> (r: u8)
        ensures
            r == self@.player_move,
    {
        self.player_move
    }

    /// The lifecycle status of this block.
    pub fn status(&self) -> (r: Status)
        ensures
            r == self@.status,
    {
        self.status
    }

    /// Sets the lifecycle status; nothing else changes.
    pub fn set_status(&mut self, status: Status)
        ensures
            final(self)@ == (BlockView { status, ..old(self)@ }),
    {
        self.status = status;
    }

    /// The canonical bytes this block was built or read from.
    pub fn bytes(&self) -> (r: &[u8])
        ensures
            r@ == self@.bytes,
    {
        self.bytes.as_slice()
    }

    /// The id of this block.
    pub fn id(&self) -> (r: BlockId)
        ensures
            r@ == self@.id,
    {
        self.id
    }

    /// The cell index of this block's move.
    pub fn get_move_index(&self) -> (r: u8)
        ensures
            r == crate::codec::move_cell(self@.player_move),
    {
        crate::codec::decode_cell(self.player_move)
    }

    /// The raw player bit of this block's move (0 or 16).
    pub fn get_player_id(&self) -> (r: u8)
        ensures
            r == crate::codec::move_player_bit(self@.player_move),
    {
        crate::codec::decode_player(self.player_move)
    }
}

/// What `verify` decides for block `b` on store `s`.
pub open spec fn verify_outcome(s: StateView, b: BlockView) -> Result<(), BlockError> {
    if s.committed.contains_key(b.id) {
        Ok(())
    } else {
        match lookup(s, b.parent_id) {
            None => Err(BlockError::UnknownParent),
            Some(p) => if p.height + 1 != b.height {
                Err(BlockError::InvalidHeight)
            } else if move_cell(b.player_move) >= 9 {
                Err(BlockError::InvalidCell)
            } else if slot(s.board, move_cell(b.player_move) as u32) != 0 {
                Err(BlockError::IllegalMove)
            } else {
                Ok(())
            },
        }
    }
}

impl Block {
    /// Checks this block against the store. A committed block passes at
    /// once. Otherwise the parent must be known, the height must follow the
    /// parent's, and the move must name an empty cell of the board; the
    /// block is then recorded as verified. The board never changes here.
    pub fn verify(&mut self, state: &mut State) -> (r: Result<(), BlockError>)
        ensures
            r == verify_outcome(old(state)@, old(self)@),
            old(state)@.committed.contains_key(old(self)@.id) || r is Err ==> final(self)@ == old(
                self,
            )@ && final(state)@ == old(state)@,
            !old(state)@.committed.contains_key(old(self)@.id) && r is Ok ==> final(self)@ == (
            BlockView { status: Status::Verified, ..old(self)@ }) && final(state)@ == (StateView {
                verified: old(state)@.verified.insert(old(self)@.id, final(self)@),
                ..old(state)@
            }),
    {
        if state.has_committed(&self.id) {
            return Ok(());
        }
        let parent = match state.get_block(&self.parent_id) {
            Ok(p) => p,
            Err(_) => {
                return Err(BlockError::UnknownParent);
            },
        };
        if self.height == 0 || parent.height() != self.height - 1 {
            return Err(BlockError::InvalidHeight);
        }
        let cell = self.get_move_index();
        if cell >= crate::codec::CELLS {
            return Err(BlockError::InvalidCell);
        }
        if crate::codec::read_cell(state.get_curr_game(), cell) != 0 {
            return Err(BlockError::IllegalMove);
        }
        self.set_status(Status::Verified);
        state.add_verified(self);
        Ok(())
    }

    /// Marks this block accepted: applies its move to the board, moves it
    /// from the verified blocks to the committed ones. Fails, changing
    /// nothing, when the move names no cell of the board.
    pub fn accept(&mut self, state: &mut State) -> (r: Result<(), BlockError>)
        ensures
            move_cell(old(self)@.player_move) >= 9 ==> r == Err::<(), BlockError>(
                BlockError::StateUpdate,
            ) && final(self)@ == old(self)@ && final(state)@ == old(state)@,
            move_cell(old(self)@.player_move) < 9 ==> r is Ok && final(self)@ == (BlockView {
                status: Status::Accepted,
                ..old(self)@
            }) && final(state)@ == accepted_state(old(state)@, final(self)@),
    {
        if self.get_move_index() >= crate::codec::CELLS {
            return Err(BlockError::StateUpdate);
        }
        self.set_status(Status::Accepted);
        let _ = state.update_board(self);
        state.remove_verified(&self.id);
        state.add_accepted(self);
        Ok(())
    }

    /// Marks this block rejected and forgets it among the verified blocks;
    /// the board never changes.
    pub fn reject(&mut self, state: &mut State) -> (r: Result<(), BlockError>)
        ensures
            r is Ok,
            final(self)@ == (BlockView { status: Status::Rejected, ..old(self)@ }),
            final(state)@ == discarded_state(old(state)@, old(self)@.id),
    {
        self.set_status(Status::Rejected);
        state.remove_verified(&self.id);
        Ok(())
    }
}

/// A block that is not committed and whose parent is known fails to verify
/// with `InvalidHeight` exactly when its height is not the parent's plus one.
pub proof fn lemma_height_rule(s: StateView, b: BlockView)
    requires
        !s.committed.contains_key(b.id),
        lookup(s, b.parent_id) is Some,
    ensures
        (verify_outcome(s, b) == Err::<(), BlockError>(BlockError::InvalidHeight)) == (lookup(
            s,
            b.parent_id,
        )->0.height + 1 != b.height),
{
}

/// For a block that is not committed, whose parent is known and height
/// right, and whose move names a cell of the board, verification fails with
/// `IllegalMove` exactly when that cell's slot is occupied.
pub proof fn lemma_occupancy_rule(s: StateView, b: BlockView)
    requires
        !s.committed.contains_key(b.id),
        lookup(s, b.parent_id) matches Some(p) && p.height + 1 == b.height,
        move_cell(b.player_move) < 9,
    ensures
        (verify_outcome(s, b) == Err::<(), BlockError>(BlockError::IllegalMove)) == (slot(
            s.board,
            move_cell(b.player_move) as u32,
        ) != 0),
        verify_outcome(s, b) is Ok == (slot(s.board, move_cell(b.player_move) as u32) == 0),
{
}

/// Rejecting a block a second time, or rejecting a block that was never
/// verified, leaves the store unchanged.
pub proof fn lemma_reject_idempotent(s: StateView, id: Seq<u8>)
    ensures
        discarded_state(discarded_state(s, id), id) == discarded_state(s, id),
        !s.verified.contains_key(id) ==> discarded_state(s, id) == s,
{
    assert(discarded_state(s, id).verified.remove(id) =~= s.verified.remove(id));
    if !s.verified.contains_key(id) {
        assert(s.verified.remove(id) =~= s.verified);
    }
}

fn encode_fields(parent_id: &BlockId, height: u64, player_move: u8) -> (r: Vec<u8>)
    ensures
        r@ == encode_block(parent_id@, height, player_move),
{
    let mut r: Vec<u8> = Vec::new();
    let mut i: usize = 0;
    while i < ID_LEN
        invariant
            i <= 32,
            parent_id@.len() == 32,
            r@ == parent_id@.subrange(0, i as int),
        decreases 32 - i,
    {
        r.push(parent_id.bytes[i]);
        i = i + 1;
        assert(r@ =~= parent_id@.subrange(0, i as int));
    }
    r.push((height >> 56u64) as u8);
    r.push((height >> 48u64) as u8);
    r.push((height >> 40u64) as u8);
    r.push((height >> 32u64) as u8);
    r.push((height >> 24u64) as u8);
    r.push((height >> 16u64) as u8);
    r.push((height >> 8u64) as u8);
    r.push(height as u8);
    r.push(player_move);
    assert(r@ =~= encode_block(parent_id@, height, player_move));
    r
}

} // verus!
