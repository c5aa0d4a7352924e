//! A miner on its own: it searches on whatever data it is handed, from a
//! nonce counter that it keeps, and records the blocks that it finds.

use crate::hashing::{
    block_id, block_id_for, candidate, lemma_next_solution, next_solution, sha256, solved_within,
    sweep,
};
use crate::error::PoolError;
use crate::pool::{block_views, BlockView, SolvedBlock};
use vstd::prelude::*;

verus! {

/// How many nonces `mine_block` tries where the caller sets no bound.
pub const DEFAULT_ITERATIONS: u64 = 1_000_000;

/// What a miner hashes: its id, then the data.
pub open spec fn labelled(miner_id: Seq<char>, data: Seq<char>) -> Seq<u8> {
    vstd::utf8::encode_utf8(miner_id) + vstd::utf8::encode_utf8(data)
}

/// The bytes of `miner_id`, then `data`.
fn label_bytes(miner_id: &str, data: &[u8]) -> (bytes: Vec<u8>)
    ensures
        bytes@ == vstd::utf8::encode_utf8(miner_id@) + data@,
{
    let mut bytes = miner_id.as_bytes_vec();
    let mut i: usize = 0;
    while i < data.len()
        invariant
            i <= data.len(),
            bytes@ == vstd::utf8::encode_utf8(miner_id@) + data@.take(i as int),
        decreases data.len() - i,
    {
        bytes.push(data[i]);
        i += 1;
    }
    assert(data@.take(i as int) =~= data@);
    bytes
}

/// The miner as contracts see it.
#[verifier::ext_equal]
pub struct MinerView {
    /// The blocks found, oldest first.
    pub blocks: Seq<BlockView>,
    /// How many leading zero digits a winning digest must have.
    pub difficulty: u32,
    /// Whether mining is allowed.
    pub active: bool,
    /// The nonce at which the next search begins.
    pub next_nonce: u64,
}

impl MinerView {
    /// A miner that has found nothing yet and is allowed to mine.
    pub open spec fn fresh() -> MinerView {
        MinerView { blocks: Seq::empty(), difficulty: 4, active: true, next_nonce: 0 }
    }

    /// Whether a block was recorded under `id`.
    pub open spec fn has_block(self, id: Seq<char>) -> bool {
        exists|i: int| 0 <= i < self.blocks.len() && self.blocks[i].block_id == id
    }

    /// No block id was recorded twice.
    pub open spec fn wf(self) -> bool {
        forall|i: int, j: int|
            0 <= i < j < self.blocks.len() ==> self.blocks[i].block_id != self.blocks[j].block_id
    }

    /// The counter after one search has taken its first nonce from it. It
    /// begins again at zero after the greatest value.
    pub open spec fn counter_after(self) -> u64 {
        if self.next_nonce == u64::MAX {
            0
        } else {
            (self.next_nonce + 1) as u64
        }
    }

    /// Whether a search on `payload` over `count` nonces finds a solution.
    pub open spec fn finds(self, payload: Seq<u8>, count: u64) -> bool {
        self.active && solved_within(
            payload,
            self.difficulty as nat,
            self.next_nonce as nat,
            count as nat,
        )
    }

    /// The id of the block that such a search finds.
    pub open spec fn found_id(self, payload: Seq<u8>) -> Seq<char> {
        block_id(
            sha256(
                candidate(
                    payload,
                    next_solution(payload, self.difficulty as nat, self.next_nonce as nat),
                ),
            ),
        )
    }

    /// Whether such a search records a block: it finds one that is not
    /// there yet.
    pub open spec fn records(self, payload: Seq<u8>, count: u64) -> bool {
        self.finds(payload, count) && !self.has_block(self.found_id(payload))
    }

    /// The miner after a search on `payload` that keeps `data` with what it
    /// finds.
    pub open spec fn mine(self, payload: Seq<u8>, data: Seq<u8>, count: u64) -> MinerView {
        MinerView {
            blocks: if self.records(payload, count) {
                self.blocks.push(BlockView { block_id: self.found_id(payload), payload: data })
            } else {
                self.blocks
            },
            next_nonce: self.counter_after(),
            ..self
        }
    }
}

/// The miner.
pub struct MiningState {
    blocks: Vec<SolvedBlock>,
    difficulty: u32,
    is_mining_active: bool,
    next_nonce: u64,
}

impl View for MiningState {
    type V = MinerView;

    closed spec fn view(&self) -> MinerView {
        MinerView {
            blocks: block_views(self.blocks@),
            difficulty: self.difficulty,
            active: self.is_mining_active,
            next_nonce: self.next_nonce,
        }
    }
}

impl MiningState {
    #[verifier::type_invariant]
    spec fn sound(self) -> bool {
        self@.wf()
    }

    /// A miner that has found nothing yet and is allowed to mine.
    pub fn init() -> (miner: MiningState)
        ensures
            miner@ == MinerView::fresh(),
            miner@.wf(),
    {
        MiningState { blocks: Vec::new(), difficulty: 4, is_mining_active: true, next_nonce: 0 }
    }

    /// Moves the miner out and leaves a fresh one in its place, so that its
    /// parts can be changed together.
    fn take(&mut self) -> (taken: MiningState)
        ensures
            taken@ == old(self)@,
            taken@.wf(),
    {
        proof {
            use_type_invariant(&*self);
        }
        let mut taken = MiningState::init();
        std::mem::swap(self, &mut taken);
        taken
    }

    /// Whether mining is allowed.
    pub fn is_active(&self) -> (active: bool)
        ensures
            active == self@.active,
    {
        self.is_mining_active
    }

    /// The nonce at which the next search begins.
    pub fn next_nonce(&self) -> (nonce: u64)
        ensures
            nonce == self@.next_nonce,
    {
        self.next_nonce
    }

    /// The difficulty of the searches.
    pub fn difficulty(&self) -> (difficulty: u32)
        ensures
            difficulty == self@.difficulty,
    {
        self.difficulty
    }

    /// Where the block recorded under `id` stands.
    fn find_block(&self, id: &String) -> (found: Option<usize>)
        ensures
            match found {
                Some(i) => i < self@.blocks.len() && self@.blocks[i as int].block_id == id@,
                None => !self@.has_block(id@),
            },
    {
        let mut i: usize = 0;
        while i < self.blocks.len()
            invariant
                i <= self.blocks.len(),
                forall|k: int| 0 <= k < i ==> self@.blocks[k].block_id != id@,
            decreases self.blocks.len() - i,
        {
            if self.blocks[i].block_id == *id {
                return Some(i);
            }
            i += 1;
        }
        None
    }

    /// Whether the nonces of a search with this bound can all be counted:
    /// only then may `mine_block` be called.
    pub fn has_room(&self, max_iterations: Option<u64>) -> (room: bool)
        ensures
            room == (self@.next_nonce + (match max_iterations {
                Some(count) => count,
                None => DEFAULT_ITERATIONS,
            }) <= u64::MAX),
    {
        let count: u64 = match max_iterations {
            Some(count) => count,
            None => DEFAULT_ITERATIONS,
        };
        count <= u64::MAX - self.next_nonce
    }

    /// Searches on `miner_id` and `data` from the miner's nonce counter on,
    /// over `max_iterations` nonces, or `DEFAULT_ITERATIONS` where none is
    /// given, and records the first block found with `data`.
    ///
    /// Returns its id. Nothing is returned, and nothing recorded, where
    /// mining is not allowed, where no nonce solves the search, and where
    /// the block found is recorded already. The counter moves on by one
    /// whatever happens.
    pub fn mine_block(
        &mut self,
        miner_id: String,
        data: String,
        max_iterations: Option<u64>,
    ) -> (result: Result<Option<String>, PoolError>)
        requires
            old(self)@.next_nonce + (match max_iterations {
                Some(count) => count,
                None => DEFAULT_ITERATIONS,
            }) <= u64::MAX,
        ensures
            ({
                let count = match max_iterations {
                    Some(count) => count,
                    None => DEFAULT_ITERATIONS,
                };
                let payload = labelled(miner_id@, data@);
                let before = old(self)@;
                &&& final(self)@ == before.mine(payload, vstd::utf8::encode_utf8(data@), count)
                &&& result matches Ok(found)
                &&& match found {
                    Some(id) => before.records(payload, count) && id@ == before.found_id(payload),
                    None => !before.records(payload, count),
                }
            }),
            final(self)@.wf(),
    {
        let count: u64 = match max_iterations {
            Some(count) => count,
            None => DEFAULT_ITERATIONS,
        };
        let stored = data.as_str().as_bytes_vec();
        let payload = label_bytes(miner_id.as_str(), stored.as_slice());
        let ghost before = self@;
        let start: u64 = self.next_nonce;
        let found = if self.is_mining_active {
            sweep(payload.as_slice(), self.difficulty, start, count)
        } else {
            None
        };
        let kept: Option<String> = match found {
            Some((nonce, hashed)) => {
                proof {
                    lemma_next_solution(
                        payload@,
                        before.difficulty as nat,
                        start as nat,
                        nonce as nat,
                    );
                }
                let id = block_id_for(hashed.as_slice());
                if self.find_block(&id).is_some() {
                    None
                } else {
                    Some(id)
                }
            },
            None => None,
        };
        let MiningState { blocks, difficulty, is_mining_active, next_nonce: _ } = self.take();
        let mut blocks = blocks;
        let answer: Option<String> = match kept {
            Some(id) => {
                let block = SolvedBlock { block_id: id.clone(), payload: stored };
                proof {
                    assert forall|i: int| 0 <= i < before.blocks.len() implies before.blocks[i].block_id
                        != block@.block_id by {
                        if before.blocks[i].block_id == block@.block_id {
                            assert(before.has_block(block@.block_id));
                        }
                    }
                }
                blocks.push(block);
                Some(id)
            },
            None => None,
        };
        assert(block_views(blocks@) == before.mine(
            payload@,
            vstd::utf8::encode_utf8(data@),
            count,
        ).blocks);
        *self = MiningState {
            blocks,
            difficulty,
            is_mining_active,
            next_nonce: start.wrapping_add(1),
        };
        Ok(answer)
    }

    /// Forbids mining.
    pub fn stop_mining(&mut self) -> (result: Result<(), PoolError>)
        ensures
            result is Ok,
            final(self)@ == (MinerView { active: false, ..old(self)@ }),
            final(self)@.wf(),
    {
        self.set_active(false);
        Ok(())
    }

    /// Allows mining.
    pub fn start_mining(&mut self) -> (result: Result<(), PoolError>)
        ensures
            result is Ok,
            final(self)@ == (MinerView { active: true, ..old(self)@ }),
            final(self)@.wf(),
    {
        self.set_active(true);
        Ok(())
    }

    /// Allows or forbids mining.
    fn set_active(&mut self, active: bool)
        ensures
            final(self)@ == (MinerView { active, ..old(self)@ }),
            final(self)@.wf(),
    {
        let MiningState { blocks, difficulty, is_mining_active: _, next_nonce } = self.take();
        *self = MiningState { blocks, difficulty, is_mining_active: active, next_nonce };
    }

    /// The ids of the blocks found, oldest first.
    pub fn get_mined_blocks(&self) -> (ids: Vec<String>)
        ensures
            ids@.len() == self@.blocks.len(),
            forall|i: int| 0 <= i < ids@.len() ==> ids@[i]@ == self@.blocks[i].block_id,
    {
        let mut ids: Vec<String> = Vec::new();
        let mut i: usize = 0;
        while i < self.blocks.len()
            invariant
                i <= self.blocks.len(),
                ids@.len() == i,
                forall|k: int| 0 <= k < i ==> ids@[k]@ == self@.blocks[k].block_id,
            decreases self.blocks.len() - i,
        {
            ids.push(self.blocks[i].block_id.clone());
            i += 1;
        }
        ids
    }
}

} // verus!
