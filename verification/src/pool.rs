//! The pool state machine: one round at a time, the blocks that were
//! solved, and what the pool has announced.

use crate::error::PoolError;
use crate::hashing::{
    block_id, block_id_for, candidate, compute_sha256, digest_meets, hex, lemma_next_solution,
    meets_difficulty, next_solution, sha256, solved_within, sweep,
};
use crate::laws::law_search_counts_within_limit;
use crate::ledger::{
    lemma_share_within_capacity, reward_share, CapacityLedger, LedgerView, SEARCH_SPACE_SIZE,
};
use vstd::prelude::*;

verus! {

/// The difficulty of a pool on which no round has been started yet.
pub const DEFAULT_DIFFICULTY: u32 = 4;

/// A solved block, as contracts see it.
#[verifier::ext_equal]
pub struct BlockView {
    pub block_id: Seq<char>,
    pub payload: Seq<u8>,
}

/// A solved block: the id that its winning digest gave it, and the payload
/// of the round.
#[derive(Clone, Debug, PartialEq, Eq)]
pub struct SolvedBlock {
    pub block_id: String,
    pub payload: Vec<u8>,
}

impl View for SolvedBlock {
    type V = BlockView;

    open spec fn view(&self) -> BlockView {
        BlockView { block_id: self.block_id@, payload: self.payload@ }
    }
}

/// An announcement, as contracts see it.
#[verifier::ext_equal]
#[allow(inconsistent_fields)]
pub enum EventView {
    RoundStarted { payload: Seq<u8>, difficulty: u32 },
    WorkerJoined { worker_id: Seq<char>, hashrate: u64 },
    BlockFound { worker_id: Option<Seq<char>>, block_id: Seq<char>, reward: u64 },
    RoundStopped,
}

/// What the pool announces. An announcement is made once and not kept: who
/// is not listening when it is delivered misses it.
#[derive(Clone, Debug, PartialEq, Eq)]
#[allow(inconsistent_fields)]
pub enum MiningEvent {
    /// A round began on `payload`.
    RoundStarted { payload: Vec<u8>, difficulty: u32 },
    /// A worker registered for the round.
    WorkerJoined { worker_id: String, hashrate: u64 },
    /// A solution ended the round. `worker_id` is the worker whose search
    /// found it, and is absent where the solution was recorded directly.
    BlockFound { worker_id: Option<String>, block_id: String, reward: u64 },
    /// The round was stopped before it was solved.
    RoundStopped,
}

impl View for MiningEvent {
    type V = EventView;

    open spec fn view(&self) -> EventView {
        match *self {
            MiningEvent::RoundStarted { payload, difficulty } => EventView::RoundStarted {
                payload: payload@,
                difficulty,
            },
            MiningEvent::WorkerJoined { worker_id, hashrate } => EventView::WorkerJoined {
                worker_id: worker_id@,
                hashrate,
            },
            MiningEvent::BlockFound { worker_id, block_id, reward } => EventView::BlockFound {
                worker_id: match worker_id {
                    Some(id) => Some(id@),
                    None => None,
                },
                block_id: block_id@,
                reward,
            },
            MiningEvent::RoundStopped => EventView::RoundStopped,
        }
    }
}

/// The views of `blocks`, one for one.
pub open spec fn block_views(blocks: Seq<SolvedBlock>) -> Seq<BlockView> {
    blocks.map_values(|block: SolvedBlock| block@)
}

/// The views of `events`, one for one.
pub open spec fn event_views(events: Seq<MiningEvent>) -> Seq<EventView> {
    events.map_values(|event: MiningEvent| event@)
}

/// The pool as contracts see it.
#[verifier::ext_equal]
pub struct PoolView {
    /// What the round searches on: that of the last round started.
    pub payload: Seq<u8>,
    /// How many leading zero digits a winning digest must have.
    pub difficulty: u32,
    /// Whether a round is in progress.
    pub active: bool,
    /// The workers of the round.
    pub ledger: LedgerView,
    /// The solved blocks, oldest first.
    pub blocks: Seq<BlockView>,
    /// What was announced and not yet taken for delivery, oldest first.
    pub events: Seq<EventView>,
}

impl PoolView {
    /// A pool on which nothing has happened yet.
    pub open spec fn idle() -> PoolView {
        PoolView {
            payload: Seq::empty(),
            difficulty: DEFAULT_DIFFICULTY,
            active: false,
            ledger: LedgerView::empty(),
            blocks: Seq::empty(),
            events: Seq::empty(),
        }
    }

    /// Whether a block was recorded under `id`.
    pub open spec fn has_block(self, id: Seq<char>) -> bool {
        exists|i: int| 0 <= i < self.blocks.len() && self.blocks[i].block_id == id
    }

    /// The ledger is sound and no block id was recorded twice.
    pub open spec fn wf(self) -> bool {
        &&& self.ledger.wf()
        &&& forall|i: int, j: int|
            0 <= i < j < self.blocks.len() ==> self.blocks[i].block_id != self.blocks[j].block_id
    }

    /// The pool after it has announced `event`.
    pub open spec fn publish(self, event: EventView) -> PoolView {
        PoolView { events: self.events.push(event), ..self }
    }

    /// The pool after a round has begun: the new payload and difficulty, an
    /// empty ledger, and the announcement.
    pub open spec fn start_round(self, payload: Seq<u8>, difficulty: u32) -> PoolView {
        PoolView { payload, difficulty, active: true, ledger: LedgerView::empty(), ..self }.publish(
            EventView::RoundStarted { payload, difficulty },
        )
    }

    /// The pool after a stop: idle, with an announcement if a round was in
    /// progress, and otherwise as it was.
    pub open spec fn stop_round(self) -> PoolView {
        if self.active {
            PoolView { active: false, ..self }.publish(EventView::RoundStopped)
        } else {
            self
        }
    }

    /// The pool after the round has ended on the block `id`: idle, and the
    /// block recorded unless one already stands under that id.
    pub open spec fn seal(self, id: Seq<char>, payload: Seq<u8>) -> PoolView {
        PoolView {
            active: false,
            blocks: if self.has_block(id) {
                self.blocks
            } else {
                self.blocks.push(BlockView { block_id: id, payload })
            },
            ..self
        }
    }

    /// The pool after a solution has been recorded directly.
    pub open spec fn record_solution(self, id: Seq<char>, payload: Seq<u8>) -> PoolView {
        self.seal(id, payload).publish(
            EventView::BlockFound { worker_id: None, block_id: id, reward: 0 },
        )
    }

    /// The pool after `worker_id` has joined the round.
    pub open spec fn register(self, worker_id: Seq<char>, hashrate: u64) -> PoolView {
        PoolView { ledger: self.ledger.register(worker_id, hashrate), ..self }.publish(
            EventView::WorkerJoined { worker_id, hashrate },
        )
    }

    /// Whether a block already stands under the digest of the bare payload.
    pub open spec fn already_solved(self) -> bool {
        self.has_block(hex(sha256(self.payload)))
    }

    /// How many nonces a search of `worker_id` tries at most: its quota, or
    /// `max_candidates` where that is less.
    pub open spec fn search_limit(self, worker_id: Seq<char>, max_candidates: Option<u64>) -> nat {
        let quota = self.ledger.quota(worker_id);
        match max_candidates {
            Some(most) => if most < quota {
                most as nat
            } else {
                quota
            },
            None => quota,
        }
    }

    /// The reward of `worker_id` for a solution found at its `attempts`-th
    /// hash.
    pub open spec fn reward_for(self, worker_id: Seq<char>, attempts: u64) -> nat {
        reward_share(
            attempts as nat,
            self.ledger.get(worker_id).hashrate as nat,
            self.ledger.total,
        )
    }

    /// The pool after `worker_id` has won the round with `digest`, found at
    /// its `attempts`-th hash: the round is sealed and announced; the worker
    /// is credited unless the block was there before.
    pub open spec fn win(self, worker_id: Seq<char>, attempts: u64, digest: Seq<u8>) -> PoolView {
        let id = block_id(digest);
        let sealed = self.seal(id, self.payload);
        if self.has_block(id) {
            sealed.publish(
                EventView::BlockFound { worker_id: Some(worker_id), block_id: id, reward: 0 },
            )
        } else {
            let reward = self.reward_for(worker_id, attempts) as u64;
            PoolView { ledger: self.ledger.credit(worker_id, attempts, reward), ..sealed }.publish(
                EventView::BlockFound { worker_id: Some(worker_id), block_id: id, reward },
            )
        }
    }

    /// Whether a claim of `worker_id` with `digest` wins the round.
    pub open spec fn accepts(self, worker_id: Seq<char>, digest: Seq<u8>) -> bool {
        &&& self.active
        &&& self.ledger.is_active(worker_id)
        &&& meets_difficulty(digest, self.difficulty as nat)
    }

    /// The pool after `worker_id` has claimed `digest`: won if the claim is
    /// accepted, and otherwise as it was.
    pub open spec fn claim(self, worker_id: Seq<char>, attempts: u64, digest: Seq<u8>) -> PoolView {
        if self.accepts(worker_id, digest) {
            self.win(worker_id, attempts, digest)
        } else {
            self
        }
    }

    /// The pool after `worker_id` has tried `attempts` nonces in vain: the
    /// hashes are counted and its reward is nothing.
    pub open spec fn give_up(self, worker_id: Seq<char>, attempts: u64) -> PoolView {
        if self.active && self.ledger.is_active(worker_id) {
            PoolView { ledger: self.ledger.credit(worker_id, attempts, 0), ..self }
        } else {
            self
        }
    }

    /// Whether a search of `worker_id` gets as far as hashing.
    pub open spec fn searches(self, worker_id: Seq<char>) -> bool {
        self.active && self.ledger.is_active(worker_id) && !self.already_solved()
    }

    /// Whether a search of `worker_id` finds a solution.
    pub open spec fn finds(self, worker_id: Seq<char>, max_candidates: Option<u64>) -> bool {
        &&& self.searches(worker_id)
        &&& solved_within(
            self.payload,
            self.difficulty as nat,
            0,
            self.search_limit(worker_id, max_candidates),
        )
    }

    /// The nonce with which a search wins the round, where it finds one:
    /// the smallest that solves it.
    pub open spec fn winning_nonce(self) -> nat {
        next_solution(self.payload, self.difficulty as nat, 0)
    }

    /// The digest with which a search wins the round, where it finds one.
    pub open spec fn winning_digest(self) -> Seq<u8> {
        sha256(candidate(self.payload, self.winning_nonce()))
    }

    /// The pool after a search of `worker_id`.
    pub open spec fn search(self, worker_id: Seq<char>, max_candidates: Option<u64>) -> PoolView {
        if !self.searches(worker_id) {
            self
        } else if self.finds(worker_id, max_candidates) {
            self.win(worker_id, (self.winning_nonce() + 1) as u64, self.winning_digest())
        } else {
            self.give_up(worker_id, self.search_limit(worker_id, max_candidates) as u64)
        }
    }

    /// What a search of `worker_id` returns.
    pub open spec fn search_result(
        self,
        worker_id: Seq<char>,
        max_candidates: Option<u64>,
    ) -> Result<Option<Seq<char>>, PoolError> {
        if !self.active {
            Err(PoolError::RoundNotActive)
        } else if !self.ledger.is_active(worker_id) {
            Err(PoolError::WorkerNotActive)
        } else if self.finds(worker_id, max_candidates) {
            Ok(Some(block_id(self.winning_digest())))
        } else {
            Ok(None)
        }
    }
}

/// What the pool answers to one claimed digest.
#[derive(Clone, Debug, PartialEq, Eq)]
pub enum Probe {
    /// The digest misses the difficulty: the sweep goes on.
    Miss,
    /// No round is in progress any more: the sweep ends, nothing is credited.
    Stopped,
    /// The digest won the round; this is the id of its block.
    Found(String),
}

/// A search result with the block id as contracts see it.
pub open spec fn outcome(result: Result<Option<String>, PoolError>) -> Result<
    Option<Seq<char>>,
    PoolError,
> {
    match result {
        Ok(Some(id)) => Ok(Some(id@)),
        Ok(None) => Ok(None),
        Err(error) => Err(error),
    }
}

/// A reward is never more than the hashes it rewards, for a worker whose
/// hashrate is part of the total.
pub proof fn lemma_reward_bound(attempts: nat, hashrate: nat, total: nat)
    requires
        hashrate <= total,
    ensures
        reward_share(attempts, hashrate, total) <= attempts,
{
    let divisor: nat = if total == 0 { 1 } else { total };
    assert((attempts * hashrate) / divisor <= attempts) by (nonlinear_arith)
        requires
            hashrate <= divisor,
            divisor > 0,
    ;
}

/// Text is empty exactly where its bytes are.
pub proof fn lemma_text_bytes(text: Seq<char>)
    ensures
        vstd::utf8::encode_utf8(text).len() == 0 <==> text.len() == 0,
{
    reveal_with_fuel(vstd::utf8::encode_utf8, 2);
    if text.len() > 0 {
        assert(vstd::utf8::encode_scalar(text[0] as u32).len() > 0);
    }
}

/// The pool: the round, its ledger, the solved blocks and the outbox.
pub struct MiningPool {
    payload: Vec<u8>,
    difficulty: u32,
    active: bool,
    ledger: CapacityLedger,
    blocks: Vec<SolvedBlock>,
    events: Vec<MiningEvent>,
}

impl View for MiningPool {
    type V = PoolView;

    closed spec fn view(&self) -> PoolView {
        PoolView {
            payload: self.payload@,
            difficulty: self.difficulty,
            active: self.active,
            ledger: self.ledger@,
            blocks: block_views(self.blocks@),
            events: event_views(self.events@),
        }
    }
}

impl MiningPool {
    #[verifier::type_invariant]
    spec fn sound(self) -> bool {
        self@.wf()
    }

    /// A pool on which nothing has happened yet: idle, no worker, no block.
    pub fn init() -> (pool: MiningPool)
        ensures
            pool@ == PoolView::idle(),
            pool@.wf(),
    {
        MiningPool {
            payload: Vec::new(),
            difficulty: DEFAULT_DIFFICULTY,
            active: false,
            ledger: CapacityLedger::new(),
            blocks: Vec::new(),
            events: Vec::new(),
        }
    }

    /// Moves the pool out and leaves an idle one in its place, so that its
    /// parts can be changed together.
    fn take(&mut self) -> (taken: MiningPool)
        ensures
            taken@ == old(self)@,
            taken@.wf(),
    {
        proof {
            use_type_invariant(&*self);
        }
        let mut taken = MiningPool::init();
        std::mem::swap(self, &mut taken);
        taken
    }

    /// Whether a round is in progress.
    pub fn is_active(&self) -> (active: bool)
        ensures
            active == self@.active,
    {
        self.active
    }

    /// The difficulty of the round, or of the next one started by
    /// `start_mining`.
    pub fn difficulty(&self) -> (difficulty: u32)
        ensures
            difficulty == self@.difficulty,
    {
        self.difficulty
    }

    /// The payload of the last round started.
    pub fn payload(&self) -> (payload: &Vec<u8>)
        ensures
            payload@ == self@.payload,
    {
        &self.payload
    }

    /// The ledger of the round.
    pub fn ledger(&self) -> (ledger: &CapacityLedger)
        ensures
            ledger@ == self@.ledger,
            ledger@.wf(),
    {
        proof {
            use_type_invariant(self);
        }
        &self.ledger
    }

    /// Where the block recorded under `id` stands.
    fn find_block(&self, id: &String) -> (found: Option<usize>)
        ensures
            match found {
                Some(i) => i < self@.blocks.len() && self@.blocks[i as int].block_id == id@,
                None => !self@.has_block(id@),
            },
    {
        let mut i: usize = 0;
        while i < self.blocks.len()
            invariant
                i <= self.blocks.len(),
                forall|k: int| 0 <= k < i ==> self@.blocks[k].block_id != id@,
            decreases self.blocks.len() - i,
        {
            if self.blocks[i].block_id == *id {
                return Some(i);
            }
            i += 1;
        }
        None
    }

    /// Begins a round on `payload`. Refused while a round is in progress,
    /// and on an empty payload; a refusal changes nothing.
    pub fn start_round(&mut self, payload: Vec<u8>, difficulty: u32) -> (result: Result<
        (),
        PoolError,
    >)
        ensures
            old(self)@.active ==> result == Err::<(), PoolError>(PoolError::AlreadyActive)
                && final(self)@ == old(self)@,
            !old(self)@.active && payload@.len() == 0 ==> result == Err::<(), PoolError>(
                PoolError::InvalidPayload,
            ) && final(self)@ == old(self)@,
            !old(self)@.active && payload@.len() > 0 ==> result is Ok && final(self)@ == old(
                self,
            )@.start_round(payload@, difficulty),
            final(self)@.wf(),
    {
        proof {
            use_type_invariant(&*self);
        }
        if self.active {
            return Err(PoolError::AlreadyActive);
        }
        if payload.len() == 0 {
            return Err(PoolError::InvalidPayload);
        }
        let MiningPool { payload: _, difficulty: _, active: _, ledger, blocks, events } =
            self.take();
        let mut ledger = ledger;
        let mut events = events;
        ledger.reset();
        events.push(MiningEvent::RoundStarted { payload: payload.clone(), difficulty });
        assert(block_views(blocks@) == old(self)@.blocks);
        *self = MiningPool { payload, difficulty, active: true, ledger, blocks, events };
        Ok(())
    }

    /// Stops the round. On an idle pool this does nothing.
    pub fn stop_round(&mut self)
        ensures
            final(self)@ == old(self)@.stop_round(),
            !final(self)@.active,
            final(self)@.wf(),
    {
        proof {
            use_type_invariant(&*self);
        }
        if self.active {
            let MiningPool { payload, difficulty, active: _, ledger, blocks, events } = self.take();
            let mut events = events;
            events.push(MiningEvent::RoundStopped);
            assert(block_views(blocks@) == old(self)@.blocks);
            *self = MiningPool { payload, difficulty, active: false, ledger, blocks, events };
        }
    }

    /// Registers `worker_id` for the round with `hashrate` and announces it.
    /// Refused while no round is in progress, and for a hashrate of zero; a
    /// refusal changes nothing.
    pub fn register(&mut self, worker_id: String, hashrate: u64) -> (result: Result<(), PoolError>)
        ensures
            !old(self)@.active ==> result == Err::<(), PoolError>(PoolError::RoundNotActive)
                && final(self)@ == old(self)@,
            old(self)@.active && hashrate == 0 ==> result == Err::<(), PoolError>(
                PoolError::InvalidCapacity,
            ) && final(self)@ == old(self)@,
            old(self)@.active && hashrate > 0 ==> result is Ok && final(self)@ == old(
                self,
            )@.register(worker_id@, hashrate),
            final(self)@.wf(),
    {
        proof {
            use_type_invariant(&*self);
        }
        if !self.active {
            return Err(PoolError::RoundNotActive);
        }
        let MiningPool { payload, difficulty, active, ledger, blocks, events } = self.take();
        let mut ledger = ledger;
        let mut events = events;
        let result = ledger.register(worker_id.clone(), hashrate);
        if result.is_ok() {
            events.push(MiningEvent::WorkerJoined { worker_id, hashrate });
        }
        assert(block_views(blocks@) == old(self)@.blocks);
        *self = MiningPool { payload, difficulty, active, ledger, blocks, events };
        result
    }

    /// Ends the round on the block `block_id`. The block is recorded unless
    /// one already stands under that id, which is no error; the result tells
    /// whether it was recorded. Refused while no round is in progress.
    pub fn record_solution(&mut self, block_id: String, payload: Vec<u8>) -> (result: Result<
        bool,
        PoolError,
    >)
        ensures
            !old(self)@.active ==> result == Err::<bool, PoolError>(PoolError::RoundNotActive)
                && final(self)@ == old(self)@,
            old(self)@.active ==> result == Ok::<bool, PoolError>(
                !old(self)@.has_block(block_id@),
            ) && final(self)@ == old(self)@.record_solution(block_id@, payload@),
            final(self)@.wf(),
    {
        proof {
            use_type_invariant(&*self);
        }
        if !self.active {
            return Err(PoolError::RoundNotActive);
        }
        let announced = MiningEvent::BlockFound {
            worker_id: None,
            block_id: block_id.clone(),
            reward: 0,
        };
        let fresh = self.seal(block_id, payload);
        self.publish(announced);
        Ok(fresh)
    }

    /// Ends the round on the block `block_id`, recording it unless one
    /// already stands under that id. Tells whether it was recorded.
    fn seal(&mut self, block_id: String, payload: Vec<u8>) -> (fresh: bool)
        ensures
            fresh == !old(self)@.has_block(block_id@),
            final(self)@ == old(self)@.seal(block_id@, payload@),
            final(self)@.wf(),
    {
        let fresh = self.find_block(&block_id).is_none();
        let MiningPool { payload: round_payload, difficulty, active: _, ledger, blocks, events } =
            self.take();
        let mut blocks = blocks;
        if fresh {
            let block = SolvedBlock { block_id, payload };
            proof {
                let held = old(self)@;
                assert(block_views(blocks@.push(block)) =~= held.blocks.push(block@));
                assert forall|i: int| 0 <= i < held.blocks.len() implies held.blocks[i].block_id
                    != block@.block_id by {
                    if held.blocks[i].block_id == block@.block_id {
                        assert(held.has_block(block@.block_id));
                    }
                }
            }
            blocks.push(block);
        }
        *self = MiningPool {
            payload: round_payload,
            difficulty,
            active: false,
            ledger,
            blocks,
            events,
        };
        fresh
    }

    /// Puts `event` in the outbox.
    fn publish(&mut self, event: MiningEvent)
        ensures
            final(self)@ == old(self)@.publish(event@),
            final(self)@.wf(),
    {
        let MiningPool { payload, difficulty, active, ledger, blocks, events } = self.take();
        let mut events = events;
        events.push(event);
        assert(block_views(blocks@) == old(self)@.blocks);
        *self = MiningPool { payload, difficulty, active, ledger, blocks, events };
    }

    /// Credits `worker_id` in the ledger.
    fn credit_worker(&mut self, worker_id: &String, delta: u64, reward: u64)
        requires
            old(self)@.ledger.contains(worker_id@),
            old(self)@.ledger.hash_count_of(worker_id@) + delta <= u64::MAX,
        ensures
            final(self)@ == (PoolView {
                ledger: old(self)@.ledger.credit(worker_id@, delta, reward),
                ..old(self)@
            }),
            final(self)@.wf(),
    {
        let MiningPool { payload, difficulty, active, ledger, blocks, events } = self.take();
        let mut ledger = ledger;
        let _ = ledger.credit(worker_id, delta, reward);
        assert(block_views(blocks@) == old(self)@.blocks);
        *self = MiningPool { payload, difficulty, active, ledger, blocks, events };
    }

    /// Hands over what the pool has announced since the last call, oldest
    /// first, and empties the outbox.
    pub fn take_events(&mut self) -> (events: Vec<MiningEvent>)
        ensures
            event_views(events@) == old(self)@.events,
            final(self)@ == (PoolView { events: Seq::empty(), ..old(self)@ }),
            final(self)@.wf(),
    {
        let MiningPool { payload, difficulty, active, ledger, blocks, events } = self.take();
        assert(block_views(blocks@) == old(self)@.blocks);
        *self = MiningPool { payload, difficulty, active, ledger, blocks, events: Vec::new() };
        events
    }

    /// The ids of the solved blocks, oldest first.
    pub fn list_solved_blocks(&self) -> (ids: Vec<String>)
        ensures
            ids@.len() == self@.blocks.len(),
            forall|i: int| 0 <= i < ids@.len() ==> ids@[i]@ == self@.blocks[i].block_id,
    {
        let mut ids: Vec<String> = Vec::new();
        let mut i: usize = 0;
        while i < self.blocks.len()
            invariant
                i <= self.blocks.len(),
                ids@.len() == i,
                forall|k: int| 0 <= k < i ==> ids@[k]@ == self@.blocks[k].block_id,
            decreases self.blocks.len() - i,
        {
            ids.push(self.blocks[i].block_id.clone());
            i += 1;
        }
        ids
    }

    /// The payload recorded with the block `block_id`, if there is one.
    pub fn solved_payload(&self, block_id: &String) -> (payload: Option<Vec<u8>>)
        ensures
            payload is Some <==> self@.has_block(block_id@),
            payload matches Some(bytes) ==> exists|i: int|
                0 <= i < self@.blocks.len() && self@.blocks[i] == (BlockView {
                    block_id: block_id@,
                    payload: bytes@,
                }),
    {
        match self.find_block(block_id) {
            Some(i) => {
                let bytes = self.blocks[i].payload.clone();
                assert(self@.blocks[i as int] =~= (BlockView {
                    block_id: block_id@,
                    payload: bytes@,
                }));
                Some(bytes)
            },
            None => None,
        }
    }

    /// The reward that `worker_id` holds, nothing if it is not registered.
    pub fn reward_of(&self, worker_id: &String) -> (reward: u64)
        ensures
            reward == self@.ledger.reward_of(worker_id@),
    {
        self.ledger.reward_of(worker_id)
    }

    /// The quota of `worker_id` in this round.
    pub fn quota_for(&self, worker_id: &String) -> (quota: u64)
        ensures
            quota == self@.ledger.quota(worker_id@),
            quota <= SEARCH_SPACE_SIZE,
    {
        self.ledger.quota_for(worker_id)
    }

    /// What a listener does on hearing `event`: a block found stops the
    /// round, which changes nothing where the round has ended already.
    pub fn on_event(&mut self, event: &MiningEvent)
        ensures
            final(self)@ == if event@ is BlockFound {
                old(self)@.stop_round()
            } else {
                old(self)@
            },
            final(self)@.wf(),
    {
        proof {
            use_type_invariant(&*self);
        }
        match event {
            MiningEvent::BlockFound { .. } => {
                self.stop_round();
            },
            _ => {},
        }
    }

    /// Judges one digest that `worker_id` found at its `attempts`-th hash.
    ///
    /// While no round is in progress the answer is `Stopped`; a worker that
    /// is not active in the round is refused; a digest that misses the
    /// difficulty is a `Miss`. None of these changes anything. A digest that
    /// meets the difficulty wins the round: the block is recorded, the round
    /// ends, and the win is announced. The worker is credited its hashes and
    /// its reward, unless a block already stood under that id.
    pub fn claim(&mut self, worker_id: &String, attempts: u64, digest: &[u8]) -> (result: Result<
        Probe,
        PoolError,
    >)
        requires
            old(self)@.ledger.hash_count_of(worker_id@) + attempts <= u64::MAX,
        ensures
            final(self)@ == old(self)@.claim(worker_id@, attempts, digest@),
            !old(self)@.active ==> result matches Ok(Probe::Stopped),
            old(self)@.active && !old(self)@.ledger.is_active(worker_id@) ==> (result matches Err(
                error,
            ) && error == PoolError::WorkerNotActive),
            old(self)@.active && old(self)@.ledger.is_active(worker_id@) && !meets_difficulty(
                digest@,
                old(self)@.difficulty as nat,
            ) ==> result matches Ok(Probe::Miss),
            old(self)@.accepts(worker_id@, digest@) ==> (result matches Ok(Probe::Found(id))
                && id@ == block_id(digest@)),
            final(self)@.wf(),
    {
        proof {
            use_type_invariant(&*self);
        }
        if !self.active {
            return Ok(Probe::Stopped);
        }
        if !self.ledger.is_active(worker_id) {
            return Err(PoolError::WorkerNotActive);
        }
        if !digest_meets(digest, self.difficulty) {
            return Ok(Probe::Miss);
        }
        let share: u64 = self.reward(worker_id, attempts);
        let id = block_id_for(digest);
        let payload = self.payload.clone();
        let fresh = self.seal(id.clone(), payload);
        let reward: u64 = if fresh {
            self.credit_worker(worker_id, attempts, share);
            share
        } else {
            0
        };
        self.publish(
            MiningEvent::BlockFound {
                worker_id: Some(worker_id.clone()),
                block_id: id.clone(),
                reward,
            },
        );
        Ok(Probe::Found(id))
    }

    /// The reward of `worker_id` for a solution found at its `attempts`-th
    /// hash: that many hashes, in the proportion of its hashrate to the
    /// total capacity, rounded down.
    fn reward(&self, worker_id: &String, attempts: u64) -> (reward: u64)
        requires
            self@.ledger.is_active(worker_id@),
        ensures
            reward == self@.reward_for(worker_id@, attempts),
            reward <= attempts,
    {
        proof {
            use_type_invariant(self);
        }
        let hashrate: u64 = match self.ledger.hashrate_of(worker_id) {
            Some(hashrate) => hashrate,
            None => 0,
        };
        let total: u128 = self.ledger.total_capacity();
        proof {
            let i = self@.ledger.index_of(worker_id@);
            assert(self@.ledger.at(worker_id@, i));
            lemma_share_within_capacity(self@.ledger.entries, i);
            lemma_reward_bound(attempts as nat, hashrate as nat, total as nat);
            assert(attempts * hashrate <= u64::MAX * u64::MAX) by (nonlinear_arith)
                requires
                    attempts <= u64::MAX,
                    hashrate <= u64::MAX,
            ;
        }
        let divisor: u128 = if total == 0 {
            1
        } else {
            total
        };
        let share: u128 = (attempts as u128 * hashrate as u128) / divisor;
        share as u64
    }

    /// Counts `attempts` hashes that `worker_id` made in vain, and sets its
    /// reward to nothing. Does nothing while no round is in progress, or for
    /// a worker that is not active in it.
    pub fn give_up(&mut self, worker_id: &String, attempts: u64)
        requires
            old(self)@.ledger.hash_count_of(worker_id@) + attempts <= u64::MAX,
        ensures
            final(self)@ == old(self)@.give_up(worker_id@, attempts),
            final(self)@.wf(),
    {
        proof {
            use_type_invariant(&*self);
        }
        if self.active && self.ledger.is_active(worker_id) {
            self.credit_worker(worker_id, attempts, 0);
        }
    }

    /// Whether the hash count of `worker_id` has room for the most that a
    /// search with this bound can add to it. Only then may `search` be
    /// called, so that the count never overflows.
    pub fn has_room(&self, worker_id: &String, max_candidates: Option<u64>) -> (room: bool)
        ensures
            room == (self@.ledger.hash_count_of(worker_id@) + self@.search_limit(
                worker_id@,
                max_candidates,
            ) <= u64::MAX),
    {
        let counted: u64 = self.ledger.hash_count_of(worker_id);
        let quota: u64 = self.ledger.quota_for(worker_id);
        let limit: u64 = match max_candidates {
            Some(most) => if most < quota {
                most
            } else {
                quota
            },
            None => quota,
        };
        limit <= u64::MAX - counted
    }

    /// What a search of `worker_id` has to do before it hashes anything:
    /// tells how many nonces it may try, or that there is nothing to try
    /// because a block already stands under the digest of the bare payload.
    ///
    /// Refused while no round is in progress, and for a worker that is not
    /// active in it.
    pub fn plan_search(&self, worker_id: &String, max_candidates: Option<u64>) -> (result: Result<
        Option<u64>,
        PoolError,
    >)
        ensures
            !self@.active ==> result == Err::<Option<u64>, PoolError>(PoolError::RoundNotActive),
            self@.active && !self@.ledger.is_active(worker_id@) ==> result == Err::<
                Option<u64>,
                PoolError,
            >(PoolError::WorkerNotActive),
            self@.active && self@.ledger.is_active(worker_id@) && self@.already_solved()
                ==> result == Ok::<Option<u64>, PoolError>(None),
            self@.searches(worker_id@) ==> result == Ok::<Option<u64>, PoolError>(
                Some(self@.search_limit(worker_id@, max_candidates) as u64),
            ),
    {
        if !self.active {
            return Err(PoolError::RoundNotActive);
        }
        if !self.ledger.is_active(worker_id) {
            return Err(PoolError::WorkerNotActive);
        }
        let key = compute_sha256(self.payload.as_slice());
        if self.find_block(&key).is_some() {
            return Ok(None);
        }
        let quota: u64 = self.ledger.quota_for(worker_id);
        let limit: u64 = match max_candidates {
            Some(most) => if most < quota {
                most
            } else {
                quota
            },
            None => quota,
        };
        Ok(Some(limit))
    }

    /// Searches for `worker_id`: tries the nonces from zero up to its quota,
    /// or up to `max_candidates` where that is less, and wins the round with
    /// the first whose digest meets the difficulty.
    ///
    /// Refused while no round is in progress, and for a worker that is not
    /// active in it. Where a block already stands under the digest of the
    /// bare payload, nothing is tried. A search that finds no solution
    /// counts its hashes, sets the worker's reward to nothing and leaves the
    /// round in progress.
    ///
    /// The worker's hash count must have room for the hashes of the search:
    /// `has_room` tells whether it has.
    pub fn search(&mut self, worker_id: &String, max_candidates: Option<u64>) -> (result: Result<
        Option<String>,
        PoolError,
    >)
        requires
            old(self)@.ledger.hash_count_of(worker_id@) + old(self)@.search_limit(
                worker_id@,
                max_candidates,
            ) <= u64::MAX,
        ensures
            final(self)@ == old(self)@.search(worker_id@, max_candidates),
            outcome(result) == old(self)@.search_result(worker_id@, max_candidates),
            final(self)@.ledger.hash_count_of(worker_id@) <= old(self)@.ledger.hash_count_of(
                worker_id@,
            ) + old(self)@.search_limit(worker_id@, max_candidates),
            final(self)@.wf(),
    {
        proof {
            use_type_invariant(&*self);
            law_search_counts_within_limit(self@, worker_id@, max_candidates);
        }
        let limit: u64 = match self.plan_search(worker_id, max_candidates) {
            Ok(Some(limit)) => limit,
            Ok(None) => {
                return Ok(None);
            },
            Err(error) => {
                return Err(error);
            },
        };
        match sweep(self.payload.as_slice(), self.difficulty, 0, limit) {
            Some((nonce, hashed)) => {
                proof {
                    lemma_next_solution(
                        self@.payload,
                        self@.difficulty as nat,
                        0,
                        nonce as nat,
                    );
                }
                match self.claim(worker_id, nonce + 1, hashed.as_slice()) {
                    Ok(Probe::Found(id)) => Ok(Some(id)),
                    // The round cannot have ended, nor the worker have left,
                    // while this call held the pool.
                    Ok(_) => Ok(None),
                    Err(error) => Err(error),
                }
            },
            None => {
                self.give_up(worker_id, limit);
                Ok(None)
            },
        }
    }

    /// Begins a round on the bytes of `block_data`, at the pool's difficulty.
    pub fn start_mining(&mut self, block_data: String) -> (result: Result<(), PoolError>)
        ensures
            old(self)@.active ==> result == Err::<(), PoolError>(PoolError::AlreadyActive)
                && final(self)@ == old(self)@,
            !old(self)@.active && block_data@.len() == 0 ==> result == Err::<(), PoolError>(
                PoolError::InvalidPayload,
            ) && final(self)@ == old(self)@,
            !old(self)@.active && block_data@.len() > 0 ==> result is Ok && final(self)@ == old(
                self,
            )@.start_round(vstd::utf8::encode_utf8(block_data@), old(self)@.difficulty),
            final(self)@.wf(),
    {
        let payload = block_data.as_str().as_bytes_vec();
        proof {
            lemma_text_bytes(block_data@);
        }
        let difficulty: u32 = self.difficulty;
        self.start_round(payload, difficulty)
    }

    /// Registers `miner_id` for the round, as `register` does.
    pub fn join_mining(&mut self, miner_id: String, hashrate: u64) -> (result: Result<
        (),
        PoolError,
    >)
        ensures
            !old(self)@.active ==> result == Err::<(), PoolError>(PoolError::RoundNotActive)
                && final(self)@ == old(self)@,
            old(self)@.active && hashrate == 0 ==> result == Err::<(), PoolError>(
                PoolError::InvalidCapacity,
            ) && final(self)@ == old(self)@,
            old(self)@.active && hashrate > 0 ==> result is Ok && final(self)@ == old(
                self,
            )@.register(miner_id@, hashrate),
            final(self)@.wf(),
    {
        self.register(miner_id, hashrate)
    }

    /// Searches for `miner_id` up to its quota, as `search` does without a
    /// bound of the caller's.
    pub fn execute_mining(&mut self, miner_id: String) -> (result: Result<
        Option<String>,
        PoolError,
    >)
        requires
            old(self)@.ledger.hash_count_of(miner_id@) + old(self)@.search_limit(miner_id@, None)
                <= u64::MAX,
        ensures
            final(self)@ == old(self)@.search(miner_id@, None),
            outcome(result) == old(self)@.search_result(miner_id@, None),
            final(self)@.ledger.hash_count_of(miner_id@) <= old(self)@.ledger.hash_count_of(
                miner_id@,
            ) + old(self)@.search_limit(miner_id@, None),
            final(self)@.wf(),
    {
        self.search(&miner_id, None)
    }

    /// Stops the round, as `stop_round` does. It never fails.
    pub fn stop_mining(&mut self) -> (result: Result<(), PoolError>)
        ensures
            result is Ok,
            final(self)@ == old(self)@.stop_round(),
            !final(self)@.active,
            final(self)@.wf(),
    {
        self.stop_round();
        Ok(())
    }
}

} // verus!
