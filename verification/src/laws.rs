//! What holds of the pool whatever is done with it, stated over the models
//! that the contracts of the ledger and of the pool use.

use crate::hashing::{
    block_id, candidate, is_next_solution, lemma_least_solution, sha256, solves,
};
use crate::error::PoolError;
use crate::ledger::{
    active_capacity, lemma_credit_keeps_wf, lemma_index_of, lemma_quota_bound,
    lemma_register_keeps_wf, lemma_share_within_capacity, quota_share, LedgerView,
    SEARCH_SPACE_SIZE,
};
use crate::pool::{BlockView, PoolView};
use vstd::prelude::*;

verus! {

/// The ledger after a series of registrations, the first of `calls` first.
/// A call that declares a hashrate of zero is refused and changes nothing.
pub open spec fn register_all(ledger: LedgerView, calls: Seq<(Seq<char>, u64)>) -> LedgerView
    decreases calls.len(),
{
    if calls.len() == 0 {
        ledger
    } else {
        let before = register_all(ledger, calls.drop_last());
        if calls.last().1 > 0 {
            before.register(calls.last().0, calls.last().1)
        } else {
            before
        }
    }
}

/// Whatever series of registrations a round sees, and however often a
/// worker registers again, the total capacity is the sum of the hashrates
/// of the workers that are marked active, and no worker stands twice.
pub proof fn law_total_capacity(ledger: LedgerView, calls: Seq<(Seq<char>, u64)>)
    requires
        ledger.wf(),
    ensures
        register_all(ledger, calls).wf(),
        register_all(ledger, calls).total == active_capacity(register_all(ledger, calls).entries),
    decreases calls.len(),
{
    if calls.len() > 0 {
        law_total_capacity(ledger, calls.drop_last());
        if calls.last().1 > 0 {
            lemma_register_keeps_wf(
                register_all(ledger, calls.drop_last()),
                calls.last().0,
                calls.last().1,
            );
        }
    }
}

/// Of two quotients of naturals, the one with the smaller cross product is
/// the smaller.
proof fn lemma_quotients(a: nat, b: nat, c: nat, d: nat)
    requires
        b > 0,
        d > 0,
        a * d <= c * b,
    ensures
        a / b <= c / d,
{
    let q = a / b;
    assert(q * b <= a) by (nonlinear_arith)
        requires
            q == a / b,
            b > 0,
    ;
    assert(q * d <= c) by (nonlinear_arith)
        requires
            q * b <= a,
            a * d <= c * b,
            b > 0,
            d > 0,
    ;
    assert(q <= c / d) by (nonlinear_arith)
        requires
            q * d <= c,
            d > 0,
    ;
}

/// A worker that declares more, while the others declare `others` as
/// before, is given no smaller a quota.
pub proof fn law_quota_monotone(others: nat, low: nat, high: nat)
    requires
        low <= high,
    ensures
        quota_share(low, others + low) <= quota_share(high, others + high),
        quota_share(high, others + high) <= SEARCH_SPACE_SIZE,
{
    lemma_quota_bound(high, others + high);
    if others + low > 0 {
        assert((1_000_000 * low) * (others + high) <= (1_000_000 * high) * (others + low))
            by (nonlinear_arith)
            requires
                low <= high,
        ;
        lemma_quotients(1_000_000 * low, others + low, 1_000_000 * high, others + high);
    }
}

/// In a sound ledger no quota is more than the whole search space.
pub proof fn law_quota_bounded(ledger: LedgerView, worker_id: Seq<char>)
    requires
        ledger.wf(),
    ensures
        ledger.quota(worker_id) <= SEARCH_SPACE_SIZE,
{
    if ledger.is_active(worker_id) {
        let i = ledger.index_of(worker_id);
        lemma_share_within_capacity(ledger.entries, i);
        lemma_quota_bound(ledger.get(worker_id).hashrate as nat, ledger.total);
    }
}

/// What the workers other than `worker_id` add to the total.
pub open spec fn capacity_of_others(ledger: LedgerView, worker_id: Seq<char>) -> nat {
    if ledger.is_active(worker_id) {
        (ledger.total - ledger.get(worker_id).hashrate) as nat
    } else {
        ledger.total
    }
}

/// Had a worker registered with more, the ledger being otherwise the same,
/// its quota would be no smaller.
pub proof fn law_quota_grows_with_hashrate(
    ledger: LedgerView,
    worker_id: Seq<char>,
    low: u64,
    high: u64,
)
    requires
        ledger.wf(),
        0 < low <= high,
    ensures
        ledger.register(worker_id, low).quota(worker_id) <= ledger.register(
            worker_id,
            high,
        ).quota(worker_id),
{
    let others = capacity_of_others(ledger, worker_id);
    lemma_register_keeps_wf(ledger, worker_id, low);
    lemma_register_keeps_wf(ledger, worker_id, high);
    if ledger.contains(worker_id) {
        let i = ledger.index_of(worker_id);
        lemma_share_within_capacity(ledger.entries, i);
    }
    law_quota_monotone(others, low as nat, high as nat);
}

/// Once a solution has been recorded the round is over: a search fails with
/// `RoundNotActive` and changes nothing, whoever asks.
pub proof fn law_no_search_after_solution(
    pool: PoolView,
    id: Seq<char>,
    payload: Seq<u8>,
    worker_id: Seq<char>,
    max_candidates: Option<u64>,
)
    ensures
        !pool.record_solution(id, payload).active,
        pool.record_solution(id, payload).search_result(worker_id, max_candidates) == Err::<
            Option<Seq<char>>,
            PoolError,
        >(PoolError::RoundNotActive),
        pool.record_solution(id, payload).search(worker_id, max_candidates)
            == pool.record_solution(id, payload),
{
}

/// The same holds after a search that won the round: the next search fails
/// with `RoundNotActive` and changes nothing.
pub proof fn law_no_search_after_win(
    pool: PoolView,
    winner: Seq<char>,
    bound: Option<u64>,
    worker_id: Seq<char>,
    max_candidates: Option<u64>,
)
    requires
        pool.finds(winner, bound),
    ensures
        !pool.search(winner, bound).active,
        pool.search(winner, bound).search_result(worker_id, max_candidates) == Err::<
            Option<Seq<char>>,
            PoolError,
        >(PoolError::RoundNotActive),
        pool.search(winner, bound).search(worker_id, max_candidates) == pool.search(
            winner,
            bound,
        ),
{
}

/// Stopping twice is stopping once.
pub proof fn law_stop_is_idempotent(pool: PoolView)
    ensures
        pool.stop_round().stop_round() == pool.stop_round(),
        !pool.stop_round().active,
{
}

/// The block that a search records can be found again from what is stored:
/// its id is that of the digest of the stored payload and the winning
/// nonce, that digest meets the round's difficulty, and the nonce is the
/// first to do so and lies below the bound of the search.
pub proof fn law_block_round_trip(
    pool: PoolView,
    worker_id: Seq<char>,
    max_candidates: Option<u64>,
)
    requires
        pool.finds(worker_id, max_candidates),
    ensures
        ({
            let nonce = pool.winning_nonce();
            let id = block_id(sha256(candidate(pool.payload, nonce)));
            &&& nonce < pool.search_limit(worker_id, max_candidates)
            &&& is_next_solution(pool.payload, pool.difficulty as nat, 0, nonce)
            &&& solves(pool.payload, pool.difficulty as nat, nonce)
            &&& pool.search_result(worker_id, max_candidates) == Ok::<
                Option<Seq<char>>,
                PoolError,
            >(Some(id))
            &&& pool.search(worker_id, max_candidates).has_block(id)
            &&& !pool.has_block(id) ==> pool.search(worker_id, max_candidates).blocks.last() == (
            BlockView { block_id: id, payload: pool.payload })
        }),
{
    let difficulty = pool.difficulty as nat;
    let limit = pool.search_limit(worker_id, max_candidates);
    let witness = choose|n: nat| 0 <= n < 0 + limit && solves(pool.payload, difficulty, n);
    lemma_least_solution(pool.payload, difficulty, 0, witness);
    let id = block_id(sha256(candidate(pool.payload, pool.winning_nonce())));
    let after = pool.search(worker_id, max_candidates);
    if pool.has_block(id) {
        let i = choose|i: int| 0 <= i < pool.blocks.len() && pool.blocks[i].block_id == id;
        assert(after.blocks[i].block_id == id);
    } else {
        let n = pool.blocks.len() as int;
        assert(after.blocks[n].block_id == id);
    }
}

/// A search counts no more hashes for its worker than its bound allows, so
/// that a worker whose count leaves room for another bound may search
/// again.
pub proof fn law_search_counts_within_limit(
    pool: PoolView,
    worker_id: Seq<char>,
    max_candidates: Option<u64>,
)
    requires
        pool.wf(),
        pool.ledger.hash_count_of(worker_id) + pool.search_limit(worker_id, max_candidates)
            <= u64::MAX,
    ensures
        pool.search(worker_id, max_candidates).ledger.hash_count_of(worker_id)
            <= pool.ledger.hash_count_of(worker_id) + pool.search_limit(
            worker_id,
            max_candidates,
        ),
        pool.search(worker_id, max_candidates).ledger.hash_count_of(worker_id)
            >= pool.ledger.hash_count_of(worker_id),
{
    let limit = pool.search_limit(worker_id, max_candidates);
    if pool.searches(worker_id) {
        let i = pool.ledger.index_of(worker_id);
        if pool.finds(worker_id, max_candidates) {
            law_block_round_trip(pool, worker_id, max_candidates);
            let attempts = (pool.winning_nonce() + 1) as u64;
            let reward = pool.reward_for(worker_id, attempts) as u64;
            let credited = pool.ledger.credit(worker_id, attempts, reward);
            lemma_credit_keeps_wf(pool.ledger, worker_id, attempts, reward);
            lemma_index_of(credited, worker_id, i);
        } else {
            let credited = pool.ledger.credit(worker_id, limit as u64, 0);
            lemma_credit_keeps_wf(pool.ledger, worker_id, limit as u64, 0);
            lemma_index_of(credited, worker_id, i);
        }
    }
}

/// Ending a round on a block keeps the pool sound: a block is recorded
/// only under an id that no block has.
pub proof fn lemma_seal_keeps_wf(pool: PoolView, id: Seq<char>, payload: Seq<u8>)
    requires
        pool.wf(),
    ensures
        pool.seal(id, payload).wf(),
{
    if !pool.has_block(id) {
        assert forall|i: int| 0 <= i < pool.blocks.len() implies pool.blocks[i].block_id != id by {
            if pool.blocks[i].block_id == id {
                assert(pool.has_block(id));
            }
        }
    }
}

/// A win keeps the pool sound.
pub proof fn lemma_win_keeps_wf(
    pool: PoolView,
    worker_id: Seq<char>,
    attempts: u64,
    digest: Seq<u8>,
)
    requires
        pool.wf(),
        pool.ledger.contains(worker_id),
    ensures
        pool.win(worker_id, attempts, digest).wf(),
{
    lemma_seal_keeps_wf(pool, block_id(digest), pool.payload);
    lemma_credit_keeps_wf(
        pool.ledger,
        worker_id,
        attempts,
        pool.reward_for(worker_id, attempts) as u64,
    );
}

/// Whatever is done with a sound pool leaves it sound: no worker and no
/// block id stands twice, and the total capacity is the sum over the active
/// workers.
pub proof fn law_soundness_is_kept(
    pool: PoolView,
    id: Seq<char>,
    payload: Seq<u8>,
    difficulty: u32,
    worker_id: Seq<char>,
    hashrate: u64,
    attempts: u64,
    digest: Seq<u8>,
    max_candidates: Option<u64>,
)
    requires
        pool.wf(),
    ensures
        PoolView::idle().wf(),
        pool.start_round(payload, difficulty).wf(),
        pool.stop_round().wf(),
        pool.record_solution(id, payload).wf(),
        hashrate > 0 ==> pool.register(worker_id, hashrate).wf(),
        pool.claim(worker_id, attempts, digest).wf(),
        pool.give_up(worker_id, attempts).wf(),
        pool.search(worker_id, max_candidates).wf(),
{
    lemma_seal_keeps_wf(pool, id, payload);
    if hashrate > 0 {
        lemma_register_keeps_wf(pool.ledger, worker_id, hashrate);
    }
    if pool.ledger.contains(worker_id) {
        lemma_win_keeps_wf(pool, worker_id, attempts, digest);
        lemma_win_keeps_wf(
            pool,
            worker_id,
            (pool.winning_nonce() + 1) as u64,
            pool.winning_digest(),
        );
        lemma_credit_keeps_wf(pool.ledger, worker_id, attempts, 0);
        lemma_credit_keeps_wf(
            pool.ledger,
            worker_id,
            pool.search_limit(worker_id, max_candidates) as u64,
            0,
        );
    }
}

/// Whether `before` is the beginning of `after`.
pub open spec fn begins<A>(after: Seq<A>, before: Seq<A>) -> bool {
    before.len() <= after.len() && after.take(before.len() as int) == before
}

/// A recorded block is never changed or removed: whatever the pool does,
/// the blocks that it held stay where they were, as they were.
pub proof fn law_blocks_are_kept(
    pool: PoolView,
    id: Seq<char>,
    payload: Seq<u8>,
    difficulty: u32,
    worker_id: Seq<char>,
    hashrate: u64,
    attempts: u64,
    digest: Seq<u8>,
    max_candidates: Option<u64>,
)
    ensures
        begins(pool.start_round(payload, difficulty).blocks, pool.blocks),
        begins(pool.stop_round().blocks, pool.blocks),
        begins(pool.record_solution(id, payload).blocks, pool.blocks),
        begins(pool.register(worker_id, hashrate).blocks, pool.blocks),
        begins(pool.claim(worker_id, attempts, digest).blocks, pool.blocks),
        begins(pool.give_up(worker_id, attempts).blocks, pool.blocks),
        begins(pool.search(worker_id, max_candidates).blocks, pool.blocks),
{
    let n = pool.blocks.len() as int;
    assert(pool.blocks.take(n) =~= pool.blocks);
    assert forall|block: BlockView| (#[trigger] pool.blocks.push(block)).take(n)
        == pool.blocks by {
        assert(pool.blocks.push(block).take(n) =~= pool.blocks);
    }
}

/// While a round is in progress its payload and its difficulty stay as
/// they are: only the start of a round sets them, and a round in progress
/// refuses a start.
pub proof fn law_round_is_fixed(
    pool: PoolView,
    id: Seq<char>,
    payload: Seq<u8>,
    worker_id: Seq<char>,
    hashrate: u64,
    attempts: u64,
    digest: Seq<u8>,
    max_candidates: Option<u64>,
)
    ensures
        pool.stop_round().payload == pool.payload,
        pool.stop_round().difficulty == pool.difficulty,
        pool.record_solution(id, payload).payload == pool.payload,
        pool.record_solution(id, payload).difficulty == pool.difficulty,
        pool.register(worker_id, hashrate).payload == pool.payload,
        pool.register(worker_id, hashrate).difficulty == pool.difficulty,
        pool.claim(worker_id, attempts, digest).payload == pool.payload,
        pool.claim(worker_id, attempts, digest).difficulty == pool.difficulty,
        pool.give_up(worker_id, attempts).payload == pool.payload,
        pool.give_up(worker_id, attempts).difficulty == pool.difficulty,
        pool.search(worker_id, max_candidates).payload == pool.payload,
        pool.search(worker_id, max_candidates).difficulty == pool.difficulty,
{
}

/// On an idle pool neither a search, nor a claim, nor a count of hashes
/// given up, nor a stop changes anything: once the round is over no reward
/// is credited, and the pool stays idle until a round is started.
pub proof fn law_idle_pool_is_not_searched(
    pool: PoolView,
    worker_id: Seq<char>,
    attempts: u64,
    digest: Seq<u8>,
    max_candidates: Option<u64>,
)
    requires
        !pool.active,
    ensures
        pool.search(worker_id, max_candidates) == pool,
        pool.search_result(worker_id, max_candidates) == Err::<Option<Seq<char>>, PoolError>(
            PoolError::RoundNotActive,
        ),
        pool.claim(worker_id, attempts, digest) == pool,
        pool.give_up(worker_id, attempts) == pool,
        pool.stop_round() == pool,
{
}

} // verus!
