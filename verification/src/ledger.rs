//! The capacity ledger: who takes part in the round, with what declared
//! hashrate, and what each has searched and earned.

use crate::error::PoolError;
use vstd::prelude::*;

verus! {

/// The nominal number of nonces that one round offers.
pub const SEARCH_SPACE_SIZE: u64 = 1_000_000;

/// One registered worker, as contracts see it.
#[verifier::ext_equal]
pub struct WorkerView {
    pub worker_id: Seq<char>,
    pub hashrate: u64,
    pub hash_count: u64,
    pub reward: u64,
    pub active: bool,
}

/// One registered worker.
#[derive(Clone, Debug, PartialEq, Eq)]
pub struct WorkerEntry {
    pub worker_id: String,
    pub hashrate: u64,
    pub hash_count: u64,
    pub reward: u64,
    pub active: bool,
}

impl View for WorkerEntry {
    type V = WorkerView;

    open spec fn view(&self) -> WorkerView {
        WorkerView {
            worker_id: self.worker_id@,
            hashrate: self.hashrate,
            hash_count: self.hash_count,
            reward: self.reward,
            active: self.active,
        }
    }
}

impl WorkerEntry {
    /// A copy of the entry.
    pub fn duplicate(&self) -> (copy: WorkerEntry)
        ensures
            copy@ == self@,
    {
        WorkerEntry {
            worker_id: self.worker_id.clone(),
            hashrate: self.hashrate,
            hash_count: self.hash_count,
            reward: self.reward,
            active: self.active,
        }
    }
}

/// What a worker adds to the total capacity: its hashrate while it is
/// active, nothing otherwise.
pub open spec fn share(worker: WorkerView) -> nat {
    if worker.active {
        worker.hashrate as nat
    } else {
        0
    }
}

/// The sum of the hashrates of the active workers among `entries`.
pub open spec fn active_capacity(entries: Seq<WorkerView>) -> nat
    decreases entries.len(),
{
    if entries.len() == 0 {
        0
    } else {
        active_capacity(entries.drop_last()) + share(entries.last())
    }
}

/// The quota of a worker of the given hashrate when the active workers
/// declare `total` together: its proportional part of the search space,
/// rounded down.
pub open spec fn quota_share(hashrate: nat, total: nat) -> nat {
    (SEARCH_SPACE_SIZE as nat * hashrate) / (if total == 0 { 1 } else { total })
}

/// The reward for `attempts` hashes by a worker of the given hashrate.
pub open spec fn reward_share(attempts: nat, hashrate: nat, total: nat) -> nat {
    (attempts * hashrate) / (if total == 0 { 1 } else { total })
}

/// The ledger as contracts see it: the entries in the order in which the
/// workers first registered, and the total capacity that is kept with them.
#[verifier::ext_equal]
pub struct LedgerView {
    pub entries: Seq<WorkerView>,
    pub total: nat,
}

impl LedgerView {
    /// No worker, no capacity.
    pub open spec fn empty() -> LedgerView {
        LedgerView { entries: Seq::empty(), total: 0 }
    }

    /// Whether the entry at `i` is that of `worker_id`.
    pub open spec fn at(self, worker_id: Seq<char>, i: int) -> bool {
        0 <= i < self.entries.len() && self.entries[i].worker_id == worker_id
    }

    /// Whether `worker_id` has an entry.
    pub open spec fn contains(self, worker_id: Seq<char>) -> bool {
        exists|i: int| self.at(worker_id, i)
    }

    /// Where the entry of `worker_id` stands, if it has one.
    pub open spec fn index_of(self, worker_id: Seq<char>) -> int {
        choose|i: int| self.at(worker_id, i)
    }

    /// The entry of `worker_id`, if it has one.
    pub open spec fn get(self, worker_id: Seq<char>) -> WorkerView {
        self.entries[self.index_of(worker_id)]
    }

    /// Whether `worker_id` has an entry that is marked active.
    pub open spec fn is_active(self, worker_id: Seq<char>) -> bool {
        self.contains(worker_id) && self.get(worker_id).active
    }

    /// No worker has two entries, no entry declares a hashrate of zero, and
    /// the total is the sum of the hashrates of the active entries.
    pub open spec fn wf(self) -> bool {
        &&& forall|i: int, j: int|
            0 <= i < j < self.entries.len() ==> self.entries[i].worker_id
                != self.entries[j].worker_id
        &&& forall|i: int| 0 <= i < self.entries.len() ==> self.entries[i].hashrate > 0
        &&& self.total == active_capacity(self.entries)
    }

    /// The ledger after `worker_id` has registered with `hashrate`: a fresh
    /// active entry, in the place of the one it had or after the others, and
    /// the total moved by the difference.
    pub open spec fn register(self, worker_id: Seq<char>, hashrate: u64) -> LedgerView {
        let fresh = WorkerView { worker_id, hashrate, hash_count: 0, reward: 0, active: true };
        if self.contains(worker_id) {
            let i = self.index_of(worker_id);
            LedgerView {
                entries: self.entries.update(i, fresh),
                total: (self.total - share(self.entries[i]) + hashrate) as nat,
            }
        } else {
            LedgerView { entries: self.entries.push(fresh), total: self.total + hashrate as nat }
        }
    }

    /// The ledger after `worker_id` has been credited: `delta` more hashes,
    /// and `reward` in the place of what it had.
    pub open spec fn credit(self, worker_id: Seq<char>, delta: u64, reward: u64) -> LedgerView {
        let i = self.index_of(worker_id);
        let was = self.entries[i];
        LedgerView {
            entries: self.entries.update(
                i,
                WorkerView { hash_count: (was.hash_count + delta) as u64, reward, ..was },
            ),
            total: self.total,
        }
    }

    /// The quota of `worker_id`: its share of the search space while it is
    /// active, nothing otherwise.
    pub open spec fn quota(self, worker_id: Seq<char>) -> nat {
        if self.is_active(worker_id) {
            quota_share(self.get(worker_id).hashrate as nat, self.total)
        } else {
            0
        }
    }

    /// The reward that `worker_id` holds, nothing if it has no entry.
    pub open spec fn reward_of(self, worker_id: Seq<char>) -> nat {
        if self.contains(worker_id) {
            self.get(worker_id).reward as nat
        } else {
            0
        }
    }

    /// The hashes counted for `worker_id`, nothing if it has no entry.
    pub open spec fn hash_count_of(self, worker_id: Seq<char>) -> nat {
        if self.contains(worker_id) {
            self.get(worker_id).hash_count as nat
        } else {
            0
        }
    }
}

/// The views of `entries`, one for one.
pub open spec fn views(entries: Seq<WorkerEntry>) -> Seq<WorkerView> {
    entries.map_values(|entry: WorkerEntry| entry@)
}

/// In a ledger without doubles the entry of a worker stands in one place.
pub proof fn lemma_index_of(ledger: LedgerView, worker_id: Seq<char>, i: int)
    requires
        ledger.wf(),
        ledger.at(worker_id, i),
    ensures
        ledger.contains(worker_id),
        ledger.index_of(worker_id) == i,
{
    let j = ledger.index_of(worker_id);
    assert(ledger.at(worker_id, j));
    if j < i {
        assert(ledger.entries[j].worker_id != ledger.entries[i].worker_id);
    } else if i < j {
        assert(ledger.entries[i].worker_id != ledger.entries[j].worker_id);
    }
}

/// An entry added at the end adds its share.
pub proof fn lemma_capacity_push(entries: Seq<WorkerView>, worker: WorkerView)
    ensures
        active_capacity(entries.push(worker)) == active_capacity(entries) + share(worker),
{
    assert(entries.push(worker).drop_last() =~= entries);
}

/// An entry replaced takes its old share out and puts its new share in.
pub proof fn lemma_capacity_update(entries: Seq<WorkerView>, i: int, worker: WorkerView)
    requires
        0 <= i < entries.len(),
    ensures
        active_capacity(entries.update(i, worker)) + share(entries[i]) == active_capacity(entries)
            + share(worker),
    decreases entries.len(),
{
    let after = entries.update(i, worker);
    if i == entries.len() - 1 {
        assert(after.drop_last() =~= entries.drop_last());
    } else {
        assert(after.drop_last() =~= entries.drop_last().update(i, worker));
        lemma_capacity_update(entries.drop_last(), i, worker);
    }
}

/// The share of each entry is part of the sum.
pub proof fn lemma_share_within_capacity(entries: Seq<WorkerView>, i: int)
    requires
        0 <= i < entries.len(),
    ensures
        share(entries[i]) <= active_capacity(entries),
    decreases entries.len(),
{
    if i < entries.len() - 1 {
        lemma_share_within_capacity(entries.drop_last(), i);
    }
}

/// The sum is at most the greatest hashrate, once for each entry.
pub proof fn lemma_capacity_bound(entries: Seq<WorkerView>)
    ensures
        active_capacity(entries) <= entries.len() * u64::MAX,
    decreases entries.len(),
{
    if entries.len() > 0 {
        lemma_capacity_bound(entries.drop_last());
        assert((entries.len() - 1) * u64::MAX + u64::MAX == entries.len() * u64::MAX)
            by (nonlinear_arith);
    }
}

/// The workers of one round and the capacity that they declare together.
pub struct CapacityLedger {
    entries: Vec<WorkerEntry>,
    total: u128,
}

impl View for CapacityLedger {
    type V = LedgerView;

    closed spec fn view(&self) -> LedgerView {
        LedgerView { entries: views(self.entries@), total: self.total as nat }
    }
}

impl CapacityLedger {
    #[verifier::type_invariant]
    spec fn sound(self) -> bool {
        self@.wf()
    }

    /// A ledger without workers.
    pub fn new() -> (ledger: CapacityLedger)
        ensures
            ledger@ == LedgerView::empty(),
            ledger@.wf(),
    {
        CapacityLedger { entries: Vec::new(), total: 0 }
    }

    /// Moves the ledger out and leaves an empty one in its place, so that
    /// the entries and the total can be changed together.
    fn take(&mut self) -> (taken: CapacityLedger)
        ensures
            taken@ == old(self)@,
            taken@.wf(),
    {
        proof {
            use_type_invariant(&*self);
        }
        let mut taken = CapacityLedger::new();
        std::mem::swap(self, &mut taken);
        taken
    }

    /// Where the entry of `worker_id` stands.
    fn find(&self, worker_id: &String) -> (found: Option<usize>)
        ensures
            match found {
                Some(i) => self@.at(worker_id@, i as int) && self@.index_of(worker_id@) == i,
                None => !self@.contains(worker_id@),
            },
    {
        proof {
            use_type_invariant(self);
        }
        let mut i: usize = 0;
        while i < self.entries.len()
            invariant
                self@.wf(),
                i <= self.entries.len(),
                forall|k: int| 0 <= k < i ==> !self@.at(worker_id@, k),
            decreases self.entries.len() - i,
        {
            if self.entries[i].worker_id == *worker_id {
                proof {
                    lemma_index_of(self@, worker_id@, i as int);
                }
                return Some(i);
            }
            i += 1;
        }
        None
    }

    /// The total capacity: the sum of the hashrates of the active workers.
    pub fn total_capacity(&self) -> (total: u128)
        ensures
            total == self@.total,
            total == active_capacity(self@.entries),
    {
        proof {
            use_type_invariant(self);
        }
        self.total
    }

    /// Forgets every worker: the ledger of a round that begins.
    pub fn reset(&mut self)
        ensures
            final(self)@ == LedgerView::empty(),
            final(self)@.wf(),
    {
        *self = CapacityLedger::new();
    }

    /// Registers `worker_id` with `hashrate`, in the place of the entry it
    /// had, if any. A hashrate of zero is refused and changes nothing.
    pub fn register(&mut self, worker_id: String, hashrate: u64) -> (result: Result<(), PoolError>)
        ensures
            hashrate == 0 ==> result == Err::<(), PoolError>(PoolError::InvalidCapacity)
                && final(self)@ == old(self)@,
            hashrate > 0 ==> result is Ok && final(self)@ == old(self)@.register(
                worker_id@,
                hashrate,
            ),
            final(self)@.wf(),
    {
        proof {
            use_type_invariant(&*self);
        }
        if hashrate == 0 {
            return Err(PoolError::InvalidCapacity);
        }
        let found = self.find(&worker_id);
        let ghost before = self@;
        let ghost id = worker_id@;
        let CapacityLedger { entries, total } = self.take();
        let mut entries = entries;
        let fresh = WorkerEntry { worker_id, hashrate, hash_count: 0, reward: 0, active: true };
        let count: usize = entries.len();
        proof {
            // The total is at most the greatest hashrate for each entry, so
            // that one more hashrate still fits.
            lemma_capacity_bound(before.entries);
            assert(count * u64::MAX <= u64::MAX * u64::MAX) by (nonlinear_arith)
                requires
                    count <= u64::MAX,
            ;
        }
        let total = match found {
            Some(i) => {
                let was = &entries[i];
                let gone: u64 = if was.active {
                    was.hashrate
                } else {
                    0
                };
                proof {
                    lemma_share_within_capacity(before.entries, i as int);
                    lemma_capacity_update(before.entries, i as int, fresh@);
                    assert(views(entries@.update(i as int, fresh)) =~= before.entries.update(
                        i as int,
                        fresh@,
                    ));
                }
                entries.set(i, fresh);
                total - gone as u128 + hashrate as u128
            },
            None => {
                proof {
                    lemma_capacity_push(before.entries, fresh@);
                    assert(views(entries@.push(fresh)) =~= before.entries.push(fresh@));
                }
                entries.push(fresh);
                total + hashrate as u128
            },
        };
        proof {
            lemma_register_keeps_wf(before, id, hashrate);
        }
        *self = CapacityLedger { entries, total };
        Ok(())
    }

    /// Credits `worker_id` with `delta` more hashes and sets its reward.
    /// A worker without an entry is refused and nothing changes.
    pub fn credit(&mut self, worker_id: &String, delta: u64, reward: u64) -> (result: Result<
        (),
        PoolError,
    >)
        requires
            old(self)@.hash_count_of(worker_id@) + delta <= u64::MAX,
        ensures
            !old(self)@.contains(worker_id@) ==> result == Err::<(), PoolError>(
                PoolError::UnknownWorker,
            ) && final(self)@ == old(self)@,
            old(self)@.contains(worker_id@) ==> result is Ok && final(self)@ == old(self)@.credit(
                worker_id@,
                delta,
                reward,
            ),
            final(self)@.wf(),
    {
        proof {
            use_type_invariant(&*self);
        }
        let found = self.find(worker_id);
        let i: usize = match found {
            Some(i) => i,
            None => {
                return Err(PoolError::UnknownWorker);
            },
        };
        let ghost before = self@;
        let CapacityLedger { entries, total } = self.take();
        let mut entries = entries;
        let was = &entries[i];
        let now = WorkerEntry {
            worker_id: was.worker_id.clone(),
            hashrate: was.hashrate,
            hash_count: was.hash_count + delta,
            reward,
            active: was.active,
        };
        proof {
            assert(views(entries@.update(i as int, now)) =~= before.entries.update(i as int, now@));
            lemma_credit_keeps_wf(before, worker_id@, delta, reward);
        }
        entries.set(i, now);
        *self = CapacityLedger { entries, total };
        Ok(())
    }

    /// The number of nonces that `worker_id` may try in this round: its
    /// proportional part of the search space, nothing for a worker that is
    /// not active.
    pub fn quota_for(&self, worker_id: &String) -> (quota: u64)
        ensures
            quota == self@.quota(worker_id@),
            quota <= SEARCH_SPACE_SIZE,
    {
        proof {
            use_type_invariant(self);
        }
        match self.find(worker_id) {
            Some(i) => {
                let entry = &self.entries[i];
                if !entry.active {
                    return 0;
                }
                proof {
                    lemma_share_within_capacity(self@.entries, i as int);
                    lemma_quota_bound(entry.hashrate as nat, self.total as nat);
                }
                let divisor: u128 = if self.total == 0 {
                    1
                } else {
                    self.total
                };
                let quota: u128 = (SEARCH_SPACE_SIZE as u128 * entry.hashrate as u128) / divisor;
                quota as u64
            },
            None => 0,
        }
    }

    /// Whether `worker_id` is registered and active.
    pub fn is_active(&self, worker_id: &String) -> (active: bool)
        ensures
            active == self@.is_active(worker_id@),
    {
        match self.find(worker_id) {
            Some(i) => self.entries[i].active,
            None => false,
        }
    }

    /// The declared hashrate of `worker_id`, if it has an entry.
    pub fn hashrate_of(&self, worker_id: &String) -> (hashrate: Option<u64>)
        ensures
            hashrate == if self@.contains(worker_id@) {
                Some(self@.get(worker_id@).hashrate)
            } else {
                None
            },
    {
        match self.find(worker_id) {
            Some(i) => Some(self.entries[i].hashrate),
            None => None,
        }
    }

    /// The reward that `worker_id` holds, nothing if it has no entry.
    pub fn reward_of(&self, worker_id: &String) -> (reward: u64)
        ensures
            reward == self@.reward_of(worker_id@),
    {
        match self.find(worker_id) {
            Some(i) => self.entries[i].reward,
            None => 0,
        }
    }

    /// The hashes counted for `worker_id`, nothing if it has no entry.
    pub fn hash_count_of(&self, worker_id: &String) -> (count: u64)
        ensures
            count == self@.hash_count_of(worker_id@),
    {
        match self.find(worker_id) {
            Some(i) => self.entries[i].hash_count,
            None => 0,
        }
    }

    /// How many workers have an entry.
    pub fn len(&self) -> (count: usize)
        ensures
            count == self@.entries.len(),
    {
        self.entries.len()
    }

    /// The entry at `index`, in the order of first registration.
    pub fn entry(&self, index: usize) -> (entry: Option<WorkerEntry>)
        ensures
            match entry {
                Some(worker) => index < self@.entries.len() && worker@ == self@.entries[index as int],
                None => index >= self@.entries.len(),
            },
    {
        if index < self.entries.len() {
            Some(self.entries[index].duplicate())
        } else {
            None
        }
    }
}

/// Registering keeps a ledger sound: still no worker twice, and the total
/// still the sum over the active entries.
pub proof fn lemma_register_keeps_wf(ledger: LedgerView, worker_id: Seq<char>, hashrate: u64)
    requires
        ledger.wf(),
        hashrate > 0,
    ensures
        ledger.register(worker_id, hashrate).wf(),
        ledger.register(worker_id, hashrate).is_active(worker_id),
        ledger.register(worker_id, hashrate).get(worker_id) == (WorkerView {
            worker_id,
            hashrate,
            hash_count: 0,
            reward: 0,
            active: true,
        }),
{
    let fresh = WorkerView { worker_id, hashrate, hash_count: 0, reward: 0, active: true };
    let after = ledger.register(worker_id, hashrate);
    if ledger.contains(worker_id) {
        let i = ledger.index_of(worker_id);
        assert(ledger.at(worker_id, i));
        lemma_capacity_update(ledger.entries, i, fresh);
        lemma_share_within_capacity(ledger.entries, i);
        lemma_index_of(after, worker_id, i);
    } else {
        let n = ledger.entries.len() as int;
        lemma_capacity_push(ledger.entries, fresh);
        assert forall|k: int| 0 <= k < n implies ledger.entries[k].worker_id != worker_id by {
            assert(!ledger.at(worker_id, k));
        }
        lemma_index_of(after, worker_id, n);
    }
}

/// Crediting keeps a ledger sound, and moves neither the capacity nor any
/// other worker's entry.
pub proof fn lemma_credit_keeps_wf(ledger: LedgerView, worker_id: Seq<char>, delta: u64, reward: u64)
    requires
        ledger.wf(),
        ledger.contains(worker_id),
    ensures
        ledger.credit(worker_id, delta, reward).wf(),
        ledger.credit(worker_id, delta, reward).total == ledger.total,
        ledger.credit(worker_id, delta, reward).contains(worker_id),
        ledger.credit(worker_id, delta, reward).reward_of(worker_id) == reward,
{
    let i = ledger.index_of(worker_id);
    assert(ledger.at(worker_id, i));
    let was = ledger.entries[i];
    let now = WorkerView { hash_count: (was.hash_count + delta) as u64, reward, ..was };
    let after = ledger.credit(worker_id, delta, reward);
    lemma_capacity_update(ledger.entries, i, now);
    lemma_index_of(after, worker_id, i);
}

/// A worker whose hashrate is part of the total is never given more than
/// the whole search space.
pub proof fn lemma_quota_bound(hashrate: nat, total: nat)
    requires
        hashrate <= total,
    ensures
        quota_share(hashrate, total) <= SEARCH_SPACE_SIZE,
{
    let divisor: nat = if total == 0 { 1 } else { total };
    assert((1_000_000 * hashrate) / divisor <= 1_000_000) by (nonlinear_arith)
        requires
            hashrate <= divisor,
            divisor > 0,
    ;
}

} // verus!
