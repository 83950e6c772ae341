//! The replay buffer of the car's deep Q-learning: a ring of the most recent
//! transitions (state, action, reward, next state), each with a flag that says
//! whether it ended an episode, from which training batches are sampled.
//!
//! The buffer does not look inside states and rewards, so it is generic over
//! their types `S` and `R`.
use vstd::prelude::*;

verus! {

/// How many transitions the buffer keeps.
pub const BUFFER_SIZE: usize = 500_000;

/// How many transitions a training batch holds.
pub const BATCH_SIZE: usize = 128;

/// What storing `x` does to the contents of a ring of capacity `cap` into which
/// `count` transitions were stored before: while the ring is not full, `x` is
/// appended; after that, `x` replaces the slot `count % cap`.
pub open spec fn ring_store<T>(contents: Seq<T>, count: nat, cap: nat, x: T) -> Seq<T> {
    if contents.len() < cap {
        contents.push(x)
    } else {
        contents.update((count % cap) as int, x)
    }
}

/// The contents of a ring of capacity `cap`, starting empty, after storing the
/// transitions of `history` in order.
pub open spec fn ring_of<T>(history: Seq<T>, cap: nat) -> Seq<T>
    decreases history.len(),
{
    if history.len() == 0 {
        Seq::empty()
    } else {
        ring_store(ring_of(history.drop_last(), cap), (history.len() - 1) as nat, cap, history.last())
    }
}

/// Two positions less than `cap` apart fall in different slots of a ring of
/// capacity `cap`.
proof fn lemma_distinct_slots(j: int, n: int, cap: int)
    requires
        0 <= j < n,
        n - j < cap,
    ensures
        j % cap != n % cap,
{
    assert(j % cap != n % cap) by (nonlinear_arith)
        requires
            0 <= j < n,
            n - j < cap,
    {
        let qj = j / cap;
        let qn = n / cap;
        assert(j == qj * cap + j % cap);
        assert(n == qn * cap + n % cap);
        if j % cap == n % cap {
            assert(n - j == (qn - qj) * cap);
            if qn - qj >= 1 {
                assert((qn - qj) * cap >= cap);
            } else {
                assert((qn - qj) * cap <= 0);
            }
        }
    }
}

/// A ring buffer keeps the last transitions: after storing `history` into a
/// ring of capacity `cap`, it holds `min(history.len(), cap)` transitions, and
/// each of the last `cap` transitions stored, the one stored `j`-th, is in slot
/// `j % cap`.
pub proof fn lemma_ring_holds_latest<T>(history: Seq<T>, cap: nat)
    requires
        cap > 0,
    ensures
        ring_of(history, cap).len() == if history.len() < cap { history.len() } else { cap },
        forall|j: int|
            0 <= j < history.len() && history.len() - cap <= j ==> #[trigger] ring_of(history, cap)[j % (cap as int)] == history[j],
    decreases history.len(),
{
    if history.len() > 0 {
        let prefix = history.drop_last();
        let n0 = prefix.len() as int;
        lemma_ring_holds_latest(prefix, cap);
        let r = ring_of(prefix, cap);
        let r2 = ring_of(history, cap);
        assert(r2 == ring_store(r, n0 as nat, cap, history.last()));
        assert forall|j: int|
            0 <= j < history.len() && history.len() - cap <= j implies #[trigger] r2[j % (cap as int)] == history[j] by {
            if j == n0 {
                if r.len() < cap {
                    assert(n0 < cap);
                    assert(n0 % (cap as int) == n0) by (nonlinear_arith)
                        requires
                            0 <= n0 < cap,
                    ;
                }
            } else {
                lemma_distinct_slots(j, n0, cap as int);
                assert(prefix[j] == history[j]);
                assert(r[j % (cap as int)] == prefix[j]);
                if r.len() < cap {
                    assert(j % (cap as int) == j) by (nonlinear_arith)
                        requires
                            0 <= j < n0,
                            n0 < cap,
                    ;
                }
            }
        }
    }
}

/// The replay buffer, kept as five columns of equal length.
pub struct ReplayBuffer<S, R> {
    pub state: Vec<S>,
    pub action: Vec<usize>,
    pub reward: Vec<R>,
    pub next_state: Vec<S>,
    /// Whether the transition ended an episode.
    pub done: Vec<bool>,
    /// How many transitions were stored so far.
    pub i: usize,
}

impl<S, R> ReplayBuffer<S, R> {
    /// The five columns have the same length.
    pub open spec fn columns_agree(&self) -> bool {
        &&& self.action@.len() == self.state@.len()
        &&& self.reward@.len() == self.state@.len()
        &&& self.next_state@.len() == self.state@.len()
        &&& self.done@.len() == self.state@.len()
    }

    /// The transitions held with their episode-end flags, slot by slot.
    pub open spec fn records(&self) -> Seq<(S, usize, R, S, bool)> {
        Seq::new(
            self.state@.len(),
            |k: int| (self.state@[k], self.action@[k], self.reward@[k], self.next_state@[k], self.done@[k]),
        )
    }

    /// The transitions held, slot by slot.
    pub open spec fn transitions(&self) -> Seq<(S, usize, R, S)> {
        Seq::new(
            self.state@.len(),
            |k: int| (self.state@[k], self.action@[k], self.reward@[k], self.next_state@[k]),
        )
    }

    /// The buffer holds exactly what storing `history` from empty leaves in it.
    pub open spec fn holds_history(&self, history: Seq<(S, usize, R, S)>) -> bool {
        &&& self.columns_agree()
        &&& self.i == history.len()
        &&& self.transitions() == ring_of(history, BUFFER_SIZE as nat)
    }

    /// An empty buffer.
    pub fn new() -> (r: Self)
        ensures
            r.columns_agree(),
            r.transitions() == Seq::<(S, usize, R, S)>::empty(),
            r.i == 0,
    {
        let r = Self {
            state: Vec::new(),
            action: Vec::new(),
            reward: Vec::new(),
            next_state: Vec::new(),
            done: Vec::new(),
            i: 0,
        };
        assert(r.transitions() =~= Seq::<(S, usize, R, S)>::empty());
        r
    }

    /// The number of transitions held.
    pub fn len(&self) -> (r: usize)
        ensures
            r == self.state@.len(),
    {
        self.state.len()
    }

    /// Stores a transition that does not end an episode: appended while the
    /// buffer holds fewer than `BUFFER_SIZE`, then in place of the transition
    /// in slot `i % BUFFER_SIZE`.
    pub fn store(&mut self, state: S, action: usize, reward: R, next_state: S)
        requires
            old(self).columns_agree(),
            old(self).i < usize::MAX,
        ensures
            final(self).columns_agree(),
            final(self).i == old(self).i + 1,
            final(self).transitions() == ring_store(
                old(self).transitions(),
                old(self).i as nat,
                BUFFER_SIZE as nat,
                (state, action, reward, next_state),
            ),
            final(self).done@ == ring_store(old(self).done@, old(self).i as nat, BUFFER_SIZE as nat, false),
    {
        self.store_with_done(state, action, reward, next_state, false)
    }

    /// Stores a transition with its episode-end flag `done`, in the slot that
    /// `store` uses.
    pub fn store_with_done(&mut self, state: S, action: usize, reward: R, next_state: S, done: bool)
        requires
            old(self).columns_agree(),
            old(self).i < usize::MAX,
        ensures
            final(self).columns_agree(),
            final(self).i == old(self).i + 1,
            final(self).transitions() == ring_store(
                old(self).transitions(),
                old(self).i as nat,
                BUFFER_SIZE as nat,
                (state, action, reward, next_state),
            ),
            final(self).done@ == ring_store(old(self).done@, old(self).i as nat, BUFFER_SIZE as nat, done),
    {
        let i = self.i % BUFFER_SIZE;
        let ghost old_t = self.transitions();
        if self.len() < BUFFER_SIZE {
            self.state.push(state);
            self.action.push(action);
            self.reward.push(reward);
            self.next_state.push(next_state);
            self.done.push(done);
            assert(self.transitions() =~= old_t.push((state, action, reward, next_state)));
        } else {
            self.state.set(i, state);
            self.action.set(i, action);
            self.reward.set(i, reward);
            self.next_state.set(i, next_state);
            self.done.set(i, done);
            assert(self.transitions() =~= old_t.update(i as int, (state, action, reward, next_state)));
        }
        self.i = self.i + 1;
    }

    /// The transitions at the given slots, in the order of the slots.
    pub fn get_batch(&self, sample_indexes: [usize; BATCH_SIZE]) -> (r: Vec<(S, usize, R, S)>)
        where
            S: Copy,
            R: Copy,
        requires
            self.columns_agree(),
            forall|j: int| 0 <= j < BATCH_SIZE ==> #[trigger] sample_indexes@[j] < self.state@.len(),
        ensures
            r@.len() == BATCH_SIZE,
            forall|j: int| 0 <= j < BATCH_SIZE ==> #[trigger] r@[j] == self.transitions()[sample_indexes@[j] as int],
    {
        let mut batch: Vec<(S, usize, R, S)> = Vec::new();
        let mut j: usize = 0;
        while j < BATCH_SIZE
            invariant
                j <= BATCH_SIZE,
                self.columns_agree(),
                forall|j: int| 0 <= j < BATCH_SIZE ==> #[trigger] sample_indexes@[j] < self.state@.len(),
                batch@.len() == j,
                forall|l: int| 0 <= l < j ==> #[trigger] batch@[l] == self.transitions()[sample_indexes@[l] as int],
            decreases BATCH_SIZE - j,
        {
            let k = sample_indexes[j];
            batch.push((self.state[k], self.action[k], self.reward[k], self.next_state[k]));
            j = j + 1;
        }
        batch
    }
}

/// How many of the latest transitions are handed over to be persisted.
pub const PERSIST_BATCH_SIZE: usize = 100;

/// The records (transition and episode-end flag) in the last `k` slots of
/// the buffer, in slot order.
pub fn last_records<S: Copy, R: Copy>(rb: &ReplayBuffer<S, R>, k: usize) -> (r: Vec<(S, usize, R, S, bool)>)
    requires
        rb.columns_agree(),
        k <= rb.state@.len(),
    ensures
        r@ == rb.records().subrange(rb.state@.len() - k, rb.state@.len() as int),
{
    let start = rb.len() - k;
    let mut out: Vec<(S, usize, R, S, bool)> = Vec::new();
    let mut i: usize = start;
    while i < rb.len()
        invariant
            rb.columns_agree(),
            start == rb.state@.len() - k,
            start <= i <= rb.state@.len(),
            out@ == rb.records().subrange(start as int, i as int),
        decreases rb.state@.len() - i,
    {
        out.push((rb.state[i], rb.action[i], rb.reward[i], rb.next_state[i], rb.done[i]));
        proof {
            assert(out@ =~= rb.records().subrange(start as int, i + 1));
        }
        i = i + 1;
    }
    out
}

/// The latest `PERSIST_BATCH_SIZE` records, oldest first, which are sent to
/// be stored after each training step.
pub fn get_replay_buffer_to_persist<S: Copy, R: Copy>(rb: &ReplayBuffer<S, R>) -> (r: Vec<(S, usize, R, S, bool)>)
    requires
        rb.columns_agree(),
        PERSIST_BATCH_SIZE <= rb.state@.len(),
    ensures
        r@ == rb.records().subrange(rb.state@.len() - PERSIST_BATCH_SIZE, rb.state@.len() as int),
{
    last_records(rb, PERSIST_BATCH_SIZE)
}

/// Storing a transition into a buffer that holds `history` leaves a buffer
/// that holds `history` followed by that transition.
pub proof fn lemma_store_extends_history<S, R>(
    before: ReplayBuffer<S, R>,
    after: ReplayBuffer<S, R>,
    history: Seq<(S, usize, R, S)>,
    x: (S, usize, R, S),
)
    requires
        before.holds_history(history),
        after.columns_agree(),
        after.i == before.i + 1,
        after.transitions() == ring_store(before.transitions(), before.i as nat, BUFFER_SIZE as nat, x),
    ensures
        after.holds_history(history.push(x)),
{
    assert(history.push(x).drop_last() =~= history);
}

/// A stored transition is read back from its slot, and the other slots keep
/// theirs: after storing `x`, the slot where it went (the next free one while
/// the buffer is not full, else `i % BUFFER_SIZE`) holds `x`.
pub proof fn lemma_store_then_read<S, R>(
    before: ReplayBuffer<S, R>,
    after: ReplayBuffer<S, R>,
    x: (S, usize, R, S),
)
    requires
        before.columns_agree(),
        after.transitions() == ring_store(before.transitions(), before.i as nat, BUFFER_SIZE as nat, x),
    ensures
        ({
            let slot = if before.state@.len() < BUFFER_SIZE {
                before.state@.len() as int
            } else {
                (before.i % BUFFER_SIZE) as int
            };
            &&& 0 <= slot < after.transitions().len()
            &&& after.transitions()[slot] == x
            &&& forall|k: int| 0 <= k < before.state@.len() && k != slot ==> #[trigger] after.transitions()[k] == before.transitions()[k]
        }),
{
}

/// The replay buffer holds the last `BUFFER_SIZE` transitions stored: a buffer
/// that holds `history` has `min(history.len(), BUFFER_SIZE)` transitions, and
/// the transition stored `j`-th, when it is one of the last `BUFFER_SIZE`, is
/// in slot `j % BUFFER_SIZE`.
pub proof fn lemma_buffer_holds_latest<S, R>(buffer: ReplayBuffer<S, R>, history: Seq<(S, usize, R, S)>)
    requires
        buffer.holds_history(history),
    ensures
        buffer.state@.len() == if history.len() < BUFFER_SIZE { history.len() } else { BUFFER_SIZE as nat },
        forall|j: int|
            0 <= j < history.len() && history.len() - BUFFER_SIZE <= j
                ==> #[trigger] buffer.transitions()[j % (BUFFER_SIZE as int)] == history[j],
{
    lemma_ring_holds_latest(history, BUFFER_SIZE as nat);
}

} // verus!
