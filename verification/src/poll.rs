use vstd::prelude::*;

verus! {

/// The poll loop's only state: the newest block number a cycle has run for.
/// It starts at zero, so the first block ever observed is always processed.
pub struct PollState {
    pub last_block: u64,
}

/// How many cycles a sequence of block-number observations triggers when the
/// gate last processed `last`: one per observation strictly newer than
/// everything processed before it, and never two for the same block.
pub open spec fn cycles_spec(obs: Seq<u64>, last: u64) -> nat
    decreases obs.len(),
{
    if obs.len() == 0 {
        0
    } else if obs.first() > last {
        1 + cycles_spec(obs.drop_first(), obs.first())
    } else {
        cycles_spec(obs.drop_first(), last)
    }
}

impl PollState {
    pub fn new() -> (s: Self)
        ensures
            s.last_block == 0,
    {
        PollState { last_block: 0 }
    }

    /// The dedup gate: a cycle is due exactly when the chain has moved past
    /// the last processed block.  The state itself is untouched, so polling
    /// again before the chain advances stays idle.
    pub fn should_process(&self, current: u64) -> (r: bool)
        ensures
            r == (current > self.last_block),
    {
        current > self.last_block
    }

    /// Records that the cycle for `current` ran, or was attempted; called
    /// once per cycle, after the work, never for a stale block.
    pub fn record_processed(&mut self, current: u64)
        requires
            current > old(self).last_block,
        ensures
            final (self).last_block == current,
    {
        self.last_block = current;
    }
}

/// Replays a sequence of block observations through a fresh gate and reports
/// how many cycles execute, exactly `cycles_spec` of the sequence.
pub fn count_cycles(obs: &Vec<u64>) -> (n: usize)
    ensures
        n == cycles_spec(obs@, 0),
{
    let mut st = PollState::new();
    let mut n: usize = 0;
    let mut i: usize = 0;
    proof {
        assert(obs@.skip(0) =~= obs@);
    }
    while i < obs.len()
        invariant
            i <= obs@.len(),
            n <= i,
            n + cycles_spec(obs@.skip(i as int), st.last_block) == cycles_spec(obs@, 0),
        decreases obs@.len() - i,
    {
        proof {
            assert(obs@.skip(i as int).first() == obs@[i as int]);
            assert(obs@.skip(i as int).drop_first() =~= obs@.skip(i + 1));
        }
        if st.should_process(obs[i]) {
            st.record_processed(obs[i]);
            n = n + 1;
        }
        i = i + 1;
    }
    proof {
        assert(obs@.skip(obs@.len() as int) =~= Seq::<u64>::empty());
    }
    n
}

/// Once a block has been processed, observations at or below it never start
/// another cycle: the same block is never processed twice, however often it
/// is polled.
pub proof fn lemma_stale_blocks_run_nothing(obs: Seq<u64>, last: u64)
    requires
        forall|j: int| 0 <= j < obs.len() ==> #[trigger] obs[j] <= last,
    ensures
        cycles_spec(obs, last) == 0,
    decreases obs.len(),
{
    if obs.len() > 0 {
        assert forall|j: int| 0 <= j < obs.drop_first().len() implies #[trigger] obs.drop_first()[j]
            <= last by {
            assert(obs.drop_first()[j] == obs[j + 1]);
        }
        lemma_stale_blocks_run_nothing(obs.drop_first(), last);
    }
}

} // verus!
