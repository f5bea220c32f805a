//! Replay buffer for catastrophic forgetting prevention.

use vstd::prelude::*;
use rand::rngs::StdRng;
use crate::layout::index_range;
use crate::rng::random_below;

verus! {

/// Stores canonical drilling scenarios to prevent catastrophic forgetting.
///
/// Holds at most `max_size` samples; when full, the oldest gives way.
#[derive(Debug)]
pub struct ReplayBuffer<T> {
    /// Representative samples from pre-training data, oldest first.
    pub samples: Vec<T>,
    /// Maximum buffer size.
    pub max_size: usize,
}

/// The samples a buffer of capacity `max` keeps after `history` was added
/// to it, oldest first: the latest `max` of them.
pub open spec fn latest_window<T>(history: Seq<T>, max: nat) -> Seq<T> {
    if history.len() <= max { history } else { history.skip(history.len() - max) }
}

/// The sample vector after adding `x` to `s` in a buffer of capacity `max`.
pub open spec fn after_add<T>(s: Seq<T>, x: T, max: nat) -> Seq<T> {
    if s.len() >= max { s.drop_first().push(x) } else { s.push(x) }
}

impl<T> ReplayBuffer<T> {
    /// An empty buffer with room for `max_size` samples.
    pub fn new(max_size: usize) -> (b: Self)
        ensures
            b.samples@.len() == 0,
            b.max_size == max_size,
    {
        ReplayBuffer { samples: Vec::new(), max_size }
    }

    /// Add a sample to the buffer. If full, drop the oldest sample first.
    pub fn add(&mut self, sample: T)
        requires
            old(self).samples@.len() > 0 || old(self).max_size > 0,
        ensures
            final(self).samples@ == after_add(old(self).samples@, sample, old(self).max_size as nat),
            final(self).max_size == old(self).max_size,
    {
        if self.samples.len() >= self.max_size {
            self.samples.remove(0);
        }
        self.samples.push(sample);
    }

    /// Indices for a mixed batch of `batch_size`: `n_replay` random indices
    /// into this buffer, and the live indices `0..min(live_count, batch_size - n_replay)`.
    /// When the buffer is empty, the batch is all live:
    /// `0..min(live_count, batch_size)` and no replay index, and nothing is
    /// drawn from `rng`. Otherwise each replay index is one draw.
    pub fn mixed_batch_indices(
        &self,
        live_count: usize,
        batch_size: usize,
        n_replay: usize,
        rng: &mut StdRng,
    ) -> (r: (Vec<usize>, Vec<usize>))
        ensures
            self.samples@.len() == 0 ==> {
                &&& r.0@ == index_range(0, if live_count < batch_size { live_count as int } else { batch_size as int })
                &&& r.1@.len() == 0
                &&& *final(rng) == *old(rng)
            },
            self.samples@.len() > 0 ==> {
                let n_live = if batch_size > n_replay { batch_size - n_replay } else { 0 };
                &&& r.0@ == index_range(0, if live_count < n_live { live_count as int } else { n_live as int })
                &&& r.1@.len() == n_replay
                &&& forall|k: int| 0 <= k < n_replay ==> #[trigger] r.1@[k] < self.samples@.len()
            },
    {
        if self.samples.len() == 0 {
            let n = if live_count < batch_size { live_count } else { batch_size };
            return (prefix_indices(n), Vec::new());
        }
        let n_live = if batch_size > n_replay { batch_size - n_replay } else { 0 };
        let n = if live_count < n_live { live_count } else { n_live };
        let live_indices = prefix_indices(n);
        let mut replay_indices: Vec<usize> = Vec::new();
        let mut k: usize = 0;
        while k < n_replay
            invariant
                k <= n_replay,
                self.samples@.len() > 0,
                replay_indices@.len() == k,
                forall|j: int| 0 <= j < k ==> #[trigger] replay_indices@[j] < self.samples@.len(),
            decreases n_replay - k,
        {
            let i = random_below(rng, self.samples.len());
            replay_indices.push(i);
            k += 1;
        }
        (live_indices, replay_indices)
    }

    /// Current number of samples in the buffer.
    pub fn len(&self) -> (n: usize)
        ensures
            n == self.samples@.len(),
    {
        self.samples.len()
    }

    /// Whether the buffer is empty.
    pub fn is_empty(&self) -> (e: bool)
        ensures
            e == (self.samples@.len() == 0),
    {
        self.samples.len() == 0
    }
}

/// The indices `0..n`.
fn prefix_indices(n: usize) -> (r: Vec<usize>)
    ensures
        r@ == index_range(0, n as int),
{
    let mut r: Vec<usize> = Vec::new();
    let mut k: usize = 0;
    while k < n
        invariant
            k <= n,
            r@ == index_range(0, k as int),
        decreases n - k,
    {
        r.push(k);
        k += 1;
        assert(r@ =~= index_range(0, k as int));
    }
    r
}

/// A buffer of positive capacity that starts empty keeps exactly the latest
/// `max_size` samples added to it, oldest first: adding one more sample to
/// the window of a history gives the window of the extended history.
pub proof fn law_replay_keeps_latest_window<T>(history: Seq<T>, x: T, max: nat)
    requires
        max > 0,
    ensures
        after_add(latest_window(history, max), x, max) == latest_window(history.push(x), max),
        latest_window(history.push(x), max).len() <= max,
        latest_window(history.push(x), max).last() == x,
{
    let w = latest_window(history, max);
    if history.len() < max {
        assert(w == history);
    } else {
        assert(w.len() == max);
        assert(w.drop_first().push(x) =~= history.push(x).skip(history.push(x).len() - max));
    }
}

} // verus!
