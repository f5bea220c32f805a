//! Topology constraint enforcement.
//!
//! Hard constraint: each neuron may belong to at most two circuits.

use vstd::prelude::*;
use crate::circuit::Circuit;

verus! {

/// Why a mesh topology was rejected.
#[derive(Debug, Clone, Copy, PartialEq, Eq, Structural)]
pub enum TopologyError {
    /// A neuron belongs to more circuits than the limit allows.
    ExcessMembership { neuron_idx: usize, count: u8, max: u8 },
    /// A circuit names a neuron index outside the mesh: (index, total neurons).
    NeuronOutOfBounds(usize, usize),
}

/// Enforces the max-circuits-per-neuron invariant.
#[derive(Debug, Clone, Copy, PartialEq, Eq, Structural)]
pub struct TopologyConstraint {
    /// Maximum circuits any single neuron may belong to. Always 2.
    pub max_circuits_per_neuron: u8,
}

/// All neuron indices named by `circuits`, circuit after circuit, each in
/// the order its circuit lists them.
pub open spec fn flat_indices(circuits: Seq<Circuit>) -> Seq<usize>
    decreases circuits.len(),
{
    if circuits.len() == 0 {
        Seq::empty()
    } else {
        flat_indices(circuits.drop_last()) + circuits.last().neuron_indices@
    }
}

/// How many times `x` occurs in `s`.
pub open spec fn count_in(s: Seq<usize>, x: usize) -> nat
    decreases s.len(),
{
    if s.len() == 0 {
        0
    } else {
        count_in(s.drop_last(), x) + if s.last() == x { 1nat } else { 0nat }
    }
}

/// The outcome of scanning the memberships `s` in order against a mesh of
/// `n` neurons and a limit of `max` circuits per neuron: the first index out
/// of bounds, or the first membership that takes a neuron over the limit, or
/// success when there is neither.
pub open spec fn scan_memberships(s: Seq<usize>, n: usize, max: u8) -> Result<(), TopologyError>
    decreases s.len(),
{
    if s.len() == 0 {
        Ok(())
    } else {
        match scan_memberships(s.drop_last(), n, max) {
            Err(e) => Err(e),
            Ok(_) => {
                let x = s.last();
                if x >= n {
                    Err(TopologyError::NeuronOutOfBounds(x, n))
                } else if count_in(s, x) > max {
                    Err(TopologyError::ExcessMembership { neuron_idx: x, count: count_in(s, x) as u8, max })
                } else {
                    Ok(())
                }
            },
        }
    }
}

/// Every index in `s` is below `n` and no neuron occurs more than `max` times.
pub open spec fn memberships_within(s: Seq<usize>, n: usize, max: u8) -> bool {
    &&& forall|k: int| 0 <= k < s.len() ==> #[trigger] s[k] < n
    &&& forall|x: usize| #[trigger] count_in(s, x) <= max
}

pub proof fn lemma_count_push(s: Seq<usize>, x: usize, y: usize)
    ensures
        count_in(s.push(x), y) == count_in(s, y) + if x == y { 1nat } else { 0nat },
{
    assert(s.push(x).drop_last() =~= s);
}

pub proof fn lemma_count_append(s: Seq<usize>, t: Seq<usize>, y: usize)
    ensures
        count_in(s + t, y) == count_in(s, y) + count_in(t, y),
    decreases t.len(),
{
    if t.len() == 0 {
        assert(s + t =~= s);
    } else {
        lemma_count_append(s, t.drop_last(), y);
        assert((s + t).drop_last() =~= s + t.drop_last());
    }
}

pub proof fn lemma_scan_push(s: Seq<usize>, x: usize, n: usize, max: u8)
    ensures
        scan_memberships(s.push(x), n, max) == match scan_memberships(s, n, max) {
            Err(e) => Err(e),
            Ok(_) => if x >= n {
                Err(TopologyError::NeuronOutOfBounds(x, n))
            } else if count_in(s.push(x), x) > max {
                Err(TopologyError::ExcessMembership {
                    neuron_idx: x,
                    count: count_in(s.push(x), x) as u8,
                    max,
                })
            } else {
                Ok(())
            },
        },
{
    assert(s.push(x).drop_last() =~= s);
}

/// Once a scan has failed, scanning further memberships keeps the first failure.
pub proof fn lemma_scan_err_extends(s: Seq<usize>, t: Seq<usize>, n: usize, max: u8)
    requires
        scan_memberships(s, n, max) is Err,
    ensures
        scan_memberships(s + t, n, max) == scan_memberships(s, n, max),
    decreases t.len(),
{
    if t.len() == 0 {
        assert(s + t =~= s);
    } else {
        lemma_scan_err_extends(s, t.drop_last(), n, max);
        assert((s + t).drop_last() =~= s + t.drop_last());
    }
}

/// A scan succeeds exactly when every index is in bounds and no neuron is
/// over the limit.
pub proof fn lemma_scan_ok_iff_within(s: Seq<usize>, n: usize, max: u8)
    ensures
        scan_memberships(s, n, max) is Ok <==> memberships_within(s, n, max),
    decreases s.len(),
{
    if s.len() == 0 {
    } else {
        let d = s.drop_last();
        let x = s.last();
        lemma_scan_ok_iff_within(d, n, max);
        assert(s =~= d.push(x));
        assert forall|y: usize| #[trigger] count_in(s, y) == count_in(d, y) + if x == y { 1nat } else { 0nat } by {
            lemma_count_push(d, x, y);
        }
        if memberships_within(s, n, max) {
            assert forall|k: int| 0 <= k < d.len() implies #[trigger] d[k] < n by {
                assert(s[k] == d[k]);
            }
            assert forall|y: usize| #[trigger] count_in(d, y) <= max by {
                assert(count_in(s, y) <= max);
            }
            assert(s[s.len() - 1] < n);
        }
        if scan_memberships(s, n, max) is Ok {
            assert(scan_memberships(d, n, max) is Ok);
            assert forall|k: int| 0 <= k < s.len() implies #[trigger] s[k] < n by {
                if k < d.len() {
                    assert(d[k] == s[k]);
                }
            }
            assert forall|y: usize| #[trigger] count_in(s, y) <= max by {
                if y != x {
                    assert(count_in(d, y) <= max);
                }
            }
        }
    }
}

pub proof fn lemma_flat_take_step(circuits: Seq<Circuit>, ci: int)
    requires
        0 <= ci < circuits.len(),
    ensures
        flat_indices(circuits.take(ci + 1)) == flat_indices(circuits.take(ci)) + circuits[ci].neuron_indices@,
{
    assert(circuits.take(ci + 1).drop_last() =~= circuits.take(ci));
}

impl TopologyConstraint {
    /// The standard constraint: at most two circuits per neuron.
    pub fn new() -> (t: Self)
        ensures
            t.max_circuits_per_neuron == 2,
    {
        TopologyConstraint { max_circuits_per_neuron: 2 }
    }

    /// Validate the entire mesh topology.
    ///
    /// Scans the circuits in order and each circuit's neurons in order, and
    /// fails at the first neuron index out of bounds or the first membership
    /// that takes a neuron over the limit.
    ///
    /// With a limit of 255 a membership over the limit would be counted 256,
    /// which the count cannot hold; such an input is left out.
    pub fn validate(&self, neuron_count: usize, circuits: &[Circuit]) -> (r: Result<(), TopologyError>)
        requires
            self.max_circuits_per_neuron < u8::MAX || !(scan_memberships(
                flat_indices(circuits@),
                neuron_count,
                self.max_circuits_per_neuron,
            ) matches Err(TopologyError::ExcessMembership { .. })),
        ensures
            r == scan_memberships(flat_indices(circuits@), neuron_count, self.max_circuits_per_neuron),
            r is Ok <==> memberships_within(flat_indices(circuits@), neuron_count, self.max_circuits_per_neuron),
    {
        let max = self.max_circuits_per_neuron;
        let ghost all = flat_indices(circuits@);
        let mut membership_count: Vec<u16> = Vec::new();
        let mut z: usize = 0;
        while z < neuron_count
            invariant
                z <= neuron_count,
                membership_count@.len() == z,
                forall|i: int| 0 <= i < z ==> membership_count@[i] == 0,
            decreases neuron_count - z,
        {
            membership_count.push(0u16);
            z += 1;
        }
        proof {
            lemma_scan_ok_iff_within(all, neuron_count, max);
            assert(circuits@.take(circuits@.len() as int) =~= circuits@);
            assert(circuits@.take(0) =~= Seq::<Circuit>::empty());
        }
        let mut ci: usize = 0;
        while ci < circuits.len()
            invariant
                ci <= circuits@.len(),
                max < u8::MAX || !(scan_memberships(all, neuron_count, max) matches Err(TopologyError::ExcessMembership { .. })),
                max == self.max_circuits_per_neuron,
                all == flat_indices(circuits@),
                scan_memberships(all, neuron_count, max) is Ok <==> memberships_within(all, neuron_count, max),
                membership_count@.len() == neuron_count,
                scan_memberships(flat_indices(circuits@.take(ci as int)), neuron_count, max) is Ok,
                forall|i: int| 0 <= i < neuron_count ==>
                    membership_count@[i] == count_in(flat_indices(circuits@.take(ci as int)), i as usize),
                forall|x: usize| #[trigger] count_in(flat_indices(circuits@.take(ci as int)), x) <= max,
            decreases circuits@.len() - ci,
        {
            let ghost before = flat_indices(circuits@.take(ci as int));
            let indices = &circuits[ci].neuron_indices;
            let mut j: usize = 0;
            proof {
                assert(indices@.take(0) =~= Seq::<usize>::empty());
                assert(before + indices@.take(0) =~= before);
            }
            while j < indices.len()
                invariant
                    j <= indices@.len(),
                    ci < circuits@.len(),
                    indices@ == circuits@[ci as int].neuron_indices@,
                    max < u8::MAX || !(scan_memberships(all, neuron_count, max) matches Err(TopologyError::ExcessMembership { .. })),
                    max == self.max_circuits_per_neuron,
                    all == flat_indices(circuits@),
                    scan_memberships(all, neuron_count, max) is Ok <==> memberships_within(all, neuron_count, max),
                    before == flat_indices(circuits@.take(ci as int)),
                    membership_count@.len() == neuron_count,
                    scan_memberships(before + indices@.take(j as int), neuron_count, max) is Ok,
                    forall|i: int| 0 <= i < neuron_count ==>
                        membership_count@[i] == count_in(before + indices@.take(j as int), i as usize),
                    forall|x: usize| #[trigger] count_in(before + indices@.take(j as int), x) <= max,
                decreases indices@.len() - j,
            {
                let neuron_idx = indices[j];
                let ghost pre = before + indices@.take(j as int);
                let ghost post = before + indices@.take(j as int + 1);
                proof {
                    assert(post =~= pre.push(neuron_idx));
                    lemma_scan_push(pre, neuron_idx, neuron_count, max);
                    lemma_flat_take_step(circuits@, ci as int);
                    assert(circuits@.take(ci as int + 1) =~= circuits@.take(ci as int).push(circuits@[ci as int]));
                }
                if neuron_idx >= neuron_count {
                    proof {
                        let rest = indices@.skip(j as int + 1) + flat_indices(circuits@).skip(
                            flat_indices(circuits@.take(ci as int + 1)).len() as int);
                        lemma_flat_prefix(circuits@, ci as int + 1);
                        assert(all =~= post + rest);
                        lemma_scan_err_extends(post, rest, neuron_count, max);
                    }
                    return Err(TopologyError::NeuronOutOfBounds(neuron_idx, neuron_count));
                }
                proof {
                    lemma_count_push(pre, neuron_idx, neuron_idx);
                }
                membership_count.set(neuron_idx, membership_count[neuron_idx] + 1);
                if membership_count[neuron_idx] > max as u16 {
                    proof {
                        let rest = indices@.skip(j as int + 1) + flat_indices(circuits@).skip(
                            flat_indices(circuits@.take(ci as int + 1)).len() as int);
                        lemma_flat_prefix(circuits@, ci as int + 1);
                        assert(all =~= post + rest);
                        lemma_scan_err_extends(post, rest, neuron_count, max);
                        assert(max < u8::MAX);
                    }
                    return Err(TopologyError::ExcessMembership {
                        neuron_idx,
                        count: membership_count[neuron_idx] as u8,
                        max,
                    });
                }
                proof {
                    assert forall|i: int| 0 <= i < neuron_count implies
                        membership_count@[i] == count_in(post, i as usize) by {
                        lemma_count_push(pre, neuron_idx, i as usize);
                    }
                    assert forall|x: usize| #[trigger] count_in(post, x) <= max by {
                        lemma_count_push(pre, neuron_idx, x);
                    }
                }
                j += 1;
            }
            proof {
                lemma_flat_take_step(circuits@, ci as int);
                assert(indices@.take(j as int) =~= indices@);
            }
            ci += 1;
        }
        Ok(())
    }

    /// Compute the membership count for every neuron: how many times each
    /// in-bounds neuron index is named by the circuits. Out-of-bounds
    /// indices are ignored.
    pub fn membership_counts(&self, neuron_count: usize, circuits: &[Circuit]) -> (counts: Vec<u8>)
        requires
            forall|i: usize| i < neuron_count ==> #[trigger] count_in(flat_indices(circuits@), i) <= u8::MAX,
        ensures
            counts@.len() == neuron_count,
            forall|i: int| 0 <= i < neuron_count ==>
                #[trigger] counts@[i] == count_in(flat_indices(circuits@), i as usize),
    {
        let ghost all = flat_indices(circuits@);
        let mut counts: Vec<u8> = Vec::new();
        let mut z: usize = 0;
        while z < neuron_count
            invariant
                z <= neuron_count,
                counts@.len() == z,
                forall|i: int| 0 <= i < z ==> counts@[i] == 0,
            decreases neuron_count - z,
        {
            counts.push(0u8);
            z += 1;
        }
        proof {
            assert(circuits@.take(circuits@.len() as int) =~= circuits@);
            assert(circuits@.take(0) =~= Seq::<Circuit>::empty());
        }
        let mut ci: usize = 0;
        while ci < circuits.len()
            invariant
                ci <= circuits@.len(),
                all == flat_indices(circuits@),
                forall|i: usize| i < neuron_count ==> #[trigger] count_in(all, i) <= u8::MAX,
                counts@.len() == neuron_count,
                forall|i: int| 0 <= i < neuron_count ==>
                    counts@[i] == count_in(flat_indices(circuits@.take(ci as int)), i as usize),
            decreases circuits@.len() - ci,
        {
            let ghost before = flat_indices(circuits@.take(ci as int));
            let indices = &circuits[ci].neuron_indices;
            proof {
                lemma_flat_take_step(circuits@, ci as int);
                lemma_flat_prefix(circuits@, ci as int + 1);
                assert(indices@.take(0) =~= Seq::<usize>::empty());
                assert(before + indices@.take(0) =~= before);
            }
            let mut j: usize = 0;
            while j < indices.len()
                invariant
                    j <= indices@.len(),
                    ci < circuits@.len(),
                    indices@ == circuits@[ci as int].neuron_indices@,
                    all == flat_indices(circuits@),
                    forall|i: usize| i < neuron_count ==> #[trigger] count_in(all, i) <= u8::MAX,
                    before == flat_indices(circuits@.take(ci as int)),
                    flat_indices(circuits@.take(ci as int + 1)) == before + indices@,
                    all == flat_indices(circuits@.take(ci as int + 1)) + all.skip(
                        flat_indices(circuits@.take(ci as int + 1)).len() as int),
                    counts@.len() == neuron_count,
                    forall|i: int| 0 <= i < neuron_count ==>
                        counts@[i] == count_in(before + indices@.take(j as int), i as usize),
                decreases indices@.len() - j,
            {
                let idx = indices[j];
                let ghost pre = before + indices@.take(j as int);
                let ghost post = before + indices@.take(j as int + 1);
                proof {
                    assert(post =~= pre.push(idx));
                    assert forall|i: int| 0 <= i < neuron_count implies
                        #[trigger] count_in(post, i as usize) == count_in(pre, i as usize) + if idx == i as usize { 1nat } else { 0nat } by {
                        lemma_count_push(pre, idx, i as usize);
                    }
                }
                if idx < neuron_count {
                    proof {
                        let rest = indices@.skip(j as int + 1) + all.skip(
                            flat_indices(circuits@.take(ci as int + 1)).len() as int);
                        assert(all =~= post + rest);
                        lemma_count_append(post, rest, idx);
                        assert(count_in(all, idx) <= u8::MAX);
                    }
                    counts[idx] = counts[idx] + 1;
                }
                j += 1;
            }
            proof {
                assert(indices@.take(j as int) =~= indices@);
            }
            ci += 1;
        }
        counts
    }
}

/// The memberships of the first `k` circuits are a prefix of all memberships.
pub proof fn lemma_flat_prefix(circuits: Seq<Circuit>, k: int)
    requires
        0 <= k <= circuits.len(),
    ensures
        flat_indices(circuits) == flat_indices(circuits.take(k)) + flat_indices(circuits).skip(
            flat_indices(circuits.take(k)).len() as int),
        flat_indices(circuits.take(k)).len() <= flat_indices(circuits).len(),
    decreases circuits.len() - k,
{
    if k == circuits.len() {
        assert(circuits.take(k) =~= circuits);
        assert(flat_indices(circuits).skip(flat_indices(circuits).len() as int) =~= Seq::<usize>::empty());
        assert(flat_indices(circuits) + Seq::<usize>::empty() =~= flat_indices(circuits));
    } else {
        lemma_flat_prefix(circuits, k + 1);
        lemma_flat_take_step(circuits, k);
        let a = flat_indices(circuits.take(k));
        let b = circuits[k].neuron_indices@;
        let all = flat_indices(circuits);
        let rest = all.skip((a + b).len() as int);
        assert(all == (a + b) + rest);
        assert(all.skip(a.len() as int) =~= b + rest);
        assert(all =~= a + (b + rest));
    }
}

/// When a scan reports a neuron over the limit, the count it reports is
/// exactly one more than the limit: the scan stops at the first excess.
pub proof fn law_excess_count_is_limit_plus_one(s: Seq<usize>, n: usize, max: u8)
    requires
        max < u8::MAX,
    ensures
        scan_memberships(s, n, max) matches Err(TopologyError::ExcessMembership { count, max: m, .. }) ==> {
            &&& count == max + 1
            &&& m == max
        },
    decreases s.len(),
{
    if s.len() > 0 {
        let d = s.drop_last();
        let x = s.last();
        law_excess_count_is_limit_plus_one(d, n, max);
        if scan_memberships(d, n, max) is Ok {
            lemma_scan_ok_iff_within(d, n, max);
            assert(s =~= d.push(x));
            lemma_count_push(d, x, x);
            assert(count_in(d, x) <= max);
        }
    }
}

/// Validation accepts a topology only if the membership count it implies for
/// every neuron (as `membership_counts` reports it) is within the limit.
pub proof fn law_accepted_topology_counts_within_limit(circuits: Seq<Circuit>, n: usize, max: u8)
    requires
        scan_memberships(flat_indices(circuits), n, max) is Ok,
    ensures
        forall|i: usize| i < n ==> #[trigger] count_in(flat_indices(circuits), i) <= max,
{
    lemma_scan_ok_iff_within(flat_indices(circuits), n, max);
}

impl Default for TopologyConstraint {
    fn default() -> (t: Self)
        ensures
            t.max_circuits_per_neuron == 2,
    {
        Self::new()
    }
}

} // verus!
