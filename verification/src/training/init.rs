//! Wiring decided before training: which neurons the adapter layers read
//! and write, and which skip connections join detection inputs to readouts.
//!
//! Weights are drawn by the numeric initialisation; this module decides the
//! edges they are drawn for.

use vstd::prelude::*;
use crate::circuit::{Circuit, CircuitType, readout_start};
use crate::mesh::MeshStructure;

verus! {

/// Width of the window an adapter takes from each circuit it reads or writes.
pub const ADAPTER_WINDOW: usize = 32;

/// Number of WITS input features clamped into the first neurons of each detection circuit.
pub const INPUT_NEURONS: usize = 14;

/// Number of readout neurons at the tail of each detection circuit.
pub const READOUT_NEURONS: usize = 8;

/// The adapter window of one circuit: its last 32 neurons when `tail`, its
/// first 32 otherwise (all of them when it has fewer).
pub open spec fn adapter_window(c: Circuit, tail: bool) -> Seq<usize> {
    let s = c.neuron_indices@;
    if tail {
        s.subrange(readout_start(s.len() as int, ADAPTER_WINDOW as int), s.len() as int)
    } else if s.len() > ADAPTER_WINDOW {
        s.take(ADAPTER_WINDOW as int)
    } else {
        s
    }
}

/// The windows of all circuits of type `t`, concatenated in circuit order.
pub open spec fn adapter_indices_of(circuits: Seq<Circuit>, t: CircuitType, tail: bool) -> Seq<usize>
    decreases circuits.len(),
{
    if circuits.len() == 0 {
        Seq::empty()
    } else {
        adapter_indices_of(circuits.drop_last(), t, tail) + if circuits.last().circuit_type == t {
            adapter_window(circuits.last(), tail)
        } else {
            Seq::empty()
        }
    }
}

/// Append `src[from..to]` to `dst`.
fn append_slice(dst: &mut Vec<usize>, src: &Vec<usize>, from: usize, to: usize)
    requires
        from <= to <= src@.len(),
    ensures
        final(dst)@ == old(dst)@ + src@.subrange(from as int, to as int),
{
    let mut k: usize = from;
    while k < to
        invariant
            from <= k <= to <= src@.len(),
            dst@ == old(dst)@ + src@.subrange(from as int, k as int),
        decreases to - k,
    {
        dst.push(src[k]);
        k += 1;
        assert(dst@ =~= old(dst)@ + src@.subrange(from as int, k as int));
    }
}

proof fn lemma_adapter_step(circuits: Seq<Circuit>, ci: int, t: CircuitType, tail: bool)
    requires
        0 <= ci < circuits.len(),
    ensures
        adapter_indices_of(circuits.take(ci + 1), t, tail) == adapter_indices_of(circuits.take(ci), t, tail)
            + if circuits[ci].circuit_type == t { adapter_window(circuits[ci], tail) } else { Seq::empty() },
{
    assert(circuits.take(ci + 1).drop_last() =~= circuits.take(ci));
}

/// Create adapter input/output index lists for the default layout:
/// (formation inputs, formation outputs, well inputs, well outputs).
///
/// The formation adapter reads the last 32 neurons of each causation
/// circuit and writes the first 32 of each prediction circuit; the well
/// adapter reads the last 32 of each detection circuit and writes the first
/// 32 of each memory circuit.
pub fn default_adapter_indices(circuits: &[Circuit]) -> (r: (Vec<usize>, Vec<usize>, Vec<usize>, Vec<usize>))
    ensures
        r.0@ == adapter_indices_of(circuits@, CircuitType::Causation, true),
        r.1@ == adapter_indices_of(circuits@, CircuitType::Prediction, false),
        r.2@ == adapter_indices_of(circuits@, CircuitType::Detection, true),
        r.3@ == adapter_indices_of(circuits@, CircuitType::Memory, false),
{
    let mut formation_inputs: Vec<usize> = Vec::new();
    let mut formation_outputs: Vec<usize> = Vec::new();
    let mut well_inputs: Vec<usize> = Vec::new();
    let mut well_outputs: Vec<usize> = Vec::new();
    proof {
        assert(circuits@.take(0) =~= Seq::<Circuit>::empty());
    }
    let mut ci: usize = 0;
    while ci < circuits.len()
        invariant
            ci <= circuits@.len(),
            formation_inputs@ == adapter_indices_of(circuits@.take(ci as int), CircuitType::Causation, true),
            formation_outputs@ == adapter_indices_of(circuits@.take(ci as int), CircuitType::Prediction, false),
            well_inputs@ == adapter_indices_of(circuits@.take(ci as int), CircuitType::Detection, true),
            well_outputs@ == adapter_indices_of(circuits@.take(ci as int), CircuitType::Memory, false),
        decreases circuits@.len() - ci,
    {
        let circuit = &circuits[ci];
        let n = circuit.neuron_indices.len();
        proof {
            lemma_adapter_step(circuits@, ci as int, CircuitType::Causation, true);
            lemma_adapter_step(circuits@, ci as int, CircuitType::Prediction, false);
            lemma_adapter_step(circuits@, ci as int, CircuitType::Detection, true);
            lemma_adapter_step(circuits@, ci as int, CircuitType::Memory, false);
            assert(circuit.neuron_indices@.subrange(0, n as int) =~= circuit.neuron_indices@);
        }
        match circuit.circuit_type {
            CircuitType::Causation => {
                let start = if n > ADAPTER_WINDOW { n - ADAPTER_WINDOW } else { 0 };
                append_slice(&mut formation_inputs, &circuit.neuron_indices, start, n);
            },
            CircuitType::Prediction => {
                let end = if ADAPTER_WINDOW < n { ADAPTER_WINDOW } else { n };
                append_slice(&mut formation_outputs, &circuit.neuron_indices, 0, end);
            },
            CircuitType::Detection => {
                let start = if n > ADAPTER_WINDOW { n - ADAPTER_WINDOW } else { 0 };
                append_slice(&mut well_inputs, &circuit.neuron_indices, start, n);
            },
            CircuitType::Memory => {
                let end = if ADAPTER_WINDOW < n { ADAPTER_WINDOW } else { n };
                append_slice(&mut well_outputs, &circuit.neuron_indices, 0, end);
            },
        }
        proof {
            assert(formation_inputs@ =~= adapter_indices_of(circuits@.take(ci as int + 1), CircuitType::Causation, true));
            assert(formation_outputs@ =~= adapter_indices_of(circuits@.take(ci as int + 1), CircuitType::Prediction, false));
            assert(well_inputs@ =~= adapter_indices_of(circuits@.take(ci as int + 1), CircuitType::Detection, true));
            assert(well_outputs@ =~= adapter_indices_of(circuits@.take(ci as int + 1), CircuitType::Memory, false));
        }
        ci += 1;
    }
    proof {
        assert(circuits@.take(circuits@.len() as int) =~= circuits@);
    }
    (formation_inputs, formation_outputs, well_inputs, well_outputs)
}

/// Work out the adapter wiring of a mesh. The adapter layers themselves are
/// built with the production mesh, so the mesh is left as it is.
pub fn initialize_adapters(mesh: &mut MeshStructure)
    ensures
        final(mesh).neuron_count == old(mesh).neuron_count,
        final(mesh).membership@ == old(mesh).membership@,
        final(mesh).circuits@ == old(mesh).circuits@,
        final(mesh).overlap_zones@ == old(mesh).overlap_zones@,
        final(mesh).topology == old(mesh).topology,
        final(mesh).tick == old(mesh).tick,
        final(mesh).clamped_neurons@ == old(mesh).clamped_neurons@,
{
    let _wiring = default_adapter_indices(mesh.circuits.as_slice());
}

/// The neuron-by-neuron view of per-neuron source lists.
pub open spec fn sources_view(s: Seq<Vec<usize>>) -> Seq<Seq<usize>> {
    s.map_values(|v: Vec<usize>| v@)
}

/// The inputs that readout `r` gains a skip connection from, in order: every
/// input that is not already among its sources `existing` and is not `r`.
pub open spec fn new_skip_inputs(r: usize, inputs: Seq<usize>, existing: Seq<usize>) -> Seq<usize>
    decreases inputs.len(),
{
    if inputs.len() == 0 {
        Seq::empty()
    } else {
        let i = inputs.last();
        new_skip_inputs(r, inputs.drop_last(), existing) + if !existing.contains(i) && i != r {
            seq![i]
        } else {
            Seq::empty()
        }
    }
}

/// The edges `(readout, input)` joining `r` to each of `added`.
pub open spec fn edges_to(r: usize, added: Seq<usize>) -> Seq<(usize, usize)> {
    added.map_values(|i: usize| (r, i))
}

/// Skip edges planned for `readouts` in order, and the sources after them:
/// each readout takes the inputs it does not yet have (as of its turn).
pub open spec fn plan_readouts(
    readouts: Seq<usize>,
    inputs: Seq<usize>,
    sources: Seq<Seq<usize>>,
) -> (Seq<(usize, usize)>, Seq<Seq<usize>>)
    decreases readouts.len(),
{
    if readouts.len() == 0 {
        (Seq::empty(), sources)
    } else {
        let (p, s) = plan_readouts(readouts.drop_last(), inputs, sources);
        let r = readouts.last();
        let added = new_skip_inputs(r, inputs, s[r as int]);
        (p + edges_to(r, added), s.update(r as int, s[r as int] + added))
    }
}

/// A circuit receives skip connections when it is a detection circuit with
/// more neurons than its inputs and readouts together.
pub open spec fn skip_eligible(c: Circuit) -> bool {
    c.circuit_type == CircuitType::Detection && c.neuron_indices@.len() > INPUT_NEURONS + READOUT_NEURONS
}

/// The input neurons of a circuit: its first 14.
pub open spec fn skip_inputs(c: Circuit) -> Seq<usize> {
    c.neuron_indices@.take(INPUT_NEURONS as int)
}

/// The readout neurons of a circuit: its last 8.
pub open spec fn skip_readouts(c: Circuit) -> Seq<usize> {
    let n = c.neuron_indices@.len() as int;
    c.neuron_indices@.subrange(n - READOUT_NEURONS, n)
}

/// Skip edges planned for `circuits` in order, and the sources after them.
pub open spec fn plan_circuits(circuits: Seq<Circuit>, sources: Seq<Seq<usize>>) -> (Seq<(usize, usize)>, Seq<Seq<usize>>)
    decreases circuits.len(),
{
    if circuits.len() == 0 {
        (Seq::empty(), sources)
    } else {
        let (p, s) = plan_circuits(circuits.drop_last(), sources);
        let c = circuits.last();
        if skip_eligible(c) {
            let (p2, s2) = plan_readouts(skip_readouts(c), skip_inputs(c), s);
            (p + p2, s2)
        } else {
            (p, s)
        }
    }
}

/// Every readout of a circuit that receives skip connections is a neuron of
/// the mesh (one of `count`).
pub open spec fn readouts_in_bounds(circuits: Seq<Circuit>, count: nat) -> bool {
    forall|ci: int, k: int| 0 <= ci < circuits.len() && skip_eligible(circuits[ci]) && 0 <= k < READOUT_NEURONS
        ==> #[trigger] skip_readouts(circuits[ci])[k] < count
}

fn contains_index(s: &Vec<usize>, x: usize) -> (r: bool)
    ensures
        r == s@.contains(x),
{
    let mut k: usize = 0;
    while k < s.len()
        invariant
            k <= s@.len(),
            forall|j: int| 0 <= j < k ==> s@[j] != x,
        decreases s@.len() - k,
    {
        if s[k] == x {
            assert(s@[k as int] == x);
            return true;
        }
        k += 1;
    }
    false
}

proof fn lemma_plan_readouts_len(readouts: Seq<usize>, inputs: Seq<usize>, sources: Seq<Seq<usize>>)
    requires
        forall|k: int| 0 <= k < readouts.len() ==> #[trigger] readouts[k] < sources.len(),
    ensures
        plan_readouts(readouts, inputs, sources).1.len() == sources.len(),
    decreases readouts.len(),
{
    if readouts.len() > 0 {
        lemma_plan_readouts_len(readouts.drop_last(), inputs, sources);
        assert(readouts.last() == readouts[readouts.len() - 1]);
    }
}

proof fn lemma_plan_circuits_len(circuits: Seq<Circuit>, sources: Seq<Seq<usize>>)
    requires
        readouts_in_bounds(circuits, sources.len()),
    ensures
        plan_circuits(circuits, sources).1.len() == sources.len(),
    decreases circuits.len(),
{
    if circuits.len() > 0 {
        let d = circuits.drop_last();
        assert forall|ci: int, k: int| 0 <= ci < d.len() && skip_eligible(d[ci]) && 0 <= k < READOUT_NEURONS
            implies #[trigger] skip_readouts(d[ci])[k] < sources.len() by {
            assert(d[ci] == circuits[ci]);
        }
        lemma_plan_circuits_len(d, sources);
        let c = circuits.last();
        if skip_eligible(c) {
            let s = plan_circuits(d, sources).1;
            assert forall|k: int| 0 <= k < skip_readouts(c).len() implies #[trigger] skip_readouts(c)[k] < s.len() by {
                assert(circuits[circuits.len() - 1] == c);
            }
            lemma_plan_readouts_len(skip_readouts(c), skip_inputs(c), s);
        }
    }
}

/// The skip connections to add, in order, as (readout, input) pairs.
///
/// For each detection circuit with more than 22 neurons, each of its last 8
/// (readout) neurons gains a direct connection from each of its first 14
/// (input) neurons that is not already among the readout's sources and is
/// not the readout itself. `sources[i]` lists the current sources of neuron
/// `i`; edges planned for a readout count as its sources for later turns.
pub fn skip_connection_plan(circuits: &[Circuit], sources: Vec<Vec<usize>>) -> (r: Vec<(usize, usize)>)
    requires
        readouts_in_bounds(circuits@, sources@.len()),
    ensures
        r@ == plan_circuits(circuits@, sources_view(sources@)).0,
{
    let ghost init = sources_view(sources@);
    let mut sources = sources;
    let mut plan: Vec<(usize, usize)> = Vec::new();
    proof {
        assert(circuits@.take(0) =~= Seq::<Circuit>::empty());
    }
    let mut ci: usize = 0;
    while ci < circuits.len()
        invariant
            ci <= circuits@.len(),
            readouts_in_bounds(circuits@, init.len()),
            sources@.len() == init.len(),
            (plan@, sources_view(sources@)) == plan_circuits(circuits@.take(ci as int), init),
        decreases circuits@.len() - ci,
    {
        let circuit = &circuits[ci];
        let n = circuit.neuron_indices.len();
        proof {
            assert(circuits@.take(ci as int + 1).drop_last() =~= circuits@.take(ci as int));
            assert(circuits@.take(ci as int + 1).last() == circuits@[ci as int]);
        }
        if circuit.circuit_type == CircuitType::Detection && n > INPUT_NEURONS + READOUT_NEURONS {
            let ghost p0 = plan@;
            let ghost s0 = sources_view(sources@);
            let ghost readouts = skip_readouts(*circuit);
            let ghost inputs = skip_inputs(*circuit);
            let start = n - READOUT_NEURONS;
            let mut q: usize = start;
            proof {
                assert(readouts.take(0) =~= Seq::<usize>::empty());
                assert(p0 + Seq::<(usize, usize)>::empty() =~= p0);
            }
            while q < n
                invariant
                    start <= q <= n,
                    n == circuit.neuron_indices@.len(),
                    start == n - READOUT_NEURONS,
                    ci < circuits@.len(),
                    *circuit == circuits@[ci as int],
                    skip_eligible(*circuit),
                    readouts == skip_readouts(*circuit),
                    inputs == skip_inputs(*circuit),
                    readouts_in_bounds(circuits@, init.len()),
                    sources@.len() == init.len(),
                    s0.len() == init.len(),
                    plan@ == p0 + plan_readouts(readouts.take(q - start), inputs, s0).0,
                    sources_view(sources@) == plan_readouts(readouts.take(q - start), inputs, s0).1,
                decreases n - q,
            {
                let r = circuit.neuron_indices[q];
                proof {
                    assert(readouts[q - start] == r);
                    assert(r < init.len());
                    assert(readouts.take(q - start + 1).drop_last() =~= readouts.take(q - start));
                    assert(readouts.take(q - start + 1).last() == r);
                }
                let mut added: Vec<usize> = Vec::new();
                let mut k: usize = 0;
                proof {
                    assert(inputs.take(0) =~= Seq::<usize>::empty());
                }
                while k < INPUT_NEURONS
                    invariant
                        k <= INPUT_NEURONS,
                        INPUT_NEURONS < n,
                        n == circuit.neuron_indices@.len(),
                        inputs == skip_inputs(*circuit),
                        r < sources@.len(),
                        added@ == new_skip_inputs(r, inputs.take(k as int), sources_view(sources@)[r as int]),
                    decreases INPUT_NEURONS - k,
                {
                    let i = circuit.neuron_indices[k];
                    proof {
                        assert(inputs.take(k as int + 1).drop_last() =~= inputs.take(k as int));
                        assert(inputs.take(k as int + 1).last() == i);
                    }
                    if !contains_index(&sources[r], i) && i != r {
                        added.push(i);
                    }
                    proof {
                        assert(added@ =~= new_skip_inputs(r, inputs.take(k as int + 1), sources_view(sources@)[r as int]));
                    }
                    k += 1;
                }
                proof {
                    assert(inputs.take(INPUT_NEURONS as int) =~= inputs);
                }
                let ghost before_plan = plan@;
                let ghost before_src = sources_view(sources@);
                let mut a: usize = 0;
                proof {
                    assert(added@.take(0) =~= Seq::<usize>::empty());
                }
                while a < added.len()
                    invariant
                        a <= added@.len(),
                        r < sources@.len(),
                        sources@.len() == before_src.len(),
                        plan@ == before_plan + edges_to(r, added@.take(a as int)),
                        sources_view(sources@) == before_src.update(r as int, before_src[r as int] + added@.take(a as int)),
                    decreases added@.len() - a,
                {
                    let i = added[a];
                    let ghost pre = sources@;
                    sources[r].push(i);
                    plan.push((r, i));
                    proof {
                        assert(sources@.len() == pre.len());
                        assert(sources@[r as int]@ == pre[r as int]@.push(i));
                        assert(forall|j: int| 0 <= j < pre.len() && j != r ==> sources@[j] == pre[j]);
                        assert(sources_view(sources@) =~= sources_view(pre).update(r as int, sources_view(pre)[r as int].push(i)));
                        assert(added@.take(a as int + 1) =~= added@.take(a as int).push(i));
                        assert(plan@ =~= before_plan + edges_to(r, added@.take(a as int + 1)));
                        assert(sources_view(sources@) =~= before_src.update(r as int, before_src[r as int] + added@.take(a as int + 1)));
                    }
                    a += 1;
                }
                proof {
                    assert(added@.take(added@.len() as int) =~= added@);
                    lemma_readouts_bound(circuits@, ci as int, init.len());
                    lemma_plan_readouts_len(readouts.take(q - start), inputs, s0);
                    assert(plan@ =~= p0 + plan_readouts(readouts.take(q - start + 1), inputs, s0).0);
                }
                q += 1;
            }
            proof {
                assert(readouts.take(q - start) =~= readouts);
            }
        }
        ci += 1;
    }
    proof {
        assert(circuits@.take(circuits@.len() as int) =~= circuits@);
    }
    plan
}

proof fn lemma_readouts_bound(circuits: Seq<Circuit>, ci: int, count: nat)
    requires
        0 <= ci < circuits.len(),
        readouts_in_bounds(circuits, count),
        skip_eligible(circuits[ci]),
    ensures
        forall|k: int| 0 <= k < READOUT_NEURONS ==> #[trigger] skip_readouts(circuits[ci])[k] < count,
{
}

} // verus!
