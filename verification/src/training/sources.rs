//! Which neurons feed a neuron when its connections are initialised.
//!
//! A neuron takes up to `n_local` sources from its own circuit, then up to
//! `n_global` from outside it, drawing at most three times as often as it
//! needs in each phase. A source is taken only if it is not the neuron
//! itself and not already taken; a global source must also lie outside the
//! circuit. A neuron that already has connections is left as it is. The
//! draws and the weights are random and numeric; this module decides which
//! draws to make and which sources to keep.

use vstd::prelude::*;
use crate::circuit::Circuit;

verus! {

/// The source choice in progress for one neuron.
pub struct SourcePick {
    /// The neuron being wired.
    pub neuron: usize,
    /// The neuron had connections already, so it takes none.
    pub already_wired: bool,
    /// Sources taken so far, in the order they were taken.
    pub chosen: Vec<usize>,
    /// Parallel to `chosen`: whether each source was taken as a global one.
    pub chosen_global: Vec<bool>,
    /// Draws made in the local phase.
    pub local_attempts: usize,
    /// Draws made in the global phase.
    pub global_attempts: usize,
    /// Local sources taken.
    pub local_added: usize,
    /// Global sources taken.
    pub global_added: usize,
}

/// How many entries of `s` equal `f`.
pub open spec fn count_flag(s: Seq<bool>, f: bool) -> nat
    decreases s.len(),
{
    if s.len() == 0 {
        0
    } else {
        count_flag(s.drop_last(), f) + if s.last() == f { 1nat } else { 0nat }
    }
}

/// The sources of a pick are valid for `circuit`: pairwise distinct, never
/// the neuron itself, each local one inside the circuit and each global one
/// outside it, and the counts of local and global sources match.
pub open spec fn pick_wf(p: SourcePick, circuit: Circuit) -> bool {
    &&& p.chosen@.len() == p.chosen_global@.len()
    &&& forall|a: int, b: int| 0 <= a < b < p.chosen@.len() ==> p.chosen@[a] != p.chosen@[b]
    &&& forall|k: int| 0 <= k < p.chosen@.len() ==> #[trigger] p.chosen@[k] != p.neuron
    &&& forall|k: int| 0 <= k < p.chosen@.len() ==>
        (#[trigger] p.chosen_global@[k] <==> !circuit.neuron_indices@.contains(p.chosen@[k]))
    &&& p.local_added == count_flag(p.chosen_global@, false)
    &&& p.global_added == count_flag(p.chosen_global@, true)
}

/// What to draw next: a local source (`Some(false)`), a global one
/// (`Some(true)`), or nothing more (`None`). The local phase lasts while
/// fewer than `n_local` local sources are taken and fewer than `3 * n_local`
/// local draws were made; the global phase likewise after it.
pub open spec fn draw_decision(p: SourcePick, n_local: nat, n_global: nat) -> Option<bool> {
    if p.already_wired {
        None
    } else if p.local_attempts < 3 * n_local && p.local_added < n_local {
        Some(false)
    } else if p.global_attempts < 3 * n_global && p.global_added < n_global {
        Some(true)
    } else {
        None
    }
}

impl SourcePick {
    /// A pick for `neuron`, which already has `existing_sources` connections.
    pub fn new(neuron: usize, existing_sources: usize) -> (p: Self)
        ensures
            p.neuron == neuron,
            p.already_wired == (existing_sources > 0),
            p.chosen@.len() == 0,
            p.chosen_global@.len() == 0,
            p.local_attempts == 0,
            p.global_attempts == 0,
            p.local_added == 0,
            p.global_added == 0,
    {
        SourcePick {
            neuron,
            already_wired: existing_sources > 0,
            chosen: Vec::new(),
            chosen_global: Vec::new(),
            local_attempts: 0,
            global_attempts: 0,
            local_added: 0,
            global_added: 0,
        }
    }
}

fn contains_usize(s: &Vec<usize>, x: usize) -> (r: bool)
    ensures
        r == s@.contains(x),
{
    let mut k: usize = 0;
    while k < s.len()
        invariant
            k <= s@.len(),
            forall|j: int| 0 <= j < k ==> s@[j] != x,
        decreases s@.len() - k,
    {
        if s[k] == x {
            assert(s@[k as int] == x);
            return true;
        }
        k += 1;
    }
    false
}

proof fn lemma_count_flag_push(s: Seq<bool>, x: bool, f: bool)
    ensures
        count_flag(s.push(x), f) == count_flag(s, f) + if x == f { 1nat } else { 0nat },
{
    assert(s.push(x).drop_last() =~= s);
}

/// Whether to draw a local source, a global one, or stop, within the budget
/// of three draws per source wanted in each phase.
pub fn next_draw(pick: &SourcePick, n_local: usize, n_global: usize) -> (d: Option<bool>)
    requires
        3 * n_local <= usize::MAX,
        3 * n_global <= usize::MAX,
    ensures
        d == draw_decision(*pick, n_local as nat, n_global as nat),
{
    if pick.already_wired {
        None
    } else if pick.local_attempts < 3 * n_local && pick.local_added < n_local {
        Some(false)
    } else if pick.global_attempts < 3 * n_global && pick.global_added < n_global {
        Some(true)
    } else {
        None
    }
}

/// Count one draw of `src` in the local (`global == false`) or global phase
/// and take it as a source if it is not the neuron, not already taken, and,
/// for a global draw, outside the circuit. A local draw is one of the
/// circuit's own neurons.
pub fn admit_source(pick: &mut SourcePick, circuit: &Circuit, src: usize, global: bool) -> (accepted: bool)
    requires
        !global ==> circuit.neuron_indices@.contains(src),
        global ==> old(pick).global_attempts < usize::MAX && old(pick).global_added < usize::MAX,
        !global ==> old(pick).local_attempts < usize::MAX && old(pick).local_added < usize::MAX,
    ensures
        accepted == (src != old(pick).neuron && !old(pick).chosen@.contains(src)
            && (!global || !circuit.neuron_indices@.contains(src))),
        final(pick).chosen@ == if accepted { old(pick).chosen@.push(src) } else { old(pick).chosen@ },
        final(pick).chosen_global@ == if accepted {
            old(pick).chosen_global@.push(global)
        } else {
            old(pick).chosen_global@
        },
        final(pick).neuron == old(pick).neuron,
        final(pick).already_wired == old(pick).already_wired,
        final(pick).local_attempts == old(pick).local_attempts + if global { 0int } else { 1int },
        final(pick).global_attempts == old(pick).global_attempts + if global { 1int } else { 0int },
        final(pick).local_added == old(pick).local_added + if accepted && !global { 1int } else { 0int },
        final(pick).global_added == old(pick).global_added + if accepted && global { 1int } else { 0int },
        pick_wf(*old(pick), *circuit) ==> pick_wf(*final(pick), *circuit),
{
    let accepted = src != pick.neuron && !contains_usize(&pick.chosen, src)
        && (!global || !contains_usize(&circuit.neuron_indices, src));
    let ghost before = *pick;
    if global {
        pick.global_attempts = pick.global_attempts + 1;
    } else {
        pick.local_attempts = pick.local_attempts + 1;
    }
    if accepted {
        pick.chosen.push(src);
        pick.chosen_global.push(global);
        if global {
            pick.global_added = pick.global_added + 1;
        } else {
            pick.local_added = pick.local_added + 1;
        }
        proof {
            lemma_count_flag_push(before.chosen_global@, global, true);
            lemma_count_flag_push(before.chosen_global@, global, false);
            if pick_wf(before, *circuit) {
                let c = pick.chosen@;
                let last = c.len() - 1;
                assert forall|a: int, b: int| 0 <= a < b < c.len() implies c[a] != c[b] by {
                    if b == last {
                        assert(before.chosen@[a] == c[a]);
                    } else {
                        assert(before.chosen@[a] == c[a] && before.chosen@[b] == c[b]);
                    }
                }
                assert forall|k: int| 0 <= k < c.len() implies #[trigger] c[k] != pick.neuron by {
                    if k < last {
                        assert(before.chosen@[k] == c[k]);
                    }
                }
                assert forall|k: int| 0 <= k < c.len() implies
                    (#[trigger] pick.chosen_global@[k] <==> !circuit.neuron_indices@.contains(c[k])) by {
                    if k < last {
                        assert(before.chosen@[k] == c[k]);
                        assert(before.chosen_global@[k] == pick.chosen_global@[k]);
                    }
                }
            }
        }
    }
    accepted
}

/// The sources a neuron is given are pairwise distinct, never the neuron
/// itself, local ones inside its circuit and global ones outside it: this
/// holds of a fresh pick (nothing chosen, nothing counted), `admit_source`
/// keeps it, and so every pick built by them satisfies it.
pub proof fn law_picked_sources_are_valid(circuit: Circuit, p: SourcePick, a: int, b: int)
    ensures
        p.chosen@.len() == 0 && p.chosen_global@.len() == 0 && p.local_added == 0 && p.global_added == 0
            ==> pick_wf(p, circuit),
        pick_wf(p, circuit) && 0 <= a < b < p.chosen@.len() ==> p.chosen@[a] != p.chosen@[b],
        pick_wf(p, circuit) && 0 <= a < p.chosen@.len() ==> p.chosen@[a] != p.neuron,
        pick_wf(p, circuit) && 0 <= a < p.chosen@.len() && !p.chosen_global@[a]
            ==> circuit.neuron_indices@.contains(p.chosen@[a]),
        pick_wf(p, circuit) && 0 <= a < p.chosen@.len() && p.chosen_global@[a]
            ==> !circuit.neuron_indices@.contains(p.chosen@[a]),
{
}

/// Over-sampling within budget: a neuron not yet wired keeps drawing local
/// sources until it has `n_local` of them or has drawn `3 * n_local` times,
/// then global ones until it has `n_global` or has drawn `3 * n_global`
/// times. It stops only when it was wired already or both phases are spent,
/// and it never draws past three draws per source wanted in a phase.
pub proof fn law_draws_use_three_per_wanted_source(p: SourcePick, n_local: nat, n_global: nat)
    ensures
        !p.already_wired && p.local_added < n_local && p.local_attempts < 3 * n_local
            ==> draw_decision(p, n_local, n_global) == Some(false),
        !p.already_wired && (p.local_added >= n_local || p.local_attempts >= 3 * n_local)
            && p.global_added < n_global && p.global_attempts < 3 * n_global
            ==> draw_decision(p, n_local, n_global) == Some(true),
        draw_decision(p, n_local, n_global) is None ==> p.already_wired || (
            (p.local_added >= n_local || p.local_attempts >= 3 * n_local)
            && (p.global_added >= n_global || p.global_attempts >= 3 * n_global)),
        draw_decision(p, n_local, n_global) == Some(false) ==> p.local_attempts < 3 * n_local && p.local_added < n_local,
        draw_decision(p, n_local, n_global) == Some(true) ==> p.global_attempts < 3 * n_global && p.global_added < n_global,
{
}

/// A neuron wired with no global sources wanted (as every detection neuron
/// is) draws only from its own circuit, and a neuron that already had
/// connections draws nothing.
pub proof fn law_local_only_wiring_stays_in_circuit(p: SourcePick, n_local: nat)
    ensures
        draw_decision(p, n_local, 0) != Some(true),
        p.already_wired ==> draw_decision(p, n_local, 0) is None,
{
}

} // verus!
