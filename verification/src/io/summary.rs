//! Sustained anomaly windows: runs of consecutive samples with detections.

use vstd::prelude::*;

verus! {

/// The number of consecutive set flags that end just before position `n`.
pub open spec fn run_length_before(flags: Seq<bool>, n: int) -> nat
    decreases n,
{
    if n <= 0 || n > flags.len() || !flags[n - 1] { 0 } else { run_length_before(flags, n - 1) + 1 }
}

/// Whether a run of `c` set flags is long enough to be reported.
pub open spec fn reported(c: nat, min_len: nat) -> bool {
    c > 0 && c >= min_len
}

/// The window (first index, last index, length) of a run of `c` set flags
/// that ends just before position `n`.
pub open spec fn window_before(n: int, c: nat) -> (usize, usize, usize) {
    ((n - c) as usize, (n - 1) as usize, c as usize)
}

/// The reported windows of the runs that a clear flag closed within `flags[..n]`.
pub open spec fn closed_windows(flags: Seq<bool>, n: int, min_len: nat) -> Seq<(usize, usize, usize)>
    decreases n,
{
    if n <= 0 || n > flags.len() {
        Seq::empty()
    } else {
        let w = closed_windows(flags, n - 1, min_len);
        let c = run_length_before(flags, n - 1);
        if !flags[n - 1] && reported(c, min_len) { w.push(window_before(n - 1, c)) } else { w }
    }
}

/// Every maximal run of at least `min_len` (and at least one) set flags, in
/// order, as (first index, last index, length).
pub open spec fn sustained_windows_of(flags: Seq<bool>, min_len: nat) -> Seq<(usize, usize, usize)> {
    let n = flags.len() as int;
    let c = run_length_before(flags, n);
    if reported(c, min_len) {
        closed_windows(flags, n, min_len).push(window_before(n, c))
    } else {
        closed_windows(flags, n, min_len)
    }
}

proof fn lemma_run_length_bounded(flags: Seq<bool>, n: int)
    ensures
        run_length_before(flags, n) <= if n < 0 { 0 } else { n },
        0 < n <= flags.len() && flags[n - 1] ==> run_length_before(flags, n) == run_length_before(flags, n - 1) + 1,
    decreases n,
{
    if n > 0 {
        lemma_run_length_bounded(flags, n - 1);
    }
}

/// Positions `s..=e` hold a maximal run of set flags: all set, with no set
/// flag just before or just after.
pub open spec fn is_maximal_run(flags: Seq<bool>, s: int, e: int) -> bool {
    &&& 0 <= s <= e < flags.len()
    &&& forall|j: int| s <= j <= e ==> #[trigger] flags[j]
    &&& s > 0 ==> !flags[s - 1]
    &&& e + 1 < flags.len() ==> !flags[e + 1]
}

proof fn lemma_run_shape(flags: Seq<bool>, n: int)
    requires
        0 <= n <= flags.len(),
    ensures
        run_length_before(flags, n) <= n,
        forall|j: int| n - run_length_before(flags, n) <= j < n ==> #[trigger] flags[j],
        n - run_length_before(flags, n) > 0 ==> !flags[n - run_length_before(flags, n) - 1],
    decreases n,
{
    if n > 0 {
        lemma_run_shape(flags, n - 1);
    }
}

proof fn lemma_closed_windows_sound(flags: Seq<bool>, n: int, min_len: nat, k: int)
    requires
        0 <= n <= flags.len(),
        flags.len() <= usize::MAX,
        0 <= k < closed_windows(flags, n, min_len).len(),
    ensures
        ({
            let w = closed_windows(flags, n, min_len)[k];
            &&& is_maximal_run(flags, w.0 as int, w.1 as int)
            &&& w.2 == w.1 - w.0 + 1
            &&& reported(w.2 as nat, min_len)
            &&& w.1 + 1 < n
        }),
    decreases n,
{
    if n > 0 {
        let w = closed_windows(flags, n - 1, min_len);
        let c = run_length_before(flags, n - 1);
        lemma_run_shape(flags, n - 1);
        if k < w.len() {
            lemma_closed_windows_sound(flags, n - 1, min_len, k);
        } else {
            let x = window_before(n - 1, c);
            assert(closed_windows(flags, n, min_len)[k] == x);
            assert forall|j: int| x.0 as int <= j <= x.1 as int implies #[trigger] flags[j] by {
                assert(n - 1 - c <= j < n - 1);
            }
        }
    }
}

/// Every window reported by `sustained_windows` is a maximal run of
/// set flags, as long as it says and at least `min_len` (and one) long.
pub proof fn law_sustained_windows_are_maximal_runs(flags: Seq<bool>, min_len: nat, k: int)
    requires
        flags.len() <= usize::MAX,
        0 <= k < sustained_windows_of(flags, min_len).len(),
    ensures
        ({
            let w = sustained_windows_of(flags, min_len)[k];
            &&& is_maximal_run(flags, w.0 as int, w.1 as int)
            &&& w.2 == w.1 - w.0 + 1
            &&& w.2 >= min_len
            &&& w.2 > 0
        }),
{
    let n = flags.len() as int;
    let cw = closed_windows(flags, n, min_len);
    lemma_run_shape(flags, n);
    if k < cw.len() {
        lemma_closed_windows_sound(flags, n, min_len, k);
        assert(sustained_windows_of(flags, min_len)[k] == cw[k]);
    } else {
        let c = run_length_before(flags, n);
        let x = window_before(n, c);
        assert(sustained_windows_of(flags, min_len)[k] == x);
        assert forall|j: int| x.0 as int <= j <= x.1 as int implies #[trigger] flags[j] by {
            assert(n - c <= j < n);
        }
    }
}

proof fn lemma_run_length_exact(flags: Seq<bool>, s: int, e: int)
    requires
        0 <= s <= e < flags.len(),
        forall|j: int| s <= j <= e ==> #[trigger] flags[j],
        s > 0 ==> !flags[s - 1],
    ensures
        run_length_before(flags, e + 1) == e - s + 1,
    decreases e - s,
{
    assert(flags[e]);
    if e > s {
        lemma_run_length_exact(flags, s, e - 1);
    } else {
        assert(run_length_before(flags, s) == 0);
    }
}

proof fn lemma_closed_prefix(flags: Seq<bool>, a: int, b: int, min_len: nat)
    requires
        0 <= a <= b <= flags.len(),
    ensures
        closed_windows(flags, a, min_len).len() <= closed_windows(flags, b, min_len).len(),
        forall|k: int| 0 <= k < closed_windows(flags, a, min_len).len() ==>
            #[trigger] closed_windows(flags, b, min_len)[k] == closed_windows(flags, a, min_len)[k],
    decreases b - a,
{
    if a < b {
        lemma_closed_prefix(flags, a, b - 1, min_len);
    }
}

/// Every maximal run of set flags that is at least `min_len` (and one)
/// long is reported by `sustained_windows`.
pub proof fn law_sustained_windows_report_every_long_run(flags: Seq<bool>, min_len: nat, s: int, e: int)
    requires
        flags.len() <= usize::MAX,
        is_maximal_run(flags, s, e),
        e - s + 1 >= min_len,
    ensures
        exists|k: int| 0 <= k < sustained_windows_of(flags, min_len).len()
            && #[trigger] sustained_windows_of(flags, min_len)[k] == (s as usize, e as usize, (e - s + 1) as usize),
{
    let n = flags.len() as int;
    let target = (s as usize, e as usize, (e - s + 1) as usize);
    lemma_run_length_exact(flags, s, e);
    if e + 1 < n {
        let w = closed_windows(flags, e + 1, min_len);
        assert(closed_windows(flags, e + 2, min_len) == w.push(window_before(e + 1, (e - s + 1) as nat)));
        assert(closed_windows(flags, e + 2, min_len)[w.len() as int] == target);
        lemma_closed_prefix(flags, e + 2, n, min_len);
        let k = w.len() as int;
        assert(sustained_windows_of(flags, min_len)[k] == closed_windows(flags, n, min_len)[k]);
        assert(sustained_windows_of(flags, min_len)[k] == target);
    } else {
        let k = closed_windows(flags, n, min_len).len() as int;
        assert(sustained_windows_of(flags, min_len)[k] == target);
    }
}

/// The runs of consecutive set flags that last at least `min_len` samples
/// (and at least one), in order, each as (first index, last index, length).
/// A run still open at the end of `flags` counts too.
pub fn sustained_windows(flags: &[bool], min_len: usize) -> (r: Vec<(usize, usize, usize)>)
    ensures
        r@ == sustained_windows_of(flags@, min_len as nat),
{
    let mut r: Vec<(usize, usize, usize)> = Vec::new();
    let mut count: usize = 0;
    let mut i: usize = 0;
    while i < flags.len()
        invariant
            i <= flags@.len(),
            count == run_length_before(flags@, i as int),
            count <= i,
            r@ == closed_windows(flags@, i as int, min_len as nat),
        decreases flags@.len() - i,
    {
        proof {
            lemma_run_length_bounded(flags@, i as int + 1);
        }
        if flags[i] {
            count += 1;
        } else {
            if count > 0 && count >= min_len {
                r.push((i - count, i - 1, count));
            }
            count = 0;
        }
        i += 1;
    }
    if count > 0 && count >= min_len {
        r.push((flags.len() - count, flags.len() - 1, count));
    }
    r
}

} // verus!
