use vstd::prelude::*;
use crate::json::JsonValue;
use crate::render::{decimal, push_decimal};
use crate::text::{push_str, string_of};

verus! {

/// Measurements of one invocation.
pub struct InvocationMetrics {
    /// Wall-clock duration in milliseconds.
    pub duration_ms: u128,
    /// Peak resident memory in kilobytes, when at least one sample was taken.
    pub max_rss_kb: Option<u64>,
}

/// The result of one invocation: its output, measurements and failures.
pub struct RunOutcome {
    pub run_index: u64,
    pub ok: bool,
    pub output: JsonValue,
    pub metrics: InvocationMetrics,
    pub failures: Vec<String>,
    /// False when the output did not match the stored snapshot.
    pub snapshot_ok: bool,
}

impl RunOutcome {
    /// An outcome is ok exactly when no check failed.
    pub fn new(run_index: u64, output: JsonValue, metrics: InvocationMetrics, failures: Vec<String>) -> (r: RunOutcome)
        ensures
            r.run_index == run_index,
            r.ok == (failures@.len() == 0),
            r.output == output,
            r.metrics == metrics,
            r.failures == failures,
            r.snapshot_ok,
    {
        let ok = failures.len() == 0;
        RunOutcome { run_index, ok, output, metrics, failures, snapshot_ok: true }
    }
}

/// Aggregate over all runs of one fixture.
pub struct RunSummary {
    pub ok: bool,
    pub runs: u64,
    pub min_duration_ms: u128,
    pub avg_duration_ms: u128,
    pub max_duration_ms: u128,
    pub max_memory_kb: Option<u64>,
    pub flaky: bool,
    /// Runs whose output differs from the first run's.
    pub drift_runs: Vec<u64>,
    /// Runs that failed while another run passed.
    pub failing_runs: Vec<u64>,
    pub failures: Vec<String>,
    /// Every run matched its snapshot.
    pub snapshots_ok: bool,
}

pub open spec fn all_ok(outs: Seq<RunOutcome>) -> bool {
    forall|i: int| 0 <= i < outs.len() ==> (#[trigger] outs[i]).ok
}

pub open spec fn all_snapshots_ok(outs: Seq<RunOutcome>) -> bool {
    forall|i: int| 0 <= i < outs.len() ==> (#[trigger] outs[i]).snapshot_ok
}

pub open spec fn any_ok(outs: Seq<RunOutcome>) -> bool {
    exists|i: int| 0 <= i < outs.len() && (#[trigger] outs[i]).ok
}

/// Indices of the runs among the first `n` whose output is not structurally equal to run one's.
pub open spec fn drift(outs: Seq<RunOutcome>, n: int) -> Seq<u64>
    decreases n,
{
    if n <= 1 || n > outs.len() {
        Seq::empty()
    } else if outs[n - 1].output@.equiv(outs[0].output@) {
        drift(outs, n - 1)
    } else {
        drift(outs, n - 1).push(outs[n - 1].run_index)
    }
}

/// Indices of the failing runs among the first `n`.
pub open spec fn failing(outs: Seq<RunOutcome>, n: int) -> Seq<u64>
    decreases n,
{
    if n <= 0 || n > outs.len() {
        Seq::empty()
    } else if outs[n - 1].ok {
        failing(outs, n - 1)
    } else {
        failing(outs, n - 1).push(outs[n - 1].run_index)
    }
}

/// All failure texts of the first `n` runs, in order.
pub open spec fn all_failure_texts(outs: Seq<RunOutcome>, n: int) -> Seq<Seq<char>>
    decreases n,
{
    if n <= 0 || n > outs.len() {
        Seq::empty()
    } else {
        all_failure_texts(outs, n - 1) + outs[n - 1].failures@.map_values(|s: String| s@)
    }
}

pub open spec fn sum_duration(outs: Seq<RunOutcome>, n: int) -> nat
    decreases n,
{
    if n <= 0 || n > outs.len() {
        0
    } else {
        sum_duration(outs, n - 1) + outs[n - 1].metrics.duration_ms as nat
    }
}

pub open spec fn max_memory(outs: Seq<RunOutcome>, n: int) -> Option<u64>
    decreases n,
{
    if n <= 0 || n > outs.len() {
        None
    } else {
        let before = max_memory(outs, n - 1);
        match outs[n - 1].metrics.max_rss_kb {
            None => before,
            Some(m) => match before {
                None => Some(m),
                Some(b) => if m > b {
                    Some(m)
                } else {
                    Some(b)
                },
            },
        }
    }
}

/// A sequence of runs is flaky when there is more than one and either some output drifted from
/// the first or the verdicts are mixed.
pub open spec fn is_flaky(outs: Seq<RunOutcome>) -> bool {
    outs.len() > 1 && (drift(outs, outs.len() as int).len() > 0 || (any_ok(outs) && !all_ok(outs)))
}

proof fn lemma_sum_bound(outs: Seq<RunOutcome>, n: int, hi: nat)
    requires
        0 <= n <= outs.len(),
        forall|i: int| 0 <= i < n ==> (#[trigger] outs[i]).metrics.duration_ms <= hi,
    ensures
        sum_duration(outs, n) <= n * hi,
    decreases n,
{
    if n > 0 {
        lemma_sum_bound(outs, n - 1, hi);
        assert((n - 1) * hi + hi == n * hi) by (nonlinear_arith);
    }
}

proof fn lemma_drift_empty(outs: Seq<RunOutcome>, n: int)
    requires
        forall|i: int| 0 <= i < outs.len() ==> (#[trigger] outs[i]).output@.equiv(outs[0].output@),
    ensures
        drift(outs, n).len() == 0,
    decreases n,
{
    if n > 1 && n <= outs.len() {
        lemma_drift_empty(outs, n - 1);
    }
}

proof fn lemma_drift_lists(outs: Seq<RunOutcome>, n: int, i: int)
    requires
        1 <= i < n <= outs.len(),
        !outs[i].output@.equiv(outs[0].output@),
    ensures
        drift(outs, n).contains(outs[i].run_index),
    decreases n,
{
    if i == n - 1 {
        assert(drift(outs, n).last() == outs[i].run_index);
    } else {
        lemma_drift_lists(outs, n - 1, i);
        let d = drift(outs, n - 1);
        let k = choose|k: int| 0 <= k < d.len() && d[k] == outs[i].run_index;
        if !outs[n - 1].output@.equiv(outs[0].output@) {
            assert(drift(outs, n)[k] == d[k]);
        }
    }
}

proof fn lemma_failing_lists(outs: Seq<RunOutcome>, n: int, j: int)
    requires
        0 <= j < n <= outs.len(),
        !outs[j].ok,
    ensures
        failing(outs, n).contains(outs[j].run_index),
    decreases n,
{
    if j == n - 1 {
        assert(failing(outs, n).last() == outs[j].run_index);
    } else {
        lemma_failing_lists(outs, n - 1, j);
        let d = failing(outs, n - 1);
        let k = choose|k: int| 0 <= k < d.len() && d[k] == outs[j].run_index;
        if !outs[n - 1].ok {
            assert(failing(outs, n)[k] == d[k]);
        }
    }
}

/// Repeated runs that all pass with outputs structurally equal to the first are not flaky.
pub proof fn lemma_stable_runs_not_flaky(outs: Seq<RunOutcome>)
    requires
        all_ok(outs),
        forall|i: int| 0 <= i < outs.len() ==> (#[trigger] outs[i]).output@.equiv(outs[0].output@),
    ensures
        !is_flaky(outs),
{
    lemma_drift_empty(outs, outs.len() as int);
}

/// Runs that all fail, with outputs structurally equal to the first, are not flaky either.
pub proof fn lemma_identical_failures_not_flaky(outs: Seq<RunOutcome>)
    requires
        forall|i: int| 0 <= i < outs.len() ==> !(#[trigger] outs[i]).ok,
        forall|i: int| 0 <= i < outs.len() ==> (#[trigger] outs[i]).output@.equiv(outs[0].output@),
    ensures
        !is_flaky(outs),
{
    lemma_drift_empty(outs, outs.len() as int);
}

/// A run whose output differs from the first run's makes the sequence flaky, and it is listed
/// among the drifted runs.
pub proof fn lemma_output_drift_flaky(outs: Seq<RunOutcome>, i: int)
    requires
        1 <= i < outs.len(),
        !outs[i].output@.equiv(outs[0].output@),
    ensures
        is_flaky(outs),
        drift(outs, outs.len() as int).contains(outs[i].run_index),
{
    lemma_drift_lists(outs, outs.len() as int, i);
}

/// One passing and one failing run make the sequence flaky, whatever the outputs, and the failing
/// run is listed.
pub proof fn lemma_mixed_verdicts_flaky(outs: Seq<RunOutcome>, i: int, j: int)
    requires
        0 <= i < outs.len(),
        0 <= j < outs.len(),
        outs[i].ok,
        !outs[j].ok,
    ensures
        is_flaky(outs),
        failing(outs, outs.len() as int).contains(outs[j].run_index),
{
    assert(any_ok(outs));
    assert(!all_ok(outs));
    lemma_failing_lists(outs, outs.len() as int, j);
}

/// Folds the runs of one fixture into a summary, detecting flakiness.
pub fn aggregate(outcomes: &Vec<RunOutcome>) -> (r: RunSummary)
    requires
        outcomes@.len() >= 1,
        outcomes@[0].output.wf(),
    ensures
        r.ok == all_ok(outcomes@),
        r.snapshots_ok == all_snapshots_ok(outcomes@),
        r.runs == outcomes@.len(),
        r.flaky == is_flaky(outcomes@),
        r.drift_runs@ == drift(outcomes@, outcomes@.len() as int),
        r.failing_runs@ == (if any_ok(outcomes@) && !all_ok(outcomes@) {
            failing(outcomes@, outcomes@.len() as int)
        } else {
            Seq::empty()
        }),
        forall|i: int| 0 <= i < outcomes@.len() ==> r.min_duration_ms <= (#[trigger] outcomes@[i]).metrics.duration_ms
            <= r.max_duration_ms,
        exists|i: int| 0 <= i < outcomes@.len() && (#[trigger] outcomes@[i]).metrics.duration_ms == r.min_duration_ms,
        exists|i: int| 0 <= i < outcomes@.len() && (#[trigger] outcomes@[i]).metrics.duration_ms == r.max_duration_ms,
        r.avg_duration_ms == sum_duration(outcomes@, outcomes@.len() as int) / (outcomes@.len() as nat),
        r.max_memory_kb == max_memory(outcomes@, outcomes@.len() as int),
        r.failures@.map_values(|s: String| s@) == all_failure_texts(outcomes@, outcomes@.len() as int),
{
    let n = outcomes.len();
    let ghost outs = outcomes@;
    let mut ok = true;
    let mut snaps = true;
    let mut seen_ok = false;
    let mut drift_runs: Vec<u64> = Vec::new();
    let mut failing_runs: Vec<u64> = Vec::new();
    let mut failures: Vec<String> = Vec::new();
    let mut min_d: u128 = outcomes[0].metrics.duration_ms;
    let mut max_d: u128 = outcomes[0].metrics.duration_ms;
    let mut q: u128 = 0;
    let mut rem: u128 = 0;
    let mut max_mem: Option<u64> = None;
    let mut i: usize = 0;
    while i < n
        invariant
            n == outs.len(),
            outs == outcomes@,
            n >= 1,
            outs[0].output.wf(),
            i <= n,
            ok == (forall|k: int| 0 <= k < i ==> (#[trigger] outs[k]).ok),
            snaps == (forall|k: int| 0 <= k < i ==> (#[trigger] outs[k]).snapshot_ok),
            seen_ok == (exists|k: int| 0 <= k < i && (#[trigger] outs[k]).ok),
            drift_runs@ == drift(outs, i as int),
            failing_runs@ == failing(outs, i as int),
            failures@.map_values(|s: String| s@) == all_failure_texts(outs, i as int),
            forall|k: int| 0 <= k < i ==> min_d <= (#[trigger] outs[k]).metrics.duration_ms <= max_d,
            exists|k: int| 0 <= k < n && (i == 0 ==> k == 0) && (i > 0 ==> k < i) && (#[trigger] outs[k]).metrics.duration_ms == min_d,
            exists|k: int| 0 <= k < n && (i == 0 ==> k == 0) && (i > 0 ==> k < i) && (#[trigger] outs[k]).metrics.duration_ms == max_d,
            sum_duration(outs, i as int) == q * n + rem,
            rem < n,
            q <= max_d,
            max_mem == max_memory(outs, i as int),
        decreases n - i,
    {
        let o = &outcomes[i];
        let d = o.metrics.duration_ms;
        snaps = snaps && o.snapshot_ok;
        if !o.ok {
            ok = false;
            failing_runs.push(o.run_index);
        } else {
            seen_ok = true;
        }
        if i > 0 && !o.output.equiv(&outcomes[0].output) {
            drift_runs.push(o.run_index);
        }
        let ghost before = failures@;
        let mut j: usize = 0;
        while j < o.failures.len()
            invariant
                j <= o.failures.len(),
                failures@.len() == before.len() + j,
                forall|k: int| 0 <= k < before.len() ==> (#[trigger] failures@[k]) == before[k],
                forall|k: int| 0 <= k < j ==> (#[trigger] failures@[before.len() + k])@ == o.failures@[k]@,
            decreases o.failures.len() - j,
        {
            let c = o.failures[j].clone();
            failures.push(c);
            j = j + 1;
        }
        proof {
            let fm = failures@.map_values(|s: String| s@);
            let rhs = before.map_values(|s: String| s@) + o.failures@.map_values(|s: String| s@);
            assert forall|k: int| 0 <= k < fm.len() implies #[trigger] fm[k] == rhs[k] by {
                if k >= before.len() {
                    assert(failures@[before.len() + (k - before.len())]@ == o.failures@[k - before.len()]@);
                }
            }
            assert(fm =~= rhs);
        }
        if d < min_d {
            min_d = d;
        }
        if d > max_d {
            max_d = d;
        }
        // Running average as quotient and remainder of the sum by `n`, which never overflows.
        let nn = n as u128;
        let dq = d / nn;
        let dr = d % nn;
        proof {
            assert(dq * nn + dr == d) by (nonlinear_arith)
                requires
                    dq == d / nn,
                    dr == d % nn,
                    nn > 0,
            ;
            assert(sum_duration(outs, i + 1) == sum_duration(outs, i as int) + d);
            lemma_sum_bound(outs, i + 1, max_d as nat);
            assert((q + dq) * nn + rem + dr == sum_duration(outs, i + 1)) by (nonlinear_arith)
                requires
                    sum_duration(outs, i as int) == q * nn + rem,
                    dq * nn + dr == d,
                    sum_duration(outs, i + 1) == sum_duration(outs, i as int) + d,
            ;
            assert((i + 1) * max_d <= nn * max_d) by (nonlinear_arith)
                requires
                    i + 1 <= nn,
            ;
            assert(q + dq <= max_d) by (nonlinear_arith)
                requires
                    (q + dq) * nn + rem + dr == sum_duration(outs, i + 1),
                    sum_duration(outs, i + 1) <= (i + 1) * max_d,
                    (i + 1) * max_d <= nn * max_d,
                    nn > 0,
            ;
        }
        q = q + dq;
        rem = rem + dr;
        if rem >= nn {
            proof {
                assert((q + 1) * nn + (rem - nn) == q * nn + rem) by (nonlinear_arith);
                assert(q + 1 <= max_d) by (nonlinear_arith)
                    requires
                        (q + 1) * nn + (rem - nn) == sum_duration(outs, i + 1),
                        rem - nn >= 0,
                        sum_duration(outs, i + 1) <= (i + 1) * max_d,
                        (i + 1) * max_d <= nn * max_d,
                        nn > 0,
                ;
            }
            q = q + 1;
            rem = rem - nn;
        }
        match o.metrics.max_rss_kb {
            Some(m) => {
                max_mem = match max_mem {
                    None => Some(m),
                    Some(b) => if m > b {
                        Some(m)
                    } else {
                        Some(b)
                    },
                };
            },
            None => {},
        }
        i = i + 1;
    }
    proof {
        assert(q == sum_duration(outs, n as int) / (n as nat)) by (nonlinear_arith)
            requires
                sum_duration(outs, n as int) == q * n + rem,
                rem < n,
                n > 0,
        ;
    }
    let mixed = seen_ok && !ok;
    let flaky = n > 1 && (drift_runs.len() > 0 || mixed);
    RunSummary {
        ok,
        runs: n as u64,
        min_duration_ms: min_d,
        avg_duration_ms: q,
        max_duration_ms: max_d,
        max_memory_kb: max_mem,
        flaky,
        drift_runs,
        failing_runs: if mixed {
            failing_runs
        } else {
            Vec::new()
        },
        failures,
        snapshots_ok: snaps,
    }
}

/// Run numbers separated by `, `.
pub open spec fn run_list(xs: Seq<u64>, n: int) -> Seq<char>
    decreases n,
{
    if n <= 0 || n > xs.len() {
        Seq::empty()
    } else if n == 1 {
        decimal(xs[0] as nat)
    } else {
        run_list(xs, n - 1) + ", "@ + decimal(xs[n - 1] as nat)
    }
}

/// Why a summary is flaky, one sentence per cause.
pub open spec fn reasons_spec(drift: Seq<u64>, failing: Seq<u64>) -> Seq<Seq<char>> {
    (if drift.len() > 0 {
        seq!["output differs from run 1 in runs: "@ + run_list(drift, drift.len() as int)]
    } else {
        Seq::empty()
    }) + (if failing.len() > 0 {
        seq!["mixed verdicts; failing runs: "@ + run_list(failing, failing.len() as int)]
    } else {
        Seq::empty()
    })
}

fn push_run_list(out: &mut Vec<char>, xs: &Vec<u64>)
    ensures
        final(out)@ == old(out)@ + run_list(xs@, xs@.len() as int),
{
    let mut i: usize = 0;
    while i < xs.len()
        invariant
            i <= xs.len(),
            out@ == old(out)@ + run_list(xs@, i as int),
        decreases xs.len() - i,
    {
        if i > 0 {
            push_str(out, ", ");
        }
        push_decimal(out, xs[i]);
        i = i + 1;
        assert(out@ =~= old(out)@ + run_list(xs@, i as int));
    }
}

impl RunSummary {
    /// Human-readable causes of flakiness: output drift and mixed verdicts.
    pub fn flaky_reasons(&self) -> (r: Vec<String>)
        ensures
            r@.map_values(|x: String| x@) == reasons_spec(self.drift_runs@, self.failing_runs@),
    {
        let mut out: Vec<String> = Vec::new();
        let ghost first: Seq<Seq<char>>;
        if self.drift_runs.len() > 0 {
            let mut t: Vec<char> = Vec::new();
            push_str(&mut t, "output differs from run 1 in runs: ");
            push_run_list(&mut t, &self.drift_runs);
            out.push(string_of(&t));
        }
        proof {
            first = out@.map_values(|x: String| x@);
            assert(first =~= (if self.drift_runs@.len() > 0 {
                seq!["output differs from run 1 in runs: "@ + run_list(self.drift_runs@, self.drift_runs@.len() as int)]
            } else {
                Seq::<Seq<char>>::empty()
            }));
        }
        if self.failing_runs.len() > 0 {
            let mut t: Vec<char> = Vec::new();
            push_str(&mut t, "mixed verdicts; failing runs: ");
            push_run_list(&mut t, &self.failing_runs);
            out.push(string_of(&t));
        }
        assert(out@.map_values(|x: String| x@) =~= reasons_spec(self.drift_runs@, self.failing_runs@));
        out
    }
}

/// Every summary is ok among the first `n`.
pub open spec fn all_summaries_ok(ss: Seq<RunSummary>, n: int) -> bool
    decreases n,
{
    if n <= 0 || n > ss.len() {
        true
    } else {
        all_summaries_ok(ss, n - 1) && ss[n - 1].ok
    }
}

pub open spec fn max_opt_u128(a: Option<u128>, b: u128) -> Option<u128> {
    match a {
        None => Some(b),
        Some(x) => if b > x {
            Some(b)
        } else {
            Some(x)
        },
    }
}

pub open spec fn max_opt_u64(a: Option<u64>, b: Option<u64>) -> Option<u64> {
    match (a, b) {
        (None, _) => b,
        (_, None) => a,
        (Some(x), Some(y)) => if y > x {
            Some(y)
        } else {
            Some(x)
        },
    }
}

/// Every summary matched its snapshots among the first `n`.
pub open spec fn all_summaries_snapshots_ok(ss: Seq<RunSummary>, n: int) -> bool
    decreases n,
{
    if n <= 0 || n > ss.len() {
        true
    } else {
        all_summaries_snapshots_ok(ss, n - 1) && ss[n - 1].snapshots_ok
    }
}

/// Longest duration among the first `n` summaries.
pub open spec fn max_duration_of(ss: Seq<RunSummary>, n: int) -> Option<u128>
    decreases n,
{
    if n <= 0 || n > ss.len() {
        None
    } else {
        max_opt_u128(max_duration_of(ss, n - 1), ss[n - 1].max_duration_ms)
    }
}

/// Highest memory peak among the first `n` summaries.
pub open spec fn max_memory_of(ss: Seq<RunSummary>, n: int) -> Option<u64>
    decreases n,
{
    if n <= 0 || n > ss.len() {
        None
    } else {
        max_opt_u64(max_memory_of(ss, n - 1), ss[n - 1].max_memory_kb)
    }
}

/// All failure texts of the first `n` summaries, in order.
pub open spec fn summary_failures(ss: Seq<RunSummary>, n: int) -> Seq<Seq<char>>
    decreases n,
{
    if n <= 0 || n > ss.len() {
        Seq::empty()
    } else {
        summary_failures(ss, n - 1) + ss[n - 1].failures@.map_values(|x: String| x@)
    }
}

/// Folds the summaries of all fixtures into the execution's result.
pub fn combine_summaries(summaries: &Vec<RunSummary>, runs: u64) -> (r: crate::engine::ExecutionResult)
    ensures
        r.ok == all_summaries_ok(summaries@, summaries@.len() as int),
        r.runs == runs,
        r.max_duration_ms == max_duration_of(summaries@, summaries@.len() as int),
        r.max_memory_kb == max_memory_of(summaries@, summaries@.len() as int),
        r.snapshots_ok == all_summaries_snapshots_ok(summaries@, summaries@.len() as int),
        r.failures@.map_values(|x: String| x@) == summary_failures(summaries@, summaries@.len() as int),
{
    let mut ok = true;
    let mut snapshots_ok = true;
    let mut max_d: Option<u128> = None;
    let mut max_m: Option<u64> = None;
    let mut failures: Vec<String> = Vec::new();
    let mut i: usize = 0;
    while i < summaries.len()
        invariant
            i <= summaries.len(),
            ok == all_summaries_ok(summaries@, i as int),
            snapshots_ok == all_summaries_snapshots_ok(summaries@, i as int),
            max_d == max_duration_of(summaries@, i as int),
            max_m == max_memory_of(summaries@, i as int),
            failures@.map_values(|x: String| x@) == summary_failures(summaries@, i as int),
        decreases summaries.len() - i,
    {
        let s = &summaries[i];
        ok = ok && s.ok;
        snapshots_ok = snapshots_ok && s.snapshots_ok;
        max_d = match max_d {
            None => Some(s.max_duration_ms),
            Some(x) => if s.max_duration_ms > x {
                Some(s.max_duration_ms)
            } else {
                Some(x)
            },
        };
        max_m = match (max_m, s.max_memory_kb) {
            (None, b) => b,
            (a, None) => a,
            (Some(x), Some(y)) => if y > x {
                Some(y)
            } else {
                Some(x)
            },
        };
        let ghost before = failures@;
        let mut j: usize = 0;
        while j < s.failures.len()
            invariant
                j <= s.failures.len(),
                failures@.len() == before.len() + j,
                forall|k: int| 0 <= k < before.len() ==> (#[trigger] failures@[k]) == before[k],
                forall|k: int| 0 <= k < j ==> (#[trigger] failures@[before.len() + k])@ == s.failures@[k]@,
            decreases s.failures.len() - j,
        {
            failures.push(s.failures[j].clone());
            j = j + 1;
        }
        proof {
            let fm = failures@.map_values(|x: String| x@);
            let rhs = before.map_values(|x: String| x@) + s.failures@.map_values(|x: String| x@);
            assert forall|k: int| 0 <= k < fm.len() implies #[trigger] fm[k] == rhs[k] by {
                if k >= before.len() {
                    assert(failures@[before.len() + (k - before.len())]@ == s.failures@[k - before.len()]@);
                }
            }
            assert(fm =~= rhs);
        }
        i = i + 1;
    }
    crate::engine::ExecutionResult { ok, runs, failures, max_duration_ms: max_d, max_memory_kb: max_m, snapshots_ok }
}

} // verus!
