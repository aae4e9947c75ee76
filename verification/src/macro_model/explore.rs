//! Bookkeeping of a macro candidate exploration: which testbench rejected a
//! candidate and why, and the counts that summarize the exploration.
use vstd::prelude::*;

use crate::analysis::{AcCompletion, AcMetric, TargetAssessment, TargetFailure};
use crate::macro_model::model::{first_named, lemma_first_named};
use crate::text::str_eq;

verus! {

/// AC rejection counts by the first failed metric.
#[derive(Debug, Clone, Copy, PartialEq, Eq, Structural)]
pub struct MacroAcRejectionCounts {
    dc_gain: usize,
    bandwidth_3db: usize,
    unity_gain: usize,
    phase_margin: usize,
}

impl MacroAcRejectionCounts {
    /// The four counts add up to a count the machine can hold.
    #[verifier::type_invariant]
    spec fn total_fits(self) -> bool {
        self.dc_gain + self.bandwidth_3db + self.unity_gain + self.phase_margin <= usize::MAX
    }

    /// The count of one metric.
    pub closed spec fn count_of(self, metric: AcMetric) -> nat {
        match metric {
            AcMetric::DcGainDb => self.dc_gain as nat,
            AcMetric::Bandwidth3DbHz => self.bandwidth_3db as nat,
            AcMetric::UnityGainHz => self.unity_gain as nat,
            AcMetric::PhaseMarginDeg => self.phase_margin as nat,
        }
    }

    /// The total of the four counts.
    pub open spec fn total_of(self) -> nat {
        self.count_of(AcMetric::DcGainDb) + self.count_of(AcMetric::Bandwidth3DbHz) + self.count_of(
            AcMetric::UnityGainHz,
        ) + self.count_of(AcMetric::PhaseMarginDeg)
    }

    /// No rejection.
    pub fn zero() -> (counts: Self)
        ensures
            counts.total_of() == 0,
            forall|m: AcMetric| #[trigger] counts.count_of(m) == 0,
    {
        MacroAcRejectionCounts { dc_gain: 0, bandwidth_3db: 0, unity_gain: 0, phase_margin: 0 }
    }

    /// Returns the number of candidates rejected by `metric`.
    pub fn count(self, metric: AcMetric) -> (n: usize)
        ensures
            n == self.count_of(metric),
    {
        match metric {
            AcMetric::DcGainDb => self.dc_gain,
            AcMetric::Bandwidth3DbHz => self.bandwidth_3db,
            AcMetric::UnityGainHz => self.unity_gain,
            AcMetric::PhaseMarginDeg => self.phase_margin,
        }
    }

    /// Returns the number of candidates rejected.
    pub fn total(self) -> (n: usize)
        ensures
            n == self.total_of(),
    {
        proof {
            use_type_invariant(&self);
        }
        self.dc_gain + self.bandwidth_3db + self.unity_gain + self.phase_margin
    }

    /// Counts one rejection by `metric`.
    fn record(&mut self, metric: AcMetric)
        requires
            old(self).total_of() < usize::MAX,
        ensures
            final(self).count_of(metric) == old(self).count_of(metric) + 1,
            forall|m: AcMetric| m != metric ==> #[trigger] final(self).count_of(m) == old(self).count_of(m),
            final(self).total_of() == old(self).total_of() + 1,
    {
        match metric {
            AcMetric::DcGainDb => self.dc_gain = self.dc_gain + 1,
            AcMetric::Bandwidth3DbHz => self.bandwidth_3db = self.bandwidth_3db + 1,
            AcMetric::UnityGainHz => self.unity_gain = self.unity_gain + 1,
            AcMetric::PhaseMarginDeg => self.phase_margin = self.phase_margin + 1,
        }
    }
}

impl Default for MacroAcRejectionCounts {
    fn default() -> (counts: Self)
        ensures
            counts.total_of() == 0,
    {
        MacroAcRejectionCounts::zero()
    }
}

/// Evaluation and rejection counts of one testbench.
#[derive(Debug, Clone, PartialEq, Eq)]
pub struct MacroAcTestbenchStatistics {
    testbench: String,
    evaluated_candidates: usize,
    frequency_evaluations: usize,
    rejections: MacroAcRejectionCounts,
}

impl MacroAcTestbenchStatistics {
    /// The testbench name.
    pub closed spec fn testbench_view(&self) -> Seq<char> {
        self.testbench@
    }

    /// Candidates that reached the testbench.
    pub closed spec fn evaluated_view(&self) -> nat {
        self.evaluated_candidates as nat
    }

    /// Frequency points evaluated.
    pub closed spec fn frequency_view(&self) -> nat {
        self.frequency_evaluations as nat
    }

    /// Rejection counts.
    pub closed spec fn rejections_view(&self) -> MacroAcRejectionCounts {
        self.rejections
    }

    /// Statistics of a testbench before any evaluation.
    pub fn new(testbench: String) -> (statistics: Self)
        ensures
            statistics.testbench_view() == testbench@,
            statistics.evaluated_view() == 0,
            statistics.frequency_view() == 0,
            statistics.rejections_view().total_of() == 0,
    {
        MacroAcTestbenchStatistics {
            testbench,
            evaluated_candidates: 0,
            frequency_evaluations: 0,
            rejections: MacroAcRejectionCounts::zero(),
        }
    }

    /// Returns the testbench name.
    pub fn testbench(&self) -> (name: &str)
        ensures
            name@ == self.testbench_view(),
    {
        self.testbench.as_str()
    }

    /// Returns how many candidates reached the testbench.
    pub fn evaluated_candidates(&self) -> (n: usize)
        ensures
            n == self.evaluated_view(),
    {
        self.evaluated_candidates
    }

    /// Returns how many frequency points the testbench evaluated.
    pub fn frequency_evaluations(&self) -> (n: usize)
        ensures
            n == self.frequency_view(),
    {
        self.frequency_evaluations
    }

    /// Returns the rejection counts.
    pub fn rejections(&self) -> (counts: MacroAcRejectionCounts)
        ensures
            counts == self.rejections_view(),
    {
        self.rejections
    }
}

/// Sum of the rejections of the testbenches.
pub open spec fn rejections_total(testbenches: Seq<MacroAcTestbenchStatistics>) -> nat
    decreases testbenches.len(),
{
    if testbenches.len() == 0 {
        0
    } else {
        rejections_total(testbenches.drop_last()) + testbenches.last().rejections_view().total_of()
    }
}

/// Sum of the frequency evaluations of the testbenches.
pub open spec fn frequency_total(testbenches: Seq<MacroAcTestbenchStatistics>) -> nat
    decreases testbenches.len(),
{
    if testbenches.len() == 0 {
        0
    } else {
        frequency_total(testbenches.drop_last()) + testbenches.last().frequency_view()
    }
}

/// Names of the testbench statistics, in order.
pub open spec fn statistics_names(testbenches: Seq<MacroAcTestbenchStatistics>) -> Seq<Seq<char>> {
    testbenches.map_values(|t: MacroAcTestbenchStatistics| t.testbench_view())
}

/// Aggregate counts of a macro exploration.
#[derive(Debug, Clone, PartialEq, Eq)]
pub struct MacroExplorationStatistics {
    compatible_candidates: usize,
    accepted_candidates: usize,
    testbenches: Vec<MacroAcTestbenchStatistics>,
}

impl MacroExplorationStatistics {
    /// Compatible selections evaluated.
    pub closed spec fn compatible_view(&self) -> nat {
        self.compatible_candidates as nat
    }

    /// Selections every testbench accepted.
    pub closed spec fn accepted_view(&self) -> nat {
        self.accepted_candidates as nat
    }

    /// Per-testbench statistics, in evaluation order.
    pub closed spec fn testbenches_view(&self) -> Seq<MacroAcTestbenchStatistics> {
        self.testbenches@
    }

    /// Statistics before any candidate, one entry per testbench name.
    pub fn new(testbench_names: &[String]) -> (statistics: Self)
        ensures
            statistics.compatible_view() == 0,
            statistics.accepted_view() == 0,
            statistics.testbenches_view().len() == testbench_names@.len(),
            forall|i: int|
                0 <= i < testbench_names@.len() ==> (#[trigger] statistics.testbenches_view()[i]).testbench_view()
                    == testbench_names@[i]@ && statistics.testbenches_view()[i].evaluated_view() == 0
                    && statistics.testbenches_view()[i].frequency_view() == 0
                    && statistics.testbenches_view()[i].rejections_view().total_of() == 0,
            rejections_total(statistics.testbenches_view()) == 0,
            frequency_total(statistics.testbenches_view()) == 0,
    {
        let mut testbenches: Vec<MacroAcTestbenchStatistics> = Vec::new();
        let mut i: usize = 0;
        while i < testbench_names.len()
            invariant
                i <= testbench_names@.len(),
                testbenches@.len() == i,
                forall|j: int|
                    0 <= j < i ==> (#[trigger] testbenches@[j]).testbench_view() == testbench_names@[j]@
                        && testbenches@[j].evaluated_view() == 0 && testbenches@[j].frequency_view() == 0
                        && testbenches@[j].rejections_view().total_of() == 0,
                rejections_total(testbenches@) == 0,
                frequency_total(testbenches@) == 0,
            decreases testbench_names@.len() - i,
        {
            let entry = MacroAcTestbenchStatistics::new(testbench_names[i].clone());
            let ghost before = testbenches@;
            testbenches.push(entry);
            assert(testbenches@.drop_last() =~= before);
            i = i + 1;
        }
        MacroExplorationStatistics { compatible_candidates: 0, accepted_candidates: 0, testbenches }
    }

    /// Returns the number of compatible selections evaluated.
    pub fn compatible_candidates(&self) -> (n: usize)
        ensures
            n == self.compatible_view(),
    {
        self.compatible_candidates
    }

    /// Returns the number of selections every testbench accepted.
    pub fn accepted_candidates(&self) -> (n: usize)
        ensures
            n == self.accepted_view(),
    {
        self.accepted_candidates
    }

    /// Returns the number of selections some testbench rejected.
    pub fn rejected_candidates(&self) -> (n: usize)
        requires
            self.accepted_view() <= self.compatible_view(),
        ensures
            n == self.compatible_view() - self.accepted_view(),
    {
        self.compatible_candidates - self.accepted_candidates
    }

    /// Returns the per-testbench statistics.
    pub fn testbenches(&self) -> (testbenches: &[MacroAcTestbenchStatistics])
        ensures
            testbenches@ == self.testbenches_view(),
    {
        self.testbenches.as_slice()
    }

    /// Finds the statistics of a testbench by name (the first of that name).
    pub fn testbench(&self, name: &str) -> (found: Option<&MacroAcTestbenchStatistics>)
        ensures
            match first_named(statistics_names(self.testbenches_view()), name@) {
                Some(i) => found == Some(&self.testbenches_view()[i]),
                None => found is None,
            },
    {
        let ghost names = statistics_names(self.testbenches@);
        let n = self.testbenches.len();
        let mut i: usize = 0;
        while i < n
            invariant
                n == self.testbenches@.len(),
                names == statistics_names(self.testbenches@),
                i <= n,
                forall|k: int| 0 <= k < i ==> names[k] != name@,
            decreases n - i,
        {
            if str_eq(self.testbenches[i].testbench.as_str(), name) {
                proof {
                    lemma_first_named(names, name@, i as int);
                }
                return Some(&self.testbenches[i]);
            }
            i = i + 1;
        }
        proof {
            assert forall|k: int| 0 <= k < names.len() implies names[k] != name@ by {}
        }
        None
    }

    /// Returns the frequency points evaluated across every testbench.
    pub fn frequency_evaluations(&self) -> (n: usize)
        requires
            frequency_total(self.testbenches_view()) <= usize::MAX,
        ensures
            n == frequency_total(self.testbenches_view()),
    {
        let mut total: usize = 0;
        let mut i: usize = 0;
        while i < self.testbenches.len()
            invariant
                i <= self.testbenches@.len(),
                frequency_total(self.testbenches@) <= usize::MAX,
                total == frequency_total(self.testbenches@.take(i as int)),
            decreases self.testbenches@.len() - i,
        {
            proof {
                let t = self.testbenches@.take(i + 1);
                assert(t.drop_last() =~= self.testbenches@.take(i as int));
                lemma_frequency_prefix(self.testbenches@, i + 1);
            }
            total = total + self.testbenches[i].frequency_evaluations;
            i = i + 1;
        }
        assert(self.testbenches@.take(i as int) =~= self.testbenches@);
        total
    }
}

/// A prefix has at most the total frequency evaluations.
proof fn lemma_frequency_prefix(testbenches: Seq<MacroAcTestbenchStatistics>, n: int)
    requires
        0 <= n <= testbenches.len(),
    ensures
        frequency_total(testbenches.take(n)) <= frequency_total(testbenches),
    decreases testbenches.len() - n,
{
    if n < testbenches.len() {
        lemma_frequency_prefix(testbenches, n + 1);
        let t = testbenches.take(n + 1);
        assert(t.drop_last() =~= testbenches.take(n));
    } else {
        assert(testbenches.take(n) =~= testbenches);
    }
}


/// The failure list of an assessment names `metric`.
pub open spec fn fails_metric(failures: Seq<TargetFailure>, metric: AcMetric) -> bool {
    exists|i: int| 0 <= i < failures.len() && (#[trigger] failures[i]).metric == metric
}

/// How a testbench outcome classifies a candidate: accepted (`None`),
/// rejected by a metric, or inconsistent. A pruned analysis must have failed
/// its pruning metric; a complete one that failed is rejected by its first
/// failure.
pub open spec fn classified(
    completion: AcCompletion,
    failures: Seq<TargetFailure>,
    result: Result<Option<AcMetric>, &'static str>,
) -> bool {
    match completion {
        AcCompletion::Complete => if failures.len() == 0 {
            result == Ok::<Option<AcMetric>, &'static str>(None)
        } else {
            result == Ok::<Option<AcMetric>, &'static str>(Some(failures[0].metric))
        },
        AcCompletion::PrunedAfter(metric) => if failures.len() == 0 {
            result matches Err(reason) && reason@ == "analysis was pruned although all evaluated targets passed"@
        } else if fails_metric(failures, metric) {
            result == Ok::<Option<AcMetric>, &'static str>(Some(metric))
        } else {
            result matches Err(reason) && reason@ == "pruning metric is not present in the target failures"@
        },
    }
}

/// The rejection an outcome stands for: `Some(None)` when it passes,
/// `Some(Some(metric))` when `metric` rejects it, `None` when it is
/// inconsistent.
pub open spec fn outcome_rejection(completion: AcCompletion, failures: Seq<TargetFailure>) -> Option<Option<AcMetric>> {
    match completion {
        AcCompletion::Complete => if failures.len() == 0 {
            Some(None)
        } else {
            Some(Some(failures[0].metric))
        },
        AcCompletion::PrunedAfter(metric) => if failures.len() > 0 && fails_metric(failures, metric) {
            Some(Some(metric))
        } else {
            None
        },
    }
}

/// Classifies a testbench outcome by its completion and target failures.
pub fn rejection_metric(completion: AcCompletion, targets: &TargetAssessment) -> (result: Result<
    Option<AcMetric>,
    &'static str,
>)
    ensures
        classified(completion, targets.view(), result),
        match outcome_rejection(completion, targets.view()) {
            None => result is Err,
            Some(rejection) => result == Ok::<Option<AcMetric>, &'static str>(rejection),
        },
{
    let failures = targets.failures();
    match completion {
        AcCompletion::Complete => {
            if failures.len() == 0 {
                Ok(None)
            } else {
                Ok(Some(failures[0].metric))
            }
        },
        AcCompletion::PrunedAfter(metric) => {
            if failures.len() == 0 {
                return Err("analysis was pruned although all evaluated targets passed");
            }
            let mut i: usize = 0;
            while i < failures.len()
                invariant
                    i <= failures@.len(),
                    failures@.len() > 0,
                    completion == AcCompletion::PrunedAfter(metric),
                    failures@ == targets.view(),
                    forall|k: int| 0 <= k < i ==> (#[trigger] failures@[k]).metric != metric,
                decreases failures@.len() - i,
            {
                if failures[i].metric == metric {
                    assert(failures@[i as int].metric == metric);
                    assert(fails_metric(targets.view(), metric));
                    return Ok(Some(metric));
                }
                i = i + 1;
            }
            Err("pruning metric is not present in the target failures")
        },
    }
}

/// What the exploration does next for the current candidate.
#[derive(Debug, Clone, Copy, PartialEq, Eq, Structural)]
pub enum EvaluationStep {
    /// Analyze the candidate with the testbench of this index.
    AnalyzeTestbench(usize),
    /// Every testbench accepted the candidate.
    Accepted,
    /// A testbench rejected the candidate; later testbenches are skipped.
    Rejected,
}

/// The testbench statistics agree except at `i`.
pub open spec fn same_except(a: Seq<MacroAcTestbenchStatistics>, b: Seq<MacroAcTestbenchStatistics>, i: int) -> bool {
    a.len() == b.len() && forall|k: int| 0 <= k < a.len() && k != i ==> #[trigger] a[k] == b[k]
}

/// Changing one entry changes the sums by the entry's change.
proof fn lemma_sums_update(a: Seq<MacroAcTestbenchStatistics>, b: Seq<MacroAcTestbenchStatistics>, i: int)
    requires
        same_except(a, b, i),
        0 <= i < a.len(),
    ensures
        rejections_total(b) == rejections_total(a) - a[i].rejections_view().total_of() + b[i].rejections_view().total_of(),
        frequency_total(b) == frequency_total(a) - a[i].frequency_view() + b[i].frequency_view(),
        a[i].rejections_view().total_of() <= rejections_total(a),
        a[i].frequency_view() <= frequency_total(a),
    decreases a.len(),
{
    if i < a.len() - 1 {
        lemma_sums_update(a.drop_last(), b.drop_last(), i);
    } else {
        assert(a.drop_last() =~= b.drop_last());
    }
}

/// How many candidates passed a testbench: those evaluated there and not
/// rejected.
pub open spec fn passed_count(t: MacroAcTestbenchStatistics) -> int {
    t.evaluated_view() - t.rejections_view().total_of()
}

/// How many candidates reached testbench `k`: those evaluated there, and the
/// candidate in progress when it awaits `k`.
pub open spec fn arrivals(testbenches: Seq<MacroAcTestbenchStatistics>, current: Option<usize>, k: int) -> int {
    testbenches[k].evaluated_view() + if current matches Some(c) && c == k {
        1int
    } else {
        0int
    }
}

/// Every compatible candidate reached the first testbench, the candidates
/// that passed one testbench reached the next, and those that passed the
/// last were accepted; no testbench rejected more than it evaluated.
pub open spec fn counts_chain(
    tbs: Seq<MacroAcTestbenchStatistics>,
    current: Option<usize>,
    accepted: nat,
    compatible: nat,
) -> bool {
    &&& forall|k: int| 0 <= k < tbs.len() ==> #[trigger] tbs[k].rejections_view().total_of() <= tbs[k].evaluated_view()
    &&& tbs.len() > 0 ==> arrivals(tbs, current, 0) == compatible
    &&& forall|k: int| 0 < k < tbs.len() ==> #[trigger] arrivals(tbs, current, k) == passed_count(tbs[k - 1])
    &&& tbs.len() > 0 ==> accepted == passed_count(tbs[tbs.len() - 1])
    &&& tbs.len() == 0 ==> accepted == compatible
}

/// Recording the outcome of testbench `c` for the candidate awaiting it
/// keeps the chain of counts.
proof fn lemma_chain_step(
    before: Seq<MacroAcTestbenchStatistics>,
    after: Seq<MacroAcTestbenchStatistics>,
    cu: usize,
    accepted: nat,
    compatible: nat,
    rejected: bool,
)
    requires
        cu < before.len(),
        before.len() <= usize::MAX,
        counts_chain(before, Some(cu), accepted, compatible),
        same_except(before, after, cu as int),
        after[cu as int].evaluated_view() == before[cu as int].evaluated_view() + 1,
        rejected ==> after[cu as int].rejections_view().total_of() == before[cu as int].rejections_view().total_of() + 1,
        !rejected ==> after[cu as int].rejections_view().total_of() == before[cu as int].rejections_view().total_of(),
    ensures
        rejected ==> counts_chain(after, None, accepted, compatible),
        !rejected && cu + 1 < before.len() ==> counts_chain(after, Some((cu + 1) as usize), accepted, compatible),
        !rejected && cu + 1 == before.len() ==> counts_chain(after, None, accepted + 1, compatible),
{
    let c = cu as int;
    let n = before.len();
    assert(arrivals(before, Some(cu), c) == before[c].evaluated_view() + 1);
    if rejected {
        assert forall|k: int| 0 < k < n implies #[trigger] arrivals(after, None, k) == passed_count(after[k - 1]) by {
            assert(arrivals(before, Some(cu), k) == passed_count(before[k - 1]));
            if k != c {
                assert(after[k] == before[k]);
            }
            if k - 1 != c {
                assert(after[k - 1] == before[k - 1]);
            }
        }
        if n > 0 {
            if 0 != c {
                assert(after[0] == before[0]);
            }
            if n - 1 != c {
                assert(after[n - 1] == before[n - 1]);
            }
        }
    } else if c + 1 < n {
        let next = Some((c + 1) as usize);
        assert(c + 1 <= usize::MAX);
        assert forall|k: int| 0 < k < n implies #[trigger] arrivals(after, next, k) == passed_count(after[k - 1]) by {
            assert(arrivals(before, Some(cu), k) == passed_count(before[k - 1]));
            if k != c {
                assert(after[k] == before[k]);
            }
            if k - 1 != c {
                assert(after[k - 1] == before[k - 1]);
            }
        }
        if 0 != c {
            assert(after[0] == before[0]);
        }
        assert(after[n - 1] == before[n - 1]);
    } else {
        assert forall|k: int| 0 < k < n implies #[trigger] arrivals(after, None, k) == passed_count(after[k - 1]) by {
            assert(arrivals(before, Some(cu), k) == passed_count(before[k - 1]));
            if k != c {
                assert(after[k] == before[k]);
            }
            if k - 1 != c {
                assert(after[k - 1] == before[k - 1]);
            }
        }
        if 0 != c {
            assert(after[0] == before[0]);
        }
    }
    assert forall|k: int| 0 <= k < n implies #[trigger] after[k].rejections_view().total_of() <= after[k].evaluated_view() by {
        if k != c {
            assert(after[k] == before[k]);
        }
    }
}

/// The decisions of a candidate exploration loop: after every compatible
/// selection the testbenches run in order until one rejects it; the
/// statistics count every evaluation and rejection.
#[derive(Debug)]
pub struct CandidateEvaluationLoop {
    statistics: MacroExplorationStatistics,
    accepted: usize,
    current: Option<usize>,
}

impl CandidateEvaluationLoop {
    /// The statistics gathered so far.
    pub closed spec fn statistics_view(&self) -> MacroExplorationStatistics {
        self.statistics
    }

    /// Candidates accepted so far.
    pub closed spec fn accepted_view(&self) -> nat {
        self.accepted as nat
    }

    /// The testbench the current candidate awaits, when a candidate is in
    /// progress.
    pub closed spec fn current_view(&self) -> Option<usize> {
        self.current
    }

    /// Every compatible selection is accepted, rejected by one testbench, or
    /// in progress; evaluations and rejections fit the counts.
    pub closed spec fn wf(&self) -> bool {
        let tbs = self.statistics.testbenches@;
        let compatible = self.statistics.compatible_candidates as nat;
        let in_progress: nat = if self.current is Some {
            1
        } else {
            0
        };
        &&& compatible == self.accepted + rejections_total(tbs) + in_progress
        &&& self.statistics.accepted_candidates == 0
        &&& frequency_total(tbs) <= usize::MAX
        &&& self.current matches Some(c) ==> c < tbs.len()
        &&& forall|k: int|
            0 <= k < tbs.len() ==> #[trigger] tbs[k].evaluated_view() + (if self.current matches Some(c) && k >= c {
                1int
            } else {
                0int
            }) <= compatible
        &&& counts_chain(tbs, self.current, self.accepted as nat, compatible)
    }

    /// A loop before any candidate, for the named testbenches.
    pub fn new(testbench_names: &[String]) -> (evaluation: Self)
        ensures
            evaluation.wf(),
            evaluation.current_view() is None,
            evaluation.accepted_view() == 0,
            evaluation.statistics_view().compatible_view() == 0,
            evaluation.statistics_view().testbenches_view().len() == testbench_names@.len(),
            forall|i: int|
                0 <= i < testbench_names@.len() ==> (#[trigger] evaluation.statistics_view().testbenches_view()[i]).testbench_view()
                    == testbench_names@[i]@ && evaluation.statistics_view().testbenches_view()[i].evaluated_view() == 0
                    && evaluation.statistics_view().testbenches_view()[i].frequency_view() == 0
                    && evaluation.statistics_view().testbenches_view()[i].rejections_view().total_of() == 0,
    {
        let statistics = MacroExplorationStatistics::new(testbench_names);
        CandidateEvaluationLoop { statistics, accepted: 0, current: None }
    }

    /// Returns the statistics gathered so far.
    pub fn statistics(&self) -> (statistics: &MacroExplorationStatistics)
        ensures
            *statistics == self.statistics_view(),
    {
        &self.statistics
    }

    /// Counts a new compatible selection and says what to do with it: run
    /// the first testbench, or accept it when there is none.
    pub fn start_candidate(&mut self) -> (step: EvaluationStep)
        requires
            old(self).wf(),
            old(self).current_view() is None,
            old(self).statistics_view().compatible_view() < usize::MAX,
        ensures
            final(self).wf(),
            final(self).statistics_view().compatible_view() == old(self).statistics_view().compatible_view() + 1,
            final(self).statistics_view().testbenches_view() == old(self).statistics_view().testbenches_view(),
            old(self).statistics_view().testbenches_view().len() == 0 ==> step == EvaluationStep::Accepted
                && final(self).current_view() is None && final(self).accepted_view() == old(self).accepted_view() + 1,
            old(self).statistics_view().testbenches_view().len() > 0 ==> step == EvaluationStep::AnalyzeTestbench(0)
                && final(self).current_view() == Some(0usize) && final(self).accepted_view() == old(self).accepted_view(),
    {
        self.statistics.compatible_candidates = self.statistics.compatible_candidates + 1;
        if self.statistics.testbenches.len() == 0 {
            self.accepted = self.accepted + 1;
            EvaluationStep::Accepted
        } else {
            self.current = Some(0);
            proof {
                let tbs = self.statistics.testbenches@;
                assert forall|k: int| 0 < k < tbs.len() implies #[trigger] arrivals(tbs, self.current, k) == passed_count(
                    tbs[k - 1],
                ) by {
                    assert(arrivals(tbs, None, k) == passed_count(tbs[k - 1]));
                }
                assert(arrivals(tbs, None, 0) == old(self).statistics.compatible_candidates);
            }
            EvaluationStep::AnalyzeTestbench(0)
        }
    }

    /// Records the outcome of the testbench the current candidate awaited
    /// and says what comes next: the following testbench, acceptance after the
    /// last one, or rejection when the outcome fails a target. An
    /// inconsistent outcome is reported and changes nothing.
    pub fn record_outcome(
        &mut self,
        frequency_evaluations: usize,
        completion: AcCompletion,
        targets: &TargetAssessment,
    ) -> (result: Result<EvaluationStep, &'static str>)
        requires
            old(self).wf(),
            old(self).current_view() is Some,
            frequency_total(old(self).statistics_view().testbenches_view()) + frequency_evaluations <= usize::MAX,
        ensures
            final(self).wf(),
            final(self).statistics_view().compatible_view() == old(self).statistics_view().compatible_view(),
            ({
                let c = old(self).current_view()->0 as int;
                let n = old(self).statistics_view().testbenches_view().len();
                let before = old(self).statistics_view().testbenches_view();
                let after = final(self).statistics_view().testbenches_view();
                match outcome_rejection(completion, targets.view()) {
                    None => (result matches Err(reason) && classified(
                        completion,
                        targets.view(),
                        Err::<Option<AcMetric>, &'static str>(reason),
                    )) && *final(self) == *old(self),
                    Some(rejection) => {
                        &&& same_except(before, after, c)
                        &&& after[c].testbench_view() == before[c].testbench_view()
                        &&& after[c].evaluated_view() == before[c].evaluated_view() + 1
                        &&& after[c].frequency_view() == before[c].frequency_view() + frequency_evaluations
                        &&& match rejection {
                            Some(metric) => {
                                &&& after[c].rejections_view().count_of(metric) == before[c].rejections_view().count_of(metric) + 1
                                &&& forall|m: AcMetric| m != metric ==> #[trigger] after[c].rejections_view().count_of(m)
                                    == before[c].rejections_view().count_of(m)
                                &&& result == Ok::<EvaluationStep, &'static str>(EvaluationStep::Rejected)
                                &&& final(self).current_view() is None
                                &&& final(self).accepted_view() == old(self).accepted_view()
                            },
                            None => {
                                &&& after[c].rejections_view() == before[c].rejections_view()
                                &&& if c + 1 < n {
                                    &&& result == Ok::<EvaluationStep, &'static str>(EvaluationStep::AnalyzeTestbench((c + 1) as usize))
                                    &&& final(self).current_view() == Some((c + 1) as usize)
                                    &&& final(self).accepted_view() == old(self).accepted_view()
                                } else {
                                    &&& result == Ok::<EvaluationStep, &'static str>(EvaluationStep::Accepted)
                                    &&& final(self).current_view() is None
                                    &&& final(self).accepted_view() == old(self).accepted_view() + 1
                                }
                            },
                        }
                    },
                }
            }),
    {
        let c = self.current.unwrap();
        let classification = rejection_metric(completion, targets);
        let rejection = match classification {
            Err(reason) => {
                return Err(reason);
            },
            Ok(rejection) => rejection,
        };
        let ghost before = self.statistics.testbenches@;
        proof {
            lemma_sums_update(before, before, c as int);
            assert(before == old(self).statistics.testbenches@);
            assert(frequency_total(before) + frequency_evaluations <= usize::MAX);
            assert(before[c as int].frequency_view() <= frequency_total(before));
            assert(before[c as int].frequency_view() + frequency_evaluations <= usize::MAX);
            assert(before[c as int].evaluated_view() + 1 <= self.statistics.compatible_candidates);
        }
        let mut entry = MacroAcTestbenchStatistics::new(String::new());
        std::mem::swap(&mut entry, &mut self.statistics.testbenches[c]);
        entry.evaluated_candidates = entry.evaluated_candidates + 1;
        entry.frequency_evaluations = entry.frequency_evaluations + frequency_evaluations;
        match rejection {
            Some(metric) => {
                entry.rejections.record(metric);
            },
            None => {},
        }
        self.statistics.testbenches.set(c, entry);
        let length = self.statistics.testbenches.len();
        proof {
            lemma_sums_update(before, self.statistics.testbenches@, c as int);
            assert(before.len() == length);
            lemma_chain_step(
                before,
                self.statistics.testbenches@,
                c,
                self.accepted as nat,
                self.statistics.compatible_candidates as nat,
                rejection is Some,
            );
        }
        let count = self.statistics.testbenches.len();
        assert(c < count);
        match rejection {
            Some(_) => {
                self.current = None;
                Ok(EvaluationStep::Rejected)
            },
            None => {
                if c + 1 < count {
                    self.current = Some(c + 1);
                    Ok(EvaluationStep::AnalyzeTestbench(c + 1))
                } else {
                    self.accepted = self.accepted + 1;
                    self.current = None;
                    Ok(EvaluationStep::Accepted)
                }
            },
        }
    }

    /// Ends the exploration and returns its statistics, whose counts balance:
    /// every compatible selection was accepted or rejected by exactly one
    /// testbench.
    pub fn finish(self) -> (statistics: MacroExplorationStatistics)
        requires
            self.wf(),
            self.current_view() is None,
        ensures
            statistics.compatible_view() == statistics.accepted_view() + rejections_total(statistics.testbenches_view()),
            statistics.accepted_view() == self.accepted_view(),
            statistics.testbenches_view() == self.statistics_view().testbenches_view(),
            frequency_total(statistics.testbenches_view()) <= usize::MAX,
            forall|k: int|
                0 <= k < statistics.testbenches_view().len() ==> #[trigger] statistics.testbenches_view()[k].rejections_view().total_of()
                    <= statistics.testbenches_view()[k].evaluated_view(),
            statistics.testbenches_view().len() > 0 ==> statistics.testbenches_view()[0].evaluated_view()
                == statistics.compatible_view(),
            forall|k: int|
                0 < k < statistics.testbenches_view().len() ==> #[trigger] statistics.testbenches_view()[k].evaluated_view()
                    == passed_count(statistics.testbenches_view()[k - 1]),
            statistics.testbenches_view().len() > 0 ==> statistics.accepted_view() == passed_count(
                statistics.testbenches_view()[statistics.testbenches_view().len() - 1],
            ),
            statistics.testbenches_view().len() == 0 ==> statistics.accepted_view() == statistics.compatible_view(),
    {
        proof {
            let tbs = self.statistics.testbenches@;
            assert forall|k: int| 0 < k < tbs.len() implies #[trigger] tbs[k].evaluated_view() == passed_count(
                tbs[k - 1],
            ) by {
                assert(arrivals(tbs, self.current, k) == passed_count(tbs[k - 1]));
            }
            if tbs.len() > 0 {
                assert(arrivals(tbs, self.current, 0) == self.statistics.compatible_candidates);
            }
        }
        let mut statistics = self.statistics;
        statistics.accepted_candidates = self.accepted;
        statistics
    }
}

} // verus!
