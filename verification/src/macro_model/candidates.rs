//! Candidate sets of the explorable instances of a macro.
use vstd::prelude::*;

use crate::exploration::candidate::CandidateSet;
use crate::exploration::filter::CandidateFilterReport;
use crate::search::{any_below, first_index, lemma_first_index};
use crate::text::{str_eq, string_views};

use super::input::MacroExplorationInstanceKind;

verus! {

/// Candidates and local filtering statistics for one macro circuit instance.
#[derive(Clone, Debug, PartialEq)]
pub struct MacroInstanceCandidateSet {
    instance_path: String,
    kind: MacroExplorationInstanceKind,
    candidates: CandidateSet,
    filter_report: CandidateFilterReport,
    interface_ports: Vec<String>,
}

impl MacroInstanceCandidateSet {
    /// The local instance path.
    pub closed spec fn instance_path_view(&self) -> Seq<char> {
        self.instance_path@
    }

    /// Whether the candidates came from a primitive or a compact macro.
    pub closed spec fn kind_view(&self) -> MacroExplorationInstanceKind {
        self.kind
    }

    /// The filtered candidates.
    pub closed spec fn candidates_view(&self) -> CandidateSet {
        self.candidates
    }

    /// The filtering counts.
    pub closed spec fn filter_report_view(&self) -> CandidateFilterReport {
        self.filter_report
    }

    /// The projected interface ports of a compact submacro.
    pub closed spec fn interface_ports_view(&self) -> Seq<Seq<char>> {
        string_views(self.interface_ports@)
    }

    /// Gathers the candidates of one instance.
    pub fn new(
        instance_path: String,
        kind: MacroExplorationInstanceKind,
        candidates: CandidateSet,
        filter_report: CandidateFilterReport,
        interface_ports: Vec<String>,
    ) -> (set: Self)
        ensures
            set.instance_path_view() == instance_path@,
            set.kind_view() == kind,
            set.candidates_view() == candidates,
            set.filter_report_view() == filter_report,
            set.interface_ports_view() == string_views(interface_ports@),
    {
        MacroInstanceCandidateSet { instance_path, kind, candidates, filter_report, interface_ports }
    }

    /// Returns the local instance path used by the macro implementation.
    pub fn instance_path(&self) -> (path: &str)
        ensures
            path@ == self.instance_path_view(),
    {
        self.instance_path.as_str()
    }

    /// Returns whether these candidates came from a primitive or compact macro.
    pub fn kind(&self) -> (kind: MacroExplorationInstanceKind)
        ensures
            kind == self.kind_view(),
    {
        self.kind
    }

    /// Returns the filtered candidates used by later combination stages.
    pub fn candidates(&self) -> (candidates: &CandidateSet)
        ensures
            *candidates == self.candidates_view(),
    {
        &self.candidates
    }

    /// Returns the local filtering counts for this instance.
    pub fn filter_report(&self) -> (report: CandidateFilterReport)
        ensures
            report == self.filter_report_view(),
    {
        self.filter_report
    }

    /// Returns projected public interface ports for a compact submacro.
    pub fn interface_ports(&self) -> (ports: &[String])
        ensures
            string_views(ports@) == self.interface_ports_view(),
    {
        self.interface_ports.as_slice()
    }
}

/// Instance `i` has the path `path`.
pub open spec fn instance_set_named(
    instances: Seq<MacroInstanceCandidateSet>,
    path: Seq<char>,
) -> spec_fn(int) -> bool {
    |i: int| instances[i].instance_path_view() == path
}

/// The first instance with the path, if any, by position.
pub open spec fn instance_set_index(instances: Seq<MacroInstanceCandidateSet>, path: Seq<char>) -> Option<int> {
    let pred = instance_set_named(instances, path);
    if any_below(instances.len() as int, pred) {
        Some(first_index(instances.len() as int, pred))
    } else {
        None
    }
}

/// The candidate sets of instances, in order.
pub open spec fn instance_candidate_sets(instances: Seq<MacroInstanceCandidateSet>) -> Seq<CandidateSet> {
    instances.map_values(|set: MacroInstanceCandidateSet| set.candidates_view())
}

/// Candidate sets built for all explorable instances in circuit declaration order.
#[derive(Clone, Debug, PartialEq)]
pub struct MacroCandidateSets {
    instances: Vec<MacroInstanceCandidateSet>,
}

impl MacroCandidateSets {
    /// The instance candidate sets, in order.
    pub closed spec fn instances_view(&self) -> Seq<MacroInstanceCandidateSet> {
        self.instances@
    }

    /// Gathers instance candidate sets in circuit declaration order.
    pub fn new(instances: Vec<MacroInstanceCandidateSet>) -> (sets: Self)
        ensures
            sets.instances_view() == instances@,
    {
        MacroCandidateSets { instances }
    }

    /// Returns instance candidate sets in implementation-circuit order.
    pub fn instances(&self) -> (instances: &[MacroInstanceCandidateSet])
        ensures
            instances@ == self.instances_view(),
    {
        self.instances.as_slice()
    }

    /// Finds the candidate set and filtering report for one instance path.
    pub fn instance(&self, instance_path: &str) -> (found: Option<&MacroInstanceCandidateSet>)
        ensures
            match instance_set_index(self.instances_view(), instance_path@) {
                Some(i) => found == Some(&self.instances_view()[i]),
                None => found is None,
            },
    {
        let ghost pred = instance_set_named(self.instances@, instance_path@);
        let n = self.instances.len();
        let mut i: usize = 0;
        while i < n
            invariant
                n == self.instances@.len(),
                i <= n,
                pred == instance_set_named(self.instances@, instance_path@),
                forall|k: int| 0 <= k < i ==> !#[trigger] pred(k),
            decreases n - i,
        {
            if str_eq(self.instances[i].instance_path(), instance_path) {
                proof {
                    lemma_first_index(n as int, pred, i as int);
                }
                return Some(&self.instances[i]);
            }
            i = i + 1;
        }
        None
    }

    /// Returns the candidate sets in the order expected by combination
    /// selections.
    pub fn candidate_sets(&self) -> (sets: Vec<&CandidateSet>)
        ensures
            sets@.len() == self.instances_view().len(),
            forall|i: int| 0 <= i < sets@.len() ==> *#[trigger] sets@[i] == self.instances_view()[i].candidates_view(),
    {
        let n = self.instances.len();
        let mut sets: Vec<&CandidateSet> = Vec::new();
        let mut i: usize = 0;
        while i < n
            invariant
                n == self.instances@.len(),
                i <= n,
                sets@.len() == i,
                forall|k: int| 0 <= k < i ==> *#[trigger] sets@[k] == self.instances@[k].candidates_view(),
            decreases n - i,
        {
            sets.push(self.instances[i].candidates());
            i = i + 1;
        }
        sets
    }

    /// Returns the number of explorable instances represented by this result.
    pub fn len(&self) -> (n: usize)
        ensures
            n == self.instances_view().len(),
    {
        self.instances.len()
    }

    /// Returns whether the macro has no primitive or compact-macro candidates.
    pub fn is_empty(&self) -> (empty: bool)
        ensures
            empty == (self.instances_view().len() == 0),
    {
        self.instances.len() == 0
    }
}

impl Default for MacroCandidateSets {
    fn default() -> (sets: Self)
        ensures
            sets.instances_view() == Seq::<MacroInstanceCandidateSet>::empty(),
    {
        MacroCandidateSets { instances: Vec::new() }
    }
}

} // verus!
