//! The conditions that derivation rules resolve for one child occurrence:
//! specification bounds and design-variable conditions, each the
//! intersection of everything derived so far, with an audit trail.
use vstd::prelude::*;

use crate::macro_model::configuration::{derivation_target_name, shapes_compatible, target_name, targets_specification};
use crate::macro_model::derivation::{is_maximum, is_minimum, nonfinite_at, occurs, reduction_result, unique_prefix, MacroDerivationReductionError};
use crate::macro_model::hierarchy::{law_condition_intersection_accepts_what_both_accept, view_accepts, condition_view, copy_condition, copy_values, intersect_design_conditions, intersect_views, keep_values, view_finite, ConditionView, MacroDerivationPruneReason};
use crate::macro_model::model::{bounds_valid, law_bounds_intersection_accepts_what_both_accept, listed, bounds_intersection, first_named, lemma_first_named, within, MacroDerivationReduction, MacroDerivationRule, MacroDerivationTarget, MacroDerivedValue, MacroDesignVariableCondition, MacroSpecificationBounds};
use crate::entries::{entry_names, entry_slot, entry_value, lemma_absent_entry, lemma_entry_values, lemma_put_entry, lemma_slot_value, lemma_sorted_entry};
use crate::search::any_below;
use crate::text::{append_decimal, decimal, lemma_text_less_irreflexive, lemma_text_less_total, lemma_text_less_transitive, str_eq, str_less, strictly_sorted, text_less};
use crate::value::{finite_value, order_key};

verus! {

// ---------------------------------------------------------------------------
// Resolved conditions
// ---------------------------------------------------------------------------

/// The condition in effect for one child specification or design variable
/// after a rule was applied; `None` when the intersection is empty.
#[derive(Clone, Debug, PartialEq)]
pub enum MacroResolvedCondition {
    Specification { name: String, bounds: Option<MacroSpecificationBounds> },
    DesignVariable { name: String, condition: Option<MacroDesignVariableCondition> },
}

/// Complete trace of one parent-to-child derivation rule.
#[derive(Clone, Debug, PartialEq)]
pub struct MacroDerivationAuditEntry {
    rule_index: usize,
    child_instance: String,
    expression: String,
    source_rows: usize,
    reduction: MacroDerivationReduction,
    reduced_value: MacroDerivedValue,
    target: MacroDerivationTarget,
    effective_condition: MacroResolvedCondition,
}

impl MacroDerivationAuditEntry {
    /// The rule's index in its parent definition.
    pub closed spec fn rule_index_view(&self) -> usize {
        self.rule_index
    }

    /// The direct child instance targeted by the rule.
    pub closed spec fn child_instance_view(&self) -> Seq<char> {
        self.child_instance@
    }

    /// The expression evaluated for every accepted parent row.
    pub closed spec fn expression_view(&self) -> Seq<char> {
        self.expression@
    }

    /// The number of parent rows the reduction used.
    pub closed spec fn source_rows_view(&self) -> usize {
        self.source_rows
    }

    /// The reduction applied to the row values.
    pub closed spec fn reduction_view(&self) -> MacroDerivationReduction {
        self.reduction
    }

    /// The value the reduction produced.
    pub closed spec fn reduced_value_view(&self) -> MacroDerivedValue {
        self.reduced_value
    }

    /// The child-public target of the rule.
    pub closed spec fn target_view(&self) -> MacroDerivationTarget {
        self.target
    }

    /// The condition in effect after this rule.
    pub closed spec fn effective_condition_view(&self) -> MacroResolvedCondition {
        self.effective_condition
    }

    /// Returns the rule's index in its parent definition.
    pub fn rule_index(&self) -> (index: usize)
        ensures
            index == self.rule_index_view(),
    {
        self.rule_index
    }

    /// Returns the direct child instance targeted by the rule.
    pub fn child_instance(&self) -> (child: &str)
        ensures
            child@ == self.child_instance_view(),
    {
        self.child_instance.as_str()
    }

    /// Returns the expression evaluated for every accepted parent row.
    pub fn expression(&self) -> (expression: &str)
        ensures
            expression@ == self.expression_view(),
    {
        self.expression.as_str()
    }

    /// Returns the number of accepted parent rows used by the reduction.
    pub fn source_rows(&self) -> (rows: usize)
        ensures
            rows == self.source_rows_view(),
    {
        self.source_rows
    }

    /// Returns the reduction applied to the row values.
    pub fn reduction(&self) -> (reduction: MacroDerivationReduction)
        ensures
            reduction == self.reduction_view(),
    {
        self.reduction
    }

    /// Returns the value produced by the reduction.
    pub fn reduced_value(&self) -> (value: &MacroDerivedValue)
        ensures
            *value == self.reduced_value_view(),
    {
        &self.reduced_value
    }

    /// Returns the child-public target of the rule.
    pub fn target(&self) -> (target: &MacroDerivationTarget)
        ensures
            *target == self.target_view(),
    {
        &self.target
    }

    /// Returns the complete condition after intersecting this rule.
    pub fn effective_condition(&self) -> (condition: &MacroResolvedCondition)
        ensures
            *condition == self.effective_condition_view(),
    {
        &self.effective_condition
    }
}

/// The first prune reason is kept; without one, `reason` becomes it.
pub open spec fn keeps_first_reason(
    before: Option<MacroDerivationPruneReason>,
    after: Option<MacroDerivationPruneReason>,
    conflict: spec_fn(MacroDerivationPruneReason) -> bool,
) -> bool {
    match before {
        Some(_) => after == before,
        None => after matches Some(reason) && conflict(reason),
    }
}

/// The reason names a conflicting specification.
pub open spec fn conflicting_specification(name: Seq<char>) -> spec_fn(MacroDerivationPruneReason) -> bool {
    |reason: MacroDerivationPruneReason|
        reason matches MacroDerivationPruneReason::ConflictingSpecification { specification }
            && specification@ == name
}

/// The reason names a conflicting design variable.
pub open spec fn conflicting_design_variable(name: Seq<char>) -> spec_fn(MacroDerivationPruneReason) -> bool {
    |reason: MacroDerivationPruneReason|
        reason matches MacroDerivationPruneReason::ConflictingDesignVariable { variable } && variable@ == name
}

/// The views of the design conditions listed under each name.
pub open spec fn condition_value(
    entries: Seq<(String, MacroDesignVariableCondition)>,
    name: Seq<char>,
) -> Option<ConditionView> {
    match entry_value(entries, name) {
        Some(condition) => Some(condition_view(condition)),
        None => None,
    }
}

/// Every listed design condition has finite bounds and values.
pub open spec fn conditions_finite(entries: Seq<(String, MacroDesignVariableCondition)>) -> bool {
    forall|i: int| 0 <= i < entries.len() ==> view_finite(condition_view(#[trigger] entries[i].1))
}

/// The specification bounds after intersecting those under `name` with
/// `incoming`: the intersection under `name` when it is not empty, otherwise
/// the bounds unchanged and the child pruned (the first reason is kept). The
/// design conditions are unchanged; `effective` reports the intersection.
pub open spec fn specification_applied(
    before: ResolvedChildConditions,
    after: ResolvedChildConditions,
    name: Seq<char>,
    incoming: MacroSpecificationBounds,
    effective: MacroResolvedCondition,
) -> bool {
    let current = match entry_value(before.bounds_view(), name) {
        Some(bounds) => bounds,
        None => MacroSpecificationBounds { minimum: None, maximum: None },
    };
    let intersection = bounds_intersection(current, incoming);
    &&& effective matches MacroResolvedCondition::Specification { name: n, bounds } && n@ == name && bounds
        == intersection
    &&& after.conditions_view() == before.conditions_view()
    &&& match intersection {
        Some(bounds) => {
            &&& entry_value(after.bounds_view(), name) == Some(bounds)
            &&& forall|other: Seq<char>|
                other != name ==> #[trigger] entry_value(after.bounds_view(), other) == entry_value(
                    before.bounds_view(),
                    other,
                )
            &&& after.pruned_view() == before.pruned_view()
        },
        None => {
            &&& after.bounds_view() == before.bounds_view()
            &&& keeps_first_reason(before.pruned_view(), after.pruned_view(), conflicting_specification(name))
        },
    }
}

/// The design conditions after intersecting the one under `name` with
/// `incoming` (taken as is when there is none): the intersection under
/// `name` when it is not empty, otherwise the conditions unchanged and the
/// child pruned (the first reason is kept). The specification bounds are
/// unchanged; `effective` reports the intersection.
pub open spec fn design_variable_applied(
    before: ResolvedChildConditions,
    after: ResolvedChildConditions,
    name: Seq<char>,
    incoming: ConditionView,
    effective: MacroResolvedCondition,
) -> bool {
    let intersection = match condition_value(before.conditions_view(), name) {
        Some(current) => intersect_views(current, incoming),
        None => Some(incoming),
    };
    &&& effective matches MacroResolvedCondition::DesignVariable { name: n, condition } && n@ == name
        && match condition {
        Some(c) => intersection == Some(condition_view(c)),
        None => intersection is None,
    }
    &&& after.bounds_view() == before.bounds_view()
    &&& match intersection {
        Some(view) => {
            &&& condition_value(after.conditions_view(), name) == Some(view)
            &&& forall|other: Seq<char>|
                other != name ==> #[trigger] entry_value(after.conditions_view(), other) == entry_value(
                    before.conditions_view(),
                    other,
                )
            &&& after.pruned_view() == before.pruned_view()
        },
        None => {
            &&& after.conditions_view() == before.conditions_view()
            &&& keeps_first_reason(before.pruned_view(), after.pruned_view(), conflicting_design_variable(name))
        },
    }
}

/// Errors produced while resolving derivation rules for a child.
#[derive(Debug)]
pub enum MacroDerivationResolutionError {
    ResultMacroMismatch { expected: String, actual: String },
    UnknownChildInstance { parent: String, child_instance: String },
    ChildIsNotMacro { parent: String, child_instance: String },
    Expression {
        parent: String,
        child_instance: String,
        rule_index: usize,
        expression: String,
        reason: String,
    },
    Reduction {
        parent: String,
        child_instance: String,
        rule_index: usize,
        error: MacroDerivationReductionError,
    },
}

impl MacroDerivationResolutionError {
    /// The message of the error.
    pub open spec fn message(&self) -> Seq<char> {
        match self {
            MacroDerivationResolutionError::ResultMacroMismatch { expected, actual } => "cannot derive conditions for macro '"@ + expected@ + "' from result for '"@ + actual@ + "'"@,
            MacroDerivationResolutionError::UnknownChildInstance { parent, child_instance } => "macro '"@ + parent@ + "' has no child instance '"@ + child_instance@ + "'"@,
            MacroDerivationResolutionError::ChildIsNotMacro { parent, child_instance } => "macro '"@ + parent@ + "' instance '"@ + child_instance@ + "' is not a submacro"@,
            MacroDerivationResolutionError::Expression { parent, child_instance, rule_index, expression, reason } => "macro '"@ + parent@ + "' derivation rule "@ + decimal(rule_index as nat) + " for child '"@ + child_instance@ + "' cannot evaluate '"@ + expression@ + "': "@ + reason@,
            MacroDerivationResolutionError::Reduction { parent, child_instance, rule_index, error } => "macro '"@ + parent@ + "' derivation rule "@ + decimal(rule_index as nat) + " for child '"@ + child_instance@ + "' cannot reduce its values: "@ + error.message(),
        }
    }

    /// Returns the message of the error.
    pub fn to_string(&self) -> (text: String)
        ensures
            text@ == self.message(),
    {
        match self {
            MacroDerivationResolutionError::ResultMacroMismatch { expected, actual } => {
                let mut text = String::from_str("cannot derive conditions for macro '");
                text.append(expected.as_str());
                text.append("' from result for '");
                text.append(actual.as_str());
                text.append("'");
                text
            },
            MacroDerivationResolutionError::UnknownChildInstance { parent, child_instance } => {
                let mut text = String::from_str("macro '");
                text.append(parent.as_str());
                text.append("' has no child instance '");
                text.append(child_instance.as_str());
                text.append("'");
                text
            },
            MacroDerivationResolutionError::ChildIsNotMacro { parent, child_instance } => {
                let mut text = String::from_str("macro '");
                text.append(parent.as_str());
                text.append("' instance '");
                text.append(child_instance.as_str());
                text.append("' is not a submacro");
                text
            },
            MacroDerivationResolutionError::Expression { parent, child_instance, rule_index, expression, reason } => {
                let mut text = String::from_str("macro '");
                text.append(parent.as_str());
                text.append("' derivation rule ");
                append_decimal(&mut text, *rule_index);
                text.append(" for child '");
                text.append(child_instance.as_str());
                text.append("' cannot evaluate '");
                text.append(expression.as_str());
                text.append("': ");
                text.append(reason.as_str());
                text
            },
            MacroDerivationResolutionError::Reduction { parent, child_instance, rule_index, error } => {
                let mut text = String::from_str("macro '");
                text.append(parent.as_str());
                text.append("' derivation rule ");
                append_decimal(&mut text, *rule_index);
                text.append(" for child '");
                text.append(child_instance.as_str());
                text.append("' cannot reduce its values: ");
                let part = error.to_string();
                text.append(part.as_str());
                text
            },
        }
    }
}

/// Effective conditions inherited by one child occurrence.
#[derive(Clone, Debug, PartialEq)]
pub struct ResolvedChildConditions {
    specification_bounds: Vec<(String, MacroSpecificationBounds)>,
    design_variable_conditions: Vec<(String, MacroDesignVariableCondition)>,
    audit: Vec<MacroDerivationAuditEntry>,
    pruned: Option<MacroDerivationPruneReason>,
}

impl ResolvedChildConditions {
    /// Derived specification bounds, by name.
    pub closed spec fn bounds_view(&self) -> Seq<(String, MacroSpecificationBounds)> {
        self.specification_bounds@
    }

    /// Derived design-variable conditions, by name.
    pub closed spec fn conditions_view(&self) -> Seq<(String, MacroDesignVariableCondition)> {
        self.design_variable_conditions@
    }

    /// The trace of applied rules.
    pub closed spec fn audit_view(&self) -> Seq<MacroDerivationAuditEntry> {
        self.audit@
    }

    /// Why the child was pruned, if it was.
    pub closed spec fn pruned_view(&self) -> Option<MacroDerivationPruneReason> {
        self.pruned
    }

    /// Both lists are sorted by name and every design condition is finite.
    pub open spec fn wf(&self) -> bool {
        &&& strictly_sorted(entry_names(self.bounds_view()))
        &&& strictly_sorted(entry_names(self.conditions_view()))
        &&& conditions_finite(self.conditions_view())
    }

    /// No condition derived yet.
    pub fn new() -> (resolved: Self)
        ensures
            resolved.wf(),
            resolved.bounds_view().len() == 0,
            resolved.conditions_view().len() == 0,
            resolved.audit_view().len() == 0,
            resolved.pruned_view() is None,
    {
        let resolved = ResolvedChildConditions {
            specification_bounds: Vec::new(),
            design_variable_conditions: Vec::new(),
            audit: Vec::new(),
            pruned: None,
        };
        assert(entry_names(resolved.bounds_view()) =~= Seq::<Seq<char>>::empty());
        assert(entry_names(resolved.conditions_view()) =~= Seq::<Seq<char>>::empty());
        resolved
    }

    /// Returns derived specification bounds in increasing name order.
    pub fn specification_bounds(&self) -> (bounds: &[(String, MacroSpecificationBounds)])
        ensures
            bounds@ == self.bounds_view(),
    {
        self.specification_bounds.as_slice()
    }

    /// Returns derived pre-build conditions in increasing variable order.
    pub fn design_variable_conditions(&self) -> (conditions: &[(String, MacroDesignVariableCondition)])
        ensures
            conditions@ == self.conditions_view(),
    {
        self.design_variable_conditions.as_slice()
    }

    /// Returns the ordered trace of every applied derivation rule.
    pub fn audit(&self) -> (audit: &[MacroDerivationAuditEntry])
        ensures
            audit@ == self.audit_view(),
    {
        self.audit.as_slice()
    }

    /// Returns why this child occurrence was pruned, when conditions conflict.
    pub fn prune_reason(&self) -> (reason: Option<&MacroDerivationPruneReason>)
        ensures
            match self.pruned_view() {
                Some(r) => reason == Some(&r),
                None => reason is None,
            },
    {
        match &self.pruned {
            Some(reason) => Some(reason),
            None => None,
        }
    }

    /// Returns whether the derived condition intersection is empty.
    pub fn is_pruned(&self) -> (pruned: bool)
        ensures
            pruned == self.pruned_view() is Some,
    {
        self.pruned.is_some()
    }

    /// Intersects the bounds derived for a specification with `incoming`.
    /// An empty intersection leaves the bounds as they were and prunes the
    /// child (the first reason is kept).
    #[verifier::rlimit(40)]
    pub fn apply_specification(&mut self, name: &str, incoming: MacroSpecificationBounds) -> (effective:
        MacroResolvedCondition)
        requires
            old(self).wf(),
        ensures
            final(self).wf(),
            specification_applied(*old(self), *final(self), name@, incoming, effective),
            final(self).audit_view() == old(self).audit_view(),
    {
        let (p, found) = entry_slot(&self.specification_bounds, name);
        proof {
            lemma_slot_value(self.specification_bounds@, name@, p as int, found);
        }
        let current = if found {
            self.specification_bounds[p].1
        } else {
            MacroSpecificationBounds::unbounded()
        };
        let effective = current.intersection(incoming);
        match effective {
            Some(bounds) => {
                let ghost before = self.specification_bounds@;
                if found {
                    self.specification_bounds.set(p, (name.to_owned(), bounds));
                } else {
                    self.specification_bounds.insert(p, (name.to_owned(), bounds));
                    proof {
                        before.insert_ensures(p as int, self.specification_bounds@[p as int]);
                    }
                }
                proof {
                    lemma_put_entry(before, self.specification_bounds@, name@, p as int, found, bounds);
                }
            },
            None => {
                if self.pruned.is_none() {
                    self.pruned = Some(
                        MacroDerivationPruneReason::ConflictingSpecification { specification: name.to_owned() },
                    );
                }
            },
        }
        MacroResolvedCondition::Specification { name: name.to_owned(), bounds: effective }
    }

    /// Intersects the condition derived for a design variable with
    /// `incoming` (the first condition derived for it is taken as is). An
    /// empty intersection leaves the conditions as they were and prunes the
    /// child (the first reason is kept).
    #[verifier::rlimit(40)]
    pub fn apply_design_variable(&mut self, name: &str, incoming: MacroDesignVariableCondition) -> (effective:
        MacroResolvedCondition)
        requires
            old(self).wf(),
            view_finite(condition_view(incoming)),
        ensures
            final(self).wf(),
            design_variable_applied(*old(self), *final(self), name@, condition_view(incoming), effective),
            final(self).audit_view() == old(self).audit_view(),
    {
        let (p, found) = entry_slot(&self.design_variable_conditions, name);
        proof {
            lemma_slot_value(self.design_variable_conditions@, name@, p as int, found);
        }
        let effective = if found {
            intersect_design_conditions(&self.design_variable_conditions[p].1, &incoming)
        } else {
            Some(incoming)
        };
        let reported = match &effective {
            Some(condition) => Some(copy_condition(condition)),
            None => None,
        };
        match effective {
            Some(condition) => {
                let ghost before = self.design_variable_conditions@;
                let ghost view = condition_view(condition);
                assert(view_finite(view)) by {
                    if found {
                        lemma_intersection_finite(
                            condition_view(before[p as int].1),
                            condition_view(incoming),
                        );
                    }
                }
                if found {
                    self.design_variable_conditions.set(p, (name.to_owned(), condition));
                } else {
                    self.design_variable_conditions.insert(p, (name.to_owned(), condition));
                    proof {
                        before.insert_ensures(p as int, self.design_variable_conditions@[p as int]);
                    }
                }
                proof {
                    let after = self.design_variable_conditions@;
                    lemma_put_entry(before, after, name@, p as int, found, after[p as int].1);
                    assert forall|i: int| 0 <= i < after.len() implies view_finite(
                        condition_view(#[trigger] after[i].1),
                    ) by {
                        if i == p {
                        } else if found || i < p {
                            assert(after[i] == before[i]);
                        } else {
                            assert(after[i] == before[i - 1]);
                        }
                    }
                }
            },
            None => {
                if self.pruned.is_none() {
                    self.pruned = Some(
                        MacroDerivationPruneReason::ConflictingDesignVariable { variable: name.to_owned() },
                    );
                }
            },
        }
        MacroResolvedCondition::DesignVariable { name: name.to_owned(), condition: reported }
    }
}

/// An intersection of finite conditions is finite.
proof fn lemma_intersection_finite(left: ConditionView, right: ConditionView)
    requires
        view_finite(left),
        view_finite(right),
    ensures
        intersect_views(left, right) matches Some(view) ==> view_finite(view),
{
    match (left, right) {
        (ConditionView::AllowedValues(l), ConditionView::AllowedValues(r)) => {
            lemma_kept_finite(l, |x: u64| occurs(r, x), l.len() as int);
        },
        (ConditionView::AllowedValues(v), ConditionView::Range { minimum, maximum }) => {
            lemma_kept_finite(v, |x: u64| within(x, minimum, maximum), v.len() as int);
        },
        (ConditionView::Range { minimum, maximum }, ConditionView::AllowedValues(v)) => {
            lemma_kept_finite(v, |x: u64| within(x, minimum, maximum), v.len() as int);
        },
        _ => {},
    }
}

/// The values kept from finite values are finite.
proof fn lemma_kept_finite(values: Seq<u64>, pred: spec_fn(u64) -> bool, n: int)
    requires
        0 <= n <= values.len(),
        forall|i: int| 0 <= i < values.len() ==> finite_value(#[trigger] values[i]),
    ensures
        forall|i: int| 0 <= i < keep_values(values, pred, n).len() ==> finite_value(
            #[trigger] keep_values(values, pred, n)[i],
        ),
    decreases n,
{
    if n > 0 {
        lemma_kept_finite(values, pred, n - 1);
        let shorter = keep_values(values, pred, n - 1);
        let kept = keep_values(values, pred, n);
        assert forall|i: int| 0 <= i < kept.len() implies finite_value(#[trigger] kept[i]) by {
            if i < shorter.len() {
                assert(kept[i] == shorter[i]);
            } else {
                assert(kept[i] == values[n - 1]);
            }
        }
    }
}

// ---------------------------------------------------------------------------
// Applying derived values
// ---------------------------------------------------------------------------

/// The derived value has the shape its target needs, with finite values
/// where it restricts a design variable.
pub open spec fn derived_fits(target: MacroDerivationTarget, value: MacroDerivedValue) -> bool {
    match target {
        MacroDerivationTarget::SpecificationMinimum { .. } => value is Scalar,
        MacroDerivationTarget::SpecificationMaximum { .. } => value is Scalar,
        MacroDerivationTarget::SpecificationRange { .. } => value is Range,
        MacroDerivationTarget::DesignVariableRange { .. } => value matches MacroDerivedValue::Range {
            minimum,
            maximum,
        } && finite_value(minimum) && finite_value(maximum),
        MacroDerivationTarget::DesignVariableAllowedValues { .. } => value matches MacroDerivedValue::UniqueValues(
            values,
        ) && forall|i: int| 0 <= i < values@.len() ==> finite_value(#[trigger] values@[i]),
    }
}

/// The bounds a derived value sets on a specification: at least a minimum,
/// at most a maximum, or between the two ends of a range.
pub open spec fn derived_bounds(target: MacroDerivationTarget, value: MacroDerivedValue) -> MacroSpecificationBounds {
    match value {
        MacroDerivedValue::Scalar(v) => if target is SpecificationMinimum {
            MacroSpecificationBounds { minimum: Some(v), maximum: None }
        } else {
            MacroSpecificationBounds { minimum: None, maximum: Some(v) }
        },
        MacroDerivedValue::Range { minimum, maximum } => MacroSpecificationBounds {
            minimum: Some(minimum),
            maximum: Some(maximum),
        },
        MacroDerivedValue::UniqueValues(_) => MacroSpecificationBounds { minimum: None, maximum: None },
    }
}

/// The condition a derived value sets on a design variable: a range between
/// its two ends, or its values as the allowed ones.
pub open spec fn derived_condition(value: MacroDerivedValue) -> ConditionView {
    match value {
        MacroDerivedValue::Range { minimum, maximum } => ConditionView::Range {
            minimum: Some(minimum),
            maximum: Some(maximum),
        },
        MacroDerivedValue::UniqueValues(values) => ConditionView::AllowedValues(values@),
        MacroDerivedValue::Scalar(v) => ConditionView::Range { minimum: Some(v), maximum: Some(v) },
    }
}

/// The conditions after a derived value was applied to its target.
pub open spec fn derived_applied(
    before: ResolvedChildConditions,
    after: ResolvedChildConditions,
    target: MacroDerivationTarget,
    value: MacroDerivedValue,
    effective: MacroResolvedCondition,
) -> bool {
    if targets_specification(target) {
        specification_applied(before, after, target_name(target), derived_bounds(target, value), effective)
    } else {
        design_variable_applied(before, after, target_name(target), derived_condition(value), effective)
    }
}

/// Two targets populate the same kind of condition of the same name.
pub open spec fn same_target(a: MacroDerivationTarget, b: MacroDerivationTarget) -> bool {
    &&& target_name(a) == target_name(b)
    &&& (a is SpecificationMinimum <==> b is SpecificationMinimum)
    &&& (a is SpecificationMaximum <==> b is SpecificationMaximum)
    &&& (a is SpecificationRange <==> b is SpecificationRange)
    &&& (a is DesignVariableRange <==> b is DesignVariableRange)
}

/// Copies a target.
fn copy_target(target: &MacroDerivationTarget) -> (copy: MacroDerivationTarget)
    ensures
        same_target(copy, *target),
{
    let name = derivation_target_name(target).to_owned();
    match target {
        MacroDerivationTarget::SpecificationMinimum { .. } => MacroDerivationTarget::SpecificationMinimum {
            specification: name,
        },
        MacroDerivationTarget::SpecificationMaximum { .. } => MacroDerivationTarget::SpecificationMaximum {
            specification: name,
        },
        MacroDerivationTarget::SpecificationRange { .. } => MacroDerivationTarget::SpecificationRange {
            specification: name,
        },
        MacroDerivationTarget::DesignVariableRange { .. } => MacroDerivationTarget::DesignVariableRange {
            variable: name,
        },
        MacroDerivationTarget::DesignVariableAllowedValues { .. } => MacroDerivationTarget::DesignVariableAllowedValues {
            variable: name,
        },
    }
}

/// The distinct values of finite values are finite.
proof fn lemma_unique_finite(values: Seq<u64>, n: int)
    requires
        0 <= n <= values.len(),
        forall|i: int| 0 <= i < values.len() ==> finite_value(#[trigger] values[i]),
    ensures
        forall|i: int| 0 <= i < unique_prefix(values, n).len() ==> finite_value(#[trigger] unique_prefix(values, n)[i]),
    decreases n,
{
    if n > 0 {
        lemma_unique_finite(values, n - 1);
        let shorter = unique_prefix(values, n - 1);
        let unique = unique_prefix(values, n);
        assert forall|i: int| 0 <= i < unique.len() implies finite_value(#[trigger] unique[i]) by {
            if i < shorter.len() {
                assert(unique[i] == shorter[i]);
            } else {
                assert(unique[i] == values[n - 1]);
            }
        }
    }
}

/// A reduction of finite values gives the shape its compatible target needs.
proof fn lemma_derived_fits(
    reduction: MacroDerivationReduction,
    target: MacroDerivationTarget,
    values: Seq<u64>,
    value: MacroDerivedValue,
)
    requires
        shapes_compatible(reduction, target),
        reduction_result(reduction, values, Ok(value)),
    ensures
        derived_fits(target, value),
{
    assert(!any_below(values.len() as int, nonfinite_at(values)));
    assert forall|i: int| 0 <= i < values.len() implies finite_value(#[trigger] values[i]) by {
        if !finite_value(values[i]) {
            assert(nonfinite_at(values)(i));
        }
    }
    match value {
        MacroDerivedValue::UniqueValues(unique) => {
            lemma_unique_finite(values, values.len() as int);
        },
        _ => {},
    }
}

impl ResolvedChildConditions {
    /// Applies a value derived for a target: the bounds it sets on a
    /// specification, or the condition it sets on a design variable.
    pub fn apply_derived_condition(&mut self, target: &MacroDerivationTarget, value: &MacroDerivedValue) -> (effective:
        MacroResolvedCondition)
        requires
            old(self).wf(),
            derived_fits(*target, *value),
        ensures
            final(self).wf(),
            derived_applied(*old(self), *final(self), *target, *value, effective),
            final(self).audit_view() == old(self).audit_view(),
    {
        match target {
            MacroDerivationTarget::SpecificationMinimum { specification } => match value {
                MacroDerivedValue::Scalar(v) => self.apply_specification(
                    specification.as_str(),
                    MacroSpecificationBounds::at_least(*v),
                ),
                _ => unreached(),
            },
            MacroDerivationTarget::SpecificationMaximum { specification } => match value {
                MacroDerivedValue::Scalar(v) => self.apply_specification(
                    specification.as_str(),
                    MacroSpecificationBounds::at_most(*v),
                ),
                _ => unreached(),
            },
            MacroDerivationTarget::SpecificationRange { specification } => match value {
                MacroDerivedValue::Range { minimum, maximum } => self.apply_specification(
                    specification.as_str(),
                    MacroSpecificationBounds::between(*minimum, *maximum),
                ),
                _ => unreached(),
            },
            MacroDerivationTarget::DesignVariableRange { variable } => match value {
                MacroDerivedValue::Range { minimum, maximum } => self.apply_design_variable(
                    variable.as_str(),
                    MacroDesignVariableCondition::range(Some(*minimum), Some(*maximum)),
                ),
                _ => unreached(),
            },
            MacroDerivationTarget::DesignVariableAllowedValues { variable } => match value {
                MacroDerivedValue::UniqueValues(values) => self.apply_design_variable(
                    variable.as_str(),
                    MacroDesignVariableCondition::allowed_values(copy_values(values)),
                ),
                _ => unreached(),
            },
        }
    }

    /// Reduces the values one rule's expression took on the accepted parent
    /// rows, applies the result to the rule's target and records the step in
    /// the audit; a reduction error leaves the conditions as they were.
    pub fn record_derivation(
        &mut self,
        parent: &str,
        child_instance: &str,
        rule_index: usize,
        rule: &MacroDerivationRule,
        values: Vec<u64>,
    ) -> (result: Result<(), MacroDerivationResolutionError>)
        requires
            old(self).wf(),
            shapes_compatible(rule.reduction_view(), rule.target_view()),
        ensures
            final(self).wf(),
            match result {
                Err(error) => {
                    &&& *final(self) == *old(self)
                    &&& error matches MacroDerivationResolutionError::Reduction {
                        parent: p,
                        child_instance: c,
                        rule_index: r,
                        error: e,
                    } && p@ == parent@ && c@ == child_instance@ && r == rule_index && reduction_result(
                        rule.reduction_view(),
                        values@,
                        Err(e),
                    )
                },
                Ok(()) => {
                    let entry = final(self).audit_view().last();
                    &&& final(self).audit_view().len() == old(self).audit_view().len() + 1
                    &&& final(self).audit_view().drop_last() == old(self).audit_view()
                    &&& reduction_result(rule.reduction_view(), values@, Ok(entry.reduced_value_view()))
                    &&& entry.rule_index_view() == rule_index
                    &&& entry.child_instance_view() == child_instance@
                    &&& entry.expression_view() == rule.expression_view()
                    &&& entry.source_rows_view() == values@.len()
                    &&& entry.reduction_view() == rule.reduction_view()
                    &&& same_target(entry.target_view(), rule.target_view())
                    &&& derived_applied(
                        *old(self),
                        *final(self),
                        rule.target_view(),
                        entry.reduced_value_view(),
                        entry.effective_condition_view(),
                    )
                },
            },
    {
        let source_rows = values.len();
        let ghost source = values@;
        let reduced = match rule.reduction().reduce(values) {
            Ok(reduced) => reduced,
            Err(error) => {
                return Err(
                    MacroDerivationResolutionError::Reduction {
                        parent: parent.to_owned(),
                        child_instance: child_instance.to_owned(),
                        rule_index,
                        error,
                    },
                );
            },
        };
        proof {
            lemma_derived_fits(rule.reduction_view(), rule.target_view(), source, reduced);
        }
        let ghost before = *self;
        let effective = self.apply_derived_condition(rule.target(), &reduced);
        let ghost applied = *self;
        let entry = MacroDerivationAuditEntry {
            rule_index,
            child_instance: child_instance.to_owned(),
            expression: rule.expression().to_owned(),
            source_rows,
            reduction: rule.reduction(),
            reduced_value: reduced,
            target: copy_target(rule.target()),
            effective_condition: effective,
        };
        self.audit.push(entry);
        assert(self.audit@.drop_last() =~= before.audit@);
        assert(self.bounds_view() == applied.bounds_view());
        assert(self.conditions_view() == applied.conditions_view());
        assert(self.pruned_view() == applied.pruned_view());
        Ok(())
    }
}

// ---------------------------------------------------------------------------
// What a derivation does to the child
// ---------------------------------------------------------------------------

/// Reduced values of a successful reduction come from finite sources.
proof fn lemma_sources_finite(reduction: MacroDerivationReduction, values: Seq<u64>, value: MacroDerivedValue)
    requires
        reduction_result(reduction, values, Ok(value)),
    ensures
        values.len() > 0,
        forall|i: int| 0 <= i < values.len() ==> finite_value(#[trigger] values[i]),
{
    assert(!any_below(values.len() as int, nonfinite_at(values)));
    assert forall|i: int| 0 <= i < values.len() implies finite_value(#[trigger] values[i]) by {
        if !finite_value(values[i]) {
            assert(nonfinite_at(values)(i));
        }
    }
}

/// A range derived for a design variable that had no condition yet
/// restricts it to exactly the finite values that lie, numerically, between
/// the source values: `v` is admitted iff some source value is at most `v`
/// and some source value is at least `v`.
pub proof fn lemma_derived_range_restricts_variable(
    before: ResolvedChildConditions,
    after: ResolvedChildConditions,
    variable: String,
    values: Seq<u64>,
    value: MacroDerivedValue,
    effective: MacroResolvedCondition,
    v: u64,
)
    requires
        reduction_result(MacroDerivationReduction::Range, values, Ok(value)),
        derived_applied(before, after, MacroDerivationTarget::DesignVariableRange { variable }, value, effective),
        condition_value(before.conditions_view(), variable@) is None,
    ensures
        condition_value(after.conditions_view(), variable@) matches Some(condition) && (view_accepts(condition, v)
            <==> finite_value(v) && (exists|i: int| 0 <= i < values.len() && order_key(#[trigger] values[i]) <= order_key(v))
            && (exists|j: int| 0 <= j < values.len() && order_key(v) <= order_key(#[trigger] values[j]))),
{
    lemma_sources_finite(MacroDerivationReduction::Range, values, value);
    let (lo, hi) = match value {
        MacroDerivedValue::Range { minimum, maximum } => (minimum, maximum),
        _ => (0u64, 0u64),
    };
    assert(is_minimum(values, lo) && is_maximum(values, hi));
    let condition = condition_value(after.conditions_view(), variable@)->0;
    assert(condition == ConditionView::Range { minimum: Some(lo), maximum: Some(hi) });
    let a = choose|i: int| 0 <= i < values.len() && #[trigger] values[i] == lo;
    let b = choose|i: int| 0 <= i < values.len() && #[trigger] values[i] == hi;
    if view_accepts(condition, v) {
        assert(order_key(values[a]) <= order_key(v));
        assert(order_key(v) <= order_key(values[b]));
    }
    if finite_value(v) && (exists|i: int| 0 <= i < values.len() && order_key(#[trigger] values[i]) <= order_key(v))
        && (exists|j: int| 0 <= j < values.len() && order_key(v) <= order_key(#[trigger] values[j])) {
        let i = choose|i: int| 0 <= i < values.len() && order_key(#[trigger] values[i]) <= order_key(v);
        let j = choose|j: int| 0 <= j < values.len() && order_key(v) <= order_key(#[trigger] values[j]);
        assert(order_key(lo) <= order_key(values[i]));
        assert(order_key(values[j]) <= order_key(hi));
        assert(within(v, Some(lo), Some(hi)));
    }
}

/// A range derived for a specification that had no bounds yet bounds it on
/// both sides: below by the least source value and above by the greatest.
pub proof fn lemma_derived_range_bounds_specification(
    before: ResolvedChildConditions,
    after: ResolvedChildConditions,
    specification: String,
    values: Seq<u64>,
    value: MacroDerivedValue,
    effective: MacroResolvedCondition,
)
    requires
        reduction_result(MacroDerivationReduction::Range, values, Ok(value)),
        derived_applied(before, after, MacroDerivationTarget::SpecificationRange { specification }, value, effective),
        entry_value(before.bounds_view(), specification@) is None,
    ensures
        entry_value(after.bounds_view(), specification@) is Some,
        entry_value(after.bounds_view(), specification@)->0.minimum is Some,
        entry_value(after.bounds_view(), specification@)->0.maximum is Some,
        is_minimum(values, entry_value(after.bounds_view(), specification@)->0.minimum->0),
        is_maximum(values, entry_value(after.bounds_view(), specification@)->0.maximum->0),
        after.pruned_view() == before.pruned_view(),
{
    lemma_sources_finite(MacroDerivationReduction::Range, values, value);
    let (lo, hi) = match value {
        MacroDerivedValue::Range { minimum, maximum } => (minimum, maximum),
        _ => (0u64, 0u64),
    };
    let a = choose|i: int| 0 <= i < values.len() && #[trigger] values[i] == lo;
    let b = choose|i: int| 0 <= i < values.len() && #[trigger] values[i] == hi;
    assert(finite_value(values[a]) && finite_value(values[b]));
    assert(order_key(lo) <= order_key(values[b]));
}

/// A scalar derived as a specification minimum, on a specification that had
/// no bounds yet, bounds it below by the least (or, for a maximum reduction,
/// the greatest) source value and leaves it open above.
pub proof fn lemma_derived_minimum_bounds_specification(
    before: ResolvedChildConditions,
    after: ResolvedChildConditions,
    specification: String,
    reduction: MacroDerivationReduction,
    values: Seq<u64>,
    value: MacroDerivedValue,
    effective: MacroResolvedCondition,
)
    requires
        reduction is Minimum || reduction is Maximum,
        reduction_result(reduction, values, Ok(value)),
        derived_applied(before, after, MacroDerivationTarget::SpecificationMinimum { specification }, value, effective),
        entry_value(before.bounds_view(), specification@) is None,
    ensures
        entry_value(after.bounds_view(), specification@) is Some,
        entry_value(after.bounds_view(), specification@)->0.maximum is None,
        entry_value(after.bounds_view(), specification@)->0.minimum is Some,
        reduction is Minimum ==> is_minimum(values, entry_value(after.bounds_view(), specification@)->0.minimum->0),
        reduction is Maximum ==> is_maximum(values, entry_value(after.bounds_view(), specification@)->0.minimum->0),
        after.pruned_view() == before.pruned_view(),
{
    lemma_sources_finite(reduction, values, value);
    let s = match value {
        MacroDerivedValue::Scalar(s) => s,
        _ => 0u64,
    };
    let a = choose|i: int| 0 <= i < values.len() && #[trigger] values[i] == s;
    assert(finite_value(values[a]));
}

/// A scalar derived as a specification maximum, on a specification that had
/// no bounds yet, bounds it above by the greatest (or, for a minimum
/// reduction, the least) source value and leaves it open below.
pub proof fn lemma_derived_maximum_bounds_specification(
    before: ResolvedChildConditions,
    after: ResolvedChildConditions,
    specification: String,
    reduction: MacroDerivationReduction,
    values: Seq<u64>,
    value: MacroDerivedValue,
    effective: MacroResolvedCondition,
)
    requires
        reduction is Minimum || reduction is Maximum,
        reduction_result(reduction, values, Ok(value)),
        derived_applied(before, after, MacroDerivationTarget::SpecificationMaximum { specification }, value, effective),
        entry_value(before.bounds_view(), specification@) is None,
    ensures
        entry_value(after.bounds_view(), specification@) is Some,
        entry_value(after.bounds_view(), specification@)->0.minimum is None,
        entry_value(after.bounds_view(), specification@)->0.maximum is Some,
        reduction is Minimum ==> is_minimum(values, entry_value(after.bounds_view(), specification@)->0.maximum->0),
        reduction is Maximum ==> is_maximum(values, entry_value(after.bounds_view(), specification@)->0.maximum->0),
        after.pruned_view() == before.pruned_view(),
{
    lemma_sources_finite(reduction, values, value);
    let s = match value {
        MacroDerivedValue::Scalar(s) => s,
        _ => 0u64,
    };
    let a = choose|i: int| 0 <= i < values.len() && #[trigger] values[i] == s;
    assert(finite_value(values[a]));
}

/// `x` is one of the first `n` values.
pub open spec fn taken_from(values: Seq<u64>, n: int, x: u64) -> bool {
    exists|i: int| 0 <= i < n && #[trigger] values[i] == x
}

/// A value is listed among the distinct first `n` values iff it numerically
/// equals one of them.
proof fn lemma_unique_listed(values: Seq<u64>, n: int, v: u64)
    requires
        0 <= n <= values.len(),
        forall|i: int| 0 <= i < values.len() ==> finite_value(#[trigger] values[i]),
    ensures
        listed(unique_prefix(values, n), v) <==> exists|i: int| 0 <= i < n && order_key(#[trigger] values[i])
            == order_key(v),
        forall|k: int|
            0 <= k < unique_prefix(values, n).len() ==> taken_from(values, n, #[trigger] unique_prefix(values, n)[k]),
    decreases n,
{
    if n > 0 {
        lemma_unique_listed(values, n - 1, v);
        let before = unique_prefix(values, n - 1);
        let unique = unique_prefix(values, n);
        assert forall|k: int| 0 <= k < unique.len() implies taken_from(values, n, #[trigger] unique[k]) by {
            if k < before.len() {
                assert(unique[k] == before[k]);
                assert(taken_from(values, n - 1, before[k]));
                let i = choose|i: int| 0 <= i < n - 1 && #[trigger] values[i] == before[k];
                assert(values[i] == unique[k]);
            } else {
                assert(unique[k] == values[n - 1]);
            }
        }
        if listed(unique, v) {
            let k = choose|k: int| 0 <= k < unique.len() && finite_value(unique[k]) && order_key(#[trigger] unique[k])
                == order_key(v);
            assert(taken_from(values, n, unique[k]));
            let i = choose|i: int| 0 <= i < n && #[trigger] values[i] == unique[k];
            assert(order_key(values[i]) == order_key(v));
        }
        if exists|i: int| 0 <= i < n && order_key(#[trigger] values[i]) == order_key(v) {
            let i = choose|i: int| 0 <= i < n && order_key(#[trigger] values[i]) == order_key(v);
            if i < n - 1 {
                let k = choose|k: int| 0 <= k < before.len() && finite_value(before[k]) && order_key(
                    #[trigger] before[k],
                ) == order_key(v);
                assert(unique[k] == before[k]);
            } else if occurs(before, values[n - 1]) {
                let k = choose|k: int| 0 <= k < before.len() && order_key(#[trigger] before[k]) == order_key(
                    values[n - 1],
                );
                assert(taken_from(values, n - 1, before[k]));
                let j = choose|j: int| 0 <= j < n - 1 && #[trigger] values[j] == before[k];
                assert(finite_value(before[k]));
                assert(unique[k] == before[k]);
            } else {
                assert(unique[before.len() as int] == values[n - 1]);
            }
            assert(listed(unique, v));
        }
    }
}

/// Distinct values derived as the allowed values of a design variable that
/// had no condition yet admit exactly the finite values numerically equal to
/// a source value.
pub proof fn lemma_derived_values_restrict_variable(
    before: ResolvedChildConditions,
    after: ResolvedChildConditions,
    variable: String,
    values: Seq<u64>,
    value: MacroDerivedValue,
    effective: MacroResolvedCondition,
    v: u64,
)
    requires
        reduction_result(MacroDerivationReduction::UniqueValues, values, Ok(value)),
        derived_applied(
            before,
            after,
            MacroDerivationTarget::DesignVariableAllowedValues { variable },
            value,
            effective,
        ),
        condition_value(before.conditions_view(), variable@) is None,
    ensures
        condition_value(after.conditions_view(), variable@) matches Some(condition) && (view_accepts(condition, v)
            <==> finite_value(v) && exists|i: int| 0 <= i < values.len() && order_key(#[trigger] values[i])
            == order_key(v)),
{
    lemma_sources_finite(MacroDerivationReduction::UniqueValues, values, value);
    lemma_unique_listed(values, values.len() as int, v);
}

/// `v` lies, numerically, between two of the source values.
pub open spec fn between_sources(values: Seq<u64>, v: u64) -> bool {
    &&& exists|i: int| 0 <= i < values.len() && order_key(#[trigger] values[i]) <= order_key(v)
    &&& exists|j: int| 0 <= j < values.len() && order_key(v) <= order_key(#[trigger] values[j])
}

/// A range derived for a design variable that already had a condition
/// narrows it: afterwards the condition admits a finite `v` iff the earlier
/// one did and `v` lies between the source values; when no finite value
/// satisfies both, the condition is kept and the child is pruned.
pub proof fn lemma_derived_range_narrows_variable(
    before: ResolvedChildConditions,
    after: ResolvedChildConditions,
    variable: String,
    values: Seq<u64>,
    value: MacroDerivedValue,
    effective: MacroResolvedCondition,
    current: ConditionView,
    v: u64,
)
    requires
        before.wf(),
        reduction_result(MacroDerivationReduction::Range, values, Ok(value)),
        derived_applied(before, after, MacroDerivationTarget::DesignVariableRange { variable }, value, effective),
        condition_value(before.conditions_view(), variable@) == Some(current),
        finite_value(v),
    ensures
        (condition_value(after.conditions_view(), variable@) matches Some(condition) && (view_accepts(condition, v)
            <==> view_accepts(current, v) && between_sources(values, v)))
            || (after.pruned_view() is Some && condition_value(after.conditions_view(), variable@) == Some(current)
            && !(view_accepts(current, v) && between_sources(values, v))),
{
    lemma_sources_finite(MacroDerivationReduction::Range, values, value);
    let (lo, hi) = match value {
        MacroDerivedValue::Range { minimum, maximum } => (minimum, maximum),
        _ => (0u64, 0u64),
    };
    let incoming = ConditionView::Range { minimum: Some(lo), maximum: Some(hi) };
    let a = choose|i: int| 0 <= i < values.len() && #[trigger] values[i] == lo;
    let b = choose|i: int| 0 <= i < values.len() && #[trigger] values[i] == hi;
    assert(finite_value(values[a]) && finite_value(values[b]));
    assert(view_finite(incoming));
    lemma_entry_values(before.conditions_view(), variable@);
    let k = choose|k: int|
        0 <= k < before.conditions_view().len() && before.conditions_view()[k].0@ == variable@ && before.conditions_view()[k].1
            == entry_value(before.conditions_view(), variable@)->0;
    assert(view_finite(condition_view(before.conditions_view()[k].1)));
    assert(view_finite(current));
    law_condition_intersection_accepts_what_both_accept(current, incoming, v);
    assert(view_accepts(incoming, v) <==> between_sources(values, v)) by {
        if view_accepts(incoming, v) {
            assert(order_key(values[a]) <= order_key(v));
            assert(order_key(v) <= order_key(values[b]));
        }
        if between_sources(values, v) {
            let i = choose|i: int| 0 <= i < values.len() && order_key(#[trigger] values[i]) <= order_key(v);
            let j = choose|j: int| 0 <= j < values.len() && order_key(v) <= order_key(#[trigger] values[j]);
            assert(order_key(lo) <= order_key(values[i]));
            assert(order_key(values[j]) <= order_key(hi));
        }
    }
}

/// A range derived for a specification that already had bounds narrows
/// them: afterwards a finite `x` lies inside the bounds iff it lay inside the
/// earlier ones and between the source values; when no finite value
/// satisfies both, the bounds are kept and the child is pruned.
pub proof fn lemma_derived_range_narrows_specification(
    before: ResolvedChildConditions,
    after: ResolvedChildConditions,
    specification: String,
    values: Seq<u64>,
    value: MacroDerivedValue,
    effective: MacroResolvedCondition,
    current: MacroSpecificationBounds,
    x: u64,
)
    requires
        reduction_result(MacroDerivationReduction::Range, values, Ok(value)),
        derived_applied(before, after, MacroDerivationTarget::SpecificationRange { specification }, value, effective),
        entry_value(before.bounds_view(), specification@) == Some(current),
        bounds_valid(current),
        finite_value(x),
    ensures
        (entry_value(after.bounds_view(), specification@) matches Some(bounds) && (within(
            x,
            bounds.minimum,
            bounds.maximum,
        ) <==> within(x, current.minimum, current.maximum) && between_sources(values, x)))
            || (after.pruned_view() is Some && entry_value(after.bounds_view(), specification@) == Some(current)
            && !(within(x, current.minimum, current.maximum) && between_sources(values, x))),
{
    lemma_sources_finite(MacroDerivationReduction::Range, values, value);
    let (lo, hi) = match value {
        MacroDerivedValue::Range { minimum, maximum } => (minimum, maximum),
        _ => (0u64, 0u64),
    };
    let incoming = MacroSpecificationBounds { minimum: Some(lo), maximum: Some(hi) };
    let a = choose|i: int| 0 <= i < values.len() && #[trigger] values[i] == lo;
    let b = choose|i: int| 0 <= i < values.len() && #[trigger] values[i] == hi;
    assert(finite_value(values[a]) && finite_value(values[b]));
    assert(order_key(lo) <= order_key(values[b]));
    assert(bounds_valid(incoming));
    law_bounds_intersection_accepts_what_both_accept(current, incoming, x);
    assert(within(x, incoming.minimum, incoming.maximum) <==> between_sources(values, x)) by {
        if within(x, incoming.minimum, incoming.maximum) {
            assert(order_key(values[a]) <= order_key(x));
            assert(order_key(x) <= order_key(values[b]));
        }
        if between_sources(values, x) {
            let i = choose|i: int| 0 <= i < values.len() && order_key(#[trigger] values[i]) <= order_key(x);
            let j = choose|j: int| 0 <= j < values.len() && order_key(x) <= order_key(#[trigger] values[j]);
            assert(order_key(lo) <= order_key(values[i]));
            assert(order_key(values[j]) <= order_key(hi));
        }
    }
}

} // verus!
