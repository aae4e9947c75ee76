//! Checks of derivation rules against the shape of their targets.
use vstd::prelude::*;

use crate::circuit::{instance_index, lemma_instance_index, BlockRef};
use crate::macro_model::catalog::{lemma_macro_index, macro_index, MacroCatalog};
use crate::macro_model::model::{
    specification_names, variable_names, first_named, Macro, MacroDerivationReduction,
    MacroDerivationRule, MacroDerivationTarget,
};
use crate::primitive::PrimitiveBuildInputKind;
use crate::text::{append_decimal, decimal};

verus! {

/// A reduction produces the shape its target needs: a scalar for a
/// specification minimum or maximum, a range for a specification range or a
/// design-variable range, distinct values for allowed values.
pub open spec fn shapes_compatible(reduction: MacroDerivationReduction, target: MacroDerivationTarget) -> bool {
    match reduction {
        MacroDerivationReduction::Minimum | MacroDerivationReduction::Maximum => target is SpecificationMinimum
            || target is SpecificationMaximum,
        MacroDerivationReduction::Range => target is SpecificationRange || target is DesignVariableRange,
        MacroDerivationReduction::UniqueValues => target is DesignVariableAllowedValues,
    }
}

/// Returns whether a reduction produces the shape its target needs.
pub fn derivation_shapes_are_compatible(reduction: MacroDerivationReduction, target: &MacroDerivationTarget) -> (compatible: bool)
    ensures
        compatible == shapes_compatible(reduction, *target),
{
    match reduction {
        MacroDerivationReduction::Minimum | MacroDerivationReduction::Maximum => match target {
            MacroDerivationTarget::SpecificationMinimum { .. } | MacroDerivationTarget::SpecificationMaximum {
                ..
            } => true,
            _ => false,
        },
        MacroDerivationReduction::Range => match target {
            MacroDerivationTarget::SpecificationRange { .. } | MacroDerivationTarget::DesignVariableRange {
                ..
            } => true,
            _ => false,
        },
        MacroDerivationReduction::UniqueValues => match target {
            MacroDerivationTarget::DesignVariableAllowedValues { .. } => true,
            _ => false,
        },
    }
}

/// The name of the specification or design variable a target populates.
pub open spec fn target_name(target: MacroDerivationTarget) -> Seq<char> {
    match target {
        MacroDerivationTarget::SpecificationMinimum { specification } => specification@,
        MacroDerivationTarget::SpecificationMaximum { specification } => specification@,
        MacroDerivationTarget::SpecificationRange { specification } => specification@,
        MacroDerivationTarget::DesignVariableRange { variable } => variable@,
        MacroDerivationTarget::DesignVariableAllowedValues { variable } => variable@,
    }
}

/// Returns the name of the specification or design variable a target
/// populates.
pub fn derivation_target_name(target: &MacroDerivationTarget) -> (name: &str)
    ensures
        name@ == target_name(*target),
{
    match target {
        MacroDerivationTarget::SpecificationMinimum { specification } => specification.as_str(),
        MacroDerivationTarget::SpecificationMaximum { specification } => specification.as_str(),
        MacroDerivationTarget::SpecificationRange { specification } => specification.as_str(),
        MacroDerivationTarget::DesignVariableRange { variable } => variable.as_str(),
        MacroDerivationTarget::DesignVariableAllowedValues { variable } => variable.as_str(),
    }
}

/// One invalid primitive default, public design variable or derivation rule
/// of a macro definition.
#[derive(Clone, Debug, PartialEq, Eq)]
pub enum MacroExplorationDefinitionError {
    EmptyPrimitiveDefaultInstance { index: usize },
    DuplicatePrimitiveDefault { instance_path: String },
    UnknownPrimitiveDefaultInstance { instance_path: String },
    PrimitiveDefaultTargetsNonPrimitive { instance_path: String },
    UnknownPrimitiveDefaultInput { instance_path: String, input: String },
    PrimitiveDefaultInputKindMismatch {
        instance_path: String,
        input: String,
        expected: PrimitiveBuildInputKind,
        actual: PrimitiveBuildInputKind,
    },
    NonFinitePrimitiveDefaultInput { instance_path: String, input: String },
    EmptyDesignVariable { index: usize },
    DuplicateDesignVariable { variable: String },
    EmptyDesignVariableBindings { variable: String },
    EmptyDesignVariableBinding { variable: String, binding_index: usize, field: &'static str },
    DuplicateDesignVariableBinding { instance_path: String, input: String },
    UnknownDesignVariableInstance { variable: String, instance_path: String },
    DesignVariableTargetsNonPrimitive { variable: String, instance_path: String },
    UnknownDesignVariableInput { variable: String, instance_path: String, input: String },
    DesignVariableInputKindMismatch {
        variable: String,
        instance_path: String,
        input: String,
        expected: PrimitiveBuildInputKind,
        actual: PrimitiveBuildInputKind,
    },
    EmptyPublicInputAlias { alias_index: usize, field: &'static str },
    DuplicatePublicInputAlias { child_instance: String, child_variable: String },
    UnknownPublicInputAliasVariable { variable: String },
    UnknownPublicInputAliasInstance { child_instance: String },
    PublicInputAliasTargetsNonMacro { child_instance: String },
    UnknownPublicInputAliasChildMacro { child_macro: String },
    UnknownPublicInputAliasChildVariable { child_macro: String, variable: String },
    PublicInputAliasKindMismatch { variable: String, child_macro: String, child_variable: String },
    PublicInputAliasMissingParentNetBinding {
        variable: String,
        child_instance: String,
        interface_port: String,
        net: String,
    },
    UnknownPublicInputAliasPort { child_macro: String, port: String },
    EmptyDerivationChild { rule_index: usize },
    EmptyDerivationExpression { rule_index: usize },
    InvalidDerivationExpression { rule_index: usize, reason: String },
    UnknownDerivationChild { rule_index: usize, child_instance: String },
    DerivationTargetsNonMacro { rule_index: usize, child_instance: String },
    EmptyDerivationTarget { rule_index: usize },
    IncompatibleDerivationTarget { rule_index: usize },
    UnknownDerivationChildMacro { rule_index: usize, child_macro: String },
    UnknownDerivedSpecification { rule_index: usize, child_macro: String, specification: String },
    UnknownDerivedDesignVariable { rule_index: usize, child_macro: String, variable: String },
}

impl MacroExplorationDefinitionError {
    /// The message of the error.
    pub open spec fn message(&self) -> Seq<char> {
        match self {
            MacroExplorationDefinitionError::EmptyPrimitiveDefaultInstance { index } => "primitive default at index "@ + decimal(*index as nat) + " has an empty instance path"@,
            MacroExplorationDefinitionError::DuplicatePrimitiveDefault { instance_path } => "primitive instance '"@ + instance_path@ + "' has more than one default"@,
            MacroExplorationDefinitionError::UnknownPrimitiveDefaultInstance { instance_path } => "primitive default references unknown instance '"@ + instance_path@ + "'"@,
            MacroExplorationDefinitionError::PrimitiveDefaultTargetsNonPrimitive { instance_path } => "default target '"@ + instance_path@ + "' is not a primitive instance"@,
            MacroExplorationDefinitionError::UnknownPrimitiveDefaultInput { instance_path, input } => "primitive default for '"@ + instance_path@ + "' references unknown input '"@ + input@ + "'"@,
            MacroExplorationDefinitionError::PrimitiveDefaultInputKindMismatch { instance_path, input, expected, actual } => "primitive default for '"@ + instance_path@ + "."@ + input@ + "' expects "@ + expected.message() + ", found "@ + actual.message(),
            MacroExplorationDefinitionError::NonFinitePrimitiveDefaultInput { instance_path, input } => "primitive default for '"@ + instance_path@ + "."@ + input@ + "' contains a non-finite value"@,
            MacroExplorationDefinitionError::EmptyDesignVariable { index } => "design variable at index "@ + decimal(*index as nat) + " has an empty name"@,
            MacroExplorationDefinitionError::DuplicateDesignVariable { variable } => "design variable '"@ + variable@ + "' is declared more than once"@,
            MacroExplorationDefinitionError::EmptyDesignVariableBindings { variable } => "design variable '"@ + variable@ + "' has no bindings"@,
            MacroExplorationDefinitionError::EmptyDesignVariableBinding { variable, binding_index, field } => "design variable '"@ + variable@ + "' binding "@ + decimal(*binding_index as nat) + " has an empty "@ + field@,
            MacroExplorationDefinitionError::DuplicateDesignVariableBinding { instance_path, input } => "primitive input '"@ + instance_path@ + "."@ + input@ + "' is bound by more than one design variable"@,
            MacroExplorationDefinitionError::UnknownDesignVariableInstance { variable, instance_path } => "design variable '"@ + variable@ + "' references unknown instance '"@ + instance_path@ + "'"@,
            MacroExplorationDefinitionError::DesignVariableTargetsNonPrimitive { variable, instance_path } => "design variable '"@ + variable@ + "' target '"@ + instance_path@ + "' is not a primitive instance"@,
            MacroExplorationDefinitionError::UnknownDesignVariableInput { variable, instance_path, input } => "design variable '"@ + variable@ + "' references unknown input '"@ + instance_path@ + "."@ + input@ + "'"@,
            MacroExplorationDefinitionError::DesignVariableInputKindMismatch { variable, instance_path, input, expected, actual } => "design variable '"@ + variable@ + "' declares "@ + actual.message() + ", but '"@ + instance_path@ + "."@ + input@ + "' expects "@ + expected.message(),
            MacroExplorationDefinitionError::EmptyPublicInputAlias { alias_index, field } => "public input alias "@ + decimal(*alias_index as nat) + " has an empty "@ + field@,
            MacroExplorationDefinitionError::DuplicatePublicInputAlias { child_instance, child_variable } => "child input alias '"@ + child_instance@ + "."@ + child_variable@ + "' is declared more than once"@,
            MacroExplorationDefinitionError::UnknownPublicInputAliasVariable { variable } => "public input alias references unknown parent variable '"@ + variable@ + "'"@,
            MacroExplorationDefinitionError::UnknownPublicInputAliasInstance { child_instance } => "public input alias references unknown child instance '"@ + child_instance@ + "'"@,
            MacroExplorationDefinitionError::PublicInputAliasTargetsNonMacro { child_instance } => "public input alias target '"@ + child_instance@ + "' is not a macro instance"@,
            MacroExplorationDefinitionError::UnknownPublicInputAliasChildMacro { child_macro } => "public input alias references unregistered child macro '"@ + child_macro@ + "'"@,
            MacroExplorationDefinitionError::UnknownPublicInputAliasChildVariable { child_macro, variable } => "public input alias references unknown variable '"@ + variable@ + "' in child macro '"@ + child_macro@ + "'"@,
            MacroExplorationDefinitionError::PublicInputAliasKindMismatch { variable, child_macro, child_variable } => "parent variable '"@ + variable@ + "' is incompatible with '"@ + child_macro@ + "."@ + child_variable@ + "'"@,
            MacroExplorationDefinitionError::PublicInputAliasMissingParentNetBinding { variable, child_instance, interface_port, net } => "parent variable '"@ + variable@ + "' has no binding on net '"@ + net@ + "' connected to '"@ + child_instance@ + "."@ + interface_port@ + "'"@,
            MacroExplorationDefinitionError::UnknownPublicInputAliasPort { child_macro, port } => "public input alias references unprojected interface port '"@ + port@ + "' in child macro '"@ + child_macro@ + "'"@,
            MacroExplorationDefinitionError::EmptyDerivationChild { rule_index } => "derivation rule "@ + decimal(*rule_index as nat) + " has an empty child instance"@,
            MacroExplorationDefinitionError::EmptyDerivationExpression { rule_index } => "derivation rule "@ + decimal(*rule_index as nat) + " has an empty expression"@,
            MacroExplorationDefinitionError::InvalidDerivationExpression { rule_index, reason } => "derivation rule "@ + decimal(*rule_index as nat) + " has an invalid expression: "@ + reason@,
            MacroExplorationDefinitionError::UnknownDerivationChild { rule_index, child_instance } => "derivation rule "@ + decimal(*rule_index as nat) + " references unknown child instance '"@ + child_instance@ + "'"@,
            MacroExplorationDefinitionError::DerivationTargetsNonMacro { rule_index, child_instance } => "derivation rule "@ + decimal(*rule_index as nat) + " target '"@ + child_instance@ + "' is not a macro instance"@,
            MacroExplorationDefinitionError::EmptyDerivationTarget { rule_index } => "derivation rule "@ + decimal(*rule_index as nat) + " has an empty target name"@,
            MacroExplorationDefinitionError::IncompatibleDerivationTarget { rule_index } => "derivation rule "@ + decimal(*rule_index as nat) + " reduction is incompatible with its target"@,
            MacroExplorationDefinitionError::UnknownDerivationChildMacro { rule_index, child_macro } => "derivation rule "@ + decimal(*rule_index as nat) + " references unregistered child macro '"@ + child_macro@ + "'"@,
            MacroExplorationDefinitionError::UnknownDerivedSpecification { rule_index, child_macro, specification } => "derivation rule "@ + decimal(*rule_index as nat) + " targets unknown specification '"@ + specification@ + "' in child macro '"@ + child_macro@ + "'"@,
            MacroExplorationDefinitionError::UnknownDerivedDesignVariable { rule_index, child_macro, variable } => "derivation rule "@ + decimal(*rule_index as nat) + " targets unknown design variable '"@ + variable@ + "' in child macro '"@ + child_macro@ + "'"@,
        }
    }

    /// Returns the message of the error.
    pub fn to_string(&self) -> (text: String)
        ensures
            text@ == self.message(),
    {
        match self {
            MacroExplorationDefinitionError::EmptyPrimitiveDefaultInstance { index } => {
                let mut text = String::from_str("primitive default at index ");
                append_decimal(&mut text, *index);
                text.append(" has an empty instance path");
                text
            },
            MacroExplorationDefinitionError::DuplicatePrimitiveDefault { instance_path } => {
                let mut text = String::from_str("primitive instance '");
                text.append(instance_path.as_str());
                text.append("' has more than one default");
                text
            },
            MacroExplorationDefinitionError::UnknownPrimitiveDefaultInstance { instance_path } => {
                let mut text = String::from_str("primitive default references unknown instance '");
                text.append(instance_path.as_str());
                text.append("'");
                text
            },
            MacroExplorationDefinitionError::PrimitiveDefaultTargetsNonPrimitive { instance_path } => {
                let mut text = String::from_str("default target '");
                text.append(instance_path.as_str());
                text.append("' is not a primitive instance");
                text
            },
            MacroExplorationDefinitionError::UnknownPrimitiveDefaultInput { instance_path, input } => {
                let mut text = String::from_str("primitive default for '");
                text.append(instance_path.as_str());
                text.append("' references unknown input '");
                text.append(input.as_str());
                text.append("'");
                text
            },
            MacroExplorationDefinitionError::PrimitiveDefaultInputKindMismatch { instance_path, input, expected, actual } => {
                let mut text = String::from_str("primitive default for '");
                text.append(instance_path.as_str());
                text.append(".");
                text.append(input.as_str());
                text.append("' expects ");
                let kind = expected.to_string();
                text.append(kind.as_str());
                text.append(", found ");
                let kind = actual.to_string();
                text.append(kind.as_str());
                text
            },
            MacroExplorationDefinitionError::NonFinitePrimitiveDefaultInput { instance_path, input } => {
                let mut text = String::from_str("primitive default for '");
                text.append(instance_path.as_str());
                text.append(".");
                text.append(input.as_str());
                text.append("' contains a non-finite value");
                text
            },
            MacroExplorationDefinitionError::EmptyDesignVariable { index } => {
                let mut text = String::from_str("design variable at index ");
                append_decimal(&mut text, *index);
                text.append(" has an empty name");
                text
            },
            MacroExplorationDefinitionError::DuplicateDesignVariable { variable } => {
                let mut text = String::from_str("design variable '");
                text.append(variable.as_str());
                text.append("' is declared more than once");
                text
            },
            MacroExplorationDefinitionError::EmptyDesignVariableBindings { variable } => {
                let mut text = String::from_str("design variable '");
                text.append(variable.as_str());
                text.append("' has no bindings");
                text
            },
            MacroExplorationDefinitionError::EmptyDesignVariableBinding { variable, binding_index, field } => {
                let mut text = String::from_str("design variable '");
                text.append(variable.as_str());
                text.append("' binding ");
                append_decimal(&mut text, *binding_index);
                text.append(" has an empty ");
                text.append(*field);
                text
            },
            MacroExplorationDefinitionError::DuplicateDesignVariableBinding { instance_path, input } => {
                let mut text = String::from_str("primitive input '");
                text.append(instance_path.as_str());
                text.append(".");
                text.append(input.as_str());
                text.append("' is bound by more than one design variable");
                text
            },
            MacroExplorationDefinitionError::UnknownDesignVariableInstance { variable, instance_path } => {
                let mut text = String::from_str("design variable '");
                text.append(variable.as_str());
                text.append("' references unknown instance '");
                text.append(instance_path.as_str());
                text.append("'");
                text
            },
            MacroExplorationDefinitionError::DesignVariableTargetsNonPrimitive { variable, instance_path } => {
                let mut text = String::from_str("design variable '");
                text.append(variable.as_str());
                text.append("' target '");
                text.append(instance_path.as_str());
                text.append("' is not a primitive instance");
                text
            },
            MacroExplorationDefinitionError::UnknownDesignVariableInput { variable, instance_path, input } => {
                let mut text = String::from_str("design variable '");
                text.append(variable.as_str());
                text.append("' references unknown input '");
                text.append(instance_path.as_str());
                text.append(".");
                text.append(input.as_str());
                text.append("'");
                text
            },
            MacroExplorationDefinitionError::DesignVariableInputKindMismatch { variable, instance_path, input, expected, actual } => {
                let mut text = String::from_str("design variable '");
                text.append(variable.as_str());
                text.append("' declares ");
                let kind = actual.to_string();
                text.append(kind.as_str());
                text.append(", but '");
                text.append(instance_path.as_str());
                text.append(".");
                text.append(input.as_str());
                text.append("' expects ");
                let kind = expected.to_string();
                text.append(kind.as_str());
                text
            },
            MacroExplorationDefinitionError::EmptyPublicInputAlias { alias_index, field } => {
                let mut text = String::from_str("public input alias ");
                append_decimal(&mut text, *alias_index);
                text.append(" has an empty ");
                text.append(*field);
                text
            },
            MacroExplorationDefinitionError::DuplicatePublicInputAlias { child_instance, child_variable } => {
                let mut text = String::from_str("child input alias '");
                text.append(child_instance.as_str());
                text.append(".");
                text.append(child_variable.as_str());
                text.append("' is declared more than once");
                text
            },
            MacroExplorationDefinitionError::UnknownPublicInputAliasVariable { variable } => {
                let mut text = String::from_str("public input alias references unknown parent variable '");
                text.append(variable.as_str());
                text.append("'");
                text
            },
            MacroExplorationDefinitionError::UnknownPublicInputAliasInstance { child_instance } => {
                let mut text = String::from_str("public input alias references unknown child instance '");
                text.append(child_instance.as_str());
                text.append("'");
                text
            },
            MacroExplorationDefinitionError::PublicInputAliasTargetsNonMacro { child_instance } => {
                let mut text = String::from_str("public input alias target '");
                text.append(child_instance.as_str());
                text.append("' is not a macro instance");
                text
            },
            MacroExplorationDefinitionError::UnknownPublicInputAliasChildMacro { child_macro } => {
                let mut text = String::from_str("public input alias references unregistered child macro '");
                text.append(child_macro.as_str());
                text.append("'");
                text
            },
            MacroExplorationDefinitionError::UnknownPublicInputAliasChildVariable { child_macro, variable } => {
                let mut text = String::from_str("public input alias references unknown variable '");
                text.append(variable.as_str());
                text.append("' in child macro '");
                text.append(child_macro.as_str());
                text.append("'");
                text
            },
            MacroExplorationDefinitionError::PublicInputAliasKindMismatch { variable, child_macro, child_variable } => {
                let mut text = String::from_str("parent variable '");
                text.append(variable.as_str());
                text.append("' is incompatible with '");
                text.append(child_macro.as_str());
                text.append(".");
                text.append(child_variable.as_str());
                text.append("'");
                text
            },
            MacroExplorationDefinitionError::PublicInputAliasMissingParentNetBinding { variable, child_instance, interface_port, net } => {
                let mut text = String::from_str("parent variable '");
                text.append(variable.as_str());
                text.append("' has no binding on net '");
                text.append(net.as_str());
                text.append("' connected to '");
                text.append(child_instance.as_str());
                text.append(".");
                text.append(interface_port.as_str());
                text.append("'");
                text
            },
            MacroExplorationDefinitionError::UnknownPublicInputAliasPort { child_macro, port } => {
                let mut text = String::from_str("public input alias references unprojected interface port '");
                text.append(port.as_str());
                text.append("' in child macro '");
                text.append(child_macro.as_str());
                text.append("'");
                text
            },
            MacroExplorationDefinitionError::EmptyDerivationChild { rule_index } => {
                let mut text = String::from_str("derivation rule ");
                append_decimal(&mut text, *rule_index);
                text.append(" has an empty child instance");
                text
            },
            MacroExplorationDefinitionError::EmptyDerivationExpression { rule_index } => {
                let mut text = String::from_str("derivation rule ");
                append_decimal(&mut text, *rule_index);
                text.append(" has an empty expression");
                text
            },
            MacroExplorationDefinitionError::InvalidDerivationExpression { rule_index, reason } => {
                let mut text = String::from_str("derivation rule ");
                append_decimal(&mut text, *rule_index);
                text.append(" has an invalid expression: ");
                text.append(reason.as_str());
                text
            },
            MacroExplorationDefinitionError::UnknownDerivationChild { rule_index, child_instance } => {
                let mut text = String::from_str("derivation rule ");
                append_decimal(&mut text, *rule_index);
                text.append(" references unknown child instance '");
                text.append(child_instance.as_str());
                text.append("'");
                text
            },
            MacroExplorationDefinitionError::DerivationTargetsNonMacro { rule_index, child_instance } => {
                let mut text = String::from_str("derivation rule ");
                append_decimal(&mut text, *rule_index);
                text.append(" target '");
                text.append(child_instance.as_str());
                text.append("' is not a macro instance");
                text
            },
            MacroExplorationDefinitionError::EmptyDerivationTarget { rule_index } => {
                let mut text = String::from_str("derivation rule ");
                append_decimal(&mut text, *rule_index);
                text.append(" has an empty target name");
                text
            },
            MacroExplorationDefinitionError::IncompatibleDerivationTarget { rule_index } => {
                let mut text = String::from_str("derivation rule ");
                append_decimal(&mut text, *rule_index);
                text.append(" reduction is incompatible with its target");
                text
            },
            MacroExplorationDefinitionError::UnknownDerivationChildMacro { rule_index, child_macro } => {
                let mut text = String::from_str("derivation rule ");
                append_decimal(&mut text, *rule_index);
                text.append(" references unregistered child macro '");
                text.append(child_macro.as_str());
                text.append("'");
                text
            },
            MacroExplorationDefinitionError::UnknownDerivedSpecification { rule_index, child_macro, specification } => {
                let mut text = String::from_str("derivation rule ");
                append_decimal(&mut text, *rule_index);
                text.append(" targets unknown specification '");
                text.append(specification.as_str());
                text.append("' in child macro '");
                text.append(child_macro.as_str());
                text.append("'");
                text
            },
            MacroExplorationDefinitionError::UnknownDerivedDesignVariable { rule_index, child_macro, variable } => {
                let mut text = String::from_str("derivation rule ");
                append_decimal(&mut text, *rule_index);
                text.append(" targets unknown design variable '");
                text.append(variable.as_str());
                text.append("' in child macro '");
                text.append(child_macro.as_str());
                text.append("'");
                text
            },
        }
    }
}

/// A derivation rule whose target a child macro does not declare, as plain
/// values.
pub enum DerivationTargetFault {
    UnknownChildMacro { rule_index: int, child_macro: Seq<char> },
    UnknownSpecification { rule_index: int, child_macro: Seq<char>, specification: Seq<char> },
    UnknownDesignVariable { rule_index: int, child_macro: Seq<char>, variable: Seq<char> },
}

impl MacroExplorationDefinitionError {
    /// The derivation-target refusal this error reports, if it is one.
    pub open spec fn target_fault(self) -> Option<DerivationTargetFault> {
        match self {
            MacroExplorationDefinitionError::UnknownDerivationChildMacro { rule_index, child_macro } => Some(
                DerivationTargetFault::UnknownChildMacro { rule_index: rule_index as int, child_macro: child_macro@ },
            ),
            MacroExplorationDefinitionError::UnknownDerivedSpecification {
                rule_index,
                child_macro,
                specification,
            } => Some(
                DerivationTargetFault::UnknownSpecification {
                    rule_index: rule_index as int,
                    child_macro: child_macro@,
                    specification: specification@,
                },
            ),
            MacroExplorationDefinitionError::UnknownDerivedDesignVariable { rule_index, child_macro, variable } =>
                Some(
                DerivationTargetFault::UnknownDesignVariable {
                    rule_index: rule_index as int,
                    child_macro: child_macro@,
                    variable: variable@,
                },
            ),
            _ => None,
        }
    }
}

/// The target is a specification bound.
pub open spec fn targets_specification(target: MacroDerivationTarget) -> bool {
    target is SpecificationMinimum || target is SpecificationMaximum || target is SpecificationRange
}

/// What is wrong with the target of rule `rule_index`, when the rule names a
/// macro instance of the parent: the child macro is not in the catalog, or it
/// declares no specification or design variable of the target's name. Rules
/// whose instance is missing or not a macro are left to the definition checks.
pub open spec fn rule_target_fault(
    parent: Macro,
    macros: Seq<Macro>,
    rule_index: int,
    rule: MacroDerivationRule,
) -> Option<DerivationTargetFault> {
    let instances = parent.circuit_view().instances_view();
    match instance_index(instances, rule.child_instance_view()) {
        None => None,
        Some(i) => match instances[i].block_view() {
            BlockRef::Macro(child_name) => match macro_index(macros, child_name@) {
                None => Some(DerivationTargetFault::UnknownChildMacro { rule_index, child_macro: child_name@ }),
                Some(c) => {
                    let child = macros[c].exploration_view();
                    let target = rule.target_view();
                    let name = target_name(target);
                    if targets_specification(target) {
                        if first_named(specification_names(child.specifications_view()), name) is None {
                            Some(
                                DerivationTargetFault::UnknownSpecification {
                                    rule_index,
                                    child_macro: child_name@,
                                    specification: name,
                                },
                            )
                        } else {
                            None
                        }
                    } else if first_named(variable_names(child.design_variables_view()), name) is None {
                        Some(
                            DerivationTargetFault::UnknownDesignVariable {
                                rule_index,
                                child_macro: child_name@,
                                variable: name,
                            },
                        )
                    } else {
                        None
                    }
                },
            },
            _ => None,
        },
    }
}

/// The target faults of the first `n` derivation rules, in rule order.
pub open spec fn derivation_target_faults(parent: Macro, macros: Seq<Macro>, n: int) -> Seq<DerivationTargetFault>
    decreases n,
{
    if n <= 0 {
        Seq::empty()
    } else {
        let earlier = derivation_target_faults(parent, macros, n - 1);
        let rules = parent.exploration_view().derivation_rules_view();
        match rule_target_fault(parent, macros, n - 1, rules[n - 1]) {
            Some(fault) => earlier.push(fault),
            None => earlier,
        }
    }
}

/// The errors report the faults, one for one and in order.
pub open spec fn reports_target_faults(
    errors: Seq<MacroExplorationDefinitionError>,
    faults: Seq<DerivationTargetFault>,
) -> bool {
    errors.len() == faults.len() && forall|i: int|
        0 <= i < errors.len() ==> (#[trigger] errors[i]).target_fault() == Some(faults[i])
}

/// Resolves derivation targets against the definitions of direct child
/// macros: one error per rule whose child macro is not registered or lacks
/// the targeted specification or design variable, in rule order.
pub fn validate_macro_derivation_targets(
    macro_: &Macro,
    macro_catalog: &MacroCatalog,
) -> (errors: Vec<MacroExplorationDefinitionError>)
    ensures
        reports_target_faults(
            errors@,
            derivation_target_faults(
                *macro_,
                macro_catalog.macros_view(),
                macro_.exploration_view().derivation_rules_view().len() as int,
            ),
        ),
{
    let ghost macros = macro_catalog.macros_view();
    let rules = macro_.exploration().derivation_rules();
    let n = rules.len();
    let mut errors: Vec<MacroExplorationDefinitionError> = Vec::new();
    let mut rule_index: usize = 0;
    while rule_index < n
        invariant
            n == rules@.len(),
            rules@ == macro_.exploration_view().derivation_rules_view(),
            macros == macro_catalog.macros_view(),
            rule_index <= n,
            reports_target_faults(errors@, derivation_target_faults(*macro_, macros, rule_index as int)),
        decreases n - rule_index,
    {
        let rule = &rules[rule_index];
        let ghost before = errors@;
        let ghost faults = derivation_target_faults(*macro_, macros, rule_index as int);
        let found = check_rule_target(macro_, macro_catalog, rule_index, rule);
        match found {
            Some(error) => {
                errors.push(error);
                assert(errors@ =~= before.push(error));
            },
            None => {},
        }
        assert(derivation_target_faults(*macro_, macros, rule_index + 1) == match rule_target_fault(
            *macro_,
            macros,
            rule_index as int,
            *rule,
        ) {
            Some(fault) => faults.push(fault),
            None => faults,
        });
        rule_index = rule_index + 1;
    }
    errors
}

/// The error for the target of one derivation rule, if any.
fn check_rule_target(
    macro_: &Macro,
    macro_catalog: &MacroCatalog,
    rule_index: usize,
    rule: &MacroDerivationRule,
) -> (error: Option<MacroExplorationDefinitionError>)
    ensures
        match rule_target_fault(*macro_, macro_catalog.macros_view(), rule_index as int, *rule) {
            Some(fault) => error matches Some(e) && e.target_fault() == Some(fault),
            None => error is None,
        },
{
    proof {
        lemma_instance_index(macro_.circuit_view().instances_view(), rule.child_instance_view());
    }
    let instance = match macro_.circuit().instance(rule.child_instance()) {
        Some(instance) => instance,
        None => {
            return None;
        },
    };
    let child_macro_name = match instance.block() {
        BlockRef::Macro(name) => name,
        _ => {
            return None;
        },
    };
    proof {
        lemma_macro_index(macro_catalog.macros_view(), child_macro_name@);
    }
    let child_macro = match macro_catalog.get(child_macro_name.as_str()) {
        Some(child) => child,
        None => {
            return Some(
                MacroExplorationDefinitionError::UnknownDerivationChildMacro {
                    rule_index,
                    child_macro: child_macro_name.clone(),
                },
            );
        },
    };
    let target = rule.target();
    let name = derivation_target_name(target);
    let is_specification = match target {
        MacroDerivationTarget::SpecificationMinimum { .. }
        | MacroDerivationTarget::SpecificationMaximum { .. }
        | MacroDerivationTarget::SpecificationRange { .. } => true,
        _ => false,
    };
    if is_specification {
        if child_macro.exploration().specification(name).is_none() {
            return Some(
                MacroExplorationDefinitionError::UnknownDerivedSpecification {
                    rule_index,
                    child_macro: child_macro_name.clone(),
                    specification: name.to_owned(),
                },
            );
        }
    } else if child_macro.exploration().design_variable(name).is_none() {
        return Some(
            MacroExplorationDefinitionError::UnknownDerivedDesignVariable {
                rule_index,
                child_macro: child_macro_name.clone(),
                variable: name.to_owned(),
            },
        );
    }
    None
}

} // verus!
