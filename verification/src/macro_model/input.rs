//! Runtime data that one macro exploration reads: shared device models, the
//! build values and filters of each primitive instance, the candidates of each
//! compact submacro instance, and overrides of design variables and
//! specifications.
use vstd::prelude::*;

use crate::entries::{entry_map, entry_names, get_entry, put_entry};
use crate::exploration::candidate::{CandidatePoint, CandidateSet};
use crate::exploration::filter::CandidateFilter;
use crate::macro_model::execution::{ElectricalAnalysisExecution, MacroExecutionConfig};
use crate::macro_model::hierarchy::{condition_view, ConditionView};
use crate::macro_model::model::{bounds_intersection, bounds_valid, first_named, law_bounds_intersection_accepts_what_both_accept, variable_names, within, Macro, MacroDesignVariable, MacroPrimitiveDefault, MacroDesignVariableCondition, MacroInterfaceBinding, MacroSpecification, MacroSpecificationBounds};
use crate::macro_model::prebuild::{condition_views, conditions_map, lemma_conditions_map, PrimitiveInputConditions};
use crate::primitive::{build_value_view, copy_build_value, entries_map, lemma_entries_map, lemma_entries_map_push, BuildValueView, PrimitiveBuildInput, PrimitiveBuildInputKind, PrimitiveBuildValue};
use crate::text::{is_blank, str_eq, str_is_blank, strictly_sorted, string_views};
use crate::value::finite_value;

verus! {

/// Kind of circuit instance expected by a macro exploration input.
#[derive(Clone, Copy, Debug, PartialEq, Eq, Structural)]
pub enum MacroExplorationInstanceKind {
    Primitive,
    CompactMacro,
    LinearElement,
}

impl MacroExplorationInstanceKind {
    /// The name of the kind, as it appears in messages.
    pub open spec fn message(&self) -> Seq<char> {
        match self {
            MacroExplorationInstanceKind::Primitive => "primitive"@,
            MacroExplorationInstanceKind::CompactMacro => "compact macro"@,
            MacroExplorationInstanceKind::LinearElement => "linear element"@,
        }
    }

    /// Returns the name of the kind.
    pub fn to_string(&self) -> (text: String)
        ensures
            text@ == self.message(),
    {
        match self {
            MacroExplorationInstanceKind::Primitive => {
                let mut text = String::from_str("primitive");
                text
            },
            MacroExplorationInstanceKind::CompactMacro => {
                let mut text = String::from_str("compact macro");
                text
            },
            MacroExplorationInstanceKind::LinearElement => {
                let mut text = String::from_str("linear element");
                text
            },
        }
    }
}

/// Build values and local pre-exploration filters for one primitive instance.
#[derive(Debug, Clone, PartialEq)]
pub struct PrimitiveInstanceExplorationInput {
    build_input: PrimitiveBuildInput,
    filters: Vec<CandidateFilter>,
    prebuild_conditions: PrimitiveInputConditions,
}

impl PrimitiveInstanceExplorationInput {
    /// The values used to build the candidates.
    pub closed spec fn build_input_view(&self) -> PrimitiveBuildInput {
        self.build_input
    }

    /// The filters applied locally after building the candidates.
    pub closed spec fn filters_view(&self) -> Seq<CandidateFilter> {
        self.filters@
    }

    /// The restrictions of the build inputs inherited from design variables.
    pub closed spec fn prebuild_conditions_view(&self) -> PrimitiveInputConditions {
        self.prebuild_conditions
    }

    /// The exploration input of one primitive instance, with no inherited
    /// restriction.
    pub fn new(build_input: PrimitiveBuildInput, filters: Vec<CandidateFilter>) -> (input: Self)
        ensures
            input.build_input_view() == build_input,
            input.filters_view() == filters@,
            input.prebuild_conditions_view()@ == Map::<Seq<char>, Seq<ConditionView>>::empty(),
    {
        PrimitiveInstanceExplorationInput { build_input, filters, prebuild_conditions: PrimitiveInputConditions::new() }
    }

    /// Returns the values used to build the primitive candidates.
    pub fn build_input(&self) -> (input: &PrimitiveBuildInput)
        ensures
            *input == self.build_input_view(),
    {
        &self.build_input
    }

    /// Returns the filters applied locally after building the candidates.
    pub fn filters(&self) -> (filters: &[CandidateFilter])
        ensures
            filters@ == self.filters_view(),
    {
        self.filters.as_slice()
    }

    /// Returns the restrictions of the build inputs inherited from design
    /// variables.
    pub fn prebuild_conditions(&self) -> (conditions: &PrimitiveInputConditions)
        ensures
            *conditions == self.prebuild_conditions_view(),
    {
        &self.prebuild_conditions
    }
}

impl Default for PrimitiveInstanceExplorationInput {
    /// No build value, no filter and no restriction.
    fn default() -> (input: Self)
        ensures
            input.build_input_view()@ == Map::<Seq<char>, BuildValueView>::empty(),
            input.filters_view().len() == 0,
            input.prebuild_conditions_view()@ == Map::<Seq<char>, Seq<ConditionView>>::empty(),
    {
        PrimitiveInstanceExplorationInput::new(PrimitiveBuildInput::default(), Vec::new())
    }
}

/// Precomputed candidates and local filters for one compact submacro
/// instance.
#[derive(Debug, Clone, PartialEq)]
pub struct CompactMacroInstanceExplorationInput {
    candidates: CandidateSet,
    filters: Vec<CandidateFilter>,
    interface_ports: Vec<String>,
}

/// The ports of interface bindings, in order.
pub open spec fn binding_ports(bindings: Seq<MacroInterfaceBinding>) -> Seq<Seq<char>> {
    bindings.map_values(|b: MacroInterfaceBinding| b.port_view())
}

impl CompactMacroInstanceExplorationInput {
    /// The candidate set of the submacro.
    pub closed spec fn candidates_view(&self) -> CandidateSet {
        self.candidates
    }

    /// The filters applied locally to the candidates.
    pub closed spec fn filters_view(&self) -> Seq<CandidateFilter> {
        self.filters@
    }

    /// The public ports whose columns carry compact interface values.
    pub closed spec fn interface_ports_view(&self) -> Seq<Seq<char>> {
        string_views(self.interface_ports@)
    }

    /// The exploration input of one compact submacro instance.
    pub fn new(candidates: CandidateSet, filters: Vec<CandidateFilter>) -> (input: Self)
        ensures
            input.candidates_view() == candidates,
            input.filters_view() == filters@,
            input.interface_ports_view().len() == 0,
    {
        let input = CompactMacroInstanceExplorationInput { candidates, filters, interface_ports: Vec::new() };
        assert(input.interface_ports_view() =~= Seq::<Seq<char>>::empty());
        input
    }

    /// No candidate for a child whose derivations pruned it; the interface
    /// ports are those the macro binds.
    pub fn empty_for_pruned_child(macro_: &Macro, instance_path: String) -> (input: Self)
        ensures
            input.candidates_view().name@ == instance_path@,
            input.candidates_view().points@.len() == 0,
            input.filters_view().len() == 0,
            input.interface_ports_view() == binding_ports(macro_.exploration_view().interface_bindings_view()),
    {
        let bindings = macro_.exploration().interface_bindings();
        let mut ports: Vec<String> = Vec::new();
        let n = bindings.len();
        let mut i: usize = 0;
        while i < n
            invariant
                n == bindings@.len(),
                i <= n,
                ports@.len() == i,
                forall|k: int| 0 <= k < i ==> (#[trigger] ports@[k])@ == bindings@[k].port_view(),
            decreases n - i,
        {
            ports.push(bindings[i].port().to_string());
            i = i + 1;
        }
        assert(string_views(ports@) =~= binding_ports(bindings@));
        CompactMacroInstanceExplorationInput {
            candidates: CandidateSet::new(instance_path, Vec::new()),
            filters: Vec::new(),
            interface_ports: ports,
        }
    }

    /// Returns the candidate set of the submacro.
    pub fn candidates(&self) -> (candidates: &CandidateSet)
        ensures
            *candidates == self.candidates_view(),
    {
        &self.candidates
    }

    /// Returns the filters applied locally to the candidates.
    pub fn filters(&self) -> (filters: &[CandidateFilter])
        ensures
            filters@ == self.filters_view(),
    {
        self.filters.as_slice()
    }

    /// Returns the public ports whose columns carry compact interface values.
    pub fn interface_ports(&self) -> (ports: &[String])
        ensures
            string_views(ports@) == self.interface_ports_view(),
    {
        self.interface_ports.as_slice()
    }
}

/// Errors produced while registering runtime exploration inputs.
#[derive(Clone, Debug, PartialEq, Eq)]
pub enum MacroExplorationInputRegistrationError {
    EmptyDeviceType,
    EmptyInstancePath,
    DuplicateDeviceModel { device_type: String },
    DuplicatePhysicalLut,
    DuplicateInstanceInput { instance_path: String },
    EmptyDesignVariable,
    EmptySpecification,
    DuplicateDesignVariableOverride { variable: String },
    DuplicateSpecificationOverride { specification: String },
    DuplicateInheritedSpecificationBounds { specification: String },
}

impl MacroExplorationInputRegistrationError {
    /// The message of the error.
    pub open spec fn message(&self) -> Seq<char> {
        match self {
            MacroExplorationInputRegistrationError::EmptyDeviceType => "device type cannot be empty"@,
            MacroExplorationInputRegistrationError::EmptyInstancePath => "instance path cannot be empty"@,
            MacroExplorationInputRegistrationError::DuplicateDeviceModel { device_type } => "device model '"@
                + device_type@ + "' is already registered"@,
            MacroExplorationInputRegistrationError::DuplicatePhysicalLut => "a physical LUT is already registered"@,
            MacroExplorationInputRegistrationError::DuplicateInstanceInput { instance_path } =>
                "exploration input for instance '"@ + instance_path@ + "' is already registered"@,
            MacroExplorationInputRegistrationError::EmptyDesignVariable => "design variable cannot be empty"@,
            MacroExplorationInputRegistrationError::EmptySpecification => "specification cannot be empty"@,
            MacroExplorationInputRegistrationError::DuplicateDesignVariableOverride { variable } => "design variable '"@
                + variable@ + "' already has a runtime override"@,
            MacroExplorationInputRegistrationError::DuplicateSpecificationOverride { specification } =>
                "specification '"@ + specification@ + "' already has a runtime override"@,
            MacroExplorationInputRegistrationError::DuplicateInheritedSpecificationBounds { specification } =>
                "specification '"@ + specification@ + "' already has inherited bounds"@,
        }
    }

    /// Returns the message of the error.
    pub fn to_string(&self) -> (text: String)
        ensures
            text@ == self.message(),
    {
        match self {
            MacroExplorationInputRegistrationError::EmptyDeviceType => String::from_str("device type cannot be empty"),
            MacroExplorationInputRegistrationError::EmptyInstancePath => String::from_str(
                "instance path cannot be empty",
            ),
            MacroExplorationInputRegistrationError::DuplicateDeviceModel { device_type } => {
                let mut text = String::from_str("device model '");
                text.append(device_type.as_str());
                text.append("' is already registered");
                text
            },
            MacroExplorationInputRegistrationError::DuplicatePhysicalLut => String::from_str(
                "a physical LUT is already registered",
            ),
            MacroExplorationInputRegistrationError::DuplicateInstanceInput { instance_path } => {
                let mut text = String::from_str("exploration input for instance '");
                text.append(instance_path.as_str());
                text.append("' is already registered");
                text
            },
            MacroExplorationInputRegistrationError::EmptyDesignVariable => String::from_str(
                "design variable cannot be empty",
            ),
            MacroExplorationInputRegistrationError::EmptySpecification => String::from_str(
                "specification cannot be empty",
            ),
            MacroExplorationInputRegistrationError::DuplicateDesignVariableOverride { variable } => {
                let mut text = String::from_str("design variable '");
                text.append(variable.as_str());
                text.append("' already has a runtime override");
                text
            },
            MacroExplorationInputRegistrationError::DuplicateSpecificationOverride { specification } => {
                let mut text = String::from_str("specification '");
                text.append(specification.as_str());
                text.append("' already has a runtime override");
                text
            },
            MacroExplorationInputRegistrationError::DuplicateInheritedSpecificationBounds { specification } => {
                let mut text = String::from_str("specification '");
                text.append(specification.as_str());
                text.append("' already has inherited bounds");
                text
            },
        }
    }
}

/// One invalid or missing item in the runtime exploration input of a macro.
#[derive(Clone, Debug, PartialEq, Eq)]
pub enum MacroExplorationInputValidationError {
    MissingPhysicalLut { macro_name: String, testbench: String },
    UnknownInstance { macro_name: String, instance_path: String },
    InstanceKindMismatch {
        macro_name: String,
        instance_path: String,
        expected: MacroExplorationInstanceKind,
        actual: MacroExplorationInstanceKind,
    },
    MissingPrimitiveInput { macro_name: String, instance_path: String, primitive: String },
    MissingCompactMacroInput { macro_name: String, instance_path: String, referenced_macro: String },
    UnknownPrimitive { macro_name: String, instance_path: String, primitive: String },
    MissingPrimitiveDeviceType { macro_name: String, instance_path: String, primitive: String },
    MissingDeviceModel { macro_name: String, instance_path: String, primitive: String, device_type: String },
    UnknownDesignVariable { macro_name: String, variable: String },
    DesignVariableKindMismatch {
        macro_name: String,
        variable: String,
        expected: PrimitiveBuildInputKind,
        actual: PrimitiveBuildInputKind,
    },
    NonFiniteDesignVariable { macro_name: String, variable: String },
    InvalidDesignVariableCondition { macro_name: String, variable: String },
    UnknownSpecificationOverride { macro_name: String, specification: String },
    InvalidSpecificationBounds { macro_name: String, specification: String },
    ConflictingSpecificationBounds { macro_name: String, specification: String },
    UnknownPrimitiveInput { macro_name: String, instance_path: String, primitive: String, input: String },
    MissingRequiredPrimitiveInput { macro_name: String, instance_path: String, primitive: String, input: String },
    PrimitiveInputKindMismatch {
        macro_name: String,
        instance_path: String,
        primitive: String,
        input: String,
        expected: PrimitiveBuildInputKind,
        actual: PrimitiveBuildInputKind,
    },
    NonFinitePrimitiveInput { macro_name: String, instance_path: String, primitive: String, input: String },
}

impl MacroExplorationInputValidationError {
    /// The message of the error.
    pub open spec fn message(&self) -> Seq<char> {
        match self {
            MacroExplorationInputValidationError::MissingPhysicalLut { macro_name, testbench } => "macro '"@ + macro_name@ + "' layout-aware testbench '"@ + testbench@ + "' requires a physical LUT"@,
            MacroExplorationInputValidationError::UnknownInstance { macro_name, instance_path } => "macro '"@ + macro_name@ + "' has exploration input for unknown instance '"@ + instance_path@ + "'"@,
            MacroExplorationInputValidationError::InstanceKindMismatch { macro_name, instance_path, expected, actual } => "macro '"@ + macro_name@ + "' instance '"@ + instance_path@ + "' is a "@ + actual.message() + ", but its exploration input expects a "@ + expected.message(),
            MacroExplorationInputValidationError::MissingPrimitiveInput { macro_name, instance_path, primitive } => "macro '"@ + macro_name@ + "' primitive instance '"@ + instance_path@ + "' ('"@ + primitive@ + "') has no build input"@,
            MacroExplorationInputValidationError::MissingCompactMacroInput { macro_name, instance_path, referenced_macro } => "macro '"@ + macro_name@ + "' submacro instance '"@ + instance_path@ + "' ('"@ + referenced_macro@ + "') has no compact candidate input"@,
            MacroExplorationInputValidationError::UnknownPrimitive { macro_name, instance_path, primitive } => "macro '"@ + macro_name@ + "' instance '"@ + instance_path@ + "' references unknown primitive '"@ + primitive@ + "'"@,
            MacroExplorationInputValidationError::MissingPrimitiveDeviceType { macro_name, instance_path, primitive } => "macro '"@ + macro_name@ + "' instance '"@ + instance_path@ + "' primitive '"@ + primitive@ + "' has no device type"@,
            MacroExplorationInputValidationError::MissingDeviceModel { macro_name, instance_path, primitive, device_type } => "macro '"@ + macro_name@ + "' instance '"@ + instance_path@ + "' primitive '"@ + primitive@ + "' requires missing device model '"@ + device_type@ + "'"@,
            MacroExplorationInputValidationError::UnknownDesignVariable { macro_name, variable } => "macro '"@ + macro_name@ + "' has an override for unknown design variable '"@ + variable@ + "'"@,
            MacroExplorationInputValidationError::DesignVariableKindMismatch { macro_name, variable, expected, actual } => "macro '"@ + macro_name@ + "' design variable '"@ + variable@ + "' expects "@ + expected.message() + ", found "@ + actual.message(),
            MacroExplorationInputValidationError::NonFiniteDesignVariable { macro_name, variable } => "macro '"@ + macro_name@ + "' design variable '"@ + variable@ + "' contains a non-finite value"@,
            MacroExplorationInputValidationError::InvalidDesignVariableCondition { macro_name, variable } => "macro '"@ + macro_name@ + "' design variable '"@ + variable@ + "' has a non-finite pre-build condition"@,
            MacroExplorationInputValidationError::UnknownSpecificationOverride { macro_name, specification } => "macro '"@ + macro_name@ + "' has bounds for unknown specification '"@ + specification@ + "'"@,
            MacroExplorationInputValidationError::InvalidSpecificationBounds { macro_name, specification } => "macro '"@ + macro_name@ + "' specification '"@ + specification@ + "' has invalid effective bounds"@,
            MacroExplorationInputValidationError::ConflictingSpecificationBounds { macro_name, specification } => "macro '"@ + macro_name@ + "' specification '"@ + specification@ + "' has contradictory inherited bounds"@,
            MacroExplorationInputValidationError::UnknownPrimitiveInput { macro_name, instance_path, primitive, input } => "macro '"@ + macro_name@ + "' instance '"@ + instance_path@ + "' primitive '"@ + primitive@ + "' has no build input named '"@ + input@ + "'"@,
            MacroExplorationInputValidationError::MissingRequiredPrimitiveInput { macro_name, instance_path, primitive, input } => "macro '"@ + macro_name@ + "' instance '"@ + instance_path@ + "' primitive '"@ + primitive@ + "' is missing required build input '"@ + input@ + "'"@,
            MacroExplorationInputValidationError::PrimitiveInputKindMismatch { macro_name, instance_path, primitive, input, expected, actual } => "macro '"@ + macro_name@ + "' instance '"@ + instance_path@ + "' primitive '"@ + primitive@ + "' input '"@ + input@ + "' expects "@ + expected.message() + ", found "@ + actual.message(),
            MacroExplorationInputValidationError::NonFinitePrimitiveInput { macro_name, instance_path, primitive, input } => "macro '"@ + macro_name@ + "' instance '"@ + instance_path@ + "' primitive '"@ + primitive@ + "' input '"@ + input@ + "' contains a non-finite value"@,
        }
    }

    /// Returns the message of the error.
    pub fn to_string(&self) -> (text: String)
        ensures
            text@ == self.message(),
    {
        match self {
            MacroExplorationInputValidationError::MissingPhysicalLut { macro_name, testbench } => {
                let mut text = String::from_str("macro '");
                text.append(macro_name.as_str());
                text.append("' layout-aware testbench '");
                text.append(testbench.as_str());
                text.append("' requires a physical LUT");
                text
            },
            MacroExplorationInputValidationError::UnknownInstance { macro_name, instance_path } => {
                let mut text = String::from_str("macro '");
                text.append(macro_name.as_str());
                text.append("' has exploration input for unknown instance '");
                text.append(instance_path.as_str());
                text.append("'");
                text
            },
            MacroExplorationInputValidationError::InstanceKindMismatch { macro_name, instance_path, expected, actual } => {
                let mut text = String::from_str("macro '");
                text.append(macro_name.as_str());
                text.append("' instance '");
                text.append(instance_path.as_str());
                text.append("' is a ");
                let kind = actual.to_string();
                text.append(kind.as_str());
                text.append(", but its exploration input expects a ");
                let kind = expected.to_string();
                text.append(kind.as_str());
                text
            },
            MacroExplorationInputValidationError::MissingPrimitiveInput { macro_name, instance_path, primitive } => {
                let mut text = String::from_str("macro '");
                text.append(macro_name.as_str());
                text.append("' primitive instance '");
                text.append(instance_path.as_str());
                text.append("' ('");
                text.append(primitive.as_str());
                text.append("') has no build input");
                text
            },
            MacroExplorationInputValidationError::MissingCompactMacroInput { macro_name, instance_path, referenced_macro } => {
                let mut text = String::from_str("macro '");
                text.append(macro_name.as_str());
                text.append("' submacro instance '");
                text.append(instance_path.as_str());
                text.append("' ('");
                text.append(referenced_macro.as_str());
                text.append("') has no compact candidate input");
                text
            },
            MacroExplorationInputValidationError::UnknownPrimitive { macro_name, instance_path, primitive } => {
                let mut text = String::from_str("macro '");
                text.append(macro_name.as_str());
                text.append("' instance '");
                text.append(instance_path.as_str());
                text.append("' references unknown primitive '");
                text.append(primitive.as_str());
                text.append("'");
                text
            },
            MacroExplorationInputValidationError::MissingPrimitiveDeviceType { macro_name, instance_path, primitive } => {
                let mut text = String::from_str("macro '");
                text.append(macro_name.as_str());
                text.append("' instance '");
                text.append(instance_path.as_str());
                text.append("' primitive '");
                text.append(primitive.as_str());
                text.append("' has no device type");
                text
            },
            MacroExplorationInputValidationError::MissingDeviceModel { macro_name, instance_path, primitive, device_type } => {
                let mut text = String::from_str("macro '");
                text.append(macro_name.as_str());
                text.append("' instance '");
                text.append(instance_path.as_str());
                text.append("' primitive '");
                text.append(primitive.as_str());
                text.append("' requires missing device model '");
                text.append(device_type.as_str());
                text.append("'");
                text
            },
            MacroExplorationInputValidationError::UnknownDesignVariable { macro_name, variable } => {
                let mut text = String::from_str("macro '");
                text.append(macro_name.as_str());
                text.append("' has an override for unknown design variable '");
                text.append(variable.as_str());
                text.append("'");
                text
            },
            MacroExplorationInputValidationError::DesignVariableKindMismatch { macro_name, variable, expected, actual } => {
                let mut text = String::from_str("macro '");
                text.append(macro_name.as_str());
                text.append("' design variable '");
                text.append(variable.as_str());
                text.append("' expects ");
                let kind = expected.to_string();
                text.append(kind.as_str());
                text.append(", found ");
                let kind = actual.to_string();
                text.append(kind.as_str());
                text
            },
            MacroExplorationInputValidationError::NonFiniteDesignVariable { macro_name, variable } => {
                let mut text = String::from_str("macro '");
                text.append(macro_name.as_str());
                text.append("' design variable '");
                text.append(variable.as_str());
                text.append("' contains a non-finite value");
                text
            },
            MacroExplorationInputValidationError::InvalidDesignVariableCondition { macro_name, variable } => {
                let mut text = String::from_str("macro '");
                text.append(macro_name.as_str());
                text.append("' design variable '");
                text.append(variable.as_str());
                text.append("' has a non-finite pre-build condition");
                text
            },
            MacroExplorationInputValidationError::UnknownSpecificationOverride { macro_name, specification } => {
                let mut text = String::from_str("macro '");
                text.append(macro_name.as_str());
                text.append("' has bounds for unknown specification '");
                text.append(specification.as_str());
                text.append("'");
                text
            },
            MacroExplorationInputValidationError::InvalidSpecificationBounds { macro_name, specification } => {
                let mut text = String::from_str("macro '");
                text.append(macro_name.as_str());
                text.append("' specification '");
                text.append(specification.as_str());
                text.append("' has invalid effective bounds");
                text
            },
            MacroExplorationInputValidationError::ConflictingSpecificationBounds { macro_name, specification } => {
                let mut text = String::from_str("macro '");
                text.append(macro_name.as_str());
                text.append("' specification '");
                text.append(specification.as_str());
                text.append("' has contradictory inherited bounds");
                text
            },
            MacroExplorationInputValidationError::UnknownPrimitiveInput { macro_name, instance_path, primitive, input } => {
                let mut text = String::from_str("macro '");
                text.append(macro_name.as_str());
                text.append("' instance '");
                text.append(instance_path.as_str());
                text.append("' primitive '");
                text.append(primitive.as_str());
                text.append("' has no build input named '");
                text.append(input.as_str());
                text.append("'");
                text
            },
            MacroExplorationInputValidationError::MissingRequiredPrimitiveInput { macro_name, instance_path, primitive, input } => {
                let mut text = String::from_str("macro '");
                text.append(macro_name.as_str());
                text.append("' instance '");
                text.append(instance_path.as_str());
                text.append("' primitive '");
                text.append(primitive.as_str());
                text.append("' is missing required build input '");
                text.append(input.as_str());
                text.append("'");
                text
            },
            MacroExplorationInputValidationError::PrimitiveInputKindMismatch { macro_name, instance_path, primitive, input, expected, actual } => {
                let mut text = String::from_str("macro '");
                text.append(macro_name.as_str());
                text.append("' instance '");
                text.append(instance_path.as_str());
                text.append("' primitive '");
                text.append(primitive.as_str());
                text.append("' input '");
                text.append(input.as_str());
                text.append("' expects ");
                let kind = expected.to_string();
                text.append(kind.as_str());
                text.append(", found ");
                let kind = actual.to_string();
                text.append(kind.as_str());
                text
            },
            MacroExplorationInputValidationError::NonFinitePrimitiveInput { macro_name, instance_path, primitive, input } => {
                let mut text = String::from_str("macro '");
                text.append(macro_name.as_str());
                text.append("' instance '");
                text.append(instance_path.as_str());
                text.append("' primitive '");
                text.append(primitive.as_str());
                text.append("' input '");
                text.append(input.as_str());
                text.append("' contains a non-finite value");
                text
            },
        }
    }
}

/// Why the bounds of one specification cannot be used.
pub enum SpecificationBoundsFault {
    /// The bounds are not finite or are inverted.
    Invalid,
    /// The inherited bounds do not meet the macro's own.
    Conflicting,
}

/// The effective bounds of one specification: the runtime override, or the
/// definition's bounds without one, intersected with the inherited bounds
/// when there are any. Invalid bounds, and an empty intersection, are faults.
pub open spec fn effective_bounds(
    overrides: Map<Seq<char>, MacroSpecificationBounds>,
    inherited: Map<Seq<char>, MacroSpecificationBounds>,
    specification: MacroSpecification,
) -> Result<MacroSpecificationBounds, SpecificationBoundsFault> {
    let name = specification.name_view();
    let base = if overrides.contains_key(name) {
        overrides[name]
    } else {
        specification.bounds_view()
    };
    if !bounds_valid(base) {
        Err(SpecificationBoundsFault::Invalid)
    } else if inherited.contains_key(name) {
        if !bounds_valid(inherited[name]) {
            Err(SpecificationBoundsFault::Invalid)
        } else {
            match bounds_intersection(base, inherited[name]) {
                Some(bounds) => Ok(bounds),
                None => Err(SpecificationBoundsFault::Conflicting),
            }
        }
    } else {
        Ok(base)
    }
}

/// Inherited bounds never widen a specification: a finite value inside the
/// effective bounds is inside the macro's own (or overridden) bounds and
/// inside the inherited ones, and every such value is inside the effective
/// bounds.
pub proof fn law_inherited_bounds_never_widen(
    overrides: Map<Seq<char>, MacroSpecificationBounds>,
    inherited: Map<Seq<char>, MacroSpecificationBounds>,
    specification: MacroSpecification,
    value: u64,
)
    requires
        effective_bounds(overrides, inherited, specification) is Ok,
        finite_value(value),
    ensures
        ({
            let name = specification.name_view();
            let base = if overrides.contains_key(name) {
                overrides[name]
            } else {
                specification.bounds_view()
            };
            let effective = effective_bounds(overrides, inherited, specification)->Ok_0;
            within(value, effective.minimum, effective.maximum) <==> within(value, base.minimum, base.maximum) && (
            inherited.contains_key(name) ==> within(value, inherited[name].minimum, inherited[name].maximum))
        }),
{
    let name = specification.name_view();
    let base = if overrides.contains_key(name) {
        overrides[name]
    } else {
        specification.bounds_view()
    };
    if inherited.contains_key(name) {
        law_bounds_intersection_accepts_what_both_accept(base, inherited[name], value);
    }
}

/// The error that reports a fault of specification `specification` of
/// macro `macro_name`.
pub open spec fn reports_bounds_fault(
    macro_name: Seq<char>,
    specification: Seq<char>,
    outcome: Result<MacroSpecificationBounds, SpecificationBoundsFault>,
    error: MacroExplorationInputValidationError,
) -> bool {
    match outcome {
        Ok(_) => false,
        Err(SpecificationBoundsFault::Invalid) => error matches MacroExplorationInputValidationError::InvalidSpecificationBounds {
            macro_name: m,
            specification: s,
        } && m@ == macro_name && s@ == specification,
        Err(SpecificationBoundsFault::Conflicting) => error matches MacroExplorationInputValidationError::ConflictingSpecificationBounds {
            macro_name: m,
            specification: s,
        } && m@ == macro_name && s@ == specification,
    }
}

/// What an exploration input holds.
pub struct MacroExplorationInputView<D, P> {
    /// The shared model registered for each device type.
    pub device_models: Map<Seq<char>, D>,
    /// The physical LUT shared by layout-aware testbenches.
    pub physical_lut: Option<P>,
    /// The input registered for each primitive instance path.
    pub primitive_instances: Map<Seq<char>, PrimitiveInstanceExplorationInput>,
    /// The input registered for each compact submacro instance path.
    pub compact_macro_instances: Map<Seq<char>, CompactMacroInstanceExplorationInput>,
    /// The runtime value of each overridden design variable.
    pub design_variable_overrides: Map<Seq<char>, BuildValueView>,
    /// The restrictions inherited by each design variable, in order.
    pub design_variable_conditions: Map<Seq<char>, Seq<ConditionView>>,
    /// The runtime bounds of each overridden specification.
    pub specification_overrides: Map<Seq<char>, MacroSpecificationBounds>,
    /// The bounds each specification inherits from a parent exploration.
    pub inherited_specification_bounds: Map<Seq<char>, MacroSpecificationBounds>,
    /// The execution policy.
    pub execution: MacroExecutionConfig,
}

/// Runtime data required to build the candidate sets of one macro. Device
/// models (`D`) and the physical LUT (`P`) are shared, read-only inputs,
/// typically references.
pub struct MacroExplorationInput<D, P> {
    device_models: Vec<(String, D)>,
    physical_lut: Option<P>,
    primitive_instances: Vec<(String, PrimitiveInstanceExplorationInput)>,
    compact_macro_instances: Vec<(String, CompactMacroInstanceExplorationInput)>,
    design_variable_overrides: Vec<(String, PrimitiveBuildValue)>,
    design_variable_conditions: PrimitiveInputConditions,
    specification_overrides: Vec<(String, MacroSpecificationBounds)>,
    inherited_specification_bounds: Vec<(String, MacroSpecificationBounds)>,
    execution: MacroExecutionConfig,
}

impl<D, P> View for MacroExplorationInput<D, P> {
    type V = MacroExplorationInputView<D, P>;

    closed spec fn view(&self) -> MacroExplorationInputView<D, P> {
        MacroExplorationInputView {
            device_models: entry_map(self.device_models@),
            physical_lut: self.physical_lut,
            primitive_instances: entry_map(self.primitive_instances@),
            compact_macro_instances: entry_map(self.compact_macro_instances@),
            design_variable_overrides: entries_map(self.design_variable_overrides@),
            design_variable_conditions: self.design_variable_conditions@,
            specification_overrides: entry_map(self.specification_overrides@),
            inherited_specification_bounds: entry_map(self.inherited_specification_bounds@),
            execution: self.execution,
        }
    }
}

impl<D, P> MacroExplorationInput<D, P> {
    #[verifier::type_invariant]
    spec fn sorted_by_name(self) -> bool {
        &&& strictly_sorted(entry_names(self.device_models@))
        &&& strictly_sorted(entry_names(self.primitive_instances@))
        &&& strictly_sorted(entry_names(self.compact_macro_instances@))
        &&& strictly_sorted(entry_names(self.design_variable_overrides@))
        &&& strictly_sorted(entry_names(self.specification_overrides@))
        &&& strictly_sorted(entry_names(self.inherited_specification_bounds@))
    }

    /// An empty exploration input with the default execution policy.
    pub fn new() -> (input: Self)
        ensures
            input@.device_models == Map::<Seq<char>, D>::empty(),
            input@.physical_lut is None,
            input@.primitive_instances == Map::<Seq<char>, PrimitiveInstanceExplorationInput>::empty(),
            input@.compact_macro_instances == Map::<Seq<char>, CompactMacroInstanceExplorationInput>::empty(),
            input@.design_variable_overrides == Map::<Seq<char>, BuildValueView>::empty(),
            input@.design_variable_conditions == Map::<Seq<char>, Seq<ConditionView>>::empty(),
            input@.specification_overrides == Map::<Seq<char>, MacroSpecificationBounds>::empty(),
            input@.inherited_specification_bounds == Map::<Seq<char>, MacroSpecificationBounds>::empty(),
            input@.execution.mode() == ElectricalAnalysisExecution::Sequential,
    {
        let input = MacroExplorationInput {
            device_models: Vec::new(),
            physical_lut: None,
            primitive_instances: Vec::new(),
            compact_macro_instances: Vec::new(),
            design_variable_overrides: Vec::new(),
            design_variable_conditions: PrimitiveInputConditions::new(),
            specification_overrides: Vec::new(),
            inherited_specification_bounds: Vec::new(),
            execution: MacroExecutionConfig::default(),
        };
        assert(input@.device_models =~= Map::<Seq<char>, D>::empty());
        assert(input@.primitive_instances =~= Map::<Seq<char>, PrimitiveInstanceExplorationInput>::empty());
        assert(input@.compact_macro_instances =~= Map::<Seq<char>, CompactMacroInstanceExplorationInput>::empty());
        assert(input@.design_variable_overrides =~= Map::<Seq<char>, BuildValueView>::empty());
        assert(input@.specification_overrides =~= Map::<Seq<char>, MacroSpecificationBounds>::empty());
        assert(input@.inherited_specification_bounds =~= Map::<Seq<char>, MacroSpecificationBounds>::empty());
        input
    }

    /// The overridden design variables and their values, in name order.
    pub closed spec fn override_entries(&self) -> Seq<(String, PrimitiveBuildValue)> {
        self.design_variable_overrides@
    }

    /// The runtime specification bounds, in name order.
    pub closed spec fn specification_override_entries(&self) -> Seq<(String, MacroSpecificationBounds)> {
        self.specification_overrides@
    }

    /// The inherited specification bounds, in name order.
    pub closed spec fn inherited_entries(&self) -> Seq<(String, MacroSpecificationBounds)> {
        self.inherited_specification_bounds@
    }

    /// The compact submacro instance paths with an input, in name order.
    pub closed spec fn compact_entries(&self) -> Seq<(String, CompactMacroInstanceExplorationInput)> {
        self.compact_macro_instances@
    }

    /// The restricted design variables and their conditions, in name order.
    pub closed spec fn condition_entries(&self) -> Seq<(String, Vec<MacroDesignVariableCondition>)> {
        self.design_variable_conditions.entries()
    }

    /// The views of the entry lists are the maps the input holds.
    pub proof fn lemma_entry_views(&self)
        ensures
            self@.design_variable_overrides == entries_map(self.override_entries()),
            self@.specification_overrides == entry_map(self.specification_override_entries()),
            self@.inherited_specification_bounds == entry_map(self.inherited_entries()),
            self@.compact_macro_instances == entry_map(self.compact_entries()),
            self@.design_variable_conditions == conditions_map(self.condition_entries()),
    {
    }

    /// The overridden design variables and their values, in name order.
    pub(crate) fn override_list(&self) -> (entries: &Vec<(String, PrimitiveBuildValue)>)
        ensures
            entries@ == self.override_entries(),
            strictly_sorted(entry_names(entries@)),
    {
        proof {
            use_type_invariant(self);
        }
        &self.design_variable_overrides
    }

    /// The runtime specification bounds, in name order.
    pub(crate) fn specification_override_list(&self) -> (entries: &Vec<(String, MacroSpecificationBounds)>)
        ensures
            entries@ == self.specification_override_entries(),
            strictly_sorted(entry_names(entries@)),
    {
        proof {
            use_type_invariant(self);
        }
        &self.specification_overrides
    }

    /// The inherited specification bounds, in name order.
    pub(crate) fn inherited_list(&self) -> (entries: &Vec<(String, MacroSpecificationBounds)>)
        ensures
            entries@ == self.inherited_entries(),
            strictly_sorted(entry_names(entries@)),
    {
        proof {
            use_type_invariant(self);
        }
        &self.inherited_specification_bounds
    }

    /// The compact submacro inputs, in name order.
    pub(crate) fn compact_list(&self) -> (entries: &Vec<(String, CompactMacroInstanceExplorationInput)>)
        ensures
            entries@ == self.compact_entries(),
            strictly_sorted(entry_names(entries@)),
    {
        proof {
            use_type_invariant(self);
        }
        &self.compact_macro_instances
    }

    /// The restricted design variables and their conditions, in name order.
    pub(crate) fn condition_list(&self) -> (entries: &Vec<(String, Vec<MacroDesignVariableCondition>)>)
        ensures
            entries@ == self.condition_entries(),
            strictly_sorted(entry_names(entries@)),
    {
        self.design_variable_conditions.as_entries()
    }

    /// Registers one shared model under the device type that primitive
    /// manifests name.
    pub fn register_device_model(&mut self, device_type: String, model: D) -> (result: Result<
        (),
        MacroExplorationInputRegistrationError,
    >)
        ensures
            result is Err <==> is_blank(device_type@) || old(self)@.device_models.contains_key(device_type@),
            match result {
                Ok(()) => final(self)@ == (MacroExplorationInputView {
                    device_models: old(self)@.device_models.insert(device_type@, model),
                    ..old(self)@
                }),
                Err(error) => final(self)@ == old(self)@ && error == if is_blank(device_type@) {
                    MacroExplorationInputRegistrationError::EmptyDeviceType
                } else {
                    MacroExplorationInputRegistrationError::DuplicateDeviceModel { device_type }
                },
            },
    {
        proof {
            use_type_invariant(&*self);
        }
        if str_is_blank(device_type.as_str()) {
            return Err(MacroExplorationInputRegistrationError::EmptyDeviceType);
        }
        if get_entry(&self.device_models, device_type.as_str()).is_some() {
            return Err(MacroExplorationInputRegistrationError::DuplicateDeviceModel { device_type });
        }
        let mut models: Vec<(String, D)> = Vec::new();
        std::mem::swap(&mut models, &mut self.device_models);
        put_entry(&mut models, device_type, model);
        self.device_models = models;
        Ok(())
    }

    /// Registers the shared physical LUT used by layout-aware testbenches;
    /// only one can be registered.
    pub fn register_physical_lut(&mut self, lut: P) -> (result: Result<(), MacroExplorationInputRegistrationError>)
        ensures
            result is Err <==> old(self)@.physical_lut is Some,
            match result {
                Ok(()) => final(self)@ == (MacroExplorationInputView { physical_lut: Some(lut), ..old(self)@ }),
                Err(error) => final(self)@ == old(self)@ && error
                    == MacroExplorationInputRegistrationError::DuplicatePhysicalLut,
            },
    {
        proof {
            use_type_invariant(&*self);
        }
        if self.physical_lut.is_some() {
            return Err(MacroExplorationInputRegistrationError::DuplicatePhysicalLut);
        }
        self.physical_lut = Some(lut);
        Ok(())
    }

    /// Checks that an instance path is not blank and has no input yet.
    fn validate_new_instance_path(&self, instance_path: String) -> (result: Result<
        String,
        MacroExplorationInputRegistrationError,
    >)
        ensures
            match result {
                Ok(path) => path == instance_path && !is_blank(instance_path@)
                    && !self@.primitive_instances.contains_key(instance_path@)
                    && !self@.compact_macro_instances.contains_key(instance_path@),
                Err(error) => error == if is_blank(instance_path@) {
                    MacroExplorationInputRegistrationError::EmptyInstancePath
                } else {
                    MacroExplorationInputRegistrationError::DuplicateInstanceInput { instance_path }
                } && (is_blank(instance_path@) || self@.primitive_instances.contains_key(instance_path@)
                    || self@.compact_macro_instances.contains_key(instance_path@)),
            },
    {
        proof {
            use_type_invariant(self);
        }
        if str_is_blank(instance_path.as_str()) {
            return Err(MacroExplorationInputRegistrationError::EmptyInstancePath);
        }
        if get_entry(&self.primitive_instances, instance_path.as_str()).is_some() || get_entry(
            &self.compact_macro_instances,
            instance_path.as_str(),
        ).is_some() {
            return Err(MacroExplorationInputRegistrationError::DuplicateInstanceInput { instance_path });
        }
        Ok(instance_path)
    }

    /// Registers build values and filters for one primitive instance path; a
    /// path takes one input, primitive or compact.
    pub fn register_primitive_instance(&mut self, instance_path: String, input: PrimitiveInstanceExplorationInput) -> (result:
        Result<(), MacroExplorationInputRegistrationError>)
        ensures
            result is Err <==> is_blank(instance_path@) || old(self)@.primitive_instances.contains_key(instance_path@)
                || old(self)@.compact_macro_instances.contains_key(instance_path@),
            match result {
                Ok(()) => final(self)@ == (MacroExplorationInputView {
                    primitive_instances: old(self)@.primitive_instances.insert(instance_path@, input),
                    ..old(self)@
                }),
                Err(error) => final(self)@ == old(self)@ && error == if is_blank(instance_path@) {
                    MacroExplorationInputRegistrationError::EmptyInstancePath
                } else {
                    MacroExplorationInputRegistrationError::DuplicateInstanceInput { instance_path }
                },
            },
    {
        proof {
            use_type_invariant(&*self);
        }
        let instance_path = match self.validate_new_instance_path(instance_path) {
            Ok(path) => path,
            Err(error) => {
                return Err(error);
            },
        };
        let mut instances: Vec<(String, PrimitiveInstanceExplorationInput)> = Vec::new();
        std::mem::swap(&mut instances, &mut self.primitive_instances);
        put_entry(&mut instances, instance_path, input);
        self.primitive_instances = instances;
        Ok(())
    }

    /// Registers candidates and filters for one compact submacro instance
    /// path; a path takes one input, primitive or compact.
    pub fn register_compact_macro_instance(
        &mut self,
        instance_path: String,
        input: CompactMacroInstanceExplorationInput,
    ) -> (result: Result<(), MacroExplorationInputRegistrationError>)
        ensures
            result is Err <==> is_blank(instance_path@) || old(self)@.primitive_instances.contains_key(instance_path@)
                || old(self)@.compact_macro_instances.contains_key(instance_path@),
            match result {
                Ok(()) => final(self)@ == (MacroExplorationInputView {
                    compact_macro_instances: old(self)@.compact_macro_instances.insert(instance_path@, input),
                    ..old(self)@
                }),
                Err(error) => final(self)@ == old(self)@ && error == if is_blank(instance_path@) {
                    MacroExplorationInputRegistrationError::EmptyInstancePath
                } else {
                    MacroExplorationInputRegistrationError::DuplicateInstanceInput { instance_path }
                },
            },
    {
        proof {
            use_type_invariant(&*self);
        }
        let instance_path = match self.validate_new_instance_path(instance_path) {
            Ok(path) => path,
            Err(error) => {
                return Err(error);
            },
        };
        let mut instances: Vec<(String, CompactMacroInstanceExplorationInput)> = Vec::new();
        std::mem::swap(&mut instances, &mut self.compact_macro_instances);
        put_entry(&mut instances, instance_path, input);
        self.compact_macro_instances = instances;
        Ok(())
    }

    /// Overrides one public design variable for this execution.
    pub fn register_design_variable_override(&mut self, variable: String, value: PrimitiveBuildValue) -> (result:
        Result<(), MacroExplorationInputRegistrationError>)
        ensures
            result is Err <==> is_blank(variable@) || old(self)@.design_variable_overrides.contains_key(variable@),
            match result {
                Ok(()) => final(self)@ == (MacroExplorationInputView {
                    design_variable_overrides: old(self)@.design_variable_overrides.insert(
                        variable@,
                        build_value_view(value),
                    ),
                    ..old(self)@
                }),
                Err(error) => final(self)@ == old(self)@ && error == if is_blank(variable@) {
                    MacroExplorationInputRegistrationError::EmptyDesignVariable
                } else {
                    MacroExplorationInputRegistrationError::DuplicateDesignVariableOverride { variable }
                },
            },
    {
        proof {
            use_type_invariant(&*self);
        }
        if str_is_blank(variable.as_str()) {
            return Err(MacroExplorationInputRegistrationError::EmptyDesignVariable);
        }
        if get_entry(&self.design_variable_overrides, variable.as_str()).is_some() {
            proof {
                assert(entry_map(self.design_variable_overrides@).contains_key(variable@));
            }
            return Err(MacroExplorationInputRegistrationError::DuplicateDesignVariableOverride { variable });
        }
        let ghost key = variable@;
        let ghost view = build_value_view(value);
        let mut overrides: Vec<(String, PrimitiveBuildValue)> = Vec::new();
        std::mem::swap(&mut overrides, &mut self.design_variable_overrides);
        let ghost before = overrides@;
        put_entry(&mut overrides, variable, value);
        proof {
            assert(entries_map(overrides@) =~= entries_map(before).insert(key, view));
        }
        self.design_variable_overrides = overrides;
        Ok(())
    }

    /// Adds one inherited pre-build restriction to a public design variable;
    /// the restrictions of a variable are all applied, in registration order.
    pub fn register_design_variable_condition(&mut self, variable: String, condition: MacroDesignVariableCondition) -> (result:
        Result<(), MacroExplorationInputRegistrationError>)
        ensures
            result is Err <==> is_blank(variable@),
            match result {
                Ok(()) => final(self)@ == (MacroExplorationInputView {
                    design_variable_conditions: old(self)@.design_variable_conditions.insert(
                        variable@,
                        if old(self)@.design_variable_conditions.contains_key(variable@) {
                            old(self)@.design_variable_conditions[variable@]
                        } else {
                            Seq::<ConditionView>::empty()
                        }.push(condition_view(condition)),
                    ),
                    ..old(self)@
                }),
                Err(error) => final(self)@ == old(self)@ && error
                    == MacroExplorationInputRegistrationError::EmptyDesignVariable,
            },
    {
        proof {
            use_type_invariant(&*self);
        }
        if str_is_blank(variable.as_str()) {
            return Err(MacroExplorationInputRegistrationError::EmptyDesignVariable);
        }
        let ghost view = condition_view(condition);
        let ghost existing = if self@.design_variable_conditions.contains_key(variable@) {
            self@.design_variable_conditions[variable@]
        } else {
            Seq::<ConditionView>::empty()
        };
        let list = vec![condition];
        proof {
            assert(condition_views(list@) =~= seq![view]);
        }
        let mut conditions = PrimitiveInputConditions::new();
        std::mem::swap(&mut conditions, &mut self.design_variable_conditions);
        conditions.add(variable, &list);
        proof {
            assert(existing + seq![view] =~= existing.push(view));
        }
        self.design_variable_conditions = conditions;
        Ok(())
    }

    /// Replaces the definition-owned bounds of one macro specification.
    pub fn register_specification_override(&mut self, specification: String, bounds: MacroSpecificationBounds) -> (result:
        Result<(), MacroExplorationInputRegistrationError>)
        ensures
            result is Err <==> is_blank(specification@) || old(self)@.specification_overrides.contains_key(
                specification@,
            ),
            match result {
                Ok(()) => final(self)@ == (MacroExplorationInputView {
                    specification_overrides: old(self)@.specification_overrides.insert(specification@, bounds),
                    ..old(self)@
                }),
                Err(error) => final(self)@ == old(self)@ && error == if is_blank(specification@) {
                    MacroExplorationInputRegistrationError::EmptySpecification
                } else {
                    MacroExplorationInputRegistrationError::DuplicateSpecificationOverride { specification }
                },
            },
    {
        proof {
            use_type_invariant(&*self);
        }
        if str_is_blank(specification.as_str()) {
            return Err(MacroExplorationInputRegistrationError::EmptySpecification);
        }
        if get_entry(&self.specification_overrides, specification.as_str()).is_some() {
            return Err(MacroExplorationInputRegistrationError::DuplicateSpecificationOverride { specification });
        }
        let mut overrides: Vec<(String, MacroSpecificationBounds)> = Vec::new();
        std::mem::swap(&mut overrides, &mut self.specification_overrides);
        put_entry(&mut overrides, specification, bounds);
        self.specification_overrides = overrides;
        Ok(())
    }

    /// Adds bounds inherited from a parent exploration; they are intersected
    /// with the definition's bounds or the runtime override, so they never
    /// widen the effective specification.
    pub fn register_inherited_specification_bounds(
        &mut self,
        specification: String,
        bounds: MacroSpecificationBounds,
    ) -> (result: Result<(), MacroExplorationInputRegistrationError>)
        ensures
            result is Err <==> is_blank(specification@) || old(self)@.inherited_specification_bounds.contains_key(
                specification@,
            ),
            match result {
                Ok(()) => final(self)@ == (MacroExplorationInputView {
                    inherited_specification_bounds: old(self)@.inherited_specification_bounds.insert(
                        specification@,
                        bounds,
                    ),
                    ..old(self)@
                }),
                Err(error) => final(self)@ == old(self)@ && error == if is_blank(specification@) {
                    MacroExplorationInputRegistrationError::EmptySpecification
                } else {
                    MacroExplorationInputRegistrationError::DuplicateInheritedSpecificationBounds { specification }
                },
            },
    {
        proof {
            use_type_invariant(&*self);
        }
        if str_is_blank(specification.as_str()) {
            return Err(MacroExplorationInputRegistrationError::EmptySpecification);
        }
        if get_entry(&self.inherited_specification_bounds, specification.as_str()).is_some() {
            return Err(
                MacroExplorationInputRegistrationError::DuplicateInheritedSpecificationBounds { specification },
            );
        }
        let mut inherited: Vec<(String, MacroSpecificationBounds)> = Vec::new();
        std::mem::swap(&mut inherited, &mut self.inherited_specification_bounds);
        put_entry(&mut inherited, specification, bounds);
        self.inherited_specification_bounds = inherited;
        Ok(())
    }

    /// Returns the model registered for one device type.
    pub fn device_model(&self, device_type: &str) -> (model: Option<&D>)
        ensures
            match model {
                Some(m) => self@.device_models.contains_key(device_type@) && self@.device_models[device_type@] == *m,
                None => !self@.device_models.contains_key(device_type@),
            },
    {
        proof {
            use_type_invariant(self);
        }
        get_entry(&self.device_models, device_type)
    }

    /// Returns the physical LUT shared by layout-aware testbenches.
    pub fn physical_lut(&self) -> (lut: Option<&P>)
        ensures
            match self@.physical_lut {
                Some(p) => lut == Some(&p),
                None => lut is None,
            },
    {
        match &self.physical_lut {
            Some(lut) => Some(lut),
            None => None,
        }
    }

    /// Replaces the execution policy of this exploration.
    pub fn set_execution_config(&mut self, execution: MacroExecutionConfig)
        ensures
            final(self)@ == (MacroExplorationInputView { execution, ..old(self)@ }),
    {
        proof {
            use_type_invariant(&*self);
        }
        self.execution = execution;
    }

    /// Returns the execution policy of this exploration.
    pub fn execution_config(&self) -> (execution: &MacroExecutionConfig)
        ensures
            *execution == self@.execution,
    {
        &self.execution
    }

    /// Returns the input registered for one primitive instance path.
    pub fn primitive_instance(&self, instance_path: &str) -> (input: Option<&PrimitiveInstanceExplorationInput>)
        ensures
            match input {
                Some(i) => self@.primitive_instances.contains_key(instance_path@) && self@.primitive_instances[instance_path@]
                    == *i,
                None => !self@.primitive_instances.contains_key(instance_path@),
            },
    {
        proof {
            use_type_invariant(self);
        }
        get_entry(&self.primitive_instances, instance_path)
    }

    /// Returns the input registered for one compact submacro instance path.
    pub fn compact_macro_instance(&self, instance_path: &str) -> (input: Option<&CompactMacroInstanceExplorationInput>)
        ensures
            match input {
                Some(i) => self@.compact_macro_instances.contains_key(instance_path@)
                    && self@.compact_macro_instances[instance_path@] == *i,
                None => !self@.compact_macro_instances.contains_key(instance_path@),
            },
    {
        proof {
            use_type_invariant(self);
        }
        get_entry(&self.compact_macro_instances, instance_path)
    }

    /// Returns the runtime value of one design variable.
    pub fn design_variable_override(&self, variable: &str) -> (value: Option<&PrimitiveBuildValue>)
        ensures
            match value {
                Some(v) => self@.design_variable_overrides.contains_key(variable@)
                    && self@.design_variable_overrides[variable@] == build_value_view(*v),
                None => !self@.design_variable_overrides.contains_key(variable@),
            },
    {
        proof {
            use_type_invariant(self);
        }
        get_entry(&self.design_variable_overrides, variable)
    }

    /// Returns the restrictions registered for one design variable, in
    /// registration order (none when it has none).
    pub fn design_variable_conditions(&self, variable: &str) -> (conditions: &[MacroDesignVariableCondition])
        ensures
            condition_views(conditions@) == if self@.design_variable_conditions.contains_key(variable@) {
                self@.design_variable_conditions[variable@]
            } else {
                Seq::<ConditionView>::empty()
            },
    {
        match self.design_variable_conditions.get(variable) {
            Some(conditions) => conditions.as_slice(),
            None => {
                let none: &[MacroDesignVariableCondition] = &[];
                assert(condition_views(none@) =~= Seq::<ConditionView>::empty());
                none
            },
        }
    }

    /// Returns the runtime bounds of one specification.
    pub fn specification_override(&self, specification: &str) -> (bounds: Option<MacroSpecificationBounds>)
        ensures
            bounds == if self@.specification_overrides.contains_key(specification@) {
                Some(self@.specification_overrides[specification@])
            } else {
                None::<MacroSpecificationBounds>
            },
    {
        proof {
            use_type_invariant(self);
        }
        match get_entry(&self.specification_overrides, specification) {
            Some(bounds) => Some(*bounds),
            None => None,
        }
    }

    /// Resolves the build input of every primitive instance with a default or
    /// a direct input: build values from the defaults, then from the
    /// overridden design variables bound to them, then from the direct
    /// input; filters from the defaults, then the direct ones; pre-build
    /// conditions from the direct input, then the restrictions of the design
    /// variables bound to each input.
    pub fn resolve_primitive_defaults(&mut self, macro_: &Macro)
        ensures
            final(self)@ == (MacroExplorationInputView {
                primitive_instances: final(self)@.primitive_instances,
                ..old(self)@
            }),
            resolves_all(macro_, old(self)@, final(self)@.primitive_instances),
    {
        proof {
            use_type_invariant(&*self);
        }
        let resolved = self.resolved_instances(macro_);
        self.primitive_instances = resolved;
    }

    /// The resolved input of every primitive instance with a default or a
    /// direct input.
    #[verifier::rlimit(50)]
    pub(crate) fn resolved_instances(&self, macro_: &Macro) -> (resolved: Vec<(String, PrimitiveInstanceExplorationInput)>)
        ensures
            strictly_sorted(entry_names(resolved@)),
            resolves_all(macro_, self@, entry_map(resolved@)),
    {
        proof {
            use_type_invariant(self);
        }
        let ghost runtime = self@.primitive_instances;
        let ghost ov = self@.design_variable_overrides;
        let ghost cond = self@.design_variable_conditions;
        let ghost variables = macro_.exploration_view().design_variables_view();
        let defaults = macro_.exploration().primitive_defaults();
        let mut resolved: Vec<(String, PrimitiveInstanceExplorationInput)> = Vec::new();
        let n = defaults.len();
        let mut i: usize = 0;
        while i < n
            invariant
                n == defaults@.len(),
                defaults@ == macro_.exploration_view().primitive_defaults_view(),
                i <= n,
                runtime == entry_map(self.primitive_instances@),
                ov == entries_map(self.design_variable_overrides@),
                cond == self.design_variable_conditions@,
                variables == macro_.exploration_view().design_variables_view(),
                strictly_sorted(entry_names(self.primitive_instances@)),
                strictly_sorted(entry_names(self.design_variable_overrides@)),
                strictly_sorted(entry_names(resolved@)),
                forall|path: Seq<char>| #[trigger] entry_map(resolved@).contains_key(path) <==> default_for(
                    defaults@.take(i as int),
                    path,
                ) is Some,
                forall|path: Seq<char>| #[trigger] entry_map(resolved@).contains_key(path) ==> resolves_instance(
                    path,
                    default_for(defaults@.take(i as int), path),
                    runtime.get(path),
                    ov,
                    cond,
                    variables,
                    entry_map(resolved@)[path],
                ),
            decreases n - i,
        {
            let default = &defaults[i];
            let path = default.instance_path();
            let direct = get_entry(&self.primitive_instances, path);
            let instance = resolve_instance(
                path,
                Some(default),
                direct,
                &self.design_variable_overrides,
                &self.design_variable_conditions,
                macro_,
            );
            let ghost before = entry_map(resolved@);
            put_entry(&mut resolved, path.to_string(), instance);
            proof {
                let prefix = defaults@.take(i + 1);
                assert(prefix.drop_last() =~= defaults@.take(i as int));
                assert(prefix.last() == defaults@[i as int]);
                assert forall|p: Seq<char>| #[trigger] entry_map(resolved@).contains_key(p) implies resolves_instance(
                    p,
                    default_for(prefix, p),
                    runtime.get(p),
                    ov,
                    cond,
                    variables,
                    entry_map(resolved@)[p],
                ) by {
                    if p == path@ {
                        assert(runtime.get(p) == match direct {
                            Some(r) => Some(*r),
                            None => None::<PrimitiveInstanceExplorationInput>,
                        });
                    }
                }
            }
            i = i + 1;
        }
        assert(defaults@.take(n as int) =~= defaults@);
        let entries = &self.primitive_instances;
        let m = entries.len();
        let mut k: usize = 0;
        proof {
            assert forall|p: Seq<char>| runtime.contains_key(p) implies exists|q: int|
                0 <= q < entries@.len() && (#[trigger] entries@[q]).0@ == p by {
                if forall|q: int| 0 <= q < entries@.len() ==> (#[trigger] entries@[q]).0@ != p {
                    crate::entries::lemma_absent_entry(entries@, p);
                }
            }
        }
        while k < m
            invariant
                m == entries@.len(),
                k <= m,
                entries@ == self.primitive_instances@,
                runtime == entry_map(self.primitive_instances@),
                ov == entries_map(self.design_variable_overrides@),
                cond == self.design_variable_conditions@,
                variables == macro_.exploration_view().design_variables_view(),
                defaults@ == macro_.exploration_view().primitive_defaults_view(),
                strictly_sorted(entry_names(self.primitive_instances@)),
                strictly_sorted(entry_names(self.design_variable_overrides@)),
                strictly_sorted(entry_names(resolved@)),
                forall|path: Seq<char>| #[trigger] entry_map(resolved@).contains_key(path) <==> default_for(defaults@, path)
                    is Some || exists|q: int| 0 <= q < k && (#[trigger] entries@[q]).0@ == path,
                forall|path: Seq<char>| #[trigger] entry_map(resolved@).contains_key(path) ==> resolves_instance(
                    path,
                    default_for(defaults@, path),
                    runtime.get(path),
                    ov,
                    cond,
                    variables,
                    entry_map(resolved@)[path],
                ),
            decreases m - k,
        {
            let path = entries[k].0.as_str();
            proof {
                crate::entries::lemma_sorted_entry(entries@, k as int);
            }
            if get_entry(&resolved, path).is_none() {
                let instance = resolve_instance(
                    path,
                    None,
                    Some(&entries[k].1),
                    &self.design_variable_overrides,
                    &self.design_variable_conditions,
                    macro_,
                );
                put_entry(&mut resolved, path.to_string(), instance);
            }
            proof {
                assert forall|p: Seq<char>| #[trigger] entry_map(resolved@).contains_key(p) <==> default_for(defaults@, p)
                    is Some || exists|q: int| 0 <= q < k + 1 && (#[trigger] entries@[q]).0@ == p by {
                    if exists|q: int| 0 <= q < k + 1 && (#[trigger] entries@[q]).0@ == p {
                        let q = choose|q: int| 0 <= q < k + 1 && (#[trigger] entries@[q]).0@ == p;
                        if q < k {
                            assert(exists|q2: int| 0 <= q2 < k && (#[trigger] entries@[q2]).0@ == p);
                        }
                    }
                }
            }
            k = k + 1;
        }
        proof {
            assert forall|p: Seq<char>| #[trigger] entry_map(resolved@).contains_key(p) <==> runtime.contains_key(p)
                || default_for(defaults@, p) is Some by {
                if exists|q: int| 0 <= q < m && (#[trigger] entries@[q]).0@ == p {
                    let q = choose|q: int| 0 <= q < m && (#[trigger] entries@[q]).0@ == p;
                    crate::entries::lemma_sorted_entry(entries@, q);
                }
            }
        }
        resolved
    }

    /// The effective bounds of every specification of the macro, in
    /// declaration order, or the error of the first one that has none.
    pub fn effective_specification_bounds(&self, macro_: &Macro) -> (result: Result<
        Vec<MacroSpecificationBounds>,
        MacroExplorationInputValidationError,
    >)
        ensures
            match result {
                Ok(bounds) => bounds@.len() == macro_.exploration_view().specifications_view().len() && forall|i: int|
                    0 <= i < bounds@.len() ==> effective_bounds(
                        self@.specification_overrides,
                        self@.inherited_specification_bounds,
                        #[trigger] macro_.exploration_view().specifications_view()[i],
                    ) == Ok::<MacroSpecificationBounds, SpecificationBoundsFault>(bounds@[i]),
                Err(error) => exists|i: int|
                    0 <= i < macro_.exploration_view().specifications_view().len() && (forall|k: int|
                        0 <= k < i ==> effective_bounds(
                            self@.specification_overrides,
                            self@.inherited_specification_bounds,
                            #[trigger] macro_.exploration_view().specifications_view()[k],
                        ) is Ok) && reports_bounds_fault(
                        macro_.name_view(),
                        macro_.exploration_view().specifications_view()[i].name_view(),
                        effective_bounds(
                            self@.specification_overrides,
                            self@.inherited_specification_bounds,
                            macro_.exploration_view().specifications_view()[i],
                        ),
                        error,
                    ),
            },
    {
        proof {
            use_type_invariant(self);
        }
        let ghost overrides = self@.specification_overrides;
        let ghost inherited = self@.inherited_specification_bounds;
        let specifications = macro_.exploration().specifications();
        let mut effective: Vec<MacroSpecificationBounds> = Vec::new();
        let n = specifications.len();
        let mut i: usize = 0;
        while i < n
            invariant
                n == specifications@.len(),
                specifications@ == macro_.exploration_view().specifications_view(),
                overrides == entry_map(self.specification_overrides@),
                inherited == entry_map(self.inherited_specification_bounds@),
                strictly_sorted(entry_names(self.specification_overrides@)),
                strictly_sorted(entry_names(self.inherited_specification_bounds@)),
                i <= n,
                effective@.len() == i,
                forall|k: int| 0 <= k < i ==> effective_bounds(overrides, inherited, #[trigger] specifications@[k])
                    == Ok::<MacroSpecificationBounds, SpecificationBoundsFault>(effective@[k]),
            decreases n - i,
        {
            let specification = &specifications[i];
            let name = specification.name();
            let ghost outcome = effective_bounds(overrides, inherited, specifications@[i as int]);
            let base = match get_entry(&self.specification_overrides, name) {
                Some(bounds) => *bounds,
                None => specification.bounds(),
            };
            if !base.is_valid() {
                return Err(
                    MacroExplorationInputValidationError::InvalidSpecificationBounds {
                        macro_name: macro_.name().to_string(),
                        specification: name.to_string(),
                    },
                );
            }
            let bounds = match get_entry(&self.inherited_specification_bounds, name) {
                Some(parent) => {
                    if !parent.is_valid() {
                        return Err(
                            MacroExplorationInputValidationError::InvalidSpecificationBounds {
                                macro_name: macro_.name().to_string(),
                                specification: name.to_string(),
                            },
                        );
                    }
                    match base.intersection(*parent) {
                        Some(both) => both,
                        None => {
                            return Err(
                                MacroExplorationInputValidationError::ConflictingSpecificationBounds {
                                    macro_name: macro_.name().to_string(),
                                    specification: name.to_string(),
                                },
                            );
                        },
                    }
                },
                None => base,
            };
            effective.push(bounds);
            i = i + 1;
        }
        Ok(effective)
    }
}

// ---------------------------------------------------------------------------
// Resolution of primitive build inputs
// ---------------------------------------------------------------------------

/// The column and bounds of a filter.
pub open spec fn filter_view(filter: CandidateFilter) -> (Seq<char>, Option<u64>, Option<u64>) {
    (filter.column_view(), filter.lower(), filter.upper())
}

/// The views of a list of filters.
pub open spec fn filter_views(filters: Seq<CandidateFilter>) -> Seq<(Seq<char>, Option<u64>, Option<u64>)> {
    filters.map_values(|f: CandidateFilter| filter_view(f))
}

/// Appends copies of `filters` to `out`.
fn append_filters(out: &mut Vec<CandidateFilter>, filters: &[CandidateFilter])
    ensures
        filter_views(final(out)@) == filter_views(old(out)@) + filter_views(filters@),
{
    let ghost start = out@;
    let n = filters.len();
    let mut i: usize = 0;
    while i < n
        invariant
            n == filters@.len(),
            i <= n,
            out@.len() == start.len() + i,
            forall|k: int| 0 <= k < start.len() ==> #[trigger] out@[k] == start[k],
            forall|k: int| 0 <= k < i ==> filter_view(#[trigger] out@[start.len() + k]) == filter_view(filters@[k]),
        decreases n - i,
    {
        out.push(filters[i].copy());
        i = i + 1;
    }
    assert(filter_views(out@) =~= filter_views(start) + filter_views(filters@)) by {
        assert forall|k: int| 0 <= k < out@.len() implies filter_views(out@)[k] == (filter_views(start) + filter_views(
            filters@,
        ))[k] by {
            if k >= start.len() {
                assert(out@[start.len() + (k - start.len())] == out@[k]);
            }
        }
    }
}

/// The default a macro gives an instance path: the last one declared for it.
pub open spec fn default_for(defaults: Seq<MacroPrimitiveDefault>, path: Seq<char>) -> Option<MacroPrimitiveDefault>
    decreases defaults.len(),
{
    if defaults.len() == 0 {
        None
    } else if defaults.last().instance_path_view() == path {
        Some(defaults.last())
    } else {
        default_for(defaults.drop_last(), path)
    }
}

/// Binding `k` of the variable ties it to input `input` of instance `path`.
pub open spec fn binding_matches(variable: MacroDesignVariable, k: int, path: Seq<char>, input: Seq<char>) -> bool {
    variable.bindings_view()[k].instance_path_view() == path && variable.bindings_view()[k].input_view() == input
}

/// The design variable named `name` (the first declared with that name) is
/// bound to input `input` of instance `path`.
#[verifier::opaque]
pub open spec fn binds(variables: Seq<MacroDesignVariable>, name: Seq<char>, path: Seq<char>, input: Seq<char>) -> bool {
    match first_named(variable_names(variables), name) {
        Some(i) => exists|k: int|
            0 <= k < variables[i].bindings_view().len() && binding_matches(variables[i], k, path, input),
        None => false,
    }
}

/// The build values of instance `path` resolved from its default values
/// `base`, the design-variable `overrides` and its direct values `direct`:
/// a direct value wins, then the value of a variable bound to the input (one
/// of them when several are), then the default.
#[verifier::opaque]
pub open spec fn resolves_values(
    path: Seq<char>,
    base: Map<Seq<char>, BuildValueView>,
    overrides: Map<Seq<char>, BuildValueView>,
    direct: Map<Seq<char>, BuildValueView>,
    variables: Seq<MacroDesignVariable>,
    values: Map<Seq<char>, BuildValueView>,
) -> bool {
    &&& forall|x: Seq<char>| #[trigger] values.contains_key(x) <==> direct.contains_key(x) || base.contains_key(x) || exists|n: Seq<char>|
        overrides.contains_key(n) && #[trigger] binds(variables, n, path, x)
    &&& forall|x: Seq<char>| #[trigger] direct.contains_key(x) ==> values[x] == direct[x]
    &&& forall|x: Seq<char>|
        !direct.contains_key(x) && (exists|n: Seq<char>| overrides.contains_key(n) && #[trigger] binds(variables, n, path, x))
            ==> exists|n: Seq<char>| overrides.contains_key(n) && #[trigger] binds(variables, n, path, x) && #[trigger] values[x] == overrides[n]
    &&& forall|x: Seq<char>|
        !direct.contains_key(x) && !(exists|n: Seq<char>| overrides.contains_key(n) && #[trigger] binds(variables, n, path, x))
            && #[trigger] base.contains_key(x) ==> values[x] == base[x]
}

/// One of the first `j` overrides names a variable bound to input `x` of
/// instance `path`.
pub open spec fn overridden_by_prefix(
    variables: Seq<MacroDesignVariable>,
    overrides: Seq<(String, PrimitiveBuildValue)>,
    j: int,
    path: Seq<char>,
    x: Seq<char>,
) -> bool {
    exists|k: int| 0 <= k < j && #[trigger] binds(variables, overrides[k].0@, path, x)
}

/// Some binding of the variable ties it to input `x` of instance `path`.
pub open spec fn variable_binds(variable: MacroDesignVariable, path: Seq<char>, x: Seq<char>) -> bool {
    exists|k: int| 0 <= k < variable.bindings_view().len() && #[trigger] binding_matches(variable, k, path, x)
}

/// What the name binds is what the variable it names binds.
proof fn lemma_binds(variables: Seq<MacroDesignVariable>, name: Seq<char>, path: Seq<char>)
    ensures
        forall|x: Seq<char>| #[trigger] binds(variables, name, path, x) == match first_named(variable_names(variables), name) {
            Some(i) => variable_binds(variables[i], path, x),
            None => false,
        },
{
    reveal(binds);
}

/// Gives `value` to every input of instance `path` the variable is bound to.
fn apply_override(values: &mut PrimitiveBuildInput, variable: &MacroDesignVariable, path: &str, value: &PrimitiveBuildValue)
    ensures
        forall|x: Seq<char>| #[trigger] final(values)@.contains_key(x) <==> old(values)@.contains_key(x)
            || variable_binds(*variable, path@, x),
        forall|x: Seq<char>| #[trigger] variable_binds(*variable, path@, x) ==> final(values)@[x] == build_value_view(*value),
        forall|x: Seq<char>| !variable_binds(*variable, path@, x) && #[trigger] old(values)@.contains_key(x)
            ==> final(values)@[x] == old(values)@[x],
{
    let ghost before = values@;
    let ghost view = build_value_view(*value);
    let bindings = variable.bindings();
    let b = bindings.len();
    let mut q: usize = 0;
    while q < b
        invariant
            b == bindings@.len(),
            bindings@ == variable.bindings_view(),
            q <= b,
            view == build_value_view(*value),
            forall|x: Seq<char>| #[trigger] values@.contains_key(x) <==> before.contains_key(x) || exists|k: int|
                0 <= k < q && #[trigger] binding_matches(*variable, k, path@, x),
            forall|x: Seq<char>| (exists|k: int| 0 <= k < q && #[trigger] binding_matches(*variable, k, path@, x))
                ==> #[trigger] values@[x] == view,
            forall|x: Seq<char>|
                !(exists|k: int| 0 <= k < q && #[trigger] binding_matches(*variable, k, path@, x))
                    && #[trigger] before.contains_key(x) ==> values@[x] == before[x],
        decreases b - q,
    {
        if str_eq(bindings[q].instance_path(), path) {
            let ghost input = bindings@[q as int].input_view();
            values.insert(bindings[q].input().to_string(), copy_build_value(value));
            assert(binding_matches(*variable, q as int, path@, input));
        }
        q = q + 1;
    }
}

/// One more override adds the inputs its variable binds.
proof fn lemma_prefix_step(
    variables: Seq<MacroDesignVariable>,
    overrides: Seq<(String, PrimitiveBuildValue)>,
    j: int,
    path: Seq<char>,
)
    requires
        0 <= j < overrides.len(),
    ensures
        forall|x: Seq<char>| #[trigger] overridden_by_prefix(variables, overrides, j + 1, path, x) == (overridden_by_prefix(
            variables,
            overrides,
            j,
            path,
            x,
        ) || binds(variables, overrides[j].0@, path, x)),
{
    assert forall|x: Seq<char>| #[trigger] overridden_by_prefix(variables, overrides, j + 1, path, x) == (
    overridden_by_prefix(variables, overrides, j, path, x) || binds(variables, overrides[j].0@, path, x)) by {
        if overridden_by_prefix(variables, overrides, j + 1, path, x) {
            let k = choose|k: int| 0 <= k < j + 1 && #[trigger] binds(variables, overrides[k].0@, path, x);
            if k < j {
                assert(overridden_by_prefix(variables, overrides, j, path, x));
            }
        }
        if overridden_by_prefix(variables, overrides, j, path, x) {
            let k = choose|k: int| 0 <= k < j && #[trigger] binds(variables, overrides[k].0@, path, x);
            assert(binds(variables, overrides[k].0@, path, x));
        }
    }
}

/// The inputs some override binds, by position, are those some overridden
/// name binds.
proof fn lemma_prefix_is_some_override(
    variables: Seq<MacroDesignVariable>,
    overrides: Seq<(String, PrimitiveBuildValue)>,
    path: Seq<char>,
)
    requires
        strictly_sorted(entry_names(overrides)),
    ensures
        forall|x: Seq<char>| #[trigger] overridden_by_prefix(variables, overrides, overrides.len() as int, path, x) == (exists|
            n: Seq<char>,
        | entries_map(overrides).contains_key(n) && #[trigger] binds(variables, n, path, x)),
{
    lemma_entries_map(overrides);
    let ov = entries_map(overrides);
    let m = overrides.len() as int;
    assert forall|x: Seq<char>| #[trigger] overridden_by_prefix(variables, overrides, m, path, x) == (exists|n: Seq<char>|
        ov.contains_key(n) && #[trigger] binds(variables, n, path, x)) by {
        if overridden_by_prefix(variables, overrides, m, path, x) {
            let k = choose|k: int| 0 <= k < m && #[trigger] binds(variables, overrides[k].0@, path, x);
            assert(ov.contains_key(overrides[k].0@));
        }
        if exists|n: Seq<char>| ov.contains_key(n) && #[trigger] binds(variables, n, path, x) {
            let n = choose|n: Seq<char>| ov.contains_key(n) && #[trigger] binds(variables, n, path, x);
            let k = choose|k: int| 0 <= k < overrides.len() && overrides[k].0@ == n;
            assert(binds(variables, overrides[k].0@, path, x));
        }
    }
}

/// The default values of one instance, with every override applied to the
/// inputs its variable is bound to, in order.
fn overridden_values(
    path: &str,
    base: PrimitiveBuildInput,
    overrides: &Vec<(String, PrimitiveBuildValue)>,
    macro_: &Macro,
) -> (values: PrimitiveBuildInput)
    requires
        strictly_sorted(entry_names(overrides@)),
    ensures
        forall|x: Seq<char>| #[trigger] values@.contains_key(x) <==> base@.contains_key(x) || overridden_by_prefix(
            macro_.exploration_view().design_variables_view(),
            overrides@,
            overrides@.len() as int,
            path@,
            x,
        ),
        forall|x: Seq<char>|
            overridden_by_prefix(
                macro_.exploration_view().design_variables_view(),
                overrides@,
                overrides@.len() as int,
                path@,
                x,
            ) ==> exists|k: int|
                0 <= k < overrides@.len() && #[trigger] binds(
                    macro_.exploration_view().design_variables_view(),
                    overrides@[k].0@,
                    path@,
                    x,
                ) && #[trigger] values@[x] == build_value_view(overrides@[k].1),
        forall|x: Seq<char>|
            !overridden_by_prefix(
                macro_.exploration_view().design_variables_view(),
                overrides@,
                overrides@.len() as int,
                path@,
                x,
            ) && #[trigger] base@.contains_key(x) ==> values@[x] == base@[x],
{
    let ghost variables = macro_.exploration_view().design_variables_view();
    let ghost start = base@;
    let mut values = base;
    let m = overrides.len();
    let mut j: usize = 0;
    while j < m
        invariant
            m == overrides@.len(),
            j <= m,
            variables == macro_.exploration_view().design_variables_view(),
            forall|x: Seq<char>| #[trigger] values@.contains_key(x) <==> start.contains_key(x) || overridden_by_prefix(
                variables,
                overrides@,
                j as int,
                path@,
                x,
            ),
            forall|x: Seq<char>|
                overridden_by_prefix(variables, overrides@, j as int, path@, x) ==> exists|k: int|
                    0 <= k < j && #[trigger] binds(variables, overrides@[k].0@, path@, x) && #[trigger] values@[x]
                        == build_value_view(overrides@[k].1),
            forall|x: Seq<char>|
                !overridden_by_prefix(variables, overrides@, j as int, path@, x) && #[trigger] start.contains_key(x)
                    ==> values@[x] == start[x],
        decreases m - j,
    {
        let ghost name = overrides@[j as int].0@;
        let ghost view = build_value_view(overrides@[j as int].1);
        let ghost before = values@;
        proof {
            lemma_binds(variables, name, path@);
        }
        match macro_.exploration().design_variable(overrides[j].0.as_str()) {
            None => {},
            Some(variable) => {
                apply_override(&mut values, variable, path, &overrides[j].1);
            },
        }
        assert(forall|x: Seq<char>| #[trigger] values@.contains_key(x) <==> before.contains_key(x) || binds(
            variables,
            name,
            path@,
            x,
        ));
        assert(forall|x: Seq<char>| #[trigger] binds(variables, name, path@, x) ==> values@[x] == view);
        assert(forall|x: Seq<char>| !binds(variables, name, path@, x) && #[trigger] before.contains_key(x) ==> values@[x]
            == before[x]);
        proof {
            lemma_prefix_step(variables, overrides@, j as int, path@);
            assert forall|x: Seq<char>|
                !overridden_by_prefix(variables, overrides@, j + 1, path@, x) && #[trigger] start.contains_key(x) implies values@[x]
                    == start[x] by {
                assert(!overridden_by_prefix(variables, overrides@, j as int, path@, x));
                assert(!binds(variables, name, path@, x));
                assert(before.contains_key(x));
            }
            assert forall|x: Seq<char>| overridden_by_prefix(variables, overrides@, j + 1, path@, x) implies exists|k: int|
                0 <= k < j + 1 && #[trigger] binds(variables, overrides@[k].0@, path@, x) && #[trigger] values@[x]
                    == build_value_view(overrides@[k].1) by {
                if binds(variables, name, path@, x) {
                    assert(binds(variables, overrides@[j as int].0@, path@, x) && values@[x] == build_value_view(
                        overrides@[j as int].1,
                    ));
                } else {
                    assert(overridden_by_prefix(variables, overrides@, j as int, path@, x));
                    let k = choose|k: int|
                        0 <= k < j && #[trigger] binds(variables, overrides@[k].0@, path@, x) && #[trigger] before[x]
                            == build_value_view(overrides@[k].1);
                    assert(before.contains_key(x));
                    assert(binds(variables, overrides@[k].0@, path@, x) && values@[x] == build_value_view(
                        overrides@[k].1,
                    ));
                }
            }
        }
        j = j + 1;
    }
    values
}

/// Puts every direct value over the values of an instance.
fn apply_direct_values(values: &mut PrimitiveBuildInput, direct: &PrimitiveBuildInput)
    ensures
        final(values)@ == old(values)@.union_prefer_right(direct@),
{
    let entries = direct.as_entries();
    let ghost start = values@;
    let n = entries.len();
    let mut i: usize = 0;
    proof {
        lemma_entries_map(entries@);
    }
    while i < n
        invariant
            n == entries@.len(),
            i <= n,
            strictly_sorted(entry_names(entries@)),
            values@ == start.union_prefer_right(entries_map(entries@.take(i as int))),
        decreases n - i,
    {
        let ghost before = values@;
        values.insert(entries[i].0.clone(), copy_build_value(&entries[i].1));
        proof {
            let prefix = entries@.take(i as int);
            let longer = entries@.take(i + 1);
            assert(longer =~= prefix.push(entries@[i as int]));
            assert(entry_names(longer) =~= entry_names(entries@).take(i + 1));
            assert(strictly_sorted(entry_names(longer)));
            lemma_entries_map_push(prefix, entries@[i as int]);
            assert(values@ =~= start.union_prefer_right(entries_map(longer)));
        }
        i = i + 1;
    }
    assert(entries@.take(n as int) =~= entries@);
}

/// Overridden default values under direct values resolve the instance.
proof fn lemma_resolves_values(
    path: Seq<char>,
    base: Map<Seq<char>, BuildValueView>,
    overrides: Seq<(String, PrimitiveBuildValue)>,
    direct: Map<Seq<char>, BuildValueView>,
    variables: Seq<MacroDesignVariable>,
    mid: Map<Seq<char>, BuildValueView>,
    values: Map<Seq<char>, BuildValueView>,
)
    requires
        strictly_sorted(entry_names(overrides)),
        forall|x: Seq<char>| #[trigger] mid.contains_key(x) <==> base.contains_key(x) || overridden_by_prefix(
            variables,
            overrides,
            overrides.len() as int,
            path,
            x,
        ),
        forall|x: Seq<char>|
            overridden_by_prefix(variables, overrides, overrides.len() as int, path, x) ==> exists|k: int|
                0 <= k < overrides.len() && #[trigger] binds(variables, overrides[k].0@, path, x) && #[trigger] mid[x]
                    == build_value_view(overrides[k].1),
        forall|x: Seq<char>|
            !overridden_by_prefix(variables, overrides, overrides.len() as int, path, x) && #[trigger] base.contains_key(x)
                ==> mid[x] == base[x],
        values == mid.union_prefer_right(direct),
    ensures
        resolves_values(path, base, entries_map(overrides), direct, variables, values),
{
    reveal(resolves_values);
    lemma_entries_map(overrides);
    lemma_prefix_is_some_override(variables, overrides, path);
    let ov = entries_map(overrides);
    let m = overrides.len() as int;
    assert forall|x: Seq<char>|
        !direct.contains_key(x) && (exists|n: Seq<char>| ov.contains_key(n) && #[trigger] binds(variables, n, path, x))
            implies exists|n: Seq<char>| ov.contains_key(n) && #[trigger] binds(variables, n, path, x) && #[trigger] values[x]
                == ov[n] by {
        assert(overridden_by_prefix(variables, overrides, m, path, x));
        let k = choose|k: int|
            0 <= k < overrides.len() && #[trigger] binds(variables, overrides[k].0@, path, x) && #[trigger] mid[x]
                == build_value_view(overrides[k].1);
        assert(ov[overrides[k].0@] == build_value_view(overrides[k].1));
        assert(ov.contains_key(overrides[k].0@));
    }
    assert forall|x: Seq<char>|
        !direct.contains_key(x) && !(exists|n: Seq<char>| ov.contains_key(n) && #[trigger] binds(variables, n, path, x))
            && #[trigger] base.contains_key(x) implies values[x] == base[x] by {
        assert(!overridden_by_prefix(variables, overrides, m, path, x));
    }
}

/// The build values of one instance: its default values, the values of the
/// design variables bound to it, then its direct values.
fn resolve_values(
    path: &str,
    default: Option<&MacroPrimitiveDefault>,
    direct: Option<&PrimitiveInstanceExplorationInput>,
    overrides: &Vec<(String, PrimitiveBuildValue)>,
    macro_: &Macro,
) -> (values: PrimitiveBuildInput)
    requires
        strictly_sorted(entry_names(overrides@)),
    ensures
        resolves_values(
            path@,
            match default {
                Some(d) => d.build_input_view()@,
                None => Map::<Seq<char>, BuildValueView>::empty(),
            },
            entries_map(overrides@),
            match direct {
                Some(r) => r.build_input_view()@,
                None => Map::<Seq<char>, BuildValueView>::empty(),
            },
            macro_.exploration_view().design_variables_view(),
            values@,
        ),
{
    let ghost variables = macro_.exploration_view().design_variables_view();
    let ghost ov = entries_map(overrides@);
    let base = match default {
        Some(d) => d.build_input().clone(),
        None => PrimitiveBuildInput::default(),
    };
    let ghost base_view = base@;
    let mut values = overridden_values(path, base, overrides, macro_);
    let ghost mid = values@;
    let direct_values = match direct {
        Some(r) => r.build_input().clone(),
        None => PrimitiveBuildInput::default(),
    };
    apply_direct_values(&mut values, &direct_values);
    proof {
        lemma_resolves_values(path@, base_view, overrides@, direct_values@, variables, mid, values@);
    }
    values
}

/// The conditions listed under `x`, or none.
pub open spec fn conditions_or_empty(conditions: Map<Seq<char>, Seq<ConditionView>>, x: Seq<char>) -> Seq<ConditionView> {
    if conditions.contains_key(x) {
        conditions[x]
    } else {
        Seq::empty()
    }
}

/// `after` starts with `start`, and every condition added after it is one
/// of `added`.
pub open spec fn extends_with(start: Seq<ConditionView>, after: Seq<ConditionView>, added: Seq<ConditionView>) -> bool {
    &&& after.len() >= start.len()
    &&& after.take(start.len() as int) == start
    &&& forall|i: int| start.len() <= i < after.len() ==> added.contains(#[trigger] after[i])
}

/// Adds `conditions` to every input of instance `path` the variable is bound
/// to, once per binding.
fn apply_conditions(
    result: &mut PrimitiveInputConditions,
    variable: &MacroDesignVariable,
    path: &str,
    conditions: &Vec<MacroDesignVariableCondition>,
)
    ensures
        forall|x: Seq<char>| #[trigger] final(result)@.contains_key(x) <==> old(result)@.contains_key(x)
            || variable_binds(*variable, path@, x),
        forall|x: Seq<char>| #[trigger] variable_binds(*variable, path@, x) ==> extends_with(
            conditions_or_empty(old(result)@, x),
            final(result)@[x],
            condition_views(conditions@),
        ) && forall|i: int|
            0 <= i < condition_views(conditions@).len() ==> final(result)@[x].subrange(
                conditions_or_empty(old(result)@, x).len() as int,
                final(result)@[x].len() as int,
            ).contains(#[trigger] condition_views(conditions@)[i]),
        forall|x: Seq<char>| !variable_binds(*variable, path@, x) && #[trigger] old(result)@.contains_key(x)
            ==> final(result)@[x] == old(result)@[x],
{
    let ghost before = result@;
    let ghost added = condition_views(conditions@);
    let bindings = variable.bindings();
    let b = bindings.len();
    let mut q: usize = 0;
    while q < b
        invariant
            b == bindings@.len(),
            bindings@ == variable.bindings_view(),
            q <= b,
            added == condition_views(conditions@),
            forall|x: Seq<char>| #[trigger] result@.contains_key(x) <==> before.contains_key(x) || exists|k: int|
                0 <= k < q && #[trigger] binding_matches(*variable, k, path@, x),
            forall|x: Seq<char>| (exists|k: int| 0 <= k < q && #[trigger] binding_matches(*variable, k, path@, x)) ==> extends_with(
                conditions_or_empty(before, x),
                #[trigger] result@[x],
                added,
            ) && forall|i: int|
                0 <= i < added.len() ==> result@[x].subrange(
                    conditions_or_empty(before, x).len() as int,
                    result@[x].len() as int,
                ).contains(#[trigger] added[i]),
            forall|x: Seq<char>|
                !(exists|k: int| 0 <= k < q && #[trigger] binding_matches(*variable, k, path@, x))
                    && #[trigger] before.contains_key(x) ==> result@[x] == before[x],
        decreases b - q,
    {
        if str_eq(bindings[q].instance_path(), path) {
            let ghost input = bindings@[q as int].input_view();
            let ghost prior = result@;
            result.add(bindings[q].input().to_string(), conditions);
            proof {
                assert(binding_matches(*variable, q as int, path@, input));
                let start = conditions_or_empty(before, input);
                let old_list = conditions_or_empty(prior, input);
                let new_list = result@[input];
                assert(new_list == old_list + added);
                if exists|k: int| 0 <= k < q && #[trigger] binding_matches(*variable, k, path@, input) {
                    assert(extends_with(start, old_list, added));
                    assert forall|i: int| start.len() <= i < new_list.len() implies added.contains(#[trigger] new_list[i]) by {
                        if i < old_list.len() {
                            assert(new_list[i] == old_list[i]);
                        } else {
                            assert(new_list[i] == added[i - old_list.len()]);
                        }
                    }
                    assert(new_list.take(start.len() as int) =~= old_list.take(start.len() as int));
                    assert forall|i: int| 0 <= i < added.len() implies new_list.subrange(
                        start.len() as int,
                        new_list.len() as int,
                    ).contains(#[trigger] added[i]) by {
                        let tail = new_list.subrange(start.len() as int, new_list.len() as int);
                        assert(tail[(old_list.len() - start.len()) + i] == added[i]);
                    }
                } else {
                    if before.contains_key(input) {
                        assert(prior[input] == before[input]);
                    } else {
                        assert(!prior.contains_key(input));
                    }
                    assert(old_list == start);
                    assert(new_list.take(start.len() as int) =~= start);
                    assert forall|i: int| start.len() <= i < new_list.len() implies added.contains(#[trigger] new_list[i]) by {
                        assert(new_list[i] == added[i - start.len()]);
                    }
                    assert forall|i: int| 0 <= i < added.len() implies new_list.subrange(
                        start.len() as int,
                        new_list.len() as int,
                    ).contains(#[trigger] added[i]) by {
                        let tail = new_list.subrange(start.len() as int, new_list.len() as int);
                        assert(tail[i] == added[i]);
                    }
                }
            }
        }
        q = q + 1;
    }
}

/// What stays in a list that only grew stays in its tail from `lo`.
proof fn lemma_tail_grows(old: Seq<ConditionView>, new: Seq<ConditionView>, lo: int)
    requires
        0 <= lo <= old.len() <= new.len(),
        new.take(old.len() as int) == old,
    ensures
        forall|c: ConditionView| #[trigger] old.subrange(lo, old.len() as int).contains(c) ==> new.subrange(
            lo,
            new.len() as int,
        ).contains(c),
{
    assert forall|c: ConditionView| #[trigger] old.subrange(lo, old.len() as int).contains(c) implies new.subrange(
        lo,
        new.len() as int,
    ).contains(c) by {
        let t = old.subrange(lo, old.len() as int);
        let i = choose|i: int| 0 <= i < t.len() && t[i] == c;
        assert(old[lo + i] == new.take(old.len() as int)[lo + i]);
        assert(new.subrange(lo, new.len() as int)[i] == c);
    }
}

/// A tail from `mid` lies inside the tail from `lo <= mid`.
proof fn lemma_tail_within(list: Seq<ConditionView>, lo: int, mid: int)
    requires
        0 <= lo <= mid <= list.len(),
    ensures
        forall|c: ConditionView| #[trigger] list.subrange(mid, list.len() as int).contains(c) ==> list.subrange(
            lo,
            list.len() as int,
        ).contains(c),
{
    assert forall|c: ConditionView| #[trigger] list.subrange(mid, list.len() as int).contains(c) implies list.subrange(
        lo,
        list.len() as int,
    ).contains(c) by {
        let t = list.subrange(mid, list.len() as int);
        let i = choose|i: int| 0 <= i < t.len() && t[i] == c;
        assert(list.subrange(lo, list.len() as int)[(mid - lo) + i] == c);
    }
}

/// One of the first `j` restriction entries names a variable bound to input
/// `x` of instance `path`.
pub open spec fn conditioned_by_prefix(
    variables: Seq<MacroDesignVariable>,
    entries: Seq<(String, Vec<MacroDesignVariableCondition>)>,
    j: int,
    path: Seq<char>,
    x: Seq<char>,
) -> bool {
    exists|k: int| 0 <= k < j && #[trigger] binds(variables, entries[k].0@, path, x)
}

/// Condition `c` is one of a design variable bound to input `x` of instance
/// `path`.
pub open spec fn bound_condition(
    conditions: Map<Seq<char>, Seq<ConditionView>>,
    variables: Seq<MacroDesignVariable>,
    path: Seq<char>,
    x: Seq<char>,
    c: ConditionView,
) -> bool {
    exists|n: Seq<char>| conditions.contains_key(n) && #[trigger] binds(variables, n, path, x) && conditions[n].contains(c)
}

/// The pre-build conditions of instance `path`: its own conditions first,
/// then conditions of the design variables bound to each input (every
/// condition of every such variable, in some order).
#[verifier::opaque]
pub open spec fn resolves_conditions(
    path: Seq<char>,
    own: Map<Seq<char>, Seq<ConditionView>>,
    conditions: Map<Seq<char>, Seq<ConditionView>>,
    variables: Seq<MacroDesignVariable>,
    result: Map<Seq<char>, Seq<ConditionView>>,
) -> bool {
    &&& forall|x: Seq<char>| #[trigger] result.contains_key(x) <==> own.contains_key(x) || exists|n: Seq<char>|
        conditions.contains_key(n) && #[trigger] binds(variables, n, path, x)
    &&& forall|x: Seq<char>| #[trigger] result.contains_key(x) ==> {
        &&& result[x].len() >= conditions_or_empty(own, x).len()
        &&& result[x].take(conditions_or_empty(own, x).len() as int) == conditions_or_empty(own, x)
        &&& forall|i: int| conditions_or_empty(own, x).len() <= i < result[x].len() ==> bound_condition(
            conditions,
            variables,
            path,
            x,
            #[trigger] result[x][i],
        )
    }
    &&& forall|x: Seq<char>, n: Seq<char>, i: int|
        conditions.contains_key(n) && #[trigger] binds(variables, n, path, x) && 0 <= i < conditions[n].len()
            ==> result[x].subrange(conditions_or_empty(own, x).len() as int, result[x].len() as int).contains(
            #[trigger] conditions[n][i],
        )
}

/// Condition `c` belongs to one of the first `j` restriction entries whose
/// variable is bound to input `x` of instance `path`.
pub open spec fn added_by_prefix(
    variables: Seq<MacroDesignVariable>,
    entries: Seq<(String, Vec<MacroDesignVariableCondition>)>,
    j: int,
    path: Seq<char>,
    x: Seq<char>,
    c: ConditionView,
) -> bool {
    exists|k: int|
        0 <= k < j && #[trigger] binds(variables, entries[k].0@, path, x) && condition_views(entries[k].1@).contains(c)
}

/// The resolved list of one input keeps its own conditions first, and every
/// later one comes from one of the first `j` restriction entries.
pub open spec fn keeps_own_then_added(
    variables: Seq<MacroDesignVariable>,
    entries: Seq<(String, Vec<MacroDesignVariableCondition>)>,
    j: int,
    path: Seq<char>,
    x: Seq<char>,
    own_x: Seq<ConditionView>,
    list: Seq<ConditionView>,
) -> bool {
    &&& list.len() >= own_x.len()
    &&& list.take(own_x.len() as int) == own_x
    &&& forall|i: int| own_x.len() <= i < list.len() ==> added_by_prefix(variables, entries, j, path, x, #[trigger] list[i])
}

/// One more restriction entry keeps what was added before and adds its own
/// conditions to the inputs its variable binds.
proof fn lemma_keeps_step(
    variables: Seq<MacroDesignVariable>,
    entries: Seq<(String, Vec<MacroDesignVariableCondition>)>,
    j: int,
    path: Seq<char>,
    x: Seq<char>,
    own_x: Seq<ConditionView>,
    old_x: Seq<ConditionView>,
    new_x: Seq<ConditionView>,
)
    requires
        0 <= j < entries.len(),
        keeps_own_then_added(variables, entries, j, path, x, own_x, old_x),
        binds(variables, entries[j].0@, path, x),
        extends_with(old_x, new_x, condition_views(entries[j].1@)),
    ensures
        keeps_own_then_added(variables, entries, j + 1, path, x, own_x, new_x),
{
    assert(new_x.take(old_x.len() as int) == old_x);
    assert forall|i: int| 0 <= i < own_x.len() implies new_x.take(own_x.len() as int)[i] == own_x[i] by {
        assert(new_x[i] == new_x.take(old_x.len() as int)[i]);
        assert(old_x[i] == old_x.take(own_x.len() as int)[i]);
    }
    assert(new_x.take(own_x.len() as int) =~= own_x);
    assert forall|i: int| own_x.len() <= i < new_x.len() implies added_by_prefix(
        variables,
        entries,
        j + 1,
        path,
        x,
        #[trigger] new_x[i],
    ) by {
        if i < old_x.len() {
            assert(new_x[i] == new_x.take(old_x.len() as int)[i]);
            assert(added_by_prefix(variables, entries, j, path, x, old_x[i]));
            let k = choose|k: int|
                0 <= k < j && #[trigger] binds(variables, entries[k].0@, path, x) && condition_views(entries[k].1@).contains(
                    old_x[i],
                );
            assert(binds(variables, entries[k].0@, path, x));
        } else {
            assert(condition_views(entries[j].1@).contains(new_x[i]));
            assert(binds(variables, entries[j].0@, path, x));
        }
    }
}

/// An input no variable of the entry binds keeps what it had.
proof fn lemma_keeps_unchanged(
    variables: Seq<MacroDesignVariable>,
    entries: Seq<(String, Vec<MacroDesignVariableCondition>)>,
    j: int,
    path: Seq<char>,
    x: Seq<char>,
    own_x: Seq<ConditionView>,
    list: Seq<ConditionView>,
)
    requires
        0 <= j < entries.len(),
        keeps_own_then_added(variables, entries, j, path, x, own_x, list),
    ensures
        keeps_own_then_added(variables, entries, j + 1, path, x, own_x, list),
{
    assert forall|i: int| own_x.len() <= i < list.len() implies added_by_prefix(
        variables,
        entries,
        j + 1,
        path,
        x,
        #[trigger] list[i],
    ) by {
        assert(added_by_prefix(variables, entries, j, path, x, list[i]));
        let k = choose|k: int|
            0 <= k < j && #[trigger] binds(variables, entries[k].0@, path, x) && condition_views(entries[k].1@).contains(
                list[i],
            );
        assert(binds(variables, entries[k].0@, path, x));
    }
}

/// The pre-build conditions of one instance: its own, then those of every
/// design variable bound to each of its inputs.
fn resolve_conditions(
    path: &str,
    own: &PrimitiveInputConditions,
    entries: &Vec<(String, Vec<MacroDesignVariableCondition>)>,
    macro_: &Macro,
) -> (result: PrimitiveInputConditions)
    requires
        strictly_sorted(entry_names(entries@)),
    ensures
        resolves_conditions(
            path@,
            own@,
            conditions_map(entries@),
            macro_.exploration_view().design_variables_view(),
            result@,
        ),
{
    let ghost variables = macro_.exploration_view().design_variables_view();
    let ghost start = own@;
    let mut result = own.clone();
    proof {
        assert forall|x: Seq<char>| #[trigger] result@.contains_key(x) implies keeps_own_then_added(
            variables,
            entries@,
            0,
            path@,
            x,
            conditions_or_empty(start, x),
            result@[x],
        ) by {
            assert(result@[x].take(result@[x].len() as int) =~= result@[x]);
        }
    }
    let m = entries.len();
    let mut j: usize = 0;
    while j < m
        invariant
            m == entries@.len(),
            j <= m,
            variables == macro_.exploration_view().design_variables_view(),
            forall|x: Seq<char>| #[trigger] result@.contains_key(x) <==> start.contains_key(x) || conditioned_by_prefix(
                variables,
                entries@,
                j as int,
                path@,
                x,
            ),
            forall|x: Seq<char>| #[trigger] result@.contains_key(x) ==> keeps_own_then_added(
                variables,
                entries@,
                j as int,
                path@,
                x,
                conditions_or_empty(start, x),
                result@[x],
            ),
            forall|x: Seq<char>, k: int, i: int|
                0 <= k < j && #[trigger] binds(variables, entries@[k].0@, path@, x) && 0 <= i < condition_views(
                    entries@[k].1@,
                ).len() ==> result@[x].subrange(conditions_or_empty(start, x).len() as int, result@[x].len() as int).contains(
                    #[trigger] condition_views(entries@[k].1@)[i],
                ),
        decreases m - j,
    {
        let ghost name = entries@[j as int].0@;
        let ghost added = condition_views(entries@[j as int].1@);
        let ghost before = result@;
        proof {
            lemma_binds(variables, name, path@);
        }
        match macro_.exploration().design_variable(entries[j].0.as_str()) {
            None => {},
            Some(variable) => {
                apply_conditions(&mut result, variable, path, &entries[j].1);
            },
        }
        assert(forall|x: Seq<char>| #[trigger] result@.contains_key(x) <==> before.contains_key(x) || binds(
            variables,
            name,
            path@,
            x,
        ));
        assert(forall|x: Seq<char>| #[trigger] binds(variables, name, path@, x) ==> extends_with(
            conditions_or_empty(before, x),
            result@[x],
            added,
        ) && forall|i: int|
            0 <= i < added.len() ==> result@[x].subrange(
                conditions_or_empty(before, x).len() as int,
                result@[x].len() as int,
            ).contains(#[trigger] added[i]));
        assert(forall|x: Seq<char>| !binds(variables, name, path@, x) && #[trigger] before.contains_key(x) ==> result@[x]
            == before[x]);
        proof {
            assert forall|x: Seq<char>| #[trigger] conditioned_by_prefix(variables, entries@, j + 1, path@, x) == (
            conditioned_by_prefix(variables, entries@, j as int, path@, x) || binds(variables, name, path@, x)) by {
                if conditioned_by_prefix(variables, entries@, j + 1, path@, x) {
                    let k = choose|k: int| 0 <= k < j + 1 && #[trigger] binds(variables, entries@[k].0@, path@, x);
                    if k < j {
                        assert(conditioned_by_prefix(variables, entries@, j as int, path@, x));
                    }
                }
                if conditioned_by_prefix(variables, entries@, j as int, path@, x) {
                    let k = choose|k: int| 0 <= k < j && #[trigger] binds(variables, entries@[k].0@, path@, x);
                    assert(binds(variables, entries@[k].0@, path@, x));
                }
                if binds(variables, name, path@, x) {
                    assert(binds(variables, entries@[j as int].0@, path@, x));
                }
            }
            assert forall|x: Seq<char>| #[trigger] result@.contains_key(x) implies keeps_own_then_added(
                variables,
                entries@,
                j + 1,
                path@,
                x,
                conditions_or_empty(start, x),
                result@[x],
            ) by {
                let own_x = conditions_or_empty(start, x);
                if binds(variables, name, path@, x) {
                    let old_x = conditions_or_empty(before, x);
                    if before.contains_key(x) {
                        assert(old_x == before[x]);
                        assert(keeps_own_then_added(variables, entries@, j as int, path@, x, own_x, old_x));
                    } else {
                        assert(!start.contains_key(x));
                        assert(own_x =~= Seq::<ConditionView>::empty());
                        assert(old_x.take(0) =~= own_x);
                    }
                    assert(binds(variables, entries@[j as int].0@, path@, x));
                    lemma_keeps_step(variables, entries@, j as int, path@, x, own_x, old_x, result@[x]);
                } else {
                    assert(before.contains_key(x));
                    lemma_keeps_unchanged(variables, entries@, j as int, path@, x, own_x, before[x]);
                }
            }
            assert forall|x: Seq<char>, k: int, i: int|
                0 <= k < j + 1 && #[trigger] binds(variables, entries@[k].0@, path@, x) && 0 <= i < condition_views(
                    entries@[k].1@,
                ).len() implies result@[x].subrange(
                conditions_or_empty(start, x).len() as int,
                result@[x].len() as int,
            ).contains(#[trigger] condition_views(entries@[k].1@)[i]) by {
                let own_x = conditions_or_empty(start, x);
                let c = condition_views(entries@[k].1@)[i];
                assert(result@.contains_key(x)) by {
                    assert(conditioned_by_prefix(variables, entries@, j + 1, path@, x));
                }
                if binds(variables, name, path@, x) {
                    let old_x = conditions_or_empty(before, x);
                    if before.contains_key(x) {
                        assert(old_x == before[x]);
                        assert(keeps_own_then_added(variables, entries@, j as int, path@, x, own_x, old_x));
                    } else {
                        assert(!start.contains_key(x));
                    }
                    assert(old_x.len() >= own_x.len());
                    if k == j {
                        assert(result@[x].subrange(old_x.len() as int, result@[x].len() as int).contains(added[i]));
                        lemma_tail_within(result@[x], own_x.len() as int, old_x.len() as int);
                    } else {
                        assert(before.contains_key(x));
                        assert(before[x].subrange(own_x.len() as int, before[x].len() as int).contains(c));
                        lemma_tail_grows(before[x], result@[x], own_x.len() as int);
                    }
                } else {
                    if k == j {
                        assert(binds(variables, name, path@, x));
                    }
                    assert(before.contains_key(x));
                    assert(result@[x] == before[x]);
                }
            }
        }
        j = j + 1;
    }
    proof {
        lemma_resolves_conditions(path@, start, entries@, variables, result@);
    }
    result
}

/// Which inputs have resolved conditions, over the restrictions by name.
proof fn lemma_conditions_domain(
    path: Seq<char>,
    own: Map<Seq<char>, Seq<ConditionView>>,
    entries: Seq<(String, Vec<MacroDesignVariableCondition>)>,
    variables: Seq<MacroDesignVariable>,
    result: Map<Seq<char>, Seq<ConditionView>>,
)
    requires
        strictly_sorted(entry_names(entries)),
        forall|x: Seq<char>| #[trigger] result.contains_key(x) <==> own.contains_key(x) || conditioned_by_prefix(
            variables,
            entries,
            entries.len() as int,
            path,
            x,
        ),
    ensures
        forall|x: Seq<char>| #[trigger] result.contains_key(x) <==> own.contains_key(x) || exists|n: Seq<char>|
            conditions_map(entries).contains_key(n) && #[trigger] binds(variables, n, path, x),
{
    lemma_conditions_map(entries);
    let cm = conditions_map(entries);
    let m = entries.len() as int;
    assert forall|x: Seq<char>| #[trigger] result.contains_key(x) <==> own.contains_key(x) || exists|n: Seq<char>|
        cm.contains_key(n) && #[trigger] binds(variables, n, path, x) by {
        if conditioned_by_prefix(variables, entries, m, path, x) {
            let k = choose|k: int| 0 <= k < m && #[trigger] binds(variables, entries[k].0@, path, x);
            assert(cm.contains_key(entries[k].0@));
        }
        if exists|n: Seq<char>| cm.contains_key(n) && #[trigger] binds(variables, n, path, x) {
            let n = choose|n: Seq<char>| cm.contains_key(n) && #[trigger] binds(variables, n, path, x);
            let k = choose|k: int| 0 <= k < entries.len() && entries[k].0@ == n;
            assert(binds(variables, entries[k].0@, path, x));
        }
    }
}

/// Each added condition of an input comes from a restriction by name.
proof fn lemma_conditions_origin(
    path: Seq<char>,
    own_x: Seq<ConditionView>,
    entries: Seq<(String, Vec<MacroDesignVariableCondition>)>,
    variables: Seq<MacroDesignVariable>,
    result_x: Seq<ConditionView>,
    x: Seq<char>,
)
    requires
        strictly_sorted(entry_names(entries)),
        keeps_own_then_added(variables, entries, entries.len() as int, path, x, own_x, result_x),
    ensures
        forall|i: int| own_x.len() <= i < result_x.len() ==> bound_condition(
            conditions_map(entries),
            variables,
            path,
            x,
            #[trigger] result_x[i],
        ),
{
    lemma_conditions_map(entries);
    assert forall|i: int| own_x.len() <= i < result_x.len() implies bound_condition(
        conditions_map(entries),
        variables,
        path,
        x,
        #[trigger] result_x[i],
    ) by {
        assert(added_by_prefix(variables, entries, entries.len() as int, path, x, result_x[i]));
        let k = choose|k: int|
            0 <= k < entries.len() && #[trigger] binds(variables, entries[k].0@, path, x) && condition_views(
                entries[k].1@,
            ).contains(result_x[i]);
        let n = entries[k].0@;
        assert(conditions_map(entries).contains_key(n) && conditions_map(entries)[n] == condition_views(entries[k].1@));
        assert(binds(variables, n, path, x));
        assert(conditions_map(entries)[n].contains(result_x[i]));
    }
}

/// Conditions resolved over every restriction entry, by position, are
/// resolved over the restrictions by name.
proof fn lemma_resolves_conditions(
    path: Seq<char>,
    own: Map<Seq<char>, Seq<ConditionView>>,
    entries: Seq<(String, Vec<MacroDesignVariableCondition>)>,
    variables: Seq<MacroDesignVariable>,
    result: Map<Seq<char>, Seq<ConditionView>>,
)
    requires
        strictly_sorted(entry_names(entries)),
        forall|x: Seq<char>| #[trigger] result.contains_key(x) <==> own.contains_key(x) || conditioned_by_prefix(
            variables,
            entries,
            entries.len() as int,
            path,
            x,
        ),
        forall|x: Seq<char>| #[trigger] result.contains_key(x) ==> keeps_own_then_added(
            variables,
            entries,
            entries.len() as int,
            path,
            x,
            conditions_or_empty(own, x),
            result[x],
        ),
        forall|x: Seq<char>, k: int, i: int|
            0 <= k < entries.len() && #[trigger] binds(variables, entries[k].0@, path, x) && 0 <= i < condition_views(
                entries[k].1@,
            ).len() ==> result[x].subrange(conditions_or_empty(own, x).len() as int, result[x].len() as int).contains(
                #[trigger] condition_views(entries[k].1@)[i],
            ),
    ensures
        resolves_conditions(path, own, conditions_map(entries), variables, result),
{
    reveal(resolves_conditions);
    lemma_conditions_domain(path, own, entries, variables, result);
    lemma_conditions_map(entries);
    let cm = conditions_map(entries);
    assert forall|x: Seq<char>| #[trigger] result.contains_key(x) implies {
        &&& result[x].len() >= conditions_or_empty(own, x).len()
        &&& result[x].take(conditions_or_empty(own, x).len() as int) == conditions_or_empty(own, x)
        &&& forall|i: int| conditions_or_empty(own, x).len() <= i < result[x].len() ==> bound_condition(
            cm,
            variables,
            path,
            x,
            #[trigger] result[x][i],
        )
    } by {
        lemma_conditions_origin(path, conditions_or_empty(own, x), entries, variables, result[x], x);
    }
    assert forall|x: Seq<char>, n: Seq<char>, i: int|
        cm.contains_key(n) && #[trigger] binds(variables, n, path, x) && 0 <= i < cm[n].len() implies result[x].subrange(
        conditions_or_empty(own, x).len() as int,
        result[x].len() as int,
    ).contains(#[trigger] cm[n][i]) by {
        let k = choose|k: int| 0 <= k < entries.len() && entries[k].0@ == n;
        assert(cm[n] == condition_views(entries[k].1@));
        assert(binds(variables, entries[k].0@, path, x));
    }
}

/// One instance resolved from its default (the last one declared for it),
/// its direct input, the design-variable overrides and restrictions: build
/// values as [`resolves_values`] says, the default filters then the direct
/// ones, and conditions as [`resolves_conditions`] says.
pub open spec fn resolves_instance(
    path: Seq<char>,
    default: Option<MacroPrimitiveDefault>,
    direct: Option<PrimitiveInstanceExplorationInput>,
    overrides: Map<Seq<char>, BuildValueView>,
    conditions: Map<Seq<char>, Seq<ConditionView>>,
    variables: Seq<MacroDesignVariable>,
    resolved: PrimitiveInstanceExplorationInput,
) -> bool {
    &&& resolves_values(
        path,
        match default {
            Some(d) => d.build_input_view()@,
            None => Map::<Seq<char>, BuildValueView>::empty(),
        },
        overrides,
        match direct {
            Some(r) => r.build_input_view()@,
            None => Map::<Seq<char>, BuildValueView>::empty(),
        },
        variables,
        resolved.build_input_view()@,
    )
    &&& filter_views(resolved.filters_view()) == filter_views(
        match default {
            Some(d) => d.filters_view(),
            None => Seq::<CandidateFilter>::empty(),
        },
    ) + filter_views(
        match direct {
            Some(r) => r.filters_view(),
            None => Seq::<CandidateFilter>::empty(),
        },
    )
    &&& resolves_conditions(
        path,
        match direct {
            Some(r) => r.prebuild_conditions_view()@,
            None => Map::<Seq<char>, Seq<ConditionView>>::empty(),
        },
        conditions,
        variables,
        resolved.prebuild_conditions_view()@,
    )
}

/// Every primitive instance with a default or a direct input is resolved,
/// and no other.
pub open spec fn resolves_all<D, P>(
    macro_: &Macro,
    input: MacroExplorationInputView<D, P>,
    resolved: Map<Seq<char>, PrimitiveInstanceExplorationInput>,
) -> bool {
    &&& forall|path: Seq<char>| #[trigger] resolved.contains_key(path) <==> input.primitive_instances.contains_key(path)
        || default_for(macro_.exploration_view().primitive_defaults_view(), path) is Some
    &&& forall|path: Seq<char>| #[trigger] resolved.contains_key(path) ==> resolves_instance(
        path,
        default_for(macro_.exploration_view().primitive_defaults_view(), path),
        input.primitive_instances.get(path),
        input.design_variable_overrides,
        input.design_variable_conditions,
        macro_.exploration_view().design_variables_view(),
        resolved[path],
    )
}

/// Resolves the exploration input of one primitive instance.
fn resolve_instance(
    path: &str,
    default: Option<&MacroPrimitiveDefault>,
    direct: Option<&PrimitiveInstanceExplorationInput>,
    overrides: &Vec<(String, PrimitiveBuildValue)>,
    restrictions: &PrimitiveInputConditions,
    macro_: &Macro,
) -> (resolved: PrimitiveInstanceExplorationInput)
    requires
        strictly_sorted(entry_names(overrides@)),
    ensures
        resolves_instance(
            path@,
            match default {
                Some(d) => Some(*d),
                None => None,
            },
            match direct {
                Some(r) => Some(*r),
                None => None,
            },
            entries_map(overrides@),
            restrictions@,
            macro_.exploration_view().design_variables_view(),
            resolved,
        ),
{
    let build_input = resolve_values(path, default, direct, overrides, macro_);
    let mut filters: Vec<CandidateFilter> = Vec::new();
    assert(filter_views(filters@) =~= Seq::empty());
    if let Some(d) = default {
        append_filters(&mut filters, d.filters());
    }
    let ghost after_default = filter_views(filters@);
    if let Some(r) = direct {
        append_filters(&mut filters, r.filters());
    }
    proof {
        let defaults = match default {
            Some(d) => d.filters_view(),
            None => Seq::<CandidateFilter>::empty(),
        };
        let directs = match direct {
            Some(r) => r.filters_view(),
            None => Seq::<CandidateFilter>::empty(),
        };
        assert(filter_views(defaults) + Seq::empty() =~= filter_views(defaults));
        assert(Seq::empty() + filter_views(defaults) =~= filter_views(defaults));
        assert(filter_views(Seq::<CandidateFilter>::empty()) =~= Seq::empty());
        assert(after_default =~= filter_views(defaults));
        assert(filter_views(filters@) =~= filter_views(defaults) + filter_views(directs));
    }
    let own = match direct {
        Some(r) => r.prebuild_conditions().clone(),
        None => PrimitiveInputConditions::new(),
    };
    let entries = restrictions.as_entries();
    let prebuild_conditions = resolve_conditions(path, &own, entries, macro_);
    PrimitiveInstanceExplorationInput { build_input, filters, prebuild_conditions }
}


// ---------------------------------------------------------------------------
// Copies of instance inputs
// ---------------------------------------------------------------------------

/// Two primitive instance inputs give the same build values, the same
/// filters and the same pre-build conditions.
pub open spec fn same_primitive_input(a: PrimitiveInstanceExplorationInput, b: PrimitiveInstanceExplorationInput) -> bool {
    &&& a.build_input_view()@ == b.build_input_view()@
    &&& filter_views(a.filters_view()) == filter_views(b.filters_view())
    &&& a.prebuild_conditions_view()@ == b.prebuild_conditions_view()@
}

/// The values of each candidate point, in order.
pub open spec fn point_values(points: Seq<CandidatePoint>) -> Seq<Seq<(String, u64)>> {
    points.map_values(|p: CandidatePoint| p.values@)
}

/// Two compact submacro inputs hold the same candidates, filters and
/// interface ports.
pub open spec fn same_compact_input(
    a: CompactMacroInstanceExplorationInput,
    b: CompactMacroInstanceExplorationInput,
) -> bool {
    &&& a.candidates_view().name == b.candidates_view().name
    &&& point_values(a.candidates_view().points@) == point_values(b.candidates_view().points@)
    &&& filter_views(a.filters_view()) == filter_views(b.filters_view())
    &&& a.interface_ports_view() == b.interface_ports_view()
}

/// Copies the named values of a candidate point.
fn copy_point(point: &CandidatePoint) -> (copy: CandidatePoint)
    ensures
        copy.values@ == point.values@,
{
    let mut values: Vec<(String, u64)> = Vec::new();
    let n = point.values.len();
    let mut i: usize = 0;
    while i < n
        invariant
            n == point.values@.len(),
            i <= n,
            values@ == point.values@.take(i as int),
        decreases n - i,
    {
        let name = point.values[i].0.clone();
        values.push((name, point.values[i].1));
        assert(values@ =~= point.values@.take(i + 1));
        i = i + 1;
    }
    assert(point.values@.take(n as int) =~= point.values@);
    CandidatePoint { values }
}

/// Copies a candidate set.
fn copy_candidates(candidates: &CandidateSet) -> (copy: CandidateSet)
    ensures
        copy.name == candidates.name,
        point_values(copy.points@) == point_values(candidates.points@),
{
    let mut points: Vec<CandidatePoint> = Vec::new();
    let n = candidates.points.len();
    let mut i: usize = 0;
    while i < n
        invariant
            n == candidates.points@.len(),
            i <= n,
            points@.len() == i,
            forall|k: int| 0 <= k < i ==> (#[trigger] points@[k]).values@ == candidates.points@[k].values@,
        decreases n - i,
    {
        points.push(copy_point(&candidates.points[i]));
        i = i + 1;
    }
    assert(point_values(points@) =~= point_values(candidates.points@));
    CandidateSet { name: candidates.name.clone(), points }
}

impl PrimitiveInstanceExplorationInput {
    /// The same build values, filters and pre-build conditions.
    pub fn copy(&self) -> (copy: Self)
        ensures
            same_primitive_input(copy, *self),
    {
        let mut filters: Vec<CandidateFilter> = Vec::new();
        append_filters(&mut filters, self.filters.as_slice());
        assert(filter_views(Seq::<CandidateFilter>::empty()) =~= Seq::empty());
        assert(Seq::empty() + filter_views(self.filters@) =~= filter_views(self.filters@));
        PrimitiveInstanceExplorationInput {
            build_input: self.build_input.clone(),
            filters,
            prebuild_conditions: self.prebuild_conditions.clone(),
        }
    }
}

impl CompactMacroInstanceExplorationInput {
    /// The same candidates, filters and interface ports.
    pub fn copy(&self) -> (copy: Self)
        ensures
            same_compact_input(copy, *self),
    {
        let mut filters: Vec<CandidateFilter> = Vec::new();
        append_filters(&mut filters, self.filters.as_slice());
        assert(filter_views(Seq::<CandidateFilter>::empty()) =~= Seq::empty());
        assert(Seq::empty() + filter_views(self.filters@) =~= filter_views(self.filters@));
        CompactMacroInstanceExplorationInput {
            candidates: copy_candidates(&self.candidates),
            filters,
            interface_ports: crate::text::clone_strings(self.interface_ports.as_slice()),
        }
    }
}

} // verus!
