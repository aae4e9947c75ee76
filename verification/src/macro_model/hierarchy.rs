//! Typed hierarchy paths and the conditions a parent derives for its
//! children.
use vstd::prelude::*;

use crate::entries::{entry_map, entry_names, get_entry, put_entry};
use crate::macro_model::execution::{ElectricalAnalysisExecution, MacroExecutionConfig};
use crate::macro_model::hierarchy_result::MacroHierarchyRetentionPolicy;
use crate::macro_model::input::PrimitiveInstanceExplorationInput;
use crate::macro_model::model::{MacroDesignVariableCondition, MacroSpecificationBounds, listed, within};
use crate::macro_model::derivation::occurs;
use crate::primitive::{build_value_view, entries_map, BuildValueView, PrimitiveBuildValue};
use crate::text::{append_decimal, clone_strings, concat3, decimal, has_char, is_blank, join_seq, lemma_join_unambiguous, lemma_text_less_asymmetric, lemma_text_less_irreflexive, lemma_text_less_total, lemma_text_less_transitive, str_eq, str_has_char, str_is_blank, str_less, strictly_sorted, string_views, text_less};
use crate::value::{finite_value, order_key, value_le, value_lt};

verus! {

/// Invalid component of a hierarchy path.
#[derive(Debug, Clone, PartialEq, Eq)]
pub enum MacroHierarchyPathError {
    EmptyComponent { index: usize },
    AmbiguousComponent { index: usize, component: String },
}

impl MacroHierarchyPathError {
    /// The message of the error.
    pub open spec fn message(&self) -> Seq<char> {
        match self {
            MacroHierarchyPathError::EmptyComponent { index } => "hierarchy path component "@ + decimal(index as nat) + " is empty"@,
            MacroHierarchyPathError::AmbiguousComponent { index, component } => "hierarchy path component "@ + decimal(index as nat) + " ('"@ + component@ + "') contains '.'"@,
        }
    }

    /// Returns the message of the error.
    pub fn to_string(&self) -> (text: String)
        ensures
            text@ == self.message(),
    {
        match self {
            MacroHierarchyPathError::EmptyComponent { index } => {
                let mut text = String::from_str("hierarchy path component ");
                append_decimal(&mut text, *index);
                text.append(" is empty");
                text
            },
            MacroHierarchyPathError::AmbiguousComponent { index, component } => {
                let mut text = String::from_str("hierarchy path component ");
                append_decimal(&mut text, *index);
                text.append(" ('");
                text.append(component.as_str());
                text.append("') contains '.'");
                text
            },
        }
    }
}

/// `error` is the error of `component` at `index`.
pub open spec fn component_rejected(component: Seq<char>, index: usize, error: MacroHierarchyPathError) -> bool {
    if is_blank(component) {
        error == MacroHierarchyPathError::EmptyComponent { index }
    } else {
        has_char(component, '.') && (error matches MacroHierarchyPathError::AmbiguousComponent {
            index: i,
            component: c,
        } && i == index && c@ == component)
    }
}

/// A component is valid when it is not blank and holds no `.`.
pub open spec fn component_valid(component: Seq<char>) -> bool {
    !is_blank(component) && !has_char(component, '.')
}

/// Checks one path component.
fn validate_path_component(component: &str, index: usize) -> (result: Result<(), MacroHierarchyPathError>)
    ensures
        component_valid(component@) ==> result is Ok,
        !component_valid(component@) ==> (result matches Err(error) && component_rejected(component@, index, error)),
{
    if str_is_blank(component) {
        return Err(MacroHierarchyPathError::EmptyComponent { index });
    }
    if str_has_char(component, '.') {
        return Err(MacroHierarchyPathError::AmbiguousComponent { index, component: component.to_owned() });
    }
    Ok(())
}

/// Stable path of one macro occurrence: the root macro name followed by
/// child instance names.
#[derive(Debug, Clone, PartialEq, Eq, Hash, PartialOrd, Ord)]
pub struct MacroHierarchyPath {
    components: Vec<String>,
}

impl MacroHierarchyPath {
    /// The components, root first.
    pub closed spec fn view(&self) -> Seq<Seq<char>> {
        string_views(self.components@)
    }

    /// Every component is valid and there is at least one.
    pub closed spec fn wf(&self) -> bool {
        self.view().len() >= 1 && forall|i: int| 0 <= i < self.view().len() ==> component_valid(#[trigger] self.view()[i])
    }

    /// The root path of a top-level macro.
    pub fn root(name: String) -> (result: Result<Self, MacroHierarchyPathError>)
        ensures
            component_valid(name@) ==> (result matches Ok(path) && path.wf() && path.view() == seq![name@]),
            !component_valid(name@) ==> (result matches Err(error) && component_rejected(name@, 0, error)),
    {
        validate_path_component(name.as_str(), 0)?;
        let mut components: Vec<String> = Vec::new();
        components.push(name);
        let path = MacroHierarchyPath { components };
        assert(path.view() =~= seq![name@]);
        Ok(path)
    }

    /// The path of a direct child instance.
    pub fn child(&self, instance: String) -> (result: Result<Self, MacroHierarchyPathError>)
        requires
            self.wf(),
        ensures
            component_valid(instance@) ==> (result matches Ok(path) && path.wf() && path.view()
                == self.view().push(instance@)),
            !component_valid(instance@) ==> (result matches Err(error) && component_rejected(
                instance@,
                self.view().len() as usize,
                error,
            )),
    {
        validate_path_component(instance.as_str(), self.components.len())?;
        let mut components = clone_strings(self.components.as_slice());
        components.push(instance);
        let path = MacroHierarchyPath { components };
        assert(path.view() =~= self.view().push(instance@));
        Ok(path)
    }

    /// The same path.
    pub fn copy(&self) -> (copy: Self)
        ensures
            copy.view() == self.view(),
            self.wf() ==> copy.wf(),
    {
        MacroHierarchyPath { components: clone_strings(self.components.as_slice()) }
    }

    /// Returns the components, root first.
    pub fn components(&self) -> (components: &[String])
        ensures
            string_views(components@) == self.view(),
    {
        self.components.as_slice()
    }

    /// Returns the containing path, or `None` for a root.
    pub fn parent(&self) -> (parent: Option<Self>)
        requires
            self.wf(),
        ensures
            self.view().len() > 1 ==> (parent matches Some(p) && p.wf() && p.view() == self.view().drop_last()),
            self.view().len() <= 1 ==> parent is None,
    {
        let n = self.components.len();
        if n <= 1 {
            return None;
        }
        let mut components: Vec<String> = Vec::new();
        let mut i: usize = 0;
        while i < n - 1
            invariant
                n == self.components@.len(),
                n > 1,
                i <= n - 1,
                components@.len() == i,
                forall|j: int| 0 <= j < i ==> #[trigger] components@[j]@ == self.components@[j]@,
            decreases n - 1 - i,
        {
            components.push(self.components[i].clone());
            i = i + 1;
        }
        let path = MacroHierarchyPath { components };
        assert(path.view() =~= self.view().drop_last());
        Some(path)
    }

    /// Returns the components joined by `.`.
    pub fn to_string(&self) -> (text: String)
        ensures
            text@ == join_seq(self.view(), seq!['.']),
    {
        let n = self.components.len();
        let mut text = String::new();
        if n == 0 {
            assert(self.view().len() == 0);
            return text;
        }
        text.append(self.components[0].as_str());
        proof {
            assert(self.view().take(1) =~= seq![self.components@[0]@]);
            assert(join_seq(self.view().take(1), seq!['.']) == self.components@[0]@);
        }
        let mut i: usize = 1;
        while i < n
            invariant
                n == self.components@.len(),
                1 <= i <= n,
                text@ == join_seq(self.view().take(i as int), seq!['.']),
            decreases n - i,
        {
            let joined = concat3(text.as_str(), ".", self.components[i].as_str());
            proof {
                reveal_strlit(".");
                let parts = self.view().take(i + 1);
                assert(parts.drop_last() =~= self.view().take(i as int));
                assert(parts.last() == self.components@[i as int]@);
            }
            text = joined;
            i = i + 1;
        }
        assert(self.view().take(n as int) =~= self.view());
        text
    }
}

/// Path texts are unambiguous: two valid paths that render to the same text
/// are the same path.
pub proof fn law_path_text_is_unambiguous(a: MacroHierarchyPath, b: MacroHierarchyPath)
    requires
        a.wf(),
        b.wf(),
        join_seq(a.view(), seq!['.']) == join_seq(b.view(), seq!['.']),
    ensures
        a.view() == b.view(),
{
    assert forall|i: int| 0 <= i < a.view().len() implies !has_char(#[trigger] a.view()[i], '.') by {
        assert(component_valid(a.view()[i]));
    }
    assert forall|i: int| 0 <= i < b.view().len() implies !has_char(#[trigger] b.view()[i], '.') by {
        assert(component_valid(b.view()[i]));
    }
    lemma_join_unambiguous(a.view(), b.view(), '.');
}

/// A valid path has at least one component: its root.
pub proof fn lemma_valid_path_has_root(path: MacroHierarchyPath)
    requires
        path.wf(),
    ensures
        path.view().len() >= 1,
{
}

/// The parent of a child path is the path it was made from: a child of a
/// valid path has more than one component, and dropping the last gives the
/// path back. A root has no parent.
pub proof fn law_parent_of_child_is_the_path(path: MacroHierarchyPath, child: MacroHierarchyPath, instance: Seq<char>)
    requires
        path.wf(),
        child.wf(),
        child.view() == path.view().push(instance),
    ensures
        child.view().len() > 1,
        child.view().drop_last() == path.view(),
{
    assert(child.view().drop_last() =~= path.view());
}

/// Errors while assembling a hierarchical runtime configuration.
#[derive(Debug, Clone, PartialEq, Eq)]
pub enum MacroHierarchyInputRegistrationError {
    EmptyDeviceType,
    EmptyInstance,
    EmptyDesignVariable,
    EmptySpecification,
    DuplicateDeviceModel { device_type: String },
    DuplicatePrimitiveInstance { instance: String },
    DuplicateDesignVariableOverride { variable: String },
    DuplicateSpecificationOverride { specification: String },
    DuplicatePath { path: MacroHierarchyPath },
}

impl MacroHierarchyInputRegistrationError {
    /// The message of the error.
    pub open spec fn message(&self) -> Seq<char> {
        match self {
            MacroHierarchyInputRegistrationError::EmptyDeviceType => "device type cannot be empty"@,
            MacroHierarchyInputRegistrationError::EmptyInstance => "primitive instance cannot be empty"@,
            MacroHierarchyInputRegistrationError::EmptyDesignVariable => "design variable cannot be empty"@,
            MacroHierarchyInputRegistrationError::EmptySpecification => "specification cannot be empty"@,
            MacroHierarchyInputRegistrationError::DuplicateDeviceModel { device_type } => "device model '"@ + device_type@ + "' is already registered"@,
            MacroHierarchyInputRegistrationError::DuplicatePrimitiveInstance { instance } => "primitive instance input '"@ + instance@ + "' is already registered"@,
            MacroHierarchyInputRegistrationError::DuplicateDesignVariableOverride { variable } => "design variable '"@ + variable@ + "' already has a path-local override"@,
            MacroHierarchyInputRegistrationError::DuplicateSpecificationOverride { specification } => "specification '"@ + specification@ + "' already has a path-local override"@,
            MacroHierarchyInputRegistrationError::DuplicatePath { path } => "hierarchy path '"@ + join_seq(path.view(), seq!['.']) + "' is already configured"@,
        }
    }

    /// Returns the message of the error.
    pub fn to_string(&self) -> (text: String)
        ensures
            text@ == self.message(),
    {
        match self {
            MacroHierarchyInputRegistrationError::EmptyDeviceType => {
                let mut text = String::from_str("device type cannot be empty");
                text
            },
            MacroHierarchyInputRegistrationError::EmptyInstance => {
                let mut text = String::from_str("primitive instance cannot be empty");
                text
            },
            MacroHierarchyInputRegistrationError::EmptyDesignVariable => {
                let mut text = String::from_str("design variable cannot be empty");
                text
            },
            MacroHierarchyInputRegistrationError::EmptySpecification => {
                let mut text = String::from_str("specification cannot be empty");
                text
            },
            MacroHierarchyInputRegistrationError::DuplicateDeviceModel { device_type } => {
                let mut text = String::from_str("device model '");
                text.append(device_type.as_str());
                text.append("' is already registered");
                text
            },
            MacroHierarchyInputRegistrationError::DuplicatePrimitiveInstance { instance } => {
                let mut text = String::from_str("primitive instance input '");
                text.append(instance.as_str());
                text.append("' is already registered");
                text
            },
            MacroHierarchyInputRegistrationError::DuplicateDesignVariableOverride { variable } => {
                let mut text = String::from_str("design variable '");
                text.append(variable.as_str());
                text.append("' already has a path-local override");
                text
            },
            MacroHierarchyInputRegistrationError::DuplicateSpecificationOverride { specification } => {
                let mut text = String::from_str("specification '");
                text.append(specification.as_str());
                text.append("' already has a path-local override");
                text
            },
            MacroHierarchyInputRegistrationError::DuplicatePath { path } => {
                let mut text = String::from_str("hierarchy path '");
                let part = path.to_string();
                text.append(part.as_str());
                text.append("' is already configured");
                text
            },
        }
    }
}


// ---------------------------------------------------------------------------
// Path-local runtime inputs
// ---------------------------------------------------------------------------

/// What one path-local input holds.
pub struct MacroHierarchyPathInputView {
    /// The input registered for each local primitive instance.
    pub primitive_instances: Map<Seq<char>, PrimitiveInstanceExplorationInput>,
    /// The path-local value of each overridden design variable.
    pub design_variable_overrides: Map<Seq<char>, BuildValueView>,
    /// The path-local bounds of each overridden specification.
    pub specification_overrides: Map<Seq<char>, MacroSpecificationBounds>,
}

/// Runtime overrides owned by one concrete macro occurrence.
pub struct MacroHierarchyPathInput {
    primitive_instances: Vec<(String, PrimitiveInstanceExplorationInput)>,
    design_variable_overrides: Vec<(String, PrimitiveBuildValue)>,
    specification_overrides: Vec<(String, MacroSpecificationBounds)>,
}

impl View for MacroHierarchyPathInput {
    type V = MacroHierarchyPathInputView;

    closed spec fn view(&self) -> MacroHierarchyPathInputView {
        MacroHierarchyPathInputView {
            primitive_instances: entry_map(self.primitive_instances@),
            design_variable_overrides: entries_map(self.design_variable_overrides@),
            specification_overrides: entry_map(self.specification_overrides@),
        }
    }
}

impl MacroHierarchyPathInput {
    /// The primitive instance inputs, sorted by instance path.
    pub(crate) fn primitive_list(&self) -> (entries: &Vec<(String, PrimitiveInstanceExplorationInput)>)
        ensures
            entry_map(entries@) == self@.primitive_instances,
            strictly_sorted(entry_names(entries@)),
    {
        proof {
            use_type_invariant(self);
        }
        &self.primitive_instances
    }

    /// The design-variable overrides, sorted by variable.
    pub(crate) fn override_list(&self) -> (entries: &Vec<(String, PrimitiveBuildValue)>)
        ensures
            entries_map(entries@) == self@.design_variable_overrides,
            strictly_sorted(entry_names(entries@)),
    {
        proof {
            use_type_invariant(self);
        }
        &self.design_variable_overrides
    }

    /// The specification overrides, sorted by specification.
    pub(crate) fn specification_list(&self) -> (entries: &Vec<(String, MacroSpecificationBounds)>)
        ensures
            entry_map(entries@) == self@.specification_overrides,
            strictly_sorted(entry_names(entries@)),
    {
        proof {
            use_type_invariant(self);
        }
        &self.specification_overrides
    }

    #[verifier::type_invariant]
    spec fn sorted_by_name(self) -> bool {
        &&& strictly_sorted(entry_names(self.primitive_instances@))
        &&& strictly_sorted(entry_names(self.design_variable_overrides@))
        &&& strictly_sorted(entry_names(self.specification_overrides@))
    }

    /// An empty path-local input.
    pub fn new() -> (input: Self)
        ensures
            input@.primitive_instances == Map::<Seq<char>, PrimitiveInstanceExplorationInput>::empty(),
            input@.design_variable_overrides == Map::<Seq<char>, BuildValueView>::empty(),
            input@.specification_overrides == Map::<Seq<char>, MacroSpecificationBounds>::empty(),
    {
        let input = MacroHierarchyPathInput {
            primitive_instances: Vec::new(),
            design_variable_overrides: Vec::new(),
            specification_overrides: Vec::new(),
        };
        assert(input@.primitive_instances =~= Map::<Seq<char>, PrimitiveInstanceExplorationInput>::empty());
        assert(input@.design_variable_overrides =~= Map::<Seq<char>, BuildValueView>::empty());
        assert(input@.specification_overrides =~= Map::<Seq<char>, MacroSpecificationBounds>::empty());
        input
    }

    /// Registers runtime build values for one local primitive instance.
    pub fn register_primitive_instance(&mut self, instance: String, input: PrimitiveInstanceExplorationInput) -> (result:
        Result<(), MacroHierarchyInputRegistrationError>)
        ensures
            result is Err <==> is_blank(instance@) || old(self)@.primitive_instances.contains_key(instance@),
            match result {
                Ok(()) => final(self)@ == (MacroHierarchyPathInputView {
                    primitive_instances: old(self)@.primitive_instances.insert(instance@, input),
                    ..old(self)@
                }),
                Err(error) => final(self)@ == old(self)@ && error == if is_blank(instance@) {
                    MacroHierarchyInputRegistrationError::EmptyInstance
                } else {
                    MacroHierarchyInputRegistrationError::DuplicatePrimitiveInstance { instance }
                },
            },
    {
        proof {
            use_type_invariant(&*self);
        }
        if str_is_blank(instance.as_str()) {
            return Err(MacroHierarchyInputRegistrationError::EmptyInstance);
        }
        if get_entry(&self.primitive_instances, instance.as_str()).is_some() {
            return Err(MacroHierarchyInputRegistrationError::DuplicatePrimitiveInstance { instance });
        }
        let mut instances: Vec<(String, PrimitiveInstanceExplorationInput)> = Vec::new();
        std::mem::swap(&mut instances, &mut self.primitive_instances);
        put_entry(&mut instances, instance, input);
        self.primitive_instances = instances;
        Ok(())
    }

    /// Overrides one public design variable only at this hierarchy path.
    pub fn register_design_variable_override(&mut self, variable: String, value: PrimitiveBuildValue) -> (result: Result<
        (),
        MacroHierarchyInputRegistrationError,
    >)
        ensures
            result is Err <==> is_blank(variable@) || old(self)@.design_variable_overrides.contains_key(variable@),
            match result {
                Ok(()) => final(self)@ == (MacroHierarchyPathInputView {
                    design_variable_overrides: old(self)@.design_variable_overrides.insert(
                        variable@,
                        build_value_view(value),
                    ),
                    ..old(self)@
                }),
                Err(error) => final(self)@ == old(self)@ && error == if is_blank(variable@) {
                    MacroHierarchyInputRegistrationError::EmptyDesignVariable
                } else {
                    MacroHierarchyInputRegistrationError::DuplicateDesignVariableOverride { variable }
                },
            },
    {
        proof {
            use_type_invariant(&*self);
        }
        if str_is_blank(variable.as_str()) {
            return Err(MacroHierarchyInputRegistrationError::EmptyDesignVariable);
        }
        if get_entry(&self.design_variable_overrides, variable.as_str()).is_some() {
            proof {
                assert(entry_map(self.design_variable_overrides@).contains_key(variable@));
            }
            return Err(MacroHierarchyInputRegistrationError::DuplicateDesignVariableOverride { variable });
        }
        let ghost key = variable@;
        let ghost view = build_value_view(value);
        let mut overrides: Vec<(String, PrimitiveBuildValue)> = Vec::new();
        std::mem::swap(&mut overrides, &mut self.design_variable_overrides);
        let ghost before = overrides@;
        put_entry(&mut overrides, variable, value);
        proof {
            assert(entries_map(overrides@) =~= entries_map(before).insert(key, view));
        }
        self.design_variable_overrides = overrides;
        Ok(())
    }

    /// Overrides one specification only at this hierarchy path.
    pub fn register_specification_override(&mut self, specification: String, bounds: MacroSpecificationBounds) -> (result:
        Result<(), MacroHierarchyInputRegistrationError>)
        ensures
            result is Err <==> is_blank(specification@) || old(self)@.specification_overrides.contains_key(
                specification@,
            ),
            match result {
                Ok(()) => final(self)@ == (MacroHierarchyPathInputView {
                    specification_overrides: old(self)@.specification_overrides.insert(specification@, bounds),
                    ..old(self)@
                }),
                Err(error) => final(self)@ == old(self)@ && error == if is_blank(specification@) {
                    MacroHierarchyInputRegistrationError::EmptySpecification
                } else {
                    MacroHierarchyInputRegistrationError::DuplicateSpecificationOverride { specification }
                },
            },
    {
        proof {
            use_type_invariant(&*self);
        }
        if str_is_blank(specification.as_str()) {
            return Err(MacroHierarchyInputRegistrationError::EmptySpecification);
        }
        if get_entry(&self.specification_overrides, specification.as_str()).is_some() {
            return Err(MacroHierarchyInputRegistrationError::DuplicateSpecificationOverride { specification });
        }
        let mut overrides: Vec<(String, MacroSpecificationBounds)> = Vec::new();
        std::mem::swap(&mut overrides, &mut self.specification_overrides);
        put_entry(&mut overrides, specification, bounds);
        self.specification_overrides = overrides;
        Ok(())
    }
}

impl Default for MacroHierarchyPathInput {
    /// An empty path-local input.
    fn default() -> (input: Self)
        ensures
            input@.primitive_instances == Map::<Seq<char>, PrimitiveInstanceExplorationInput>::empty(),
            input@.design_variable_overrides == Map::<Seq<char>, BuildValueView>::empty(),
            input@.specification_overrides == Map::<Seq<char>, MacroSpecificationBounds>::empty(),
    {
        MacroHierarchyPathInput::new()
    }
}

// ---------------------------------------------------------------------------
// Paths in order
// ---------------------------------------------------------------------------

/// The order of paths: component by component, a proper prefix first.
pub open spec fn path_less(a: Seq<Seq<char>>, b: Seq<Seq<char>>) -> bool
    decreases a.len(),
{
    if b.len() == 0 {
        false
    } else if a.len() == 0 {
        true
    } else if a[0] != b[0] {
        text_less(a[0], b[0])
    } else {
        path_less(a.drop_first(), b.drop_first())
    }
}

/// No path comes before itself.
pub proof fn lemma_path_less_irreflexive(a: Seq<Seq<char>>)
    ensures
        !path_less(a, a),
    decreases a.len(),
{
    if a.len() > 0 {
        lemma_path_less_irreflexive(a.drop_first());
    }
}

/// The order of paths is transitive.
pub proof fn lemma_path_less_transitive(a: Seq<Seq<char>>, b: Seq<Seq<char>>, c: Seq<Seq<char>>)
    requires
        path_less(a, b),
        path_less(b, c),
    ensures
        path_less(a, c),
    decreases a.len(),
{
    if a.len() > 0 && b.len() > 0 && c.len() > 0 {
        if a[0] == b[0] && b[0] == c[0] {
            lemma_path_less_transitive(a.drop_first(), b.drop_first(), c.drop_first());
        } else if a[0] == b[0] {
        } else if b[0] == c[0] {
        } else {
            lemma_text_less_transitive(a[0], b[0], c[0]);
            if a[0] == c[0] {
                lemma_text_less_asymmetric(a[0], b[0]);
            }
        }
    }
}

/// Two different paths are ordered one way or the other.
pub proof fn lemma_path_less_total(a: Seq<Seq<char>>, b: Seq<Seq<char>>)
    ensures
        a == b || path_less(a, b) || path_less(b, a),
    decreases a.len(),
{
    if a.len() > 0 && b.len() > 0 {
        if a[0] == b[0] {
            lemma_path_less_total(a.drop_first(), b.drop_first());
            if a.drop_first() == b.drop_first() {
                assert(a =~= b) by {
                    assert forall|i: int| 0 <= i < a.len() implies a[i] == b[i] by {
                        if i > 0 {
                            assert(a[i] == a.drop_first()[i - 1]);
                            assert(b[i] == b.drop_first()[i - 1]);
                        }
                    }
                }
            }
        } else {
            lemma_text_less_total(a[0], b[0]);
        }
    } else if a.len() == 0 && b.len() == 0 {
        assert(a =~= b);
    }
}

/// Comparing equal leading components leaves the order of what follows.
proof fn lemma_path_less_skip(a: Seq<Seq<char>>, b: Seq<Seq<char>>, i: int)
    requires
        0 <= i <= a.len(),
        i <= b.len(),
        forall|k: int| 0 <= k < i ==> a[k] == b[k],
    ensures
        path_less(a, b) == path_less(a.skip(i), b.skip(i)),
    decreases i,
{
    if i > 0 {
        lemma_path_less_skip(a.drop_first(), b.drop_first(), i - 1);
        assert(a.drop_first().skip(i - 1) =~= a.skip(i));
        assert(b.drop_first().skip(i - 1) =~= b.skip(i));
    } else {
        assert(a.skip(0) =~= a);
        assert(b.skip(0) =~= b);
    }
}

/// Returns whether path `a` comes before path `b`.
fn components_less(a: &[String], b: &[String]) -> (less: bool)
    ensures
        less == path_less(string_views(a@), string_views(b@)),
{
    let ghost va = string_views(a@);
    let ghost vb = string_views(b@);
    let mut i: usize = 0;
    while i < a.len() && i < b.len() && str_eq(a[i].as_str(), b[i].as_str())
        invariant
            va == string_views(a@),
            vb == string_views(b@),
            i <= a@.len(),
            i <= b@.len(),
            forall|k: int| 0 <= k < i ==> va[k] == vb[k],
        decreases a@.len() - i,
    {
        i = i + 1;
    }
    proof {
        lemma_path_less_skip(va, vb, i as int);
    }
    if i == b.len() {
        false
    } else if i == a.len() {
        true
    } else {
        proof {
            assert(va.skip(i as int)[0] == va[i as int]);
            assert(vb.skip(i as int)[0] == vb[i as int]);
        }
        str_less(a[i].as_str(), b[i].as_str())
    }
}

/// Returns whether two paths have the same components.
pub(crate) fn components_equal(a: &[String], b: &[String]) -> (equal: bool)
    ensures
        equal == (string_views(a@) == string_views(b@)),
{
    if a.len() != b.len() {
        proof {
            assert(string_views(a@).len() != string_views(b@).len());
        }
        return false;
    }
    let mut i: usize = 0;
    while i < a.len()
        invariant
            a@.len() == b@.len(),
            i <= a@.len(),
            forall|k: int| 0 <= k < i ==> a@[k]@ == b@[k]@,
        decreases a@.len() - i,
    {
        if !str_eq(a[i].as_str(), b[i].as_str()) {
            proof {
                assert(string_views(a@)[i as int] != string_views(b@)[i as int]);
            }
            return false;
        }
        i = i + 1;
    }
    assert(string_views(a@) =~= string_views(b@));
    true
}

/// The paths of a path-keyed list, in order.
pub open spec fn path_keys<V>(entries: Seq<(MacroHierarchyPath, V)>) -> Seq<Seq<Seq<char>>> {
    entries.map_values(|e: (MacroHierarchyPath, V)| e.0.view())
}

/// Every path comes before the ones after it.
pub open spec fn paths_sorted(paths: Seq<Seq<Seq<char>>>) -> bool {
    forall|i: int, j: int| 0 <= i < j < paths.len() ==> path_less(#[trigger] paths[i], #[trigger] paths[j])
}

/// The value listed under each path.
pub open spec fn path_map<V>(entries: Seq<(MacroHierarchyPath, V)>) -> Map<Seq<Seq<char>>, V> {
    Map::new(
        |path: Seq<Seq<char>>| path_keys(entries).contains(path),
        |path: Seq<Seq<char>>| entries[path_keys(entries).index_of(path)].1,
    )
}

/// In a sorted list, a path is listed at one position only.
proof fn lemma_sorted_path_index(paths: Seq<Seq<Seq<char>>>, i: int)
    requires
        paths_sorted(paths),
        0 <= i < paths.len(),
    ensures
        paths.index_of(paths[i]) == i,
{
    assert(paths.contains(paths[i]));
    let j = paths.index_of(paths[i]);
    if j < i {
        assert(path_less(paths[j], paths[i]));
        lemma_path_less_irreflexive(paths[i]);
    } else if j > i {
        assert(path_less(paths[i], paths[j]));
        lemma_path_less_irreflexive(paths[i]);
    }
}

/// Inserting an unlisted path at the first position that does not come
/// before it keeps the list sorted and lists the value under the path.
proof fn lemma_insert_path<V>(
    before: Seq<(MacroHierarchyPath, V)>,
    after: Seq<(MacroHierarchyPath, V)>,
    path: MacroHierarchyPath,
    value: V,
    p: int,
)
    requires
        paths_sorted(path_keys(before)),
        0 <= p <= before.len(),
        forall|k: int| 0 <= k < p ==> path_less((#[trigger] before[k]).0.view(), path.view()),
        p < before.len() ==> !path_less(before[p].0.view(), path.view()),
        !path_keys(before).contains(path.view()),
        after == before.insert(p, (path, value)),
    ensures
        paths_sorted(path_keys(after)),
        path_map(after) == path_map(before).insert(path.view(), value),
{
    let bk = path_keys(before);
    let ak = path_keys(after);
    let key = path.view();
    assert(ak =~= bk.insert(p, key));
    if p < before.len() {
        assert(bk[p] != key);
        lemma_path_less_total(bk[p], key);
    }
    assert forall|k: int| p <= k < bk.len() implies path_less(key, #[trigger] bk[k]) by {
        if k > p {
            assert(path_less(bk[p], bk[k]));
            lemma_path_less_transitive(key, bk[p], bk[k]);
        }
    }
    assert forall|i: int, j: int| 0 <= i < j < ak.len() implies path_less(#[trigger] ak[i], #[trigger] ak[j]) by {
        if j < p {
            assert(ak[i] == bk[i] && ak[j] == bk[j]);
        } else if j == p {
            assert(ak[i] == bk[i]);
        } else if i < p {
            assert(ak[i] == bk[i] && ak[j] == bk[j - 1]);
            lemma_path_less_transitive(bk[i], key, bk[j - 1]);
        } else if i == p {
            assert(ak[j] == bk[j - 1]);
        } else {
            assert(ak[i] == bk[i - 1] && ak[j] == bk[j - 1]);
        }
    }
    let target = path_map(before).insert(key, value);
    assert forall|k: Seq<Seq<char>>| #[trigger] path_map(after).contains_key(k) == target.contains_key(k) && (
    path_map(after).contains_key(k) ==> path_map(after)[k] == target[k]) by {
        if k == key {
            assert(ak[p] == key);
            lemma_sorted_path_index(ak, p);
        } else if bk.contains(k) {
            let i = bk.index_of(k);
            lemma_sorted_path_index(bk, i);
            let j = if i < p {
                i
            } else {
                i + 1
            };
            assert(ak[j] == k);
            lemma_sorted_path_index(ak, j);
        } else {
            if ak.contains(k) {
                let j = ak.index_of(k);
                if j < p {
                    assert(bk[j] == k);
                } else if j > p {
                    assert(bk[j - 1] == k);
                }
            }
        }
    }
    assert(path_map(after) =~= target);
}

/// The slot of `path` in a sorted path-keyed list, and whether it is listed.
fn path_slot<V>(entries: &Vec<(MacroHierarchyPath, V)>, path: &MacroHierarchyPath) -> (slot: (usize, bool))
    requires
        paths_sorted(path_keys(entries@)),
    ensures
        slot.0 <= entries@.len(),
        forall|k: int| 0 <= k < slot.0 ==> path_less((#[trigger] entries@[k]).0.view(), path.view()),
        slot.0 < entries@.len() ==> !path_less(entries@[slot.0 as int].0.view(), path.view()),
        slot.1 <==> path_keys(entries@).contains(path.view()),
        slot.1 ==> slot.0 < entries@.len() && entries@[slot.0 as int].0.view() == path.view(),
{
    let mut p: usize = 0;
    while p < entries.len() && components_less(entries[p].0.components(), path.components())
        invariant
            p <= entries@.len(),
            forall|k: int| 0 <= k < p ==> path_less((#[trigger] entries@[k]).0.view(), path.view()),
        decreases entries@.len() - p,
    {
        p = p + 1;
    }
    let found = p < entries.len() && components_equal(entries[p].0.components(), path.components());
    proof {
        let keys = path_keys(entries@);
        if found {
            assert(keys[p as int] == path.view());
        } else if keys.contains(path.view()) {
            let k = keys.index_of(path.view());
            if k < p {
                assert(path_less(keys[k], path.view()));
                lemma_path_less_irreflexive(path.view());
            } else if k > p {
                assert(path_less(keys[p as int], keys[k]));
            }
        }
    }
    (p, found)
}

/// What a hierarchical exploration input holds.
pub struct MacroHierarchyExplorationInputView<D> {
    /// The shared model registered for each device type.
    pub device_models: Map<Seq<char>, D>,
    /// The runtime configuration registered for each concrete path.
    pub paths: Map<Seq<Seq<char>>, MacroHierarchyPathInput>,
    /// The execution policy shared by the hierarchy.
    pub execution: MacroExecutionConfig,
    /// Whether complete provisional parent results are kept.
    pub retention: MacroHierarchyRetentionPolicy,
}

/// Shared data plus independent runtime overrides for concrete hierarchy
/// paths. Device models (`D`) are shared, read-only inputs, typically
/// references.
pub struct MacroHierarchyExplorationInput<D> {
    device_models: Vec<(String, D)>,
    paths: Vec<(MacroHierarchyPath, MacroHierarchyPathInput)>,
    execution: MacroExecutionConfig,
    retention: MacroHierarchyRetentionPolicy,
}

impl<D> View for MacroHierarchyExplorationInput<D> {
    type V = MacroHierarchyExplorationInputView<D>;

    closed spec fn view(&self) -> MacroHierarchyExplorationInputView<D> {
        MacroHierarchyExplorationInputView {
            device_models: entry_map(self.device_models@),
            paths: path_map(self.paths@),
            execution: self.execution,
            retention: self.retention,
        }
    }
}

impl<D> MacroHierarchyExplorationInput<D> {
    #[verifier::type_invariant]
    spec fn sorted(self) -> bool {
        &&& strictly_sorted(entry_names(self.device_models@))
        &&& paths_sorted(path_keys(self.paths@))
    }

    /// The configured paths, in path order.
    pub closed spec fn path_order(&self) -> Seq<Seq<Seq<char>>> {
        path_keys(self.paths@)
    }

    /// An empty hierarchical input with the default policies.
    pub fn new() -> (input: Self)
        ensures
            input@.device_models == Map::<Seq<char>, D>::empty(),
            input@.paths == Map::<Seq<Seq<char>>, MacroHierarchyPathInput>::empty(),
            input@.execution.mode() == ElectricalAnalysisExecution::Sequential,
            input@.retention == MacroHierarchyRetentionPolicy::Summaries,
    {
        let input = MacroHierarchyExplorationInput {
            device_models: Vec::new(),
            paths: Vec::new(),
            execution: MacroExecutionConfig::default(),
            retention: MacroHierarchyRetentionPolicy::default(),
        };
        assert(input@.device_models =~= Map::<Seq<char>, D>::empty());
        assert(input@.paths =~= Map::<Seq<Seq<char>>, MacroHierarchyPathInput>::empty());
        input
    }

    /// Registers one read-only model shared by every hierarchy path.
    pub fn register_device_model(&mut self, device_type: String, model: D) -> (result: Result<
        (),
        MacroHierarchyInputRegistrationError,
    >)
        ensures
            result is Err <==> is_blank(device_type@) || old(self)@.device_models.contains_key(device_type@),
            match result {
                Ok(()) => final(self)@ == (MacroHierarchyExplorationInputView {
                    device_models: old(self)@.device_models.insert(device_type@, model),
                    ..old(self)@
                }),
                Err(error) => final(self)@ == old(self)@ && error == if is_blank(device_type@) {
                    MacroHierarchyInputRegistrationError::EmptyDeviceType
                } else {
                    MacroHierarchyInputRegistrationError::DuplicateDeviceModel { device_type }
                },
            },
            final(self).path_order() == old(self).path_order(),
    {
        proof {
            use_type_invariant(&*self);
        }
        if str_is_blank(device_type.as_str()) {
            return Err(MacroHierarchyInputRegistrationError::EmptyDeviceType);
        }
        if get_entry(&self.device_models, device_type.as_str()).is_some() {
            return Err(MacroHierarchyInputRegistrationError::DuplicateDeviceModel { device_type });
        }
        let mut models: Vec<(String, D)> = Vec::new();
        std::mem::swap(&mut models, &mut self.device_models);
        put_entry(&mut models, device_type, model);
        self.device_models = models;
        Ok(())
    }

    /// Registers the runtime configuration of one concrete macro occurrence;
    /// a path already configured keeps its configuration.
    pub fn register_path(&mut self, path: MacroHierarchyPath, input: MacroHierarchyPathInput) -> (result: Result<
        (),
        MacroHierarchyInputRegistrationError,
    >)
        ensures
            result is Err <==> old(self)@.paths.contains_key(path.view()),
            match result {
                Ok(()) => final(self)@ == (MacroHierarchyExplorationInputView {
                    paths: old(self)@.paths.insert(path.view(), input),
                    ..old(self)@
                }),
                Err(error) => final(self)@ == old(self)@ && final(self).path_order() == old(self).path_order() && error
                    == MacroHierarchyInputRegistrationError::DuplicatePath { path },
            },
            paths_sorted(final(self).path_order()),
    {
        proof {
            use_type_invariant(&*self);
        }
        let (p, found) = path_slot(&self.paths, &path);
        if found {
            return Err(MacroHierarchyInputRegistrationError::DuplicatePath { path });
        }
        let ghost key = path.view();
        let ghost value = input;
        let ghost kept = path;
        let mut paths: Vec<(MacroHierarchyPath, MacroHierarchyPathInput)> = Vec::new();
        std::mem::swap(&mut paths, &mut self.paths);
        let ghost before = paths@;
        paths.insert(p, (path, input));
        proof {
            lemma_insert_path(before, paths@, kept, value, p as int);
        }
        self.paths = paths;
        Ok(())
    }

    /// Returns the configuration registered for one concrete path.
    pub fn path(&self, path: &MacroHierarchyPath) -> (input: Option<&MacroHierarchyPathInput>)
        ensures
            match input {
                Some(i) => self@.paths.contains_key(path.view()) && self@.paths[path.view()] == *i,
                None => !self@.paths.contains_key(path.view()),
            },
    {
        proof {
            use_type_invariant(self);
        }
        let (p, found) = path_slot(&self.paths, path);
        if found {
            proof {
                lemma_sorted_path_index(path_keys(self.paths@), p as int);
            }
            Some(&self.paths[p].1)
        } else {
            None
        }
    }

    /// Returns the path-local inputs in path order.
    pub fn paths(&self) -> (paths: &[(MacroHierarchyPath, MacroHierarchyPathInput)])
        ensures
            path_keys(paths@) == self.path_order(),
            paths_sorted(self.path_order()),
            path_map(paths@) == self@.paths,
    {
        proof {
            use_type_invariant(self);
        }
        self.paths.as_slice()
    }

    /// Replaces the execution policy shared by the hierarchy.
    pub fn set_execution_config(&mut self, execution: MacroExecutionConfig)
        ensures
            final(self)@ == (MacroHierarchyExplorationInputView { execution, ..old(self)@ }),
            final(self).path_order() == old(self).path_order(),
    {
        proof {
            use_type_invariant(&*self);
        }
        self.execution = execution;
    }

    /// Returns the execution policy shared by the hierarchy.
    pub fn execution_config(&self) -> (execution: &MacroExecutionConfig)
        ensures
            *execution == self@.execution,
    {
        &self.execution
    }

    /// Replaces the policy controlling retention of complete preview results.
    pub fn set_retention_policy(&mut self, retention: MacroHierarchyRetentionPolicy)
        ensures
            final(self)@ == (MacroHierarchyExplorationInputView { retention, ..old(self)@ }),
            final(self).path_order() == old(self).path_order(),
    {
        proof {
            use_type_invariant(&*self);
        }
        self.retention = retention;
    }

    /// Returns the policy controlling retention of complete preview results.
    pub fn retention_policy(&self) -> (retention: MacroHierarchyRetentionPolicy)
        ensures
            retention == self@.retention,
    {
        self.retention
    }

    /// The shared device models, sorted by device type.
    pub(crate) fn model_list(&self) -> (models: &Vec<(String, D)>)
        ensures
            entry_map(models@) == self@.device_models,
            strictly_sorted(entry_names(models@)),
    {
        proof {
            use_type_invariant(self);
        }
        &self.device_models
    }
}

// ---------------------------------------------------------------------------
// Conditions derived for a child
// ---------------------------------------------------------------------------

/// Why a child occurrence was pruned before exploration.
#[derive(Debug, Clone, PartialEq, Eq)]
pub enum MacroDerivationPruneReason {
    NoAcceptedParentCandidates,
    ConflictingSpecification { specification: String },
    ConflictingDesignVariable { variable: String },
}

/// Spec value of a design-variable condition.
pub enum ConditionView {
    Range { minimum: Option<u64>, maximum: Option<u64> },
    AllowedValues(Seq<u64>),
}

/// The spec value of a condition.
pub open spec fn condition_view(condition: MacroDesignVariableCondition) -> ConditionView {
    match condition {
        MacroDesignVariableCondition::Range { minimum, maximum } => ConditionView::Range { minimum, maximum },
        MacroDesignVariableCondition::AllowedValues(values) => ConditionView::AllowedValues(values@),
    }
}

/// The values among the first `n` that satisfy `pred`, in order.
pub open spec fn keep_values(values: Seq<u64>, pred: spec_fn(u64) -> bool, n: int) -> Seq<u64>
    decreases n,
{
    if n <= 0 {
        Seq::empty()
    } else if pred(values[n - 1]) {
        keep_values(values, pred, n - 1).push(values[n - 1])
    } else {
        keep_values(values, pred, n - 1)
    }
}

/// Allowed values that survive a filter, or nothing when none does.
pub open spec fn allowed_or_empty(values: Seq<u64>) -> Option<ConditionView> {
    if values.len() == 0 {
        None
    } else {
        Some(ConditionView::AllowedValues(values))
    }
}

/// The intersection of two conditions: tighter bounds for two ranges (empty
/// when inverted), the left values also listed on the right for two lists,
/// and the listed values inside the range for a list and a range.
pub open spec fn intersect_views(left: ConditionView, right: ConditionView) -> Option<ConditionView> {
    match (left, right) {
        (ConditionView::Range { minimum: a, maximum: b }, ConditionView::Range { minimum: c, maximum: d }) => {
            let lo = crate::macro_model::model::tighter_minimum(a, c);
            let hi = crate::macro_model::model::tighter_maximum(b, d);
            if lo is Some && hi is Some && order_key(lo->0) > order_key(hi->0) {
                None
            } else {
                Some(ConditionView::Range { minimum: lo, maximum: hi })
            }
        },
        (ConditionView::AllowedValues(l), ConditionView::AllowedValues(r)) => allowed_or_empty(
            keep_values(l, |x: u64| occurs(r, x), l.len() as int),
        ),
        (ConditionView::AllowedValues(v), ConditionView::Range { minimum, maximum }) => allowed_or_empty(
            keep_values(v, |x: u64| within(x, minimum, maximum), v.len() as int),
        ),
        (ConditionView::Range { minimum, maximum }, ConditionView::AllowedValues(v)) => allowed_or_empty(
            keep_values(v, |x: u64| within(x, minimum, maximum), v.len() as int),
        ),
    }
}

/// The bounds are finite where present.
pub open spec fn view_finite(condition: ConditionView) -> bool {
    match condition {
        ConditionView::Range { minimum, maximum } => (minimum is Some ==> finite_value(minimum->0)) && (
        maximum is Some ==> finite_value(maximum->0)),
        ConditionView::AllowedValues(values) => forall|i: int| 0 <= i < values.len() ==> finite_value(#[trigger] values[i]),
    }
}

/// A condition view admits a value: finite and inside the range, or equal to
/// a listed value.
pub open spec fn view_accepts(condition: ConditionView, value: u64) -> bool {
    finite_value(value) && match condition {
        ConditionView::Range { minimum, maximum } => within(value, minimum, maximum),
        ConditionView::AllowedValues(values) => listed(values, value),
    }
}

/// The kept values are those of the first `n` that satisfy `pred`.
pub(crate) proof fn lemma_keep_values_members(values: Seq<u64>, pred: spec_fn(u64) -> bool, n: int)
    requires
        0 <= n <= values.len(),
    ensures
        forall|j: int|
            0 <= j < keep_values(values, pred, n).len() ==> pred(#[trigger] keep_values(values, pred, n)[j])
                && values.take(n).contains(keep_values(values, pred, n)[j]),
        forall|i: int|
            0 <= i < n && pred(#[trigger] values[i]) ==> keep_values(values, pred, n).contains(values[i]),
    decreases n,
{
    if n > 0 {
        lemma_keep_values_members(values, pred, n - 1);
        let shorter = keep_values(values, pred, n - 1);
        let kept = keep_values(values, pred, n);
        assert forall|j: int| 0 <= j < kept.len() implies pred(#[trigger] kept[j]) && values.take(n).contains(kept[j]) by {
            if j < shorter.len() {
                assert(kept[j] == shorter[j]);
                let prefix = values.take(n - 1);
                assert(prefix.contains(shorter[j]));
                let i = choose|i: int| 0 <= i < prefix.len() && prefix[i] == shorter[j];
                assert(values.take(n)[i] == kept[j]);
            } else {
                assert(kept[j] == values[n - 1]);
                assert(values.take(n)[n - 1] == kept[j]);
            }
        }
        assert forall|i: int| 0 <= i < n && pred(#[trigger] values[i]) implies kept.contains(values[i]) by {
            if i < n - 1 {
                assert(shorter.contains(values[i]));
                let j = choose|j: int| 0 <= j < shorter.len() && shorter[j] == values[i];
                assert(kept[j] == shorter[j]);
            } else {
                assert(kept[kept.len() - 1] == values[n - 1]);
            }
        }
    }
}

/// A finite value is admitted by the intersection of two finite conditions
/// exactly when both admit it; when the intersection is empty, no finite
/// value is admitted by both.
pub proof fn law_condition_intersection_accepts_what_both_accept(
    left: ConditionView,
    right: ConditionView,
    value: u64,
)
    requires
        view_finite(left),
        view_finite(right),
        finite_value(value),
    ensures
        match intersect_views(left, right) {
            Some(both) => view_accepts(both, value) <==> view_accepts(left, value) && view_accepts(right, value),
            None => !(view_accepts(left, value) && view_accepts(right, value)),
        },
{
    match (left, right) {
        (ConditionView::Range { .. }, ConditionView::Range { .. }) => {},
        (ConditionView::AllowedValues(l), ConditionView::AllowedValues(r)) => {
            let pred = |x: u64| occurs(r, x);
            lemma_keep_values_members(l, pred, l.len() as int);
            let kept = keep_values(l, pred, l.len() as int);
            if listed(kept, value) {
                let j = choose|j: int| 0 <= j < kept.len() && finite_value(kept[j]) && order_key(#[trigger] kept[j])
                    == order_key(value);
                assert(pred(kept[j]) && l.take(l.len() as int).contains(kept[j]));
                let whole = l.take(l.len() as int);
                let i = choose|i: int| 0 <= i < whole.len() && whole[i] == kept[j];
                assert(l[i] == kept[j]);
                assert(listed(l, value));
                let k = choose|k: int| 0 <= k < r.len() && order_key(#[trigger] r[k]) == order_key(l[i]);
                assert(finite_value(r[k]));
                assert(listed(r, value));
            }
            if listed(l, value) && listed(r, value) {
                let i = choose|i: int| 0 <= i < l.len() && finite_value(l[i]) && order_key(#[trigger] l[i]) == order_key(value);
                let k = choose|k: int| 0 <= k < r.len() && finite_value(r[k]) && order_key(#[trigger] r[k]) == order_key(value);
                assert(occurs(r, l[i]));
                assert(pred(l[i]));
                assert(kept.contains(l[i]));
                let j = choose|j: int| 0 <= j < kept.len() && kept[j] == l[i];
                assert(listed(kept, value));
            }
        },
        (ConditionView::AllowedValues(v), ConditionView::Range { minimum, maximum }) => {
            let pred = |x: u64| within(x, minimum, maximum);
            lemma_keep_values_members(v, pred, v.len() as int);
            let kept = keep_values(v, pred, v.len() as int);
            if listed(kept, value) {
                let j = choose|j: int| 0 <= j < kept.len() && finite_value(kept[j]) && order_key(#[trigger] kept[j])
                    == order_key(value);
                assert(pred(kept[j]) && v.take(v.len() as int).contains(kept[j]));
                let whole = v.take(v.len() as int);
                let i = choose|i: int| 0 <= i < whole.len() && whole[i] == kept[j];
                assert(v[i] == kept[j]);
                assert(listed(v, value));
            }
            if listed(v, value) && within(value, minimum, maximum) {
                let i = choose|i: int| 0 <= i < v.len() && finite_value(v[i]) && order_key(#[trigger] v[i]) == order_key(value);
                assert(pred(v[i]));
                assert(kept.contains(v[i]));
                let j = choose|j: int| 0 <= j < kept.len() && kept[j] == v[i];
                assert(listed(kept, value));
            }
        },
        (ConditionView::Range { minimum, maximum }, ConditionView::AllowedValues(v)) => {
            let pred = |x: u64| within(x, minimum, maximum);
            lemma_keep_values_members(v, pred, v.len() as int);
            let kept = keep_values(v, pred, v.len() as int);
            if listed(kept, value) {
                let j = choose|j: int| 0 <= j < kept.len() && finite_value(kept[j]) && order_key(#[trigger] kept[j])
                    == order_key(value);
                assert(pred(kept[j]) && v.take(v.len() as int).contains(kept[j]));
                let whole = v.take(v.len() as int);
                let i = choose|i: int| 0 <= i < whole.len() && whole[i] == kept[j];
                assert(v[i] == kept[j]);
                assert(listed(v, value));
            }
            if listed(v, value) && within(value, minimum, maximum) {
                let i = choose|i: int| 0 <= i < v.len() && finite_value(v[i]) && order_key(#[trigger] v[i]) == order_key(value);
                assert(pred(v[i]));
                assert(kept.contains(v[i]));
                let j = choose|j: int| 0 <= j < kept.len() && kept[j] == v[i];
                assert(listed(kept, value));
            }
        },
    }
}

/// Copies a list of values.
pub(crate) fn copy_values(values: &Vec<u64>) -> (copy: Vec<u64>)
    ensures
        copy@ == values@,
{
    let mut copy: Vec<u64> = Vec::new();
    let mut i: usize = 0;
    while i < values.len()
        invariant
            i <= values@.len(),
            copy@ == values@.take(i as int),
        decreases values@.len() - i,
    {
        copy.push(values[i]);
        i = i + 1;
        assert(copy@ =~= values@.take(i as int));
    }
    assert(values@.take(values@.len() as int) =~= values@);
    copy
}

/// Copies a condition.
pub fn copy_condition(condition: &MacroDesignVariableCondition) -> (copy: MacroDesignVariableCondition)
    ensures
        condition_view(copy) == condition_view(*condition),
{
    match condition {
        MacroDesignVariableCondition::Range { minimum, maximum } => MacroDesignVariableCondition::Range {
            minimum: *minimum,
            maximum: *maximum,
        },
        MacroDesignVariableCondition::AllowedValues(values) => MacroDesignVariableCondition::AllowedValues(
            copy_values(values),
        ),
    }
}

/// The values of `values` that satisfy `keep`, a list computed by the
/// caller: `keep[i]` says whether value `i` stays.
pub(crate) fn keep_flagged(values: &Vec<u64>, keep: &Vec<bool>, Ghost(pred): Ghost<spec_fn(u64) -> bool>) -> (kept: Vec<u64>)
    requires
        keep@.len() == values@.len(),
        forall|i: int| 0 <= i < values@.len() ==> #[trigger] keep@[i] == pred(values@[i]),
    ensures
        kept@ == keep_values(values@, pred, values@.len() as int),
{
    let mut kept: Vec<u64> = Vec::new();
    let mut i: usize = 0;
    while i < values.len()
        invariant
            i <= values@.len(),
            keep@.len() == values@.len(),
            forall|j: int| 0 <= j < values@.len() ==> #[trigger] keep@[j] == pred(values@[j]),
            kept@ == keep_values(values@, pred, i as int),
        decreases values@.len() - i,
    {
        if keep[i] {
            kept.push(values[i]);
        }
        i = i + 1;
    }
    kept
}

/// Returns whether a value numerically equal to `v` is listed.
fn listed_value(values: &Vec<u64>, v: u64) -> (found: bool)
    ensures
        found == occurs(values@, v),
{
    let mut i: usize = 0;
    while i < values.len()
        invariant
            i <= values@.len(),
            forall|j: int| 0 <= j < i ==> order_key(#[trigger] values@[j]) != order_key(v),
        decreases values@.len() - i,
    {
        if value_le(values[i], v) && value_le(v, values[i]) {
            assert(order_key(values@[i as int]) == order_key(v));
            return true;
        }
        i = i + 1;
    }
    false
}

/// The listed values inside optional bounds.
fn within_range(values: &Vec<u64>, minimum: Option<u64>, maximum: Option<u64>) -> (kept: Vec<u64>)
    ensures
        kept@ == keep_values(values@, |x: u64| within(x, minimum, maximum), values@.len() as int),
{
    let ghost pred = |x: u64| within(x, minimum, maximum);
    let mut flags: Vec<bool> = Vec::new();
    let mut i: usize = 0;
    while i < values.len()
        invariant
            i <= values@.len(),
            flags@.len() == i,
            pred == (|x: u64| within(x, minimum, maximum)),
            forall|j: int| 0 <= j < i ==> #[trigger] flags@[j] == pred(values@[j]),
        decreases values@.len() - i,
    {
        flags.push(crate::macro_model::model::value_within(values[i], minimum, maximum));
        i = i + 1;
    }
    keep_flagged(values, &flags, Ghost(pred))
}

/// Intersects two design-variable conditions.
pub fn intersect_design_conditions(
    left: &MacroDesignVariableCondition,
    right: &MacroDesignVariableCondition,
) -> (result: Option<MacroDesignVariableCondition>)
    requires
        view_finite(condition_view(*left)),
        view_finite(condition_view(*right)),
    ensures
        match result {
            Some(c) => intersect_views(condition_view(*left), condition_view(*right)) == Some(condition_view(c)),
            None => intersect_views(condition_view(*left), condition_view(*right)) is None,
        },
{
    match (left, right) {
        (
            MacroDesignVariableCondition::Range { minimum: a, maximum: b },
            MacroDesignVariableCondition::Range { minimum: c, maximum: d },
        ) => {
            let minimum = match (*a, *c) {
                (Some(x), Some(y)) => Some(if value_le(y, x) { x } else { y }),
                (Some(x), None) => Some(x),
                (None, y) => y,
            };
            let maximum = match (*b, *d) {
                (Some(x), Some(y)) => Some(if value_le(x, y) { x } else { y }),
                (Some(x), None) => Some(x),
                (None, y) => y,
            };
            let inverted = match (minimum, maximum) {
                (Some(lo), Some(hi)) => value_lt(hi, lo),
                _ => false,
            };
            if inverted {
                None
            } else {
                Some(MacroDesignVariableCondition::Range { minimum, maximum })
            }
        },
        (MacroDesignVariableCondition::AllowedValues(l), MacroDesignVariableCondition::AllowedValues(r)) => {
            let ghost pred = |x: u64| occurs(r@, x);
            let mut flags: Vec<bool> = Vec::new();
            let mut i: usize = 0;
            while i < l.len()
                invariant
                    i <= l@.len(),
                    flags@.len() == i,
                    pred == (|x: u64| occurs(r@, x)),
                    forall|j: int| 0 <= j < i ==> #[trigger] flags@[j] == pred(l@[j]),
                decreases l@.len() - i,
            {
                flags.push(listed_value(r, l[i]));
                i = i + 1;
            }
            let values = keep_flagged(l, &flags, Ghost(pred));
            if values.len() == 0 {
                None
            } else {
                Some(MacroDesignVariableCondition::AllowedValues(values))
            }
        },
        (
            MacroDesignVariableCondition::AllowedValues(v),
            MacroDesignVariableCondition::Range { minimum, maximum },
        ) => {
            let values = within_range(v, *minimum, *maximum);
            if values.len() == 0 {
                None
            } else {
                Some(MacroDesignVariableCondition::AllowedValues(values))
            }
        },
        (
            MacroDesignVariableCondition::Range { minimum, maximum },
            MacroDesignVariableCondition::AllowedValues(v),
        ) => {
            let values = within_range(v, *minimum, *maximum);
            if values.len() == 0 {
                None
            } else {
                Some(MacroDesignVariableCondition::AllowedValues(values))
            }
        },
    }
}

} // verus!
