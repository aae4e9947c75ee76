//! Equalities between the candidate sets of a macro's instances, derived from
//! the nets that their port-voltage columns share.
use vstd::prelude::*;

use crate::circuit::{instance_index, lemma_instance_index, net_of, BlockRef, CircuitInstance, PortConnection};
use crate::exploration::candidate::candidate_column_name;
use crate::exploration::candidate::CandidateSet;
use crate::exploration::combination::{combination_compatible, combination_fault, comes_after, deref_sets, lex_less, CandidateCombinationEquality, CandidateCombinationJoin, CandidateCombinationJoinError};
use crate::primitive::{lemma_primitive_index, primitive_index, PrimitiveBuildInputSpec, PrimitiveCatalog};
use crate::text::{ascii_lower, lemma_sorted_distinct, lemma_text_less_total, lemma_text_less_transitive, same_texts, sorted_distinct, str_eq, str_less, string_views, strictly_sorted, text_less, to_ascii_lowercase};

use super::candidates::{instance_candidate_sets, MacroCandidateSets, MacroInstanceCandidateSet};
use super::input::MacroExplorationInstanceKind;
use super::model::Macro;

verus! {

// ---------------------------------------------------------------------------
// The plan as plain values
// ---------------------------------------------------------------------------

/// One port-voltage column of an instance, and the net its port is on.
pub struct PortVoltageEntry {
    pub set_index: int,
    pub instance_path: Seq<char>,
    pub port: Seq<char>,
    pub column: Seq<char>,
    pub net: Seq<char>,
}

/// An equality between two candidate-set columns, as plain values.
pub struct EqualityView {
    pub left_set: int,
    pub left_column: Seq<char>,
    pub right_set: int,
    pub right_column: Seq<char>,
}

/// The plain values of an equality.
pub open spec fn equality_view(e: CandidateCombinationEquality) -> EqualityView {
    EqualityView {
        left_set: e.left_set as int,
        left_column: e.left_column@,
        right_set: e.right_set as int,
        right_column: e.right_column@,
    }
}

/// The plain values of equalities, in order.
pub open spec fn equality_views(equalities: Seq<CandidateCombinationEquality>) -> Seq<EqualityView> {
    equalities.map_values(|e: CandidateCombinationEquality| equality_view(e))
}

/// Why a combination plan is refused, as plain values.
pub enum CombinationPlanFault {
    CandidateInstanceNotFound { macro_name: Seq<char>, instance_path: Seq<char> },
    CandidateInstanceKindMismatch {
        macro_name: Seq<char>,
        instance_path: Seq<char>,
        expected: MacroExplorationInstanceKind,
        actual: MacroExplorationInstanceKind,
    },
    UnknownPrimitive { macro_name: Seq<char>, instance_path: Seq<char>, primitive: Seq<char> },
    MissingPrimitiveBuildSpec { macro_name: Seq<char>, instance_path: Seq<char>, primitive: Seq<char> },
    UnknownPortVoltagePort {
        macro_name: Seq<char>,
        instance_path: Seq<char>,
        primitive: Seq<char>,
        port: Seq<char>,
    },
    UnknownMacroInterfacePort {
        macro_name: Seq<char>,
        instance_path: Seq<char>,
        referenced_macro: Seq<char>,
        port: Seq<char>,
    },
    IntraInstanceSharedNet {
        macro_name: Seq<char>,
        instance_path: Seq<char>,
        net: Seq<char>,
        first_port: Seq<char>,
        second_port: Seq<char>,
    },
    CandidateJoin(CandidateCombinationJoinError),
}

/// The candidate column that carries the voltage of `port` of an instance.
pub open spec fn port_column(instance_path: Seq<char>, port: Seq<char>) -> Seq<char> {
    instance_path + seq!['.'] + ascii_lower(port)
}

/// The build input is fed by the voltage of the primitive port it names.
pub open spec fn is_port_voltage(input: PrimitiveBuildInputSpec) -> bool {
    input.source matches Some(source) && source@ == "port_voltage"@
}

/// The port-voltage entries of the first `n` build inputs of a primitive
/// instance, or the first port without a connection.
pub open spec fn primitive_entries(
    macro_name: Seq<char>,
    connections: Seq<PortConnection>,
    primitive: Seq<char>,
    set_index: int,
    instance_path: Seq<char>,
    inputs: Seq<PrimitiveBuildInputSpec>,
    n: int,
) -> Result<Seq<PortVoltageEntry>, CombinationPlanFault>
    decreases n,
{
    if n <= 0 {
        Ok(Seq::empty())
    } else {
        match primitive_entries(macro_name, connections, primitive, set_index, instance_path, inputs, n - 1) {
            Err(fault) => Err(fault),
            Ok(entries) => {
                let input = inputs[n - 1];
                if !is_port_voltage(input) {
                    Ok(entries)
                } else {
                    match net_of(connections, input.name@) {
                        None => Err(
                            CombinationPlanFault::UnknownPortVoltagePort {
                                macro_name,
                                instance_path,
                                primitive,
                                port: input.name@,
                            },
                        ),
                        Some(net) => Ok(
                            entries.push(
                                PortVoltageEntry {
                                    set_index,
                                    instance_path,
                                    port: input.name@,
                                    column: port_column(instance_path, input.name@),
                                    net,
                                },
                            ),
                        ),
                    }
                }
            },
        }
    }
}

/// The entries of the first `n` interface ports of a compact macro instance,
/// or the first port without a connection.
pub open spec fn interface_entries(
    macro_name: Seq<char>,
    connections: Seq<PortConnection>,
    referenced_macro: Seq<char>,
    set_index: int,
    instance_path: Seq<char>,
    ports: Seq<Seq<char>>,
    n: int,
) -> Result<Seq<PortVoltageEntry>, CombinationPlanFault>
    decreases n,
{
    if n <= 0 {
        Ok(Seq::empty())
    } else {
        match interface_entries(macro_name, connections, referenced_macro, set_index, instance_path, ports, n - 1) {
            Err(fault) => Err(fault),
            Ok(entries) => {
                let port = ports[n - 1];
                match net_of(connections, port) {
                    None => Err(
                        CombinationPlanFault::UnknownMacroInterfacePort {
                            macro_name,
                            instance_path,
                            referenced_macro,
                            port,
                        },
                    ),
                    Some(net) => Ok(
                        entries.push(
                            PortVoltageEntry {
                                set_index,
                                instance_path,
                                port,
                                column: port_column(instance_path, port),
                                net,
                            },
                        ),
                    ),
                }
            },
        }
    }
}

/// The port-voltage entries of one instance's candidate set, or why it cannot
/// take part in the plan.
pub open spec fn instance_entries(
    macro_: Macro,
    catalog: PrimitiveCatalog,
    set_index: int,
    set: MacroInstanceCandidateSet,
) -> Result<Seq<PortVoltageEntry>, CombinationPlanFault> {
    let macro_name = macro_.name_view();
    let path = set.instance_path_view();
    let instances = macro_.circuit_view().instances_view();
    match instance_index(instances, path) {
        None => Err(CombinationPlanFault::CandidateInstanceNotFound { macro_name, instance_path: path }),
        Some(i) => {
            let instance = instances[i];
            let connections = instance.connections_view();
            match instance.block_view() {
                BlockRef::Primitive(primitive) => if set.kind_view() != MacroExplorationInstanceKind::Primitive {
                    Err(
                        CombinationPlanFault::CandidateInstanceKindMismatch {
                            macro_name,
                            instance_path: path,
                            expected: MacroExplorationInstanceKind::Primitive,
                            actual: set.kind_view(),
                        },
                    )
                } else {
                    match primitive_index(catalog.primitives@, primitive@) {
                        None => Err(
                            CombinationPlanFault::UnknownPrimitive {
                                macro_name,
                                instance_path: path,
                                primitive: primitive@,
                            },
                        ),
                        Some(p) => match catalog.primitives@[p].build {
                            None => Err(
                                CombinationPlanFault::MissingPrimitiveBuildSpec {
                                    macro_name,
                                    instance_path: path,
                                    primitive: primitive@,
                                },
                            ),
                            Some(build) => primitive_entries(
                                macro_name,
                                connections,
                                primitive@,
                                set_index,
                                path,
                                build.inputs@,
                                build.inputs@.len() as int,
                            ),
                        },
                    }
                },
                BlockRef::Macro(referenced) => if set.kind_view() != MacroExplorationInstanceKind::CompactMacro {
                    Err(
                        CombinationPlanFault::CandidateInstanceKindMismatch {
                            macro_name,
                            instance_path: path,
                            expected: MacroExplorationInstanceKind::CompactMacro,
                            actual: set.kind_view(),
                        },
                    )
                } else {
                    interface_entries(
                        macro_name,
                        connections,
                        referenced@,
                        set_index,
                        path,
                        set.interface_ports_view(),
                        set.interface_ports_view().len() as int,
                    )
                },
                BlockRef::Element(_) => Err(
                    CombinationPlanFault::CandidateInstanceKindMismatch {
                        macro_name,
                        instance_path: path,
                        expected: set.kind_view(),
                        actual: MacroExplorationInstanceKind::LinearElement,
                    },
                ),
            }
        },
    }
}

/// The entries of the first `n` candidate sets, in order, or the first
/// refusal.
pub open spec fn collected_entries(
    macro_: Macro,
    catalog: PrimitiveCatalog,
    sets: Seq<MacroInstanceCandidateSet>,
    n: int,
) -> Result<Seq<PortVoltageEntry>, CombinationPlanFault>
    decreases n,
{
    if n <= 0 {
        Ok(Seq::empty())
    } else {
        match collected_entries(macro_, catalog, sets, n - 1) {
            Err(fault) => Err(fault),
            Ok(entries) => match instance_entries(macro_, catalog, n - 1, sets[n - 1]) {
                Err(fault) => Err(fault),
                Ok(more) => Ok(entries + more),
            },
        }
    }
}

/// The nets of the entries, in order.
pub open spec fn entry_nets(entries: Seq<PortVoltageEntry>) -> Seq<Seq<char>> {
    entries.map_values(|e: PortVoltageEntry| e.net)
}

/// The entries among the first `n` that are on `net`, in order.
pub open spec fn net_group(entries: Seq<PortVoltageEntry>, net: Seq<char>, n: int) -> Seq<PortVoltageEntry>
    decreases n,
{
    if n <= 0 {
        Seq::empty()
    } else if entries[n - 1].net == net {
        net_group(entries, net, n - 1).push(entries[n - 1])
    } else {
        net_group(entries, net, n - 1)
    }
}

/// The equalities that tie the first entry of a net's group to each of the
/// next `n - 1`, or the first of them that belongs to the same instance.
pub open spec fn group_outcome(
    macro_name: Seq<char>,
    net: Seq<char>,
    group: Seq<PortVoltageEntry>,
    n: int,
) -> Result<Seq<EqualityView>, CombinationPlanFault>
    decreases n,
{
    if n <= 1 {
        Ok(Seq::empty())
    } else {
        match group_outcome(macro_name, net, group, n - 1) {
            Err(fault) => Err(fault),
            Ok(equalities) => {
                let first = group[0];
                let entry = group[n - 1];
                if entry.set_index == first.set_index {
                    Err(
                        CombinationPlanFault::IntraInstanceSharedNet {
                            macro_name,
                            instance_path: entry.instance_path,
                            net,
                            first_port: first.port,
                            second_port: entry.port,
                        },
                    )
                } else {
                    Ok(
                        equalities.push(
                            EqualityView {
                                left_set: first.set_index,
                                left_column: first.column,
                                right_set: entry.set_index,
                                right_column: entry.column,
                            },
                        ),
                    )
                }
            },
        }
    }
}

/// The equalities of the nets `nets[0..q]`, net after net, or the first
/// refusal.
pub open spec fn nets_outcome(
    macro_name: Seq<char>,
    entries: Seq<PortVoltageEntry>,
    nets: Seq<Seq<char>>,
    q: int,
) -> Result<Seq<EqualityView>, CombinationPlanFault>
    decreases q,
{
    if q <= 0 {
        Ok(Seq::empty())
    } else {
        match nets_outcome(macro_name, entries, nets, q - 1) {
            Err(fault) => Err(fault),
            Ok(equalities) => {
                let net = nets[q - 1];
                let group = net_group(entries, net, entries.len() as int);
                match group_outcome(macro_name, net, group, group.len() as int) {
                    Err(fault) => Err(fault),
                    Ok(more) => Ok(equalities + more),
                }
            },
        }
    }
}

/// The combination plan of a macro: the port-voltage columns of all candidate
/// sets grouped by net, nets in increasing name order, and in each group the
/// first column made equal to each later one.
pub open spec fn combination_plan(
    macro_: Macro,
    catalog: PrimitiveCatalog,
    sets: Seq<MacroInstanceCandidateSet>,
) -> Result<Seq<EqualityView>, CombinationPlanFault> {
    match collected_entries(macro_, catalog, sets, sets.len() as int) {
        Err(fault) => Err(fault),
        Ok(entries) => {
            let nets = sorted_distinct(entry_nets(entries));
            nets_outcome(macro_.name_view(), entries, nets, nets.len() as int)
        },
    }
}

/// The members of a net's group are entries on that net.
proof fn lemma_net_group_members(entries: Seq<PortVoltageEntry>, net: Seq<char>, n: int)
    requires
        0 <= n <= entries.len(),
    ensures
        forall|i: int|
            0 <= i < net_group(entries, net, n).len() ==> (#[trigger] net_group(entries, net, n)[i]).net == net
                && entries.take(n).contains(net_group(entries, net, n)[i]),
    decreases n,
{
    if n > 0 {
        lemma_net_group_members(entries, net, n - 1);
        let shorter = net_group(entries, net, n - 1);
        let group = net_group(entries, net, n);
        assert forall|i: int| 0 <= i < group.len() implies (#[trigger] group[i]).net == net && entries.take(n).contains(
            group[i],
        ) by {
            if i < shorter.len() {
                assert(group[i] == shorter[i]);
                let prefix = entries.take(n - 1);
                assert(prefix.contains(shorter[i]));
                let a = choose|a: int| 0 <= a < prefix.len() && prefix[a] == shorter[i];
                assert(entries.take(n)[a] == group[i]);
            } else {
                assert(group[i] == entries[n - 1]);
                assert(entries.take(n)[n - 1] == group[i]);
            }
        }
    }
}

/// A successful group outcome ties its first entry to each later one, of
/// another candidate set.
proof fn lemma_group_outcome_pairs(macro_name: Seq<char>, net: Seq<char>, group: Seq<PortVoltageEntry>, n: int)
    requires
        1 <= n <= group.len(),
        group_outcome(macro_name, net, group, n) is Ok,
    ensures
        group_outcome(macro_name, net, group, n)->Ok_0.len() == n - 1,
        forall|i: int|
            0 <= i < n - 1 ==> #[trigger] group_outcome(macro_name, net, group, n)->Ok_0[i] == (EqualityView {
                left_set: group[0].set_index,
                left_column: group[0].column,
                right_set: group[i + 1].set_index,
                right_column: group[i + 1].column,
            }) && group[i + 1].set_index != group[0].set_index,
    decreases n,
{
    if n > 1 {
        lemma_group_outcome_pairs(macro_name, net, group, n - 1);
        let shorter = group_outcome(macro_name, net, group, n - 1)->Ok_0;
        let longer = group_outcome(macro_name, net, group, n)->Ok_0;
        assert forall|i: int| 0 <= i < n - 1 implies #[trigger] longer[i] == (EqualityView {
            left_set: group[0].set_index,
            left_column: group[0].column,
            right_set: group[i + 1].set_index,
            right_column: group[i + 1].column,
        }) && group[i + 1].set_index != group[0].set_index by {
            if i < n - 2 {
                assert(longer[i] == shorter[i]);
            }
        }
    }
}

/// Every equality of a successful plan ties a port-voltage column to another
/// column on the same net, of another candidate set.
pub proof fn law_plan_equalities_tie_columns_on_one_net(
    macro_name: Seq<char>,
    entries: Seq<PortVoltageEntry>,
    nets: Seq<Seq<char>>,
    q: int,
    k: int,
)
    requires
        0 <= q <= nets.len(),
        nets_outcome(macro_name, entries, nets, q) is Ok,
        0 <= k < nets_outcome(macro_name, entries, nets, q)->Ok_0.len(),
    ensures
        ({
            let e = nets_outcome(macro_name, entries, nets, q)->Ok_0[k];
            exists|a: int, b: int|
                0 <= a < entries.len() && 0 <= b < entries.len() && #[trigger] entries[a].net == #[trigger] entries[b].net
                    && e == (EqualityView {
                    left_set: entries[a].set_index,
                    left_column: entries[a].column,
                    right_set: entries[b].set_index,
                    right_column: entries[b].column,
                }) && entries[a].set_index != entries[b].set_index
        }),
    decreases q,
{
    let earlier = nets_outcome(macro_name, entries, nets, q - 1);
    let all = nets_outcome(macro_name, entries, nets, q)->Ok_0;
    let prev = earlier->Ok_0;
    if k < prev.len() {
        law_plan_equalities_tie_columns_on_one_net(macro_name, entries, nets, q - 1, k);
        assert(all[k] == prev[k]);
    } else {
        let net = nets[q - 1];
        let group = net_group(entries, net, entries.len() as int);
        let more = group_outcome(macro_name, net, group, group.len() as int)->Ok_0;
        assert(all == prev + more);
        let i = k - prev.len();
        assert(all[k] == more[i]);
        lemma_net_group_members(entries, net, entries.len() as int);
        if group.len() == 0 {
            assert(more.len() == 0);
        }
        lemma_group_outcome_pairs(macro_name, net, group, group.len() as int);
        let whole = entries.take(entries.len() as int);
        assert(whole =~= entries);
        assert(whole.contains(group[0]));
        assert(whole.contains(group[i + 1]));
        let a = choose|a: int| 0 <= a < whole.len() && whole[a] == group[0];
        let b = choose|b: int| 0 <= b < whole.len() && whole[b] == group[i + 1];
        assert(entries[a] == group[0] && entries[b] == group[i + 1]);
        assert(more[i] == (EqualityView {
            left_set: entries[a].set_index,
            left_column: entries[a].column,
            right_set: entries[b].set_index,
            right_column: entries[b].column,
        }));
    }
}

// ---------------------------------------------------------------------------
// Errors and the plan
// ---------------------------------------------------------------------------

/// Errors produced while deriving or preparing macro candidate combinations.
#[derive(Clone, Debug, PartialEq, Eq)]
pub enum MacroCandidateCombinationError {
    CandidateInstanceNotFound { macro_name: String, instance_path: String },
    CandidateInstanceKindMismatch {
        macro_name: String,
        instance_path: String,
        expected: MacroExplorationInstanceKind,
        actual: MacroExplorationInstanceKind,
    },
    UnknownPrimitive { macro_name: String, instance_path: String, primitive: String },
    MissingPrimitiveBuildSpec { macro_name: String, instance_path: String, primitive: String },
    UnknownPortVoltagePort { macro_name: String, instance_path: String, primitive: String, port: String },
    UnknownMacroInterfacePort {
        macro_name: String,
        instance_path: String,
        referenced_macro: String,
        port: String,
    },
    IntraInstanceSharedNet {
        macro_name: String,
        instance_path: String,
        net: String,
        first_port: String,
        second_port: String,
    },
    CandidateJoin(CandidateCombinationJoinError),
}

impl MacroCandidateCombinationError {
    /// The message of the error.
    pub open spec fn message(&self) -> Seq<char> {
        match self {
            MacroCandidateCombinationError::CandidateInstanceNotFound { macro_name, instance_path } => "macro '"@ + macro_name@ + "' candidate instance '"@ + instance_path@ + "' is not present in its implementation circuit"@,
            MacroCandidateCombinationError::CandidateInstanceKindMismatch { macro_name, instance_path, expected, actual } => "macro '"@ + macro_name@ + "' candidate instance '"@ + instance_path@ + "' is a "@ + actual.message() + ", expected a "@ + expected.message(),
            MacroCandidateCombinationError::UnknownPrimitive { macro_name, instance_path, primitive } => "macro '"@ + macro_name@ + "' instance '"@ + instance_path@ + "' references unknown primitive '"@ + primitive@ + "' while planning candidate combinations"@,
            MacroCandidateCombinationError::MissingPrimitiveBuildSpec { macro_name, instance_path, primitive } => "macro '"@ + macro_name@ + "' instance '"@ + instance_path@ + "' primitive '"@ + primitive@ + "' has no build specification"@,
            MacroCandidateCombinationError::UnknownPortVoltagePort { macro_name, instance_path, primitive, port } => "macro '"@ + macro_name@ + "' instance '"@ + instance_path@ + "' primitive '"@ + primitive@ + "' declares port-voltage input '"@ + port@ + "' without a matching circuit connection"@,
            MacroCandidateCombinationError::UnknownMacroInterfacePort { macro_name, instance_path, referenced_macro, port } => "macro '"@ + macro_name@ + "' instance '"@ + instance_path@ + "' projected from '"@ + referenced_macro@ + "' exposes interface port '"@ + port@ + "' without a matching circuit connection"@,
            MacroCandidateCombinationError::IntraInstanceSharedNet { macro_name, instance_path, net, first_port, second_port } => "macro '"@ + macro_name@ + "' instance '"@ + instance_path@ + "' connects port-voltage inputs '"@ + first_port@ + "' and '"@ + second_port@ + "' to shared net '"@ + net@ + "', which requires an intra-instance equality"@,
            MacroCandidateCombinationError::CandidateJoin(error) => "could not prepare the indexed macro candidate join: "@ + error.message(),
        }
    }

    /// Returns the message of the error.
    pub fn to_string(&self) -> (text: String)
        ensures
            text@ == self.message(),
    {
        match self {
            MacroCandidateCombinationError::CandidateInstanceNotFound { macro_name, instance_path } => {
                let mut text = String::from_str("macro '");
                text.append(macro_name.as_str());
                text.append("' candidate instance '");
                text.append(instance_path.as_str());
                text.append("' is not present in its implementation circuit");
                text
            },
            MacroCandidateCombinationError::CandidateInstanceKindMismatch { macro_name, instance_path, expected, actual } => {
                let mut text = String::from_str("macro '");
                text.append(macro_name.as_str());
                text.append("' candidate instance '");
                text.append(instance_path.as_str());
                text.append("' is a ");
                let part = actual.to_string();
                text.append(part.as_str());
                text.append(", expected a ");
                let part = expected.to_string();
                text.append(part.as_str());
                text
            },
            MacroCandidateCombinationError::UnknownPrimitive { macro_name, instance_path, primitive } => {
                let mut text = String::from_str("macro '");
                text.append(macro_name.as_str());
                text.append("' instance '");
                text.append(instance_path.as_str());
                text.append("' references unknown primitive '");
                text.append(primitive.as_str());
                text.append("' while planning candidate combinations");
                text
            },
            MacroCandidateCombinationError::MissingPrimitiveBuildSpec { macro_name, instance_path, primitive } => {
                let mut text = String::from_str("macro '");
                text.append(macro_name.as_str());
                text.append("' instance '");
                text.append(instance_path.as_str());
                text.append("' primitive '");
                text.append(primitive.as_str());
                text.append("' has no build specification");
                text
            },
            MacroCandidateCombinationError::UnknownPortVoltagePort { macro_name, instance_path, primitive, port } => {
                let mut text = String::from_str("macro '");
                text.append(macro_name.as_str());
                text.append("' instance '");
                text.append(instance_path.as_str());
                text.append("' primitive '");
                text.append(primitive.as_str());
                text.append("' declares port-voltage input '");
                text.append(port.as_str());
                text.append("' without a matching circuit connection");
                text
            },
            MacroCandidateCombinationError::UnknownMacroInterfacePort { macro_name, instance_path, referenced_macro, port } => {
                let mut text = String::from_str("macro '");
                text.append(macro_name.as_str());
                text.append("' instance '");
                text.append(instance_path.as_str());
                text.append("' projected from '");
                text.append(referenced_macro.as_str());
                text.append("' exposes interface port '");
                text.append(port.as_str());
                text.append("' without a matching circuit connection");
                text
            },
            MacroCandidateCombinationError::IntraInstanceSharedNet { macro_name, instance_path, net, first_port, second_port } => {
                let mut text = String::from_str("macro '");
                text.append(macro_name.as_str());
                text.append("' instance '");
                text.append(instance_path.as_str());
                text.append("' connects port-voltage inputs '");
                text.append(first_port.as_str());
                text.append("' and '");
                text.append(second_port.as_str());
                text.append("' to shared net '");
                text.append(net.as_str());
                text.append("', which requires an intra-instance equality");
                text
            },
            MacroCandidateCombinationError::CandidateJoin(error) => {
                let mut text = String::from_str("could not prepare the indexed macro candidate join: ");
                let part = error.to_string();
                text.append(part.as_str());
                text
            },
        }
    }
}

impl MacroCandidateCombinationError {
    /// The refusal as plain values.
    pub open spec fn fault(self) -> CombinationPlanFault {
        match self {
            MacroCandidateCombinationError::CandidateInstanceNotFound { macro_name, instance_path } =>
                CombinationPlanFault::CandidateInstanceNotFound {
                macro_name: macro_name@,
                instance_path: instance_path@,
            },
            MacroCandidateCombinationError::CandidateInstanceKindMismatch {
                macro_name,
                instance_path,
                expected,
                actual,
            } => CombinationPlanFault::CandidateInstanceKindMismatch {
                macro_name: macro_name@,
                instance_path: instance_path@,
                expected,
                actual,
            },
            MacroCandidateCombinationError::UnknownPrimitive { macro_name, instance_path, primitive } =>
                CombinationPlanFault::UnknownPrimitive {
                macro_name: macro_name@,
                instance_path: instance_path@,
                primitive: primitive@,
            },
            MacroCandidateCombinationError::MissingPrimitiveBuildSpec {
                macro_name,
                instance_path,
                primitive,
            } => CombinationPlanFault::MissingPrimitiveBuildSpec {
                macro_name: macro_name@,
                instance_path: instance_path@,
                primitive: primitive@,
            },
            MacroCandidateCombinationError::UnknownPortVoltagePort {
                macro_name,
                instance_path,
                primitive,
                port,
            } => CombinationPlanFault::UnknownPortVoltagePort {
                macro_name: macro_name@,
                instance_path: instance_path@,
                primitive: primitive@,
                port: port@,
            },
            MacroCandidateCombinationError::UnknownMacroInterfacePort {
                macro_name,
                instance_path,
                referenced_macro,
                port,
            } => CombinationPlanFault::UnknownMacroInterfacePort {
                macro_name: macro_name@,
                instance_path: instance_path@,
                referenced_macro: referenced_macro@,
                port: port@,
            },
            MacroCandidateCombinationError::IntraInstanceSharedNet {
                macro_name,
                instance_path,
                net,
                first_port,
                second_port,
            } => CombinationPlanFault::IntraInstanceSharedNet {
                macro_name: macro_name@,
                instance_path: instance_path@,
                net: net@,
                first_port: first_port@,
                second_port: second_port@,
            },
            MacroCandidateCombinationError::CandidateJoin(error) => CombinationPlanFault::CandidateJoin(error),
        }
    }
}

/// Connectivity-derived equalities used to combine macro candidate sets.
#[derive(Clone, Debug, PartialEq, Eq)]
pub struct MacroCandidateCombinationPlan {
    equalities: Vec<CandidateCombinationEquality>,
}

impl MacroCandidateCombinationPlan {
    /// The equalities, in order.
    pub closed spec fn equality_list(&self) -> Seq<CandidateCombinationEquality> {
        self.equalities@
    }

    /// The equalities as plain values, in order.
    pub open spec fn equalities_view(&self) -> Seq<EqualityView> {
        equality_views(self.equality_list())
    }

    /// Returns the cross-instance voltage equalities in deterministic net order.
    pub fn equalities(&self) -> (equalities: &[CandidateCombinationEquality])
        ensures
            equalities@ == self.equality_list(),
    {
        self.equalities.as_slice()
    }
}

impl Default for MacroCandidateCombinationPlan {
    fn default() -> (plan: Self)
        ensures
            plan.equalities_view() == Seq::<EqualityView>::empty(),
    {
        let plan = MacroCandidateCombinationPlan { equalities: Vec::new() };
        assert(plan.equalities_view() =~= Seq::<EqualityView>::empty());
        plan
    }
}

// ---------------------------------------------------------------------------
// Collecting the port-voltage columns
// ---------------------------------------------------------------------------

/// One port-voltage column of an instance, and the net its port is on.
struct PortVoltageColumn {
    set_index: usize,
    instance_path: String,
    port: String,
    column: String,
    net: String,
}

/// The plain values of a column.
spec fn column_entry(c: PortVoltageColumn) -> PortVoltageEntry {
    PortVoltageEntry {
        set_index: c.set_index as int,
        instance_path: c.instance_path@,
        port: c.port@,
        column: c.column@,
        net: c.net@,
    }
}

/// The plain values of columns, in order.
spec fn column_entries(columns: Seq<PortVoltageColumn>) -> Seq<PortVoltageEntry> {
    columns.map_values(|c: PortVoltageColumn| column_entry(c))
}

/// Appends one column to the list.
fn push_column(
    columns: &mut Vec<PortVoltageColumn>,
    set_index: usize,
    instance_path: &str,
    port: &str,
    net: &str,
)
    ensures
        column_entries(final(columns)@) == column_entries(old(columns)@).push(
            PortVoltageEntry {
                set_index: set_index as int,
                instance_path: instance_path@,
                port: port@,
                column: port_column(instance_path@, port@),
                net: net@,
            },
        ),
{
    let lower = to_ascii_lowercase(port);
    let column = candidate_column_name(instance_path, lower.as_str());
    let ghost before = columns@;
    columns.push(
        PortVoltageColumn {
            set_index,
            instance_path: instance_path.to_owned(),
            port: port.to_owned(),
            column,
            net: net.to_owned(),
        },
    );
    assert(column_entries(columns@) =~= column_entries(before).push(column_entry(columns@.last())));
}

/// Builds the error that says where planning stopped.
fn fault_error(
    macro_name: &str,
    instance_path: &str,
    expected: MacroExplorationInstanceKind,
    actual: MacroExplorationInstanceKind,
) -> (error: MacroCandidateCombinationError)
    ensures
        error.fault() == (CombinationPlanFault::CandidateInstanceKindMismatch {
            macro_name: macro_name@,
            instance_path: instance_path@,
            expected,
            actual,
        }),
{
    MacroCandidateCombinationError::CandidateInstanceKindMismatch {
        macro_name: macro_name.to_owned(),
        instance_path: instance_path.to_owned(),
        expected,
        actual,
    }
}

/// Returns `Err` when the candidate set's kind is not the expected one.
fn ensure_instance_kind(
    macro_: &Macro,
    instance_path: &str,
    expected: MacroExplorationInstanceKind,
    actual: MacroExplorationInstanceKind,
) -> (result: Result<(), MacroCandidateCombinationError>)
    ensures
        result is Ok <==> expected == actual,
        result matches Err(error) ==> error.fault() == (CombinationPlanFault::CandidateInstanceKindMismatch {
            macro_name: macro_.name_view(),
            instance_path: instance_path@,
            expected,
            actual,
        }),
{
    if expected == actual {
        return Ok(());
    }
    Err(fault_error(macro_.name(), instance_path, expected, actual))
}

/// Whether the build input is fed by the voltage of the port it names.
fn input_is_port_voltage(input: &PrimitiveBuildInputSpec) -> (yes: bool)
    ensures
        yes == is_port_voltage(*input),
{
    match &input.source {
        Some(source) => str_eq(source.as_str(), "port_voltage"),
        None => false,
    }
}

/// Appends the port-voltage columns of a primitive instance's build inputs.
fn push_primitive_columns(
    macro_name: &str,
    instance: &CircuitInstance,
    primitive: &str,
    set_index: usize,
    instance_path: &str,
    inputs: &Vec<PrimitiveBuildInputSpec>,
    columns: &mut Vec<PortVoltageColumn>,
) -> (result: Result<(), MacroCandidateCombinationError>)
    ensures
        match primitive_entries(
            macro_name@,
            instance.connections_view(),
            primitive@,
            set_index as int,
            instance_path@,
            inputs@,
            inputs@.len() as int,
        ) {
            Ok(entries) => result is Ok && column_entries(final(columns)@) == column_entries(old(columns)@)
                + entries,
            Err(fault) => result matches Err(error) && error.fault() == fault,
        },
{
    let ghost start = column_entries(columns@);
    let n = inputs.len();
    let mut k: usize = 0;
    assert(start =~= start + Seq::<PortVoltageEntry>::empty());
    while k < n
        invariant
            n == inputs@.len(),
            k <= n,
            primitive_entries(
                macro_name@,
                instance.connections_view(),
                primitive@,
                set_index as int,
                instance_path@,
                inputs@,
                k as int,
            ) matches Ok(entries) && column_entries(columns@) == start + entries,
        decreases n - k,
    {
        let ghost entries = primitive_entries(
            macro_name@,
            instance.connections_view(),
            primitive@,
            set_index as int,
            instance_path@,
            inputs@,
            k as int,
        )->Ok_0;
        let input = &inputs[k];
        if input_is_port_voltage(input) {
            match instance.net_for_port(input.name.as_str()) {
                None => {
                    proof {
                        lemma_primitive_entries_stop(
                            macro_name@,
                            instance.connections_view(),
                            primitive@,
                            set_index as int,
                            instance_path@,
                            inputs@,
                            k + 1,
                            n as int,
                        );
                    }
                    return Err(
                        MacroCandidateCombinationError::UnknownPortVoltagePort {
                            macro_name: macro_name.to_owned(),
                            instance_path: instance_path.to_owned(),
                            primitive: primitive.to_owned(),
                            port: input.name.clone(),
                        },
                    );
                },
                Some(net) => {
                    push_column(columns, set_index, instance_path, input.name.as_str(), net);
                    assert(start + entries.push(column_entries(columns@).last()) =~= (start + entries).push(
                        column_entries(columns@).last(),
                    ));
                },
            }
        }
        k = k + 1;
    }
    Ok(())
}

/// Appends the interface-port columns of a compact macro instance.
fn push_interface_columns(
    macro_name: &str,
    instance: &CircuitInstance,
    referenced_macro: &str,
    set_index: usize,
    instance_path: &str,
    ports: &[String],
    columns: &mut Vec<PortVoltageColumn>,
) -> (result: Result<(), MacroCandidateCombinationError>)
    ensures
        match interface_entries(
            macro_name@,
            instance.connections_view(),
            referenced_macro@,
            set_index as int,
            instance_path@,
            string_views(ports@),
            ports@.len() as int,
        ) {
            Ok(entries) => result is Ok && column_entries(final(columns)@) == column_entries(old(columns)@)
                + entries,
            Err(fault) => result matches Err(error) && error.fault() == fault,
        },
{
    let ghost start = column_entries(columns@);
    let ghost views = string_views(ports@);
    let n = ports.len();
    let mut k: usize = 0;
    assert(start =~= start + Seq::<PortVoltageEntry>::empty());
    while k < n
        invariant
            n == ports@.len(),
            k <= n,
            views == string_views(ports@),
            interface_entries(
                macro_name@,
                instance.connections_view(),
                referenced_macro@,
                set_index as int,
                instance_path@,
                views,
                k as int,
            ) matches Ok(entries) && column_entries(columns@) == start + entries,
        decreases n - k,
    {
        let ghost entries = interface_entries(
            macro_name@,
            instance.connections_view(),
            referenced_macro@,
            set_index as int,
            instance_path@,
            views,
            k as int,
        )->Ok_0;
        let port = ports[k].as_str();
        assert(views[k as int] == port@);
        match instance.net_for_port(port) {
            None => {
                proof {
                    lemma_interface_entries_stop(
                        macro_name@,
                        instance.connections_view(),
                        referenced_macro@,
                        set_index as int,
                        instance_path@,
                        views,
                        k + 1,
                        n as int,
                    );
                }
                return Err(
                    MacroCandidateCombinationError::UnknownMacroInterfacePort {
                        macro_name: macro_name.to_owned(),
                        instance_path: instance_path.to_owned(),
                        referenced_macro: referenced_macro.to_owned(),
                        port: port.to_owned(),
                    },
                );
            },
            Some(net) => {
                push_column(columns, set_index, instance_path, port, net);
                assert(start + entries.push(column_entries(columns@).last()) =~= (start + entries).push(
                    column_entries(columns@).last(),
                ));
            },
        }
        k = k + 1;
    }
    Ok(())
}

/// Appends the columns of one instance's candidate set.
fn push_instance_columns(
    macro_: &Macro,
    primitive_catalog: &PrimitiveCatalog,
    set_index: usize,
    set: &MacroInstanceCandidateSet,
    columns: &mut Vec<PortVoltageColumn>,
) -> (result: Result<(), MacroCandidateCombinationError>)
    ensures
        match instance_entries(*macro_, *primitive_catalog, set_index as int, *set) {
            Ok(entries) => result is Ok && column_entries(final(columns)@) == column_entries(old(columns)@)
                + entries,
            Err(fault) => result matches Err(error) && error.fault() == fault,
        },
{
    let instance_path = set.instance_path();
    proof {
        lemma_instance_index(macro_.circuit_view().instances_view(), instance_path@);
    }
    let instance = match macro_.circuit().instance(instance_path) {
        Some(instance) => instance,
        None => {
            return Err(
                MacroCandidateCombinationError::CandidateInstanceNotFound {
                    macro_name: macro_.name().to_owned(),
                    instance_path: instance_path.to_owned(),
                },
            );
        },
    };
    match instance.block() {
        BlockRef::Primitive(primitive_name) => {
            match ensure_instance_kind(macro_, instance_path, MacroExplorationInstanceKind::Primitive, set.kind()) {
                Ok(()) => {},
                Err(error) => {
                    return Err(error);
                },
            }
            proof {
                lemma_primitive_index(primitive_catalog.primitives@, primitive_name@);
            }
            let primitive = match primitive_catalog.get(primitive_name.as_str()) {
                Some(primitive) => primitive,
                None => {
                    return Err(
                        MacroCandidateCombinationError::UnknownPrimitive {
                            macro_name: macro_.name().to_owned(),
                            instance_path: instance_path.to_owned(),
                            primitive: primitive_name.clone(),
                        },
                    );
                },
            };
            match &primitive.build {
                None => Err(
                    MacroCandidateCombinationError::MissingPrimitiveBuildSpec {
                        macro_name: macro_.name().to_owned(),
                        instance_path: instance_path.to_owned(),
                        primitive: primitive_name.clone(),
                    },
                ),
                Some(build) => push_primitive_columns(
                    macro_.name(),
                    instance,
                    primitive_name.as_str(),
                    set_index,
                    instance_path,
                    &build.inputs,
                    columns,
                ),
            }
        },
        BlockRef::Macro(referenced_macro) => {
            match ensure_instance_kind(macro_, instance_path, MacroExplorationInstanceKind::CompactMacro, set.kind()) {
                Ok(()) => {},
                Err(error) => {
                    return Err(error);
                },
            }
            push_interface_columns(
                macro_.name(),
                instance,
                referenced_macro.as_str(),
                set_index,
                instance_path,
                set.interface_ports(),
                columns,
            )
        },
        BlockRef::Element(_) => Err(
            fault_error(macro_.name(), instance_path, set.kind(), MacroExplorationInstanceKind::LinearElement),
        ),
    }
}

/// Collects the columns of all candidate sets, in order.
fn collect_columns(
    macro_: &Macro,
    primitive_catalog: &PrimitiveCatalog,
    candidates: &MacroCandidateSets,
) -> (result: Result<Vec<PortVoltageColumn>, MacroCandidateCombinationError>)
    ensures
        match collected_entries(
            *macro_,
            *primitive_catalog,
            candidates.instances_view(),
            candidates.instances_view().len() as int,
        ) {
            Ok(entries) => result matches Ok(columns) && column_entries(columns@) == entries,
            Err(fault) => result matches Err(error) && error.fault() == fault,
        },
{
    let sets = candidates.instances();
    let n = sets.len();
    let mut columns: Vec<PortVoltageColumn> = Vec::new();
    let mut i: usize = 0;
    assert(column_entries(columns@) =~= Seq::<PortVoltageEntry>::empty());
    while i < n
        invariant
            n == sets@.len(),
            sets@ == candidates.instances_view(),
            i <= n,
            collected_entries(*macro_, *primitive_catalog, sets@, i as int) matches Ok(entries)
                && column_entries(columns@) == entries,
        decreases n - i,
    {
        match push_instance_columns(macro_, primitive_catalog, i, &sets[i], &mut columns) {
            Ok(()) => {},
            Err(error) => {
                proof {
                    lemma_collected_stops(*macro_, *primitive_catalog, sets@, i + 1, n as int);
                }
                return Err(error);
            },
        }
        i = i + 1;
    }
    Ok(columns)
}

// ---------------------------------------------------------------------------
// Grouping by net
// ---------------------------------------------------------------------------

/// Lists the distinct nets of the columns in increasing order.
fn sorted_nets(columns: &Vec<PortVoltageColumn>) -> (nets: Vec<String>)
    ensures
        strictly_sorted(string_views(nets@)),
        same_texts(string_views(nets@), entry_nets(column_entries(columns@))),
{
    let ghost all = entry_nets(column_entries(columns@));
    let n = columns.len();
    let mut nets: Vec<String> = Vec::new();
    let mut i: usize = 0;
    while i < n
        invariant
            n == columns@.len(),
            all == entry_nets(column_entries(columns@)),
            i <= n,
            strictly_sorted(string_views(nets@)),
            same_texts(string_views(nets@), all.take(i as int)),
        decreases n - i,
    {
        let net = columns[i].net.as_str();
        assert(all[i as int] == net@);
        let ghost views = string_views(nets@);
        let mut p: usize = 0;
        while p < nets.len() && str_less(nets[p].as_str(), net)
            invariant
                p <= nets@.len(),
                views == string_views(nets@),
                forall|k: int| 0 <= k < p ==> text_less(#[trigger] views[k], net@),
            decreases nets@.len() - p,
        {
            p = p + 1;
        }
        let ghost seen = all.take(i as int);
        let ghost grown = all.take(i + 1);
        assert(grown =~= seen.push(net@));
        if p < nets.len() && str_eq(nets[p].as_str(), net) {
            assert(views[p as int] == net@);
            assert forall|x: Seq<char>| views.contains(x) <==> grown.contains(x) by {
                if grown.contains(x) && x != net@ {
                    let k = choose|k: int| 0 <= k < grown.len() && grown[k] == x;
                    assert(seen[k] == x);
                }
                if views.contains(x) {
                    assert(seen.contains(x));
                    let k = choose|k: int| 0 <= k < seen.len() && seen[k] == x;
                    assert(grown[k] == x);
                }
            }
        } else {
            proof {
                lemma_insert_text(views, seen, net@, p as int);
            }
            nets.insert(p, net.to_owned());
            assert(string_views(nets@) =~= views.insert(p as int, net@));
        }
        i = i + 1;
    }
    assert(all.take(n as int) =~= all);
    nets
}

/// Inserting a new text at its place keeps the list sorted and complete.
proof fn lemma_insert_text(views: Seq<Seq<char>>, seen: Seq<Seq<char>>, x: Seq<char>, p: int)
    requires
        strictly_sorted(views),
        same_texts(views, seen),
        0 <= p <= views.len(),
        forall|k: int| 0 <= k < p ==> text_less(#[trigger] views[k], x),
        p < views.len() ==> !text_less(views[p], x) && views[p] != x,
    ensures
        strictly_sorted(views.insert(p, x)),
        same_texts(views.insert(p, x), seen.push(x)),
{
    let out = views.insert(p, x);
    views.insert_ensures(p, x);
    if p < views.len() {
        lemma_text_less_total(views[p], x);
    }
    assert forall|k: int| p <= k < views.len() implies text_less(x, #[trigger] views[k]) by {
        if k > p {
            lemma_text_less_transitive(x, views[p], views[k]);
        }
    }
    assert forall|a: int, b: int| 0 <= a < b < out.len() implies text_less(#[trigger] out[a], #[trigger] out[b]) by {
        if b < p {
            assert(out[a] == views[a] && out[b] == views[b]);
        } else if b == p {
            assert(out[a] == views[a]);
        } else if a < p {
            assert(out[a] == views[a] && out[b] == views[b - 1]);
            lemma_text_less_transitive(views[a], x, views[b - 1]);
        } else if a == p {
            assert(out[b] == views[b - 1]);
        } else {
            assert(out[a] == views[a - 1] && out[b] == views[b - 1]);
        }
    }
    assert forall|y: Seq<char>| out.contains(y) <==> seen.push(x).contains(y) by {
        if out.contains(y) {
            let k = choose|k: int| 0 <= k < out.len() && out[k] == y;
            if k < p {
                assert(views[k] == y);
                assert(views.contains(y));
                let m = choose|m: int| 0 <= m < seen.len() && seen[m] == y;
                assert(seen.push(x)[m] == y);
            } else if k == p {
                assert(seen.push(x)[seen.len() as int] == y);
            } else {
                assert(views[k - 1] == y);
                assert(views.contains(y));
                let m = choose|m: int| 0 <= m < seen.len() && seen[m] == y;
                assert(seen.push(x)[m] == y);
            }
        }
        if seen.push(x).contains(y) {
            let m = choose|m: int| 0 <= m < seen.len() + 1 && seen.push(x)[m] == y;
            if m == seen.len() {
                assert(out[p] == y);
            } else {
                assert(seen[m] == y);
                assert(seen.contains(y));
                let k = choose|k: int| 0 <= k < views.len() && views[k] == y;
                if k < p {
                    assert(out[k] == y);
                } else {
                    assert(out[k + 1] == y);
                }
            }
        }
    }
}

/// The outcome of the first `m` entries of a group depends on those entries
/// alone.
proof fn lemma_group_outcome_agrees(
    macro_name: Seq<char>,
    net: Seq<char>,
    g: Seq<PortVoltageEntry>,
    h: Seq<PortVoltageEntry>,
    m: int,
)
    requires
        0 <= m <= g.len(),
        m <= h.len(),
        forall|i: int| 0 <= i < m ==> g[i] == h[i],
    ensures
        group_outcome(macro_name, net, g, m) == group_outcome(macro_name, net, h, m),
    decreases m,
{
    if m > 1 {
        lemma_group_outcome_agrees(macro_name, net, g, h, m - 1);
        assert(g[0] == h[0]);
        assert(g[m - 1] == h[m - 1]);
    }
}

/// A later group of a net extends an earlier one.
proof fn lemma_net_group_grows(entries: Seq<PortVoltageEntry>, net: Seq<char>, k: int, j: int)
    requires
        0 <= k <= j,
    ensures
        net_group(entries, net, k).len() <= net_group(entries, net, j).len(),
        forall|i: int|
            0 <= i < net_group(entries, net, k).len() ==> net_group(entries, net, j)[i] == net_group(
                entries,
                net,
                k,
            )[i],
    decreases j,
{
    if j > k {
        lemma_net_group_grows(entries, net, k, j - 1);
    }
}

/// Once a group's outcome is a refusal, longer prefixes give the same one.
proof fn lemma_group_outcome_stops(
    macro_name: Seq<char>,
    net: Seq<char>,
    group: Seq<PortVoltageEntry>,
    k: int,
    n: int,
)
    requires
        1 <= k <= n,
        group_outcome(macro_name, net, group, k) is Err,
    ensures
        group_outcome(macro_name, net, group, n) == group_outcome(macro_name, net, group, k),
    decreases n,
{
    if n > k {
        lemma_group_outcome_stops(macro_name, net, group, k, n - 1);
    }
}

/// Once the nets' outcome is a refusal, later nets do not change it.
proof fn lemma_nets_outcome_stops(
    macro_name: Seq<char>,
    entries: Seq<PortVoltageEntry>,
    nets: Seq<Seq<char>>,
    k: int,
    n: int,
)
    requires
        0 <= k <= n,
        nets_outcome(macro_name, entries, nets, k) is Err,
    ensures
        nets_outcome(macro_name, entries, nets, n) == nets_outcome(macro_name, entries, nets, k),
    decreases n,
{
    if n > k {
        lemma_nets_outcome_stops(macro_name, entries, nets, k, n - 1);
    }
}

/// Once collecting is refused, later candidate sets do not change it.
proof fn lemma_collected_stops(
    macro_: Macro,
    catalog: PrimitiveCatalog,
    sets: Seq<MacroInstanceCandidateSet>,
    k: int,
    n: int,
)
    requires
        0 <= k <= n,
        collected_entries(macro_, catalog, sets, k) is Err,
    ensures
        collected_entries(macro_, catalog, sets, n) == collected_entries(macro_, catalog, sets, k),
    decreases n,
{
    if n > k {
        lemma_collected_stops(macro_, catalog, sets, k, n - 1);
    }
}

/// Once a primitive's inputs are refused, later inputs do not change it.
proof fn lemma_primitive_entries_stop(
    macro_name: Seq<char>,
    connections: Seq<PortConnection>,
    primitive: Seq<char>,
    set_index: int,
    instance_path: Seq<char>,
    inputs: Seq<PrimitiveBuildInputSpec>,
    k: int,
    n: int,
)
    requires
        0 <= k <= n,
        primitive_entries(macro_name, connections, primitive, set_index, instance_path, inputs, k) is Err,
    ensures
        primitive_entries(macro_name, connections, primitive, set_index, instance_path, inputs, n)
            == primitive_entries(macro_name, connections, primitive, set_index, instance_path, inputs, k),
    decreases n,
{
    if n > k {
        lemma_primitive_entries_stop(macro_name, connections, primitive, set_index, instance_path, inputs, k, n - 1);
    }
}

/// Once an instance's interface ports are refused, later ports do not change it.
proof fn lemma_interface_entries_stop(
    macro_name: Seq<char>,
    connections: Seq<PortConnection>,
    referenced_macro: Seq<char>,
    set_index: int,
    instance_path: Seq<char>,
    ports: Seq<Seq<char>>,
    k: int,
    n: int,
)
    requires
        0 <= k <= n,
        interface_entries(macro_name, connections, referenced_macro, set_index, instance_path, ports, k) is Err,
    ensures
        interface_entries(macro_name, connections, referenced_macro, set_index, instance_path, ports, n)
            == interface_entries(macro_name, connections, referenced_macro, set_index, instance_path, ports, k),
    decreases n,
{
    if n > k {
        lemma_interface_entries_stop(macro_name, connections, referenced_macro, set_index, instance_path, ports, k, n - 1);
    }
}

/// Appends the equalities of one net's group.
fn push_net_equalities(
    macro_name: &str,
    columns: &Vec<PortVoltageColumn>,
    net: &str,
    equalities: &mut Vec<CandidateCombinationEquality>,
) -> (result: Result<(), MacroCandidateCombinationError>)
    ensures
        ({
            let entries = column_entries(columns@);
            let group = net_group(entries, net@, entries.len() as int);
            match group_outcome(macro_name@, net@, group, group.len() as int) {
                Ok(more) => result is Ok && equality_views(final(equalities)@) == equality_views(
                    old(equalities)@,
                ) + more,
                Err(fault) => result matches Err(error) && error.fault() == fault,
            }
        }),
{
    let ghost entries = column_entries(columns@);
    let ghost start = equality_views(equalities@);
    let n = columns.len();
    let mut first: Option<usize> = None;
    let mut k: usize = 0;
    assert(start =~= start + Seq::<EqualityView>::empty());
    while k < n
        invariant
            n == columns@.len(),
            entries == column_entries(columns@),
            k <= n,
            first is None <==> net_group(entries, net@, k as int).len() == 0,
            first matches Some(f) ==> f < k && entries[f as int] == net_group(entries, net@, k as int)[0],
            ({
                let group = net_group(entries, net@, k as int);
                group_outcome(macro_name@, net@, group, group.len() as int) matches Ok(more)
                    && equality_views(equalities@) == start + more
            }),
        decreases n - k,
    {
        let ghost group = net_group(entries, net@, k as int);
        let ghost more = group_outcome(macro_name@, net@, group, group.len() as int)->Ok_0;
        let column = &columns[k];
        assert(entries[k as int] == column_entry(*column));
        if str_eq(column.net.as_str(), net) {
            let ghost grown = group.push(entries[k as int]);
            assert(net_group(entries, net@, k + 1) == grown);
            proof {
                lemma_group_outcome_agrees(macro_name@, net@, grown, group, group.len() as int);
            }
            match first {
                None => {
                    first = Some(k);
                },
                Some(f) => {
                    let head = &columns[f];
                    assert(entries[f as int] == column_entry(*head));
                    assert(grown[0] == group[0]);
                    if column.set_index == head.set_index {
                        proof {
                            let whole = net_group(entries, net@, n as int);
                            lemma_net_group_grows(entries, net@, k + 1, n as int);
                            lemma_group_outcome_agrees(macro_name@, net@, grown, whole, grown.len() as int);
                            lemma_group_outcome_stops(macro_name@, net@, whole, grown.len() as int, whole.len() as int);
                        }
                        return Err(
                            MacroCandidateCombinationError::IntraInstanceSharedNet {
                                macro_name: macro_name.to_owned(),
                                instance_path: column.instance_path.clone(),
                                net: net.to_owned(),
                                first_port: head.port.clone(),
                                second_port: column.port.clone(),
                            },
                        );
                    }
                    let ghost before = equalities@;
                    equalities.push(
                        CandidateCombinationEquality::new(
                            head.set_index,
                            head.column.clone(),
                            column.set_index,
                            column.column.clone(),
                        ),
                    );
                    assert(equality_views(equalities@) =~= equality_views(before).push(
                        equality_view(equalities@.last()),
                    ));
                    assert(start + more.push(equality_view(equalities@.last())) =~= (start + more).push(
                        equality_view(equalities@.last()),
                    ));
                },
            }
        }
        k = k + 1;
    }
    Ok(())
}

/// Appends the equalities of the nets, net after net.
fn push_all_equalities(
    macro_name: &str,
    columns: &Vec<PortVoltageColumn>,
    nets: &Vec<String>,
) -> (result: Result<Vec<CandidateCombinationEquality>, MacroCandidateCombinationError>)
    ensures
        match nets_outcome(
            macro_name@,
            column_entries(columns@),
            string_views(nets@),
            nets@.len() as int,
        ) {
            Ok(equalities) => result matches Ok(found) && equality_views(found@) == equalities,
            Err(fault) => result matches Err(error) && error.fault() == fault,
        },
{
    let ghost views = string_views(nets@);
    let n = nets.len();
    let mut equalities: Vec<CandidateCombinationEquality> = Vec::new();
    let mut q: usize = 0;
    assert(equality_views(equalities@) =~= Seq::<EqualityView>::empty());
    while q < n
        invariant
            n == nets@.len(),
            views == string_views(nets@),
            q <= n,
            nets_outcome(macro_name@, column_entries(columns@), views, q as int) matches Ok(found)
                && equality_views(equalities@) == found,
        decreases n - q,
    {
        assert(views[q as int] == nets@[q as int]@);
        match push_net_equalities(macro_name, columns, nets[q].as_str(), &mut equalities) {
            Ok(()) => {},
            Err(error) => {
                proof {
                    lemma_nets_outcome_stops(macro_name@, column_entries(columns@), views, q + 1, n as int);
                }
                return Err(error);
            },
        }
        q = q + 1;
    }
    Ok(equalities)
}

/// Derives candidate-column equalities from primitive port-voltage
/// connectivity: the port-voltage columns of every candidate set, grouped by
/// the net their port is on, nets in increasing name order; in each group the
/// first column is made equal to each later one.
pub fn plan_macro_candidate_combinations(
    macro_: &Macro,
    primitive_catalog: &PrimitiveCatalog,
    candidates: &MacroCandidateSets,
) -> (result: Result<MacroCandidateCombinationPlan, MacroCandidateCombinationError>)
    ensures
        match combination_plan(*macro_, *primitive_catalog, candidates.instances_view()) {
            Ok(equalities) => result matches Ok(plan) && plan.equalities_view() == equalities,
            Err(fault) => result matches Err(error) && error.fault() == fault,
        },
{
    let columns = match collect_columns(macro_, primitive_catalog, candidates) {
        Ok(columns) => columns,
        Err(error) => {
            return Err(error);
        },
    };
    let nets = sorted_nets(&columns);
    proof {
        lemma_sorted_distinct(string_views(nets@), entry_nets(column_entries(columns@)));
    }
    match push_all_equalities(macro_.name(), &columns, &nets) {
        Ok(equalities) => Ok(MacroCandidateCombinationPlan { equalities }),
        Err(error) => Err(error),
    }
}

// ---------------------------------------------------------------------------
// Lazy traversal of the compatible selections
// ---------------------------------------------------------------------------

/// Some candidate set has no point.
pub open spec fn has_empty_set(sets: Seq<CandidateSet>) -> bool {
    exists|i: int| 0 <= i < sets.len() && (#[trigger] sets[i]).points@.len() == 0
}

/// Lazy traversal over candidate selections compatible with macro connectivity.
#[derive(Debug)]
pub struct MacroCandidateCombinationJoin {
    plan: MacroCandidateCombinationPlan,
    join: Option<CandidateCombinationJoin>,
    selection_len: usize,
}

impl MacroCandidateCombinationJoin {
    /// The connectivity plan.
    pub closed spec fn plan_view(&self) -> MacroCandidateCombinationPlan {
        self.plan
    }

    /// The number of instance indices in every selection.
    pub closed spec fn selection_len_view(&self) -> nat {
        self.selection_len as nat
    }

    /// A selection picks one point of every set and satisfies the plan.
    pub closed spec fn compatible(&self, sel: Seq<usize>) -> bool {
        match self.join {
            Some(join) => join.compatible(sel),
            None => false,
        }
    }

    /// The selection returned last, if any.
    pub closed spec fn last(&self) -> Option<Seq<usize>> {
        match self.join {
            Some(join) => join.last(),
            None => None,
        }
    }

    /// No selection remains.
    pub closed spec fn is_exhausted(&self) -> bool {
        match self.join {
            Some(join) => join.is_exhausted(),
            None => true,
        }
    }

    /// Internal consistency of the traversal.
    pub closed spec fn wf(&self) -> bool {
        self.join matches Some(join) ==> join.wf() && join.counts().len() == self.selection_len
    }

    /// Builds the connectivity plan and its indexed lazy join. A macro with an
    /// instance without candidates has an exhausted join.
    pub fn new(
        macro_: &Macro,
        primitive_catalog: &PrimitiveCatalog,
        candidates: &MacroCandidateSets,
    ) -> (result: Result<Self, MacroCandidateCombinationError>)
        ensures
            ({
                let sets = instance_candidate_sets(candidates.instances_view());
                match combination_plan(*macro_, *primitive_catalog, candidates.instances_view()) {
                    Err(fault) => result matches Err(error) && error.fault() == fault,
                    Ok(equalities) => match result {
                        Ok(join) => {
                            &&& join.wf()
                            &&& join.plan_view().equalities_view() == equalities
                            &&& join.selection_len_view() == sets.len()
                            &&& join.last() is None
                            &&& forall|sel: Seq<usize>| #[trigger]
                                join.compatible(sel) == combination_compatible(
                                    sets,
                                    join.plan_view().equality_list(),
                                    sel,
                                )
                        },
                        Err(error) => {
                            &&& !has_empty_set(sets)
                            &&& error is CandidateJoin
                            &&& exists|list: Seq<CandidateCombinationEquality>|
                                equality_views(list) == equalities && #[trigger] combination_fault(sets, list) is Some
                                    && error->CandidateJoin_0.reports(sets, list, combination_fault(sets, list)->0)
                        },
                    },
                }
            }),
    {
        let plan = match plan_macro_candidate_combinations(macro_, primitive_catalog, candidates) {
            Ok(plan) => plan,
            Err(error) => {
                return Err(error);
            },
        };
        let candidate_sets = candidates.candidate_sets();
        let ghost sets = instance_candidate_sets(candidates.instances_view());
        assert(deref_sets(candidate_sets@) =~= sets);
        let selection_len = candidate_sets.len();
        let mut any_empty = false;
        let mut i: usize = 0;
        while i < candidate_sets.len()
            invariant
                i <= candidate_sets@.len(),
                any_empty ==> has_empty_set(deref_sets(candidate_sets@)),
                !any_empty ==> forall|k: int| 0 <= k < i ==> (#[trigger] candidate_sets@[k]).points@.len() > 0,
            decreases candidate_sets@.len() - i,
        {
            if candidate_sets[i].points.len() == 0 {
                assert(deref_sets(candidate_sets@)[i as int].points@.len() == 0);
                any_empty = true;
            }
            i = i + 1;
        }
        if any_empty {
            let join = MacroCandidateCombinationJoin { plan, join: None, selection_len };
            assert forall|sel: Seq<usize>| #[trigger] join.compatible(sel) == combination_compatible(
                sets,
                join.plan_view().equality_list(),
                sel,
            ) by {
                if combination_compatible(sets, join.plan_view().equality_list(), sel) {
                    let k = choose|k: int| 0 <= k < sets.len() && (#[trigger] sets[k]).points@.len() == 0;
                    assert(sel[k] < sets[k].points@.len());
                }
            }
            return Ok(join);
        }
        assert(!has_empty_set(sets));
        match CandidateCombinationJoin::new(candidate_sets.as_slice(), plan.equalities()) {
            Ok(join) => Ok(MacroCandidateCombinationJoin { plan, join: Some(join), selection_len }),
            Err(error) => {
                assert(combination_fault(sets, plan.equality_list()) is Some);
                Err(MacroCandidateCombinationError::CandidateJoin(error))
            },
        }
    }

    /// Returns the connectivity plan used by this traversal.
    pub fn plan(&self) -> (plan: &MacroCandidateCombinationPlan)
        ensures
            *plan == self.plan_view(),
    {
        &self.plan
    }

    /// Returns the least compatible selection after the one returned last
    /// (the least of all on the first call), or `None` when there is none.
    pub fn next_selection(&mut self) -> (selection: Option<Vec<usize>>)
        requires
            old(self).wf(),
        ensures
            final(self).wf(),
            final(self).plan_view() == old(self).plan_view(),
            final(self).selection_len_view() == old(self).selection_len_view(),
            forall|u: Seq<usize>| #[trigger] final(self).compatible(u) == old(self).compatible(u),
            match selection {
                Some(s) => {
                    &&& !old(self).is_exhausted()
                    &&& old(self).compatible(s@)
                    &&& comes_after(old(self).last(), s@)
                    &&& forall|u: Seq<usize>|
                        #[trigger] old(self).compatible(u) && comes_after(old(self).last(), u) ==> s@ == u
                            || lex_less(s@, u)
                    &&& final(self).last() == Some(s@)
                    &&& !final(self).is_exhausted()
                },
                None => {
                    &&& final(self).is_exhausted()
                    &&& final(self).last() == old(self).last()
                    &&& forall|u: Seq<usize>| #[trigger] old(self).compatible(u) ==> !comes_after(old(self).last(), u)
                },
            },
    {
        match &mut self.join {
            Some(join) => join.next_selection(),
            None => None,
        }
    }

    /// Returns the number of instance indices in every yielded selection.
    pub fn selection_len(&self) -> (n: usize)
        ensures
            n == self.selection_len_view(),
    {
        self.selection_len
    }
}

} // verus!
