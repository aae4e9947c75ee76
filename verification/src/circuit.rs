//! Typed circuit topology used by macros and compact models: named instances
//! whose ports connect to circuit nets.
use vstd::prelude::*;

use crate::search::{any_below, first_index, lemma_first_exists, lemma_first_index};
use crate::text::str_eq;

verus! {

/// One port of an instance connected to a circuit net.
#[derive(Debug, Clone, PartialEq, Eq)]
pub struct PortConnection {
    port: String,
    net: String,
}

impl PortConnection {
    /// The connected port.
    pub closed spec fn port_view(&self) -> Seq<char> {
        self.port@
    }

    /// The net the port connects to.
    pub closed spec fn net_view(&self) -> Seq<char> {
        self.net@
    }

    /// Connects a port to a net.
    pub fn new(port: String, net: String) -> (connection: Self)
        ensures
            connection.port_view() == port@,
            connection.net_view() == net@,
    {
        PortConnection { port, net }
    }

    /// Returns the local port name.
    pub fn port(&self) -> (port: &str)
        ensures
            port@ == self.port_view(),
    {
        self.port.as_str()
    }

    /// Returns the net connected to the port.
    pub fn net(&self) -> (net: &str)
        ensures
            net@ == self.net_view(),
    {
        self.net.as_str()
    }
}

/// A constant (binary64 bit pattern) or symbolic value of a linear element.
#[derive(Debug, Clone, PartialEq)]
pub enum CircuitValue {
    Constant(u64),
    Parameter(String),
}

impl CircuitValue {
    /// A symbolic circuit parameter.
    pub fn parameter(name: String) -> (value: Self)
        ensures
            value == CircuitValue::Parameter(name),
    {
        CircuitValue::Parameter(name)
    }
}

/// Linear elements usable in compact models.
#[derive(Debug, Clone, PartialEq)]
pub enum LinearElement {
    Resistor { resistance: CircuitValue },
    Capacitor { capacitance: CircuitValue },
    CurrentSource { current: CircuitValue },
    VoltageSource { voltage: CircuitValue },
    VoltageControlledCurrentSource { transconductance: CircuitValue },
}

/// A block that an instance places.
#[derive(Debug, Clone, PartialEq)]
pub enum BlockRef {
    Primitive(String),
    Macro(String),
    Element(LinearElement),
}

/// The net of the first connection of `port`, if any.
pub open spec fn net_of(connections: Seq<PortConnection>, port: Seq<char>) -> Option<Seq<char>> {
    let pred = |i: int| connections[i].port_view() == port;
    if any_below(connections.len() as int, pred) {
        Some(connections[first_index(connections.len() as int, pred)].net_view())
    } else {
        None
    }
}

/// Connections made of (port, net) names, in order.
pub open spec fn connections_from(pairs: Seq<(String, String)>, connections: Seq<PortConnection>) -> bool {
    connections.len() == pairs.len() && forall|i: int|
        0 <= i < pairs.len() ==> (#[trigger] connections[i]).port_view() == pairs[i].0@
            && connections[i].net_view() == pairs[i].1@
}

/// One named block placed in a circuit.
#[derive(Debug, Clone, PartialEq)]
pub struct CircuitInstance {
    name: String,
    block: BlockRef,
    connections: Vec<PortConnection>,
}

impl CircuitInstance {
    /// The local instance name.
    pub closed spec fn name_view(&self) -> Seq<char> {
        self.name@
    }

    /// The placed block.
    pub closed spec fn block_view(&self) -> BlockRef {
        self.block
    }

    /// The port connections, in order.
    pub closed spec fn connections_view(&self) -> Seq<PortConnection> {
        self.connections@
    }

    /// Places a block with its (port, net) connections.
    pub fn new(name: String, block: BlockRef, connections: Vec<(String, String)>) -> (instance: Self)
        ensures
            instance.name_view() == name@,
            instance.block_view() == block,
            connections_from(connections@, instance.connections_view()),
    {
        let mut made: Vec<PortConnection> = Vec::new();
        let mut rest = connections;
        let mut reversed: Vec<(String, String)> = Vec::new();
        while rest.len() > 0
            invariant
                rest@ == connections@.take(rest@.len() as int),
                reversed@.len() + rest@.len() == connections@.len(),
                forall|j: int| 0 <= j < reversed@.len() ==> #[trigger] reversed@[j] == connections@[connections@.len() - 1 - j],
            decreases rest@.len(),
        {
            let pair = rest.pop().unwrap();
            reversed.push(pair);
            assert(rest@ =~= connections@.take(rest@.len() as int));
        }
        let ghost n = connections@.len();
        while reversed.len() > 0
            invariant
                reversed@.len() + made@.len() == n,
                n == connections@.len(),
                forall|j: int| 0 <= j < reversed@.len() ==> #[trigger] reversed@[j] == connections@[n - 1 - j],
                forall|i: int|
                    0 <= i < made@.len() ==> (#[trigger] made@[i]).port_view() == connections@[i].0@
                        && made@[i].net_view() == connections@[i].1@,
            decreases reversed@.len(),
        {
            let (port, net) = reversed.pop().unwrap();
            made.push(PortConnection::new(port, net));
        }
        CircuitInstance { name, block, connections: made }
    }

    /// Places a primitive.
    pub fn primitive(name: String, primitive: String, connections: Vec<(String, String)>) -> (instance: Self)
        ensures
            instance.name_view() == name@,
            instance.block_view() == BlockRef::Primitive(primitive),
            connections_from(connections@, instance.connections_view()),
    {
        CircuitInstance::new(name, BlockRef::Primitive(primitive), connections)
    }

    /// Places a submacro.
    pub fn macro_instance(name: String, macro_name: String, connections: Vec<(String, String)>) -> (instance: Self)
        ensures
            instance.name_view() == name@,
            instance.block_view() == BlockRef::Macro(macro_name),
            connections_from(connections@, instance.connections_view()),
    {
        CircuitInstance::new(name, BlockRef::Macro(macro_name), connections)
    }

    /// Places a two-terminal element between ports `p` and `n`.
    fn two_terminal_element(name: String, element: LinearElement, positive: String, negative: String) -> (instance: Self)
        ensures
            instance.name_view() == name@,
            instance.block_view() == BlockRef::Element(element),
            instance.connections_view().len() == 2,
            instance.connections_view()[0].port_view() == seq!['p'],
            instance.connections_view()[0].net_view() == positive@,
            instance.connections_view()[1].port_view() == seq!['n'],
            instance.connections_view()[1].net_view() == negative@,
    {
        let connections = vec![(String::from_str("p"), positive), (String::from_str("n"), negative)];
        proof {
            reveal_strlit("p");
            reveal_strlit("n");
        }
        CircuitInstance::new(name, BlockRef::Element(element), connections)
    }

    /// Returns the local instance name.
    pub fn name(&self) -> (name: &str)
        ensures
            name@ == self.name_view(),
    {
        self.name.as_str()
    }

    /// Returns the placed block.
    pub fn block(&self) -> (block: &BlockRef)
        ensures
            *block == self.block_view(),
    {
        &self.block
    }

    /// Returns the port connections.
    pub fn connections(&self) -> (connections: &[PortConnection])
        ensures
            connections@ == self.connections_view(),
    {
        self.connections.as_slice()
    }

    /// Returns the net connected to a port (its first connection).
    pub fn net_for_port(&self, port: &str) -> (net: Option<&str>)
        ensures
            match net_of(self.connections_view(), port@) {
                Some(n) => net matches Some(found) && found@ == n,
                None => net is None,
            },
    {
        let ghost pred = |i: int| self.connections@[i].port_view() == port@;
        let n = self.connections.len();
        let mut i: usize = 0;
        while i < n
            invariant
                n == self.connections@.len(),
                i <= n,
                pred == (|i: int| self.connections@[i].port_view() == port@),
                forall|k: int| 0 <= k < i ==> !#[trigger] pred(k),
            decreases n - i,
        {
            if str_eq(self.connections[i].port.as_str(), port) {
                proof {
                    lemma_first_index(n as int, pred, i as int);
                }
                return Some(self.connections[i].net.as_str());
            }
            i = i + 1;
        }
        None
    }
}

/// The first instance named `name`, if any, by position.
pub open spec fn instance_index(instances: Seq<CircuitInstance>, name: Seq<char>) -> Option<int> {
    let pred = |i: int| instances[i].name_view() == name;
    if any_below(instances.len() as int, pred) {
        Some(first_index(instances.len() as int, pred))
    } else {
        None
    }
}

/// A found instance is in range and carries the name.
pub proof fn lemma_instance_index(instances: Seq<CircuitInstance>, name: Seq<char>)
    ensures
        instance_index(instances, name) matches Some(i) ==> 0 <= i < instances.len() && instances[i].name_view()
            == name,
{
    let pred = |i: int| instances[i].name_view() == name;
    if any_below(instances.len() as int, pred) {
        lemma_first_exists(instances.len() as int, pred);
    }
}

/// A typed circuit made of block instances and their net connections.
#[derive(Debug, Clone, PartialEq)]
pub struct Circuit {
    instances: Vec<CircuitInstance>,
}

impl Circuit {
    /// The instances, in declaration order.
    pub closed spec fn instances_view(&self) -> Seq<CircuitInstance> {
        self.instances@
    }

    /// Starts building an empty circuit.
    pub fn builder() -> (builder: CircuitBuilder)
        ensures
            builder.instances_view() == Seq::<CircuitInstance>::empty(),
    {
        CircuitBuilder { instances: Vec::new() }
    }

    /// Returns the instances in declaration order.
    pub fn instances(&self) -> (instances: &[CircuitInstance])
        ensures
            instances@ == self.instances_view(),
    {
        self.instances.as_slice()
    }

    /// Finds an instance by its local name.
    pub fn instance(&self, name: &str) -> (instance: Option<&CircuitInstance>)
        ensures
            match instance_index(self.instances_view(), name@) {
                Some(i) => instance == Some(&self.instances_view()[i]),
                None => instance is None,
            },
    {
        let ghost pred = |i: int| self.instances@[i].name_view() == name@;
        let n = self.instances.len();
        let mut i: usize = 0;
        while i < n
            invariant
                n == self.instances@.len(),
                i <= n,
                pred == (|i: int| self.instances@[i].name_view() == name@),
                forall|k: int| 0 <= k < i ==> !#[trigger] pred(k),
            decreases n - i,
        {
            if str_eq(self.instances[i].name.as_str(), name) {
                proof {
                    lemma_first_index(n as int, pred, i as int);
                }
                return Some(&self.instances[i]);
            }
            i = i + 1;
        }
        None
    }
}

impl Default for Circuit {
    fn default() -> (circuit: Self)
        ensures
            circuit.instances_view() == Seq::<CircuitInstance>::empty(),
    {
        Circuit { instances: Vec::new() }
    }
}

/// The instance is named `name` and connects its port `p` to `positive` and
/// its port `n` to `negative`, in that order.
pub open spec fn two_terminal(
    instance: CircuitInstance,
    name: Seq<char>,
    positive: Seq<char>,
    negative: Seq<char>,
) -> bool {
    &&& instance.name_view() == name
    &&& instance.connections_view().len() == 2
    &&& instance.connections_view()[0].port_view() == seq!['p']
    &&& instance.connections_view()[0].net_view() == positive
    &&& instance.connections_view()[1].port_view() == seq!['n']
    &&& instance.connections_view()[1].net_view() == negative
}

/// Builder of circuits, instance by instance.
#[derive(Debug, Clone, PartialEq)]
pub struct CircuitBuilder {
    instances: Vec<CircuitInstance>,
}

impl CircuitBuilder {
    /// The instances added so far.
    pub closed spec fn instances_view(&self) -> Seq<CircuitInstance> {
        self.instances@
    }

    /// Adds a primitive instance.
    pub fn primitive(self, name: String, primitive: String, connections: Vec<(String, String)>) -> (builder: Self)
        ensures
            builder.instances_view().len() == self.instances_view().len() + 1,
            builder.instances_view().drop_last() == self.instances_view(),
            builder.instances_view().last().name_view() == name@,
            builder.instances_view().last().block_view() == BlockRef::Primitive(primitive),
            connections_from(connections@, builder.instances_view().last().connections_view()),
    {
        let mut builder = self;
        builder.instances.push(CircuitInstance::primitive(name, primitive, connections));
        assert(builder.instances@.drop_last() =~= self.instances@);
        builder
    }

    /// Adds a submacro instance.
    pub fn macro_instance(self, name: String, macro_name: String, connections: Vec<(String, String)>) -> (builder: Self)
        ensures
            builder.instances_view().len() == self.instances_view().len() + 1,
            builder.instances_view().drop_last() == self.instances_view(),
            builder.instances_view().last().name_view() == name@,
            builder.instances_view().last().block_view() == BlockRef::Macro(macro_name),
            connections_from(connections@, builder.instances_view().last().connections_view()),
    {
        let mut builder = self;
        builder.instances.push(CircuitInstance::macro_instance(name, macro_name, connections));
        assert(builder.instances@.drop_last() =~= self.instances@);
        builder
    }

    /// Adds a two-terminal element between ports `p` (positive) and `n`.
    fn element(self, name: String, element: LinearElement, positive: String, negative: String) -> (builder: Self)
        ensures
            builder.instances_view().len() == self.instances_view().len() + 1,
            builder.instances_view().drop_last() == self.instances_view(),
            builder.instances_view().last().block_view() == BlockRef::Element(element),
            two_terminal(builder.instances_view().last(), name@, positive@, negative@),
    {
        let mut builder = self;
        builder.instances.push(CircuitInstance::two_terminal_element(name, element, positive, negative));
        assert(builder.instances@.drop_last() =~= self.instances@);
        builder
    }

    /// Adds a resistor.
    pub fn resistor(self, name: String, positive: String, negative: String, resistance: CircuitValue) -> (builder: Self)
        ensures
            builder.instances_view().drop_last() == self.instances_view(),
            builder.instances_view().len() == self.instances_view().len() + 1,
            builder.instances_view().last().block_view() == BlockRef::Element(LinearElement::Resistor { resistance }),
            two_terminal(builder.instances_view().last(), name@, positive@, negative@),
    {
        self.element(name, LinearElement::Resistor { resistance }, positive, negative)
    }

    /// Adds a capacitor.
    pub fn capacitor(self, name: String, positive: String, negative: String, capacitance: CircuitValue) -> (builder: Self)
        ensures
            builder.instances_view().drop_last() == self.instances_view(),
            builder.instances_view().len() == self.instances_view().len() + 1,
            builder.instances_view().last().block_view() == BlockRef::Element(LinearElement::Capacitor { capacitance }),
            two_terminal(builder.instances_view().last(), name@, positive@, negative@),
    {
        self.element(name, LinearElement::Capacitor { capacitance }, positive, negative)
    }

    /// Adds an independent current source.
    pub fn current_source(self, name: String, positive: String, negative: String, current: CircuitValue) -> (builder: Self)
        ensures
            builder.instances_view().drop_last() == self.instances_view(),
            builder.instances_view().len() == self.instances_view().len() + 1,
            builder.instances_view().last().block_view() == BlockRef::Element(LinearElement::CurrentSource { current }),
            two_terminal(builder.instances_view().last(), name@, positive@, negative@),
    {
        self.element(name, LinearElement::CurrentSource { current }, positive, negative)
    }

    /// Adds an independent voltage source.
    pub fn voltage_source(self, name: String, positive: String, negative: String, voltage: CircuitValue) -> (builder: Self)
        ensures
            builder.instances_view().drop_last() == self.instances_view(),
            builder.instances_view().len() == self.instances_view().len() + 1,
            builder.instances_view().last().block_view() == BlockRef::Element(LinearElement::VoltageSource { voltage }),
            two_terminal(builder.instances_view().last(), name@, positive@, negative@),
    {
        self.element(name, LinearElement::VoltageSource { voltage }, positive, negative)
    }

    /// Adds a voltage-controlled current source with ports `p`, `n`, `cp`
    /// and `cn`.
    pub fn vccs(
        self,
        name: String,
        positive: String,
        negative: String,
        control_positive: String,
        control_negative: String,
        transconductance: CircuitValue,
    ) -> (builder: Self)
        ensures
            builder.instances_view().drop_last() == self.instances_view(),
            builder.instances_view().len() == self.instances_view().len() + 1,
            builder.instances_view().last().name_view() == name@,
            builder.instances_view().last().block_view() == BlockRef::Element(
                LinearElement::VoltageControlledCurrentSource { transconductance },
            ),
            ({
                let connections = builder.instances_view().last().connections_view();
                &&& connections.len() == 4
                &&& connections[0].port_view() == seq!['p'] && connections[0].net_view() == positive@
                &&& connections[1].port_view() == seq!['n'] && connections[1].net_view() == negative@
                &&& connections[2].port_view() == seq!['c', 'p'] && connections[2].net_view()
                    == control_positive@
                &&& connections[3].port_view() == seq!['c', 'n'] && connections[3].net_view()
                    == control_negative@
            }),
    {
        let connections = vec![
            (String::from_str("p"), positive),
            (String::from_str("n"), negative),
            (String::from_str("cp"), control_positive),
            (String::from_str("cn"), control_negative),
        ];
        proof {
            reveal_strlit("p");
            reveal_strlit("n");
            reveal_strlit("cp");
            reveal_strlit("cn");
        }
        let instance = CircuitInstance::new(
            name,
            BlockRef::Element(LinearElement::VoltageControlledCurrentSource { transconductance }),
            connections,
        );
        let mut builder = self;
        builder.instances.push(instance);
        assert(builder.instances@.drop_last() =~= self.instances@);
        builder
    }

    /// Finishes construction.
    pub fn build(self) -> (circuit: Circuit)
        ensures
            circuit.instances_view() == self.instances_view(),
    {
        Circuit { instances: self.instances }
    }
}

impl Default for CircuitBuilder {
    fn default() -> (builder: Self)
        ensures
            builder.instances_view() == Seq::<CircuitInstance>::empty(),
    {
        CircuitBuilder { instances: Vec::new() }
    }
}

} // verus!
