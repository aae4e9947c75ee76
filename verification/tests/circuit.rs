use shapeic_core::circuit::{BlockRef, Circuit, CircuitValue, LinearElement};

fn pairs(connections: &[(&str, &str)]) -> Vec<(String, String)> {
    connections
        .iter()
        .map(|(port, net)| ((*port).to_owned(), (*net).to_owned()))
        .collect()
}

fn s(text: &str) -> String {
    text.to_owned()
}

#[test]
fn builds_the_ota_topology_from_primitive_instances() {
    let circuit = Circuit::builder()
        .primitive(
            s("xdp"),
            s("simplediffpair"),
            pairs(&[
                ("VINP", "VINP"),
                ("VINN", "VINN"),
                ("VOUTP", "VOUT"),
                ("VOUTN", "N1"),
                ("VTAIL", "IBIAS"),
            ]),
        )
        .primitive(
            s("xcm"),
            s("simplecurrentmirror"),
            pairs(&[("VINP", "N1"), ("VOUTP", "VOUT"), ("VDD", "VDD")]),
        )
        .build();

    assert_eq!(circuit.instances().len(), 2);
    assert_eq!(
        circuit.instance("xdp").map(|instance| instance.block()),
        Some(&BlockRef::Primitive("simplediffpair".to_owned()))
    );
    assert_eq!(
        circuit
            .instance("xdp")
            .and_then(|instance| instance.net_for_port("VOUTN")),
        Some("N1")
    );
    assert_eq!(
        circuit
            .instance("xcm")
            .and_then(|instance| instance.net_for_port("VINP")),
        Some("N1")
    );
}

#[test]
fn builds_a_typed_compact_transconductance_model() {
    let model = Circuit::builder()
        .vccs(
            s("gm"),
            s("VOUT"),
            s("VSS"),
            s("VINP"),
            s("VINN"),
            CircuitValue::parameter(s("gm_eq")),
        )
        .resistor(s("rout"), s("VOUT"), s("VSS"), CircuitValue::parameter(s("ro_eq")))
        .capacitor(s("cout"), s("VOUT"), s("VSS"), CircuitValue::Constant(2.0e-12f64.to_bits()))
        .build();

    assert_eq!(model.instances().len(), 3);
    assert_eq!(
        model.instance("gm").map(|instance| instance.block()),
        Some(&BlockRef::Element(
            LinearElement::VoltageControlledCurrentSource {
                transconductance: CircuitValue::Parameter("gm_eq".to_owned()),
            }
        ))
    );
    assert_eq!(
        model
            .instance("gm")
            .and_then(|instance| instance.net_for_port("cp")),
        Some("VINP")
    );
    assert_eq!(
        model.instance("cout").map(|instance| instance.block()),
        Some(&BlockRef::Element(LinearElement::Capacitor {
            capacitance: CircuitValue::Constant(2.0e-12f64.to_bits()),
        }))
    );
}

#[test]
fn represents_submacros_and_independent_sources() {
    let circuit = Circuit::builder()
        .macro_instance(
            s("xstage"),
            s("gain_stage"),
            pairs(&[("VIN", "VIN"), ("VOUT", "VOUT")]),
        )
        .current_source(s("ibias"), s("VDD"), s("IBIAS"), CircuitValue::parameter(s("bias_current")))
        .voltage_source(s("vdd"), s("VDD"), s("VSS"), CircuitValue::Constant(1.5f64.to_bits()))
        .build();

    assert_eq!(
        circuit.instance("xstage").map(|instance| instance.block()),
        Some(&BlockRef::Macro("gain_stage".to_owned()))
    );
    assert_eq!(
        circuit.instance("ibias").map(|instance| instance.block()),
        Some(&BlockRef::Element(LinearElement::CurrentSource {
            current: CircuitValue::Parameter("bias_current".to_owned()),
        }))
    );
    assert_eq!(
        circuit.instance("vdd").map(|instance| instance.block()),
        Some(&BlockRef::Element(LinearElement::VoltageSource {
            voltage: CircuitValue::Constant(1.5f64.to_bits()),
        }))
    );
}

#[test]
fn two_terminal_elements_connect_p_and_n_and_lookups_take_the_first_match() {
    let circuit = Circuit::builder()
        .resistor(s("r"), s("A"), s("B"), CircuitValue::Constant(1.0f64.to_bits()))
        .primitive(s("x"), s("device"), pairs(&[("P", "N1"), ("P", "N2")]))
        .primitive(s("x"), s("other"), Vec::new())
        .build();
    let resistor = circuit.instance("r").unwrap();
    assert_eq!(resistor.name(), "r");
    assert_eq!(resistor.net_for_port("p"), Some("A"));
    assert_eq!(resistor.net_for_port("n"), Some("B"));
    assert_eq!(resistor.connections().len(), 2);
    assert_eq!(resistor.connections()[0].port(), "p");
    assert_eq!(resistor.connections()[1].net(), "B");
    let first = circuit.instance("x").unwrap();
    assert_eq!(first.block(), &BlockRef::Primitive("device".to_owned()));
    assert_eq!(first.net_for_port("P"), Some("N1"));
    assert_eq!(first.net_for_port("Q"), None);
    assert!(circuit.instance("y").is_none());
    assert!(Circuit::default().instances().is_empty());
}
