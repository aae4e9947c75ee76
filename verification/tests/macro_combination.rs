use shapeic_core::circuit::{Circuit, CircuitValue};
use shapeic_core::exploration::candidate::{CandidatePoint, CandidateSet};
use shapeic_core::exploration::combination::CandidateCombinationEquality;
use shapeic_core::exploration::filter::CandidateFilterReport;
use shapeic_core::macro_model::candidates::{MacroCandidateSets, MacroInstanceCandidateSet};
use shapeic_core::macro_model::combination::{
    plan_macro_candidate_combinations, MacroCandidateCombinationError,
    MacroCandidateCombinationJoin,
};
use shapeic_core::macro_model::input::MacroExplorationInstanceKind;
use shapeic_core::macro_model::model::Macro;
use shapeic_core::primitive::{
    PrimitiveBuildInputKind, PrimitiveBuildInputSpec, PrimitiveBuildSpec, PrimitiveCatalog,
    PrimitiveManifest, SweepMode,
};

fn primitive(name: &str, ports: &[&str]) -> PrimitiveManifest {
    PrimitiveManifest {
        name: name.to_owned(),
        transistor_type: Some("nmos".to_owned()),
        build: Some(PrimitiveBuildSpec {
            inputs: ports
                .iter()
                .map(|port| PrimitiveBuildInputSpec {
                    name: (*port).to_owned(),
                    kind: PrimitiveBuildInputKind::Vector,
                    required: true,
                    source: Some("port_voltage".to_owned()),
                })
                .collect(),
            sweep_mode: SweepMode::Cartesian,
        }),
    }
}

fn point(values: &[(&str, f64)]) -> CandidatePoint {
    CandidatePoint::new(
        values
            .iter()
            .map(|(name, value)| ((*name).to_owned(), value.to_bits()))
            .collect(),
    )
}

fn instance_candidates(name: &str, points: Vec<CandidatePoint>) -> MacroInstanceCandidateSet {
    MacroInstanceCandidateSet::new(
        name.to_owned(),
        MacroExplorationInstanceKind::Primitive,
        CandidateSet::new(name.to_owned(), points),
        CandidateFilterReport::default(),
        Vec::new(),
    )
}

fn connections(pairs: &[(&str, &str)]) -> Vec<(String, String)> {
    pairs
        .iter()
        .map(|(port, net)| ((*port).to_owned(), (*net).to_owned()))
        .collect()
}

fn resistor_model(net: &str) -> Circuit {
    Circuit::builder()
        .resistor(
            "r".to_owned(),
            net.to_owned(),
            "0".to_owned(),
            CircuitValue::Constant(1.0f64.to_bits()),
        )
        .build()
}

fn catalog(primitives: Vec<PrimitiveManifest>) -> PrimitiveCatalog {
    PrimitiveCatalog { primitives }
}

fn eq(left_set: usize, left: &str, right_set: usize, right: &str) -> CandidateCombinationEquality {
    CandidateCombinationEquality::new(left_set, left.to_owned(), right_set, right.to_owned())
}

fn fixture_instances() -> Vec<MacroInstanceCandidateSet> {
    vec![
        instance_candidates(
            "xa",
            vec![
                point(&[("xa.px", 0.0), ("xa.py", 10.0)]),
                point(&[("xa.px", 1.0), ("xa.py", 20.0)]),
            ],
        ),
        instance_candidates(
            "xb",
            vec![
                point(&[("xb.px", 0.0), ("xb.py", 10.0)]),
                point(&[("xb.px", 0.0), ("xb.py", 20.0)]),
                point(&[("xb.px", 1.0), ("xb.py", 20.0)]),
            ],
        ),
        instance_candidates(
            "xc",
            vec![point(&[("xc.px", 0.0)]), point(&[("xc.px", 1.0)])],
        ),
    ]
}

fn fixture() -> (Macro, PrimitiveCatalog, MacroCandidateSets) {
    let macro_ = Macro::new(
        "top".to_owned(),
        Vec::new(),
        Circuit::builder()
            .primitive("xa".to_owned(), "a".to_owned(), connections(&[("PX", "NX"), ("PY", "NY")]))
            .primitive("xb".to_owned(), "b".to_owned(), connections(&[("PX", "NX"), ("PY", "NY")]))
            .primitive("xc".to_owned(), "c".to_owned(), connections(&[("PX", "NX")]))
            .build(),
        resistor_model("NX"),
    );
    let catalog = catalog(vec![
        primitive("a", &["PX", "PY"]),
        primitive("b", &["PX", "PY"]),
        primitive("c", &["PX"]),
    ]);
    (macro_, catalog, MacroCandidateSets::new(fixture_instances()))
}

fn two_instance_fixture(second_net: &str) -> (Macro, PrimitiveCatalog, MacroCandidateSets) {
    let macro_ = Macro::new(
        "top".to_owned(),
        Vec::new(),
        Circuit::builder()
            .primitive("xa".to_owned(), "a".to_owned(), connections(&[("PX", "NA")]))
            .primitive("xb".to_owned(), "b".to_owned(), connections(&[("PX", second_net)]))
            .build(),
        resistor_model("NA"),
    );
    let catalog = catalog(vec![primitive("a", &["PX"]), primitive("b", &["PX"])]);
    let candidates = MacroCandidateSets::new(vec![
        instance_candidates("xa", vec![point(&[("xa.px", 0.0)]), point(&[("xa.px", 1.0)])]),
        instance_candidates("xb", vec![point(&[("xb.px", 0.0)]), point(&[("xb.px", 1.0)])]),
    ]);
    (macro_, catalog, candidates)
}

fn all_selections(join: &mut MacroCandidateCombinationJoin) -> Vec<Vec<usize>> {
    let mut selections = Vec::new();
    while let Some(selection) = join.next_selection() {
        selections.push(selection);
    }
    selections
}

#[test]
fn derives_minimal_equalities_for_multiple_shared_nets_and_instances() {
    let (macro_, catalog, candidates) = fixture();

    let plan = plan_macro_candidate_combinations(&macro_, &catalog, &candidates).unwrap();

    assert_eq!(
        plan.equalities(),
        [
            eq(0, "xa.px", 1, "xb.px"),
            eq(0, "xa.px", 2, "xc.px"),
            eq(0, "xa.py", 1, "xb.py"),
        ]
    );
}

#[test]
fn lazily_yields_only_connectivity_compatible_candidate_indices() {
    let (macro_, catalog, candidates) = fixture();
    let mut join = MacroCandidateCombinationJoin::new(&macro_, &catalog, &candidates).unwrap();

    let selections = all_selections(&mut join);

    assert_eq!(join.selection_len(), 3);
    assert_eq!(selections, [vec![0, 0, 0], vec![1, 2, 1]]);
}

#[test]
fn supports_zero_and_one_shared_net_without_reordering_candidates() {
    let (macro_, catalog, candidates) = two_instance_fixture("NB");
    let mut cartesian = MacroCandidateCombinationJoin::new(&macro_, &catalog, &candidates).unwrap();
    assert!(cartesian.plan().equalities().is_empty());
    assert_eq!(
        all_selections(&mut cartesian),
        [vec![0, 0], vec![0, 1], vec![1, 0], vec![1, 1]]
    );

    let (macro_, catalog, candidates) = two_instance_fixture("NA");
    let mut joined = MacroCandidateCombinationJoin::new(&macro_, &catalog, &candidates).unwrap();
    assert_eq!(joined.plan().equalities().len(), 1);
    assert_eq!(all_selections(&mut joined), [vec![0, 0], vec![1, 1]]);
}

#[test]
fn an_empty_instance_candidate_set_produces_an_exhausted_join() {
    let (macro_, catalog, _) = fixture();
    let mut instances = fixture_instances();
    instances[1] = instance_candidates("xb", Vec::new());
    let candidates = MacroCandidateSets::new(instances);

    let mut join = MacroCandidateCombinationJoin::new(&macro_, &catalog, &candidates).unwrap();

    assert_eq!(join.selection_len(), 3);
    assert_eq!(join.next_selection(), None);
}

#[test]
fn rejects_two_port_voltage_inputs_of_one_instance_on_the_same_net() {
    let macro_ = Macro::new(
        "top".to_owned(),
        Vec::new(),
        Circuit::builder()
            .primitive("xa".to_owned(), "a".to_owned(), connections(&[("PX", "N"), ("PY", "N")]))
            .build(),
        resistor_model("N"),
    );
    let catalog = catalog(vec![primitive("a", &["PX", "PY"])]);
    let candidates = MacroCandidateSets::new(vec![instance_candidates(
        "xa",
        vec![point(&[("xa.px", 0.0), ("xa.py", 0.0)])],
    )]);

    assert!(matches!(
        plan_macro_candidate_combinations(&macro_, &catalog, &candidates),
        Err(MacroCandidateCombinationError::IntraInstanceSharedNet {
            instance_path,
            net,
            first_port,
            second_port,
            ..
        }) if instance_path == "xa"
            && net == "N"
            && first_port == "PX"
            && second_port == "PY"
    ));
}

#[test]
fn reports_missing_instances_primitives_and_connections() {
    let (macro_, catalog_all, _) = fixture();
    let missing = MacroCandidateSets::new(vec![instance_candidates("xz", Vec::new())]);
    assert_eq!(
        plan_macro_candidate_combinations(&macro_, &catalog_all, &missing).unwrap_err(),
        MacroCandidateCombinationError::CandidateInstanceNotFound {
            macro_name: "top".to_owned(),
            instance_path: "xz".to_owned(),
        }
    );

    let partial = catalog(vec![primitive("a", &["PX", "PY"])]);
    assert_eq!(
        plan_macro_candidate_combinations(
            &macro_,
            &partial,
            &MacroCandidateSets::new(fixture_instances())
        )
        .unwrap_err(),
        MacroCandidateCombinationError::UnknownPrimitive {
            macro_name: "top".to_owned(),
            instance_path: "xb".to_owned(),
            primitive: "b".to_owned(),
        }
    );

    let unbuilt = catalog(vec![PrimitiveManifest {
        name: "a".to_owned(),
        transistor_type: Some("nmos".to_owned()),
        build: None,
    }]);
    assert_eq!(
        plan_macro_candidate_combinations(
            &macro_,
            &unbuilt,
            &MacroCandidateSets::new(fixture_instances())
        )
        .unwrap_err(),
        MacroCandidateCombinationError::MissingPrimitiveBuildSpec {
            macro_name: "top".to_owned(),
            instance_path: "xa".to_owned(),
            primitive: "a".to_owned(),
        }
    );

    let unconnected = catalog(vec![primitive("a", &["PX", "PZ"])]);
    assert_eq!(
        plan_macro_candidate_combinations(
            &macro_,
            &unconnected,
            &MacroCandidateSets::new(fixture_instances())
        )
        .unwrap_err(),
        MacroCandidateCombinationError::UnknownPortVoltagePort {
            macro_name: "top".to_owned(),
            instance_path: "xa".to_owned(),
            primitive: "a".to_owned(),
            port: "PZ".to_owned(),
        }
    );
}

#[test]
fn checks_instance_kinds_and_compact_interface_ports() {
    let macro_ = Macro::new(
        "top".to_owned(),
        Vec::new(),
        Circuit::builder()
            .macro_instance("xm".to_owned(), "child".to_owned(), connections(&[("OUT", "N1")]))
            .primitive("xa".to_owned(), "a".to_owned(), connections(&[("PX", "N1")]))
            .resistor(
                "r1".to_owned(),
                "N1".to_owned(),
                "0".to_owned(),
                CircuitValue::Constant(1.0f64.to_bits()),
            )
            .build(),
        resistor_model("N1"),
    );
    let catalog = catalog(vec![primitive("a", &["PX"])]);
    let compact = MacroInstanceCandidateSet::new(
        "xm".to_owned(),
        MacroExplorationInstanceKind::CompactMacro,
        CandidateSet::new("xm".to_owned(), vec![point(&[("xm.out", 0.0)])]),
        CandidateFilterReport::default(),
        vec!["OUT".to_owned()],
    );
    let primitive_set = instance_candidates("xa", vec![point(&[("xa.px", 0.0)])]);
    let plan = plan_macro_candidate_combinations(
        &macro_,
        &catalog,
        &MacroCandidateSets::new(vec![compact.clone(), primitive_set.clone()]),
    )
    .unwrap();
    assert_eq!(plan.equalities(), [eq(0, "xm.out", 1, "xa.px")]);

    let wrong_kind = MacroInstanceCandidateSet::new(
        "xm".to_owned(),
        MacroExplorationInstanceKind::Primitive,
        CandidateSet::new("xm".to_owned(), Vec::new()),
        CandidateFilterReport::default(),
        Vec::new(),
    );
    assert_eq!(
        plan_macro_candidate_combinations(&macro_, &catalog, &MacroCandidateSets::new(vec![wrong_kind]))
            .unwrap_err(),
        MacroCandidateCombinationError::CandidateInstanceKindMismatch {
            macro_name: "top".to_owned(),
            instance_path: "xm".to_owned(),
            expected: MacroExplorationInstanceKind::CompactMacro,
            actual: MacroExplorationInstanceKind::Primitive,
        }
    );

    let element = instance_candidates("r1", Vec::new());
    assert_eq!(
        plan_macro_candidate_combinations(&macro_, &catalog, &MacroCandidateSets::new(vec![element]))
            .unwrap_err(),
        MacroCandidateCombinationError::CandidateInstanceKindMismatch {
            macro_name: "top".to_owned(),
            instance_path: "r1".to_owned(),
            expected: MacroExplorationInstanceKind::Primitive,
            actual: MacroExplorationInstanceKind::LinearElement,
        }
    );

    let unknown_port = MacroInstanceCandidateSet::new(
        "xm".to_owned(),
        MacroExplorationInstanceKind::CompactMacro,
        CandidateSet::new("xm".to_owned(), Vec::new()),
        CandidateFilterReport::default(),
        vec!["IN".to_owned()],
    );
    assert_eq!(
        plan_macro_candidate_combinations(&macro_, &catalog, &MacroCandidateSets::new(vec![unknown_port]))
            .unwrap_err(),
        MacroCandidateCombinationError::UnknownMacroInterfacePort {
            macro_name: "top".to_owned(),
            instance_path: "xm".to_owned(),
            referenced_macro: "child".to_owned(),
            port: "IN".to_owned(),
        }
    );
}

#[test]
fn orders_nets_by_name_and_lowercases_port_columns() {
    let macro_ = Macro::new(
        "top".to_owned(),
        Vec::new(),
        Circuit::builder()
            .primitive("xa".to_owned(), "a".to_owned(), connections(&[("PX", "b"), ("PY", "A")]))
            .primitive("xb".to_owned(), "a".to_owned(), connections(&[("PX", "b"), ("PY", "A")]))
            .build(),
        resistor_model("A"),
    );
    let catalog = catalog(vec![primitive("a", &["PX", "PY"])]);
    let candidates = MacroCandidateSets::new(vec![
        instance_candidates("xa", Vec::new()),
        instance_candidates("xb", Vec::new()),
    ]);
    let plan = plan_macro_candidate_combinations(&macro_, &catalog, &candidates).unwrap();
    assert_eq!(
        plan.equalities(),
        [eq(0, "xa.py", 1, "xb.py"), eq(0, "xa.px", 1, "xb.px")]
    );
    assert_eq!(candidates.len(), 2);
    assert!(!candidates.is_empty());
    assert_eq!(candidates.instance("xb").map(|set| set.instance_path()), Some("xb"));
    assert!(candidates.instance("xc").is_none());
}
