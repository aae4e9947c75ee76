use shapeic_core::analysis::{
    AcMetricSet, AdaptiveAcConfig, AdaptiveAcPolicy, AnalysisMode, AnalysisTargets,
};
use shapeic_core::circuit::{Circuit, CircuitValue};
use shapeic_core::macro_model::model::{
    Macro, MacroAcTestbench, MacroAnalysisDomain, MacroExploration, MacroPort, MacroPortRole,
};
use shapeic_core::testbench::{AcAnalysis, TransferFunction};

fn s(text: &str) -> String {
    text.to_owned()
}

fn analysis() -> AcAnalysis {
    AcAnalysis::new(
        TransferFunction::new(s("VIN"), s("VOUT")),
        AdaptiveAcConfig {
            min_frequency_hz: 1.0f64.to_bits(),
            max_frequency_hz: 1.0e9f64.to_bits(),
            coarse_points_per_decade: 4,
            crossing_relative_tolerance: 0.005f64.to_bits(),
            max_refinement_steps: 32,
            retain_samples: false,
        },
        AdaptiveAcPolicy {
            mode: AnalysisMode::Prune,
            targets: AnalysisTargets::none(),
            metrics: AcMetricSet::all(),
        },
    )
}

fn gain_stage() -> Macro {
    let circuit = Circuit::builder()
        .primitive(
            s("xdp"),
            s("simplediffpair"),
            vec![(s("VINP"), s("VIN")), (s("VOUTP"), s("VOUT"))],
        )
        .build();
    let compact_model = Circuit::builder()
        .vccs(
            s("gm"),
            s("VOUT"),
            s("VSS"),
            s("VIN"),
            s("VSS"),
            CircuitValue::parameter(s("gm_eq")),
        )
        .resistor(s("rout"), s("VOUT"), s("VSS"), CircuitValue::parameter(s("ro_eq")))
        .build();

    Macro::new(
        s("gain_stage"),
        vec![
            MacroPort::new(s("VIN"), MacroPortRole::Input),
            MacroPort::new(s("VOUT"), MacroPortRole::Output),
            MacroPort::new(s("VSS"), MacroPortRole::Ground),
        ],
        circuit,
        compact_model,
    )
}

#[test]
fn groups_structure_compact_model_and_testbenches_in_one_macro() {
    let macro_ = gain_stage().with_ac_testbench(MacroAcTestbench::from_spice(
        s("gain"),
        s("V1 VIN VSS 1\n"),
        analysis(),
    ));

    assert_eq!(macro_.name(), "gain_stage");
    assert_eq!(macro_.ports().len(), 3);
    assert!(macro_.circuit().instance("xdp").is_some());
    assert!(macro_.compact_model().instance("gm").is_some());
    assert_eq!(macro_.exploration().testbenches().len(), 1);
    assert_eq!(
        macro_
            .exploration()
            .testbench("gain")
            .and_then(|testbench| testbench.source().as_spice()),
        Some("V1 VIN VSS 1\n")
    );
    assert_eq!(
        macro_.exploration().testbench("gain").unwrap().domain(),
        MacroAnalysisDomain::Electrical
    );
}

#[test]
fn selects_layout_aware_analysis_explicitly() {
    let testbench = MacroAcTestbench::from_spice(s("layout"), s("V1 VIN VSS 1\n"), analysis())
        .with_domain(MacroAnalysisDomain::LayoutAware);

    assert_eq!(testbench.domain(), MacroAnalysisDomain::LayoutAware);
}

#[test]
fn supports_file_backed_testbenches_and_explicit_exploration() {
    let exploration = MacroExploration::new().with_ac_testbench(
        MacroAcTestbench::from_spice_file(s("gain"), s("testbenches/gain.spice"), analysis()),
    );
    let macro_ = gain_stage().with_exploration(exploration);
    let testbench = macro_.exploration().testbench("gain").unwrap();

    assert_eq!(testbench.name(), "gain");
    assert_eq!(
        testbench.source().as_path(),
        Some("testbenches/gain.spice")
    );
    assert_eq!(testbench.source().as_spice(), None);
    assert_eq!(testbench.analysis().transfer_function.input_node, "VIN");
}
