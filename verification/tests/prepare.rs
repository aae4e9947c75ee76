use shapeic_core::macro_model::prepare::compose_sources;

#[test]
fn composes_macro_and_testbench_sources_with_a_stable_boundary() {
    assert_eq!(
        compose_sources("R1 OUT VSS r\n".to_owned(), "gain", "V1 IN VSS 1\n.end\n"),
        "R1 OUT VSS r\n* testbench gain\nV1 IN VSS 1\n.end\n"
    );
}

#[test]
fn composes_an_empty_macro_source_without_a_leading_break() {
    assert_eq!(
        compose_sources("  \n".to_owned(), "tb", "  V1 A 0 1  \n\n"),
        "* testbench tb\nV1 A 0 1\n"
    );
}
