use shapeic_core::circuit::Circuit;
use shapeic_core::macro_model::catalog::{MacroCatalog, MacroCatalogError};
use shapeic_core::macro_model::model::Macro;

fn macro_(name: &str) -> Macro {
    Macro::new(
        name.to_owned(),
        Vec::new(),
        Circuit::builder().build(),
        Circuit::builder().build(),
    )
}

#[test]
fn registers_resolves_and_lists_macros_by_name() {
    let catalog = MacroCatalog::from_macros(vec![macro_("stage_b"), macro_("stage_a")]).unwrap();

    assert!(catalog.contains("stage_a"));
    assert_eq!(catalog.get("stage_b").map(Macro::name), Some("stage_b"));
    assert_eq!(
        catalog
            .list()
            .into_iter()
            .map(Macro::name)
            .collect::<Vec<_>>(),
        ["stage_a", "stage_b"]
    );
}

#[test]
fn rejects_duplicate_macros_without_replacing_the_first() {
    let mut catalog = MacroCatalog::new();
    catalog.register(macro_("stage")).unwrap();

    assert_eq!(
        catalog.register(macro_("stage")),
        Err(MacroCatalogError::DuplicateMacro {
            name: "stage".to_owned(),
        })
    );
    assert_eq!(catalog.list().len(), 1);
}

#[test]
fn from_macros_reports_the_first_repeated_name() {
    assert_eq!(
        MacroCatalog::from_macros(vec![macro_("a"), macro_("b"), macro_("b"), macro_("a")])
            .map(|catalog| catalog.list().len()),
        Err(MacroCatalogError::DuplicateMacro {
            name: "b".to_owned(),
        })
    );
}

#[test]
fn lists_names_in_code_point_order() {
    let catalog = MacroCatalog::from_macros(vec![
        macro_("b"),
        macro_("Z"),
        macro_("ab"),
        macro_("a"),
        macro_("é"),
    ])
    .unwrap();
    assert_eq!(
        catalog
            .list()
            .into_iter()
            .map(Macro::name)
            .collect::<Vec<_>>(),
        ["Z", "a", "ab", "b", "é"]
    );
    assert!(catalog.get("c").is_none());
    assert!(!catalog.contains("c"));
    assert!(MacroCatalog::default().list().is_empty());
}
