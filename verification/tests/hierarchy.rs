use shapeic_core::macro_model::hierarchy::{
    intersect_design_conditions, MacroHierarchyPath, MacroHierarchyPathError,
};
use shapeic_core::macro_model::hierarchy_selection::{
    MacroHierarchyInstancePath, MacroHierarchyInstancePathError,
};
use shapeic_core::macro_model::model::MacroDesignVariableCondition;

fn allowed(values: &[f64]) -> MacroDesignVariableCondition {
    MacroDesignVariableCondition::allowed_values(values.iter().map(|v| v.to_bits()).collect())
}

fn range(minimum: Option<f64>, maximum: Option<f64>) -> MacroDesignVariableCondition {
    MacroDesignVariableCondition::range(minimum.map(f64::to_bits), maximum.map(f64::to_bits))
}

#[test]
fn hierarchy_paths_are_typed_ordered_and_unambiguous() {
    let root = MacroHierarchyPath::root("ota".to_owned()).unwrap();
    let child = root.child("xstage".to_owned()).unwrap();
    assert_eq!(child.to_string(), "ota.xstage");
    assert_eq!(child.parent(), Some(root));
    assert!(MacroHierarchyPath::root("".to_owned()).is_err());
    assert!(child.child("x.bad".to_owned()).is_err());
}

#[test]
fn path_errors_name_the_component_position() {
    let root = MacroHierarchyPath::root("top".to_owned()).unwrap();
    assert_eq!(root.parent(), None);
    assert_eq!(root.components(), ["top".to_owned()]);
    assert_eq!(
        root.child("  ".to_owned()),
        Err(MacroHierarchyPathError::EmptyComponent { index: 1 })
    );
    assert_eq!(
        root.child("a.b".to_owned()),
        Err(MacroHierarchyPathError::AmbiguousComponent {
            index: 1,
            component: "a.b".to_owned(),
        })
    );
    assert!(root < root.child("x".to_owned()).unwrap());
}

#[test]
fn validates_typed_instance_components() {
    let root = MacroHierarchyPath::root("root".to_owned()).unwrap();
    assert!(matches!(
        MacroHierarchyInstancePath::new(root.clone(), "".to_owned()),
        Err(MacroHierarchyInstancePathError::EmptyInstance)
    ));
    assert!(matches!(
        MacroHierarchyInstancePath::new(root, "xa::xm1".to_owned()),
        Err(MacroHierarchyInstancePathError::AmbiguousInstance { .. })
    ));
}

#[test]
fn instance_paths_display_with_a_double_colon() {
    let path = MacroHierarchyPath::root("ota".to_owned())
        .unwrap()
        .child("xstage".to_owned())
        .unwrap();
    let instance = MacroHierarchyInstancePath::new(path.clone(), "xm1".to_owned()).unwrap();
    assert_eq!(instance.to_string(), "ota.xstage::xm1");
    assert_eq!(instance.macro_path(), &path);
    assert_eq!(instance.instance(), "xm1");
}

#[test]
fn condition_intersection_preserves_allowed_order_and_detects_conflicts() {
    let allowed_values = allowed(&[3.0, 1.0, 2.0]);
    let bounded = range(Some(1.5), Some(3.5));
    assert_eq!(
        intersect_design_conditions(&allowed_values, &bounded),
        Some(allowed(&[3.0, 2.0]))
    );
    assert_eq!(
        intersect_design_conditions(
            &range(Some(0.0), Some(1.0)),
            &range(Some(2.0), Some(3.0)),
        ),
        None
    );
}

#[test]
fn condition_intersection_tightens_ranges_and_lists() {
    assert_eq!(
        intersect_design_conditions(&range(Some(0.0), None), &range(Some(-1.0), Some(2.0))),
        Some(range(Some(0.0), Some(2.0)))
    );
    assert_eq!(
        intersect_design_conditions(&allowed(&[1.0, 2.0, 3.0]), &allowed(&[3.0, 1.0])),
        Some(allowed(&[1.0, 3.0]))
    );
    assert_eq!(
        intersect_design_conditions(&allowed(&[1.0]), &allowed(&[2.0])),
        None
    );
    assert_eq!(
        intersect_design_conditions(&range(None, Some(1.0)), &allowed(&[0.5, 2.0])),
        Some(allowed(&[0.5]))
    );
}
