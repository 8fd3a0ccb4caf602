use protogen::SpecError;
use protogen::adapter::{Fetched, HookReply, Verdict, mapping_set_item, sequence_set_item};
use protogen::dispatch::{Registry, Slot};
use protogen::methods::{ImplShape, build_py_methods};

fn hooks(names: &[&str]) -> Vec<String> {
    names.iter().map(|s| s.to_string()).collect()
}

#[test]
fn only_declared_hooks_are_present() {
    let mut reg = Registry::new();
    reg.declare("Mapping".to_string());
    reg.implement("len".to_string(), 11);
    let table = reg.resolve(&"Mapping".to_string(), &hooks(&["len", "getitem"])).unwrap();
    assert_eq!(table, vec![Slot::Bound(11), Slot::Absent]);
}

#[test]
fn both_hooks_present_when_both_declared() {
    let mut reg = Registry::new();
    reg.declare("Mapping".to_string());
    reg.implement("len".to_string(), 11);
    reg.implement("getitem".to_string(), 12);
    let table = reg.resolve(&"Mapping".to_string(), &hooks(&["len", "getitem"])).unwrap();
    assert_eq!(table, vec![Slot::Bound(11), Slot::Bound(12)]);
}

#[test]
fn neither_hook_present_without_declarations() {
    let mut reg = Registry::new();
    reg.declare("Mapping".to_string());
    let table = reg.resolve(&"Mapping".to_string(), &hooks(&["len", "getitem"])).unwrap();
    assert_eq!(table, vec![Slot::Absent, Slot::Absent]);
}

#[test]
fn implementing_one_hook_never_enables_another() {
    let mut without = Registry::new();
    without.declare("Mapping".to_string());
    let mut with = Registry::new();
    with.declare("Mapping".to_string());
    with.implement("len".to_string(), 11);
    assert_eq!(without.slot(&"getitem".to_string()), Slot::Absent);
    assert_eq!(with.slot(&"getitem".to_string()), Slot::Absent);
}

#[test]
fn undeclared_protocol_has_no_table() {
    let mut reg = Registry::new();
    reg.implement("len".to_string(), 11);
    assert!(reg.resolve(&"Mapping".to_string(), &hooks(&["len"])).is_none());
}

#[test]
fn newer_binding_shadows_older() {
    let mut reg = Registry::new();
    reg.implement("len".to_string(), 11);
    reg.implement("len".to_string(), 42);
    assert_eq!(reg.slot(&"len".to_string()), Slot::Bound(42));
}

#[test]
fn satisfaction_is_a_superset_check() {
    let mut reg = Registry::new();
    reg.implement("len".to_string(), 1);
    reg.implement("getitem".to_string(), 2);
    assert!(reg.satisfies(&hooks(&["len"])));
    assert!(reg.satisfies(&hooks(&["len", "getitem"])));
    assert!(!reg.satisfies(&hooks(&["len", "setitem"])));
    assert!(reg.satisfies(&hooks(&[])));
}

#[test]
fn mapping_adapter_happy_path_releases_everything() {
    let run = mapping_set_item(
        Some(1),
        Some(2),
        Fetched::Converted(20),
        Some(3),
        Fetched::Converted(30),
        HookReply::Done(0),
    );
    assert_eq!(run.verdict, Verdict::Success(0));
    assert_eq!(run.invoked, Some((20, Some(30))));
    assert_eq!(run.acquired, vec![1, 2, 3]);
    assert_eq!(run.released, vec![3, 2, 1]);
}

#[test]
fn mapping_adapter_null_pointer_is_contract_violation() {
    let run = mapping_set_item(
        None,
        Some(2),
        Fetched::Converted(20),
        None,
        Fetched::Converted(0),
        HookReply::Done(0),
    );
    assert_eq!(run.verdict, Verdict::MissingPointer);
    assert_eq!(run.invoked, None);
    assert!(run.acquired.is_empty() && run.released.is_empty());
}

#[test]
fn mapping_adapter_key_conversion_failure_skips_value() {
    let run = mapping_set_item(
        Some(1),
        Some(2),
        Fetched::Failed(99),
        Some(3),
        Fetched::Converted(30),
        HookReply::Done(0),
    );
    assert_eq!(run.verdict, Verdict::ConversionError(99));
    assert_eq!(run.invoked, None);
    // the value handle is never borrowed once the key conversion failed
    assert_eq!(run.acquired, vec![1, 2]);
    assert_eq!(run.released, vec![2, 1]);
}

#[test]
fn mapping_adapter_deletion_passes_no_value() {
    let run = mapping_set_item(
        Some(1),
        Some(2),
        Fetched::Converted(20),
        None,
        Fetched::Failed(7),
        HookReply::Raised(5),
    );
    assert_eq!(run.verdict, Verdict::HookError(5));
    assert_eq!(run.invoked, Some((20, None)));
    assert_eq!(run.acquired, vec![1, 2]);
    assert_eq!(run.released, vec![2, 1]);
}

#[test]
fn mapping_adapter_value_conversion_failure_still_releases() {
    let run = mapping_set_item(
        Some(1),
        Some(2),
        Fetched::Converted(20),
        Some(3),
        Fetched::Failed(8),
        HookReply::Done(0),
    );
    assert_eq!(run.verdict, Verdict::ConversionError(8));
    assert_eq!(run.invoked, None);
    assert_eq!(run.acquired, vec![1, 2, 3]);
    assert_eq!(run.released, vec![3, 2, 1]);
}

#[test]
fn sequence_adapter_indexes_without_key_handle() {
    let run = sequence_set_item(Some(1), -4, Some(3), Fetched::Converted(30), HookReply::Done(9));
    assert_eq!(run.verdict, Verdict::Success(9));
    assert_eq!(run.invoked, Some((-4, Some(30))));
    assert_eq!(run.acquired, vec![1, 3]);
    assert_eq!(run.released, vec![3, 1]);

    let del = sequence_set_item(Some(1), 2, None, Fetched::Failed(0), HookReply::Raised(6));
    assert_eq!(del.verdict, Verdict::HookError(6));
    assert_eq!(del.invoked, Some((2, None)));
    assert_eq!(del.acquired, vec![1]);
    assert_eq!(del.released, vec![1]);

    let null = sequence_set_item(None, 2, None, Fetched::Failed(0), HookReply::Done(0));
    assert_eq!(null.verdict, Verdict::MissingPointer);
    assert_eq!(null.invoked, None);
}

#[test]
fn method_table_registration_text() {
    let shape = ImplShape::Inherent {
        ty: "MyType".to_string(),
        methods: vec!["entry_a".to_string(), "entry_b".to_string()],
    };
    let out: String = build_py_methods(&shape).unwrap().into_iter().collect();
    assert!(out.contains("impl pyo3::class::methods::PyMethodsProtocolImpl for MyType {"));
    assert!(out.contains("&[entry_a, entry_b];"));
    assert!(out.starts_with("#[allow(non_upper_case_globals"));
}

#[test]
fn method_table_rejects_other_items() {
    assert_eq!(build_py_methods(&ImplShape::TraitImpl), Err(SpecError::TraitImplUnsupported));
    assert_eq!(build_py_methods(&ImplShape::NotImpl), Err(SpecError::NotAnImpl));
}
