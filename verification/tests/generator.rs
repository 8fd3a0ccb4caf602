use protogen::SpecError;
use protogen::emit::generate;

fn gen_str(src: &str) -> Result<String, SpecError> {
    generate(src).map(|cs| cs.into_iter().collect())
}

#[test]
fn single_hook_protocol() {
    let out = gen_str("Struct::Root { len: Method::Len { success: Count } }").unwrap();
    let expected = "pub trait PyRootLenProtocol: PyRootProtocol {\n    type Count: ToPyObject;\n}\npub trait PyRootProtocol {\n    fn __len__(&self, py: Python) -> PyResult<Self::Count>\n        where Self: PyRootLenProtocol;\n}\n";
    assert_eq!(out, expected);
}

#[test]
fn bare_and_bracketed_argument_agree() {
    let bare = gen_str("Struct::S { m: Method::M { arguments: Key } }").unwrap();
    let bracketed = gen_str("Struct::S { m: Method::M { arguments: [Key] } }").unwrap();
    assert_eq!(bare, bracketed);
}

#[test]
fn generation_is_deterministic() {
    let src = "Struct::Mapping { len: Method::Len, getitem: Method::GetItem { arguments: ItemKey } }";
    let a = gen_str(src).unwrap();
    let b = gen_str(src).unwrap();
    assert_eq!(a, b);
}

#[test]
fn unknown_configuration_key_fails() {
    let r = gen_str("Struct::S { m: Method::M { wibble: X } }");
    assert_eq!(r, Err(SpecError::UnexpectedField));
}

#[test]
fn three_segment_name_fails() {
    let r = gen_str("Struct::S { m: A::B::C }");
    assert_eq!(r, Err(SpecError::UnexpectedPath));
    let r = gen_str("A::B::C { m: Method::M }");
    assert_eq!(r, Err(SpecError::UnexpectedPath));
}

#[test]
fn exposed_name_and_binder_derivation() {
    let out = gen_str("Struct::S { item: Method::GetItem { arguments: ItemKey, success: Value } }")
        .unwrap();
    assert!(out.contains("fn __getitem__(&self, py: Python, item_key: Self::ItemKey)"));
    assert!(out.contains("type ItemKey: for<'a> FromPyObject<'a>;"));
    assert!(out.contains("type Value: ToPyObject;"));
}

#[test]
fn default_tag_and_default_success() {
    let out = gen_str("Struct::S { m: M }").unwrap();
    assert!(out.contains("pub trait PySMProtocol: PySProtocol {\n    type Success: ToPyObject;\n}"));
    assert!(out.contains("fn __m__(&self, py: Python) -> PyResult<Self::Success>"));
}

#[test]
fn nested_protocols_chain_interface_names() {
    let out = gen_str(
        "Struct::Outer { num: Struct::Number { add: Method::Add { arguments: [Other], success: Sum } } }",
    )
    .unwrap();
    assert!(out.contains("pub trait PyOuterNumberAddProtocol: PyOuterNumberProtocol {"));
    assert!(out.contains("pub trait PyOuterNumberProtocol: PyOuterProtocol {"));
    assert!(out.contains("pub trait PyOuterProtocol {"));
    assert!(out.contains("fn __add__(&self, py: Python, other: Self::Other) -> PyResult<Self::Sum>"));
    // children are emitted before the parent that names them
    let child = out.find("pub trait PyOuterNumberProtocol:").unwrap();
    let parent = out.find("pub trait PyOuterProtocol {").unwrap();
    assert!(child < parent);
}

#[test]
fn empty_protocol_bodies() {
    assert_eq!(gen_str("Struct::Empty {}").unwrap(), "pub trait PyEmptyProtocol {\n}\n");
    assert_eq!(gen_str("Struct::Empty").unwrap(), "pub trait PyEmptyProtocol {\n}\n");
}

#[test]
fn mapping_protocol_matches_handwritten_names() {
    let out = gen_str(
        "Struct::Mapping { len: Method::Len, getitem: Method::GetItem { arguments: Key }, setitem: Method::SetItem { arguments: [Key, Value] } }",
    )
    .unwrap();
    assert!(out.contains("pub trait PyMappingLenProtocol: PyMappingProtocol {"));
    assert!(out.contains("pub trait PyMappingGetItemProtocol: PyMappingProtocol {"));
    assert!(out.contains("pub trait PyMappingSetItemProtocol: PyMappingProtocol {"));
    assert!(out.contains("fn __setitem__(&self, py: Python, key: Self::Key, value: Self::Value)"));
}

#[test]
fn root_must_be_a_struct() {
    assert_eq!(gen_str("Method::M { }"), Err(SpecError::RootNotStruct));
    assert_eq!(gen_str("Bare { m: Method::M }"), Err(SpecError::RootNotStruct));
    assert_eq!(gen_str("5"), Err(SpecError::ExpectedStruct));
    assert_eq!(gen_str("[A, B]"), Err(SpecError::ExpectedStruct));
}

#[test]
fn bad_tag_fails() {
    assert_eq!(gen_str("Struct::S { m: Widget::M }"), Err(SpecError::BadTag));
    assert_eq!(gen_str("Widget::S { m: Method::M }"), Err(SpecError::BadTag));
}

#[test]
fn literal_placeholder_fails_loudly() {
    assert_eq!(gen_str("Struct::S { m: 0 }"), Err(SpecError::Placeholder));
    assert_eq!(gen_str("Struct::S { m: 7 }"), Err(SpecError::Placeholder));
}

#[test]
fn list_is_no_protocol_value() {
    assert_eq!(gen_str("Struct::S { m: [A] }"), Err(SpecError::ExpectedStruct));
}

#[test]
fn arguments_value_must_be_identifiers() {
    assert_eq!(
        gen_str("Struct::S { m: Method::M { arguments: A::B } }"),
        Err(SpecError::ExpectedIdent)
    );
    assert_eq!(
        gen_str("Struct::S { m: Method::M { arguments: [A::B] } }"),
        Err(SpecError::ExpectedIdent)
    );
    assert_eq!(
        gen_str("Struct::S { m: Method::M { arguments: 3 } }"),
        Err(SpecError::UnexpectedArguments)
    );
}

#[test]
fn success_value_must_be_one_identifier() {
    assert_eq!(
        gen_str("Struct::S { m: Method::M { success: A::B } }"),
        Err(SpecError::ExpectedIdent)
    );
}

#[test]
fn malformed_argument_name_fails_fast() {
    assert_eq!(
        gen_str("Struct::S { m: Method::M { arguments: key } }"),
        Err(SpecError::BadName)
    );
    assert_eq!(
        gen_str("Struct::S { m: Method::M { arguments: Key9 } }"),
        Err(SpecError::BadName)
    );
    assert_eq!(
        gen_str("Struct::S { m: Method::M { arguments: Item_Key } }"),
        Err(SpecError::BadName)
    );
}

#[test]
fn lexer_rejects_stray_characters() {
    assert_eq!(gen_str("Struct::S %"), Err(SpecError::BadChar));
}

#[test]
fn truncated_input_fails() {
    assert_eq!(gen_str("Struct::S {"), Err(SpecError::UnexpectedEnd));
    assert_eq!(gen_str(""), Err(SpecError::UnexpectedEnd));
}

#[test]
fn trailing_tokens_fail() {
    assert_eq!(gen_str("Struct::S { } }"), Err(SpecError::UnexpectedToken));
}

#[test]
fn later_configuration_overrides_earlier() {
    let twice = gen_str("Struct::S { m: Method::M { success: A, success: B } }").unwrap();
    let once = gen_str("Struct::S { m: Method::M { success: B } }").unwrap();
    assert_eq!(twice, once);
}

#[test]
fn whitespace_is_insignificant() {
    let tight = gen_str("Struct::S{m:Method::M{arguments:[Key],success:V}}").unwrap();
    let airy = gen_str("Struct::S {\n  m: Method::M {\n    arguments: [ Key ],\n    success: V\n  }\n}").unwrap();
    assert_eq!(tight, airy);
}
