use webidl_bindings::ast::{
    Bind, BindId, BindingId, Binds, CompoundTypeId, WasmFuncId, WasmFuncTypeId,
    WebidlBindings, WebidlDictionary, WebidlDictionaryField, WebidlEnumeration, WebidlFunction,
    WebidlFunctionId, WebidlScalarType, WebidlTypeRef, WebidlTypes, WebidlEnumerationId,
    WebidlDictionaryId, OutgoingBindingExpression, OutgoingBindingExpressionAs,
    OutgoingBindingExpressionDict, OutgoingBindingMap, IncomingBindingMap, WebidlFunctionKind,
};
use webidl_bindings::builder::{BuildAstActions, ModuleInfo};
use webidl_bindings::views::HostIndexBounds;

fn enumeration(vals: &[&str]) -> WebidlEnumeration {
    WebidlEnumeration { values: vals.iter().map(|s| s.to_string()).collect() }
}

fn small_host() -> HostIndexBounds {
    HostIndexBounds { n_func_types: 4, n_funcs: 4 }
}

fn empty_module() -> ModuleInfo {
    ModuleInfo { type_names: Vec::new(), func_names: Vec::new(), bounds: small_host() }
}

#[test]
fn index_stability() {
    let mut t = WebidlTypes::default();
    let a: WebidlEnumerationId = t.insert(enumeration(&["a"]));
    let b: WebidlEnumerationId = t.insert(enumeration(&["b"]));
    let c: WebidlEnumerationId = t.insert(enumeration(&["c"]));
    assert_eq!(a.0, CompoundTypeId(0));
    assert_eq!(b.0, CompoundTypeId(1));
    assert_eq!(c.0, CompoundTypeId(2));
    assert_eq!(t.by_index(0), Some(CompoundTypeId(0)));
    assert_eq!(t.by_index(1), Some(CompoundTypeId(1)));
    assert_eq!(t.by_index(2), Some(CompoundTypeId(2)));
    assert_eq!(t.by_index(3), None);
    let got: Option<&WebidlEnumeration> = t.get(WebidlEnumerationId(CompoundTypeId(1)));
    assert_eq!(got, Some(&enumeration(&["b"])));
}

#[test]
fn name_shadowing() {
    let mut t = WebidlTypes::default();
    let first: WebidlEnumerationId = t.insert(enumeration(&["old"]));
    t.record_name("e".to_string(), first.0);
    let second: WebidlEnumerationId = t.insert(enumeration(&["new"]));
    t.record_name("e".to_string(), second.0);
    // The later record wins the name lookup.
    assert_eq!(t.by_name("e"), Some(CompoundTypeId(1)));
    // The earlier entry stays reachable by index.
    assert_eq!(t.by_index(0), Some(CompoundTypeId(0)));
    let got: Option<&WebidlEnumeration> = t.get(WebidlEnumerationId(CompoundTypeId(0)));
    assert_eq!(got, Some(&enumeration(&["old"])));
    assert_eq!(t.by_name("other"), None);
}

#[test]
fn typed_identifier_wrong_variant_is_absent() {
    let mut t = WebidlTypes::default();
    let id: WebidlEnumerationId = t.insert(enumeration(&["x"]));
    // Fetching the same slot through the function-typed view fails softly.
    let wrong: Option<&WebidlFunction> = t.get(WebidlFunctionId(id.0));
    assert!(wrong.is_none());
    let right: Option<&WebidlEnumeration> = t.get(id);
    assert!(right.is_some());
}

#[test]
fn binds_are_append_only() {
    let mut binds = Binds::default();
    let first = binds.insert(Bind { func: WasmFuncId(0), binding: BindingId(0) });
    let second = binds.insert(Bind { func: WasmFuncId(1), binding: BindingId(0) });
    assert_eq!(first, BindId(0));
    assert_eq!(second, BindId(1));
    assert_eq!(binds.get(BindId(1)), Some(&Bind { func: WasmFuncId(1), binding: BindingId(0) }));
    assert_eq!(binds.get(BindId(2)), None);
}

#[test]
fn trees_compare_structurally() {
    // Two separately-built but value-identical trees are equal; no sharing
    // is involved, since every node owns its children.
    let mk = || {
        OutgoingBindingExpression::Dict(OutgoingBindingExpressionDict {
            ty: WebidlTypeRef::Id(CompoundTypeId(0)),
            fields: vec![
                OutgoingBindingExpression::As(OutgoingBindingExpressionAs {
                    ty: WebidlTypeRef::Scalar(WebidlScalarType::Long),
                    idx: 0,
                }),
                OutgoingBindingExpression::As(OutgoingBindingExpressionAs {
                    ty: WebidlTypeRef::Scalar(WebidlScalarType::Long),
                    idx: 1,
                }),
            ],
        })
    };
    let one = mk();
    let two = mk();
    assert_eq!(one, two);
    let other = OutgoingBindingExpression::Dict(OutgoingBindingExpressionDict {
        ty: WebidlTypeRef::Id(CompoundTypeId(0)),
        fields: vec![OutgoingBindingExpression::As(OutgoingBindingExpressionAs {
            ty: WebidlTypeRef::Scalar(WebidlScalarType::Long),
            idx: 0,
        })],
    });
    assert_ne!(one, other);
}

#[test]
fn builder_unknown_name_is_absent_and_tables_untouched() {
    let mut actions = BuildAstActions::new(WebidlBindings::default(), empty_module());
    // A type reference by a name never inserted surfaces as an absence, and
    // no table is partially populated by the failed lookup.
    assert!(actions.webidl_type_ref_named("missing").is_none());
    assert!(actions.binding_ref_named("missing").is_none());
    let section = actions.into_section();
    assert!(section.types.entries.is_empty());
    assert!(section.types.names.is_empty());
    assert!(section.bindings.entries.is_empty());
    assert!(section.bindings.names.is_empty());
    assert!(section.binds.entries.is_empty());
}

#[test]
fn builder_function_defaults() {
    let mut actions = BuildAstActions::new(WebidlBindings::default(), empty_module());
    let id = actions.webidl_function(None, None, None);
    assert_eq!(id.0, CompoundTypeId(0));
    let section = actions.into_section();
    let got: Option<&WebidlFunction> = section.types.get(id);
    assert_eq!(
        got,
        Some(&WebidlFunction {
            kind: WebidlFunctionKind::Static,
            params: vec![],
            result: None,
        })
    );
}

#[test]
fn builder_resolves_names_and_indices() {
    let mut actions = BuildAstActions::new(WebidlBindings::default(), empty_module());
    let field_name = actions.webidl_dictionary_field_name("x");
    let scalar = actions.webidl_scalar_type_long();
    let field = actions.webidl_dictionary_field(field_name, WebidlTypeRef::Scalar(scalar));
    let dict_id: WebidlDictionaryId = actions.webidl_dictionary(vec![field]);
    actions.webidl_type(Some("pair"), dict_id.0);
    // Name and back-reference both resolve to the fresh entry.
    assert_eq!(
        actions.webidl_type_ref_named("pair"),
        Some(WebidlTypeRef::Id(CompoundTypeId(0)))
    );
    assert_eq!(
        actions.webidl_type_ref_indexed(0),
        Some(WebidlTypeRef::Id(CompoundTypeId(0)))
    );
    assert_eq!(actions.webidl_type_ref_indexed(1), None);
    let section = actions.into_section();
    let got: Option<&WebidlDictionary> = section.types.get(dict_id);
    assert_eq!(
        got,
        Some(&WebidlDictionary {
            fields: vec![WebidlDictionaryField {
                name: "x".to_string(),
                ty: WebidlTypeRef::Scalar(WebidlScalarType::Long),
            }],
        })
    );
}

#[test]
fn builder_shadowing_resolves_to_later_type() {
    let mut actions = BuildAstActions::new(WebidlBindings::default(), empty_module());
    let first: WebidlEnumerationId = actions.webidl_enumeration(vec!["a".to_string()]);
    actions.webidl_type(Some("e"), first.0);
    let second: WebidlEnumerationId = actions.webidl_enumeration(vec!["b".to_string()]);
    actions.webidl_type(Some("e"), second.0);
    assert_eq!(
        actions.webidl_type_ref_named("e"),
        Some(WebidlTypeRef::Id(CompoundTypeId(1)))
    );
}

#[test]
fn builder_host_references() {
    let module = ModuleInfo {
        type_names: vec![("sig".to_string(), 2)],
        func_names: vec![("f".to_string(), 1)],
        bounds: HostIndexBounds { n_func_types: 3, n_funcs: 2 },
    };
    let mut actions = BuildAstActions::new(WebidlBindings::default(), module);
    assert_eq!(actions.wasm_func_type_ref_named("sig"), Some(WasmFuncTypeId(2)));
    assert_eq!(actions.wasm_func_type_ref_named("nope"), None);
    assert_eq!(actions.wasm_func_type_ref_indexed(2), Some(WasmFuncTypeId(2)));
    assert_eq!(actions.wasm_func_type_ref_indexed(3), None);
    assert_eq!(actions.wasm_func_ref_named("f"), Some(WasmFuncId(1)));
    assert_eq!(actions.wasm_func_ref_indexed(0), Some(WasmFuncId(0)));
    assert_eq!(actions.wasm_func_ref_indexed(2), None);
}

#[test]
fn builder_bind_and_binding_refs() {
    let mut actions = BuildAstActions::new(WebidlBindings::default(), empty_module());
    let params = actions.outgoing_binding_map(vec![]);
    let result = actions.incoming_binding_map(vec![]);
    actions.import_binding(
        Some("imp"),
        WasmFuncTypeId(0),
        WebidlTypeRef::Scalar(WebidlScalarType::Any),
        params,
        result,
    );
    assert_eq!(actions.binding_ref_named("imp"), Some(BindingId(0)));
    assert_eq!(actions.binding_ref_indexed(0), Some(BindingId(0)));
    assert_eq!(actions.binding_ref_indexed(1), None);
    let binding = actions.binding_ref_named("imp").unwrap();
    let func = actions.wasm_func_ref_indexed(0).unwrap();
    actions.bind(func, binding);
    let section = actions.into_section();
    assert_eq!(section.binds.entries.len(), 1);
    assert_eq!(section.binds.entries[0], Bind { func: WasmFuncId(0), binding: BindingId(0) });
}

#[test]
fn section_name_is_fixed() {
    let section = WebidlBindings::default();
    assert_eq!(section.name(), "webidl-bindings");
}

#[test]
fn set_entry_replaces_payload_in_place() {
    let mut t = WebidlTypes::default();
    let id: WebidlEnumerationId = t.insert(enumeration(&["old"]));
    t.record_name("e".to_string(), id.0);
    assert!(t.set_entry(id, enumeration(&["new"])));
    // The payload changed; index and name records did not.
    let got: Option<&WebidlEnumeration> = t.get(id);
    assert_eq!(got, Some(&enumeration(&["new"])));
    assert_eq!(t.by_index(0), Some(CompoundTypeId(0)));
    assert_eq!(t.by_name("e"), Some(CompoundTypeId(0)));
}

#[test]
fn set_entry_wrong_variant_changes_nothing() {
    let mut t = WebidlTypes::default();
    let id: WebidlEnumerationId = t.insert(enumeration(&["keep"]));
    let replaced = t.set_entry(
        WebidlFunctionId(id.0),
        WebidlFunction { kind: WebidlFunctionKind::Static, params: vec![], result: None },
    );
    assert!(!replaced);
    let got: Option<&WebidlEnumeration> = t.get(id);
    assert_eq!(got, Some(&enumeration(&["keep"])));
}

#[test]
fn set_entry_on_binds() {
    let mut binds = Binds::default();
    let id = binds.insert(Bind { func: WasmFuncId(0), binding: BindingId(0) });
    assert!(binds.set_entry(id, Bind { func: WasmFuncId(1), binding: BindingId(0) }));
    assert_eq!(binds.get(id), Some(&Bind { func: WasmFuncId(1), binding: BindingId(0) }));
    assert!(!binds.set_entry(BindId(7), Bind { func: WasmFuncId(0), binding: BindingId(0) }));
}
