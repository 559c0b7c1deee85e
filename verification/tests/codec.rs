use webidl_bindings::ast::{
    Bind, BindingId, Binds, CompoundTypeId, ExportBinding, FunctionBinding, FunctionBindings,
    ImportBinding, IncomingBindingExpression, IncomingBindingExpressionAllocCopy,
    IncomingBindingExpressionAllocUtf8Str, IncomingBindingExpressionAs,
    IncomingBindingExpressionBindImport, IncomingBindingExpressionEnumToI32,
    IncomingBindingExpressionField, IncomingBindingExpressionGet, IncomingBindingMap,
    OutgoingBindingExpression, OutgoingBindingExpressionAs, OutgoingBindingExpressionBindExport,
    OutgoingBindingExpressionCopy, OutgoingBindingExpressionDict,
    OutgoingBindingExpressionI32ToEnum, OutgoingBindingExpressionUtf8CStr,
    OutgoingBindingExpressionUtf8Str, OutgoingBindingExpressionView, WasmFuncId, WasmFuncTypeId,
    WasmValType, WebidlBindings, WebidlCompoundType, WebidlDictionary, WebidlDictionaryField,
    WebidlEnumeration, WebidlFunction, WebidlFunctionKind, WebidlFunctionKindMethod,
    WebidlScalarType, WebidlTypeRef, WebidlTypes, WebidlUnion, OutgoingBindingMap,
};
use webidl_bindings::binary::{decode, encode};
use webidl_bindings::views::{is_well_formed, HostIndexBounds};

fn scalar(s: WebidlScalarType) -> WebidlTypeRef {
    WebidlTypeRef::Scalar(s)
}

fn long_as(idx: u32) -> OutgoingBindingExpression {
    OutgoingBindingExpression::As(OutgoingBindingExpressionAs {
        ty: scalar(WebidlScalarType::Long),
        idx,
    })
}

fn get(idx: u32) -> IncomingBindingExpression {
    IncomingBindingExpression::Get(IncomingBindingExpressionGet { idx })
}

/// The in-memory model of: one named dictionary `pair { x: long, y: long }`,
/// one export binding whose result marshals both slots into a `pair`, and a
/// bind of host function 0 to that binding.
fn scenario_section() -> WebidlBindings {
    let mut section = WebidlBindings::default();
    let dict_id = section.types.insert(WebidlDictionary {
        fields: vec![
            WebidlDictionaryField { name: "x".to_string(), ty: scalar(WebidlScalarType::Long) },
            WebidlDictionaryField { name: "y".to_string(), ty: scalar(WebidlScalarType::Long) },
        ],
    });
    section.types.record_name("pair".to_string(), dict_id.0);
    let binding_id = section.bindings.insert(ExportBinding {
        wasm_ty: WasmFuncTypeId(0),
        webidl_ty: WebidlTypeRef::Id(dict_id.0),
        params: IncomingBindingMap { bindings: vec![] },
        result: OutgoingBindingMap {
            bindings: vec![OutgoingBindingExpression::Dict(OutgoingBindingExpressionDict {
                ty: WebidlTypeRef::Id(dict_id.0),
                fields: vec![long_as(0), long_as(1)],
            })],
        },
    });
    section.binds.insert(Bind { func: WasmFuncId(0), binding: binding_id.0 });
    section
}

fn scenario_host() -> HostIndexBounds {
    HostIndexBounds { n_func_types: 1, n_funcs: 1 }
}

#[test]
fn empty_section_encodes_to_three_zero_counts() {
    let section = WebidlBindings::default();
    let host = HostIndexBounds { n_func_types: 0, n_funcs: 0 };
    assert!(is_well_formed(&section, &host));
    let bytes = encode(&section, &host);
    assert_eq!(bytes, vec![0u8, 0, 0]);
    let decoded = decode(&bytes, &host).unwrap();
    assert!(decoded.types.entries.is_empty());
    assert!(decoded.bindings.entries.is_empty());
    assert!(decoded.binds.entries.is_empty());
}

#[test]
fn round_trip_dictionary_export_bind() {
    let section = scenario_section();
    let host = scenario_host();
    assert!(is_well_formed(&section, &host));
    let bytes = encode(&section, &host);
    let decoded = decode(&bytes, &host).expect("well-formed section must decode");
    // Identical table contents, order and cross-references.
    assert_eq!(decoded.types.entries, section.types.entries);
    assert_eq!(decoded.types.names, section.types.names);
    assert_eq!(decoded.bindings.entries, section.bindings.entries);
    assert_eq!(decoded.bindings.names, section.bindings.names);
    assert_eq!(decoded.binds.entries, section.binds.entries);
    // The decoded model resolves the dictionary by name to index 0 with its
    // fields in declaration order.
    let id = decoded.types.by_name("pair").expect("name must resolve");
    assert_eq!(id, CompoundTypeId(0));
    match &decoded.types.entries[0] {
        WebidlCompoundType::Dictionary(d) => {
            let names: Vec<&str> = d.fields.iter().map(|f| f.name.as_str()).collect();
            assert_eq!(names, vec!["x", "y"]);
        },
        other => panic!("expected a dictionary, found {:?}", other),
    }
    // Canonical re-encoding: encoding the decoded model reproduces the bytes.
    assert_eq!(encode(&decoded, &host), bytes);
}

#[test]
fn round_trip_every_expression_variant() {
    let mut section = WebidlBindings::default();
    section.types.insert(WebidlEnumeration {
        values: vec!["red".to_string(), "green".to_string()],
    });
    section.types.insert(WebidlUnion {
        members: vec![
            scalar(WebidlScalarType::Any),
            scalar(WebidlScalarType::Boolean),
            scalar(WebidlScalarType::Byte),
            scalar(WebidlScalarType::Octet),
            scalar(WebidlScalarType::Long),
            scalar(WebidlScalarType::UnsignedLong),
            scalar(WebidlScalarType::Short),
            scalar(WebidlScalarType::UnsignedShort),
            scalar(WebidlScalarType::LongLong),
            scalar(WebidlScalarType::UnsignedLongLong),
            scalar(WebidlScalarType::Float),
            scalar(WebidlScalarType::UnrestrictedFloat),
            scalar(WebidlScalarType::Double),
            scalar(WebidlScalarType::UnrestrictedDouble),
            scalar(WebidlScalarType::DomString),
            scalar(WebidlScalarType::ByteString),
            scalar(WebidlScalarType::UsvString),
            scalar(WebidlScalarType::Object),
            scalar(WebidlScalarType::Symbol),
            scalar(WebidlScalarType::ArrayBuffer),
            scalar(WebidlScalarType::DataView),
            scalar(WebidlScalarType::Int8Array),
            scalar(WebidlScalarType::Int16Array),
            scalar(WebidlScalarType::Int32Array),
            scalar(WebidlScalarType::Uint8Array),
            scalar(WebidlScalarType::Uint16Array),
            scalar(WebidlScalarType::Uint32Array),
            scalar(WebidlScalarType::Uint8ClampedArray),
            scalar(WebidlScalarType::Float32Array),
            scalar(WebidlScalarType::Float64Array),
        ],
    });
    section.types.insert(WebidlFunction {
        kind: WebidlFunctionKind::Method(WebidlFunctionKindMethod {
            ty: WebidlTypeRef::Id(CompoundTypeId(1)),
        }),
        params: vec![scalar(WebidlScalarType::Long), WebidlTypeRef::Id(CompoundTypeId(0))],
        result: Some(scalar(WebidlScalarType::DomString)),
    });
    // Binding 0: a plain import, so binding 1 has something earlier to
    // reference from its expressions.
    section.bindings.insert(ImportBinding {
        wasm_ty: WasmFuncTypeId(0),
        webidl_ty: WebidlTypeRef::Id(CompoundTypeId(2)),
        params: OutgoingBindingMap { bindings: vec![] },
        result: IncomingBindingMap { bindings: vec![] },
    });
    let enum_ref = WebidlTypeRef::Id(CompoundTypeId(0));
    let id = section.bindings.insert(ImportBinding {
        wasm_ty: WasmFuncTypeId(1),
        webidl_ty: WebidlTypeRef::Id(CompoundTypeId(2)),
        params: OutgoingBindingMap {
            bindings: vec![
                long_as(0),
                OutgoingBindingExpression::Utf8Str(OutgoingBindingExpressionUtf8Str {
                    ty: scalar(WebidlScalarType::DomString),
                    offset: 1,
                    length: 200,
                }),
                OutgoingBindingExpression::Utf8CStr(OutgoingBindingExpressionUtf8CStr {
                    ty: scalar(WebidlScalarType::DomString),
                    offset: 7,
                }),
                OutgoingBindingExpression::I32ToEnum(OutgoingBindingExpressionI32ToEnum {
                    ty: enum_ref,
                    idx: 2,
                }),
                OutgoingBindingExpression::View(OutgoingBindingExpressionView {
                    ty: scalar(WebidlScalarType::Uint8Array),
                    offset: 16,
                    length: 16384,
                }),
                OutgoingBindingExpression::Copy(OutgoingBindingExpressionCopy {
                    ty: scalar(WebidlScalarType::ArrayBuffer),
                    offset: 0,
                    length: u32::MAX,
                }),
                OutgoingBindingExpression::Dict(OutgoingBindingExpressionDict {
                    ty: enum_ref,
                    fields: vec![long_as(3), long_as(4)],
                }),
                OutgoingBindingExpression::BindExport(OutgoingBindingExpressionBindExport {
                    ty: enum_ref,
                    binding: BindingId(0),
                    idx: 5,
                }),
            ],
        },
        result: IncomingBindingMap {
            bindings: vec![
                get(0),
                IncomingBindingExpression::As(IncomingBindingExpressionAs {
                    ty: WasmValType::I64,
                    expr: Box::new(get(1)),
                }),
                IncomingBindingExpression::AllocUtf8Str(IncomingBindingExpressionAllocUtf8Str {
                    alloc_func_name: "malloc".to_string(),
                    expr: Box::new(get(2)),
                }),
                IncomingBindingExpression::AllocCopy(IncomingBindingExpressionAllocCopy {
                    alloc_func_name: "alloc_buf".to_string(),
                    expr: Box::new(get(3)),
                }),
                IncomingBindingExpression::EnumToI32(IncomingBindingExpressionEnumToI32 {
                    ty: enum_ref,
                    expr: Box::new(get(4)),
                }),
                IncomingBindingExpression::Field(IncomingBindingExpressionField {
                    idx: 1,
                    expr: Box::new(IncomingBindingExpression::As(IncomingBindingExpressionAs {
                        ty: WasmValType::Anyref,
                        expr: Box::new(get(5)),
                    })),
                }),
                IncomingBindingExpression::BindImport(IncomingBindingExpressionBindImport {
                    ty: WasmFuncTypeId(0),
                    binding: BindingId(0),
                    expr: Box::new(get(6)),
                }),
            ],
        },
    });
    section.bindings.record_name("rich".to_string(), id.0);
    section.binds.insert(Bind { func: WasmFuncId(2), binding: BindingId(1) });
    let host = HostIndexBounds { n_func_types: 2, n_funcs: 3 };
    assert!(is_well_formed(&section, &host));
    let bytes = encode(&section, &host);
    let decoded = decode(&bytes, &host).expect("well-formed section must decode");
    assert_eq!(decoded.types.entries, section.types.entries);
    assert_eq!(decoded.types.names, section.types.names);
    assert_eq!(decoded.bindings.entries, section.bindings.entries);
    assert_eq!(decoded.bindings.names, section.bindings.names);
    assert_eq!(decoded.binds.entries, section.binds.entries);
    assert_eq!(encode(&decoded, &host), bytes);
}

#[test]
fn round_trip_keeps_multibyte_names() {
    let mut section = WebidlBindings::default();
    let id = section.types.insert(WebidlEnumeration {
        values: vec!["café".to_string(), "日本語".to_string()],
    });
    section.types.record_name("canapé".to_string(), id.0);
    let host = HostIndexBounds { n_func_types: 0, n_funcs: 0 };
    assert!(is_well_formed(&section, &host));
    let bytes = encode(&section, &host);
    let decoded = decode(&bytes, &host).unwrap();
    assert_eq!(decoded.types.entries, section.types.entries);
    assert_eq!(decoded.types.by_name("canapé"), Some(CompoundTypeId(0)));
}

#[test]
fn count_uses_two_base128_bytes_past_127() {
    let mut section = WebidlBindings::default();
    section.types.insert(WebidlEnumeration { values: vec![String::new(); 130] });
    let host = HostIndexBounds { n_func_types: 0, n_funcs: 0 };
    let bytes = encode(&section, &host);
    // One type; tag 2 is an enumeration; no name; 130 encodes as 0x82 0x01;
    // then 130 empty strings; then two empty tables.
    let mut expected = vec![1u8, 2, 0, 0x82, 0x01];
    expected.extend(std::iter::repeat(0u8).take(130));
    expected.extend([0u8, 0]);
    assert_eq!(bytes, expected);
    let decoded = decode(&bytes, &host).unwrap();
    assert_eq!(decoded.types.entries, section.types.entries);
}

#[test]
fn decode_rejects_type_reference_past_decoded_table() {
    // Three empty enumerations, then a binding whose interface type
    // reference names index 5: an out-of-range reference, so the decode
    // must fail with no model returned.
    let bytes = vec![
        3u8, // three types
        2, 0, 0, // enumeration, unnamed, zero values
        2, 0, 0,
        2, 0, 0,
        1, // one binding
        0, // import direction
        0, // unnamed
        0, // host function type 0
        0, 5, // type reference: table index 5
    ];
    let host = HostIndexBounds { n_func_types: 1, n_funcs: 1 };
    assert!(decode(&bytes, &host).is_err());
}

#[test]
fn decode_rejects_bind_past_binding_table() {
    // No types, no bindings, one bind statement referencing binding 0: out
    // of range for an empty binding table.
    let bytes = vec![0u8, 0, 1, 0, 0];
    let host = HostIndexBounds { n_func_types: 1, n_funcs: 1 };
    assert!(decode(&bytes, &host).is_err());
}

#[test]
fn decode_rejects_host_index_past_bounds() {
    // A binding whose host function type index is outside the host
    // module's own index space.
    let bytes = vec![
        0u8, // no types
        1, // one binding
        0, // import direction
        0, // unnamed
        9, // host function type 9, but the host has only 1
        1, 0, // scalar type reference
        0, // no params
        0, // no results
    ];
    let host = HostIndexBounds { n_func_types: 1, n_funcs: 1 };
    assert!(decode(&bytes, &host).is_err());
}

#[test]
fn decode_rejects_truncated_buffer() {
    let host = HostIndexBounds { n_func_types: 0, n_funcs: 0 };
    assert!(decode(&[], &host).is_err());
    assert!(decode(&[1u8], &host).is_err());
    assert!(decode(&[1u8, 2, 0], &host).is_err());
    assert!(decode(&[0u8, 0], &host).is_err());
}

#[test]
fn decode_rejects_unknown_tags() {
    let host = HostIndexBounds { n_func_types: 0, n_funcs: 0 };
    // Unknown type kind tag.
    assert!(decode(&[1u8, 9, 0, 0, 0, 0], &host).is_err());
    // Unknown name presence flag.
    assert!(decode(&[1u8, 2, 7, 0, 0, 0], &host).is_err());
    // Unknown binding direction tag.
    assert!(decode(&[0u8, 1, 5, 0, 0, 0, 0], &host).is_err());
}

#[test]
fn decode_rejects_trailing_bytes() {
    let host = HostIndexBounds { n_func_types: 0, n_funcs: 0 };
    assert!(decode(&[0u8, 0, 0, 0], &host).is_err());
}

#[test]
fn decode_rejects_invalid_utf8_name() {
    let host = HostIndexBounds { n_func_types: 0, n_funcs: 0 };
    // One enumeration named with one byte 0xFF: not valid UTF-8.
    let bytes = vec![1u8, 2, 1, 1, 0xFF, 0, 0, 0];
    assert!(decode(&bytes, &host).is_err());
}

#[test]
fn well_formedness_rejects_dangling_references() {
    let mut section = WebidlBindings::default();
    section.types.insert(WebidlUnion {
        members: vec![WebidlTypeRef::Id(CompoundTypeId(0))],
    });
    // The union at index 0 references index 0: not strictly earlier.
    let host = HostIndexBounds { n_func_types: 1, n_funcs: 1 };
    assert!(!is_well_formed(&section, &host));

    let mut section2 = WebidlBindings::default();
    section2.binds.insert(Bind { func: WasmFuncId(0), binding: BindingId(0) });
    // A bind into an empty binding table.
    assert!(!is_well_formed(&section2, &host));

    assert!(is_well_formed(&WebidlBindings::default(), &host));
}
