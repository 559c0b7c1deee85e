//! The semantic builder: the callback interface an external text-format
//! parser drives, one call per grammar production, in a single top-down
//! pass. Each insert mutates exactly one table; name and index references
//! resolve only against what was inserted strictly earlier, and an
//! unresolved reference surfaces as an absence the caller must treat as a
//! hard parse failure — no table is touched by a failed lookup.

use vstd::prelude::*;
use vstd::string::StringExecFns;
use crate::ast::{
    Bind, BindId, BindingId, CompoundTypeId, ExportBinding, ExportBindingId, FunctionBinding,
    ImportBinding, ImportBindingId, IncomingBindingExpression, IncomingBindingExpressionAllocCopy,
    IncomingBindingExpressionAllocUtf8Str, IncomingBindingExpressionAs,
    IncomingBindingExpressionBindImport, IncomingBindingExpressionEnumToI32,
    IncomingBindingExpressionField, IncomingBindingExpressionGet, IncomingBindingMap,
    OutgoingBindingExpression, OutgoingBindingExpressionAs, OutgoingBindingExpressionBindExport,
    OutgoingBindingExpressionCopy, OutgoingBindingExpressionDict,
    OutgoingBindingExpressionI32ToEnum, OutgoingBindingExpressionUtf8CStr,
    OutgoingBindingExpressionUtf8Str, OutgoingBindingExpressionView, WasmFuncId, WasmFuncTypeId,
    WasmValType, WebidlBindings, WebidlDictionary, WebidlDictionaryField, WebidlEnumeration,
    WebidlFunction, WebidlFunctionId, WebidlFunctionKind, WebidlFunctionKindMethod,
    WebidlDictionaryId, WebidlEnumerationId, WebidlScalarType, WebidlTypeRef, WebidlUnion,
    WebidlUnionId, OutgoingBindingMap, lookup_name, names_view,
};
use crate::views::HostIndexBounds;

verus! {

/// A snapshot of the host module's own name tables and index-space bounds,
/// supplied by the host module collaborator. This component never mutates
/// the host module; it only resolves references against this snapshot.
#[derive(Debug)]
pub struct ModuleInfo {
    pub type_names: Vec<(String, u32)>,
    pub func_names: Vec<(String, u32)>,
    pub bounds: HostIndexBounds,
}

/// The semantic builder. It owns the section under construction and the
/// host module snapshot; every production call either constructs a plain
/// value, appends to exactly one table, or resolves a reference.
#[derive(Debug)]
pub struct BuildAstActions {
    pub section: WebidlBindings,
    pub module: ModuleInfo,
}

impl BuildAstActions {
    /// Start building into `section`, resolving host references against
    /// `module`.
    pub fn new(section: WebidlBindings, module: ModuleInfo) -> (r: Self)
        ensures
            r.section == section,
            r.module == module,
    {
        BuildAstActions { section, module }
    }

    /// Hand the finished section back to the caller.
    pub fn into_section(self) -> (r: WebidlBindings)
        ensures
            r == self.section,
    {
        self.section
    }

    /// The whole-section production: the tables were already filled by the
    /// sub-productions, so there is nothing left to do.
    pub fn webidl_bindings_section(&mut self, types: (), bindings: ())
        ensures
            *final(self) == *old(self),
    {
    }

    /// The type-subsection production: a no-op, as each type declaration
    /// already inserted itself.
    pub fn webidl_type_subsection(&mut self, types: Vec<()>)
        ensures
            *final(self) == *old(self),
    {
    }

    /// A type declaration: the payload was already inserted; if the
    /// declaration is named, record the name against the fresh identifier.
    /// A later record of the same name shadows this one.
    pub fn webidl_type(&mut self, name: Option<&str>, ty: CompoundTypeId)
        ensures
            final(self).module == old(self).module,
            final(self).section.bindings == old(self).section.bindings,
            final(self).section.binds == old(self).section.binds,
            final(self).section.types.entries@ == old(self).section.types.entries@,
            match name {
                Some(n) => names_view(final(self).section.types.names@) == names_view(
                    old(self).section.types.names@,
                ).push((n@, ty.0)),
                None => final(self).section.types.names@ == old(self).section.types.names@,
            },
    {
        if let Some(n) = name {
            let owned = String::from_str(n);
            self.section.types.record_name(owned, ty);
            proof {
                assert(names_view(self.section.types.names@) =~= names_view(
                    old(self).section.types.names@,
                ).push((n@, ty.0)));
            }
        }
    }

    /// A function type declaration: an omitted kind defaults to static, an
    /// omitted parameter list to empty; the payload is appended to the type
    /// table.
    pub fn webidl_function(
        &mut self,
        kind: Option<WebidlFunctionKind>,
        params: Option<Vec<WebidlTypeRef>>,
        result: Option<WebidlTypeRef>,
    ) -> (r: WebidlFunctionId)
        requires
            old(self).section.types.entries@.len() < u32::MAX,
        ensures
            final(self).module == old(self).module,
            final(self).section.bindings == old(self).section.bindings,
            final(self).section.binds == old(self).section.binds,
            final(self).section.types.names@ == old(self).section.types.names@,
            ({
                let k = match kind {
                    Some(k0) => k0,
                    None => WebidlFunctionKind::Static,
                };
                let p = match params {
                    Some(ref p0) => p0@,
                    None => Seq::<WebidlTypeRef>::empty(),
                };
                final(self).section.types.entries@.len() == old(
                    self,
                ).section.types.entries@.len() + 1 && final(self).section.types.entries@.drop_last()
                    == old(self).section.types.entries@ && (final(self).section.types.entries@.last()
                    matches crate::ast::WebidlCompoundType::Function(f) && f.kind == k && f.params@
                    == p && f.result == result)
            }),
            r.0 == CompoundTypeId(old(self).section.types.entries@.len() as u32),
    {
        let kind = match kind {
            Some(k) => k,
            None => WebidlFunctionKind::Static,
        };
        let params = match params {
            Some(p) => p,
            None => Vec::new(),
        };
        let r = self.section.types.insert(WebidlFunction { kind, params, result });
        proof {
            let appended = old(self).section.types.entries@.push(
                crate::ast::WebidlCompoundType::Function(WebidlFunction { kind, params, result }),
            );
            assert(final(self).section.types.entries@.last() == appended.last());
            assert(appended.drop_last() =~= old(self).section.types.entries@);
        }
        r
    }

    /// The method call kind, carrying its receiver type reference.
    pub fn webidl_function_kind_method(&mut self, ty: WebidlTypeRef) -> (r: WebidlFunctionKindMethod)
        ensures
            *final(self) == *old(self),
            r.ty == ty,
    {
        WebidlFunctionKindMethod { ty }
    }

    /// The constructor call kind.
    pub fn webidl_function_kind_constructor_default_new_target(&mut self) -> (r: WebidlFunctionKind)
        ensures
            *final(self) == *old(self),
            r == WebidlFunctionKind::Constructor,
    {
        WebidlFunctionKind::Constructor
    }

    /// The parameter-list production: the references were already built.
    pub fn webidl_function_params(&mut self, tys: Vec<WebidlTypeRef>) -> (r: Vec<WebidlTypeRef>)
        ensures
            *final(self) == *old(self),
            r == tys,
    {
        tys
    }

    /// The result production: the reference was already built.
    pub fn webidl_function_result(&mut self, ty: WebidlTypeRef) -> (r: WebidlTypeRef)
        ensures
            *final(self) == *old(self),
            r == ty,
    {
        ty
    }

    /// A dictionary type declaration: append the payload to the type table.
    pub fn webidl_dictionary(&mut self, fields: Vec<WebidlDictionaryField>) -> (r:
        WebidlDictionaryId)
        requires
            old(self).section.types.entries@.len() < u32::MAX,
        ensures
            final(self).module == old(self).module,
            final(self).section.bindings == old(self).section.bindings,
            final(self).section.binds == old(self).section.binds,
            final(self).section.types.names@ == old(self).section.types.names@,
            final(self).section.types.entries@ == old(self).section.types.entries@.push(
                crate::ast::WebidlCompoundType::Dictionary(WebidlDictionary { fields: fields }),
            ),
            r.0 == CompoundTypeId(old(self).section.types.entries@.len() as u32),
    {
        self.section.types.insert(WebidlDictionary { fields })
    }

    /// A dictionary field: a name and a type reference.
    pub fn webidl_dictionary_field(&mut self, name: String, ty: WebidlTypeRef) -> (r:
        WebidlDictionaryField)
        ensures
            *final(self) == *old(self),
            r.name == name,
            r.ty == ty,
    {
        WebidlDictionaryField { name, ty }
    }

    /// A dictionary field name, taken over from the token stream.
    pub fn webidl_dictionary_field_name(&mut self, name: &str) -> (r: String)
        ensures
            *final(self) == *old(self),
            r@ == name@,
    {
        String::from_str(name)
    }

    /// An enumeration type declaration: append the payload to the type
    /// table.
    pub fn webidl_enumeration(&mut self, values: Vec<String>) -> (r: WebidlEnumerationId)
        requires
            old(self).section.types.entries@.len() < u32::MAX,
        ensures
            final(self).module == old(self).module,
            final(self).section.bindings == old(self).section.bindings,
            final(self).section.binds == old(self).section.binds,
            final(self).section.types.names@ == old(self).section.types.names@,
            final(self).section.types.entries@ == old(self).section.types.entries@.push(
                crate::ast::WebidlCompoundType::Enumeration(WebidlEnumeration { values: values }),
            ),
            r.0 == CompoundTypeId(old(self).section.types.entries@.len() as u32),
    {
        self.section.types.insert(WebidlEnumeration { values })
    }

    /// An enumeration value, taken over from the token stream.
    pub fn webidl_enumeration_value(&mut self, value: &str) -> (r: String)
        ensures
            *final(self) == *old(self),
            r@ == value@,
    {
        String::from_str(value)
    }

    /// A union type declaration: append the payload to the type table.
    pub fn webidl_union(&mut self, members: Vec<WebidlTypeRef>) -> (r: WebidlUnionId)
        requires
            old(self).section.types.entries@.len() < u32::MAX,
        ensures
            final(self).module == old(self).module,
            final(self).section.bindings == old(self).section.bindings,
            final(self).section.binds == old(self).section.binds,
            final(self).section.types.names@ == old(self).section.types.names@,
            final(self).section.types.entries@ == old(self).section.types.entries@.push(
                crate::ast::WebidlCompoundType::Union(WebidlUnion { members: members }),
            ),
            r.0 == CompoundTypeId(old(self).section.types.entries@.len() as u32),
    {
        self.section.types.insert(WebidlUnion { members })
    }

    /// The bindings-subsection production: a no-op, as each declaration
    /// already inserted itself.
    pub fn webidl_function_bindings_subsection(&mut self, bindings: Vec<()>, binds: Vec<()>)
        ensures
            *final(self) == *old(self),
    {
    }

    /// An import binding declaration: build the payload from the
    /// already-resolved sub-values, append it, and record its name if it
    /// has one.
    pub fn import_binding(
        &mut self,
        name: Option<&str>,
        wasm_ty: WasmFuncTypeId,
        webidl_ty: WebidlTypeRef,
        params: OutgoingBindingMap,
        result: IncomingBindingMap,
    )
        requires
            old(self).section.bindings.entries@.len() < u32::MAX,
        ensures
            final(self).module == old(self).module,
            final(self).section.types == old(self).section.types,
            final(self).section.binds == old(self).section.binds,
            final(self).section.bindings.entries@ == old(self).section.bindings.entries@.push(
                FunctionBinding::Import(
                    ImportBinding { wasm_ty, webidl_ty, params: params, result: result },
                ),
            ),
            match name {
                Some(n) => names_view(final(self).section.bindings.names@) == names_view(
                    old(self).section.bindings.names@,
                ).push((n@, old(self).section.bindings.entries@.len() as u32)),
                None => final(self).section.bindings.names@ == old(self).section.bindings.names@,
            },
    {
        let id: ImportBindingId = self.section.bindings.insert(
            ImportBinding { wasm_ty, webidl_ty, params, result },
        );
        if let Some(n) = name {
            let owned = String::from_str(n);
            self.section.bindings.record_name(owned, id.0);
            proof {
                assert(names_view(self.section.bindings.names@) =~= names_view(
                    old(self).section.bindings.names@,
                ).push((n@, old(self).section.bindings.entries@.len() as u32)));
            }
        }
    }

    /// An export binding declaration: the mirror of an import binding.
    pub fn export_binding(
        &mut self,
        name: Option<&str>,
        wasm_ty: WasmFuncTypeId,
        webidl_ty: WebidlTypeRef,
        params: IncomingBindingMap,
        result: OutgoingBindingMap,
    )
        requires
            old(self).section.bindings.entries@.len() < u32::MAX,
        ensures
            final(self).module == old(self).module,
            final(self).section.types == old(self).section.types,
            final(self).section.binds == old(self).section.binds,
            final(self).section.bindings.entries@ == old(self).section.bindings.entries@.push(
                FunctionBinding::Export(
                    ExportBinding { wasm_ty, webidl_ty, params: params, result: result },
                ),
            ),
            match name {
                Some(n) => names_view(final(self).section.bindings.names@) == names_view(
                    old(self).section.bindings.names@,
                ).push((n@, old(self).section.bindings.entries@.len() as u32)),
                None => final(self).section.bindings.names@ == old(self).section.bindings.names@,
            },
    {
        let id: ExportBindingId = self.section.bindings.insert(
            ExportBinding { wasm_ty, webidl_ty, params, result },
        );
        if let Some(n) = name {
            let owned = String::from_str(n);
            self.section.bindings.record_name(owned, id.0);
            proof {
                assert(names_view(self.section.bindings.names@) =~= names_view(
                    old(self).section.bindings.names@,
                ).push((n@, old(self).section.bindings.entries@.len() as u32)));
            }
        }
    }

    /// A bind statement: associate a host function with a binding recipe,
    /// with no further validation.
    pub fn bind(&mut self, func: WasmFuncId, binding: BindingId)
        requires
            old(self).section.binds.entries@.len() < u32::MAX,
        ensures
            final(self).module == old(self).module,
            final(self).section.types == old(self).section.types,
            final(self).section.bindings == old(self).section.bindings,
            final(self).section.binds.entries@ == old(self).section.binds.entries@.push(
                Bind { func, binding },
            ),
    {
        self.section.binds.insert(Bind { func, binding });
    }

    /// An outgoing expression map, from its already-built expressions.
    pub fn outgoing_binding_map(&mut self, bindings: Vec<OutgoingBindingExpression>) -> (r:
        OutgoingBindingMap)
        ensures
            *final(self) == *old(self),
            r.bindings == bindings,
    {
        OutgoingBindingMap { bindings }
    }

    /// An incoming expression map, from its already-built expressions.
    pub fn incoming_binding_map(&mut self, bindings: Vec<IncomingBindingExpression>) -> (r:
        IncomingBindingMap)
        ensures
            *final(self) == *old(self),
            r.bindings == bindings,
    {
        IncomingBindingMap { bindings }
    }
}

/// Resolve a name against a (name, index) record table, last writer wins.
fn lookup_in(names: &Vec<(String, u32)>, name: &str) -> (r: Option<u32>)
    ensures
        r == lookup_name(names_view(names@), name@),
{
    let mut k = names.len();
    proof {
        assert(names_view(names@).take(names@.len() as int) =~= names_view(names@));
    }
    while k > 0
        invariant
            k <= names@.len(),
            lookup_name(names_view(names@), name@) == lookup_name(
                names_view(names@).take(k as int),
                name@,
            ),
        decreases k,
    {
        k -= 1;
        let ghost pre = names_view(names@).take(k + 1);
        proof {
            assert(pre.last() == (names@[k as int].0@, names@[k as int].1));
            assert(pre.drop_last() =~= names_view(names@).take(k as int));
        }
        if crate::ast::str_eq(names[k].0.as_str(), name) {
            return Some(names[k].1);
        }
    }
    proof {
        assert(names_view(names@).take(0) =~= Seq::<(Seq<char>, u32)>::empty());
    }
    None
}

impl BuildAstActions {
    /// Resolve an interface type reference by name against the type table.
    /// A name never inserted is an absence the caller must treat as fatal;
    /// the tables are untouched either way.
    pub fn webidl_type_ref_named(&mut self, name: &str) -> (r: Option<WebidlTypeRef>)
        ensures
            *final(self) == *old(self),
            match lookup_name(names_view(old(self).section.types.names@), name@) {
                Some(i) => r == Some(WebidlTypeRef::Id(CompoundTypeId(i))),
                None => r is None,
            },
    {
        match self.section.types.by_name(name) {
            Some(id) => Some(WebidlTypeRef::Id(id)),
            None => None,
        }
    }

    /// Resolve an interface type reference by declaration index: a
    /// back-reference into the type table as grown so far.
    pub fn webidl_type_ref_indexed(&mut self, idx: u32) -> (r: Option<WebidlTypeRef>)
        ensures
            *final(self) == *old(self),
            r == if (idx as int) < old(self).section.types.entries@.len() {
                Some(WebidlTypeRef::Id(CompoundTypeId(idx)))
            } else {
                None::<WebidlTypeRef>
            },
    {
        match self.section.types.by_index(idx) {
            Some(id) => Some(WebidlTypeRef::Id(id)),
            None => None,
        }
    }

    /// Resolve a host function type by name against the host module's own
    /// name table.
    pub fn wasm_func_type_ref_named(&mut self, name: &str) -> (r: Option<WasmFuncTypeId>)
        ensures
            *final(self) == *old(self),
            match lookup_name(names_view(old(self).module.type_names@), name@) {
                Some(i) => r == Some(WasmFuncTypeId(i)),
                None => r is None,
            },
    {
        match lookup_in(&self.module.type_names, name) {
            Some(i) => Some(WasmFuncTypeId(i)),
            None => None,
        }
    }

    /// Resolve a host function type by module-space index, bounded by the
    /// host module's own index space.
    pub fn wasm_func_type_ref_indexed(&mut self, idx: u32) -> (r: Option<WasmFuncTypeId>)
        ensures
            *final(self) == *old(self),
            r == if idx < old(self).module.bounds.n_func_types {
                Some(WasmFuncTypeId(idx))
            } else {
                None::<WasmFuncTypeId>
            },
    {
        if idx < self.module.bounds.n_func_types {
            Some(WasmFuncTypeId(idx))
        } else {
            None
        }
    }

    /// Resolve a host function by name against the host module's own name
    /// table.
    pub fn wasm_func_ref_named(&mut self, name: &str) -> (r: Option<WasmFuncId>)
        ensures
            *final(self) == *old(self),
            match lookup_name(names_view(old(self).module.func_names@), name@) {
                Some(i) => r == Some(WasmFuncId(i)),
                None => r is None,
            },
    {
        match lookup_in(&self.module.func_names, name) {
            Some(i) => Some(WasmFuncId(i)),
            None => None,
        }
    }

    /// Resolve a host function by module-space index, bounded by the host
    /// module's own index space.
    pub fn wasm_func_ref_indexed(&mut self, idx: u32) -> (r: Option<WasmFuncId>)
        ensures
            *final(self) == *old(self),
            r == if idx < old(self).module.bounds.n_funcs {
                Some(WasmFuncId(idx))
            } else {
                None::<WasmFuncId>
            },
    {
        if idx < self.module.bounds.n_funcs {
            Some(WasmFuncId(idx))
        } else {
            None
        }
    }

    /// Resolve a binding by name against the binding table.
    pub fn binding_ref_named(&mut self, name: &str) -> (r: Option<BindingId>)
        ensures
            *final(self) == *old(self),
            match lookup_name(names_view(old(self).section.bindings.names@), name@) {
                Some(i) => r == Some(BindingId(i)),
                None => r is None,
            },
    {
        self.section.bindings.by_name(name)
    }

    /// Resolve a binding by declaration index: a back-reference into the
    /// binding table as grown so far.
    pub fn binding_ref_indexed(&mut self, idx: u32) -> (r: Option<BindingId>)
        ensures
            *final(self) == *old(self),
            r == if (idx as int) < old(self).section.bindings.entries@.len() {
                Some(BindingId(idx))
            } else {
                None::<BindingId>
            },
    {
        self.section.bindings.by_index(idx)
    }
}

// The leaf constructors: pure productions with no table interaction, so the
// collaborator's grammar actions have a uniform one-call-per-production
// shape.
impl BuildAstActions {
    pub fn outgoing_binding_expression_as(&mut self, ty: WebidlTypeRef, idx: u32) -> (r:
        OutgoingBindingExpressionAs)
        ensures
            *final(self) == *old(self),
            r == (OutgoingBindingExpressionAs { ty, idx }),
    {
        OutgoingBindingExpressionAs { ty, idx }
    }

    pub fn outgoing_binding_expression_utf8_str(
        &mut self,
        ty: WebidlTypeRef,
        offset: u32,
        length: u32,
    ) -> (r: OutgoingBindingExpressionUtf8Str)
        ensures
            *final(self) == *old(self),
            r == (OutgoingBindingExpressionUtf8Str { ty, offset, length }),
    {
        OutgoingBindingExpressionUtf8Str { ty, offset, length }
    }

    pub fn outgoing_binding_expression_utf8_c_str(&mut self, ty: WebidlTypeRef, offset: u32) -> (r:
        OutgoingBindingExpressionUtf8CStr)
        ensures
            *final(self) == *old(self),
            r == (OutgoingBindingExpressionUtf8CStr { ty, offset }),
    {
        OutgoingBindingExpressionUtf8CStr { ty, offset }
    }

    pub fn outgoing_binding_expression_i32_to_enum(&mut self, ty: WebidlTypeRef, idx: u32) -> (r:
        OutgoingBindingExpressionI32ToEnum)
        ensures
            *final(self) == *old(self),
            r == (OutgoingBindingExpressionI32ToEnum { ty, idx }),
    {
        OutgoingBindingExpressionI32ToEnum { ty, idx }
    }

    pub fn outgoing_binding_expression_view(
        &mut self,
        ty: WebidlTypeRef,
        offset: u32,
        length: u32,
    ) -> (r: OutgoingBindingExpressionView)
        ensures
            *final(self) == *old(self),
            r == (OutgoingBindingExpressionView { ty, offset, length }),
    {
        OutgoingBindingExpressionView { ty, offset, length }
    }

    pub fn outgoing_binding_expression_copy(
        &mut self,
        ty: WebidlTypeRef,
        offset: u32,
        length: u32,
    ) -> (r: OutgoingBindingExpressionCopy)
        ensures
            *final(self) == *old(self),
            r == (OutgoingBindingExpressionCopy { ty, offset, length }),
    {
        OutgoingBindingExpressionCopy { ty, offset, length }
    }

    pub fn outgoing_binding_expression_dict(
        &mut self,
        ty: WebidlTypeRef,
        fields: Vec<OutgoingBindingExpression>,
    ) -> (r: OutgoingBindingExpressionDict)
        ensures
            *final(self) == *old(self),
            r.ty == ty,
            r.fields == fields,
    {
        OutgoingBindingExpressionDict { ty, fields }
    }

    pub fn outgoing_binding_expression_bind_export(
        &mut self,
        ty: WebidlTypeRef,
        binding: BindingId,
        idx: u32,
    ) -> (r: OutgoingBindingExpressionBindExport)
        ensures
            *final(self) == *old(self),
            r == (OutgoingBindingExpressionBindExport { ty, binding, idx }),
    {
        OutgoingBindingExpressionBindExport { ty, binding, idx }
    }

    pub fn incoming_binding_expression_get(&mut self, idx: u32) -> (r: IncomingBindingExpressionGet)
        ensures
            *final(self) == *old(self),
            r == (IncomingBindingExpressionGet { idx }),
    {
        IncomingBindingExpressionGet { idx }
    }

    pub fn incoming_binding_expression_as(
        &mut self,
        ty: WasmValType,
        expr: IncomingBindingExpression,
    ) -> (r: IncomingBindingExpressionAs)
        ensures
            *final(self) == *old(self),
            r.ty == ty,
            *r.expr == expr,
    {
        let expr = Box::new(expr);
        IncomingBindingExpressionAs { ty, expr }
    }

    pub fn incoming_binding_expression_alloc_utf8_str(
        &mut self,
        alloc_func_name: &str,
        expr: IncomingBindingExpression,
    ) -> (r: IncomingBindingExpressionAllocUtf8Str)
        ensures
            *final(self) == *old(self),
            r.alloc_func_name@ == alloc_func_name@,
            *r.expr == expr,
    {
        let alloc_func_name = String::from_str(alloc_func_name);
        let expr = Box::new(expr);
        IncomingBindingExpressionAllocUtf8Str { alloc_func_name, expr }
    }

    pub fn incoming_binding_expression_alloc_copy(
        &mut self,
        alloc_func_name: &str,
        expr: IncomingBindingExpression,
    ) -> (r: IncomingBindingExpressionAllocCopy)
        ensures
            *final(self) == *old(self),
            r.alloc_func_name@ == alloc_func_name@,
            *r.expr == expr,
    {
        let alloc_func_name = String::from_str(alloc_func_name);
        let expr = Box::new(expr);
        IncomingBindingExpressionAllocCopy { alloc_func_name, expr }
    }

    pub fn incoming_binding_expression_enum_to_i32(
        &mut self,
        ty: WebidlTypeRef,
        expr: IncomingBindingExpression,
    ) -> (r: IncomingBindingExpressionEnumToI32)
        ensures
            *final(self) == *old(self),
            r.ty == ty,
            *r.expr == expr,
    {
        let expr = Box::new(expr);
        IncomingBindingExpressionEnumToI32 { ty, expr }
    }

    pub fn incoming_binding_expression_field(
        &mut self,
        idx: u32,
        expr: IncomingBindingExpression,
    ) -> (r: IncomingBindingExpressionField)
        ensures
            *final(self) == *old(self),
            r.idx == idx,
            *r.expr == expr,
    {
        let expr = Box::new(expr);
        IncomingBindingExpressionField { idx, expr }
    }

    pub fn incoming_binding_expression_bind_import(
        &mut self,
        ty: WasmFuncTypeId,
        binding: BindingId,
        expr: IncomingBindingExpression,
    ) -> (r: IncomingBindingExpressionBindImport)
        ensures
            *final(self) == *old(self),
            r.ty == ty,
            r.binding == binding,
            *r.expr == expr,
    {
        let expr = Box::new(expr);
        IncomingBindingExpressionBindImport { ty, binding, expr }
    }

    pub fn webidl_scalar_type_any(&mut self) -> (r: WebidlScalarType)
        ensures
            *final(self) == *old(self),
            r == WebidlScalarType::Any,
    {
        WebidlScalarType::Any
    }

    pub fn webidl_scalar_type_boolean(&mut self) -> (r: WebidlScalarType)
        ensures
            *final(self) == *old(self),
            r == WebidlScalarType::Boolean,
    {
        WebidlScalarType::Boolean
    }

    pub fn webidl_scalar_type_byte(&mut self) -> (r: WebidlScalarType)
        ensures
            *final(self) == *old(self),
            r == WebidlScalarType::Byte,
    {
        WebidlScalarType::Byte
    }

    pub fn webidl_scalar_type_octet(&mut self) -> (r: WebidlScalarType)
        ensures
            *final(self) == *old(self),
            r == WebidlScalarType::Octet,
    {
        WebidlScalarType::Octet
    }

    pub fn webidl_scalar_type_long(&mut self) -> (r: WebidlScalarType)
        ensures
            *final(self) == *old(self),
            r == WebidlScalarType::Long,
    {
        WebidlScalarType::Long
    }

    pub fn webidl_scalar_type_unsigned_long(&mut self) -> (r: WebidlScalarType)
        ensures
            *final(self) == *old(self),
            r == WebidlScalarType::UnsignedLong,
    {
        WebidlScalarType::UnsignedLong
    }

    pub fn webidl_scalar_type_short(&mut self) -> (r: WebidlScalarType)
        ensures
            *final(self) == *old(self),
            r == WebidlScalarType::Short,
    {
        WebidlScalarType::Short
    }

    pub fn webidl_scalar_type_unsigned_short(&mut self) -> (r: WebidlScalarType)
        ensures
            *final(self) == *old(self),
            r == WebidlScalarType::UnsignedShort,
    {
        WebidlScalarType::UnsignedShort
    }

    pub fn webidl_scalar_type_long_long(&mut self) -> (r: WebidlScalarType)
        ensures
            *final(self) == *old(self),
            r == WebidlScalarType::LongLong,
    {
        WebidlScalarType::LongLong
    }

    pub fn webidl_scalar_type_unsigned_long_long(&mut self) -> (r: WebidlScalarType)
        ensures
            *final(self) == *old(self),
            r == WebidlScalarType::UnsignedLongLong,
    {
        WebidlScalarType::UnsignedLongLong
    }

    pub fn webidl_scalar_type_float(&mut self) -> (r: WebidlScalarType)
        ensures
            *final(self) == *old(self),
            r == WebidlScalarType::Float,
    {
        WebidlScalarType::Float
    }

    pub fn webidl_scalar_type_unrestricted_float(&mut self) -> (r: WebidlScalarType)
        ensures
            *final(self) == *old(self),
            r == WebidlScalarType::UnrestrictedFloat,
    {
        WebidlScalarType::UnrestrictedFloat
    }

    pub fn webidl_scalar_type_double(&mut self) -> (r: WebidlScalarType)
        ensures
            *final(self) == *old(self),
            r == WebidlScalarType::Double,
    {
        WebidlScalarType::Double
    }

    pub fn webidl_scalar_type_unrestricted_double(&mut self) -> (r: WebidlScalarType)
        ensures
            *final(self) == *old(self),
            r == WebidlScalarType::UnrestrictedDouble,
    {
        WebidlScalarType::UnrestrictedDouble
    }

    pub fn webidl_scalar_type_dom_string(&mut self) -> (r: WebidlScalarType)
        ensures
            *final(self) == *old(self),
            r == WebidlScalarType::DomString,
    {
        WebidlScalarType::DomString
    }

    pub fn webidl_scalar_type_byte_string(&mut self) -> (r: WebidlScalarType)
        ensures
            *final(self) == *old(self),
            r == WebidlScalarType::ByteString,
    {
        WebidlScalarType::ByteString
    }

    pub fn webidl_scalar_type_usv_string(&mut self) -> (r: WebidlScalarType)
        ensures
            *final(self) == *old(self),
            r == WebidlScalarType::UsvString,
    {
        WebidlScalarType::UsvString
    }

    pub fn webidl_scalar_type_object(&mut self) -> (r: WebidlScalarType)
        ensures
            *final(self) == *old(self),
            r == WebidlScalarType::Object,
    {
        WebidlScalarType::Object
    }

    pub fn webidl_scalar_type_symbol(&mut self) -> (r: WebidlScalarType)
        ensures
            *final(self) == *old(self),
            r == WebidlScalarType::Symbol,
    {
        WebidlScalarType::Symbol
    }

    pub fn webidl_scalar_type_array_buffer(&mut self) -> (r: WebidlScalarType)
        ensures
            *final(self) == *old(self),
            r == WebidlScalarType::ArrayBuffer,
    {
        WebidlScalarType::ArrayBuffer
    }

    pub fn webidl_scalar_type_data_view(&mut self) -> (r: WebidlScalarType)
        ensures
            *final(self) == *old(self),
            r == WebidlScalarType::DataView,
    {
        WebidlScalarType::DataView
    }

    pub fn webidl_scalar_type_int8_array(&mut self) -> (r: WebidlScalarType)
        ensures
            *final(self) == *old(self),
            r == WebidlScalarType::Int8Array,
    {
        WebidlScalarType::Int8Array
    }

    pub fn webidl_scalar_type_int16_array(&mut self) -> (r: WebidlScalarType)
        ensures
            *final(self) == *old(self),
            r == WebidlScalarType::Int16Array,
    {
        WebidlScalarType::Int16Array
    }

    pub fn webidl_scalar_type_int32_array(&mut self) -> (r: WebidlScalarType)
        ensures
            *final(self) == *old(self),
            r == WebidlScalarType::Int32Array,
    {
        WebidlScalarType::Int32Array
    }

    pub fn webidl_scalar_type_uint8_array(&mut self) -> (r: WebidlScalarType)
        ensures
            *final(self) == *old(self),
            r == WebidlScalarType::Uint8Array,
    {
        WebidlScalarType::Uint8Array
    }

    pub fn webidl_scalar_type_uint16_array(&mut self) -> (r: WebidlScalarType)
        ensures
            *final(self) == *old(self),
            r == WebidlScalarType::Uint16Array,
    {
        WebidlScalarType::Uint16Array
    }

    pub fn webidl_scalar_type_uint32_array(&mut self) -> (r: WebidlScalarType)
        ensures
            *final(self) == *old(self),
            r == WebidlScalarType::Uint32Array,
    {
        WebidlScalarType::Uint32Array
    }

    pub fn webidl_scalar_type_uint8_clamped_array(&mut self) -> (r: WebidlScalarType)
        ensures
            *final(self) == *old(self),
            r == WebidlScalarType::Uint8ClampedArray,
    {
        WebidlScalarType::Uint8ClampedArray
    }

    pub fn webidl_scalar_type_float32_array(&mut self) -> (r: WebidlScalarType)
        ensures
            *final(self) == *old(self),
            r == WebidlScalarType::Float32Array,
    {
        WebidlScalarType::Float32Array
    }

    pub fn webidl_scalar_type_float64_array(&mut self) -> (r: WebidlScalarType)
        ensures
            *final(self) == *old(self),
            r == WebidlScalarType::Float64Array,
    {
        WebidlScalarType::Float64Array
    }

    pub fn wasm_val_type_i32(&mut self) -> (r: WasmValType)
        ensures
            *final(self) == *old(self),
            r == WasmValType::I32,
    {
        WasmValType::I32
    }

    pub fn wasm_val_type_i64(&mut self) -> (r: WasmValType)
        ensures
            *final(self) == *old(self),
            r == WasmValType::I64,
    {
        WasmValType::I64
    }

    pub fn wasm_val_type_f32(&mut self) -> (r: WasmValType)
        ensures
            *final(self) == *old(self),
            r == WasmValType::F32,
    {
        WasmValType::F32
    }

    pub fn wasm_val_type_f64(&mut self) -> (r: WasmValType)
        ensures
            *final(self) == *old(self),
            r == WasmValType::F64,
    {
        WasmValType::F64
    }

    pub fn wasm_val_type_v128(&mut self) -> (r: WasmValType)
        ensures
            *final(self) == *old(self),
            r == WasmValType::V128,
    {
        WasmValType::V128
    }

    pub fn wasm_val_type_anyref(&mut self) -> (r: WasmValType)
        ensures
            *final(self) == *old(self),
            r == WasmValType::Anyref,
    {
        WasmValType::Anyref
    }
}

} // verus!
