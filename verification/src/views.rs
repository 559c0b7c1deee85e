//! Mathematical views of the data model, and the well-formedness conditions
//! the binary codec relies on: every cross-table reference resolves to an
//! entry that exists before it, and every count fits the wire format's
//! 32-bit fields.

use vstd::prelude::*;
use vstd::utf8::encode_utf8;
use crate::ast::{
    Bind, BindingId, FunctionBinding, ImportBinding, ExportBinding, IncomingBindingExpression,
    IncomingBindingMap, OutgoingBindingExpression, OutgoingBindingMap, WasmFuncTypeId, WasmValType,
    WebidlBindings, WebidlCompoundType, WebidlDictionary, WebidlDictionaryField, WebidlEnumeration,
    WebidlFunction, WebidlFunctionKind, WebidlTypeRef, WebidlTypes, WebidlUnion, FunctionBindings,
    Binds, names_view,
};
use vstd::string::StringSliceAdditionalSpecFns;

verus! {

broadcast use vstd::seq::group_seq_axioms, vstd::std_specs::vec::group_vec_axioms;

// ---------------------------------------------------------------------------
// Views
// ---------------------------------------------------------------------------

/// View of an interface function signature.
#[verifier::ext_equal]
pub ghost struct FunctionView {
    pub kind: WebidlFunctionKind,
    pub params: Seq<WebidlTypeRef>,
    pub result: Option<WebidlTypeRef>,
}

/// View of one dictionary field.
#[verifier::ext_equal]
pub ghost struct DictionaryFieldView {
    pub name: Seq<char>,
    pub ty: WebidlTypeRef,
}

/// View of a dictionary type.
#[verifier::ext_equal]
pub ghost struct DictionaryView {
    pub fields: Seq<DictionaryFieldView>,
}

/// View of an enumeration type.
#[verifier::ext_equal]
pub ghost struct EnumerationView {
    pub values: Seq<Seq<char>>,
}

/// View of a union type.
#[verifier::ext_equal]
pub ghost struct UnionView {
    pub members: Seq<WebidlTypeRef>,
}

/// View of a type table entry payload.
#[verifier::ext_equal]
pub ghost enum CompoundTypeView {
    Function(FunctionView),
    Dictionary(DictionaryView),
    Enumeration(EnumerationView),
    Union(UnionView),
}

/// View of an outgoing expression tree.
#[verifier::ext_equal]
pub ghost enum OutgoingExprView {
    As { ty: WebidlTypeRef, idx: u32 },
    Utf8Str { ty: WebidlTypeRef, offset: u32, length: u32 },
    Utf8CStr { ty: WebidlTypeRef, offset: u32 },
    I32ToEnum { ty: WebidlTypeRef, idx: u32 },
    View { ty: WebidlTypeRef, offset: u32, length: u32 },
    Copy { ty: WebidlTypeRef, offset: u32, length: u32 },
    Dict { ty: WebidlTypeRef, fields: Seq<OutgoingExprView> },
    BindExport { ty: WebidlTypeRef, binding: BindingId, idx: u32 },
}

/// View of an incoming expression tree.
#[verifier::ext_equal]
pub ghost enum IncomingExprView {
    Get { idx: u32 },
    As { ty: WasmValType, expr: Box<IncomingExprView> },
    AllocUtf8Str { alloc_func_name: Seq<char>, expr: Box<IncomingExprView> },
    AllocCopy { alloc_func_name: Seq<char>, expr: Box<IncomingExprView> },
    EnumToI32 { ty: WebidlTypeRef, expr: Box<IncomingExprView> },
    Field { idx: u32, expr: Box<IncomingExprView> },
    BindImport { ty: WasmFuncTypeId, binding: BindingId, expr: Box<IncomingExprView> },
}

/// View of an import- or export-direction binding.
#[verifier::ext_equal]
pub ghost struct ImportBindingView {
    pub wasm_ty: WasmFuncTypeId,
    pub webidl_ty: WebidlTypeRef,
    pub params: Seq<OutgoingExprView>,
    pub result: Seq<IncomingExprView>,
}

/// View of an export-direction binding.
#[verifier::ext_equal]
pub ghost struct ExportBindingView {
    pub wasm_ty: WasmFuncTypeId,
    pub webidl_ty: WebidlTypeRef,
    pub params: Seq<IncomingExprView>,
    pub result: Seq<OutgoingExprView>,
}

/// View of a binding table entry payload.
#[verifier::ext_equal]
pub ghost enum FunctionBindingView {
    Import(ImportBindingView),
    Export(ExportBindingView),
}

/// View of the type table: entry sequence and name records.
#[verifier::ext_equal]
pub ghost struct TypesView {
    pub names: Seq<(Seq<char>, u32)>,
    pub entries: Seq<CompoundTypeView>,
}

/// View of the binding table: entry sequence and name records.
#[verifier::ext_equal]
pub ghost struct BindingsView {
    pub names: Seq<(Seq<char>, u32)>,
    pub entries: Seq<FunctionBindingView>,
}

/// View of a whole section.
#[verifier::ext_equal]
pub ghost struct SectionView {
    pub types: TypesView,
    pub bindings: BindingsView,
    pub binds: Seq<Bind>,
}

impl View for WebidlFunction {
    type V = FunctionView;

    open spec fn view(&self) -> FunctionView {
        FunctionView { kind: self.kind, params: self.params@, result: self.result }
    }
}

impl View for WebidlDictionaryField {
    type V = DictionaryFieldView;

    open spec fn view(&self) -> DictionaryFieldView {
        DictionaryFieldView { name: self.name@, ty: self.ty }
    }
}

impl View for WebidlDictionary {
    type V = DictionaryView;

    open spec fn view(&self) -> DictionaryView {
        DictionaryView { fields: self.fields@.map_values(|f: WebidlDictionaryField| f@) }
    }
}

impl View for WebidlEnumeration {
    type V = EnumerationView;

    open spec fn view(&self) -> EnumerationView {
        EnumerationView { values: self.values@.map_values(|s: String| s@) }
    }
}

impl View for WebidlUnion {
    type V = UnionView;

    open spec fn view(&self) -> UnionView {
        UnionView { members: self.members@ }
    }
}

impl View for WebidlCompoundType {
    type V = CompoundTypeView;

    open spec fn view(&self) -> CompoundTypeView {
        match self {
            WebidlCompoundType::Function(f) => CompoundTypeView::Function(f@),
            WebidlCompoundType::Dictionary(d) => CompoundTypeView::Dictionary(d@),
            WebidlCompoundType::Enumeration(e) => CompoundTypeView::Enumeration(e@),
            WebidlCompoundType::Union(u) => CompoundTypeView::Union(u@),
        }
    }
}

/// The view of one outgoing expression; mutually recursive with
/// [`out_expr_views`] through the sub-expression list of a `Dict` node.
pub open spec fn out_expr_view(e: OutgoingBindingExpression) -> OutgoingExprView
    decreases e,
{
    match e {
            OutgoingBindingExpression::As(e) => OutgoingExprView::As { ty: e.ty, idx: e.idx },
            OutgoingBindingExpression::Utf8Str(e) => OutgoingExprView::Utf8Str {
                ty: e.ty,
                offset: e.offset,
                length: e.length,
            },
            OutgoingBindingExpression::Utf8CStr(e) => OutgoingExprView::Utf8CStr {
                ty: e.ty,
                offset: e.offset,
            },
            OutgoingBindingExpression::I32ToEnum(e) => OutgoingExprView::I32ToEnum {
                ty: e.ty,
                idx: e.idx,
            },
            OutgoingBindingExpression::View(e) => OutgoingExprView::View {
                ty: e.ty,
                offset: e.offset,
                length: e.length,
            },
            OutgoingBindingExpression::Copy(e) => OutgoingExprView::Copy {
                ty: e.ty,
                offset: e.offset,
                length: e.length,
            },
            OutgoingBindingExpression::Dict(e) => OutgoingExprView::Dict {
                ty: e.ty,
                fields: out_expr_views(e.fields@),
            },
            OutgoingBindingExpression::BindExport(e) => OutgoingExprView::BindExport {
                ty: e.ty,
                binding: e.binding,
                idx: e.idx,
            },
    }
}

/// Views of a list of outgoing expressions, element-wise.
pub open spec fn out_expr_views(s: Seq<OutgoingBindingExpression>) -> Seq<OutgoingExprView>
    decreases s,
{
    if s.len() == 0 {
        Seq::empty()
    } else {
        seq![out_expr_view(s[0])] + out_expr_views(s.subrange(1, s.len() as int))
    }
}

impl View for OutgoingBindingExpression {
    type V = OutgoingExprView;

    open spec fn view(&self) -> OutgoingExprView {
        out_expr_view(*self)
    }
}

impl View for IncomingBindingExpression {
    type V = IncomingExprView;

    open spec fn view(&self) -> IncomingExprView
        decreases self,
    {
        match self {
            IncomingBindingExpression::Get(e) => IncomingExprView::Get { idx: e.idx },
            IncomingBindingExpression::As(e) => IncomingExprView::As {
                ty: e.ty,
                expr: Box::new((*e.expr).view()),
            },
            IncomingBindingExpression::AllocUtf8Str(e) => IncomingExprView::AllocUtf8Str {
                alloc_func_name: e.alloc_func_name@,
                expr: Box::new((*e.expr).view()),
            },
            IncomingBindingExpression::AllocCopy(e) => IncomingExprView::AllocCopy {
                alloc_func_name: e.alloc_func_name@,
                expr: Box::new((*e.expr).view()),
            },
            IncomingBindingExpression::EnumToI32(e) => IncomingExprView::EnumToI32 {
                ty: e.ty,
                expr: Box::new((*e.expr).view()),
            },
            IncomingBindingExpression::Field(e) => IncomingExprView::Field {
                idx: e.idx,
                expr: Box::new((*e.expr).view()),
            },
            IncomingBindingExpression::BindImport(e) => IncomingExprView::BindImport {
                ty: e.ty,
                binding: e.binding,
                expr: Box::new((*e.expr).view()),
            },
        }
    }
}

impl View for OutgoingBindingMap {
    type V = Seq<OutgoingExprView>;

    open spec fn view(&self) -> Seq<OutgoingExprView> {
        self.bindings@.map_values(|e: OutgoingBindingExpression| e@)
    }
}

impl View for IncomingBindingMap {
    type V = Seq<IncomingExprView>;

    open spec fn view(&self) -> Seq<IncomingExprView> {
        self.bindings@.map_values(|e: IncomingBindingExpression| e@)
    }
}

impl View for ImportBinding {
    type V = ImportBindingView;

    open spec fn view(&self) -> ImportBindingView {
        ImportBindingView {
            wasm_ty: self.wasm_ty,
            webidl_ty: self.webidl_ty,
            params: self.params@,
            result: self.result@,
        }
    }
}

impl View for ExportBinding {
    type V = ExportBindingView;

    open spec fn view(&self) -> ExportBindingView {
        ExportBindingView {
            wasm_ty: self.wasm_ty,
            webidl_ty: self.webidl_ty,
            params: self.params@,
            result: self.result@,
        }
    }
}

impl View for FunctionBinding {
    type V = FunctionBindingView;

    open spec fn view(&self) -> FunctionBindingView {
        match self {
            FunctionBinding::Import(i) => FunctionBindingView::Import(i@),
            FunctionBinding::Export(e) => FunctionBindingView::Export(e@),
        }
    }
}

impl View for WebidlTypes {
    type V = TypesView;

    open spec fn view(&self) -> TypesView {
        TypesView {
            names: names_view(self.names@),
            entries: self.entries@.map_values(|c: WebidlCompoundType| c@),
        }
    }
}

impl View for FunctionBindings {
    type V = BindingsView;

    open spec fn view(&self) -> BindingsView {
        BindingsView {
            names: names_view(self.names@),
            entries: self.entries@.map_values(|b: FunctionBinding| b@),
        }
    }
}

impl View for Binds {
    type V = Seq<Bind>;

    open spec fn view(&self) -> Seq<Bind> {
        self.entries@
    }
}

impl View for WebidlBindings {
    type V = SectionView;

    open spec fn view(&self) -> SectionView {
        SectionView { types: self.types@, bindings: self.bindings@, binds: self.binds@ }
    }
}

// ---------------------------------------------------------------------------
// Well-formedness
// ---------------------------------------------------------------------------

/// A string the wire format can carry: its UTF-8 encoding fits a 32-bit
/// length field.
pub open spec fn wf_str(s: Seq<char>) -> bool {
    encode_utf8(s).len() <= u32::MAX
}

/// A type reference either names a scalar or points below `n_types`.
pub open spec fn wf_type_ref(r: WebidlTypeRef, n_types: int) -> bool {
    match r {
        WebidlTypeRef::Id(id) => (id.0 as int) < n_types,
        WebidlTypeRef::Scalar(_) => true,
    }
}

/// Well-formed function signature: every reference resolves below
/// `n_types`, and the parameter count fits the wire format.
pub open spec fn wf_function(f: FunctionView, n_types: int) -> bool {
    &&& match f.kind {
        WebidlFunctionKind::Method(m) => wf_type_ref(m.ty, n_types),
        _ => true,
    }
    &&& forall|i: int| 0 <= i < f.params.len() ==> wf_type_ref(#[trigger] f.params[i], n_types)
    &&& match f.result {
        Some(r) => wf_type_ref(r, n_types),
        None => true,
    }
    &&& f.params.len() <= u32::MAX
}

/// Well-formed dictionary: carriable field names, resolvable field types,
/// field count in range.
pub open spec fn wf_dictionary(d: DictionaryView, n_types: int) -> bool {
    &&& forall|i: int|
        0 <= i < d.fields.len() ==> wf_str((#[trigger] d.fields[i]).name) && wf_type_ref(
            d.fields[i].ty,
            n_types,
        )
    &&& d.fields.len() <= u32::MAX
}

/// Well-formed enumeration: carriable values, count in range.
pub open spec fn wf_enumeration(e: EnumerationView) -> bool {
    &&& forall|i: int| 0 <= i < e.values.len() ==> wf_str(#[trigger] e.values[i])
    &&& e.values.len() <= u32::MAX
}

/// Well-formed union: resolvable members, count in range.
pub open spec fn wf_union(u: UnionView, n_types: int) -> bool {
    &&& forall|i: int| 0 <= i < u.members.len() ==> wf_type_ref(#[trigger] u.members[i], n_types)
    &&& u.members.len() <= u32::MAX
}

/// Well-formed type table entry: all its type references point strictly
/// before it in declaration order.
pub open spec fn wf_compound(c: CompoundTypeView, n_types: int) -> bool {
    match c {
        CompoundTypeView::Function(f) => wf_function(f, n_types),
        CompoundTypeView::Dictionary(d) => wf_dictionary(d, n_types),
        CompoundTypeView::Enumeration(e) => wf_enumeration(e),
        CompoundTypeView::Union(u) => wf_union(u, n_types),
    }
}

/// Well-formed outgoing expression: type references resolve below
/// `n_types`, binding references below `n_bindings`, and every list count
/// fits the wire format.
pub open spec fn wf_out_expr(e: OutgoingExprView, n_types: int, n_bindings: int) -> bool
    decreases e,
{
    match e {
        OutgoingExprView::As { ty, .. } => wf_type_ref(ty, n_types),
        OutgoingExprView::Utf8Str { ty, .. } => wf_type_ref(ty, n_types),
        OutgoingExprView::Utf8CStr { ty, .. } => wf_type_ref(ty, n_types),
        OutgoingExprView::I32ToEnum { ty, .. } => wf_type_ref(ty, n_types),
        OutgoingExprView::View { ty, .. } => wf_type_ref(ty, n_types),
        OutgoingExprView::Copy { ty, .. } => wf_type_ref(ty, n_types),
        OutgoingExprView::Dict { ty, fields } => {
            &&& wf_type_ref(ty, n_types)
            &&& fields.len() <= u32::MAX
            &&& forall|i: int|
                0 <= i < fields.len() ==> wf_out_expr(#[trigger] fields[i], n_types, n_bindings)
        },
        OutgoingExprView::BindExport { ty, binding, .. } => {
            &&& wf_type_ref(ty, n_types)
            &&& (binding.0 as int) < n_bindings
        },
    }
}

/// Well-formed incoming expression: as for outgoing ones, with host
/// function-type references bounded by the host module's own index space.
pub open spec fn wf_in_expr(
    e: IncomingExprView,
    n_types: int,
    n_bindings: int,
    n_host_types: int,
) -> bool
    decreases e,
{
    match e {
        IncomingExprView::Get { .. } => true,
        IncomingExprView::As { expr, .. } => wf_in_expr(*expr, n_types, n_bindings, n_host_types),
        IncomingExprView::AllocUtf8Str { alloc_func_name, expr } => {
            &&& wf_str(alloc_func_name)
            &&& wf_in_expr(*expr, n_types, n_bindings, n_host_types)
        },
        IncomingExprView::AllocCopy { alloc_func_name, expr } => {
            &&& wf_str(alloc_func_name)
            &&& wf_in_expr(*expr, n_types, n_bindings, n_host_types)
        },
        IncomingExprView::EnumToI32 { ty, expr } => {
            &&& wf_type_ref(ty, n_types)
            &&& wf_in_expr(*expr, n_types, n_bindings, n_host_types)
        },
        IncomingExprView::Field { expr, .. } => wf_in_expr(*expr, n_types, n_bindings, n_host_types),
        IncomingExprView::BindImport { ty, binding, expr } => {
            &&& (ty.0 as int) < n_host_types
            &&& (binding.0 as int) < n_bindings
            &&& wf_in_expr(*expr, n_types, n_bindings, n_host_types)
        },
    }
}

/// Well-formed binding table entry at declaration index `self_idx`: its
/// interface type references resolve in the full type table, while binding
/// references inside its expressions point strictly before it.
pub open spec fn wf_binding(
    b: FunctionBindingView,
    n_types: int,
    self_idx: int,
    n_host_types: int,
) -> bool {
    match b {
        FunctionBindingView::Import(ib) => {
            &&& (ib.wasm_ty.0 as int) < n_host_types
            &&& wf_type_ref(ib.webidl_ty, n_types)
            &&& ib.params.len() <= u32::MAX
            &&& ib.result.len() <= u32::MAX
            &&& forall|i: int|
                0 <= i < ib.params.len() ==> wf_out_expr(#[trigger] ib.params[i], n_types, self_idx)
            &&& forall|i: int|
                0 <= i < ib.result.len() ==> wf_in_expr(
                    #[trigger] ib.result[i],
                    n_types,
                    self_idx,
                    n_host_types,
                )
        },
        FunctionBindingView::Export(eb) => {
            &&& (eb.wasm_ty.0 as int) < n_host_types
            &&& wf_type_ref(eb.webidl_ty, n_types)
            &&& eb.params.len() <= u32::MAX
            &&& eb.result.len() <= u32::MAX
            &&& forall|i: int|
                0 <= i < eb.params.len() ==> wf_in_expr(
                    #[trigger] eb.params[i],
                    n_types,
                    self_idx,
                    n_host_types,
                )
            &&& forall|i: int|
                0 <= i < eb.result.len() ==> wf_out_expr(#[trigger] eb.result[i], n_types, self_idx)
        },
    }
}

/// Well-formed name records against a table of `n_entries` entries: each
/// record points at an existing entry, records are in strictly increasing
/// index order (a table entry declares at most one name, at insertion
/// time), and each name is carriable.
pub open spec fn wf_names(names: Seq<(Seq<char>, u32)>, n_entries: int) -> bool {
    &&& forall|k: int| 0 <= k < names.len() ==> ((#[trigger] names[k]).1 as int) < n_entries
    &&& forall|k1: int, k2: int|
        0 <= k1 < k2 < names.len() ==> (#[trigger] names[k1]).1 < (#[trigger] names[k2]).1
    &&& forall|k: int| 0 <= k < names.len() ==> wf_str((#[trigger] names[k]).0)
}

/// Well-formed type table.
pub open spec fn wf_types(t: TypesView) -> bool {
    &&& t.entries.len() <= u32::MAX
    &&& forall|i: int| 0 <= i < t.entries.len() ==> wf_compound(#[trigger] t.entries[i], i)
    &&& wf_names(t.names, t.entries.len() as int)
}

/// Well-formed binding table against a fully decoded type table.
pub open spec fn wf_bindings(b: BindingsView, n_types: int, n_host_types: int) -> bool {
    &&& b.entries.len() <= u32::MAX
    &&& forall|i: int|
        0 <= i < b.entries.len() ==> wf_binding(#[trigger] b.entries[i], n_types, i, n_host_types)
    &&& wf_names(b.names, b.entries.len() as int)
}

/// The slice of the host module's index spaces this section may reference,
/// supplied by the host module collaborator. This section never invents or
/// renumbers host identifiers.
#[derive(Clone, Copy, Debug, PartialEq, Eq, Structural)]
pub struct HostIndexBounds {
    pub n_func_types: u32,
    pub n_funcs: u32,
}

/// Well-formed section against a host module: the reference-ordering
/// invariant of the whole model. Binding entries reference only type table
/// entries that exist and binding entries declared strictly before them;
/// bind statements reference only existing binding entries; host handles
/// stay inside the host module's own index spaces.
pub open spec fn wf_section(s: SectionView, host: HostIndexBounds) -> bool {
    &&& wf_types(s.types)
    &&& wf_bindings(s.bindings, s.types.entries.len() as int, host.n_func_types as int)
    &&& s.binds.len() <= u32::MAX
    &&& forall|i: int|
        0 <= i < s.binds.len() ==> ((#[trigger] s.binds[i]).binding.0 as int)
            < s.bindings.entries.len()
    &&& forall|i: int| 0 <= i < s.binds.len() ==> (#[trigger] s.binds[i]).func.0 < host.n_funcs
}

/// `out_expr_views` is the element-wise view map: same length.
pub proof fn lemma_out_expr_views_len(s: Seq<OutgoingBindingExpression>)
    ensures
        out_expr_views(s).len() == s.len(),
    decreases s.len(),
{
    if s.len() > 0 {
        lemma_out_expr_views_len(s.subrange(1, s.len() as int));
    }
}

/// `out_expr_views` is the element-wise view map: index `i` holds the view
/// of element `i`.
pub proof fn lemma_out_expr_views_index(s: Seq<OutgoingBindingExpression>, i: int)
    requires
        0 <= i < s.len(),
    ensures
        out_expr_views(s).len() == s.len(),
        out_expr_views(s)[i] == out_expr_view(s[i]),
    decreases i,
{
    lemma_out_expr_views_len(s);
    if i > 0 {
        lemma_out_expr_views_index(s.subrange(1, s.len() as int), i - 1);
        assert(s.subrange(1, s.len() as int)[i - 1] == s[i]);
    } else {
        lemma_out_expr_views_len(s.subrange(1, s.len() as int));
    }
}

/// `out_expr_views` agrees with the element-wise view map.
pub proof fn lemma_out_expr_views_eq_map(s: Seq<OutgoingBindingExpression>)
    ensures
        out_expr_views(s) == s.map_values(|e: OutgoingBindingExpression| e@),
{
    lemma_out_expr_views_len(s);
    assert forall|i: int| 0 <= i < s.len() implies out_expr_views(s)[i] == out_expr_view(s[i]) by {
        lemma_out_expr_views_index(s, i);
    }
    assert(out_expr_views(s) =~= s.map_values(|e: OutgoingBindingExpression| e@));
}

// ---------------------------------------------------------------------------
// Runtime well-formedness checks
//
// The encoder's precondition, decided executably, so that a caller holding
// an arbitrary section can test it before serializing.
// ---------------------------------------------------------------------------

fn check_str(s: &str) -> (r: bool)
    ensures
        r == wf_str(s@),
{
    let bytes = s.as_bytes();
    bytes.len() as u64 <= u32::MAX as u64
}

fn check_type_ref(t: &WebidlTypeRef, n_types: u32) -> (r: bool)
    ensures
        r == wf_type_ref(*t, n_types as int),
{
    match t {
        WebidlTypeRef::Id(id) => id.0 < n_types,
        WebidlTypeRef::Scalar(_) => true,
    }
}

fn check_function(f: &WebidlFunction, n_types: u32) -> (r: bool)
    ensures
        r == wf_function(f@, n_types as int),
{
    let kind_ok = match &f.kind {
        WebidlFunctionKind::Method(m) => check_type_ref(&m.ty, n_types),
        _ => true,
    };
    if !kind_ok {
        return false;
    }
    if f.params.len() as u64 > u32::MAX as u64 {
        return false;
    }
    let mut i: usize = 0;
    while i < f.params.len()
        invariant
            i <= f.params@.len(),
            forall|k: int| 0 <= k < i ==> wf_type_ref(#[trigger] f.params@[k], n_types as int),
        decreases f.params@.len() - i,
    {
        if !check_type_ref(&f.params[i], n_types) {
            return false;
        }
        i += 1;
    }
    match &f.result {
        Some(ty) => check_type_ref(ty, n_types),
        None => true,
    }
}

fn check_dictionary(d: &WebidlDictionary, n_types: u32) -> (r: bool)
    ensures
        r == wf_dictionary(d@, n_types as int),
{
    if d.fields.len() as u64 > u32::MAX as u64 {
        return false;
    }
    let mut i: usize = 0;
    while i < d.fields.len()
        invariant
            i <= d.fields@.len(),
            forall|k: int|
                0 <= k < i ==> wf_str((#[trigger] d@.fields[k]).name) && wf_type_ref(
                    d@.fields[k].ty,
                    n_types as int,
                ),
        decreases d.fields@.len() - i,
    {
        proof {
            assert(d@.fields[i as int] == d.fields@[i as int]@);
        }
        if !check_str(d.fields[i].name.as_str()) || !check_type_ref(&d.fields[i].ty, n_types) {
            return false;
        }
        i += 1;
    }
    true
}

fn check_enumeration(e: &WebidlEnumeration) -> (r: bool)
    ensures
        r == wf_enumeration(e@),
{
    if e.values.len() as u64 > u32::MAX as u64 {
        return false;
    }
    let mut i: usize = 0;
    while i < e.values.len()
        invariant
            i <= e.values@.len(),
            forall|k: int| 0 <= k < i ==> wf_str(#[trigger] e@.values[k]),
        decreases e.values@.len() - i,
    {
        proof {
            assert(e@.values[i as int] == e.values@[i as int]@);
        }
        if !check_str(e.values[i].as_str()) {
            return false;
        }
        i += 1;
    }
    true
}

fn check_union(u: &WebidlUnion, n_types: u32) -> (r: bool)
    ensures
        r == wf_union(u@, n_types as int),
{
    if u.members.len() as u64 > u32::MAX as u64 {
        return false;
    }
    let mut i: usize = 0;
    while i < u.members.len()
        invariant
            i <= u.members@.len(),
            forall|k: int| 0 <= k < i ==> wf_type_ref(#[trigger] u.members@[k], n_types as int),
        decreases u.members@.len() - i,
    {
        if !check_type_ref(&u.members[i], n_types) {
            return false;
        }
        i += 1;
    }
    true
}

fn check_compound(c: &WebidlCompoundType, n_types: u32) -> (r: bool)
    ensures
        r == wf_compound(c@, n_types as int),
{
    match c {
        WebidlCompoundType::Function(f) => check_function(f, n_types),
        WebidlCompoundType::Dictionary(d) => check_dictionary(d, n_types),
        WebidlCompoundType::Enumeration(e) => check_enumeration(e),
        WebidlCompoundType::Union(u) => check_union(u, n_types),
    }
}

#[verifier::rlimit(100)]
#[verifier::spinoff_prover]
fn check_out_expr(e: &OutgoingBindingExpression, n_types: u32, n_bindings: u32) -> (r: bool)
    ensures
        r == wf_out_expr(e@, n_types as int, n_bindings as int),
    decreases *e,
{
    match e {
        OutgoingBindingExpression::As(x) => check_type_ref(&x.ty, n_types),
        OutgoingBindingExpression::Utf8Str(x) => check_type_ref(&x.ty, n_types),
        OutgoingBindingExpression::Utf8CStr(x) => check_type_ref(&x.ty, n_types),
        OutgoingBindingExpression::I32ToEnum(x) => check_type_ref(&x.ty, n_types),
        OutgoingBindingExpression::View(x) => check_type_ref(&x.ty, n_types),
        OutgoingBindingExpression::Copy(x) => check_type_ref(&x.ty, n_types),
        OutgoingBindingExpression::Dict(x) => {
            let ghost views = out_expr_views(x.fields@);
            proof {
                lemma_out_expr_views_len(x.fields@);
            }
            if !check_type_ref(&x.ty, n_types) {
                return false;
            }
            if x.fields.len() as u64 > u32::MAX as u64 {
                return false;
            }
            let mut i: usize = 0;
            while i < x.fields.len()
                invariant
                    i <= x.fields@.len(),
                    *e == OutgoingBindingExpression::Dict(*x),
                    views == out_expr_views(x.fields@),
                    views.len() == x.fields@.len(),
                    forall|k: int|
                        0 <= k < i ==> wf_out_expr(
                            #[trigger] views[k],
                            n_types as int,
                            n_bindings as int,
                        ),
                decreases x.fields@.len() - i,
            {
                proof {
                    lemma_out_expr_views_index(x.fields@, i as int);
                    let ghost ev = *e;
                    assert(decreases_to!(ev => ev->Dict_0));
                    assert(ev->Dict_0 == *x);
                    assert(decreases_to!(*x => x.fields));
                    assert(decreases_to!(x.fields => x.fields@));
                    assert(decreases_to!(x.fields@ => x.fields@[i as int]));
                }
                if !check_out_expr(&x.fields[i], n_types, n_bindings) {
                    proof {
                        assert(!wf_out_expr(views[i as int], n_types as int, n_bindings as int));
                    }
                    return false;
                }
                i += 1;
            }
            true
        },
        OutgoingBindingExpression::BindExport(x) => check_type_ref(&x.ty, n_types)
            && x.binding.0 < n_bindings,
    }
}

fn check_in_expr(
    e: &IncomingBindingExpression,
    n_types: u32,
    n_bindings: u32,
    n_host_types: u32,
) -> (r: bool)
    ensures
        r == wf_in_expr(e@, n_types as int, n_bindings as int, n_host_types as int),
    decreases *e,
{
    match e {
        IncomingBindingExpression::Get(_) => true,
        IncomingBindingExpression::As(x) => check_in_expr(
            &x.expr,
            n_types,
            n_bindings,
            n_host_types,
        ),
        IncomingBindingExpression::AllocUtf8Str(x) => check_str(x.alloc_func_name.as_str())
            && check_in_expr(&x.expr, n_types, n_bindings, n_host_types),
        IncomingBindingExpression::AllocCopy(x) => check_str(x.alloc_func_name.as_str())
            && check_in_expr(&x.expr, n_types, n_bindings, n_host_types),
        IncomingBindingExpression::EnumToI32(x) => check_type_ref(&x.ty, n_types) && check_in_expr(
            &x.expr,
            n_types,
            n_bindings,
            n_host_types,
        ),
        IncomingBindingExpression::Field(x) => check_in_expr(
            &x.expr,
            n_types,
            n_bindings,
            n_host_types,
        ),
        IncomingBindingExpression::BindImport(x) => x.ty.0 < n_host_types && x.binding.0
            < n_bindings && check_in_expr(&x.expr, n_types, n_bindings, n_host_types),
    }
}

fn check_out_map(m: &Vec<OutgoingBindingExpression>, n_types: u32, n_bindings: u32) -> (r: bool)
    ensures
        r == (m@.len() <= u32::MAX && forall|k: int|
            0 <= k < m@.len() ==> wf_out_expr(
                out_expr_view(#[trigger] m@[k]),
                n_types as int,
                n_bindings as int,
            )),
{
    if m.len() as u64 > u32::MAX as u64 {
        return false;
    }
    let mut i: usize = 0;
    while i < m.len()
        invariant
            i <= m@.len(),
            forall|k: int|
                0 <= k < i ==> wf_out_expr(
                    out_expr_view(#[trigger] m@[k]),
                    n_types as int,
                    n_bindings as int,
                ),
        decreases m@.len() - i,
    {
        if !check_out_expr(&m[i], n_types, n_bindings) {
            return false;
        }
        i += 1;
    }
    true
}

fn check_in_map(
    m: &Vec<IncomingBindingExpression>,
    n_types: u32,
    n_bindings: u32,
    n_host_types: u32,
) -> (r: bool)
    ensures
        r == (m@.len() <= u32::MAX && forall|k: int|
            0 <= k < m@.len() ==> wf_in_expr(
                (#[trigger] m@[k])@,
                n_types as int,
                n_bindings as int,
                n_host_types as int,
            )),
{
    if m.len() as u64 > u32::MAX as u64 {
        return false;
    }
    let mut i: usize = 0;
    while i < m.len()
        invariant
            i <= m@.len(),
            forall|k: int|
                0 <= k < i ==> wf_in_expr(
                    (#[trigger] m@[k])@,
                    n_types as int,
                    n_bindings as int,
                    n_host_types as int,
                ),
        decreases m@.len() - i,
    {
        if !check_in_expr(&m[i], n_types, n_bindings, n_host_types) {
            return false;
        }
        i += 1;
    }
    true
}

#[verifier::rlimit(100)]
#[verifier::spinoff_prover]
fn check_binding(b: &FunctionBinding, n_types: u32, self_idx: u32, n_host_types: u32) -> (r: bool)
    ensures
        r == wf_binding(b@, n_types as int, self_idx as int, n_host_types as int),
{
    match b {
        FunctionBinding::Import(ib) => {
            proof {
                lemma_out_expr_views_eq_map(ib.params.bindings@);
                assert forall|k: int|
                    0 <= k < ib@.params.len() implies (#[trigger] ib@.params[k]) == out_expr_view(
                    ib.params.bindings@[k],
                ) by {}
                assert forall|k: int|
                    0 <= k < ib@.result.len() implies (#[trigger] ib@.result[k])
                    == ib.result.bindings@[k]@ by {}
            }
            if ib.wasm_ty.0 >= n_host_types {
                return false;
            }
            if !check_type_ref(&ib.webidl_ty, n_types) {
                return false;
            }
            if !check_out_map(&ib.params.bindings, n_types, self_idx) {
                proof {
                    let m = ib.params.bindings@;
                    if m.len() <= u32::MAX {
                        let k0 = choose|k: int|
                            0 <= k < m.len() && !wf_out_expr(
                                out_expr_view(m[k]),
                                n_types as int,
                                self_idx as int,
                            );
                        assert(ib@.params[k0] == out_expr_view(m[k0]));
                    }
                }
                return false;
            }
            if !check_in_map(&ib.result.bindings, n_types, self_idx, n_host_types) {
                proof {
                    let m = ib.result.bindings@;
                    if m.len() <= u32::MAX {
                        let k0 = choose|k: int|
                            0 <= k < m.len() && !wf_in_expr(
                                m[k]@,
                                n_types as int,
                                self_idx as int,
                                n_host_types as int,
                            );
                        assert(ib@.result[k0] == m[k0]@);
                    }
                }
                return false;
            }
            true
        },
        FunctionBinding::Export(eb) => {
            proof {
                lemma_out_expr_views_eq_map(eb.result.bindings@);
                assert forall|k: int|
                    0 <= k < eb@.result.len() implies (#[trigger] eb@.result[k]) == out_expr_view(
                    eb.result.bindings@[k],
                ) by {}
                assert forall|k: int|
                    0 <= k < eb@.params.len() implies (#[trigger] eb@.params[k])
                    == eb.params.bindings@[k]@ by {}
            }
            if eb.wasm_ty.0 >= n_host_types {
                return false;
            }
            if !check_type_ref(&eb.webidl_ty, n_types) {
                return false;
            }
            if !check_in_map(&eb.params.bindings, n_types, self_idx, n_host_types) {
                proof {
                    let m = eb.params.bindings@;
                    if m.len() <= u32::MAX {
                        let k0 = choose|k: int|
                            0 <= k < m.len() && !wf_in_expr(
                                m[k]@,
                                n_types as int,
                                self_idx as int,
                                n_host_types as int,
                            );
                        assert(eb@.params[k0] == m[k0]@);
                    }
                }
                return false;
            }
            if !check_out_map(&eb.result.bindings, n_types, self_idx) {
                proof {
                    let m = eb.result.bindings@;
                    if m.len() <= u32::MAX {
                        let k0 = choose|k: int|
                            0 <= k < m.len() && !wf_out_expr(
                                out_expr_view(m[k]),
                                n_types as int,
                                self_idx as int,
                            );
                        assert(eb@.result[k0] == out_expr_view(m[k0]));
                    }
                }
                return false;
            }
            true
        },
    }
}

fn check_names(names: &Vec<(String, u32)>, n_entries: u32) -> (r: bool)
    ensures
        r == wf_names(names_view(names@), n_entries as int),
{
    let ghost nv = names_view(names@);
    let mut i: usize = 0;
    while i < names.len()
        invariant
            i <= names@.len(),
            nv == names_view(names@),
            forall|k: int| 0 <= k < i ==> ((#[trigger] nv[k]).1 as int) < n_entries,
            forall|k1: int, k2: int| 0 <= k1 < k2 < i ==> (#[trigger] nv[k1]).1 < (#[trigger] nv[k2]).1,
            forall|k: int| 0 <= k < i ==> wf_str((#[trigger] nv[k]).0),
        decreases names@.len() - i,
    {
        proof {
            assert(nv[i as int] == (names@[i as int].0@, names@[i as int].1));
        }
        if names[i].1 >= n_entries {
            return false;
        }
        if i > 0 && names[i - 1].1 >= names[i].1 {
            proof {
                assert(nv[i - 1 as int].1 >= nv[i as int].1);
            }
            return false;
        }
        if !check_str(names[i].0.as_str()) {
            return false;
        }
        proof {
            if i > 0 {
                assert forall|k1: int, k2: int| 0 <= k1 < k2 < i + 1 implies (#[trigger] nv[k1]).1
                    < (#[trigger] nv[k2]).1 by {
                    if k2 == i && k1 < i - 1 {
                        assert(nv[k1].1 < nv[i - 1 as int].1);
                    }
                }
            }
        }
        i += 1;
    }
    true
}

/// Decide the encoder's precondition: whether `section` is well-formed
/// against the host module's index bounds.
pub fn is_well_formed(section: &WebidlBindings, host: &HostIndexBounds) -> (r: bool)
    ensures
        r == wf_section(section@, *host),
{
    if section.types.entries.len() as u64 > u32::MAX as u64 {
        return false;
    }
    let n_types: u32 = section.types.entries.len() as u32;
    let mut i: usize = 0;
    while i < section.types.entries.len()
        invariant
            i <= section.types.entries@.len(),
            section.types.entries@.len() == n_types,
            forall|k: int|
                0 <= k < i ==> wf_compound(#[trigger] section.types@.entries[k], k),
        decreases section.types.entries@.len() - i,
    {
        proof {
            assert(section.types@.entries[i as int] == (section.types.entries@[i as int])@);
        }
        if !check_compound(&section.types.entries[i], i as u32) {
            return false;
        }
        i += 1;
    }
    if !check_names(&section.types.names, n_types) {
        return false;
    }
    if section.bindings.entries.len() as u64 > u32::MAX as u64 {
        return false;
    }
    let n_bindings: u32 = section.bindings.entries.len() as u32;
    let mut j: usize = 0;
    while j < section.bindings.entries.len()
        invariant
            j <= section.bindings.entries@.len(),
            section.bindings.entries@.len() == n_bindings,
            section.types.entries@.len() == n_types,
            forall|k: int|
                0 <= k < j ==> wf_binding(
                    #[trigger] section.bindings@.entries[k],
                    n_types as int,
                    k,
                    host.n_func_types as int,
                ),
        decreases section.bindings.entries@.len() - j,
    {
        proof {
            assert(section.bindings@.entries[j as int] == (section.bindings.entries@[j as int])@);
        }
        if !check_binding(&section.bindings.entries[j], n_types, j as u32, host.n_func_types) {
            return false;
        }
        j += 1;
    }
    if !check_names(&section.bindings.names, n_bindings) {
        return false;
    }
    if section.binds.entries.len() as u64 > u32::MAX as u64 {
        return false;
    }
    let mut k: usize = 0;
    while k < section.binds.entries.len()
        invariant
            k <= section.binds.entries@.len(),
            section.bindings.entries@.len() == n_bindings,
            forall|m: int|
                0 <= m < k ==> ((#[trigger] section.binds.entries@[m]).binding.0 as int)
                    < n_bindings,
            forall|m: int|
                0 <= m < k ==> (#[trigger] section.binds.entries@[m]).func.0 < host.n_funcs,
        decreases section.binds.entries@.len() - k,
    {
        if section.binds.entries[k].binding.0 >= n_bindings {
            return false;
        }
        if section.binds.entries[k].func.0 >= host.n_funcs {
            return false;
        }
        k += 1;
    }
    true
}

} // verus!
