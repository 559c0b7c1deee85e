//! The in-memory data model: scalar and compound interface types, function
//! bindings with their expression trees, bind statements, and the three
//! append-only registries that own them.

use vstd::prelude::*;

verus! {

// ---------------------------------------------------------------------------
// Identifiers
//
// Every table entry is addressed by a stable identifier: a newtype over the
// 0-based declaration index. Identifiers are never recycled, because the
// tables are append-only.
// ---------------------------------------------------------------------------

/// Identifier of a compound type entry in the type table.
#[derive(Clone, Copy, Debug, PartialEq, Eq, Hash, Structural)]
pub struct CompoundTypeId(pub u32);

/// Identifier of a function binding entry in the binding table.
#[derive(Clone, Copy, Debug, PartialEq, Eq, Hash, Structural)]
pub struct BindingId(pub u32);

/// Identifier of a bind statement in the bind table.
#[derive(Clone, Copy, Debug, PartialEq, Eq, Hash, Structural)]
pub struct BindId(pub u32);

/// Typed identifier that only resolves to a `Function` type table entry.
#[derive(Clone, Copy, Debug, PartialEq, Eq, Hash, Structural)]
pub struct WebidlFunctionId(pub CompoundTypeId);

/// Typed identifier that only resolves to a `Dictionary` type table entry.
#[derive(Clone, Copy, Debug, PartialEq, Eq, Hash, Structural)]
pub struct WebidlDictionaryId(pub CompoundTypeId);

/// Typed identifier that only resolves to an `Enumeration` type table entry.
#[derive(Clone, Copy, Debug, PartialEq, Eq, Hash, Structural)]
pub struct WebidlEnumerationId(pub CompoundTypeId);

/// Typed identifier that only resolves to a `Union` type table entry.
#[derive(Clone, Copy, Debug, PartialEq, Eq, Hash, Structural)]
pub struct WebidlUnionId(pub CompoundTypeId);

/// Typed identifier that only resolves to an `Import` binding table entry.
#[derive(Clone, Copy, Debug, PartialEq, Eq, Hash, Structural)]
pub struct ImportBindingId(pub BindingId);

/// Typed identifier that only resolves to an `Export` binding table entry.
#[derive(Clone, Copy, Debug, PartialEq, Eq, Hash, Structural)]
pub struct ExportBindingId(pub BindingId);

// ---------------------------------------------------------------------------
// Host module handles
//
// The host module owns its own function and function-type index spaces; this
// model holds already-resolved handles as raw module-space indices and never
// renumbers them.
// ---------------------------------------------------------------------------

/// Handle to a function type of the host module, as a module-space index.
#[derive(Clone, Copy, Debug, PartialEq, Eq, Hash, Structural)]
pub struct WasmFuncTypeId(pub u32);

/// Handle to a function of the host module, as a module-space index.
#[derive(Clone, Copy, Debug, PartialEq, Eq, Hash, Structural)]
pub struct WasmFuncId(pub u32);

/// A value type of the host module's native call convention.
#[derive(Clone, Copy, Debug, PartialEq, Eq, Hash, Structural)]
pub enum WasmValType {
    I32,
    I64,
    F32,
    F64,
    V128,
    Anyref,
}

// ---------------------------------------------------------------------------
// Type references
// ---------------------------------------------------------------------------

/// A scalar interface type: a primitive from a fixed closed set, requiring no
/// type table entry.
#[derive(Clone, Copy, Debug, PartialEq, Eq, Hash, Structural)]
pub enum WebidlScalarType {
    Any,
    Boolean,
    Byte,
    Octet,
    Long,
    UnsignedLong,
    Short,
    UnsignedShort,
    LongLong,
    UnsignedLongLong,
    Float,
    UnrestrictedFloat,
    Double,
    UnrestrictedDouble,
    DomString,
    ByteString,
    UsvString,
    Object,
    Symbol,
    ArrayBuffer,
    DataView,
    Int8Array,
    Int16Array,
    Int32Array,
    Uint8Array,
    Uint16Array,
    Uint32Array,
    Uint8ClampedArray,
    Float32Array,
    Float64Array,
}

/// A reference to an interface type: either an identifier into the type
/// table, or a scalar primitive. This is a sum, not a subtype relationship.
#[derive(Clone, Copy, Debug, PartialEq, Eq, Hash, Structural)]
pub enum WebidlTypeRef {
    Id(CompoundTypeId),
    Scalar(WebidlScalarType),
}

// ---------------------------------------------------------------------------
// Compound types (type table entry payloads)
// ---------------------------------------------------------------------------

/// A type table entry together with its optional declared name.
#[derive(Clone, Debug, PartialEq, Eq)]
pub struct WebidlType {
    pub name: Option<String>,
    pub ty: WebidlCompoundType,
}

/// A non-scalar interface type description.
#[derive(Clone, Debug, PartialEq, Eq)]
pub enum WebidlCompoundType {
    Function(WebidlFunction),
    Dictionary(WebidlDictionary),
    Enumeration(WebidlEnumeration),
    Union(WebidlUnion),
}

/// An interface function signature: a call kind, ordered parameter type
/// references, and an optional result type reference.
#[derive(Clone, Debug, PartialEq, Eq)]
pub struct WebidlFunction {
    pub kind: WebidlFunctionKind,
    pub params: Vec<WebidlTypeRef>,
    pub result: Option<WebidlTypeRef>,
}

/// How an interface function is invoked.
#[derive(Clone, Copy, Debug, PartialEq, Eq, Structural)]
pub enum WebidlFunctionKind {
    Static,
    Method(WebidlFunctionKindMethod),
    Constructor,
}

/// The receiver type of a method-kind interface function.
#[derive(Clone, Copy, Debug, PartialEq, Eq, Structural)]
pub struct WebidlFunctionKindMethod {
    pub ty: WebidlTypeRef,
}

/// An ordered sequence of named dictionary fields.
#[derive(Clone, Debug, PartialEq, Eq)]
pub struct WebidlDictionary {
    pub fields: Vec<WebidlDictionaryField>,
}

/// One dictionary field: a name and a type reference.
#[derive(Clone, Debug, PartialEq, Eq)]
pub struct WebidlDictionaryField {
    pub name: String,
    pub ty: WebidlTypeRef,
}

/// An ordered sequence of string values.
#[derive(Clone, Debug, PartialEq, Eq)]
pub struct WebidlEnumeration {
    pub values: Vec<String>,
}

/// An ordered sequence of member type references.
#[derive(Clone, Debug, PartialEq, Eq)]
pub struct WebidlUnion {
    pub members: Vec<WebidlTypeRef>,
}

// ---------------------------------------------------------------------------
// Function bindings (binding table entry payloads)
// ---------------------------------------------------------------------------

/// A marshaling recipe for one function, in the import or export direction.
/// The direction is fixed at construction.
#[derive(Debug, PartialEq, Eq)]
pub enum FunctionBinding {
    Import(ImportBinding),
    Export(ExportBinding),
}

/// An import-direction binding: produce native call values from interface
/// arguments, consume native results back into an interface value.
#[derive(Debug, PartialEq, Eq)]
pub struct ImportBinding {
    pub wasm_ty: WasmFuncTypeId,
    pub webidl_ty: WebidlTypeRef,
    pub params: OutgoingBindingMap,
    pub result: IncomingBindingMap,
}

/// An export-direction binding: the mirror of an import binding.
#[derive(Debug, PartialEq, Eq)]
pub struct ExportBinding {
    pub wasm_ty: WasmFuncTypeId,
    pub webidl_ty: WebidlTypeRef,
    pub params: IncomingBindingMap,
    pub result: OutgoingBindingMap,
}

/// The association of one host-module function with one binding recipe.
#[derive(Clone, Copy, Debug, PartialEq, Eq, Structural)]
pub struct Bind {
    pub func: WasmFuncId,
    pub binding: BindingId,
}

/// An ordered list of outgoing expressions, one per produced value slot.
#[derive(Debug, PartialEq, Eq)]
pub struct OutgoingBindingMap {
    pub bindings: Vec<OutgoingBindingExpression>,
}

/// An ordered list of incoming expressions, one per consumed value slot.
#[derive(Debug, PartialEq, Eq)]
pub struct IncomingBindingMap {
    pub bindings: Vec<IncomingBindingExpression>,
}

// ---------------------------------------------------------------------------
// Expression trees
//
// Both families are strict trees: every non-leaf node owns its children
// exclusively, so the trees are acyclic and unshared by construction.
// ---------------------------------------------------------------------------

/// A recipe step producing native call values from source values.
#[derive(Debug, PartialEq, Eq)]
pub enum OutgoingBindingExpression {
    As(OutgoingBindingExpressionAs),
    Utf8Str(OutgoingBindingExpressionUtf8Str),
    Utf8CStr(OutgoingBindingExpressionUtf8CStr),
    I32ToEnum(OutgoingBindingExpressionI32ToEnum),
    View(OutgoingBindingExpressionView),
    Copy(OutgoingBindingExpressionCopy),
    Dict(OutgoingBindingExpressionDict),
    BindExport(OutgoingBindingExpressionBindExport),
}

/// Reinterpret one native argument slot under a type reference.
#[derive(Clone, Copy, Debug, PartialEq, Eq, Structural)]
pub struct OutgoingBindingExpressionAs {
    pub ty: WebidlTypeRef,
    pub idx: u32,
}

/// Read a string of a known length from linear memory.
#[derive(Clone, Copy, Debug, PartialEq, Eq, Structural)]
pub struct OutgoingBindingExpressionUtf8Str {
    pub ty: WebidlTypeRef,
    pub offset: u32,
    pub length: u32,
}

/// Read a NUL-terminated string from linear memory.
#[derive(Clone, Copy, Debug, PartialEq, Eq, Structural)]
pub struct OutgoingBindingExpressionUtf8CStr {
    pub ty: WebidlTypeRef,
    pub offset: u32,
}

/// Map an integer argument to an enumeration value by index.
#[derive(Clone, Copy, Debug, PartialEq, Eq, Structural)]
pub struct OutgoingBindingExpressionI32ToEnum {
    pub ty: WebidlTypeRef,
    pub idx: u32,
}

/// Expose a memory range as a typed view without copying.
#[derive(Clone, Copy, Debug, PartialEq, Eq, Structural)]
pub struct OutgoingBindingExpressionView {
    pub ty: WebidlTypeRef,
    pub offset: u32,
    pub length: u32,
}

/// Copy a memory range out as a typed buffer.
#[derive(Clone, Copy, Debug, PartialEq, Eq, Structural)]
pub struct OutgoingBindingExpressionCopy {
    pub ty: WebidlTypeRef,
    pub offset: u32,
    pub length: u32,
}

/// Build a struct-like value from an ordered list of sub-expressions, one per
/// declared field of the referenced dictionary type.
#[derive(Debug, PartialEq, Eq)]
pub struct OutgoingBindingExpressionDict {
    pub ty: WebidlTypeRef,
    pub fields: Vec<OutgoingBindingExpression>,
}

/// Produce a callable value by pairing a binding table entry with a slot
/// index.
#[derive(Clone, Copy, Debug, PartialEq, Eq, Structural)]
pub struct OutgoingBindingExpressionBindExport {
    pub ty: WebidlTypeRef,
    pub binding: BindingId,
    pub idx: u32,
}

/// A recipe step consuming native values to construct an interface-level
/// value.
#[derive(Debug, PartialEq, Eq)]
pub enum IncomingBindingExpression {
    Get(IncomingBindingExpressionGet),
    As(IncomingBindingExpressionAs),
    AllocUtf8Str(IncomingBindingExpressionAllocUtf8Str),
    AllocCopy(IncomingBindingExpressionAllocCopy),
    EnumToI32(IncomingBindingExpressionEnumToI32),
    Field(IncomingBindingExpressionField),
    BindImport(IncomingBindingExpressionBindImport),
}

/// Read one slot of the incoming argument list: the tree's leaf.
#[derive(Clone, Copy, Debug, PartialEq, Eq, Structural)]
pub struct IncomingBindingExpressionGet {
    pub idx: u32,
}

/// Coerce a sub-expression to a native value type.
#[derive(Debug, PartialEq, Eq)]
pub struct IncomingBindingExpressionAs {
    pub ty: WasmValType,
    pub expr: Box<IncomingBindingExpression>,
}

/// Invoke a named allocator function and write a string into memory.
#[derive(Debug, PartialEq, Eq)]
pub struct IncomingBindingExpressionAllocUtf8Str {
    pub alloc_func_name: String,
    pub expr: Box<IncomingBindingExpression>,
}

/// Invoke a named allocator function and write a buffer into memory.
#[derive(Debug, PartialEq, Eq)]
pub struct IncomingBindingExpressionAllocCopy {
    pub alloc_func_name: String,
    pub expr: Box<IncomingBindingExpression>,
}

/// Map an enumeration member to its integer index.
#[derive(Debug, PartialEq, Eq)]
pub struct IncomingBindingExpressionEnumToI32 {
    pub ty: WebidlTypeRef,
    pub expr: Box<IncomingBindingExpression>,
}

/// Project a field out of a sub-expression's dictionary-shaped value.
#[derive(Debug, PartialEq, Eq)]
pub struct IncomingBindingExpressionField {
    pub idx: u32,
    pub expr: Box<IncomingBindingExpression>,
}

/// Produce a native value by pairing a host function type with a binding
/// table entry and a sub-expression.
#[derive(Debug, PartialEq, Eq)]
pub struct IncomingBindingExpressionBindImport {
    pub ty: WasmFuncTypeId,
    pub binding: BindingId,
    pub expr: Box<IncomingBindingExpression>,
}

// ---------------------------------------------------------------------------
// Name lookup
//
// A registry keeps two parallel lookup structures: the entry sequence
// (declaration order, immutable once assigned) and a name table of
// (name, index) records in recording order. A name lookup resolves to the
// most recently recorded index: the last writer wins, and shadowed entries
// stay reachable by index.
// ---------------------------------------------------------------------------

/// The name table as a mathematical sequence of (name, index) records.
pub open spec fn names_view(names: Seq<(String, u32)>) -> Seq<(Seq<char>, u32)> {
    names.map_values(|p: (String, u32)| (p.0@, p.1))
}

/// Resolution of `name` against the records, scanning from the latest
/// record back: the last writer wins.
pub open spec fn lookup_name(names: Seq<(Seq<char>, u32)>, name: Seq<char>) -> Option<u32>
    decreases names.len(),
{
    if names.len() == 0 {
        None
    } else if names.last().0 == name {
        Some(names.last().1)
    } else {
        lookup_name(names.drop_last(), name)
    }
}

/// Recording a name for index `j` makes that name resolve to `j`, whatever
/// was recorded for it before; every other name resolves as before; the
/// entry sequence, and with it every index lookup, is untouched by name
/// records. An entry whose name is shadowed therefore stays reachable by
/// index.
pub proof fn lemma_name_shadowing(
    names: Seq<(Seq<char>, u32)>,
    name: Seq<char>,
    j: u32,
    other: Seq<char>,
)
    ensures
        lookup_name(names.push((name, j)), name) == Some(j),
        other != name ==> lookup_name(names.push((name, j)), other) == lookup_name(names, other),
{
    assert(names.push((name, j)).last() == (name, j));
    assert(names.push((name, j)).drop_last() =~= names);
}

/// Character-wise string comparison: `true` exactly when the two views are
/// the same character sequence.
pub fn str_eq(a: &str, b: &str) -> (r: bool)
    ensures
        r == (a@ == b@),
{
    let a_len = a.unicode_len();
    let b_len = b.unicode_len();
    if a_len != b_len {
        return false;
    }
    let mut i: usize = 0;
    while i < a_len
        invariant
            i <= a_len,
            a_len == a@.len(),
            b_len == b@.len(),
            a_len == b_len,
            forall|k: int| 0 <= k < i ==> a@[k] == b@[k],
        decreases a_len - i,
    {
        if a.get_char(i) != b.get_char(i) {
            return false;
        }
        i += 1;
    }
    proof {
        assert(a@ =~= b@);
    }
    true
}

// ---------------------------------------------------------------------------
// Capability-typed identifiers
//
// The four compound type payloads and the two binding payloads share one
// underlying store each. A typed identifier statically restricts which
// payload variant it can fetch: resolving through the wrong view fails
// softly with an absence, never a hard error.
// ---------------------------------------------------------------------------

/// A payload variant of the type table, with its variant-restricted
/// identifier type.
pub trait WebidlTypeId: Sized {
    type Id: Copy;

    /// The typed identifier wrapping a raw type table identifier.
    spec fn wrap_spec(id: CompoundTypeId) -> Self::Id;

    /// The raw type table identifier under the typed one.
    spec fn id_spec(id: Self::Id) -> CompoundTypeId;

    /// The payload, if the entry holds this variant.
    spec fn project_spec(ty: WebidlCompoundType) -> Option<Self>;

    /// The entry holding this payload.
    spec fn inject_spec(self) -> WebidlCompoundType;

    proof fn lemma_wrap_id(id: CompoundTypeId)
        ensures
            Self::id_spec(Self::wrap_spec(id)) == id,
    ;

    proof fn lemma_project_inject(self)
        ensures
            Self::project_spec(self.inject_spec()) == Some(self),
    ;

    fn wrap(id: CompoundTypeId) -> (r: Self::Id)
        ensures
            r == Self::wrap_spec(id),
    ;

    fn unwrap_id(id: Self::Id) -> (r: CompoundTypeId)
        ensures
            r == Self::id_spec(id),
    ;

    fn get(ty: &WebidlCompoundType) -> (r: Option<&Self>)
        ensures
            match r {
                Some(v) => Self::project_spec(*ty) == Some(*v),
                None => Self::project_spec(*ty) is None,
            },
    ;

    fn into_compound(self) -> (r: WebidlCompoundType)
        ensures
            r == self.inject_spec(),
    ;
}

impl WebidlTypeId for WebidlFunction {
    type Id = WebidlFunctionId;

    open spec fn wrap_spec(id: CompoundTypeId) -> WebidlFunctionId {
        WebidlFunctionId(id)
    }

    open spec fn id_spec(id: WebidlFunctionId) -> CompoundTypeId {
        id.0
    }

    open spec fn project_spec(ty: WebidlCompoundType) -> Option<WebidlFunction> {
        match ty {
            WebidlCompoundType::Function(f) => Some(f),
            _ => None,
        }
    }

    open spec fn inject_spec(self) -> WebidlCompoundType {
        WebidlCompoundType::Function(self)
    }

    proof fn lemma_wrap_id(id: CompoundTypeId) {
    }

    proof fn lemma_project_inject(self) {
    }

    fn wrap(id: CompoundTypeId) -> WebidlFunctionId {
        WebidlFunctionId(id)
    }

    fn unwrap_id(id: WebidlFunctionId) -> CompoundTypeId {
        id.0
    }

    fn get(ty: &WebidlCompoundType) -> (r: Option<&WebidlFunction>) {
        match ty {
            WebidlCompoundType::Function(f) => Some(f),
            _ => None,
        }
    }

    fn into_compound(self) -> WebidlCompoundType {
        WebidlCompoundType::Function(self)
    }
}

impl WebidlTypeId for WebidlDictionary {
    type Id = WebidlDictionaryId;

    open spec fn wrap_spec(id: CompoundTypeId) -> WebidlDictionaryId {
        WebidlDictionaryId(id)
    }

    open spec fn id_spec(id: WebidlDictionaryId) -> CompoundTypeId {
        id.0
    }

    open spec fn project_spec(ty: WebidlCompoundType) -> Option<WebidlDictionary> {
        match ty {
            WebidlCompoundType::Dictionary(d) => Some(d),
            _ => None,
        }
    }

    open spec fn inject_spec(self) -> WebidlCompoundType {
        WebidlCompoundType::Dictionary(self)
    }

    proof fn lemma_wrap_id(id: CompoundTypeId) {
    }

    proof fn lemma_project_inject(self) {
    }

    fn wrap(id: CompoundTypeId) -> WebidlDictionaryId {
        WebidlDictionaryId(id)
    }

    fn unwrap_id(id: WebidlDictionaryId) -> CompoundTypeId {
        id.0
    }

    fn get(ty: &WebidlCompoundType) -> (r: Option<&WebidlDictionary>) {
        match ty {
            WebidlCompoundType::Dictionary(d) => Some(d),
            _ => None,
        }
    }

    fn into_compound(self) -> WebidlCompoundType {
        WebidlCompoundType::Dictionary(self)
    }
}

impl WebidlTypeId for WebidlEnumeration {
    type Id = WebidlEnumerationId;

    open spec fn wrap_spec(id: CompoundTypeId) -> WebidlEnumerationId {
        WebidlEnumerationId(id)
    }

    open spec fn id_spec(id: WebidlEnumerationId) -> CompoundTypeId {
        id.0
    }

    open spec fn project_spec(ty: WebidlCompoundType) -> Option<WebidlEnumeration> {
        match ty {
            WebidlCompoundType::Enumeration(e) => Some(e),
            _ => None,
        }
    }

    open spec fn inject_spec(self) -> WebidlCompoundType {
        WebidlCompoundType::Enumeration(self)
    }

    proof fn lemma_wrap_id(id: CompoundTypeId) {
    }

    proof fn lemma_project_inject(self) {
    }

    fn wrap(id: CompoundTypeId) -> WebidlEnumerationId {
        WebidlEnumerationId(id)
    }

    fn unwrap_id(id: WebidlEnumerationId) -> CompoundTypeId {
        id.0
    }

    fn get(ty: &WebidlCompoundType) -> (r: Option<&WebidlEnumeration>) {
        match ty {
            WebidlCompoundType::Enumeration(e) => Some(e),
            _ => None,
        }
    }

    fn into_compound(self) -> WebidlCompoundType {
        WebidlCompoundType::Enumeration(self)
    }
}

impl WebidlTypeId for WebidlUnion {
    type Id = WebidlUnionId;

    open spec fn wrap_spec(id: CompoundTypeId) -> WebidlUnionId {
        WebidlUnionId(id)
    }

    open spec fn id_spec(id: WebidlUnionId) -> CompoundTypeId {
        id.0
    }

    open spec fn project_spec(ty: WebidlCompoundType) -> Option<WebidlUnion> {
        match ty {
            WebidlCompoundType::Union(u) => Some(u),
            _ => None,
        }
    }

    open spec fn inject_spec(self) -> WebidlCompoundType {
        WebidlCompoundType::Union(self)
    }

    proof fn lemma_wrap_id(id: CompoundTypeId) {
    }

    proof fn lemma_project_inject(self) {
    }

    fn wrap(id: CompoundTypeId) -> WebidlUnionId {
        WebidlUnionId(id)
    }

    fn unwrap_id(id: WebidlUnionId) -> CompoundTypeId {
        id.0
    }

    fn get(ty: &WebidlCompoundType) -> (r: Option<&WebidlUnion>) {
        match ty {
            WebidlCompoundType::Union(u) => Some(u),
            _ => None,
        }
    }

    fn into_compound(self) -> WebidlCompoundType {
        WebidlCompoundType::Union(self)
    }
}

/// A payload variant of the binding table, with its variant-restricted
/// identifier type.
pub trait FunctionBindingId: Sized {
    type Id: Copy;

    /// The typed identifier wrapping a raw binding table identifier.
    spec fn wrap_spec(id: BindingId) -> Self::Id;

    /// The raw binding table identifier under the typed one.
    spec fn id_spec(id: Self::Id) -> BindingId;

    /// The payload, if the entry holds this variant.
    spec fn project_spec(b: FunctionBinding) -> Option<Self>;

    /// The entry holding this payload.
    spec fn inject_spec(self) -> FunctionBinding;

    proof fn lemma_wrap_id(id: BindingId)
        ensures
            Self::id_spec(Self::wrap_spec(id)) == id,
    ;

    proof fn lemma_project_inject(self)
        ensures
            Self::project_spec(self.inject_spec()) == Some(self),
    ;

    fn wrap(id: BindingId) -> (r: Self::Id)
        ensures
            r == Self::wrap_spec(id),
    ;

    fn unwrap_id(id: Self::Id) -> (r: BindingId)
        ensures
            r == Self::id_spec(id),
    ;

    fn get(b: &FunctionBinding) -> (r: Option<&Self>)
        ensures
            match r {
                Some(v) => Self::project_spec(*b) == Some(*v),
                None => Self::project_spec(*b) is None,
            },
    ;

    fn into_binding(self) -> (r: FunctionBinding)
        ensures
            r == self.inject_spec(),
    ;
}

impl FunctionBindingId for ImportBinding {
    type Id = ImportBindingId;

    open spec fn wrap_spec(id: BindingId) -> ImportBindingId {
        ImportBindingId(id)
    }

    open spec fn id_spec(id: ImportBindingId) -> BindingId {
        id.0
    }

    open spec fn project_spec(b: FunctionBinding) -> Option<ImportBinding> {
        match b {
            FunctionBinding::Import(i) => Some(i),
            _ => None,
        }
    }

    open spec fn inject_spec(self) -> FunctionBinding {
        FunctionBinding::Import(self)
    }

    proof fn lemma_wrap_id(id: BindingId) {
    }

    proof fn lemma_project_inject(self) {
    }

    fn wrap(id: BindingId) -> ImportBindingId {
        ImportBindingId(id)
    }

    fn unwrap_id(id: ImportBindingId) -> BindingId {
        id.0
    }

    fn get(b: &FunctionBinding) -> (r: Option<&ImportBinding>) {
        match b {
            FunctionBinding::Import(i) => Some(i),
            _ => None,
        }
    }

    fn into_binding(self) -> FunctionBinding {
        FunctionBinding::Import(self)
    }
}

impl FunctionBindingId for ExportBinding {
    type Id = ExportBindingId;

    open spec fn wrap_spec(id: BindingId) -> ExportBindingId {
        ExportBindingId(id)
    }

    open spec fn id_spec(id: ExportBindingId) -> BindingId {
        id.0
    }

    open spec fn project_spec(b: FunctionBinding) -> Option<ExportBinding> {
        match b {
            FunctionBinding::Export(e) => Some(e),
            _ => None,
        }
    }

    open spec fn inject_spec(self) -> FunctionBinding {
        FunctionBinding::Export(self)
    }

    proof fn lemma_wrap_id(id: BindingId) {
    }

    proof fn lemma_project_inject(self) {
    }

    fn wrap(id: BindingId) -> ExportBindingId {
        ExportBindingId(id)
    }

    fn unwrap_id(id: ExportBindingId) -> BindingId {
        id.0
    }

    fn get(b: &FunctionBinding) -> (r: Option<&ExportBinding>) {
        match b {
            FunctionBinding::Export(e) => Some(e),
            _ => None,
        }
    }

    fn into_binding(self) -> FunctionBinding {
        FunctionBinding::Export(self)
    }
}

// ---------------------------------------------------------------------------
// Registries
// ---------------------------------------------------------------------------

/// The type table: a registry of compound interface type descriptions.
/// Entries are only ever appended; their indices are immutable once
/// assigned, and an identifier stays valid for the registry's lifetime.
#[derive(Debug)]
pub struct WebidlTypes {
    pub names: Vec<(String, u32)>,
    pub entries: Vec<WebidlCompoundType>,
}

impl WebidlTypes {
    /// Resolve a name to the identifier it was most recently recorded for.
    /// An unknown name is an absence, never an error.
    pub fn by_name(&self, name: &str) -> (r: Option<CompoundTypeId>)
        ensures
            match lookup_name(names_view(self.names@), name@) {
                Some(i) => r == Some(CompoundTypeId(i)),
                None => r is None,
            },
    {
        let mut k = self.names.len();
        proof {
            assert(names_view(self.names@).take(self.names@.len() as int) =~= names_view(
                self.names@,
            ));
        }
        while k > 0
            invariant
                k <= self.names@.len(),
                lookup_name(names_view(self.names@), name@) == lookup_name(
                    names_view(self.names@).take(k as int),
                    name@,
                ),
        decreases k,
        {
            k -= 1;
            let ghost pre = names_view(self.names@).take(k + 1);
            proof {
                assert(pre.last() == (self.names@[k as int].0@, self.names@[k as int].1));
                assert(pre.drop_last() =~= names_view(self.names@).take(k as int));
            }
            if str_eq(self.names[k].0.as_str(), name) {
                return Some(CompoundTypeId(self.names[k].1));
            }
        }
        proof {
            assert(names_view(self.names@).take(0) =~= Seq::<(Seq<char>, u32)>::empty());
        }
        None
    }

    /// Resolve a declaration-order position to an identifier. Out of range
    /// is an absence, never an error.
    pub fn by_index(&self, index: u32) -> (r: Option<CompoundTypeId>)
        ensures
            r == if (index as int) < self.entries@.len() {
                Some(CompoundTypeId(index))
            } else {
                None::<CompoundTypeId>
            },
    {
        if (index as usize) < self.entries.len() {
            Some(CompoundTypeId(index))
        } else {
            None
        }
    }

    /// Fetch the payload a typed identifier resolves to. An identifier of
    /// the wrong variant fails softly with an absence.
    pub fn get<T: WebidlTypeId>(&self, id: T::Id) -> (r: Option<&T>)
        ensures
            ({
                let i = T::id_spec(id).0 as int;
                match r {
                    Some(v) => i < self.entries@.len() && T::project_spec(self.entries@[i])
                        == Some(*v),
                    None => i >= self.entries@.len() || T::project_spec(self.entries@[i]) is None,
                }
            }),
    {
        let idx = T::unwrap_id(id).0 as usize;
        if idx < self.entries.len() {
            T::get(&self.entries[idx])
        } else {
            None
        }
    }

    /// Append a payload, assigning it the next declaration index. The
    /// indices of earlier entries, and all name records, are untouched.
    pub fn insert<T: WebidlTypeId>(&mut self, ty: T) -> (r: T::Id)
        requires
            old(self).entries@.len() < u32::MAX,
        ensures
            final(self).entries@ == old(self).entries@.push(ty.inject_spec()),
            final(self).names@ == old(self).names@,
            T::id_spec(r) == CompoundTypeId(old(self).entries@.len() as u32),
    {
        let id = CompoundTypeId(self.entries.len() as u32);
        self.entries.push(ty.into_compound());
        proof {
            T::lemma_wrap_id(id);
        }
        T::wrap(id)
    }

    /// Record `name` for an entry. A later record of the same name wins
    /// every name lookup from then on; the entry sequence is untouched.
    pub fn record_name(&mut self, name: String, id: CompoundTypeId)
        ensures
            final(self).names@ == old(self).names@.push((name, id.0)),
            final(self).entries@ == old(self).entries@,
    {
        self.names.push((name, id.0));
    }

    /// Replace the payload a typed identifier resolves to. The entry keeps
    /// its index and the name records are untouched; an identifier of the
    /// wrong variant, or out of range, changes nothing and reports the
    /// failure softly.
    pub fn set_entry<T: WebidlTypeId>(&mut self, id: T::Id, ty: T) -> (r: bool)
        ensures
            ({
                let i = T::id_spec(id).0 as int;
                &&& r == (i < old(self).entries@.len() && T::project_spec(
                    old(self).entries@[i],
                ) is Some)
                &&& r ==> final(self).entries@ == old(self).entries@.update(i, ty.inject_spec())
                &&& !r ==> final(self).entries@ == old(self).entries@
            }),
            final(self).names@ == old(self).names@,
    {
        let idx = T::unwrap_id(id).0 as usize;
        if idx < self.entries.len() {
            let current: Option<&T> = T::get(&self.entries[idx]);
            if current.is_some() {
                self.entries[idx] = ty.into_compound();
                return true;
            }
        }
        false
    }
}

impl Default for WebidlTypes {
    /// An empty type table: no entries, no name records.
    fn default() -> (r: Self)
        ensures
            r.names@ == Seq::<(String, u32)>::empty(),
            r.entries@ == Seq::<WebidlCompoundType>::empty(),
    {
        WebidlTypes { names: Vec::new(), entries: Vec::new() }
    }
}

/// The binding table: a registry of function marshaling recipes.
#[derive(Debug)]
pub struct FunctionBindings {
    pub names: Vec<(String, u32)>,
    pub entries: Vec<FunctionBinding>,
}

impl FunctionBindings {
    /// Resolve a name to the identifier it was most recently recorded for.
    /// An unknown name is an absence, never an error.
    pub fn by_name(&self, name: &str) -> (r: Option<BindingId>)
        ensures
            match lookup_name(names_view(self.names@), name@) {
                Some(i) => r == Some(BindingId(i)),
                None => r is None,
            },
    {
        let mut k = self.names.len();
        proof {
            assert(names_view(self.names@).take(self.names@.len() as int) =~= names_view(
                self.names@,
            ));
        }
        while k > 0
            invariant
                k <= self.names@.len(),
                lookup_name(names_view(self.names@), name@) == lookup_name(
                    names_view(self.names@).take(k as int),
                    name@,
                ),
        decreases k,
        {
            k -= 1;
            let ghost pre = names_view(self.names@).take(k + 1);
            proof {
                assert(pre.last() == (self.names@[k as int].0@, self.names@[k as int].1));
                assert(pre.drop_last() =~= names_view(self.names@).take(k as int));
            }
            if str_eq(self.names[k].0.as_str(), name) {
                return Some(BindingId(self.names[k].1));
            }
        }
        proof {
            assert(names_view(self.names@).take(0) =~= Seq::<(Seq<char>, u32)>::empty());
        }
        None
    }

    /// Resolve a declaration-order position to an identifier. Out of range
    /// is an absence, never an error.
    pub fn by_index(&self, index: u32) -> (r: Option<BindingId>)
        ensures
            r == if (index as int) < self.entries@.len() {
                Some(BindingId(index))
            } else {
                None::<BindingId>
            },
    {
        if (index as usize) < self.entries.len() {
            Some(BindingId(index))
        } else {
            None
        }
    }

    /// Fetch the payload a typed identifier resolves to. An identifier of
    /// the wrong variant fails softly with an absence.
    pub fn get<T: FunctionBindingId>(&self, id: T::Id) -> (r: Option<&T>)
        ensures
            ({
                let i = T::id_spec(id).0 as int;
                match r {
                    Some(v) => i < self.entries@.len() && T::project_spec(self.entries@[i])
                        == Some(*v),
                    None => i >= self.entries@.len() || T::project_spec(self.entries@[i]) is None,
                }
            }),
    {
        let idx = T::unwrap_id(id).0 as usize;
        if idx < self.entries.len() {
            T::get(&self.entries[idx])
        } else {
            None
        }
    }

    /// Append a payload, assigning it the next declaration index. The
    /// indices of earlier entries, and all name records, are untouched.
    pub fn insert<T: FunctionBindingId>(&mut self, binding: T) -> (r: T::Id)
        requires
            old(self).entries@.len() < u32::MAX,
        ensures
            final(self).entries@ == old(self).entries@.push(binding.inject_spec()),
            final(self).names@ == old(self).names@,
            T::id_spec(r) == BindingId(old(self).entries@.len() as u32),
    {
        let id = BindingId(self.entries.len() as u32);
        self.entries.push(binding.into_binding());
        proof {
            T::lemma_wrap_id(id);
        }
        T::wrap(id)
    }

    /// Record `name` for an entry. A later record of the same name wins
    /// every name lookup from then on; the entry sequence is untouched.
    pub fn record_name(&mut self, name: String, id: BindingId)
        ensures
            final(self).names@ == old(self).names@.push((name, id.0)),
            final(self).entries@ == old(self).entries@,
    {
        self.names.push((name, id.0));
    }

    /// Replace the payload a typed identifier resolves to. The entry keeps
    /// its index and the name records are untouched; an identifier of the
    /// wrong variant, or out of range, changes nothing and reports the
    /// failure softly.
    pub fn set_entry<T: FunctionBindingId>(&mut self, id: T::Id, binding: T) -> (r: bool)
        ensures
            ({
                let i = T::id_spec(id).0 as int;
                &&& r == (i < old(self).entries@.len() && T::project_spec(
                    old(self).entries@[i],
                ) is Some)
                &&& r ==> final(self).entries@ == old(self).entries@.update(
                    i,
                    binding.inject_spec(),
                )
                &&& !r ==> final(self).entries@ == old(self).entries@
            }),
            final(self).names@ == old(self).names@,
    {
        let idx = T::unwrap_id(id).0 as usize;
        if idx < self.entries.len() {
            let current: Option<&T> = T::get(&self.entries[idx]);
            if current.is_some() {
                self.entries[idx] = binding.into_binding();
                return true;
            }
        }
        false
    }
}

impl Default for FunctionBindings {
    /// An empty binding table: no entries, no name records.
    fn default() -> (r: Self)
        ensures
            r.names@ == Seq::<(String, u32)>::empty(),
            r.entries@ == Seq::<FunctionBinding>::empty(),
    {
        FunctionBindings { names: Vec::new(), entries: Vec::new() }
    }
}

/// The bind table: an append-only, unordered collection of bind statements.
/// No dedup and no lookup by function or by binding.
#[derive(Debug)]
pub struct Binds {
    pub entries: Vec<Bind>,
}

impl Binds {
    /// Fetch a bind statement. Out of range is an absence, never an error.
    pub fn get(&self, id: BindId) -> (r: Option<&Bind>)
        ensures
            match r {
                Some(b) => (id.0 as int) < self.entries@.len() && *b == self.entries@[id.0 as int],
                None => (id.0 as int) >= self.entries@.len(),
            },
    {
        let idx = id.0 as usize;
        if idx < self.entries.len() {
            Some(&self.entries[idx])
        } else {
            None
        }
    }

    /// Replace the statement an identifier resolves to. Out of range
    /// changes nothing and reports the failure softly.
    pub fn set_entry(&mut self, id: BindId, bind: Bind) -> (r: bool)
        ensures
            r == ((id.0 as int) < old(self).entries@.len()),
            r ==> final(self).entries@ == old(self).entries@.update(id.0 as int, bind),
            !r ==> final(self).entries@ == old(self).entries@,
    {
        let idx = id.0 as usize;
        if idx < self.entries.len() {
            self.entries[idx] = bind;
            true
        } else {
            false
        }
    }

    /// Append a bind statement, assigning it the next identifier.
    pub fn insert(&mut self, bind: Bind) -> (r: BindId)
        requires
            old(self).entries@.len() < u32::MAX,
        ensures
            final(self).entries@ == old(self).entries@.push(bind),
            r == BindId(old(self).entries@.len() as u32),
    {
        let id = BindId(self.entries.len() as u32);
        self.entries.push(bind);
        id
    }
}

impl Default for Binds {
    /// An empty bind table.
    fn default() -> (r: Self)
        ensures
            r.entries@ == Seq::<Bind>::empty(),
    {
        Binds { entries: Vec::new() }
    }
}

/// One complete in-memory section: the three tables, the single source of
/// truth shared by the binary codec and the semantic builder.
#[derive(Debug)]
pub struct WebidlBindings {
    pub types: WebidlTypes,
    pub bindings: FunctionBindings,
    pub binds: Binds,
}

impl WebidlBindings {
    /// The fixed ASCII name under which the encoded section is embedded in
    /// a host module.
    pub fn name(&self) -> (r: &'static str)
        ensures
            r@ == "webidl-bindings"@,
    {
        "webidl-bindings"
    }
}

impl Default for WebidlBindings {
    /// An empty section: three empty tables.
    fn default() -> (r: Self)
        ensures
            r.types.names@ == Seq::<(String, u32)>::empty(),
            r.types.entries@ == Seq::<WebidlCompoundType>::empty(),
            r.bindings.names@ == Seq::<(String, u32)>::empty(),
            r.bindings.entries@ == Seq::<FunctionBinding>::empty(),
            r.binds.entries@ == Seq::<Bind>::empty(),
    {
        WebidlBindings {
            types: Default::default(),
            bindings: Default::default(),
            binds: Default::default(),
        }
    }
}

} // verus!
