//! The binary wire-format codec.
//!
//! Every construct has a mathematical encoder `enc_*` over views and a
//! mathematical decoder `dec_*` that consumes a byte sequence from the front
//! and yields the parsed view together with the unconsumed suffix, or nothing
//! on malformed input (truncation, an unknown tag, an out-of-range
//! reference). The executable `encode` and `decode` are proved to agree with
//! these, and `lemma_dec_enc_*` prove that decoding an encoding yields the
//! original back: the round-trip identity.
//!
//! Wire shape: counts and indices are variable-width little-endian base-128
//! integers; strings are a byte count followed by UTF-8 bytes; each table is
//! a count followed by its entries in declaration order, type table first,
//! then binding table, then bind table, so that every reference points into
//! an already-decoded region.

use vstd::prelude::*;
use vstd::utf8::{
    encode_utf8, decode_utf8, valid_utf8, encode_utf8_valid_utf8, encode_utf8_decode_utf8,
};
use crate::ast::{
    Bind, BindingId, CompoundTypeId, WasmFuncId, WasmFuncTypeId, WasmValType, WebidlBindings,
    WebidlCompoundType, WebidlDictionary, WebidlDictionaryField, WebidlEnumeration,
    WebidlFunction, WebidlFunctionKind, WebidlFunctionKindMethod, WebidlScalarType, WebidlTypeRef,
    WebidlTypes, WebidlUnion, FunctionBinding, FunctionBindings, ImportBinding, ExportBinding,
    IncomingBindingExpression, IncomingBindingMap, OutgoingBindingExpression, OutgoingBindingMap,
    OutgoingBindingExpressionAs, OutgoingBindingExpressionUtf8Str, OutgoingBindingExpressionUtf8CStr,
    OutgoingBindingExpressionI32ToEnum, OutgoingBindingExpressionView, OutgoingBindingExpressionCopy,
    OutgoingBindingExpressionDict, OutgoingBindingExpressionBindExport, IncomingBindingExpressionGet,
    IncomingBindingExpressionAs, IncomingBindingExpressionAllocUtf8Str,
    IncomingBindingExpressionAllocCopy, IncomingBindingExpressionEnumToI32,
    IncomingBindingExpressionField, IncomingBindingExpressionBindImport, names_view,
};
use vstd::string::StrSliceExecFns;
use crate::views::{
    wf_str, wf_type_ref, wf_function, wf_dictionary, wf_enumeration, wf_union, wf_compound,
    FunctionView, DictionaryFieldView, DictionaryView, EnumerationView, UnionView,
    CompoundTypeView, OutgoingExprView, IncomingExprView, wf_out_expr, wf_in_expr,
    ImportBindingView, ExportBindingView, FunctionBindingView, TypesView, BindingsView,
    SectionView, HostIndexBounds, wf_binding, wf_names, wf_types, wf_bindings, wf_section,
    out_expr_view, out_expr_views, lemma_out_expr_views_len, lemma_out_expr_views_index,
    lemma_out_expr_views_eq_map,
};

verus! {

broadcast use vstd::seq::group_seq_axioms, vstd::std_specs::vec::group_vec_axioms;

// ---------------------------------------------------------------------------
// Variable-width integers
// ---------------------------------------------------------------------------

/// Little-endian base-128 encoding of a 32-bit integer: seven value bits per
/// byte, high bit set on every byte but the last.
pub open spec fn enc_u32(n: u32) -> Seq<u8>
    decreases n,
{
    if n < 128 {
        seq![n as u8]
    } else {
        seq![(n % 128 + 128) as u8] + enc_u32(n / 128)
    }
}

/// Decode a base-128 integer; fails on an empty buffer and on a value that
/// does not fit 32 bits.
pub open spec fn dec_u32(s: Seq<u8>) -> Option<(u32, Seq<u8>)>
    decreases s.len(),
{
    if s.len() == 0 {
        None
    } else if s[0] < 128 {
        Some((s[0] as u32, s.subrange(1, s.len() as int)))
    } else {
        match dec_u32(s.subrange(1, s.len() as int)) {
            None => None,
            Some((hi, rest)) => if hi <= (u32::MAX - (s[0] - 128)) / 128 {
                Some((((s[0] - 128) + 128 * hi) as u32, rest))
            } else {
                None
            },
        }
    }
}

pub proof fn lemma_dec_enc_u32(n: u32, rest: Seq<u8>)
    ensures
        dec_u32(enc_u32(n) + rest) == Some((n, rest)),
    decreases n,
{
    let s = enc_u32(n) + rest;
    if n < 128 {
        assert(s[0] == n as u8);
        assert(s.subrange(1, s.len() as int) =~= rest);
    } else {
        assert(s[0] == (n % 128 + 128) as u8);
        assert(s[0] >= 128);
        assert(s.subrange(1, s.len() as int) =~= enc_u32(n / 128) + rest);
        lemma_dec_enc_u32(n / 128, rest);
        let low = s[0] - 128;
        let hi = (n / 128) as u32;
        assert(low == n % 128);
        assert(n == 128 * (n as int / 128) + n as int % 128) by {
            vstd::arithmetic::div_mod::lemma_fundamental_div_mod(n as int, 128);
        };
        assert(hi <= (u32::MAX - low) / 128) by {
            vstd::arithmetic::div_mod::lemma_div_is_ordered((128 * hi) as int, (u32::MAX - low) as int, 128);
            vstd::arithmetic::div_mod::lemma_div_multiples_vanish(hi as int, 128);
        };
        assert((low + 128 * hi) as u32 == n);
    }
}

// ---------------------------------------------------------------------------
// Strings
// ---------------------------------------------------------------------------

/// A string encodes as its UTF-8 byte count followed by the bytes.
pub open spec fn enc_str(s: Seq<char>) -> Seq<u8> {
    enc_u32(encode_utf8(s).len() as u32) + encode_utf8(s)
}

/// Decode a length-prefixed UTF-8 string; fails on truncation and on bytes
/// that are not valid UTF-8.
pub open spec fn dec_str(s: Seq<u8>) -> Option<(Seq<char>, Seq<u8>)> {
    match dec_u32(s) {
        None => None,
        Some((len, rest)) => if rest.len() >= len {
            let bytes = rest.subrange(0, len as int);
            if valid_utf8(bytes) {
                Some((decode_utf8(bytes), rest.subrange(len as int, rest.len() as int)))
            } else {
                None
            }
        } else {
            None
        },
    }
}

pub proof fn lemma_dec_enc_str(s: Seq<char>, rest: Seq<u8>)
    requires
        wf_str(s),
    ensures
        dec_str(enc_str(s) + rest) == Some((s, rest)),
{
    let bytes = encode_utf8(s);
    let len = bytes.len() as u32;
    assert(enc_str(s) + rest =~= enc_u32(len) + (bytes + rest));
    lemma_dec_enc_u32(len, bytes + rest);
    assert((bytes + rest).subrange(0, len as int) =~= bytes);
    assert((bytes + rest).subrange(len as int, (bytes + rest).len() as int) =~= rest);
    encode_utf8_valid_utf8(s);
    encode_utf8_decode_utf8(s);
}

// ---------------------------------------------------------------------------
// Optional names
// ---------------------------------------------------------------------------

/// An optional name: an absence flag byte, then the name if present.
pub open spec fn enc_opt_name(n: Option<Seq<char>>) -> Seq<u8> {
    match n {
        None => seq![0u8],
        Some(s) => seq![1u8] + enc_str(s),
    }
}

/// Decode an optional name; fails on an unknown flag byte.
pub open spec fn dec_opt_name(s: Seq<u8>) -> Option<(Option<Seq<char>>, Seq<u8>)> {
    if s.len() == 0 {
        None
    } else if s[0] == 0 {
        Some((None, s.subrange(1, s.len() as int)))
    } else if s[0] == 1 {
        match dec_str(s.subrange(1, s.len() as int)) {
            None => None,
            Some((name, rest)) => Some((Some(name), rest)),
        }
    } else {
        None
    }
}

pub proof fn lemma_dec_enc_opt_name(n: Option<Seq<char>>, rest: Seq<u8>)
    requires
        n matches Some(s) ==> wf_str(s),
    ensures
        dec_opt_name(enc_opt_name(n) + rest) == Some((n, rest)),
{
    let s = enc_opt_name(n) + rest;
    match n {
        None => {
            assert(s[0] == 0);
            assert(s.subrange(1, s.len() as int) =~= rest);
        },
        Some(name) => {
            assert(s[0] == 1);
            assert(s.subrange(1, s.len() as int) =~= enc_str(name) + rest);
            lemma_dec_enc_str(name, rest);
        },
    }
}

// ---------------------------------------------------------------------------
// Scalar types, value types, type references
// ---------------------------------------------------------------------------

/// The wire tag of a scalar type.
pub open spec fn scalar_tag(t: WebidlScalarType) -> u8 {
    match t {
        WebidlScalarType::Any => 0,
        WebidlScalarType::Boolean => 1,
        WebidlScalarType::Byte => 2,
        WebidlScalarType::Octet => 3,
        WebidlScalarType::Long => 4,
        WebidlScalarType::UnsignedLong => 5,
        WebidlScalarType::Short => 6,
        WebidlScalarType::UnsignedShort => 7,
        WebidlScalarType::LongLong => 8,
        WebidlScalarType::UnsignedLongLong => 9,
        WebidlScalarType::Float => 10,
        WebidlScalarType::UnrestrictedFloat => 11,
        WebidlScalarType::Double => 12,
        WebidlScalarType::UnrestrictedDouble => 13,
        WebidlScalarType::DomString => 14,
        WebidlScalarType::ByteString => 15,
        WebidlScalarType::UsvString => 16,
        WebidlScalarType::Object => 17,
        WebidlScalarType::Symbol => 18,
        WebidlScalarType::ArrayBuffer => 19,
        WebidlScalarType::DataView => 20,
        WebidlScalarType::Int8Array => 21,
        WebidlScalarType::Int16Array => 22,
        WebidlScalarType::Int32Array => 23,
        WebidlScalarType::Uint8Array => 24,
        WebidlScalarType::Uint16Array => 25,
        WebidlScalarType::Uint32Array => 26,
        WebidlScalarType::Uint8ClampedArray => 27,
        WebidlScalarType::Float32Array => 28,
        WebidlScalarType::Float64Array => 29,
    }
}

/// The scalar type a wire tag stands for, if any.
pub open spec fn scalar_from_tag(b: u8) -> Option<WebidlScalarType> {
    if b == 0 {
        Some(WebidlScalarType::Any)
    } else if b == 1 {
        Some(WebidlScalarType::Boolean)
    } else if b == 2 {
        Some(WebidlScalarType::Byte)
    } else if b == 3 {
        Some(WebidlScalarType::Octet)
    } else if b == 4 {
        Some(WebidlScalarType::Long)
    } else if b == 5 {
        Some(WebidlScalarType::UnsignedLong)
    } else if b == 6 {
        Some(WebidlScalarType::Short)
    } else if b == 7 {
        Some(WebidlScalarType::UnsignedShort)
    } else if b == 8 {
        Some(WebidlScalarType::LongLong)
    } else if b == 9 {
        Some(WebidlScalarType::UnsignedLongLong)
    } else if b == 10 {
        Some(WebidlScalarType::Float)
    } else if b == 11 {
        Some(WebidlScalarType::UnrestrictedFloat)
    } else if b == 12 {
        Some(WebidlScalarType::Double)
    } else if b == 13 {
        Some(WebidlScalarType::UnrestrictedDouble)
    } else if b == 14 {
        Some(WebidlScalarType::DomString)
    } else if b == 15 {
        Some(WebidlScalarType::ByteString)
    } else if b == 16 {
        Some(WebidlScalarType::UsvString)
    } else if b == 17 {
        Some(WebidlScalarType::Object)
    } else if b == 18 {
        Some(WebidlScalarType::Symbol)
    } else if b == 19 {
        Some(WebidlScalarType::ArrayBuffer)
    } else if b == 20 {
        Some(WebidlScalarType::DataView)
    } else if b == 21 {
        Some(WebidlScalarType::Int8Array)
    } else if b == 22 {
        Some(WebidlScalarType::Int16Array)
    } else if b == 23 {
        Some(WebidlScalarType::Int32Array)
    } else if b == 24 {
        Some(WebidlScalarType::Uint8Array)
    } else if b == 25 {
        Some(WebidlScalarType::Uint16Array)
    } else if b == 26 {
        Some(WebidlScalarType::Uint32Array)
    } else if b == 27 {
        Some(WebidlScalarType::Uint8ClampedArray)
    } else if b == 28 {
        Some(WebidlScalarType::Float32Array)
    } else if b == 29 {
        Some(WebidlScalarType::Float64Array)
    } else {
        None
    }
}

pub proof fn lemma_scalar_tag_inverse(t: WebidlScalarType)
    ensures
        scalar_from_tag(scalar_tag(t)) == Some(t),
{
}

/// The wire tag of a native value type.
pub open spec fn val_type_tag(t: WasmValType) -> u8 {
    match t {
        WasmValType::I32 => 0,
        WasmValType::I64 => 1,
        WasmValType::F32 => 2,
        WasmValType::F64 => 3,
        WasmValType::V128 => 4,
        WasmValType::Anyref => 5,
    }
}

/// The native value type a wire tag stands for, if any.
pub open spec fn val_type_from_tag(b: u8) -> Option<WasmValType> {
    if b == 0 {
        Some(WasmValType::I32)
    } else if b == 1 {
        Some(WasmValType::I64)
    } else if b == 2 {
        Some(WasmValType::F32)
    } else if b == 3 {
        Some(WasmValType::F64)
    } else if b == 4 {
        Some(WasmValType::V128)
    } else if b == 5 {
        Some(WasmValType::Anyref)
    } else {
        None
    }
}

/// Decode a native value type tag byte.
pub open spec fn dec_val_type(s: Seq<u8>) -> Option<(WasmValType, Seq<u8>)> {
    if s.len() == 0 {
        None
    } else {
        match val_type_from_tag(s[0]) {
            None => None,
            Some(t) => Some((t, s.subrange(1, s.len() as int))),
        }
    }
}

pub proof fn lemma_dec_enc_val_type(t: WasmValType, rest: Seq<u8>)
    ensures
        dec_val_type(seq![val_type_tag(t)] + rest) == Some((t, rest)),
{
    let s = seq![val_type_tag(t)] + rest;
    assert(s.subrange(1, s.len() as int) =~= rest);
}

/// A type reference encodes as a tag byte: a table index follows tag 0, a
/// scalar tag byte follows tag 1.
pub open spec fn enc_type_ref(r: WebidlTypeRef) -> Seq<u8> {
    match r {
        WebidlTypeRef::Id(id) => seq![0u8] + enc_u32(id.0),
        WebidlTypeRef::Scalar(t) => seq![1u8, scalar_tag(t)],
    }
}

/// Decode a type reference; an index at or past `n_types` is an
/// out-of-range reference and fails.
pub open spec fn dec_type_ref(s: Seq<u8>, n_types: int) -> Option<(WebidlTypeRef, Seq<u8>)> {
    if s.len() == 0 {
        None
    } else if s[0] == 0 {
        match dec_u32(s.subrange(1, s.len() as int)) {
            None => None,
            Some((idx, rest)) => if (idx as int) < n_types {
                Some((WebidlTypeRef::Id(CompoundTypeId(idx)), rest))
            } else {
                None
            },
        }
    } else if s[0] == 1 {
        if s.len() < 2 {
            None
        } else {
            match scalar_from_tag(s[1]) {
                None => None,
                Some(t) => Some((WebidlTypeRef::Scalar(t), s.subrange(2, s.len() as int))),
            }
        }
    } else {
        None
    }
}

pub proof fn lemma_dec_enc_type_ref(r: WebidlTypeRef, rest: Seq<u8>, n_types: int)
    requires
        wf_type_ref(r, n_types),
    ensures
        dec_type_ref(enc_type_ref(r) + rest, n_types) == Some((r, rest)),
{
    let s = enc_type_ref(r) + rest;
    match r {
        WebidlTypeRef::Id(id) => {
            assert(s[0] == 0);
            assert(s.subrange(1, s.len() as int) =~= enc_u32(id.0) + rest);
            lemma_dec_enc_u32(id.0, rest);
        },
        WebidlTypeRef::Scalar(t) => {
            assert(s[0] == 1);
            assert(s[1] == scalar_tag(t));
            lemma_scalar_tag_inverse(t);
            assert(s.subrange(2, s.len() as int) =~= rest);
        },
    }
}

// ---------------------------------------------------------------------------
// Type reference lists
// ---------------------------------------------------------------------------

/// Concatenated encodings of a list of type references (the count travels
/// separately).
pub open spec fn enc_type_ref_list(s: Seq<WebidlTypeRef>) -> Seq<u8>
    decreases s.len(),
{
    if s.len() == 0 {
        Seq::empty()
    } else {
        enc_type_ref(s[0]) + enc_type_ref_list(s.subrange(1, s.len() as int))
    }
}

/// Decode exactly `count` type references.
pub open spec fn dec_type_ref_list(s: Seq<u8>, n_types: int, count: nat) -> Option<
    (Seq<WebidlTypeRef>, Seq<u8>),
>
    decreases count,
{
    if count == 0 {
        Some((Seq::empty(), s))
    } else {
        match dec_type_ref(s, n_types) {
            None => None,
            Some((r, rest)) => match dec_type_ref_list(rest, n_types, (count - 1) as nat) {
                None => None,
                Some((tail, rest2)) => Some((seq![r] + tail, rest2)),
            },
        }
    }
}

pub proof fn lemma_dec_enc_type_ref_list(s: Seq<WebidlTypeRef>, rest: Seq<u8>, n_types: int)
    requires
        forall|i: int| 0 <= i < s.len() ==> wf_type_ref(#[trigger] s[i], n_types),
    ensures
        dec_type_ref_list(enc_type_ref_list(s) + rest, n_types, s.len() as nat) == Some((s, rest)),
    decreases s.len(),
{
    if s.len() == 0 {
        assert(enc_type_ref_list(s) + rest =~= rest);
    } else {
        let tail = s.subrange(1, s.len() as int);
        assert(enc_type_ref_list(s) + rest =~= enc_type_ref(s[0]) + (enc_type_ref_list(tail)
            + rest));
        lemma_dec_enc_type_ref(s[0], enc_type_ref_list(tail) + rest, n_types);
        lemma_dec_enc_type_ref_list(tail, rest, n_types);
        assert(seq![s[0]] + tail =~= s);
    }
}

// ---------------------------------------------------------------------------
// Function signatures
// ---------------------------------------------------------------------------

/// A call kind encodes as a tag byte; the receiver type reference follows a
/// method tag.
pub open spec fn enc_func_kind(k: WebidlFunctionKind) -> Seq<u8> {
    match k {
        WebidlFunctionKind::Static => seq![0u8],
        WebidlFunctionKind::Method(m) => seq![1u8] + enc_type_ref(m.ty),
        WebidlFunctionKind::Constructor => seq![2u8],
    }
}

/// Decode a call kind; fails on an unknown tag.
pub open spec fn dec_func_kind(s: Seq<u8>, n_types: int) -> Option<(WebidlFunctionKind, Seq<u8>)> {
    if s.len() == 0 {
        None
    } else if s[0] == 0 {
        Some((WebidlFunctionKind::Static, s.subrange(1, s.len() as int)))
    } else if s[0] == 1 {
        match dec_type_ref(s.subrange(1, s.len() as int), n_types) {
            None => None,
            Some((ty, rest)) => Some((WebidlFunctionKind::Method(WebidlFunctionKindMethod { ty }), rest)),
        }
    } else if s[0] == 2 {
        Some((WebidlFunctionKind::Constructor, s.subrange(1, s.len() as int)))
    } else {
        None
    }
}

pub proof fn lemma_dec_enc_func_kind(k: WebidlFunctionKind, rest: Seq<u8>, n_types: int)
    requires
        k matches WebidlFunctionKind::Method(m) ==> wf_type_ref(m.ty, n_types),
    ensures
        dec_func_kind(enc_func_kind(k) + rest, n_types) == Some((k, rest)),
{
    let s = enc_func_kind(k) + rest;
    match k {
        WebidlFunctionKind::Static => {
            assert(s.subrange(1, s.len() as int) =~= rest);
        },
        WebidlFunctionKind::Method(m) => {
            assert(s.subrange(1, s.len() as int) =~= enc_type_ref(m.ty) + rest);
            lemma_dec_enc_type_ref(m.ty, rest, n_types);
        },
        WebidlFunctionKind::Constructor => {
            assert(s.subrange(1, s.len() as int) =~= rest);
        },
    }
}

/// An optional result type: an absence flag byte, then the reference.
pub open spec fn enc_opt_result(r: Option<WebidlTypeRef>) -> Seq<u8> {
    match r {
        None => seq![0u8],
        Some(ty) => seq![1u8] + enc_type_ref(ty),
    }
}

/// Decode an optional result type; fails on an unknown flag byte.
pub open spec fn dec_opt_result(s: Seq<u8>, n_types: int) -> Option<
    (Option<WebidlTypeRef>, Seq<u8>),
> {
    if s.len() == 0 {
        None
    } else if s[0] == 0 {
        Some((None, s.subrange(1, s.len() as int)))
    } else if s[0] == 1 {
        match dec_type_ref(s.subrange(1, s.len() as int), n_types) {
            None => None,
            Some((ty, rest)) => Some((Some(ty), rest)),
        }
    } else {
        None
    }
}

pub proof fn lemma_dec_enc_opt_result(r: Option<WebidlTypeRef>, rest: Seq<u8>, n_types: int)
    requires
        r matches Some(ty) ==> wf_type_ref(ty, n_types),
    ensures
        dec_opt_result(enc_opt_result(r) + rest, n_types) == Some((r, rest)),
{
    let s = enc_opt_result(r) + rest;
    match r {
        None => {
            assert(s.subrange(1, s.len() as int) =~= rest);
        },
        Some(ty) => {
            assert(s.subrange(1, s.len() as int) =~= enc_type_ref(ty) + rest);
            lemma_dec_enc_type_ref(ty, rest, n_types);
        },
    }
}

/// A function payload: call kind, parameter count and references, optional
/// result reference.
pub open spec fn enc_function(f: FunctionView) -> Seq<u8> {
    enc_func_kind(f.kind) + enc_u32(f.params.len() as u32) + enc_type_ref_list(f.params)
        + enc_opt_result(f.result)
}

/// Decode a function payload.
pub open spec fn dec_function(s: Seq<u8>, n_types: int) -> Option<(FunctionView, Seq<u8>)> {
    match dec_func_kind(s, n_types) {
        None => None,
        Some((kind, s1)) => match dec_u32(s1) {
            None => None,
            Some((count, s2)) => match dec_type_ref_list(s2, n_types, count as nat) {
                None => None,
                Some((params, s3)) => match dec_opt_result(s3, n_types) {
                    None => None,
                    Some((result, s4)) => Some((FunctionView { kind, params, result }, s4)),
                },
            },
        },
    }
}

#[verifier::rlimit(100)]
#[verifier::spinoff_prover]
pub proof fn lemma_dec_enc_function(f: FunctionView, rest: Seq<u8>, n_types: int)
    requires
        wf_function(f, n_types),
    ensures
        dec_function(enc_function(f) + rest, n_types) == Some((f, rest)),
{
    let r3 = enc_opt_result(f.result) + rest;
    let r2 = enc_type_ref_list(f.params) + r3;
    let r1 = enc_u32(f.params.len() as u32) + r2;
    assert(enc_function(f) + rest =~= enc_func_kind(f.kind) + r1);
    lemma_dec_enc_func_kind(f.kind, r1, n_types);
    lemma_dec_enc_u32(f.params.len() as u32, r2);
    lemma_dec_enc_type_ref_list(f.params, r3, n_types);
    lemma_dec_enc_opt_result(f.result, rest, n_types);
}

// ---------------------------------------------------------------------------
// Dictionaries, enumerations, unions
// ---------------------------------------------------------------------------

/// Concatenated encodings of dictionary fields: each a name then a type
/// reference.
pub open spec fn enc_dict_field_list(s: Seq<DictionaryFieldView>) -> Seq<u8>
    decreases s.len(),
{
    if s.len() == 0 {
        Seq::empty()
    } else {
        enc_str(s[0].name) + enc_type_ref(s[0].ty) + enc_dict_field_list(
            s.subrange(1, s.len() as int),
        )
    }
}

/// Decode exactly `count` dictionary fields.
pub open spec fn dec_dict_field_list(s: Seq<u8>, n_types: int, count: nat) -> Option<
    (Seq<DictionaryFieldView>, Seq<u8>),
>
    decreases count,
{
    if count == 0 {
        Some((Seq::empty(), s))
    } else {
        match dec_str(s) {
            None => None,
            Some((name, s1)) => match dec_type_ref(s1, n_types) {
                None => None,
                Some((ty, s2)) => match dec_dict_field_list(s2, n_types, (count - 1) as nat) {
                    None => None,
                    Some((tail, rest)) => Some(
                        (seq![DictionaryFieldView { name, ty }] + tail, rest),
                    ),
                },
            },
        }
    }
}

pub proof fn lemma_dec_enc_dict_field_list(s: Seq<DictionaryFieldView>, rest: Seq<u8>, n_types: int)
    requires
        forall|i: int|
            0 <= i < s.len() ==> wf_str((#[trigger] s[i]).name) && wf_type_ref(s[i].ty, n_types),
    ensures
        dec_dict_field_list(enc_dict_field_list(s) + rest, n_types, s.len() as nat) == Some(
            (s, rest),
        ),
    decreases s.len(),
{
    if s.len() == 0 {
        assert(enc_dict_field_list(s) + rest =~= rest);
    } else {
        let tail = s.subrange(1, s.len() as int);
        let r1 = enc_type_ref(s[0].ty) + (enc_dict_field_list(tail) + rest);
        assert(enc_dict_field_list(s) + rest =~= enc_str(s[0].name) + r1);
        lemma_dec_enc_str(s[0].name, r1);
        lemma_dec_enc_type_ref(s[0].ty, enc_dict_field_list(tail) + rest, n_types);
        lemma_dec_enc_dict_field_list(tail, rest, n_types);
        assert(seq![s[0]] + tail =~= s);
    }
}

/// A dictionary payload: field count, then each field.
pub open spec fn enc_dictionary(d: DictionaryView) -> Seq<u8> {
    enc_u32(d.fields.len() as u32) + enc_dict_field_list(d.fields)
}

/// Decode a dictionary payload.
pub open spec fn dec_dictionary(s: Seq<u8>, n_types: int) -> Option<(DictionaryView, Seq<u8>)> {
    match dec_u32(s) {
        None => None,
        Some((count, s1)) => match dec_dict_field_list(s1, n_types, count as nat) {
            None => None,
            Some((fields, rest)) => Some((DictionaryView { fields }, rest)),
        },
    }
}

pub proof fn lemma_dec_enc_dictionary(d: DictionaryView, rest: Seq<u8>, n_types: int)
    requires
        wf_dictionary(d, n_types),
    ensures
        dec_dictionary(enc_dictionary(d) + rest, n_types) == Some((d, rest)),
{
    let r1 = enc_dict_field_list(d.fields) + rest;
    assert(enc_dictionary(d) + rest =~= enc_u32(d.fields.len() as u32) + r1);
    lemma_dec_enc_u32(d.fields.len() as u32, r1);
    lemma_dec_enc_dict_field_list(d.fields, rest, n_types);
}

/// Concatenated encodings of enumeration values.
pub open spec fn enc_str_list(s: Seq<Seq<char>>) -> Seq<u8>
    decreases s.len(),
{
    if s.len() == 0 {
        Seq::empty()
    } else {
        enc_str(s[0]) + enc_str_list(s.subrange(1, s.len() as int))
    }
}

/// Decode exactly `count` strings.
pub open spec fn dec_str_list(s: Seq<u8>, count: nat) -> Option<(Seq<Seq<char>>, Seq<u8>)>
    decreases count,
{
    if count == 0 {
        Some((Seq::empty(), s))
    } else {
        match dec_str(s) {
            None => None,
            Some((v, rest)) => match dec_str_list(rest, (count - 1) as nat) {
                None => None,
                Some((tail, rest2)) => Some((seq![v] + tail, rest2)),
            },
        }
    }
}

pub proof fn lemma_dec_enc_str_list(s: Seq<Seq<char>>, rest: Seq<u8>)
    requires
        forall|i: int| 0 <= i < s.len() ==> wf_str(#[trigger] s[i]),
    ensures
        dec_str_list(enc_str_list(s) + rest, s.len() as nat) == Some((s, rest)),
    decreases s.len(),
{
    if s.len() == 0 {
        assert(enc_str_list(s) + rest =~= rest);
    } else {
        let tail = s.subrange(1, s.len() as int);
        assert(enc_str_list(s) + rest =~= enc_str(s[0]) + (enc_str_list(tail) + rest));
        lemma_dec_enc_str(s[0], enc_str_list(tail) + rest);
        lemma_dec_enc_str_list(tail, rest);
        assert(seq![s[0]] + tail =~= s);
    }
}

/// An enumeration payload: value count, then each value.
pub open spec fn enc_enumeration(e: EnumerationView) -> Seq<u8> {
    enc_u32(e.values.len() as u32) + enc_str_list(e.values)
}

/// Decode an enumeration payload.
pub open spec fn dec_enumeration(s: Seq<u8>) -> Option<(EnumerationView, Seq<u8>)> {
    match dec_u32(s) {
        None => None,
        Some((count, s1)) => match dec_str_list(s1, count as nat) {
            None => None,
            Some((values, rest)) => Some((EnumerationView { values }, rest)),
        },
    }
}

pub proof fn lemma_dec_enc_enumeration(e: EnumerationView, rest: Seq<u8>)
    requires
        wf_enumeration(e),
    ensures
        dec_enumeration(enc_enumeration(e) + rest) == Some((e, rest)),
{
    let r1 = enc_str_list(e.values) + rest;
    assert(enc_enumeration(e) + rest =~= enc_u32(e.values.len() as u32) + r1);
    lemma_dec_enc_u32(e.values.len() as u32, r1);
    lemma_dec_enc_str_list(e.values, rest);
}

/// A union payload: member count, then each member reference.
pub open spec fn enc_union(u: UnionView) -> Seq<u8> {
    enc_u32(u.members.len() as u32) + enc_type_ref_list(u.members)
}

/// Decode a union payload.
pub open spec fn dec_union(s: Seq<u8>, n_types: int) -> Option<(UnionView, Seq<u8>)> {
    match dec_u32(s) {
        None => None,
        Some((count, s1)) => match dec_type_ref_list(s1, n_types, count as nat) {
            None => None,
            Some((members, rest)) => Some((UnionView { members }, rest)),
        },
    }
}

pub proof fn lemma_dec_enc_union(u: UnionView, rest: Seq<u8>, n_types: int)
    requires
        wf_union(u, n_types),
    ensures
        dec_union(enc_union(u) + rest, n_types) == Some((u, rest)),
{
    let r1 = enc_type_ref_list(u.members) + rest;
    assert(enc_union(u) + rest =~= enc_u32(u.members.len() as u32) + r1);
    lemma_dec_enc_u32(u.members.len() as u32, r1);
    lemma_dec_enc_type_ref_list(u.members, rest, n_types);
}

// ---------------------------------------------------------------------------
// Outgoing expression trees
// ---------------------------------------------------------------------------

/// An outgoing expression: a variant tag, the variant's fields, then its
/// sub-expressions, recursively.
pub open spec fn enc_out_expr(e: OutgoingExprView) -> Seq<u8>
    decreases e,
{
    match e {
        OutgoingExprView::As { ty, idx } => seq![0u8] + enc_type_ref(ty) + enc_u32(idx),
        OutgoingExprView::Utf8Str { ty, offset, length } => seq![1u8] + enc_type_ref(ty) + enc_u32(
            offset,
        ) + enc_u32(length),
        OutgoingExprView::Utf8CStr { ty, offset } => seq![2u8] + enc_type_ref(ty) + enc_u32(offset),
        OutgoingExprView::I32ToEnum { ty, idx } => seq![3u8] + enc_type_ref(ty) + enc_u32(idx),
        OutgoingExprView::View { ty, offset, length } => seq![4u8] + enc_type_ref(ty) + enc_u32(
            offset,
        ) + enc_u32(length),
        OutgoingExprView::Copy { ty, offset, length } => seq![5u8] + enc_type_ref(ty) + enc_u32(
            offset,
        ) + enc_u32(length),
        OutgoingExprView::Dict { ty, fields } => seq![6u8] + enc_type_ref(ty) + enc_u32(
            fields.len() as u32,
        ) + enc_out_expr_list(fields),
        OutgoingExprView::BindExport { ty, binding, idx } => seq![7u8] + enc_type_ref(ty) + enc_u32(
            binding.0,
        ) + enc_u32(idx),
    }
}

/// Concatenated encodings of a list of outgoing expressions.
pub open spec fn enc_out_expr_list(s: Seq<OutgoingExprView>) -> Seq<u8>
    decreases s,
{
    if s.len() == 0 {
        Seq::empty()
    } else {
        enc_out_expr(s[0]) + enc_out_expr_list(s.subrange(1, s.len() as int))
    }
}

/// Decode one outgoing expression; fails on an unknown tag and on a binding
/// reference at or past `n_bindings`.
pub open spec fn dec_out_expr(s: Seq<u8>, n_types: int, n_bindings: int) -> Option<
    (OutgoingExprView, Seq<u8>),
>
    decreases s.len(), 0nat,
{
    if s.len() == 0 {
        None
    } else {
        let s1 = s.subrange(1, s.len() as int);
        if s[0] == 0 {
            match dec_type_ref(s1, n_types) {
                None => None,
                Some((ty, s2)) => match dec_u32(s2) {
                    None => None,
                    Some((idx, rest)) => Some((OutgoingExprView::As { ty, idx }, rest)),
                },
            }
        } else if s[0] == 1 {
            match dec_type_ref(s1, n_types) {
                None => None,
                Some((ty, s2)) => match dec_u32(s2) {
                    None => None,
                    Some((offset, s3)) => match dec_u32(s3) {
                        None => None,
                        Some((length, rest)) => Some(
                            (OutgoingExprView::Utf8Str { ty, offset, length }, rest),
                        ),
                    },
                },
            }
        } else if s[0] == 2 {
            match dec_type_ref(s1, n_types) {
                None => None,
                Some((ty, s2)) => match dec_u32(s2) {
                    None => None,
                    Some((offset, rest)) => Some((OutgoingExprView::Utf8CStr { ty, offset }, rest)),
                },
            }
        } else if s[0] == 3 {
            match dec_type_ref(s1, n_types) {
                None => None,
                Some((ty, s2)) => match dec_u32(s2) {
                    None => None,
                    Some((idx, rest)) => Some((OutgoingExprView::I32ToEnum { ty, idx }, rest)),
                },
            }
        } else if s[0] == 4 {
            match dec_type_ref(s1, n_types) {
                None => None,
                Some((ty, s2)) => match dec_u32(s2) {
                    None => None,
                    Some((offset, s3)) => match dec_u32(s3) {
                        None => None,
                        Some((length, rest)) => Some(
                            (OutgoingExprView::View { ty, offset, length }, rest),
                        ),
                    },
                },
            }
        } else if s[0] == 5 {
            match dec_type_ref(s1, n_types) {
                None => None,
                Some((ty, s2)) => match dec_u32(s2) {
                    None => None,
                    Some((offset, s3)) => match dec_u32(s3) {
                        None => None,
                        Some((length, rest)) => Some(
                            (OutgoingExprView::Copy { ty, offset, length }, rest),
                        ),
                    },
                },
            }
        } else if s[0] == 6 {
            match dec_type_ref(s1, n_types) {
                None => None,
                Some((ty, s2)) => match dec_u32(s2) {
                    None => None,
                    Some((count, s3)) => if s3.len() < s.len() {
                        match dec_out_expr_list(s3, n_types, n_bindings, count as nat) {
                            None => None,
                            Some((fields, rest)) => Some(
                                (OutgoingExprView::Dict { ty, fields }, rest),
                            ),
                        }
                    } else {
                        None
                    },
                },
            }
        } else if s[0] == 7 {
            match dec_type_ref(s1, n_types) {
                None => None,
                Some((ty, s2)) => match dec_u32(s2) {
                    None => None,
                    Some((b, s3)) => if (b as int) < n_bindings {
                        match dec_u32(s3) {
                            None => None,
                            Some((idx, rest)) => Some(
                                (
                                    OutgoingExprView::BindExport {
                                        ty,
                                        binding: BindingId(b),
                                        idx,
                                    },
                                    rest,
                                ),
                            ),
                        }
                    } else {
                        None
                    },
                },
            }
        } else {
            None
        }
    }
}

/// Decode exactly `count` outgoing expressions.
pub open spec fn dec_out_expr_list(s: Seq<u8>, n_types: int, n_bindings: int, count: nat) -> Option<
    (Seq<OutgoingExprView>, Seq<u8>),
>
    decreases s.len(), count + 1,
{
    if count == 0 {
        Some((Seq::empty(), s))
    } else {
        match dec_out_expr(s, n_types, n_bindings) {
            None => None,
            Some((e, rest)) => if rest.len() < s.len() {
                match dec_out_expr_list(rest, n_types, n_bindings, (count - 1) as nat) {
                    None => None,
                    Some((tail, rest2)) => Some((seq![e] + tail, rest2)),
                }
            } else {
                None
            },
        }
    }
}

#[verifier::rlimit(100)]
#[verifier::spinoff_prover]
pub proof fn lemma_dec_enc_out_expr(
    e: OutgoingExprView,
    rest: Seq<u8>,
    n_types: int,
    n_bindings: int,
)
    requires
        wf_out_expr(e, n_types, n_bindings),
    ensures
        dec_out_expr(enc_out_expr(e) + rest, n_types, n_bindings) == Some((e, rest)),
    decreases e,
{
    let s = enc_out_expr(e) + rest;
    match e {
        OutgoingExprView::As { ty, idx } => {
            assert(s.subrange(1, s.len() as int) =~= enc_type_ref(ty) + (enc_u32(idx) + rest));
            lemma_dec_enc_type_ref(ty, enc_u32(idx) + rest, n_types);
            lemma_dec_enc_u32(idx, rest);
        },
        OutgoingExprView::Utf8Str { ty, offset, length } => {
            let r2 = enc_u32(offset) + (enc_u32(length) + rest);
            assert(s.subrange(1, s.len() as int) =~= enc_type_ref(ty) + r2);
            lemma_dec_enc_type_ref(ty, r2, n_types);
            lemma_dec_enc_u32(offset, enc_u32(length) + rest);
            lemma_dec_enc_u32(length, rest);
        },
        OutgoingExprView::Utf8CStr { ty, offset } => {
            assert(s.subrange(1, s.len() as int) =~= enc_type_ref(ty) + (enc_u32(offset) + rest));
            lemma_dec_enc_type_ref(ty, enc_u32(offset) + rest, n_types);
            lemma_dec_enc_u32(offset, rest);
        },
        OutgoingExprView::I32ToEnum { ty, idx } => {
            assert(s.subrange(1, s.len() as int) =~= enc_type_ref(ty) + (enc_u32(idx) + rest));
            lemma_dec_enc_type_ref(ty, enc_u32(idx) + rest, n_types);
            lemma_dec_enc_u32(idx, rest);
        },
        OutgoingExprView::View { ty, offset, length } => {
            let r2 = enc_u32(offset) + (enc_u32(length) + rest);
            assert(s.subrange(1, s.len() as int) =~= enc_type_ref(ty) + r2);
            lemma_dec_enc_type_ref(ty, r2, n_types);
            lemma_dec_enc_u32(offset, enc_u32(length) + rest);
            lemma_dec_enc_u32(length, rest);
        },
        OutgoingExprView::Copy { ty, offset, length } => {
            let r2 = enc_u32(offset) + (enc_u32(length) + rest);
            assert(s.subrange(1, s.len() as int) =~= enc_type_ref(ty) + r2);
            lemma_dec_enc_type_ref(ty, r2, n_types);
            lemma_dec_enc_u32(offset, enc_u32(length) + rest);
            lemma_dec_enc_u32(length, rest);
        },
        OutgoingExprView::Dict { ty, fields } => {
            let r3 = enc_out_expr_list(fields) + rest;
            let r2 = enc_u32(fields.len() as u32) + r3;
            assert(s.subrange(1, s.len() as int) =~= enc_type_ref(ty) + r2);
            lemma_dec_enc_type_ref(ty, r2, n_types);
            lemma_dec_enc_u32(fields.len() as u32, r3);
            assert(r3.len() < s.len());
            lemma_dec_enc_out_expr_list(fields, rest, n_types, n_bindings);
        },
        OutgoingExprView::BindExport { ty, binding, idx } => {
            let r2 = enc_u32(binding.0) + (enc_u32(idx) + rest);
            assert(s.subrange(1, s.len() as int) =~= enc_type_ref(ty) + r2);
            lemma_dec_enc_type_ref(ty, r2, n_types);
            lemma_dec_enc_u32(binding.0, enc_u32(idx) + rest);
            lemma_dec_enc_u32(idx, rest);
        },
    }
}

pub proof fn lemma_dec_enc_out_expr_list(
    s: Seq<OutgoingExprView>,
    rest: Seq<u8>,
    n_types: int,
    n_bindings: int,
)
    requires
        forall|i: int| 0 <= i < s.len() ==> wf_out_expr(#[trigger] s[i], n_types, n_bindings),
    ensures
        dec_out_expr_list(enc_out_expr_list(s) + rest, n_types, n_bindings, s.len() as nat)
            == Some((s, rest)),
    decreases s,
{
    if s.len() == 0 {
        assert(enc_out_expr_list(s) + rest =~= rest);
    } else {
        let tail = s.subrange(1, s.len() as int);
        let r1 = enc_out_expr_list(tail) + rest;
        assert(enc_out_expr_list(s) + rest =~= enc_out_expr(s[0]) + r1);
        lemma_dec_enc_out_expr(s[0], r1, n_types, n_bindings);
        assert(enc_out_expr(s[0]).len() >= 1);
        lemma_dec_enc_out_expr_list(tail, rest, n_types, n_bindings);
        assert(seq![s[0]] + tail =~= s);
    }
}

// ---------------------------------------------------------------------------
// Incoming expression trees
// ---------------------------------------------------------------------------

/// An incoming expression: a variant tag, the variant's fields, then its
/// sub-expression, recursively.
pub open spec fn enc_in_expr(e: IncomingExprView) -> Seq<u8>
    decreases e,
{
    match e {
        IncomingExprView::Get { idx } => seq![0u8] + enc_u32(idx),
        IncomingExprView::As { ty, expr } => seq![1u8, val_type_tag(ty)] + enc_in_expr(*expr),
        IncomingExprView::AllocUtf8Str { alloc_func_name, expr } => seq![2u8] + enc_str(
            alloc_func_name,
        ) + enc_in_expr(*expr),
        IncomingExprView::AllocCopy { alloc_func_name, expr } => seq![3u8] + enc_str(
            alloc_func_name,
        ) + enc_in_expr(*expr),
        IncomingExprView::EnumToI32 { ty, expr } => seq![4u8] + enc_type_ref(ty) + enc_in_expr(
            *expr,
        ),
        IncomingExprView::Field { idx, expr } => seq![5u8] + enc_u32(idx) + enc_in_expr(*expr),
        IncomingExprView::BindImport { ty, binding, expr } => seq![6u8] + enc_u32(ty.0) + enc_u32(
            binding.0,
        ) + enc_in_expr(*expr),
    }
}

/// Decode one incoming expression; fails on an unknown tag, on a binding
/// reference at or past `n_bindings`, and on a host function-type reference
/// at or past `n_host_types`.
pub open spec fn dec_in_expr(
    s: Seq<u8>,
    n_types: int,
    n_bindings: int,
    n_host_types: int,
) -> Option<(IncomingExprView, Seq<u8>)>
    decreases s.len(),
{
    if s.len() == 0 {
        None
    } else {
        let s1 = s.subrange(1, s.len() as int);
        if s[0] == 0 {
            match dec_u32(s1) {
                None => None,
                Some((idx, rest)) => Some((IncomingExprView::Get { idx }, rest)),
            }
        } else if s[0] == 1 {
            match dec_val_type(s1) {
                None => None,
                Some((ty, s2)) => if s2.len() < s.len() {
                    match dec_in_expr(s2, n_types, n_bindings, n_host_types) {
                        None => None,
                        Some((expr, rest)) => Some(
                            (IncomingExprView::As { ty, expr: Box::new(expr) }, rest),
                        ),
                    }
                } else {
                    None
                },
            }
        } else if s[0] == 2 {
            match dec_str(s1) {
                None => None,
                Some((name, s2)) => if s2.len() < s.len() {
                    match dec_in_expr(s2, n_types, n_bindings, n_host_types) {
                        None => None,
                        Some((expr, rest)) => Some(
                            (
                                IncomingExprView::AllocUtf8Str {
                                    alloc_func_name: name,
                                    expr: Box::new(expr),
                                },
                                rest,
                            ),
                        ),
                    }
                } else {
                    None
                },
            }
        } else if s[0] == 3 {
            match dec_str(s1) {
                None => None,
                Some((name, s2)) => if s2.len() < s.len() {
                    match dec_in_expr(s2, n_types, n_bindings, n_host_types) {
                        None => None,
                        Some((expr, rest)) => Some(
                            (
                                IncomingExprView::AllocCopy {
                                    alloc_func_name: name,
                                    expr: Box::new(expr),
                                },
                                rest,
                            ),
                        ),
                    }
                } else {
                    None
                },
            }
        } else if s[0] == 4 {
            match dec_type_ref(s1, n_types) {
                None => None,
                Some((ty, s2)) => if s2.len() < s.len() {
                    match dec_in_expr(s2, n_types, n_bindings, n_host_types) {
                        None => None,
                        Some((expr, rest)) => Some(
                            (IncomingExprView::EnumToI32 { ty, expr: Box::new(expr) }, rest),
                        ),
                    }
                } else {
                    None
                },
            }
        } else if s[0] == 5 {
            match dec_u32(s1) {
                None => None,
                Some((idx, s2)) => if s2.len() < s.len() {
                    match dec_in_expr(s2, n_types, n_bindings, n_host_types) {
                        None => None,
                        Some((expr, rest)) => Some(
                            (IncomingExprView::Field { idx, expr: Box::new(expr) }, rest),
                        ),
                    }
                } else {
                    None
                },
            }
        } else if s[0] == 6 {
            match dec_u32(s1) {
                None => None,
                Some((t, s2)) => if (t as int) < n_host_types {
                    match dec_u32(s2) {
                        None => None,
                        Some((b, s3)) => if (b as int) < n_bindings && s3.len() < s.len() {
                            match dec_in_expr(s3, n_types, n_bindings, n_host_types) {
                                None => None,
                                Some((expr, rest)) => Some(
                                    (
                                        IncomingExprView::BindImport {
                                            ty: WasmFuncTypeId(t),
                                            binding: BindingId(b),
                                            expr: Box::new(expr),
                                        },
                                        rest,
                                    ),
                                ),
                            }
                        } else {
                            None
                        },
                    }
                } else {
                    None
                },
            }
        } else {
            None
        }
    }
}

#[verifier::rlimit(100)]
#[verifier::spinoff_prover]
pub proof fn lemma_dec_enc_in_expr(
    e: IncomingExprView,
    rest: Seq<u8>,
    n_types: int,
    n_bindings: int,
    n_host_types: int,
)
    requires
        wf_in_expr(e, n_types, n_bindings, n_host_types),
    ensures
        dec_in_expr(enc_in_expr(e) + rest, n_types, n_bindings, n_host_types) == Some((e, rest)),
    decreases e,
{
    let s = enc_in_expr(e) + rest;
    match e {
        IncomingExprView::Get { idx } => {
            assert(s.subrange(1, s.len() as int) =~= enc_u32(idx) + rest);
            lemma_dec_enc_u32(idx, rest);
        },
        IncomingExprView::As { ty, expr } => {
            assert(s.subrange(1, s.len() as int) =~= seq![val_type_tag(ty)] + (enc_in_expr(*expr)
                + rest));
            lemma_dec_enc_val_type(ty, enc_in_expr(*expr) + rest);
            lemma_dec_enc_in_expr(*expr, rest, n_types, n_bindings, n_host_types);
        },
        IncomingExprView::AllocUtf8Str { alloc_func_name, expr } => {
            let r1 = enc_in_expr(*expr) + rest;
            assert(s.subrange(1, s.len() as int) =~= enc_str(alloc_func_name) + r1);
            lemma_dec_enc_str(alloc_func_name, r1);
            assert(enc_str(alloc_func_name).len() >= 1);
            lemma_dec_enc_in_expr(*expr, rest, n_types, n_bindings, n_host_types);
        },
        IncomingExprView::AllocCopy { alloc_func_name, expr } => {
            let r1 = enc_in_expr(*expr) + rest;
            assert(s.subrange(1, s.len() as int) =~= enc_str(alloc_func_name) + r1);
            lemma_dec_enc_str(alloc_func_name, r1);
            assert(enc_str(alloc_func_name).len() >= 1);
            lemma_dec_enc_in_expr(*expr, rest, n_types, n_bindings, n_host_types);
        },
        IncomingExprView::EnumToI32 { ty, expr } => {
            let r1 = enc_in_expr(*expr) + rest;
            assert(s.subrange(1, s.len() as int) =~= enc_type_ref(ty) + r1);
            lemma_dec_enc_type_ref(ty, r1, n_types);
            assert(enc_type_ref(ty).len() >= 1);
            lemma_dec_enc_in_expr(*expr, rest, n_types, n_bindings, n_host_types);
        },
        IncomingExprView::Field { idx, expr } => {
            let r1 = enc_in_expr(*expr) + rest;
            assert(s.subrange(1, s.len() as int) =~= enc_u32(idx) + r1);
            lemma_dec_enc_u32(idx, r1);
            assert(enc_u32(idx).len() >= 1);
            lemma_dec_enc_in_expr(*expr, rest, n_types, n_bindings, n_host_types);
        },
        IncomingExprView::BindImport { ty, binding, expr } => {
            let r2 = enc_u32(binding.0) + (enc_in_expr(*expr) + rest);
            assert(s.subrange(1, s.len() as int) =~= enc_u32(ty.0) + r2);
            lemma_dec_enc_u32(ty.0, r2);
            lemma_dec_enc_u32(binding.0, enc_in_expr(*expr) + rest);
            assert(enc_u32(ty.0).len() >= 1);
            assert(enc_u32(binding.0).len() >= 1);
            lemma_dec_enc_in_expr(*expr, rest, n_types, n_bindings, n_host_types);
        },
    }
}

/// Concatenated encodings of a list of incoming expressions.
pub open spec fn enc_in_expr_list(s: Seq<IncomingExprView>) -> Seq<u8>
    decreases s,
{
    if s.len() == 0 {
        Seq::empty()
    } else {
        enc_in_expr(s[0]) + enc_in_expr_list(s.subrange(1, s.len() as int))
    }
}

/// Decode exactly `count` incoming expressions.
pub open spec fn dec_in_expr_list(
    s: Seq<u8>,
    n_types: int,
    n_bindings: int,
    n_host_types: int,
    count: nat,
) -> Option<(Seq<IncomingExprView>, Seq<u8>)>
    decreases count,
{
    if count == 0 {
        Some((Seq::empty(), s))
    } else {
        match dec_in_expr(s, n_types, n_bindings, n_host_types) {
            None => None,
            Some((e, rest)) => match dec_in_expr_list(
                rest,
                n_types,
                n_bindings,
                n_host_types,
                (count - 1) as nat,
            ) {
                None => None,
                Some((tail, rest2)) => Some((seq![e] + tail, rest2)),
            },
        }
    }
}

pub proof fn lemma_dec_enc_in_expr_list(
    s: Seq<IncomingExprView>,
    rest: Seq<u8>,
    n_types: int,
    n_bindings: int,
    n_host_types: int,
)
    requires
        forall|i: int|
            0 <= i < s.len() ==> wf_in_expr(#[trigger] s[i], n_types, n_bindings, n_host_types),
    ensures
        dec_in_expr_list(enc_in_expr_list(s) + rest, n_types, n_bindings, n_host_types, s.len() as nat)
            == Some((s, rest)),
    decreases s.len(),
{
    if s.len() == 0 {
        assert(enc_in_expr_list(s) + rest =~= rest);
    } else {
        let tail = s.subrange(1, s.len() as int);
        let r1 = enc_in_expr_list(tail) + rest;
        assert(enc_in_expr_list(s) + rest =~= enc_in_expr(s[0]) + r1);
        lemma_dec_enc_in_expr(s[0], r1, n_types, n_bindings, n_host_types);
        lemma_dec_enc_in_expr_list(tail, rest, n_types, n_bindings, n_host_types);
        assert(seq![s[0]] + tail =~= s);
    }
}

// ---------------------------------------------------------------------------
// Binding table entries
// ---------------------------------------------------------------------------

/// The direction tag of a binding.
pub open spec fn binding_tag(b: FunctionBindingView) -> u8 {
    match b {
        FunctionBindingView::Import(_) => 0,
        FunctionBindingView::Export(_) => 1,
    }
}

/// A binding's fields after its direction tag and optional name: host
/// function-type reference, interface type reference, then the two
/// expression maps, each a count followed by its expressions.
pub open spec fn enc_binding_payload(b: FunctionBindingView) -> Seq<u8> {
    match b {
        FunctionBindingView::Import(ib) => enc_u32(ib.wasm_ty.0) + enc_type_ref(ib.webidl_ty)
            + enc_u32(ib.params.len() as u32) + enc_out_expr_list(ib.params) + enc_u32(
            ib.result.len() as u32,
        ) + enc_in_expr_list(ib.result),
        FunctionBindingView::Export(eb) => enc_u32(eb.wasm_ty.0) + enc_type_ref(eb.webidl_ty)
            + enc_u32(eb.params.len() as u32) + enc_in_expr_list(eb.params) + enc_u32(
            eb.result.len() as u32,
        ) + enc_out_expr_list(eb.result),
    }
}

/// Decode a binding payload for direction `tag`; fails on an unknown tag,
/// a host reference at or past `n_host_types`, or any inner failure.
pub open spec fn dec_binding_payload(
    s: Seq<u8>,
    tag: u8,
    n_types: int,
    n_bindings: int,
    n_host_types: int,
) -> Option<(FunctionBindingView, Seq<u8>)> {
    if tag != 0 && tag != 1 {
        None
    } else {
        match dec_u32(s) {
            None => None,
            Some((wt, s1)) => if (wt as int) < n_host_types {
                match dec_type_ref(s1, n_types) {
                    None => None,
                    Some((webidl_ty, s2)) => match dec_u32(s2) {
                        None => None,
                        Some((n_params, s3)) => if tag == 0 {
                            match dec_out_expr_list(s3, n_types, n_bindings, n_params as nat) {
                                None => None,
                                Some((params, s4)) => match dec_u32(s4) {
                                    None => None,
                                    Some((n_results, s5)) => match dec_in_expr_list(
                                        s5,
                                        n_types,
                                        n_bindings,
                                        n_host_types,
                                        n_results as nat,
                                    ) {
                                        None => None,
                                        Some((result, rest)) => Some(
                                            (
                                                FunctionBindingView::Import(
                                                    ImportBindingView {
                                                        wasm_ty: WasmFuncTypeId(wt),
                                                        webidl_ty,
                                                        params,
                                                        result,
                                                    },
                                                ),
                                                rest,
                                            ),
                                        ),
                                    },
                                },
                            }
                        } else {
                            match dec_in_expr_list(
                                s3,
                                n_types,
                                n_bindings,
                                n_host_types,
                                n_params as nat,
                            ) {
                                None => None,
                                Some((params, s4)) => match dec_u32(s4) {
                                    None => None,
                                    Some((n_results, s5)) => match dec_out_expr_list(
                                        s5,
                                        n_types,
                                        n_bindings,
                                        n_results as nat,
                                    ) {
                                        None => None,
                                        Some((result, rest)) => Some(
                                            (
                                                FunctionBindingView::Export(
                                                    ExportBindingView {
                                                        wasm_ty: WasmFuncTypeId(wt),
                                                        webidl_ty,
                                                        params,
                                                        result,
                                                    },
                                                ),
                                                rest,
                                            ),
                                        ),
                                    },
                                },
                            }
                        },
                    },
                }
            } else {
                None
            },
        }
    }
}

#[verifier::rlimit(100)]
#[verifier::spinoff_prover]
pub proof fn lemma_dec_enc_binding_payload(
    b: FunctionBindingView,
    rest: Seq<u8>,
    n_types: int,
    n_bindings: int,
    n_host_types: int,
)
    requires
        wf_binding(b, n_types, n_bindings, n_host_types),
    ensures
        dec_binding_payload(
            enc_binding_payload(b) + rest,
            binding_tag(b),
            n_types,
            n_bindings,
            n_host_types,
        ) == Some((b, rest)),
{
    match b {
        FunctionBindingView::Import(ib) => {
            let r5 = enc_in_expr_list(ib.result) + rest;
            let r4 = enc_u32(ib.result.len() as u32) + r5;
            let r3 = enc_out_expr_list(ib.params) + r4;
            let r2 = enc_u32(ib.params.len() as u32) + r3;
            let r1 = enc_type_ref(ib.webidl_ty) + r2;
            assert(enc_binding_payload(b) + rest =~= enc_u32(ib.wasm_ty.0) + r1);
            lemma_dec_enc_u32(ib.wasm_ty.0, r1);
            lemma_dec_enc_type_ref(ib.webidl_ty, r2, n_types);
            lemma_dec_enc_u32(ib.params.len() as u32, r3);
            lemma_dec_enc_out_expr_list(ib.params, r4, n_types, n_bindings);
            lemma_dec_enc_u32(ib.result.len() as u32, r5);
            lemma_dec_enc_in_expr_list(ib.result, rest, n_types, n_bindings, n_host_types);
        },
        FunctionBindingView::Export(eb) => {
            let r5 = enc_out_expr_list(eb.result) + rest;
            let r4 = enc_u32(eb.result.len() as u32) + r5;
            let r3 = enc_in_expr_list(eb.params) + r4;
            let r2 = enc_u32(eb.params.len() as u32) + r3;
            let r1 = enc_type_ref(eb.webidl_ty) + r2;
            assert(enc_binding_payload(b) + rest =~= enc_u32(eb.wasm_ty.0) + r1);
            lemma_dec_enc_u32(eb.wasm_ty.0, r1);
            lemma_dec_enc_type_ref(eb.webidl_ty, r2, n_types);
            lemma_dec_enc_u32(eb.params.len() as u32, r3);
            lemma_dec_enc_in_expr_list(eb.params, r4, n_types, n_bindings, n_host_types);
            lemma_dec_enc_u32(eb.result.len() as u32, r5);
            lemma_dec_enc_out_expr_list(eb.result, rest, n_types, n_bindings);
        },
    }
}

// ---------------------------------------------------------------------------
// The type table
// ---------------------------------------------------------------------------

/// The kind tag of a compound type.
pub open spec fn compound_tag(c: CompoundTypeView) -> u8 {
    match c {
        CompoundTypeView::Function(_) => 0,
        CompoundTypeView::Dictionary(_) => 1,
        CompoundTypeView::Enumeration(_) => 2,
        CompoundTypeView::Union(_) => 3,
    }
}

/// A compound type's payload after its kind tag and optional name.
pub open spec fn enc_compound_payload(c: CompoundTypeView) -> Seq<u8> {
    match c {
        CompoundTypeView::Function(f) => enc_function(f),
        CompoundTypeView::Dictionary(d) => enc_dictionary(d),
        CompoundTypeView::Enumeration(e) => enc_enumeration(e),
        CompoundTypeView::Union(u) => enc_union(u),
    }
}

/// Decode a compound payload for kind `tag`; fails on an unknown tag.
pub open spec fn dec_compound_payload(s: Seq<u8>, tag: u8, n_types: int) -> Option<
    (CompoundTypeView, Seq<u8>),
> {
    if tag == 0 {
        match dec_function(s, n_types) {
            None => None,
            Some((f, rest)) => Some((CompoundTypeView::Function(f), rest)),
        }
    } else if tag == 1 {
        match dec_dictionary(s, n_types) {
            None => None,
            Some((d, rest)) => Some((CompoundTypeView::Dictionary(d), rest)),
        }
    } else if tag == 2 {
        match dec_enumeration(s) {
            None => None,
            Some((e, rest)) => Some((CompoundTypeView::Enumeration(e), rest)),
        }
    } else if tag == 3 {
        match dec_union(s, n_types) {
            None => None,
            Some((u, rest)) => Some((CompoundTypeView::Union(u), rest)),
        }
    } else {
        None
    }
}

pub proof fn lemma_dec_enc_compound_payload(c: CompoundTypeView, rest: Seq<u8>, n_types: int)
    requires
        wf_compound(c, n_types),
    ensures
        dec_compound_payload(enc_compound_payload(c) + rest, compound_tag(c), n_types) == Some(
            (c, rest),
        ),
{
    match c {
        CompoundTypeView::Function(f) => lemma_dec_enc_function(f, rest, n_types),
        CompoundTypeView::Dictionary(d) => lemma_dec_enc_dictionary(d, rest, n_types),
        CompoundTypeView::Enumeration(e) => lemma_dec_enc_enumeration(e, rest),
        CompoundTypeView::Union(u) => lemma_dec_enc_union(u, rest, n_types),
    }
}

/// The type table entries from declaration index `i` on, each as kind tag,
/// optional name, payload; a name record whose index matches the entry's is
/// consumed with it.
pub open spec fn enc_type_entries(
    entries: Seq<CompoundTypeView>,
    names: Seq<(Seq<char>, u32)>,
    i: int,
) -> Seq<u8>
    decreases entries.len(),
{
    if entries.len() == 0 {
        Seq::empty()
    } else {
        let name = if names.len() > 0 && names[0].1 == i {
            Some(names[0].0)
        } else {
            None
        };
        let names_rest = if names.len() > 0 && names[0].1 == i {
            names.subrange(1, names.len() as int)
        } else {
            names
        };
        seq![compound_tag(entries[0])] + enc_opt_name(name) + enc_compound_payload(entries[0])
            + enc_type_entries(entries.subrange(1, entries.len() as int), names_rest, i + 1)
    }
}

/// Decode `count` type table entries starting at declaration index `i`,
/// rebuilding the entry sequence and the name records. Each entry's type
/// references may point only strictly before it.
pub open spec fn dec_type_entries(s: Seq<u8>, i: int, count: nat) -> Option<
    (Seq<CompoundTypeView>, Seq<(Seq<char>, u32)>, Seq<u8>),
>
    decreases count,
{
    if count == 0 {
        Some((Seq::empty(), Seq::empty(), s))
    } else if s.len() == 0 {
        None
    } else {
        let tag = s[0];
        match dec_opt_name(s.subrange(1, s.len() as int)) {
            None => None,
            Some((name, s1)) => match dec_compound_payload(s1, tag, i) {
                None => None,
                Some((c, s2)) => match dec_type_entries(s2, i + 1, (count - 1) as nat) {
                    None => None,
                    Some((tail, names_tail, rest)) => {
                        let names = match name {
                            Some(n) => seq![(n, i as u32)] + names_tail,
                            None => names_tail,
                        };
                        Some((seq![c] + tail, names, rest))
                    },
                },
            },
        }
    }
}

#[verifier::rlimit(100)]
#[verifier::spinoff_prover]
pub proof fn lemma_dec_enc_type_entries(
    entries: Seq<CompoundTypeView>,
    names: Seq<(Seq<char>, u32)>,
    i: int,
    rest: Seq<u8>,
)
    requires
        0 <= i,
        i + entries.len() <= u32::MAX,
        forall|k: int| 0 <= k < entries.len() ==> wf_compound(#[trigger] entries[k], i + k),
        forall|k: int|
            0 <= k < names.len() ==> i <= ((#[trigger] names[k]).1 as int) < i + entries.len(),
        forall|k1: int, k2: int|
            0 <= k1 < k2 < names.len() ==> (#[trigger] names[k1]).1 < (#[trigger] names[k2]).1,
        forall|k: int| 0 <= k < names.len() ==> wf_str((#[trigger] names[k]).0),
    ensures
        dec_type_entries(enc_type_entries(entries, names, i) + rest, i, entries.len() as nat)
            == Some((entries, names, rest)),
    decreases entries.len(),
{
    if entries.len() == 0 {
        assert(enc_type_entries(entries, names, i) + rest =~= rest);
        assert(names.len() == 0);
        assert(names =~= Seq::<(Seq<char>, u32)>::empty());
    } else {
        let has_name = names.len() > 0 && names[0].1 == i;
        let name = if has_name {
            Some(names[0].0)
        } else {
            None
        };
        let names_rest = if has_name {
            names.subrange(1, names.len() as int)
        } else {
            names
        };
        let entries_tail = entries.subrange(1, entries.len() as int);
        let r2 = enc_type_entries(entries_tail, names_rest, i + 1) + rest;
        let r1 = enc_compound_payload(entries[0]) + r2;
        let s = enc_type_entries(entries, names, i) + rest;
        assert(s =~= seq![compound_tag(entries[0])] + (enc_opt_name(name) + r1));
        assert(s[0] == compound_tag(entries[0]));
        assert(s.subrange(1, s.len() as int) =~= enc_opt_name(name) + r1);
        lemma_dec_enc_opt_name(name, r1);
        lemma_dec_enc_compound_payload(entries[0], r2, i);
        lemma_dec_enc_type_entries(entries_tail, names_rest, i + 1, rest);
        assert(seq![entries[0]] + entries_tail =~= entries);
        if has_name {
            assert((names[0].0, i as u32) == names[0]);
            assert(seq![names[0]] + names_rest =~= names);
        }
    }
}

/// The whole type table: entry count, then the entries in declaration
/// order.
pub open spec fn enc_type_table(t: TypesView) -> Seq<u8> {
    enc_u32(t.entries.len() as u32) + enc_type_entries(t.entries, t.names, 0)
}

/// Decode the type table.
pub open spec fn dec_type_table(s: Seq<u8>) -> Option<(TypesView, Seq<u8>)> {
    match dec_u32(s) {
        None => None,
        Some((count, s1)) => match dec_type_entries(s1, 0, count as nat) {
            None => None,
            Some((entries, names, rest)) => Some((TypesView { names, entries }, rest)),
        },
    }
}

pub proof fn lemma_dec_enc_type_table(t: TypesView, rest: Seq<u8>)
    requires
        wf_types(t),
    ensures
        dec_type_table(enc_type_table(t) + rest) == Some((t, rest)),
{
    let r1 = enc_type_entries(t.entries, t.names, 0) + rest;
    assert(enc_type_table(t) + rest =~= enc_u32(t.entries.len() as u32) + r1);
    lemma_dec_enc_u32(t.entries.len() as u32, r1);
    lemma_dec_enc_type_entries(t.entries, t.names, 0, rest);
}

// ---------------------------------------------------------------------------
// The binding table
// ---------------------------------------------------------------------------

/// The binding table entries from declaration index `i` on, each as
/// direction tag, optional name, payload.
pub open spec fn enc_binding_entries(
    entries: Seq<FunctionBindingView>,
    names: Seq<(Seq<char>, u32)>,
    i: int,
) -> Seq<u8>
    decreases entries.len(),
{
    if entries.len() == 0 {
        Seq::empty()
    } else {
        let name = if names.len() > 0 && names[0].1 == i {
            Some(names[0].0)
        } else {
            None
        };
        let names_rest = if names.len() > 0 && names[0].1 == i {
            names.subrange(1, names.len() as int)
        } else {
            names
        };
        seq![binding_tag(entries[0])] + enc_opt_name(name) + enc_binding_payload(entries[0])
            + enc_binding_entries(entries.subrange(1, entries.len() as int), names_rest, i + 1)
    }
}

/// Decode `count` binding table entries starting at declaration index `i`.
/// Binding references inside an entry's expressions may point only strictly
/// before it.
pub open spec fn dec_binding_entries(
    s: Seq<u8>,
    i: int,
    count: nat,
    n_types: int,
    n_host_types: int,
) -> Option<(Seq<FunctionBindingView>, Seq<(Seq<char>, u32)>, Seq<u8>)>
    decreases count,
{
    if count == 0 {
        Some((Seq::empty(), Seq::empty(), s))
    } else if s.len() == 0 {
        None
    } else {
        let tag = s[0];
        match dec_opt_name(s.subrange(1, s.len() as int)) {
            None => None,
            Some((name, s1)) => match dec_binding_payload(s1, tag, n_types, i, n_host_types) {
                None => None,
                Some((b, s2)) => match dec_binding_entries(
                    s2,
                    i + 1,
                    (count - 1) as nat,
                    n_types,
                    n_host_types,
                ) {
                    None => None,
                    Some((tail, names_tail, rest)) => {
                        let names = match name {
                            Some(n) => seq![(n, i as u32)] + names_tail,
                            None => names_tail,
                        };
                        Some((seq![b] + tail, names, rest))
                    },
                },
            },
        }
    }
}

#[verifier::rlimit(100)]
#[verifier::spinoff_prover]
pub proof fn lemma_dec_enc_binding_entries(
    entries: Seq<FunctionBindingView>,
    names: Seq<(Seq<char>, u32)>,
    i: int,
    rest: Seq<u8>,
    n_types: int,
    n_host_types: int,
)
    requires
        0 <= i,
        i + entries.len() <= u32::MAX,
        forall|k: int|
            0 <= k < entries.len() ==> wf_binding(
                #[trigger] entries[k],
                n_types,
                i + k,
                n_host_types,
            ),
        forall|k: int|
            0 <= k < names.len() ==> i <= ((#[trigger] names[k]).1 as int) < i + entries.len(),
        forall|k1: int, k2: int|
            0 <= k1 < k2 < names.len() ==> (#[trigger] names[k1]).1 < (#[trigger] names[k2]).1,
        forall|k: int| 0 <= k < names.len() ==> wf_str((#[trigger] names[k]).0),
    ensures
        dec_binding_entries(
            enc_binding_entries(entries, names, i) + rest,
            i,
            entries.len() as nat,
            n_types,
            n_host_types,
        ) == Some((entries, names, rest)),
    decreases entries.len(),
{
    if entries.len() == 0 {
        assert(enc_binding_entries(entries, names, i) + rest =~= rest);
        assert(names.len() == 0);
        assert(names =~= Seq::<(Seq<char>, u32)>::empty());
    } else {
        let has_name = names.len() > 0 && names[0].1 == i;
        let name = if has_name {
            Some(names[0].0)
        } else {
            None
        };
        let names_rest = if has_name {
            names.subrange(1, names.len() as int)
        } else {
            names
        };
        let entries_tail = entries.subrange(1, entries.len() as int);
        let r2 = enc_binding_entries(entries_tail, names_rest, i + 1) + rest;
        let r1 = enc_binding_payload(entries[0]) + r2;
        let s = enc_binding_entries(entries, names, i) + rest;
        assert(s =~= seq![binding_tag(entries[0])] + (enc_opt_name(name) + r1));
        assert(s[0] == binding_tag(entries[0]));
        assert(s.subrange(1, s.len() as int) =~= enc_opt_name(name) + r1);
        lemma_dec_enc_opt_name(name, r1);
        lemma_dec_enc_binding_payload(entries[0], r2, n_types, i, n_host_types);
        lemma_dec_enc_binding_entries(entries_tail, names_rest, i + 1, rest, n_types, n_host_types);
        assert(seq![entries[0]] + entries_tail =~= entries);
        if has_name {
            assert((names[0].0, i as u32) == names[0]);
            assert(seq![names[0]] + names_rest =~= names);
        }
    }
}

/// The whole binding table: entry count, then the entries in declaration
/// order.
pub open spec fn enc_binding_table(b: BindingsView) -> Seq<u8> {
    enc_u32(b.entries.len() as u32) + enc_binding_entries(b.entries, b.names, 0)
}

/// Decode the binding table.
pub open spec fn dec_binding_table(s: Seq<u8>, n_types: int, n_host_types: int) -> Option<
    (BindingsView, Seq<u8>),
> {
    match dec_u32(s) {
        None => None,
        Some((count, s1)) => match dec_binding_entries(s1, 0, count as nat, n_types, n_host_types) {
            None => None,
            Some((entries, names, rest)) => Some((BindingsView { names, entries }, rest)),
        },
    }
}

pub proof fn lemma_dec_enc_binding_table(
    b: BindingsView,
    rest: Seq<u8>,
    n_types: int,
    n_host_types: int,
)
    requires
        wf_bindings(b, n_types, n_host_types),
    ensures
        dec_binding_table(enc_binding_table(b) + rest, n_types, n_host_types) == Some((b, rest)),
{
    let r1 = enc_binding_entries(b.entries, b.names, 0) + rest;
    assert(enc_binding_table(b) + rest =~= enc_u32(b.entries.len() as u32) + r1);
    lemma_dec_enc_u32(b.entries.len() as u32, r1);
    lemma_dec_enc_binding_entries(b.entries, b.names, 0, rest, n_types, n_host_types);
}

// ---------------------------------------------------------------------------
// The bind table, and the whole section
// ---------------------------------------------------------------------------

/// Concatenated encodings of bind statements: each a host function
/// reference and a binding reference.
pub open spec fn enc_bind_list(s: Seq<Bind>) -> Seq<u8>
    decreases s.len(),
{
    if s.len() == 0 {
        Seq::empty()
    } else {
        enc_u32(s[0].func.0) + enc_u32(s[0].binding.0) + enc_bind_list(s.subrange(1, s.len() as int))
    }
}

/// Decode exactly `count` bind statements; a host function reference at or
/// past `n_host_funcs`, or a binding reference at or past `n_bindings`,
/// fails.
pub open spec fn dec_bind_list(s: Seq<u8>, count: nat, n_bindings: int, n_host_funcs: int) -> Option<
    (Seq<Bind>, Seq<u8>),
>
    decreases count,
{
    if count == 0 {
        Some((Seq::empty(), s))
    } else {
        match dec_u32(s) {
            None => None,
            Some((f, s1)) => if (f as int) < n_host_funcs {
                match dec_u32(s1) {
                    None => None,
                    Some((b, rest)) => if (b as int) < n_bindings {
                        match dec_bind_list(rest, (count - 1) as nat, n_bindings, n_host_funcs) {
                            None => None,
                            Some((tail, rest2)) => Some(
                                (
                                    seq![Bind { func: WasmFuncId(f), binding: BindingId(b) }]
                                        + tail,
                                    rest2,
                                ),
                            ),
                        }
                    } else {
                        None
                    },
                }
            } else {
                None
            },
        }
    }
}

pub proof fn lemma_dec_enc_bind_list(s: Seq<Bind>, rest: Seq<u8>, n_bindings: int, n_host_funcs: int)
    requires
        forall|i: int| 0 <= i < s.len() ==> ((#[trigger] s[i]).binding.0 as int) < n_bindings,
        forall|i: int| 0 <= i < s.len() ==> ((#[trigger] s[i]).func.0 as int) < n_host_funcs,
    ensures
        dec_bind_list(enc_bind_list(s) + rest, s.len() as nat, n_bindings, n_host_funcs) == Some(
            (s, rest),
        ),
    decreases s.len(),
{
    if s.len() == 0 {
        assert(enc_bind_list(s) + rest =~= rest);
    } else {
        let tail = s.subrange(1, s.len() as int);
        let r1 = enc_u32(s[0].binding.0) + (enc_bind_list(tail) + rest);
        assert(enc_bind_list(s) + rest =~= enc_u32(s[0].func.0) + r1);
        lemma_dec_enc_u32(s[0].func.0, r1);
        lemma_dec_enc_u32(s[0].binding.0, enc_bind_list(tail) + rest);
        lemma_dec_enc_bind_list(tail, rest, n_bindings, n_host_funcs);
        assert(seq![s[0]] + tail =~= s);
        assert(Bind { func: WasmFuncId(s[0].func.0), binding: BindingId(s[0].binding.0) } == s[0]);
    }
}

/// The bind table: statement count, then each statement.
pub open spec fn enc_bind_table(s: Seq<Bind>) -> Seq<u8> {
    enc_u32(s.len() as u32) + enc_bind_list(s)
}

/// Decode the bind table.
pub open spec fn dec_bind_table(s: Seq<u8>, n_bindings: int, n_host_funcs: int) -> Option<
    (Seq<Bind>, Seq<u8>),
> {
    match dec_u32(s) {
        None => None,
        Some((count, s1)) => match dec_bind_list(s1, count as nat, n_bindings, n_host_funcs) {
            None => None,
            Some((binds, rest)) => Some((binds, rest)),
        },
    }
}

pub proof fn lemma_dec_enc_bind_table(s: Seq<Bind>, rest: Seq<u8>, n_bindings: int, n_host_funcs: int)
    requires
        s.len() <= u32::MAX,
        forall|i: int| 0 <= i < s.len() ==> ((#[trigger] s[i]).binding.0 as int) < n_bindings,
        forall|i: int| 0 <= i < s.len() ==> ((#[trigger] s[i]).func.0 as int) < n_host_funcs,
    ensures
        dec_bind_table(enc_bind_table(s) + rest, n_bindings, n_host_funcs) == Some((s, rest)),
{
    let r1 = enc_bind_list(s) + rest;
    assert(enc_bind_table(s) + rest =~= enc_u32(s.len() as u32) + r1);
    lemma_dec_enc_u32(s.len() as u32, r1);
    lemma_dec_enc_bind_list(s, rest, n_bindings, n_host_funcs);
}

/// The whole section: type table, then binding table, then bind table.
/// This order is a hard invariant of the format: it makes every reference
/// point into an already-decoded region.
pub open spec fn enc_section(v: SectionView) -> Seq<u8> {
    enc_type_table(v.types) + enc_binding_table(v.bindings) + enc_bind_table(v.binds)
}

/// Decode a whole section against the host module's index bounds. Fails on
/// any malformed construct and on trailing bytes: all or nothing.
pub open spec fn dec_section(s: Seq<u8>, host: HostIndexBounds) -> Option<SectionView> {
    match dec_type_table(s) {
        None => None,
        Some((types, s1)) => match dec_binding_table(
            s1,
            types.entries.len() as int,
            host.n_func_types as int,
        ) {
            None => None,
            Some((bindings, s2)) => match dec_bind_table(
                s2,
                bindings.entries.len() as int,
                host.n_funcs as int,
            ) {
                None => None,
                Some((binds, rest)) => if rest.len() == 0 {
                    Some(SectionView { types, bindings, binds })
                } else {
                    None
                },
            },
        },
    }
}

/// Round-trip identity at the specification level: decoding an encoded
/// well-formed section yields it back, tables, order, names and
/// cross-references all preserved.
pub proof fn lemma_dec_enc_section(v: SectionView, host: HostIndexBounds)
    requires
        wf_section(v, host),
    ensures
        dec_section(enc_section(v), host) == Some(v),
{
    let r2 = enc_bind_table(v.binds);
    let r1 = enc_binding_table(v.bindings) + r2;
    assert(enc_section(v) =~= enc_type_table(v.types) + r1);
    lemma_dec_enc_type_table(v.types, r1);
    lemma_dec_enc_binding_table(
        v.bindings,
        r2,
        v.types.entries.len() as int,
        host.n_func_types as int,
    );
    assert(r2 =~= enc_bind_table(v.binds) + Seq::<u8>::empty());
    lemma_dec_enc_bind_table(
        v.binds,
        Seq::<u8>::empty(),
        v.bindings.entries.len() as int,
        host.n_funcs as int,
    );
    assert(v =~= SectionView { types: v.types, bindings: v.bindings, binds: v.binds });
}

/// Unfolding an outgoing expression list encoding from the back.
pub proof fn lemma_enc_out_expr_list_snoc(s: Seq<OutgoingExprView>)
    requires
        s.len() > 0,
    ensures
        enc_out_expr_list(s) == enc_out_expr_list(s.drop_last()) + enc_out_expr(s.last()),
    decreases s.len(),
{
    if s.len() == 1 {
        assert(s.drop_last() =~= Seq::<OutgoingExprView>::empty());
        assert(s.subrange(1, s.len() as int) =~= Seq::<OutgoingExprView>::empty());
        assert(enc_out_expr_list(s.subrange(1, s.len() as int)) =~= Seq::<u8>::empty());
        assert(enc_out_expr_list(s) =~= enc_out_expr_list(s.drop_last()) + enc_out_expr(s.last()));
    } else {
        let tail = s.subrange(1, s.len() as int);
        lemma_enc_out_expr_list_snoc(tail);
        assert(tail.drop_last() =~= s.drop_last().subrange(1, s.drop_last().len() as int));
        assert(tail.last() == s.last());
        assert(s.drop_last()[0] == s[0]);
        assert(s.drop_last().len() > 0);
        assert(enc_out_expr_list(s) =~= enc_out_expr_list(s.drop_last()) + enc_out_expr(s.last()));
    }
}

// ---------------------------------------------------------------------------
// Executable encoder
// ---------------------------------------------------------------------------

fn encode_u32(out: &mut Vec<u8>, n: u32)
    ensures
        final(out)@ == old(out)@ + enc_u32(n),
    decreases n,
{
    if n < 128 {
        out.push(n as u8);
        assert(out@ =~= old(out)@ + enc_u32(n));
    } else {
        out.push((n % 128 + 128) as u8);
        encode_u32(out, n / 128);
        assert(out@ =~= old(out)@ + enc_u32(n));
    }
}

fn encode_str(out: &mut Vec<u8>, s: &str)
    requires
        wf_str(s@),
    ensures
        final(out)@ == old(out)@ + enc_str(s@),
{
    let mut bytes = s.as_bytes_vec();
    let n: u32 = bytes.len() as u32;
    encode_u32(out, n);
    out.append(&mut bytes);
    assert(out@ =~= old(out)@ + enc_str(s@));
}

fn encode_opt_name(out: &mut Vec<u8>, n: Option<&String>)
    requires
        n matches Some(s) ==> wf_str(s@),
    ensures
        final(out)@ == old(out)@ + enc_opt_name(match n {
            Some(s) => Some(s@),
            None => None,
        }),
{
    match n {
        None => {
            out.push(0u8);
            assert(out@ =~= old(out)@ + enc_opt_name(None));
        },
        Some(s) => {
            out.push(1u8);
            encode_str(out, s.as_str());
            assert(out@ =~= old(out)@ + enc_opt_name(Some(s@)));
        },
    }
}

fn scalar_tag_exec(t: WebidlScalarType) -> (r: u8)
    ensures
        r == scalar_tag(t),
{
    match t {
        WebidlScalarType::Any => 0,
        WebidlScalarType::Boolean => 1,
        WebidlScalarType::Byte => 2,
        WebidlScalarType::Octet => 3,
        WebidlScalarType::Long => 4,
        WebidlScalarType::UnsignedLong => 5,
        WebidlScalarType::Short => 6,
        WebidlScalarType::UnsignedShort => 7,
        WebidlScalarType::LongLong => 8,
        WebidlScalarType::UnsignedLongLong => 9,
        WebidlScalarType::Float => 10,
        WebidlScalarType::UnrestrictedFloat => 11,
        WebidlScalarType::Double => 12,
        WebidlScalarType::UnrestrictedDouble => 13,
        WebidlScalarType::DomString => 14,
        WebidlScalarType::ByteString => 15,
        WebidlScalarType::UsvString => 16,
        WebidlScalarType::Object => 17,
        WebidlScalarType::Symbol => 18,
        WebidlScalarType::ArrayBuffer => 19,
        WebidlScalarType::DataView => 20,
        WebidlScalarType::Int8Array => 21,
        WebidlScalarType::Int16Array => 22,
        WebidlScalarType::Int32Array => 23,
        WebidlScalarType::Uint8Array => 24,
        WebidlScalarType::Uint16Array => 25,
        WebidlScalarType::Uint32Array => 26,
        WebidlScalarType::Uint8ClampedArray => 27,
        WebidlScalarType::Float32Array => 28,
        WebidlScalarType::Float64Array => 29,
    }
}

fn encode_type_ref(out: &mut Vec<u8>, r: &WebidlTypeRef)
    ensures
        final(out)@ == old(out)@ + enc_type_ref(*r),
{
    match r {
        WebidlTypeRef::Id(id) => {
            out.push(0u8);
            encode_u32(out, id.0);
            assert(out@ =~= old(out)@ + enc_type_ref(*r));
        },
        WebidlTypeRef::Scalar(t) => {
            out.push(1u8);
            out.push(scalar_tag_exec(*t));
            assert(out@ =~= old(out)@ + enc_type_ref(*r));
        },
    }
}

fn encode_val_type(out: &mut Vec<u8>, t: WasmValType)
    ensures
        final(out)@ == old(out)@ + seq![val_type_tag(t)],
{
    let b: u8 = match t {
        WasmValType::I32 => 0,
        WasmValType::I64 => 1,
        WasmValType::F32 => 2,
        WasmValType::F64 => 3,
        WasmValType::V128 => 4,
        WasmValType::Anyref => 5,
    };
    out.push(b);
    assert(out@ =~= old(out)@ + seq![val_type_tag(t)]);
}

fn encode_type_ref_list(out: &mut Vec<u8>, s: &Vec<WebidlTypeRef>, i: usize)
    requires
        i <= s@.len(),
    ensures
        final(out)@ == old(out)@ + enc_type_ref_list(s@.subrange(i as int, s@.len() as int)),
    decreases s@.len() - i,
{
    if i < s.len() {
        encode_type_ref(out, &s[i]);
        encode_type_ref_list(out, s, i + 1);
        proof {
            let tail = s@.subrange(i as int, s@.len() as int);
            assert(tail.subrange(1, tail.len() as int) =~= s@.subrange(
                i + 1 as int,
                s@.len() as int,
            ));
            assert(out@ =~= old(out)@ + enc_type_ref_list(tail));
        }
    } else {
        assert(out@ =~= old(out)@ + enc_type_ref_list(
            s@.subrange(i as int, s@.len() as int),
        ));
    }
}

#[verifier::rlimit(100)]
#[verifier::spinoff_prover]
fn encode_function(out: &mut Vec<u8>, f: &WebidlFunction)
    requires
        f.params@.len() <= u32::MAX,
    ensures
        final(out)@ == old(out)@ + enc_function(f@),
{
    match &f.kind {
        WebidlFunctionKind::Static => {
            out.push(0u8);
        },
        WebidlFunctionKind::Method(m) => {
            out.push(1u8);
            encode_type_ref(out, &m.ty);
        },
        WebidlFunctionKind::Constructor => {
            out.push(2u8);
        },
    }
    assert(out@ =~= old(out)@ + enc_func_kind(f.kind));
    encode_u32(out, f.params.len() as u32);
    encode_type_ref_list(out, &f.params, 0);
    proof {
        assert(f.params@.subrange(0, f.params@.len() as int) =~= f.params@);
    }
    match &f.result {
        None => {
            out.push(0u8);
        },
        Some(ty) => {
            out.push(1u8);
            encode_type_ref(out, ty);
        },
    }
    assert(out@ =~= old(out)@ + enc_function(f@));
}

fn encode_dictionary(out: &mut Vec<u8>, d: &WebidlDictionary, i: usize)
    requires
        d@.fields.len() <= u32::MAX,
        i <= d.fields@.len(),
        forall|k: int| 0 <= k < d@.fields.len() ==> wf_str((#[trigger] d@.fields[k]).name),
    ensures
        i == 0 ==> final(out)@ == old(out)@ + enc_dictionary(d@),
        final(out)@ == old(out)@ + (if i == 0 {
            enc_u32(d.fields@.len() as u32)
        } else {
            Seq::empty()
        }) + enc_dict_field_list(d@.fields.subrange(i as int, d@.fields.len() as int)),
    decreases d.fields@.len() - i,
{
    if i == 0 {
        encode_u32(out, d.fields.len() as u32);
    }
    if i < d.fields.len() {
        assert(d@.fields[i as int] == d.fields@[i as int]@);
        encode_str(out, d.fields[i].name.as_str());
        encode_type_ref(out, &d.fields[i].ty);
        encode_dictionary(out, d, i + 1);
        proof {
            let tail = d@.fields.subrange(i as int, d@.fields.len() as int);
            assert(tail.subrange(1, tail.len() as int) =~= d@.fields.subrange(
                i + 1 as int,
                d@.fields.len() as int,
            ));
            assert(out@ =~= old(out)@ + (if i == 0 {
                enc_u32(d.fields@.len() as u32)
            } else {
                Seq::<u8>::empty()
            }) + enc_dict_field_list(tail));
        }
    } else {
        assert(out@ =~= old(out)@ + (if i == 0 {
            enc_u32(d.fields@.len() as u32)
        } else {
            Seq::<u8>::empty()
        }) + enc_dict_field_list(d@.fields.subrange(i as int, d@.fields.len() as int)));
    }
    if i == 0 {
        assert(d@.fields.subrange(0, d@.fields.len() as int) =~= d@.fields);
        assert(out@ =~= old(out)@ + enc_dictionary(d@));
    }
}

fn encode_enumeration(out: &mut Vec<u8>, e: &WebidlEnumeration, i: usize)
    requires
        e@.values.len() <= u32::MAX,
        i <= e.values@.len(),
        forall|k: int| 0 <= k < e@.values.len() ==> wf_str(#[trigger] e@.values[k]),
    ensures
        i == 0 ==> final(out)@ == old(out)@ + enc_enumeration(e@),
        final(out)@ == old(out)@ + (if i == 0 {
            enc_u32(e.values@.len() as u32)
        } else {
            Seq::empty()
        }) + enc_str_list(e@.values.subrange(i as int, e@.values.len() as int)),
    decreases e.values@.len() - i,
{
    if i == 0 {
        encode_u32(out, e.values.len() as u32);
    }
    if i < e.values.len() {
        assert(e@.values[i as int] == e.values@[i as int]@);
        encode_str(out, e.values[i].as_str());
        encode_enumeration(out, e, i + 1);
        proof {
            let tail = e@.values.subrange(i as int, e@.values.len() as int);
            assert(tail.subrange(1, tail.len() as int) =~= e@.values.subrange(
                i + 1 as int,
                e@.values.len() as int,
            ));
            assert(out@ =~= old(out)@ + (if i == 0 {
                enc_u32(e.values@.len() as u32)
            } else {
                Seq::<u8>::empty()
            }) + enc_str_list(tail));
        }
    } else {
        assert(out@ =~= old(out)@ + (if i == 0 {
            enc_u32(e.values@.len() as u32)
        } else {
            Seq::<u8>::empty()
        }) + enc_str_list(e@.values.subrange(i as int, e@.values.len() as int)));
    }
    if i == 0 {
        assert(e@.values.subrange(0, e@.values.len() as int) =~= e@.values);
        assert(out@ =~= old(out)@ + enc_enumeration(e@));
    }
}

fn encode_union(out: &mut Vec<u8>, u: &WebidlUnion)
    requires
        u.members@.len() <= u32::MAX,
    ensures
        final(out)@ == old(out)@ + enc_union(u@),
{
    encode_u32(out, u.members.len() as u32);
    encode_type_ref_list(out, &u.members, 0);
    proof {
        assert(u.members@.subrange(0, u.members@.len() as int) =~= u.members@);
        assert(out@ =~= old(out)@ + enc_union(u@));
    }
}

fn encode_out_expr(
    out: &mut Vec<u8>,
    e: &OutgoingBindingExpression,
    Ghost(n_types): Ghost<int>,
    Ghost(n_bindings): Ghost<int>,
)
    requires
        wf_out_expr(e@, n_types, n_bindings),
    ensures
        final(out)@ == old(out)@ + enc_out_expr(e@),
    decreases *e,
{
    match e {
        OutgoingBindingExpression::As(x) => {
            out.push(0u8);
            encode_type_ref(out, &x.ty);
            encode_u32(out, x.idx);
        },
        OutgoingBindingExpression::Utf8Str(x) => {
            out.push(1u8);
            encode_type_ref(out, &x.ty);
            encode_u32(out, x.offset);
            encode_u32(out, x.length);
        },
        OutgoingBindingExpression::Utf8CStr(x) => {
            out.push(2u8);
            encode_type_ref(out, &x.ty);
            encode_u32(out, x.offset);
        },
        OutgoingBindingExpression::I32ToEnum(x) => {
            out.push(3u8);
            encode_type_ref(out, &x.ty);
            encode_u32(out, x.idx);
        },
        OutgoingBindingExpression::View(x) => {
            out.push(4u8);
            encode_type_ref(out, &x.ty);
            encode_u32(out, x.offset);
            encode_u32(out, x.length);
        },
        OutgoingBindingExpression::Copy(x) => {
            out.push(5u8);
            encode_type_ref(out, &x.ty);
            encode_u32(out, x.offset);
            encode_u32(out, x.length);
        },
        OutgoingBindingExpression::Dict(x) => {
            out.push(6u8);
            encode_type_ref(out, &x.ty);
            proof {
                assert(out_expr_views(x.fields@) == e@->Dict_fields);
                lemma_out_expr_views_len(x.fields@);
            }
            encode_u32(out, x.fields.len() as u32);
            let ghost views = out_expr_views(x.fields@);
            let ghost pre = out@;
            proof {
                assert(views.take(0int) =~= Seq::<OutgoingExprView>::empty());
            }
            let mut k: usize = 0;
            while k < x.fields.len()
                invariant
                    k <= x.fields@.len(),
                    views == out_expr_views(x.fields@),
                    views.len() == x.fields@.len(),
                    out@ == pre + enc_out_expr_list(views.take(k as int)),
                    wf_out_expr(e@, n_types, n_bindings),
                    *e == OutgoingBindingExpression::Dict(*x),
                    e@ matches OutgoingExprView::Dict { fields, .. } && fields == views,
                decreases x.fields@.len() - k,
            {
                proof {
                    lemma_out_expr_views_index(x.fields@, k as int);
                    let ghost ev = *e;
                    assert(ev == OutgoingBindingExpression::Dict(*x));
                    assert(decreases_to!(ev => ev->Dict_0));
                    assert(ev->Dict_0 == *x);
                    assert(decreases_to!(*x => x.fields));
                    assert(decreases_to!(x.fields => x.fields@));
                    assert(decreases_to!(x.fields@ => x.fields@[k as int]));
                    assert(decreases_to!(*e => x.fields@[k as int]));
                }
                encode_out_expr(out, &x.fields[k], Ghost(n_types), Ghost(n_bindings));
                proof {
                    lemma_enc_out_expr_list_snoc(views.take(k as int + 1));
                    assert(views.take(k as int + 1).drop_last() =~= views.take(k as int));
                    assert(views.take(k as int + 1).last() == views[k as int]);
                }
                k += 1;
            }
            proof {
                assert(views.take(x.fields@.len() as int) =~= views);
            }
        },
        OutgoingBindingExpression::BindExport(x) => {
            out.push(7u8);
            encode_type_ref(out, &x.ty);
            encode_u32(out, x.binding.0);
            encode_u32(out, x.idx);
        },
    }
    assert(out@ =~= old(out)@ + enc_out_expr(e@));
}

fn encode_out_expr_list(
    out: &mut Vec<u8>,
    s: &Vec<OutgoingBindingExpression>,
    i: usize,
    Ghost(n_types): Ghost<int>,
    Ghost(n_bindings): Ghost<int>,
)
    requires
        i <= s@.len(),
        forall|k: int|
            0 <= k < s@.len() ==> wf_out_expr(out_expr_view(#[trigger] s@[k]), n_types, n_bindings),
    ensures
        final(out)@ == old(out)@ + enc_out_expr_list(
            out_expr_views(s@).subrange(i as int, s@.len() as int),
        ),
    decreases s@.len() - i,
{
    proof {
        lemma_out_expr_views_len(s@);
    }
    if i < s.len() {
        proof {
            lemma_out_expr_views_index(s@, i as int);
        }
        encode_out_expr(out, &s[i], Ghost(n_types), Ghost(n_bindings));
        encode_out_expr_list(out, s, i + 1, Ghost(n_types), Ghost(n_bindings));
        proof {
            let tail = out_expr_views(s@).subrange(i as int, s@.len() as int);
            assert(tail[0] == out_expr_views(s@)[i as int]);
            assert(tail.subrange(1, tail.len() as int) =~= out_expr_views(s@).subrange(
                i + 1 as int,
                s@.len() as int,
            ));
            assert(out@ =~= old(out)@ + enc_out_expr_list(tail));
        }
    } else {
        assert(out@ =~= old(out)@ + enc_out_expr_list(
            out_expr_views(s@).subrange(i as int, s@.len() as int),
        ));
    }
}

fn encode_in_expr(
    out: &mut Vec<u8>,
    e: &IncomingBindingExpression,
    Ghost(n_types): Ghost<int>,
    Ghost(n_bindings): Ghost<int>,
    Ghost(n_host_types): Ghost<int>,
)
    requires
        wf_in_expr(e@, n_types, n_bindings, n_host_types),
    ensures
        final(out)@ == old(out)@ + enc_in_expr(e@),
    decreases *e,
{
    match e {
        IncomingBindingExpression::Get(x) => {
            out.push(0u8);
            encode_u32(out, x.idx);
        },
        IncomingBindingExpression::As(x) => {
            out.push(1u8);
            encode_val_type(out, x.ty);
            encode_in_expr(out, &x.expr, Ghost(n_types), Ghost(n_bindings), Ghost(n_host_types));
        },
        IncomingBindingExpression::AllocUtf8Str(x) => {
            out.push(2u8);
            encode_str(out, x.alloc_func_name.as_str());
            encode_in_expr(out, &x.expr, Ghost(n_types), Ghost(n_bindings), Ghost(n_host_types));
        },
        IncomingBindingExpression::AllocCopy(x) => {
            out.push(3u8);
            encode_str(out, x.alloc_func_name.as_str());
            encode_in_expr(out, &x.expr, Ghost(n_types), Ghost(n_bindings), Ghost(n_host_types));
        },
        IncomingBindingExpression::EnumToI32(x) => {
            out.push(4u8);
            encode_type_ref(out, &x.ty);
            encode_in_expr(out, &x.expr, Ghost(n_types), Ghost(n_bindings), Ghost(n_host_types));
        },
        IncomingBindingExpression::Field(x) => {
            out.push(5u8);
            encode_u32(out, x.idx);
            encode_in_expr(out, &x.expr, Ghost(n_types), Ghost(n_bindings), Ghost(n_host_types));
        },
        IncomingBindingExpression::BindImport(x) => {
            out.push(6u8);
            encode_u32(out, x.ty.0);
            encode_u32(out, x.binding.0);
            encode_in_expr(out, &x.expr, Ghost(n_types), Ghost(n_bindings), Ghost(n_host_types));
        },
    }
    assert(out@ =~= old(out)@ + enc_in_expr(e@));
}

fn encode_in_expr_list(
    out: &mut Vec<u8>,
    s: &Vec<IncomingBindingExpression>,
    i: usize,
    Ghost(n_types): Ghost<int>,
    Ghost(n_bindings): Ghost<int>,
    Ghost(n_host_types): Ghost<int>,
)
    requires
        i <= s@.len(),
        forall|k: int|
            0 <= k < s@.len() ==> wf_in_expr(
                (#[trigger] s@[k])@,
                n_types,
                n_bindings,
                n_host_types,
            ),
    ensures
        final(out)@ == old(out)@ + enc_in_expr_list(
            s@.map_values(|x: IncomingBindingExpression| x@).subrange(i as int, s@.len() as int),
        ),
    decreases s@.len() - i,
{
    if i < s.len() {
        encode_in_expr(out, &s[i], Ghost(n_types), Ghost(n_bindings), Ghost(n_host_types));
        encode_in_expr_list(out, s, i + 1, Ghost(n_types), Ghost(n_bindings), Ghost(n_host_types));
        proof {
            let views = s@.map_values(|x: IncomingBindingExpression| x@);
            let tail = views.subrange(i as int, s@.len() as int);
            assert(tail[0] == views[i as int]);
            assert(tail.subrange(1, tail.len() as int) =~= views.subrange(
                i + 1 as int,
                s@.len() as int,
            ));
            assert(out@ =~= old(out)@ + enc_in_expr_list(tail));
        }
    } else {
        assert(out@ =~= old(out)@ + enc_in_expr_list(
            s@.map_values(|x: IncomingBindingExpression| x@).subrange(i as int, s@.len() as int),
        ));
    }
}

#[verifier::rlimit(100)]
#[verifier::spinoff_prover]
fn encode_binding_payload(
    out: &mut Vec<u8>,
    b: &FunctionBinding,
    Ghost(n_types): Ghost<int>,
    Ghost(self_idx): Ghost<int>,
    Ghost(n_host_types): Ghost<int>,
)
    requires
        wf_binding(b@, n_types, self_idx, n_host_types),
    ensures
        final(out)@ == old(out)@ + enc_binding_payload(b@),
{
    match b {
        FunctionBinding::Import(ib) => {
            encode_u32(out, ib.wasm_ty.0);
            encode_type_ref(out, &ib.webidl_ty);
            encode_u32(out, ib.params.bindings.len() as u32);
            proof {
                lemma_out_expr_views_eq_map(ib.params.bindings@);
                assert forall|k: int| 0 <= k < ib.params.bindings@.len() implies wf_out_expr(
                    out_expr_view(#[trigger] ib.params.bindings@[k]),
                    n_types,
                    self_idx,
                ) by {
                    assert(ib@.params[k] == out_expr_view(ib.params.bindings@[k]));
                }
            }
            encode_out_expr_list(out, &ib.params.bindings, 0, Ghost(n_types), Ghost(self_idx));
            encode_u32(out, ib.result.bindings.len() as u32);
            proof {
                assert forall|k: int| 0 <= k < ib.result.bindings@.len() implies wf_in_expr(
                    (#[trigger] ib.result.bindings@[k])@,
                    n_types,
                    self_idx,
                    n_host_types,
                ) by {
                    assert(ib@.result[k] == ib.result.bindings@[k]@);
                }
            }
            encode_in_expr_list(
                out,
                &ib.result.bindings,
                0,
                Ghost(n_types),
                Ghost(self_idx),
                Ghost(n_host_types),
            );
            proof {
                lemma_out_expr_views_eq_map(ib.params.bindings@);
                assert(out_expr_views(ib.params.bindings@).subrange(
                    0,
                    ib.params.bindings@.len() as int,
                ) =~= ib@.params);
                assert(ib.result.bindings@.map_values(
                    |x: IncomingBindingExpression| x@,
                ).subrange(0, ib.result.bindings@.len() as int) =~= ib@.result);
                assert(out@ =~= old(out)@ + enc_binding_payload(b@));
            }
        },
        FunctionBinding::Export(eb) => {
            encode_u32(out, eb.wasm_ty.0);
            encode_type_ref(out, &eb.webidl_ty);
            encode_u32(out, eb.params.bindings.len() as u32);
            proof {
                assert forall|k: int| 0 <= k < eb.params.bindings@.len() implies wf_in_expr(
                    (#[trigger] eb.params.bindings@[k])@,
                    n_types,
                    self_idx,
                    n_host_types,
                ) by {
                    assert(eb@.params[k] == eb.params.bindings@[k]@);
                }
            }
            encode_in_expr_list(
                out,
                &eb.params.bindings,
                0,
                Ghost(n_types),
                Ghost(self_idx),
                Ghost(n_host_types),
            );
            encode_u32(out, eb.result.bindings.len() as u32);
            proof {
                lemma_out_expr_views_eq_map(eb.result.bindings@);
                assert forall|k: int| 0 <= k < eb.result.bindings@.len() implies wf_out_expr(
                    out_expr_view(#[trigger] eb.result.bindings@[k]),
                    n_types,
                    self_idx,
                ) by {
                    assert(eb@.result[k] == out_expr_view(eb.result.bindings@[k]));
                }
            }
            encode_out_expr_list(out, &eb.result.bindings, 0, Ghost(n_types), Ghost(self_idx));
            proof {
                lemma_out_expr_views_eq_map(eb.result.bindings@);
                assert(out_expr_views(eb.result.bindings@).subrange(
                    0,
                    eb.result.bindings@.len() as int,
                ) =~= eb@.result);
                assert(eb.params.bindings@.map_values(
                    |x: IncomingBindingExpression| x@,
                ).subrange(0, eb.params.bindings@.len() as int) =~= eb@.params);
                assert(out@ =~= old(out)@ + enc_binding_payload(b@));
            }
        },
    }
}

fn encode_compound_payload(out: &mut Vec<u8>, c: &WebidlCompoundType, Ghost(n_types): Ghost<int>)
    requires
        wf_compound(c@, n_types),
    ensures
        final(out)@ == old(out)@ + enc_compound_payload(c@),
{
    match c {
        WebidlCompoundType::Function(f) => encode_function(out, f),
        WebidlCompoundType::Dictionary(d) => encode_dictionary(out, d, 0),
        WebidlCompoundType::Enumeration(e) => encode_enumeration(out, e, 0),
        WebidlCompoundType::Union(u) => encode_union(out, u),
    }
}

#[verifier::rlimit(100)]
#[verifier::spinoff_prover]
fn encode_type_entries(out: &mut Vec<u8>, t: &crate::ast::WebidlTypes, i: usize, j: usize)
    requires
        wf_types(t@),
        i <= t.entries@.len(),
        j <= t.names@.len(),
        forall|k: int| 0 <= k < j ==> ((#[trigger] t@.names[k]).1 as int) < i,
        forall|k: int| j <= k < t@.names.len() ==> i <= ((#[trigger] t@.names[k]).1 as int),
    ensures
        final(out)@ == old(out)@ + enc_type_entries(
            t@.entries.subrange(i as int, t@.entries.len() as int),
            t@.names.subrange(j as int, t@.names.len() as int),
            i as int,
        ),
    decreases t.entries@.len() - i,
{
    let ghost entries_s = t@.entries.subrange(i as int, t@.entries.len() as int);
    let ghost names_s = t@.names.subrange(j as int, t@.names.len() as int);
    if i < t.entries.len() {
        let tag: u8 = match &t.entries[i] {
            WebidlCompoundType::Function(_) => 0,
            WebidlCompoundType::Dictionary(_) => 1,
            WebidlCompoundType::Enumeration(_) => 2,
            WebidlCompoundType::Union(_) => 3,
        };
        out.push(tag);
        proof {
            assert(entries_s[0] == t@.entries[i as int]);
            assert((t.entries@[i as int])@ == t@.entries[i as int]);
            assert(wf_compound(t@.entries[i as int], i as int));
            if j < t.names@.len() {
                assert(t@.names[j as int] == (t.names@[j as int].0@, t.names@[j as int].1));
                assert(wf_str(t@.names[j as int].0));
            }
        }
        assert(tag == compound_tag(entries_s[0]));
        let has_name = j < t.names.len() && t.names[j].1 as usize == i;
        let j2: usize = if has_name {
            encode_opt_name(out, Some(&t.names[j].0));
            j + 1
        } else {
            encode_opt_name(out, None);
            j
        };
        encode_compound_payload(out, &t.entries[i], Ghost(i as int));
        encode_type_entries(out, t, i + 1, j2);
        proof {
            assert(entries_s.subrange(1, entries_s.len() as int) =~= t@.entries.subrange(
                i + 1 as int,
                t@.entries.len() as int,
            ));
            if has_name {
                assert(names_s[0] == t@.names[j as int]);
                assert(names_s.subrange(1, names_s.len() as int) =~= t@.names.subrange(
                    j + 1 as int,
                    t@.names.len() as int,
                ));
            } else {
                if j < t.names@.len() {
                    assert(names_s[0] == t@.names[j as int]);
                }
                assert(names_s =~= t@.names.subrange(j as int, t@.names.len() as int));
            }
            assert(out@ =~= old(out)@ + enc_type_entries(entries_s, names_s, i as int));
        }
    } else {
        proof {
            if j < t.names@.len() {
                assert(t@.names[j as int].1 < t@.entries.len());
                assert((t@.names[j as int].1 as int) >= i);
            }
        }
        assert(names_s.len() == 0);
        assert(out@ =~= old(out)@ + enc_type_entries(entries_s, names_s, i as int));
    }
}

#[verifier::rlimit(100)]
#[verifier::spinoff_prover]
fn encode_binding_entries(
    out: &mut Vec<u8>,
    b: &crate::ast::FunctionBindings,
    i: usize,
    j: usize,
    Ghost(n_types): Ghost<int>,
    Ghost(n_host_types): Ghost<int>,
)
    requires
        wf_bindings(b@, n_types, n_host_types),
        i <= b.entries@.len(),
        j <= b.names@.len(),
        forall|k: int| 0 <= k < j ==> ((#[trigger] b@.names[k]).1 as int) < i,
        forall|k: int| j <= k < b@.names.len() ==> i <= ((#[trigger] b@.names[k]).1 as int),
    ensures
        final(out)@ == old(out)@ + enc_binding_entries(
            b@.entries.subrange(i as int, b@.entries.len() as int),
            b@.names.subrange(j as int, b@.names.len() as int),
            i as int,
        ),
    decreases b.entries@.len() - i,
{
    let ghost entries_s = b@.entries.subrange(i as int, b@.entries.len() as int);
    let ghost names_s = b@.names.subrange(j as int, b@.names.len() as int);
    if i < b.entries.len() {
        let tag: u8 = match &b.entries[i] {
            FunctionBinding::Import(_) => 0,
            FunctionBinding::Export(_) => 1,
        };
        out.push(tag);
        proof {
            assert(entries_s[0] == b@.entries[i as int]);
            assert((b.entries@[i as int])@ == b@.entries[i as int]);
            assert(wf_binding(b@.entries[i as int], n_types, i as int, n_host_types));
            if j < b.names@.len() {
                assert(b@.names[j as int] == (b.names@[j as int].0@, b.names@[j as int].1));
                assert(wf_str(b@.names[j as int].0));
            }
        }
        assert(tag == binding_tag(entries_s[0]));
        let has_name = j < b.names.len() && b.names[j].1 as usize == i;
        let j2: usize = if has_name {
            encode_opt_name(out, Some(&b.names[j].0));
            j + 1
        } else {
            encode_opt_name(out, None);
            j
        };
        encode_binding_payload(out, &b.entries[i], Ghost(n_types), Ghost(i as int), Ghost(n_host_types));
        encode_binding_entries(out, b, i + 1, j2, Ghost(n_types), Ghost(n_host_types));
        proof {
            assert(entries_s.subrange(1, entries_s.len() as int) =~= b@.entries.subrange(
                i + 1 as int,
                b@.entries.len() as int,
            ));
            if has_name {
                assert(names_s[0] == b@.names[j as int]);
                assert(names_s.subrange(1, names_s.len() as int) =~= b@.names.subrange(
                    j + 1 as int,
                    b@.names.len() as int,
                ));
            } else {
                if j < b.names@.len() {
                    assert(names_s[0] == b@.names[j as int]);
                }
                assert(names_s =~= b@.names.subrange(j as int, b@.names.len() as int));
            }
            assert(out@ =~= old(out)@ + enc_binding_entries(entries_s, names_s, i as int));
        }
    } else {
        proof {
            if j < b.names@.len() {
                assert(b@.names[j as int].1 < b@.entries.len());
                assert((b@.names[j as int].1 as int) >= i);
            }
        }
        assert(names_s.len() == 0);
        assert(out@ =~= old(out)@ + enc_binding_entries(entries_s, names_s, i as int));
    }
}

fn encode_bind_list(out: &mut Vec<u8>, s: &Vec<Bind>, i: usize)
    requires
        i <= s@.len(),
    ensures
        final(out)@ == old(out)@ + enc_bind_list(s@.subrange(i as int, s@.len() as int)),
    decreases s@.len() - i,
{
    if i < s.len() {
        encode_u32(out, s[i].func.0);
        encode_u32(out, s[i].binding.0);
        encode_bind_list(out, s, i + 1);
        proof {
            let tail = s@.subrange(i as int, s@.len() as int);
            assert(tail.subrange(1, tail.len() as int) =~= s@.subrange(
                i + 1 as int,
                s@.len() as int,
            ));
            assert(out@ =~= old(out)@ + enc_bind_list(tail));
        }
    } else {
        assert(out@ =~= old(out)@ + enc_bind_list(s@.subrange(i as int, s@.len() as int)));
    }
}

/// Serialize a well-formed section to its byte encoding. The host module's
/// index bounds witness that every host handle in the model is resolvable;
/// encoding never fails on a well-formed section.
pub fn encode(section: &WebidlBindings, host: &HostIndexBounds) -> (r: Vec<u8>)
    requires
        wf_section(section@, *host),
    ensures
        r@ == enc_section(section@),
{
    let mut out: Vec<u8> = Vec::new();
    encode_u32(&mut out, section.types.entries.len() as u32);
    encode_type_entries(&mut out, &section.types, 0, 0);
    proof {
        assert(section.types@.entries.subrange(0, section.types@.entries.len() as int)
            =~= section.types@.entries);
        assert(section.types@.names.subrange(0, section.types@.names.len() as int)
            =~= section.types@.names);
        assert(out@ =~= enc_type_table(section.types@));
    }
    encode_u32(&mut out, section.bindings.entries.len() as u32);
    encode_binding_entries(
        &mut out,
        &section.bindings,
        0,
        0,
        Ghost(section.types@.entries.len() as int),
        Ghost(host.n_func_types as int),
    );
    proof {
        assert(section.bindings@.entries.subrange(0, section.bindings@.entries.len() as int)
            =~= section.bindings@.entries);
        assert(section.bindings@.names.subrange(0, section.bindings@.names.len() as int)
            =~= section.bindings@.names);
        assert(out@ =~= enc_type_table(section.types@) + enc_binding_table(section.bindings@));
    }
    encode_u32(&mut out, section.binds.entries.len() as u32);
    encode_bind_list(&mut out, &section.binds.entries, 0);
    proof {
        assert(section.binds@.subrange(0, section.binds@.len() as int) =~= section.binds@);
        assert(out@ =~= enc_section(section@));
    }
    out
}

// ---------------------------------------------------------------------------
// Decoder validation
//
// Whatever the decoder accepts is well-formed: no out-of-range reference,
// oversize count or uncarriable string survives a decode, so a successful
// decode never exposes a corrupt model.
// ---------------------------------------------------------------------------

pub proof fn lemma_dec_str_wf(s: Seq<u8>)
    ensures
        dec_str(s) matches Some((v, _)) ==> wf_str(v),
{
    if dec_str(s) is Some {
        let (len, rest) = dec_u32(s)->Some_0;
        let bytes = rest.subrange(0, len as int);
        vstd::utf8::decode_utf8_encode_utf8(bytes);
    }
}

pub proof fn lemma_dec_opt_name_wf(s: Seq<u8>)
    ensures
        dec_opt_name(s) matches Some((Some(n), _)) ==> wf_str(n),
{
    if s.len() > 0 && s[0] == 1 {
        lemma_dec_str_wf(s.subrange(1, s.len() as int));
    }
}

pub proof fn lemma_dec_type_ref_wf(s: Seq<u8>, n_types: int)
    ensures
        dec_type_ref(s, n_types) matches Some((r, _)) ==> wf_type_ref(r, n_types),
{
}

pub proof fn lemma_dec_type_ref_list_wf(s: Seq<u8>, n_types: int, count: nat)
    ensures
        dec_type_ref_list(s, n_types, count) matches Some((v, _)) ==> v.len() == count
            && forall|i: int| 0 <= i < v.len() ==> wf_type_ref(#[trigger] v[i], n_types),
    decreases count,
{
    if count > 0 && dec_type_ref_list(s, n_types, count) is Some {
        let (r, rest) = dec_type_ref(s, n_types)->Some_0;
        lemma_dec_type_ref_wf(s, n_types);
        lemma_dec_type_ref_list_wf(rest, n_types, (count - 1) as nat);
        let (tail, _) = dec_type_ref_list(rest, n_types, (count - 1) as nat)->Some_0;
        assert forall|i: int| 0 <= i < (seq![r] + tail).len() implies wf_type_ref(
            #[trigger] (seq![r] + tail)[i],
            n_types,
        ) by {
            if i > 0 {
                assert((seq![r] + tail)[i] == tail[i - 1]);
            }
        }
    }
}

pub proof fn lemma_dec_function_wf(s: Seq<u8>, n_types: int)
    ensures
        dec_function(s, n_types) matches Some((f, _)) ==> wf_function(f, n_types),
{
    if dec_function(s, n_types) is Some {
        let (kind, s1) = dec_func_kind(s, n_types)->Some_0;
        if s.len() > 0 && s[0] == 1 {
            lemma_dec_type_ref_wf(s.subrange(1, s.len() as int), n_types);
        }
        let (count, s2) = dec_u32(s1)->Some_0;
        lemma_dec_type_ref_list_wf(s2, n_types, count as nat);
        let (params, s3) = dec_type_ref_list(s2, n_types, count as nat)->Some_0;
        if s3.len() > 0 && s3[0] == 1 {
            lemma_dec_type_ref_wf(s3.subrange(1, s3.len() as int), n_types);
        }
    }
}

pub proof fn lemma_dec_dict_field_list_wf(s: Seq<u8>, n_types: int, count: nat)
    ensures
        dec_dict_field_list(s, n_types, count) matches Some((v, _)) ==> v.len() == count
            && forall|i: int|
            0 <= i < v.len() ==> wf_str((#[trigger] v[i]).name) && wf_type_ref(v[i].ty, n_types),
    decreases count,
{
    if count > 0 && dec_dict_field_list(s, n_types, count) is Some {
        let (name, s1) = dec_str(s)->Some_0;
        lemma_dec_str_wf(s);
        let (ty, s2) = dec_type_ref(s1, n_types)->Some_0;
        lemma_dec_type_ref_wf(s1, n_types);
        lemma_dec_dict_field_list_wf(s2, n_types, (count - 1) as nat);
        let (tail, _) = dec_dict_field_list(s2, n_types, (count - 1) as nat)->Some_0;
        let head = DictionaryFieldView { name, ty };
        assert forall|i: int| 0 <= i < (seq![head] + tail).len() implies wf_str(
            (#[trigger] (seq![head] + tail)[i]).name,
        ) && wf_type_ref((seq![head] + tail)[i].ty, n_types) by {
            if i > 0 {
                assert((seq![head] + tail)[i] == tail[i - 1]);
            }
        }
    }
}

pub proof fn lemma_dec_str_list_wf(s: Seq<u8>, count: nat)
    ensures
        dec_str_list(s, count) matches Some((v, _)) ==> v.len() == count && forall|i: int|
            0 <= i < v.len() ==> wf_str(#[trigger] v[i]),
    decreases count,
{
    if count > 0 && dec_str_list(s, count) is Some {
        let (head, s1) = dec_str(s)->Some_0;
        lemma_dec_str_wf(s);
        lemma_dec_str_list_wf(s1, (count - 1) as nat);
        let (tail, _) = dec_str_list(s1, (count - 1) as nat)->Some_0;
        assert forall|i: int| 0 <= i < (seq![head] + tail).len() implies wf_str(
            #[trigger] (seq![head] + tail)[i],
        ) by {
            if i > 0 {
                assert((seq![head] + tail)[i] == tail[i - 1]);
            }
        }
    }
}

pub proof fn lemma_dec_compound_payload_wf(s: Seq<u8>, tag: u8, n_types: int)
    ensures
        dec_compound_payload(s, tag, n_types) matches Some((c, _)) ==> wf_compound(c, n_types),
{
    if dec_compound_payload(s, tag, n_types) is Some {
        if tag == 0 {
            lemma_dec_function_wf(s, n_types);
        } else if tag == 1 {
            let (count, s1) = dec_u32(s)->Some_0;
            lemma_dec_dict_field_list_wf(s1, n_types, count as nat);
        } else if tag == 2 {
            let (count, s1) = dec_u32(s)->Some_0;
            lemma_dec_str_list_wf(s1, count as nat);
        } else {
            let (count, s1) = dec_u32(s)->Some_0;
            lemma_dec_type_ref_list_wf(s1, n_types, count as nat);
        }
    }
}

#[verifier::rlimit(100)]
#[verifier::spinoff_prover]
pub proof fn lemma_dec_out_expr_wf(s: Seq<u8>, n_types: int, n_bindings: int)
    ensures
        dec_out_expr(s, n_types, n_bindings) matches Some((e, _)) ==> wf_out_expr(
            e,
            n_types,
            n_bindings,
        ),
    decreases s.len(), 0nat,
{
    if dec_out_expr(s, n_types, n_bindings) is Some {
        let s1 = s.subrange(1, s.len() as int);
        lemma_dec_type_ref_wf(s1, n_types);
        if s[0] == 6 {
            let (ty, s2) = dec_type_ref(s1, n_types)->Some_0;
            let (count, s3) = dec_u32(s2)->Some_0;
            lemma_dec_out_expr_list_wf(s3, n_types, n_bindings, count as nat);
        }
    }
}

#[verifier::rlimit(100)]
#[verifier::spinoff_prover]
pub proof fn lemma_dec_out_expr_list_wf(s: Seq<u8>, n_types: int, n_bindings: int, count: nat)
    ensures
        dec_out_expr_list(s, n_types, n_bindings, count) matches Some((v, _)) ==> v.len() == count
            && forall|i: int|
            0 <= i < v.len() ==> wf_out_expr(#[trigger] v[i], n_types, n_bindings),
    decreases s.len(), count + 1,
{
    if count > 0 && dec_out_expr_list(s, n_types, n_bindings, count) is Some {
        let (e, rest) = dec_out_expr(s, n_types, n_bindings)->Some_0;
        lemma_dec_out_expr_wf(s, n_types, n_bindings);
        lemma_dec_out_expr_list_wf(rest, n_types, n_bindings, (count - 1) as nat);
        let (tail, _) = dec_out_expr_list(rest, n_types, n_bindings, (count - 1) as nat)->Some_0;
        assert forall|i: int| 0 <= i < (seq![e] + tail).len() implies wf_out_expr(
            #[trigger] (seq![e] + tail)[i],
            n_types,
            n_bindings,
        ) by {
            if i > 0 {
                assert((seq![e] + tail)[i] == tail[i - 1]);
            }
        }
    }
}

#[verifier::rlimit(100)]
#[verifier::spinoff_prover]
pub proof fn lemma_dec_in_expr_wf(s: Seq<u8>, n_types: int, n_bindings: int, n_host_types: int)
    ensures
        dec_in_expr(s, n_types, n_bindings, n_host_types) matches Some((e, _)) ==> wf_in_expr(
            e,
            n_types,
            n_bindings,
            n_host_types,
        ),
    decreases s.len(),
{
    if dec_in_expr(s, n_types, n_bindings, n_host_types) is Some {
        let s1 = s.subrange(1, s.len() as int);
        if s[0] == 1 {
            let (ty, s2) = dec_val_type(s1)->Some_0;
            lemma_dec_in_expr_wf(s2, n_types, n_bindings, n_host_types);
        } else if s[0] == 2 || s[0] == 3 {
            let (name, s2) = dec_str(s1)->Some_0;
            lemma_dec_str_wf(s1);
            lemma_dec_in_expr_wf(s2, n_types, n_bindings, n_host_types);
        } else if s[0] == 4 {
            let (ty, s2) = dec_type_ref(s1, n_types)->Some_0;
            lemma_dec_type_ref_wf(s1, n_types);
            lemma_dec_in_expr_wf(s2, n_types, n_bindings, n_host_types);
        } else if s[0] == 5 {
            let (idx, s2) = dec_u32(s1)->Some_0;
            lemma_dec_in_expr_wf(s2, n_types, n_bindings, n_host_types);
        } else if s[0] == 6 {
            let (t, s2) = dec_u32(s1)->Some_0;
            let (bi, s3) = dec_u32(s2)->Some_0;
            lemma_dec_in_expr_wf(s3, n_types, n_bindings, n_host_types);
        }
    }
}

pub proof fn lemma_dec_in_expr_list_wf(
    s: Seq<u8>,
    n_types: int,
    n_bindings: int,
    n_host_types: int,
    count: nat,
)
    ensures
        dec_in_expr_list(s, n_types, n_bindings, n_host_types, count) matches Some((v, _))
            ==> v.len() == count && forall|i: int|
            0 <= i < v.len() ==> wf_in_expr(#[trigger] v[i], n_types, n_bindings, n_host_types),
    decreases count,
{
    if count > 0 && dec_in_expr_list(s, n_types, n_bindings, n_host_types, count) is Some {
        let (e, rest) = dec_in_expr(s, n_types, n_bindings, n_host_types)->Some_0;
        lemma_dec_in_expr_wf(s, n_types, n_bindings, n_host_types);
        lemma_dec_in_expr_list_wf(rest, n_types, n_bindings, n_host_types, (count - 1) as nat);
        let (tail, _) = dec_in_expr_list(
            rest,
            n_types,
            n_bindings,
            n_host_types,
            (count - 1) as nat,
        )->Some_0;
        assert forall|i: int| 0 <= i < (seq![e] + tail).len() implies wf_in_expr(
            #[trigger] (seq![e] + tail)[i],
            n_types,
            n_bindings,
            n_host_types,
        ) by {
            if i > 0 {
                assert((seq![e] + tail)[i] == tail[i - 1]);
            }
        }
    }
}

#[verifier::rlimit(100)]
#[verifier::spinoff_prover]
pub proof fn lemma_dec_binding_payload_wf(
    s: Seq<u8>,
    tag: u8,
    n_types: int,
    self_idx: int,
    n_host_types: int,
)
    ensures
        dec_binding_payload(s, tag, n_types, self_idx, n_host_types) matches Some((b, _))
            ==> wf_binding(b, n_types, self_idx, n_host_types),
{
    if dec_binding_payload(s, tag, n_types, self_idx, n_host_types) is Some {
        let (wt, s1) = dec_u32(s)->Some_0;
        let (webidl_ty, s2) = dec_type_ref(s1, n_types)->Some_0;
        lemma_dec_type_ref_wf(s1, n_types);
        let (n_params, s3) = dec_u32(s2)->Some_0;
        if tag == 0 {
            lemma_dec_out_expr_list_wf(s3, n_types, self_idx, n_params as nat);
            let (params, s4) = dec_out_expr_list(s3, n_types, self_idx, n_params as nat)->Some_0;
            let (n_results, s5) = dec_u32(s4)->Some_0;
            lemma_dec_in_expr_list_wf(s5, n_types, self_idx, n_host_types, n_results as nat);
        } else {
            lemma_dec_in_expr_list_wf(s3, n_types, self_idx, n_host_types, n_params as nat);
            let (params, s4) = dec_in_expr_list(
                s3,
                n_types,
                self_idx,
                n_host_types,
                n_params as nat,
            )->Some_0;
            let (n_results, s5) = dec_u32(s4)->Some_0;
            lemma_dec_out_expr_list_wf(s5, n_types, self_idx, n_results as nat);
        }
    }
}

#[verifier::rlimit(100)]
#[verifier::spinoff_prover]
pub proof fn lemma_dec_type_entries_wf(s: Seq<u8>, i: int, count: nat)
    requires
        0 <= i,
        i + count <= u32::MAX,
    ensures
        dec_type_entries(s, i, count) matches Some((entries, names, _)) ==> entries.len() == count
            && (forall|k: int| 0 <= k < count ==> wf_compound(#[trigger] entries[k], i + k)) && (
        forall|k: int| 0 <= k < names.len() ==> i <= ((#[trigger] names[k]).1 as int) < i + count)
            && (forall|k1: int, k2: int|
            0 <= k1 < k2 < names.len() ==> (#[trigger] names[k1]).1 < (#[trigger] names[k2]).1) && (
        forall|k: int| 0 <= k < names.len() ==> wf_str((#[trigger] names[k]).0)),
    decreases count,
{
    if count > 0 && dec_type_entries(s, i, count) is Some {
        let tag = s[0];
        let (name, s1) = dec_opt_name(s.subrange(1, s.len() as int))->Some_0;
        lemma_dec_opt_name_wf(s.subrange(1, s.len() as int));
        let (c, s2) = dec_compound_payload(s1, tag, i)->Some_0;
        lemma_dec_compound_payload_wf(s1, tag, i);
        lemma_dec_type_entries_wf(s2, i + 1, (count - 1) as nat);
        let (tailc, tailn, _) = dec_type_entries(s2, i + 1, (count - 1) as nat)->Some_0;
        let entries = seq![c] + tailc;
        assert forall|k: int| 0 <= k < count implies wf_compound(#[trigger] entries[k], i + k) by {
            if k > 0 {
                assert(entries[k] == tailc[k - 1]);
            }
        }
        match name {
            Some(n) => {
                let names = seq![(n, i as u32)] + tailn;
                assert forall|k: int| 0 <= k < names.len() implies i <= ((#[trigger] names[k]).1
                    as int) < i + count && wf_str(names[k].0) by {
                    if k > 0 {
                        assert(names[k] == tailn[k - 1]);
                    }
                }
                assert forall|k1: int, k2: int| 0 <= k1 < k2 < names.len() implies (
                #[trigger] names[k1]).1 < (#[trigger] names[k2]).1 by {
                    if k1 > 0 {
                        assert(names[k1] == tailn[k1 - 1]);
                        assert(names[k2] == tailn[k2 - 1]);
                    } else {
                        assert(names[k2] == tailn[k2 - 1]);
                    }
                }
            },
            None => {},
        }
    }
}

#[verifier::rlimit(100)]
#[verifier::spinoff_prover]
pub proof fn lemma_dec_binding_entries_wf(
    s: Seq<u8>,
    i: int,
    count: nat,
    n_types: int,
    n_host_types: int,
)
    requires
        0 <= i,
        i + count <= u32::MAX,
    ensures
        dec_binding_entries(s, i, count, n_types, n_host_types) matches Some((entries, names, _))
            ==> entries.len() == count && (forall|k: int|
            0 <= k < count ==> wf_binding(#[trigger] entries[k], n_types, i + k, n_host_types)) && (
        forall|k: int| 0 <= k < names.len() ==> i <= ((#[trigger] names[k]).1 as int) < i + count)
            && (forall|k1: int, k2: int|
            0 <= k1 < k2 < names.len() ==> (#[trigger] names[k1]).1 < (#[trigger] names[k2]).1) && (
        forall|k: int| 0 <= k < names.len() ==> wf_str((#[trigger] names[k]).0)),
    decreases count,
{
    if count > 0 && dec_binding_entries(s, i, count, n_types, n_host_types) is Some {
        let tag = s[0];
        let (name, s1) = dec_opt_name(s.subrange(1, s.len() as int))->Some_0;
        lemma_dec_opt_name_wf(s.subrange(1, s.len() as int));
        let (c, s2) = dec_binding_payload(s1, tag, n_types, i, n_host_types)->Some_0;
        lemma_dec_binding_payload_wf(s1, tag, n_types, i, n_host_types);
        lemma_dec_binding_entries_wf(s2, i + 1, (count - 1) as nat, n_types, n_host_types);
        let (tailc, tailn, _) = dec_binding_entries(
            s2,
            i + 1,
            (count - 1) as nat,
            n_types,
            n_host_types,
        )->Some_0;
        let entries = seq![c] + tailc;
        assert forall|k: int| 0 <= k < count implies wf_binding(
            #[trigger] entries[k],
            n_types,
            i + k,
            n_host_types,
        ) by {
            if k > 0 {
                assert(entries[k] == tailc[k - 1]);
            }
        }
        match name {
            Some(n) => {
                let names = seq![(n, i as u32)] + tailn;
                assert forall|k: int| 0 <= k < names.len() implies i <= ((#[trigger] names[k]).1
                    as int) < i + count && wf_str(names[k].0) by {
                    if k > 0 {
                        assert(names[k] == tailn[k - 1]);
                    }
                }
                assert forall|k1: int, k2: int| 0 <= k1 < k2 < names.len() implies (
                #[trigger] names[k1]).1 < (#[trigger] names[k2]).1 by {
                    if k1 > 0 {
                        assert(names[k1] == tailn[k1 - 1]);
                        assert(names[k2] == tailn[k2 - 1]);
                    } else {
                        assert(names[k2] == tailn[k2 - 1]);
                    }
                }
            },
            None => {},
        }
    }
}

pub proof fn lemma_dec_bind_list_wf(s: Seq<u8>, count: nat, n_bindings: int, n_host_funcs: int)
    ensures
        dec_bind_list(s, count, n_bindings, n_host_funcs) matches Some((v, _)) ==> v.len() == count
            && (forall|i: int| 0 <= i < v.len() ==> ((#[trigger] v[i]).binding.0 as int) < n_bindings)
            && (forall|i: int| 0 <= i < v.len() ==> ((#[trigger] v[i]).func.0 as int) < n_host_funcs),
    decreases count,
{
    if count > 0 && dec_bind_list(s, count, n_bindings, n_host_funcs) is Some {
        let (f, s1) = dec_u32(s)->Some_0;
        let (bi, rest) = dec_u32(s1)->Some_0;
        lemma_dec_bind_list_wf(rest, (count - 1) as nat, n_bindings, n_host_funcs);
        let (tail, _) = dec_bind_list(rest, (count - 1) as nat, n_bindings, n_host_funcs)->Some_0;
        let head = Bind { func: WasmFuncId(f), binding: BindingId(bi) };
        assert forall|i: int| 0 <= i < (seq![head] + tail).len() implies ((#[trigger] (seq![head]
            + tail)[i]).binding.0 as int) < n_bindings && (((seq![head] + tail)[i]).func.0 as int)
            < n_host_funcs by {
            if i > 0 {
                assert((seq![head] + tail)[i] == tail[i - 1]);
            }
        }
    }
}

/// No partial or corrupt model is ever exposed: a buffer the decoder
/// accepts decodes to a well-formed section, every cross-reference and host
/// handle within bounds.
pub proof fn lemma_dec_section_wf(s: Seq<u8>, host: HostIndexBounds)
    ensures
        dec_section(s, host) matches Some(v) ==> wf_section(v, host),
{
    if dec_section(s, host) is Some {
        let (count_t, s1) = dec_u32(s)->Some_0;
        lemma_dec_type_entries_wf(s1, 0, count_t as nat);
        let (t_entries, t_names, s2) = dec_type_entries(s1, 0, count_t as nat)->Some_0;
        let (count_b, s3) = dec_u32(s2)->Some_0;
        lemma_dec_binding_entries_wf(
            s3,
            0,
            count_b as nat,
            t_entries.len() as int,
            host.n_func_types as int,
        );
        let (b_entries, b_names, s4) = dec_binding_entries(
            s3,
            0,
            count_b as nat,
            t_entries.len() as int,
            host.n_func_types as int,
        )->Some_0;
        let (count_x, s5) = dec_u32(s4)->Some_0;
        lemma_dec_bind_list_wf(s5, count_x as nat, b_entries.len() as int, host.n_funcs as int);
    }
}

// ---------------------------------------------------------------------------
// Executable decoder
// ---------------------------------------------------------------------------

/// The failure of a decode: the input was not a section this codec
/// produced or accepts — truncated, an unknown tag, or an out-of-range
/// reference.
#[derive(Clone, Copy, Debug, PartialEq, Eq, Structural)]
pub struct DecodeError;

/// Glue an already-decoded prefix onto the outcome of decoding a tail.
pub open spec fn dec_append<T>(prefix: Seq<T>, r: Option<(Seq<T>, Seq<u8>)>) -> Option<
    (Seq<T>, Seq<u8>),
> {
    match r {
        Some((t, rest)) => Some((prefix + t, rest)),
        None => None,
    }
}

/// Relies on `String::from_utf8`: it succeeds exactly on valid UTF-8 input
/// and yields the character sequence those bytes encode.
#[verifier::external_body]
fn string_from_utf8(bytes: Vec<u8>) -> (r: Option<String>)
    ensures
        r matches Some(s) ==> valid_utf8(bytes@) && s@ == decode_utf8(bytes@),
        r is None ==> !valid_utf8(bytes@),
{
    match String::from_utf8(bytes) {
        Ok(s) => Some(s),
        Err(_) => None,
    }
}

fn decode_u32(b: &[u8], pos: usize) -> (r: Option<(u32, usize)>)
    requires
        pos <= b@.len(),
    ensures
        match r {
            Some((v, p)) => pos < p <= b@.len() && dec_u32(b@.skip(pos as int)) == Some(
                (v, b@.skip(p as int)),
            ),
            None => dec_u32(b@.skip(pos as int)) is None,
        },
    decreases b@.len() - pos,
{
    let ghost s = b@.skip(pos as int);
    if pos == b.len() {
        return None;
    }
    let byte = b[pos];
    proof {
        assert(s[0] == b@[pos as int]);
        assert(s.subrange(1, s.len() as int) =~= b@.skip(pos + 1 as int));
    }
    if byte < 128 {
        Some((byte as u32, pos + 1))
    } else {
        match decode_u32(b, pos + 1) {
            None => None,
            Some((hi, p)) => {
                let low: u32 = (byte - 128) as u32;
                if hi <= (u32::MAX - low) / 128 {
                    proof {
                        vstd::arithmetic::div_mod::lemma_fundamental_div_mod(
                            (u32::MAX - low) as int,
                            128,
                        );
                    }
                    Some((low + 128 * hi, p))
                } else {
                    None
                }
            },
        }
    }
}

fn decode_str(b: &[u8], pos: usize) -> (r: Option<(String, usize)>)
    requires
        pos <= b@.len(),
    ensures
        match r {
            Some((v, p)) => pos < p <= b@.len() && dec_str(b@.skip(pos as int)) == Some(
                (v@, b@.skip(p as int)),
            ),
            None => dec_str(b@.skip(pos as int)) is None,
        },
{
    let ghost s = b@.skip(pos as int);
    match decode_u32(b, pos) {
        None => None,
        Some((len, p)) => {
            proof {
                assert(b@.skip(p as int).len() == b@.len() - p);
            }
            if (len as usize) <= b.len() - p {
                let end = p + len as usize;
                let bytes = vstd::slice::slice_to_vec(vstd::slice::slice_subrange(b, p, end));
                proof {
                    assert(bytes@ =~= b@.skip(p as int).subrange(0, len as int));
                    assert(b@.skip(p as int).subrange(len as int, b@.skip(p as int).len() as int)
                        =~= b@.skip(end as int));
                }
                match string_from_utf8(bytes) {
                    None => None,
                    Some(st) => Some((st, end)),
                }
            } else {
                None
            }
        },
    }
}

fn decode_opt_name(b: &[u8], pos: usize) -> (r: Option<(Option<String>, usize)>)
    requires
        pos <= b@.len(),
    ensures
        match r {
            Some((v, p)) => pos < p <= b@.len() && dec_opt_name(b@.skip(pos as int)) == Some(
                (
                    match v {
                        Some(st) => Some(st@),
                        None => None,
                    },
                    b@.skip(p as int),
                ),
            ),
            None => dec_opt_name(b@.skip(pos as int)) is None,
        },
{
    let ghost s = b@.skip(pos as int);
    if pos == b.len() {
        return None;
    }
    let flag = b[pos];
    proof {
        assert(s[0] == b@[pos as int]);
        assert(s.subrange(1, s.len() as int) =~= b@.skip(pos + 1 as int));
    }
    if flag == 0 {
        Some((None, pos + 1))
    } else if flag == 1 {
        match decode_str(b, pos + 1) {
            None => None,
            Some((st, p)) => Some((Some(st), p)),
        }
    } else {
        None
    }
}

fn scalar_from_tag_exec(t: u8) -> (r: Option<WebidlScalarType>)
    ensures
        r == scalar_from_tag(t),
{
    match t {
        0 => Some(WebidlScalarType::Any),
        1 => Some(WebidlScalarType::Boolean),
        2 => Some(WebidlScalarType::Byte),
        3 => Some(WebidlScalarType::Octet),
        4 => Some(WebidlScalarType::Long),
        5 => Some(WebidlScalarType::UnsignedLong),
        6 => Some(WebidlScalarType::Short),
        7 => Some(WebidlScalarType::UnsignedShort),
        8 => Some(WebidlScalarType::LongLong),
        9 => Some(WebidlScalarType::UnsignedLongLong),
        10 => Some(WebidlScalarType::Float),
        11 => Some(WebidlScalarType::UnrestrictedFloat),
        12 => Some(WebidlScalarType::Double),
        13 => Some(WebidlScalarType::UnrestrictedDouble),
        14 => Some(WebidlScalarType::DomString),
        15 => Some(WebidlScalarType::ByteString),
        16 => Some(WebidlScalarType::UsvString),
        17 => Some(WebidlScalarType::Object),
        18 => Some(WebidlScalarType::Symbol),
        19 => Some(WebidlScalarType::ArrayBuffer),
        20 => Some(WebidlScalarType::DataView),
        21 => Some(WebidlScalarType::Int8Array),
        22 => Some(WebidlScalarType::Int16Array),
        23 => Some(WebidlScalarType::Int32Array),
        24 => Some(WebidlScalarType::Uint8Array),
        25 => Some(WebidlScalarType::Uint16Array),
        26 => Some(WebidlScalarType::Uint32Array),
        27 => Some(WebidlScalarType::Uint8ClampedArray),
        28 => Some(WebidlScalarType::Float32Array),
        29 => Some(WebidlScalarType::Float64Array),
        _ => None,
    }
}

fn decode_type_ref(b: &[u8], pos: usize, n_types: u32) -> (r: Option<(WebidlTypeRef, usize)>)
    requires
        pos <= b@.len(),
    ensures
        match r {
            Some((v, p)) => pos < p <= b@.len() && dec_type_ref(b@.skip(pos as int), n_types as int)
                == Some((v, b@.skip(p as int))),
            None => dec_type_ref(b@.skip(pos as int), n_types as int) is None,
        },
{
    let ghost s = b@.skip(pos as int);
    if pos == b.len() {
        return None;
    }
    let tag = b[pos];
    proof {
        assert(s[0] == b@[pos as int]);
        assert(s.subrange(1, s.len() as int) =~= b@.skip(pos + 1 as int));
    }
    if tag == 0 {
        match decode_u32(b, pos + 1) {
            None => None,
            Some((idx, p)) => {
                if idx < n_types {
                    Some((WebidlTypeRef::Id(CompoundTypeId(idx)), p))
                } else {
                    None
                }
            },
        }
    } else if tag == 1 {
        if pos + 1 == b.len() {
            proof {
                assert(s.len() < 2);
            }
            return None;
        }
        proof {
            assert(s[1] == b@[pos + 1 as int]);
            assert(s.subrange(2, s.len() as int) =~= b@.skip(pos + 2 as int));
        }
        match scalar_from_tag_exec(b[pos + 1]) {
            None => None,
            Some(t) => Some((WebidlTypeRef::Scalar(t), pos + 2)),
        }
    } else {
        None
    }
}

fn decode_val_type(b: &[u8], pos: usize) -> (r: Option<(WasmValType, usize)>)
    requires
        pos <= b@.len(),
    ensures
        match r {
            Some((v, p)) => pos < p <= b@.len() && dec_val_type(b@.skip(pos as int)) == Some(
                (v, b@.skip(p as int)),
            ),
            None => dec_val_type(b@.skip(pos as int)) is None,
        },
{
    let ghost s = b@.skip(pos as int);
    if pos == b.len() {
        return None;
    }
    proof {
        assert(s[0] == b@[pos as int]);
        assert(s.subrange(1, s.len() as int) =~= b@.skip(pos + 1 as int));
    }
    let t: Option<WasmValType> = match b[pos] {
        0 => Some(WasmValType::I32),
        1 => Some(WasmValType::I64),
        2 => Some(WasmValType::F32),
        3 => Some(WasmValType::F64),
        4 => Some(WasmValType::V128),
        5 => Some(WasmValType::Anyref),
        _ => None,
    };
    match t {
        None => None,
        Some(v) => Some((v, pos + 1)),
    }
}

fn decode_func_kind(b: &[u8], pos: usize, n_types: u32) -> (r: Option<(WebidlFunctionKind, usize)>)
    requires
        pos <= b@.len(),
    ensures
        match r {
            Some((v, p)) => pos < p <= b@.len() && dec_func_kind(
                b@.skip(pos as int),
                n_types as int,
            ) == Some((v, b@.skip(p as int))),
            None => dec_func_kind(b@.skip(pos as int), n_types as int) is None,
        },
{
    let ghost s = b@.skip(pos as int);
    if pos == b.len() {
        return None;
    }
    let tag = b[pos];
    proof {
        assert(s[0] == b@[pos as int]);
        assert(s.subrange(1, s.len() as int) =~= b@.skip(pos + 1 as int));
    }
    if tag == 0 {
        Some((WebidlFunctionKind::Static, pos + 1))
    } else if tag == 1 {
        match decode_type_ref(b, pos + 1, n_types) {
            None => None,
            Some((ty, p)) => Some((WebidlFunctionKind::Method(WebidlFunctionKindMethod { ty }), p)),
        }
    } else if tag == 2 {
        Some((WebidlFunctionKind::Constructor, pos + 1))
    } else {
        None
    }
}

fn decode_opt_result(b: &[u8], pos: usize, n_types: u32) -> (r: Option<
    (Option<WebidlTypeRef>, usize),
>)
    requires
        pos <= b@.len(),
    ensures
        match r {
            Some((v, p)) => pos < p <= b@.len() && dec_opt_result(
                b@.skip(pos as int),
                n_types as int,
            ) == Some((v, b@.skip(p as int))),
            None => dec_opt_result(b@.skip(pos as int), n_types as int) is None,
        },
{
    let ghost s = b@.skip(pos as int);
    if pos == b.len() {
        return None;
    }
    let flag = b[pos];
    proof {
        assert(s[0] == b@[pos as int]);
        assert(s.subrange(1, s.len() as int) =~= b@.skip(pos + 1 as int));
    }
    if flag == 0 {
        Some((None, pos + 1))
    } else if flag == 1 {
        match decode_type_ref(b, pos + 1, n_types) {
            None => None,
            Some((ty, p)) => Some((Some(ty), p)),
        }
    } else {
        None
    }
}

fn decode_type_ref_list(b: &[u8], pos: usize, count: u32, n_types: u32) -> (r: Option<
    (Vec<WebidlTypeRef>, usize),
>)
    requires
        pos <= b@.len(),
    ensures
        match r {
            Some((v, p)) => pos <= p <= b@.len() && dec_type_ref_list(
                b@.skip(pos as int),
                n_types as int,
                count as nat,
            ) == Some((v@, b@.skip(p as int))),
            None => dec_type_ref_list(b@.skip(pos as int), n_types as int, count as nat) is None,
        },
{
    let mut acc: Vec<WebidlTypeRef> = Vec::new();
    let mut p = pos;
    let mut k: u32 = 0;
    while k < count
        invariant
            pos <= p <= b@.len(),
            k <= count,
            dec_type_ref_list(b@.skip(pos as int), n_types as int, count as nat) == dec_append(
                acc@,
                dec_type_ref_list(b@.skip(p as int), n_types as int, (count - k) as nat),
            ),
        decreases count - k,
    {
        match decode_type_ref(b, p, n_types) {
            None => {
                return None;
            },
            Some((t, p2)) => {
                proof {
                    let m = (count - k) as nat;
                    let sp = b@.skip(p as int);
                    let x = dec_type_ref_list(b@.skip(p2 as int), n_types as int, (m - 1) as nat);
                    if x is Some {
                        let (tail, r2) = x->Some_0;
                        assert(dec_type_ref_list(sp, n_types as int, m) == Some(
                            (seq![t] + tail, r2),
                        ));
                        assert(acc@ + (seq![t] + tail) =~= acc@.push(t) + tail);
                    }
                }
                acc.push(t);
                p = p2;
                k = k + 1;
            },
        }
    }
    proof {
        assert(acc@ + Seq::<WebidlTypeRef>::empty() =~= acc@);
    }
    Some((acc, p))
}

#[verifier::rlimit(100)]
#[verifier::spinoff_prover]
fn decode_function(b: &[u8], pos: usize, n_types: u32) -> (r: Option<(WebidlFunction, usize)>)
    requires
        pos <= b@.len(),
    ensures
        match r {
            Some((v, p)) => pos < p <= b@.len() && dec_function(b@.skip(pos as int), n_types as int)
                == Some((v@, b@.skip(p as int))),
            None => dec_function(b@.skip(pos as int), n_types as int) is None,
        },
{
    match decode_func_kind(b, pos, n_types) {
        None => None,
        Some((kind, p1)) => match decode_u32(b, p1) {
            None => None,
            Some((count, p2)) => match decode_type_ref_list(b, p2, count, n_types) {
                None => None,
                Some((params, p3)) => match decode_opt_result(b, p3, n_types) {
                    None => None,
                    Some((result, p4)) => {
                        let f = WebidlFunction { kind, params, result };
                        proof {
                            assert(f@ =~= (FunctionView {
                                kind,
                                params: f.params@,
                                result,
                            }));
                        }
                        Some((f, p4))
                    },
                },
            },
        },
    }
}

fn decode_dict_field_list(b: &[u8], pos: usize, count: u32, n_types: u32) -> (r: Option<
    (Vec<WebidlDictionaryField>, usize),
>)
    requires
        pos <= b@.len(),
    ensures
        match r {
            Some((v, p)) => pos <= p <= b@.len() && dec_dict_field_list(
                b@.skip(pos as int),
                n_types as int,
                count as nat,
            ) == Some((v@.map_values(|f: WebidlDictionaryField| f@), b@.skip(p as int))),
            None => dec_dict_field_list(b@.skip(pos as int), n_types as int, count as nat) is None,
        },
{
    let mut acc: Vec<WebidlDictionaryField> = Vec::new();
    let mut p = pos;
    let mut k: u32 = 0;
    while k < count
        invariant
            pos <= p <= b@.len(),
            k <= count,
            dec_dict_field_list(b@.skip(pos as int), n_types as int, count as nat) == dec_append(
                acc@.map_values(|f: WebidlDictionaryField| f@),
                dec_dict_field_list(b@.skip(p as int), n_types as int, (count - k) as nat),
            ),
        decreases count - k,
    {
        match decode_str(b, p) {
            None => {
                return None;
            },
            Some((name, p1)) => match decode_type_ref(b, p1, n_types) {
                None => {
                    return None;
                },
                Some((ty, p2)) => {
                    let f = WebidlDictionaryField { name, ty };
                    proof {
                        let m = (count - k) as nat;
                        let sp = b@.skip(p as int);
                        let x = dec_dict_field_list(
                            b@.skip(p2 as int),
                            n_types as int,
                            (m - 1) as nat,
                        );
                        if x is Some {
                            let (tail, r2) = x->Some_0;
                            assert(dec_dict_field_list(sp, n_types as int, m) == Some(
                                (seq![f@] + tail, r2),
                            ));
                            assert(acc@.map_values(|g: WebidlDictionaryField| g@) + (seq![f@]
                                + tail) =~= acc@.push(f).map_values(
                                |g: WebidlDictionaryField| g@,
                            ) + tail);
                        }
                    }
                    acc.push(f);
                    p = p2;
                    k = k + 1;
                },
            },
        }
    }
    proof {
        assert(acc@.map_values(|f: WebidlDictionaryField| f@) + Seq::<
            DictionaryFieldView,
        >::empty() =~= acc@.map_values(|f: WebidlDictionaryField| f@));
    }
    Some((acc, p))
}

fn decode_dictionary(b: &[u8], pos: usize, n_types: u32) -> (r: Option<(WebidlDictionary, usize)>)
    requires
        pos <= b@.len(),
    ensures
        match r {
            Some((v, p)) => pos < p <= b@.len() && dec_dictionary(
                b@.skip(pos as int),
                n_types as int,
            ) == Some((v@, b@.skip(p as int))),
            None => dec_dictionary(b@.skip(pos as int), n_types as int) is None,
        },
{
    match decode_u32(b, pos) {
        None => None,
        Some((count, p1)) => match decode_dict_field_list(b, p1, count, n_types) {
            None => None,
            Some((fields, p2)) => Some((WebidlDictionary { fields }, p2)),
        },
    }
}

fn decode_str_list(b: &[u8], pos: usize, count: u32) -> (r: Option<(Vec<String>, usize)>)
    requires
        pos <= b@.len(),
    ensures
        match r {
            Some((v, p)) => pos <= p <= b@.len() && dec_str_list(b@.skip(pos as int), count as nat)
                == Some((v@.map_values(|st: String| st@), b@.skip(p as int))),
            None => dec_str_list(b@.skip(pos as int), count as nat) is None,
        },
{
    let mut acc: Vec<String> = Vec::new();
    let mut p = pos;
    let mut k: u32 = 0;
    while k < count
        invariant
            pos <= p <= b@.len(),
            k <= count,
            dec_str_list(b@.skip(pos as int), count as nat) == dec_append(
                acc@.map_values(|st: String| st@),
                dec_str_list(b@.skip(p as int), (count - k) as nat),
            ),
        decreases count - k,
    {
        match decode_str(b, p) {
            None => {
                return None;
            },
            Some((st, p2)) => {
                proof {
                    let m = (count - k) as nat;
                    let sp = b@.skip(p as int);
                    let x = dec_str_list(b@.skip(p2 as int), (m - 1) as nat);
                    if x is Some {
                        let (tail, r2) = x->Some_0;
                        assert(dec_str_list(sp, m) == Some((seq![st@] + tail, r2)));
                        assert(acc@.map_values(|t: String| t@) + (seq![st@] + tail)
                            =~= acc@.push(st).map_values(|t: String| t@) + tail);
                    }
                }
                acc.push(st);
                p = p2;
                k = k + 1;
            },
        }
    }
    proof {
        assert(acc@.map_values(|st: String| st@) + Seq::<Seq<char>>::empty() =~= acc@.map_values(
            |st: String| st@,
        ));
    }
    Some((acc, p))
}

fn decode_enumeration(b: &[u8], pos: usize) -> (r: Option<(WebidlEnumeration, usize)>)
    requires
        pos <= b@.len(),
    ensures
        match r {
            Some((v, p)) => pos < p <= b@.len() && dec_enumeration(b@.skip(pos as int)) == Some(
                (v@, b@.skip(p as int)),
            ),
            None => dec_enumeration(b@.skip(pos as int)) is None,
        },
{
    match decode_u32(b, pos) {
        None => None,
        Some((count, p1)) => match decode_str_list(b, p1, count) {
            None => None,
            Some((values, p2)) => Some((WebidlEnumeration { values }, p2)),
        },
    }
}

fn decode_union(b: &[u8], pos: usize, n_types: u32) -> (r: Option<(WebidlUnion, usize)>)
    requires
        pos <= b@.len(),
    ensures
        match r {
            Some((v, p)) => pos < p <= b@.len() && dec_union(b@.skip(pos as int), n_types as int)
                == Some((v@, b@.skip(p as int))),
            None => dec_union(b@.skip(pos as int), n_types as int) is None,
        },
{
    match decode_u32(b, pos) {
        None => None,
        Some((count, p1)) => match decode_type_ref_list(b, p1, count, n_types) {
            None => None,
            Some((members, p2)) => Some((WebidlUnion { members }, p2)),
        },
    }
}

fn decode_compound_payload(b: &[u8], pos: usize, tag: u8, n_types: u32) -> (r: Option<
    (WebidlCompoundType, usize),
>)
    requires
        pos <= b@.len(),
    ensures
        match r {
            Some((v, p)) => pos < p <= b@.len() && dec_compound_payload(
                b@.skip(pos as int),
                tag,
                n_types as int,
            ) == Some((v@, b@.skip(p as int))),
            None => dec_compound_payload(b@.skip(pos as int), tag, n_types as int) is None,
        },
{
    if tag == 0 {
        match decode_function(b, pos, n_types) {
            None => None,
            Some((f, p)) => Some((WebidlCompoundType::Function(f), p)),
        }
    } else if tag == 1 {
        match decode_dictionary(b, pos, n_types) {
            None => None,
            Some((d, p)) => Some((WebidlCompoundType::Dictionary(d), p)),
        }
    } else if tag == 2 {
        match decode_enumeration(b, pos) {
            None => None,
            Some((e, p)) => Some((WebidlCompoundType::Enumeration(e), p)),
        }
    } else if tag == 3 {
        match decode_union(b, pos, n_types) {
            None => None,
            Some((u, p)) => Some((WebidlCompoundType::Union(u), p)),
        }
    } else {
        None
    }
}

#[verifier::rlimit(100)]
#[verifier::spinoff_prover]
fn decode_out_expr(b: &[u8], pos: usize, n_types: u32, n_bindings: u32) -> (r: Option<
    (OutgoingBindingExpression, usize),
>)
    requires
        pos <= b@.len(),
    ensures
        match r {
            Some((v, p)) => pos < p <= b@.len() && dec_out_expr(
                b@.skip(pos as int),
                n_types as int,
                n_bindings as int,
            ) == Some((v@, b@.skip(p as int))),
            None => dec_out_expr(b@.skip(pos as int), n_types as int, n_bindings as int) is None,
        },
    decreases b@.len() - pos, 0int,
{
    let ghost s = b@.skip(pos as int);
    if pos == b.len() {
        return None;
    }
    let tag = b[pos];
    proof {
        assert(s[0] == b@[pos as int]);
        assert(s.subrange(1, s.len() as int) =~= b@.skip(pos + 1 as int));
    }
    if tag == 0 {
        match decode_type_ref(b, pos + 1, n_types) {
            None => None,
            Some((ty, p1)) => match decode_u32(b, p1) {
                None => None,
                Some((idx, p2)) => Some(
                    (OutgoingBindingExpression::As(OutgoingBindingExpressionAs { ty, idx }), p2),
                ),
            },
        }
    } else if tag == 1 {
        match decode_type_ref(b, pos + 1, n_types) {
            None => None,
            Some((ty, p1)) => match decode_u32(b, p1) {
                None => None,
                Some((offset, p2)) => match decode_u32(b, p2) {
                    None => None,
                    Some((length, p3)) => Some(
                        (
                            OutgoingBindingExpression::Utf8Str(
                                OutgoingBindingExpressionUtf8Str { ty, offset, length },
                            ),
                            p3,
                        ),
                    ),
                },
            },
        }
    } else if tag == 2 {
        match decode_type_ref(b, pos + 1, n_types) {
            None => None,
            Some((ty, p1)) => match decode_u32(b, p1) {
                None => None,
                Some((offset, p2)) => Some(
                    (
                        OutgoingBindingExpression::Utf8CStr(
                            OutgoingBindingExpressionUtf8CStr { ty, offset },
                        ),
                        p2,
                    ),
                ),
            },
        }
    } else if tag == 3 {
        match decode_type_ref(b, pos + 1, n_types) {
            None => None,
            Some((ty, p1)) => match decode_u32(b, p1) {
                None => None,
                Some((idx, p2)) => Some(
                    (
                        OutgoingBindingExpression::I32ToEnum(
                            OutgoingBindingExpressionI32ToEnum { ty, idx },
                        ),
                        p2,
                    ),
                ),
            },
        }
    } else if tag == 4 {
        match decode_type_ref(b, pos + 1, n_types) {
            None => None,
            Some((ty, p1)) => match decode_u32(b, p1) {
                None => None,
                Some((offset, p2)) => match decode_u32(b, p2) {
                    None => None,
                    Some((length, p3)) => Some(
                        (
                            OutgoingBindingExpression::View(
                                OutgoingBindingExpressionView { ty, offset, length },
                            ),
                            p3,
                        ),
                    ),
                },
            },
        }
    } else if tag == 5 {
        match decode_type_ref(b, pos + 1, n_types) {
            None => None,
            Some((ty, p1)) => match decode_u32(b, p1) {
                None => None,
                Some((offset, p2)) => match decode_u32(b, p2) {
                    None => None,
                    Some((length, p3)) => Some(
                        (
                            OutgoingBindingExpression::Copy(
                                OutgoingBindingExpressionCopy { ty, offset, length },
                            ),
                            p3,
                        ),
                    ),
                },
            },
        }
    } else if tag == 6 {
        match decode_type_ref(b, pos + 1, n_types) {
            None => None,
            Some((ty, p1)) => match decode_u32(b, p1) {
                None => None,
                Some((count, p2)) => {
                    match decode_out_expr_list(b, p2, count, n_types, n_bindings) {
                        None => None,
                        Some((fields, p3)) => {
                            let d = OutgoingBindingExpressionDict { ty, fields };
                            proof {
                                lemma_out_expr_views_eq_map(d.fields@);
                            }
                            Some((OutgoingBindingExpression::Dict(d), p3))
                        },
                    }
                },
            },
        }
    } else if tag == 7 {
        match decode_type_ref(b, pos + 1, n_types) {
            None => None,
            Some((ty, p1)) => match decode_u32(b, p1) {
                None => None,
                Some((bi, p2)) => {
                    if bi < n_bindings {
                        match decode_u32(b, p2) {
                            None => None,
                            Some((idx, p3)) => Some(
                                (
                                    OutgoingBindingExpression::BindExport(
                                        OutgoingBindingExpressionBindExport {
                                            ty,
                                            binding: BindingId(bi),
                                            idx,
                                        },
                                    ),
                                    p3,
                                ),
                            ),
                        }
                    } else {
                        None
                    }
                },
            },
        }
    } else {
        None
    }
}

#[verifier::rlimit(100)]
#[verifier::spinoff_prover]
fn decode_out_expr_list(b: &[u8], pos: usize, count: u32, n_types: u32, n_bindings: u32) -> (r:
    Option<(Vec<OutgoingBindingExpression>, usize)>)
    requires
        pos <= b@.len(),
    ensures
        match r {
            Some((v, p)) => pos <= p <= b@.len() && dec_out_expr_list(
                b@.skip(pos as int),
                n_types as int,
                n_bindings as int,
                count as nat,
            ) == Some((out_expr_views(v@), b@.skip(p as int))),
            None => dec_out_expr_list(
                b@.skip(pos as int),
                n_types as int,
                n_bindings as int,
                count as nat,
            ) is None,
        },
    decreases b@.len() - pos, 1int,
{
    let mut acc: Vec<OutgoingBindingExpression> = Vec::new();
    let mut p = pos;
    let mut k: u32 = 0;
    proof {
        lemma_out_expr_views_eq_map(acc@);
    }
    while k < count
        invariant
            pos <= p <= b@.len(),
            k <= count,
            dec_out_expr_list(
                b@.skip(pos as int),
                n_types as int,
                n_bindings as int,
                count as nat,
            ) == dec_append(
                acc@.map_values(|e: OutgoingBindingExpression| e@),
                dec_out_expr_list(
                    b@.skip(p as int),
                    n_types as int,
                    n_bindings as int,
                    (count - k) as nat,
                ),
            ),
        decreases count - k,
    {
        match decode_out_expr(b, p, n_types, n_bindings) {
            None => {
                return None;
            },
            Some((e, p2)) => {
                proof {
                    let m = (count - k) as nat;
                    let sp = b@.skip(p as int);
                    let x = dec_out_expr_list(
                        b@.skip(p2 as int),
                        n_types as int,
                        n_bindings as int,
                        (m - 1) as nat,
                    );
                    assert(b@.skip(p2 as int).len() < sp.len());
                    if x is Some {
                        let (tail, r2) = x->Some_0;
                        assert(dec_out_expr_list(sp, n_types as int, n_bindings as int, m)
                            == Some((seq![e@] + tail, r2)));
                        assert(acc@.map_values(|g: OutgoingBindingExpression| g@) + (seq![e@]
                            + tail) =~= acc@.push(e).map_values(
                            |g: OutgoingBindingExpression| g@,
                        ) + tail);
                    }
                }
                acc.push(e);
                p = p2;
                k = k + 1;
            },
        }
    }
    proof {
        lemma_out_expr_views_eq_map(acc@);
        assert(acc@.map_values(|e: OutgoingBindingExpression| e@) + Seq::<
            OutgoingExprView,
        >::empty() =~= out_expr_views(acc@));
    }
    Some((acc, p))
}

#[verifier::rlimit(100)]
#[verifier::spinoff_prover]
fn decode_in_expr(b: &[u8], pos: usize, n_types: u32, n_bindings: u32, n_host_types: u32) -> (r:
    Option<(IncomingBindingExpression, usize)>)
    requires
        pos <= b@.len(),
    ensures
        match r {
            Some((v, p)) => pos < p <= b@.len() && dec_in_expr(
                b@.skip(pos as int),
                n_types as int,
                n_bindings as int,
                n_host_types as int,
            ) == Some((v@, b@.skip(p as int))),
            None => dec_in_expr(
                b@.skip(pos as int),
                n_types as int,
                n_bindings as int,
                n_host_types as int,
            ) is None,
        },
    decreases b@.len() - pos,
{
    let ghost s = b@.skip(pos as int);
    if pos == b.len() {
        return None;
    }
    let tag = b[pos];
    proof {
        assert(s[0] == b@[pos as int]);
        assert(s.subrange(1, s.len() as int) =~= b@.skip(pos + 1 as int));
    }
    if tag == 0 {
        match decode_u32(b, pos + 1) {
            None => None,
            Some((idx, p)) => Some(
                (IncomingBindingExpression::Get(IncomingBindingExpressionGet { idx }), p),
            ),
        }
    } else if tag == 1 {
        match decode_val_type(b, pos + 1) {
            None => None,
            Some((ty, p1)) => match decode_in_expr(b, p1, n_types, n_bindings, n_host_types) {
                None => None,
                Some((expr, p2)) => Some(
                    (
                        IncomingBindingExpression::As(
                            IncomingBindingExpressionAs { ty, expr: Box::new(expr) },
                        ),
                        p2,
                    ),
                ),
            },
        }
    } else if tag == 2 {
        match decode_str(b, pos + 1) {
            None => None,
            Some((name, p1)) => match decode_in_expr(b, p1, n_types, n_bindings, n_host_types) {
                None => None,
                Some((expr, p2)) => Some(
                    (
                        IncomingBindingExpression::AllocUtf8Str(
                            IncomingBindingExpressionAllocUtf8Str {
                                alloc_func_name: name,
                                expr: Box::new(expr),
                            },
                        ),
                        p2,
                    ),
                ),
            },
        }
    } else if tag == 3 {
        match decode_str(b, pos + 1) {
            None => None,
            Some((name, p1)) => match decode_in_expr(b, p1, n_types, n_bindings, n_host_types) {
                None => None,
                Some((expr, p2)) => Some(
                    (
                        IncomingBindingExpression::AllocCopy(
                            IncomingBindingExpressionAllocCopy {
                                alloc_func_name: name,
                                expr: Box::new(expr),
                            },
                        ),
                        p2,
                    ),
                ),
            },
        }
    } else if tag == 4 {
        match decode_type_ref(b, pos + 1, n_types) {
            None => None,
            Some((ty, p1)) => match decode_in_expr(b, p1, n_types, n_bindings, n_host_types) {
                None => None,
                Some((expr, p2)) => Some(
                    (
                        IncomingBindingExpression::EnumToI32(
                            IncomingBindingExpressionEnumToI32 { ty, expr: Box::new(expr) },
                        ),
                        p2,
                    ),
                ),
            },
        }
    } else if tag == 5 {
        match decode_u32(b, pos + 1) {
            None => None,
            Some((idx, p1)) => match decode_in_expr(b, p1, n_types, n_bindings, n_host_types) {
                None => None,
                Some((expr, p2)) => Some(
                    (
                        IncomingBindingExpression::Field(
                            IncomingBindingExpressionField { idx, expr: Box::new(expr) },
                        ),
                        p2,
                    ),
                ),
            },
        }
    } else if tag == 6 {
        match decode_u32(b, pos + 1) {
            None => None,
            Some((t, p1)) => {
                if t < n_host_types {
                    match decode_u32(b, p1) {
                        None => None,
                        Some((bi, p2)) => {
                            if bi < n_bindings {
                                match decode_in_expr(b, p2, n_types, n_bindings, n_host_types) {
                                    None => None,
                                    Some((expr, p3)) => Some(
                                        (
                                            IncomingBindingExpression::BindImport(
                                                IncomingBindingExpressionBindImport {
                                                    ty: WasmFuncTypeId(t),
                                                    binding: BindingId(bi),
                                                    expr: Box::new(expr),
                                                },
                                            ),
                                            p3,
                                        ),
                                    ),
                                }
                            } else {
                                None
                            }
                        },
                    }
                } else {
                    None
                }
            },
        }
    } else {
        None
    }
}

fn decode_in_expr_list(
    b: &[u8],
    pos: usize,
    count: u32,
    n_types: u32,
    n_bindings: u32,
    n_host_types: u32,
) -> (r: Option<(Vec<IncomingBindingExpression>, usize)>)
    requires
        pos <= b@.len(),
    ensures
        match r {
            Some((v, p)) => pos <= p <= b@.len() && dec_in_expr_list(
                b@.skip(pos as int),
                n_types as int,
                n_bindings as int,
                n_host_types as int,
                count as nat,
            ) == Some(
                (v@.map_values(|e: IncomingBindingExpression| e@), b@.skip(p as int)),
            ),
            None => dec_in_expr_list(
                b@.skip(pos as int),
                n_types as int,
                n_bindings as int,
                n_host_types as int,
                count as nat,
            ) is None,
        },
{
    let mut acc: Vec<IncomingBindingExpression> = Vec::new();
    let mut p = pos;
    let mut k: u32 = 0;
    while k < count
        invariant
            pos <= p <= b@.len(),
            k <= count,
            dec_in_expr_list(
                b@.skip(pos as int),
                n_types as int,
                n_bindings as int,
                n_host_types as int,
                count as nat,
            ) == dec_append(
                acc@.map_values(|e: IncomingBindingExpression| e@),
                dec_in_expr_list(
                    b@.skip(p as int),
                    n_types as int,
                    n_bindings as int,
                    n_host_types as int,
                    (count - k) as nat,
                ),
            ),
        decreases count - k,
    {
        match decode_in_expr(b, p, n_types, n_bindings, n_host_types) {
            None => {
                return None;
            },
            Some((e, p2)) => {
                proof {
                    let m = (count - k) as nat;
                    let sp = b@.skip(p as int);
                    let x = dec_in_expr_list(
                        b@.skip(p2 as int),
                        n_types as int,
                        n_bindings as int,
                        n_host_types as int,
                        (m - 1) as nat,
                    );
                    if x is Some {
                        let (tail, r2) = x->Some_0;
                        assert(dec_in_expr_list(
                            sp,
                            n_types as int,
                            n_bindings as int,
                            n_host_types as int,
                            m,
                        ) == Some((seq![e@] + tail, r2)));
                        assert(acc@.map_values(|g: IncomingBindingExpression| g@) + (seq![e@]
                            + tail) =~= acc@.push(e).map_values(
                            |g: IncomingBindingExpression| g@,
                        ) + tail);
                    }
                }
                acc.push(e);
                p = p2;
                k = k + 1;
            },
        }
    }
    proof {
        assert(acc@.map_values(|e: IncomingBindingExpression| e@) + Seq::<
            IncomingExprView,
        >::empty() =~= acc@.map_values(|e: IncomingBindingExpression| e@));
    }
    Some((acc, p))
}

#[verifier::rlimit(100)]
#[verifier::spinoff_prover]
fn decode_binding_payload(
    b: &[u8],
    pos: usize,
    tag: u8,
    n_types: u32,
    self_idx: u32,
    n_host_types: u32,
) -> (r: Option<(FunctionBinding, usize)>)
    requires
        pos <= b@.len(),
    ensures
        match r {
            Some((v, p)) => pos < p <= b@.len() && dec_binding_payload(
                b@.skip(pos as int),
                tag,
                n_types as int,
                self_idx as int,
                n_host_types as int,
            ) == Some((v@, b@.skip(p as int))),
            None => dec_binding_payload(
                b@.skip(pos as int),
                tag,
                n_types as int,
                self_idx as int,
                n_host_types as int,
            ) is None,
        },
{
    if tag != 0 && tag != 1 {
        return None;
    }
    match decode_u32(b, pos) {
        None => None,
        Some((wt, p1)) => {
            if wt >= n_host_types {
                return None;
            }
            match decode_type_ref(b, p1, n_types) {
                None => None,
                Some((webidl_ty, p2)) => match decode_u32(b, p2) {
                    None => None,
                    Some((n_params, p3)) => {
                        if tag == 0 {
                            match decode_out_expr_list(b, p3, n_params, n_types, self_idx) {
                                None => None,
                                Some((params, p4)) => match decode_u32(b, p4) {
                                    None => None,
                                    Some((n_results, p5)) => match decode_in_expr_list(
                                        b,
                                        p5,
                                        n_results,
                                        n_types,
                                        self_idx,
                                        n_host_types,
                                    ) {
                                        None => None,
                                        Some((result, p6)) => {
                                            let ib = ImportBinding {
                                                wasm_ty: WasmFuncTypeId(wt),
                                                webidl_ty,
                                                params: OutgoingBindingMap { bindings: params },
                                                result: IncomingBindingMap { bindings: result },
                                            };
                                            proof {
                                                lemma_out_expr_views_eq_map(
                                                    ib.params.bindings@,
                                                );
                                            }
                                            Some((FunctionBinding::Import(ib), p6))
                                        },
                                    },
                                },
                            }
                        } else {
                            match decode_in_expr_list(
                                b,
                                p3,
                                n_params,
                                n_types,
                                self_idx,
                                n_host_types,
                            ) {
                                None => None,
                                Some((params, p4)) => match decode_u32(b, p4) {
                                    None => None,
                                    Some((n_results, p5)) => match decode_out_expr_list(
                                        b,
                                        p5,
                                        n_results,
                                        n_types,
                                        self_idx,
                                    ) {
                                        None => None,
                                        Some((result, p6)) => {
                                            let eb = ExportBinding {
                                                wasm_ty: WasmFuncTypeId(wt),
                                                webidl_ty,
                                                params: IncomingBindingMap { bindings: params },
                                                result: OutgoingBindingMap { bindings: result },
                                            };
                                            proof {
                                                lemma_out_expr_views_eq_map(
                                                    eb.result.bindings@,
                                                );
                                            }
                                            Some((FunctionBinding::Export(eb), p6))
                                        },
                                    },
                                },
                            }
                        }
                    },
                },
            }
        },
    }
}

/// Glue an already-decoded entry and name prefix onto the outcome of
/// decoding the remaining entries of a table.
pub open spec fn dec_entries_append<T>(
    prefix: Seq<T>,
    prefix_names: Seq<(Seq<char>, u32)>,
    r: Option<(Seq<T>, Seq<(Seq<char>, u32)>, Seq<u8>)>,
) -> Option<(Seq<T>, Seq<(Seq<char>, u32)>, Seq<u8>)> {
    match r {
        Some((t, n, rest)) => Some((prefix + t, prefix_names + n, rest)),
        None => None,
    }
}

#[verifier::rlimit(100)]
#[verifier::spinoff_prover]
fn decode_type_entries(b: &[u8], pos: usize, count: u32) -> (r: Option<
    (Vec<WebidlCompoundType>, Vec<(String, u32)>, usize),
>)
    requires
        pos <= b@.len(),
    ensures
        match r {
            Some((entries, names, p)) => pos <= p <= b@.len() && entries@.len() == count
                && dec_type_entries(b@.skip(pos as int), 0, count as nat) == Some(
                (
                    entries@.map_values(|c: WebidlCompoundType| c@),
                    names_view(names@),
                    b@.skip(p as int),
                ),
            ),
            None => dec_type_entries(b@.skip(pos as int), 0, count as nat) is None,
        },
{
    let mut entries: Vec<WebidlCompoundType> = Vec::new();
    let mut names: Vec<(String, u32)> = Vec::new();
    let mut p = pos;
    let mut k: u32 = 0;
    while k < count
        invariant
            pos <= p <= b@.len(),
            k <= count,
            entries@.len() == k,
            dec_type_entries(b@.skip(pos as int), 0, count as nat) == dec_entries_append(
                entries@.map_values(|c: WebidlCompoundType| c@),
                names_view(names@),
                dec_type_entries(b@.skip(p as int), k as int, (count - k) as nat),
            ),
        decreases count - k,
    {
        let ghost sp = b@.skip(p as int);
        if p == b.len() {
            return None;
        }
        let tag = b[p];
        proof {
            assert(sp[0] == b@[p as int]);
            assert(sp.subrange(1, sp.len() as int) =~= b@.skip(p + 1 as int));
        }
        match decode_opt_name(b, p + 1) {
            None => {
                return None;
            },
            Some((name, p1)) => match decode_compound_payload(b, p1, tag, k) {
                None => {
                    return None;
                },
                Some((c, p2)) => {
                    proof {
                        let m = (count - k) as nat;
                        let x = dec_type_entries(b@.skip(p2 as int), k + 1 as int, (m - 1) as nat);
                        if x is Some {
                            let (tailc, tailn, r2) = x->Some_0;
                            let namev: Option<Seq<char>> = match &name {
                                Some(st) => Some(st@),
                                None => None,
                            };
                            let headn: Seq<(Seq<char>, u32)> = match namev {
                                Some(n) => seq![(n, k as u32)],
                                None => Seq::empty(),
                            };
                            assert(dec_type_entries(sp, k as int, m) == Some(
                                (seq![c@] + tailc, headn + tailn, r2),
                            ));
                            assert(entries@.map_values(|g: WebidlCompoundType| g@) + (seq![c@]
                                + tailc) =~= entries@.push(c).map_values(
                                |g: WebidlCompoundType| g@,
                            ) + tailc);
                            match &name {
                                Some(st) => {
                                    assert(names_view(names@) + (headn + tailn) =~= names_view(
                                        names@.push((*st, k as u32)),
                                    ) + tailn);
                                },
                                None => {
                                    assert(names_view(names@) + (headn + tailn) =~= names_view(
                                        names@,
                                    ) + tailn);
                                },
                            }
                        }
                    }
                    entries.push(c);
                    if let Some(st) = name {
                        names.push((st, k));
                    }
                    p = p2;
                    k = k + 1;
                },
            },
        }
    }
    proof {
        assert(dec_type_entries(b@.skip(p as int), k as int, 0nat) matches Some(
            (e, n, rest),
        ) && e =~= Seq::<CompoundTypeView>::empty() && n =~= Seq::<(Seq<char>, u32)>::empty());
        assert(entries@.map_values(|c: WebidlCompoundType| c@) + Seq::<CompoundTypeView>::empty()
            =~= entries@.map_values(|c: WebidlCompoundType| c@));
        assert(names_view(names@) + Seq::<(Seq<char>, u32)>::empty() =~= names_view(names@));
    }
    Some((entries, names, p))
}

#[verifier::rlimit(100)]
#[verifier::spinoff_prover]
fn decode_binding_entries(b: &[u8], pos: usize, count: u32, n_types: u32, n_host_types: u32) -> (r:
    Option<(Vec<FunctionBinding>, Vec<(String, u32)>, usize)>)
    requires
        pos <= b@.len(),
    ensures
        match r {
            Some((entries, names, p)) => pos <= p <= b@.len() && entries@.len() == count
                && dec_binding_entries(
                b@.skip(pos as int),
                0,
                count as nat,
                n_types as int,
                n_host_types as int,
            ) == Some(
                (
                    entries@.map_values(|c: FunctionBinding| c@),
                    names_view(names@),
                    b@.skip(p as int),
                ),
            ),
            None => dec_binding_entries(
                b@.skip(pos as int),
                0,
                count as nat,
                n_types as int,
                n_host_types as int,
            ) is None,
        },
{
    let mut entries: Vec<FunctionBinding> = Vec::new();
    let mut names: Vec<(String, u32)> = Vec::new();
    let mut p = pos;
    let mut k: u32 = 0;
    while k < count
        invariant
            pos <= p <= b@.len(),
            k <= count,
            entries@.len() == k,
            dec_binding_entries(
                b@.skip(pos as int),
                0,
                count as nat,
                n_types as int,
                n_host_types as int,
            ) == dec_entries_append(
                entries@.map_values(|c: FunctionBinding| c@),
                names_view(names@),
                dec_binding_entries(
                    b@.skip(p as int),
                    k as int,
                    (count - k) as nat,
                    n_types as int,
                    n_host_types as int,
                ),
            ),
        decreases count - k,
    {
        let ghost sp = b@.skip(p as int);
        if p == b.len() {
            return None;
        }
        let tag = b[p];
        proof {
            assert(sp[0] == b@[p as int]);
            assert(sp.subrange(1, sp.len() as int) =~= b@.skip(p + 1 as int));
        }
        match decode_opt_name(b, p + 1) {
            None => {
                return None;
            },
            Some((name, p1)) => match decode_binding_payload(b, p1, tag, n_types, k, n_host_types) {
                None => {
                    return None;
                },
                Some((c, p2)) => {
                    proof {
                        let m = (count - k) as nat;
                        let x = dec_binding_entries(
                            b@.skip(p2 as int),
                            k + 1 as int,
                            (m - 1) as nat,
                            n_types as int,
                            n_host_types as int,
                        );
                        if x is Some {
                            let (tailc, tailn, r2) = x->Some_0;
                            let namev: Option<Seq<char>> = match &name {
                                Some(st) => Some(st@),
                                None => None,
                            };
                            let headn: Seq<(Seq<char>, u32)> = match namev {
                                Some(n) => seq![(n, k as u32)],
                                None => Seq::empty(),
                            };
                            assert(dec_binding_entries(
                                sp,
                                k as int,
                                m,
                                n_types as int,
                                n_host_types as int,
                            ) == Some((seq![c@] + tailc, headn + tailn, r2)));
                            assert(entries@.map_values(|g: FunctionBinding| g@) + (seq![c@]
                                + tailc) =~= entries@.push(c).map_values(
                                |g: FunctionBinding| g@,
                            ) + tailc);
                            match &name {
                                Some(st) => {
                                    assert(names_view(names@) + (headn + tailn) =~= names_view(
                                        names@.push((*st, k as u32)),
                                    ) + tailn);
                                },
                                None => {
                                    assert(names_view(names@) + (headn + tailn) =~= names_view(
                                        names@,
                                    ) + tailn);
                                },
                            }
                        }
                    }
                    entries.push(c);
                    if let Some(st) = name {
                        names.push((st, k));
                    }
                    p = p2;
                    k = k + 1;
                },
            },
        }
    }
    proof {
        assert(dec_binding_entries(
            b@.skip(p as int),
            k as int,
            0nat,
            n_types as int,
            n_host_types as int,
        ) matches Some((e, n, rest)) && e =~= Seq::<FunctionBindingView>::empty() && n =~= Seq::<
            (Seq<char>, u32),
        >::empty());
        assert(entries@.map_values(|c: FunctionBinding| c@) + Seq::<FunctionBindingView>::empty()
            =~= entries@.map_values(|c: FunctionBinding| c@));
        assert(names_view(names@) + Seq::<(Seq<char>, u32)>::empty() =~= names_view(names@));
    }
    Some((entries, names, p))
}

fn decode_bind_list(b: &[u8], pos: usize, count: u32, n_bindings: u32, n_host_funcs: u32) -> (r:
    Option<(Vec<Bind>, usize)>)
    requires
        pos <= b@.len(),
    ensures
        match r {
            Some((v, p)) => pos <= p <= b@.len() && dec_bind_list(
                b@.skip(pos as int),
                count as nat,
                n_bindings as int,
                n_host_funcs as int,
            ) == Some((v@, b@.skip(p as int))),
            None => dec_bind_list(
                b@.skip(pos as int),
                count as nat,
                n_bindings as int,
                n_host_funcs as int,
            ) is None,
        },
{
    let mut acc: Vec<Bind> = Vec::new();
    let mut p = pos;
    let mut k: u32 = 0;
    while k < count
        invariant
            pos <= p <= b@.len(),
            k <= count,
            dec_bind_list(
                b@.skip(pos as int),
                count as nat,
                n_bindings as int,
                n_host_funcs as int,
            ) == dec_append(
                acc@,
                dec_bind_list(
                    b@.skip(p as int),
                    (count - k) as nat,
                    n_bindings as int,
                    n_host_funcs as int,
                ),
            ),
        decreases count - k,
    {
        match decode_u32(b, p) {
            None => {
                return None;
            },
            Some((f, p1)) => {
                if f >= n_host_funcs {
                    return None;
                }
                match decode_u32(b, p1) {
                    None => {
                        return None;
                    },
                    Some((bi, p2)) => {
                        if bi >= n_bindings {
                            return None;
                        }
                        let bd = Bind { func: WasmFuncId(f), binding: BindingId(bi) };
                        proof {
                            let m = (count - k) as nat;
                            let sp = b@.skip(p as int);
                            let x = dec_bind_list(
                                b@.skip(p2 as int),
                                (m - 1) as nat,
                                n_bindings as int,
                                n_host_funcs as int,
                            );
                            if x is Some {
                                let (tail, r2) = x->Some_0;
                                assert(dec_bind_list(
                                    sp,
                                    m,
                                    n_bindings as int,
                                    n_host_funcs as int,
                                ) == Some((seq![bd] + tail, r2)));
                                assert(acc@ + (seq![bd] + tail) =~= acc@.push(bd) + tail);
                            }
                        }
                        acc.push(bd);
                        p = p2;
                        k = k + 1;
                    },
                }
            },
        }
    }
    proof {
        assert(acc@ + Seq::<Bind>::empty() =~= acc@);
    }
    Some((acc, p))
}

/// Parse a byte buffer into an in-memory section, validating structural
/// well-formedness against the host module's index bounds. Truncated input,
/// an unknown tag, an out-of-range reference, or trailing bytes are a
/// malformed section: the decode fails and no partial model is returned.
pub fn decode(b: &[u8], host: &HostIndexBounds) -> (r: Result<WebidlBindings, DecodeError>)
    ensures
        match r {
            Ok(m) => dec_section(b@, *host) == Some(m@) && wf_section(m@, *host),
            Err(_) => dec_section(b@, *host) is None,
        },
{
    proof {
        assert(b@.skip(0) =~= b@);
        lemma_dec_section_wf(b@, *host);
    }
    let Some((n_types, p1)) = decode_u32(b, 0) else { return Err(DecodeError) };
    let Some((t_entries, t_names, p2)) = decode_type_entries(b, p1, n_types) else {
        return Err(DecodeError)
    };
    let Some((n_bindings, p3)) = decode_u32(b, p2) else { return Err(DecodeError) };
    let Some((b_entries, b_names, p4)) = decode_binding_entries(
        b,
        p3,
        n_bindings,
        n_types,
        host.n_func_types,
    ) else { return Err(DecodeError) };
    let Some((n_binds, p5)) = decode_u32(b, p4) else { return Err(DecodeError) };
    let Some((binds, p6)) = decode_bind_list(b, p5, n_binds, n_bindings, host.n_funcs) else {
        return Err(DecodeError)
    };
    if p6 != b.len() {
        proof {
            assert(b@.skip(p6 as int).len() > 0);
        }
        return Err(DecodeError);
    }
    let m = WebidlBindings {
        types: crate::ast::WebidlTypes { names: t_names, entries: t_entries },
        bindings: crate::ast::FunctionBindings { names: b_names, entries: b_entries },
        binds: crate::ast::Binds { entries: binds },
    };
    proof {
        assert(b@.skip(p6 as int).len() == 0);
        assert(b@.skip(p6 as int) =~= Seq::<u8>::empty());
        assert(dec_section(b@, *host) == Some(m@));
    }
    Ok(m)
}

} // verus!
