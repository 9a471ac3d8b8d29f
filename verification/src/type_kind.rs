//! The kinds of types that signatures name, and the reading of signatures.

use vstd::prelude::*;
use crate::codes::TypeDefOrRef;
use crate::file::{prefix_len, prefix_value};
use crate::tables::GenericParam;

verus! {

/// One element of a type that a signature names. A type that is defined
/// or referred to is kept as the reference that the signature holds; a
/// type made of others is its outermost element followed by theirs.
#[derive(Copy, Clone, PartialEq, Eq, Debug, Structural)]
pub enum TypeKind {
    Bool,
    Char,
    I8,
    U8,
    I16,
    U16,
    I32,
    U32,
    I64,
    U64,
    Single,
    Double,
    String,
    Object,
    Type(TypeDefOrRef),
    Var(u32),
    MethodVar(u32),
    Generic(GenericParam),
    /// An array; the type of its items follows in the signature.
    Array,
    /// A reference; the type referred to follows in the signature.
    ByRef,
    /// A modifier; the modified type follows in the signature.
    Modified(TypeDefOrRef),
    /// An instantiation of a generic type with so many arguments, whose
    /// types follow in the signature.
    Instance(TypeDefOrRef, u32),
}

/// A parameter or a return value of a method, by the outermost element of
/// its type. What completes an array, a reference, a modifier or an
/// instantiation is held among the elements of the method.
#[derive(Copy, Clone, PartialEq, Eq, Debug, Structural)]
pub struct Parameter {
    pub kind: TypeKind,
}

/// The kind that a single byte of a signature stands for, if it is one of
/// the kinds that take no more than that byte.
pub open spec fn simple_kind(code: u8) -> Option<TypeKind> {
    if code == 0x02 {
        Some(TypeKind::Bool)
    } else if code == 0x03 {
        Some(TypeKind::Char)
    } else if code == 0x04 {
        Some(TypeKind::I8)
    } else if code == 0x05 {
        Some(TypeKind::U8)
    } else if code == 0x06 {
        Some(TypeKind::I16)
    } else if code == 0x07 {
        Some(TypeKind::U16)
    } else if code == 0x08 {
        Some(TypeKind::I32)
    } else if code == 0x09 {
        Some(TypeKind::U32)
    } else if code == 0x0a {
        Some(TypeKind::I64)
    } else if code == 0x0b {
        Some(TypeKind::U64)
    } else if code == 0x0c {
        Some(TypeKind::Single)
    } else if code == 0x0d {
        Some(TypeKind::Double)
    } else if code == 0x0e {
        Some(TypeKind::String)
    } else if code == 0x1c {
        Some(TypeKind::Object)
    } else {
        None
    }
}

/// A compressed number starts at `at` and ends inside `sig`.
pub open spec fn number_fits(sig: Seq<u8>, at: int) -> bool {
    0 <= at < sig.len() && at + prefix_len(sig[at]) <= sig.len()
}

/// One element of a type starts at `at` and ends inside `sig`: a simple
/// kind; a class, a value type or a modifier with its reference; a generic
/// parameter with its number; the mark of an array or of a reference; or
/// the head of an instantiation, with the reference to the generic type and
/// the number of arguments.
pub open spec fn token_fits(sig: Seq<u8>, at: int) -> bool {
    &&& 0 <= at < sig.len()
    &&& if sig[at] == 0x11 || sig[at] == 0x12 || sig[at] == 0x1f || sig[at] == 0x20 {
        number_fits(sig, at + 1) && TypeDefOrRef::valid(prefix_value(sig, at + 1) as u32)
    } else if sig[at] == 0x13 || sig[at] == 0x1e {
        number_fits(sig, at + 1)
    } else if sig[at] == 0x1d || sig[at] == 0x10 {
        true
    } else if sig[at] == 0x15 {
        &&& at + 1 < sig.len()
        &&& (sig[at + 1] == 0x11 || sig[at + 1] == 0x12)
        &&& number_fits(sig, at + 2)
        &&& TypeDefOrRef::valid(prefix_value(sig, at + 2) as u32)
        &&& number_fits(sig, at + 2 + prefix_len(sig[at + 2]))
    } else {
        simple_kind(sig[at]).is_some()
    }
}

/// The kind that the element at `at` stands for.
pub open spec fn token_at(sig: Seq<u8>, at: int, file: u16) -> TypeKind {
    if sig[at] == 0x11 || sig[at] == 0x12 {
        TypeKind::Type(TypeDefOrRef::decoded(prefix_value(sig, at + 1) as u32, file))
    } else if sig[at] == 0x1f || sig[at] == 0x20 {
        TypeKind::Modified(TypeDefOrRef::decoded(prefix_value(sig, at + 1) as u32, file))
    } else if sig[at] == 0x13 {
        TypeKind::Var(prefix_value(sig, at + 1) as u32)
    } else if sig[at] == 0x1e {
        TypeKind::MethodVar(prefix_value(sig, at + 1) as u32)
    } else if sig[at] == 0x1d {
        TypeKind::Array
    } else if sig[at] == 0x10 {
        TypeKind::ByRef
    } else if sig[at] == 0x15 {
        TypeKind::Instance(
            TypeDefOrRef::decoded(prefix_value(sig, at + 2) as u32, file),
            prefix_value(sig, at + 2 + prefix_len(sig[at + 2])) as u32,
        )
    } else {
        simple_kind(sig[at]).unwrap()
    }
}

/// Where the element at `at` ends.
pub open spec fn token_end(sig: Seq<u8>, at: int) -> int {
    if sig[at] == 0x11 || sig[at] == 0x12 || sig[at] == 0x1f || sig[at] == 0x20 || sig[at] == 0x13
        || sig[at] == 0x1e {
        at + 1 + prefix_len(sig[at + 1])
    } else if sig[at] == 0x15 {
        at + 2 + prefix_len(sig[at + 2]) + prefix_len(sig[at + 2 + prefix_len(sig[at + 2])])
    } else {
        at + 1
    }
}

/// How many types must follow the element at `at` to complete it: one
/// after the mark of an array, of a reference or of a modifier, as many as
/// it has arguments after the head of an instantiation, none otherwise.
pub open spec fn token_open(sig: Seq<u8>, at: int) -> int {
    if sig[at] == 0x1d || sig[at] == 0x10 || sig[at] == 0x1f || sig[at] == 0x20 {
        1
    } else if sig[at] == 0x15 {
        prefix_value(sig, at + 2 + prefix_len(sig[at + 2]))
    } else {
        0
    }
}

/// `pending` types that are still owed start at `at`, one after the other,
/// each with all that it needs to be complete, and end inside `sig`.
pub open spec fn run_fits(sig: Seq<u8>, at: int, pending: int) -> bool
    decreases sig.len() - at,
{
    if pending <= 0 {
        true
    } else if !token_fits(sig, at) {
        false
    } else {
        run_fits(sig, token_end(sig, at), pending - 1 + token_open(sig, at))
    }
}

/// Where the `pending` types that start at `at` end.
pub open spec fn run_end(sig: Seq<u8>, at: int, pending: int) -> int
    decreases sig.len() - at,
{
    if pending <= 0 || !token_fits(sig, at) {
        at
    } else {
        run_end(sig, token_end(sig, at), pending - 1 + token_open(sig, at))
    }
}

/// The elements of the `pending` types that start at `at`, in the order of
/// the signature: each type's outermost element first, then what
/// completes it.
pub open spec fn run_tokens(sig: Seq<u8>, at: int, pending: int, file: u16) -> Seq<TypeKind>
    decreases sig.len() - at,
{
    if pending <= 0 || !token_fits(sig, at) {
        Seq::empty()
    } else {
        seq![token_at(sig, at, file)] + run_tokens(
            sig,
            token_end(sig, at),
            pending - 1 + token_open(sig, at),
            file,
        )
    }
}

/// The elements of the `n` types that start at `at`, type after type.
pub open spec fn elements(sig: Seq<u8>, at: int, n: nat, file: u16) -> Seq<TypeKind>
    decreases n,
{
    if n == 0 {
        Seq::empty()
    } else {
        run_tokens(sig, at, 1, file) + elements(sig, kind_end(sig, at), (n - 1) as nat, file)
    }
}

/// A whole type starts at `at` and ends inside `sig`.
pub open spec fn kind_fits(sig: Seq<u8>, at: int) -> bool {
    run_fits(sig, at, 1)
}

/// The kind of the type that starts at `at`: its outermost element.
pub open spec fn kind_at(sig: Seq<u8>, at: int, file: u16) -> TypeKind {
    token_at(sig, at, file)
}

/// Where the type that starts at `at` ends, with all that completes it.
pub open spec fn kind_end(sig: Seq<u8>, at: int) -> int {
    run_end(sig, at, 1)
}

/// `n` types start at `at`, one after the other.
pub open spec fn has_kinds(sig: Seq<u8>, at: int, n: nat) -> bool
    decreases n,
{
    n == 0 || (kind_fits(sig, at) && has_kinds(sig, kind_end(sig, at), (n - 1) as nat))
}

/// The `n` types that start at `at`.
pub open spec fn kinds(sig: Seq<u8>, at: int, n: nat, file: u16) -> Seq<Parameter>
    decreases n,
{
    if n == 0 {
        Seq::empty()
    } else {
        seq![(Parameter { kind: kind_at(sig, at, file) })] + kinds(sig, kind_end(sig, at), (n - 1) as nat, file)
    }
}

/// Where the return type of a method signature starts: after the byte of
/// the calling convention and the number of parameters.
pub open spec fn return_at(sig: Seq<u8>) -> int {
    1 + prefix_len(sig[1])
}

/// Where the parameters of a method signature start.
pub open spec fn params_at(sig: Seq<u8>) -> int {
    if sig[return_at(sig)] == 0x01 {
        return_at(sig) + 1
    } else {
        kind_end(sig, return_at(sig))
    }
}

/// `sig` is a method signature whose types are all of the kinds read here.
pub open spec fn has_signature(sig: Seq<u8>) -> bool {
    &&& number_fits(sig, 1)
    &&& return_at(sig) < sig.len()
    &&& (sig[return_at(sig)] != 0x01 ==> kind_fits(sig, return_at(sig)))
    &&& has_kinds(sig, params_at(sig), prefix_value(sig, 1) as nat)
}

/// What a method signature says the method returns: nothing for `void`.
pub open spec fn sig_return(sig: Seq<u8>, file: u16) -> Option<Parameter> {
    if sig[return_at(sig)] == 0x01 {
        None
    } else {
        Some(Parameter { kind: kind_at(sig, return_at(sig), file) })
    }
}

/// The parameters that a method signature lists, in order.
pub open spec fn sig_params(sig: Seq<u8>, file: u16) -> Seq<Parameter> {
    kinds(sig, params_at(sig), prefix_value(sig, 1) as nat, file)
}

/// Whether a compressed number starts at `at` and ends inside `sig`.
pub fn number_exists(sig: &Vec<u8>, at: usize) -> (r: bool)
    ensures
        r == number_fits(sig@, at as int),
{
    if at >= sig.len() {
        return false;
    }
    let lead: u8 = sig[at];
    let skip: usize = if lead < 0x80 {
        1
    } else if lead < 0xC0 {
        2
    } else {
        4
    };
    skip <= sig.len() - at
}

/// Whether one element of a type starts at `at` and ends inside `sig`.
pub fn token_exists(sig: &Vec<u8>, at: usize) -> (r: bool)
    ensures
        r == token_fits(sig@, at as int),
{
    if at >= sig.len() {
        return false;
    }
    let code: u8 = sig[at];
    if code == 0x11 || code == 0x12 || code == 0x1f || code == 0x20 {
        number_exists(sig, at + 1) && TypeDefOrRef::is_valid(read_number(sig, at + 1).0)
    } else if code == 0x13 || code == 0x1e {
        number_exists(sig, at + 1)
    } else if code == 0x1d || code == 0x10 {
        true
    } else if code == 0x15 {
        if at + 1 >= sig.len() || (sig[at + 1] != 0x11 && sig[at + 1] != 0x12) || !number_exists(
            sig,
            at + 2,
        ) {
            return false;
        }
        let (code, next) = read_number(sig, at + 2);
        TypeDefOrRef::is_valid(code) && number_exists(sig, next)
    } else {
        simple(code).is_some()
    }
}

/// Reads the element at `at`; gives its kind, the place after it and the
/// number of types that must follow to complete it.
pub fn read_token(sig: &Vec<u8>, at: usize, file: u16) -> (r: (TypeKind, usize, u32))
    requires
        token_fits(sig@, at as int),
    ensures
        r.0 == token_at(sig@, at as int, file),
        r.1 == token_end(sig@, at as int),
        r.2 == token_open(sig@, at as int),
        at < r.1 <= sig@.len(),
{
    let size: usize = sig.len();
    let code: u8 = sig[at];
    if code == 0x11 || code == 0x12 {
        let (value, end) = read_number(sig, at + 1);
        (TypeKind::Type(TypeDefOrRef::decode(value, file)), end, 0)
    } else if code == 0x1f || code == 0x20 {
        let (value, end) = read_number(sig, at + 1);
        (TypeKind::Modified(TypeDefOrRef::decode(value, file)), end, 1)
    } else if code == 0x13 {
        let (value, end) = read_number(sig, at + 1);
        (TypeKind::Var(value), end, 0)
    } else if code == 0x1e {
        let (value, end) = read_number(sig, at + 1);
        (TypeKind::MethodVar(value), end, 0)
    } else if code == 0x1d {
        (TypeKind::Array, at + 1, 1)
    } else if code == 0x10 {
        (TypeKind::ByRef, at + 1, 1)
    } else if code == 0x15 {
        let (value, next) = read_number(sig, at + 2);
        let (count, end) = read_number(sig, next);
        (TypeKind::Instance(TypeDefOrRef::decode(value, file), count), end, count)
    } else {
        (simple(code).unwrap(), at + 1, 0)
    }
}

/// Whether a whole type starts at `at` and ends inside `sig`.
pub fn kind_exists(sig: &Vec<u8>, at: usize) -> (r: bool)
    ensures
        r == kind_fits(sig@, at as int),
{
    let mut place: usize = at;
    let mut pending: u128 = 1;
    while pending > 0
        invariant
            at <= place <= sig@.len() || pending == 1 && place == at,
            pending <= 1 + (place - at) * 0x1_0000_0000,
            run_fits(sig@, at as int, 1) == run_fits(sig@, place as int, pending as int),
        decreases sig@.len() - place,
    {
        if !token_exists(sig, place) {
            return false;
        }
        let (_, end, open) = read_token(sig, place, 0);
        pending = pending - 1 + open as u128;
        place = end;
    }
    true
}

/// Reads the type at `at`; gives its kind and the place after it.
pub fn read_kind(sig: &Vec<u8>, at: usize, file: u16) -> (r: (TypeKind, usize))
    requires
        kind_fits(sig@, at as int),
    ensures
        r.0 == kind_at(sig@, at as int, file),
        r.1 == kind_end(sig@, at as int),
        r.1 <= sig@.len(),
{
    let (kind, end, open) = read_token(sig, at, file);
    let mut place: usize = end;
    let mut pending: u128 = open as u128;
    while pending > 0
        invariant
            at < place <= sig@.len(),
            pending <= (place - at) * 0x1_0000_0000,
            run_fits(sig@, place as int, pending as int),
            run_end(sig@, place as int, pending as int) == run_end(sig@, at as int, 1),
        decreases sig@.len() - place,
    {
        let (_, next, more) = read_token(sig, place, file);
        pending = pending - 1 + more as u128;
        place = next;
    }
    (kind, place)
}

/// Whether `n` types start at `at`, one after the other.
pub fn kinds_exist(sig: &Vec<u8>, at: usize, n: u32) -> (r: bool)
    ensures
        r == has_kinds(sig@, at as int, n as nat),
{
    let mut place: usize = at;
    let mut i: u32 = 0;
    while i < n
        invariant
            i <= n,
            has_kinds(sig@, at as int, n as nat) == has_kinds(sig@, place as int, (n - i) as nat),
        decreases n - i,
    {
        if !kind_exists(sig, place) {
            return false;
        }
        let (_, end) = read_kind(sig, place, 0);
        place = end;
        i = i + 1;
    }
    true
}

/// Whether `sig` is a method signature whose types are all of the kinds
/// read here.
pub fn signature_exists(sig: &Vec<u8>) -> (r: bool)
    ensures
        r == has_signature(sig@),
{
    if !number_exists(sig, 1) {
        return false;
    }
    let (count, at) = read_number(sig, 1);
    if at >= sig.len() {
        return false;
    }
    if sig[at] == 0x01 {
        kinds_exist(sig, at + 1, count)
    } else if kind_exists(sig, at) {
        let (_, end) = read_kind(sig, at, 0);
        kinds_exist(sig, end, count)
    } else {
        false
    }
}

/// Reads the compressed number at `at`; gives it and the place after it.
pub fn read_number(sig: &Vec<u8>, at: usize) -> (r: (u32, usize))
    requires
        number_fits(sig@, at as int),
    ensures
        r.0 == prefix_value(sig@, at as int),
        r.1 == at + prefix_len(sig@[at as int]),
{
    let size: usize = sig.len();
    let lead: u8 = sig[at];
    if lead < 0x80 {
        (lead as u32, at + 1)
    } else if lead < 0xC0 {
        ((lead - 0x80) as u32 * 256 + sig[at + 1] as u32, at + 2)
    } else {
        (
            (lead % 0x20) as u32 * 16777216 + sig[at + 1] as u32 * 65536 + sig[at + 2] as u32 * 256
                + sig[at + 3] as u32,
            at + 4,
        )
    }
}

/// The kind that a single byte stands for, if any.
pub fn simple(code: u8) -> (r: Option<TypeKind>)
    ensures
        r == simple_kind(code),
{
    if code == 0x02 {
        Some(TypeKind::Bool)
    } else if code == 0x03 {
        Some(TypeKind::Char)
    } else if code == 0x04 {
        Some(TypeKind::I8)
    } else if code == 0x05 {
        Some(TypeKind::U8)
    } else if code == 0x06 {
        Some(TypeKind::I16)
    } else if code == 0x07 {
        Some(TypeKind::U16)
    } else if code == 0x08 {
        Some(TypeKind::I32)
    } else if code == 0x09 {
        Some(TypeKind::U32)
    } else if code == 0x0a {
        Some(TypeKind::I64)
    } else if code == 0x0b {
        Some(TypeKind::U64)
    } else if code == 0x0c {
        Some(TypeKind::Single)
    } else if code == 0x0d {
        Some(TypeKind::Double)
    } else if code == 0x0e {
        Some(TypeKind::String)
    } else if code == 0x1c {
        Some(TypeKind::Object)
    } else {
        None
    }
}

/// Reads `n` types from `at` on.
pub fn read_kinds(sig: &Vec<u8>, at: usize, n: u32, file: u16) -> (r: Vec<Parameter>)
    requires
        has_kinds(sig@, at as int, n as nat),
    ensures
        r@ == kinds(sig@, at as int, n as nat, file),
{
    let mut out: Vec<Parameter> = Vec::new();
    let mut place: usize = at;
    let mut i: u32 = 0;
    while i < n
        invariant
            i <= n,
            has_kinds(sig@, place as int, (n - i) as nat),
            out@ + kinds(sig@, place as int, (n - i) as nat, file) == kinds(sig@, at as int, n as nat, file),
        decreases n - i,
    {
        let ghost rest = kinds(sig@, kind_end(sig@, place as int), (n - i - 1) as nat, file);
        let ghost before = out@;
        let (kind, end) = read_kind(sig, place, file);
        out.push(Parameter { kind });
        assert(out@ + rest =~= before + (seq![(Parameter { kind })] + rest));
        place = end;
        i = i + 1;
    }
    assert(out@ + Seq::<Parameter>::empty() =~= out@);
    out
}

/// How many types must follow an element to complete it.
pub open spec fn opens(kind: TypeKind) -> int {
    match kind {
        TypeKind::Array => 1,
        TypeKind::ByRef => 1,
        TypeKind::Modified(_) => 1,
        TypeKind::Instance(_, count) => count as int,
        _ => 0,
    }
}

/// Where the `pending` types that start at place `at` of `tokens` end.
pub open spec fn span_end(tokens: Seq<TypeKind>, at: int, pending: int) -> int
    decreases tokens.len() - at,
{
    if pending <= 0 || at < 0 || at >= tokens.len() {
        at
    } else {
        span_end(tokens, at + 1, pending - 1 + opens(tokens[at]))
    }
}

/// The outermost element of each of the types whose elements `tokens`
/// holds from place `at` on.
pub open spec fn heads(tokens: Seq<TypeKind>, at: int) -> Seq<TypeKind>
    decreases tokens.len() - at,
{
    if at < 0 || at >= tokens.len() {
        Seq::empty()
    } else if at < span_end(tokens, at, 1) <= tokens.len() {
        seq![tokens[at]] + heads(tokens, span_end(tokens, at, 1))
    } else {
        seq![tokens[at]]
    }
}

/// The kinds of `params`, in order.
pub open spec fn outer_kinds(params: Seq<Parameter>) -> Seq<TypeKind> {
    Seq::new(params.len(), |i: int| params[i].kind)
}

/// The outermost elements of what a method returns, if anything, and of
/// its parameters, in the order of the signature.
pub open spec fn outer_of(returns: Option<Parameter>, params: Seq<Parameter>) -> Seq<TypeKind> {
    match returns {
        Some(value) => seq![value.kind] + outer_kinds(params),
        None => outer_kinds(params),
    }
}

/// Where the elements of the types of a signature stand in a list, the
/// types end in the list where they end in the signature.
pub proof fn lemma_run_span(
    sig: Seq<u8>,
    at: int,
    pending: int,
    file: u16,
    tokens: Seq<TypeKind>,
    k: int,
)
    requires
        run_fits(sig, at, pending),
        0 <= pending,
        0 <= k,
        k + run_tokens(sig, at, pending, file).len() <= tokens.len(),
        forall|j: int|
            0 <= j < run_tokens(sig, at, pending, file).len() ==> tokens[k + j] == run_tokens(
                sig,
                at,
                pending,
                file,
            )[j],
    ensures
        span_end(tokens, k, pending) == k + run_tokens(sig, at, pending, file).len(),
        pending > 0 ==> run_tokens(sig, at, pending, file).len() >= 1 && tokens[k] == token_at(
            sig,
            at,
            file,
        ),
    decreases sig.len() - at,
{
    if pending > 0 {
        let all = run_tokens(sig, at, pending, file);
        let rest = run_tokens(sig, token_end(sig, at), pending - 1 + token_open(sig, at), file);
        assert(all == seq![token_at(sig, at, file)] + rest);
        assert(all[0] == token_at(sig, at, file));
        assert(tokens[k + 0] == all[0]);
        assert(opens(token_at(sig, at, file)) == token_open(sig, at));
        assert forall|j: int| 0 <= j < rest.len() implies tokens[k + 1 + j] == rest[j] by {
            assert(all[j + 1] == rest[j]);
            assert(tokens[k + (j + 1)] == all[j + 1]);
        }
        lemma_run_span(sig, token_end(sig, at), pending - 1 + token_open(sig, at), file, tokens, k + 1);
    }
}

/// Where the elements of `n` types of a signature end a list, the
/// outermost elements found in the list from there on are the kinds of
/// those types.
pub proof fn lemma_heads_of_elements(
    sig: Seq<u8>,
    at: int,
    n: nat,
    file: u16,
    tokens: Seq<TypeKind>,
    k: int,
)
    requires
        has_kinds(sig, at, n),
        0 <= k,
        k + elements(sig, at, n, file).len() == tokens.len(),
        forall|j: int|
            0 <= j < elements(sig, at, n, file).len() ==> tokens[k + j] == elements(sig, at, n, file)[j],
    ensures
        heads(tokens, k) == outer_kinds(kinds(sig, at, n, file)),
    decreases n,
{
    if n == 0 {
        assert(heads(tokens, k) =~= outer_kinds(kinds(sig, at, n, file)));
    } else {
        let all = elements(sig, at, n, file);
        let first = run_tokens(sig, at, 1, file);
        let rest = elements(sig, kind_end(sig, at), (n - 1) as nat, file);
        assert(all == first + rest);
        assert forall|j: int| 0 <= j < first.len() implies tokens[k + j] == first[j] by {
            assert(all[j] == first[j]);
        }
        lemma_run_span(sig, at, 1, file, tokens, k);
        let next = k + first.len();
        assert forall|j: int| 0 <= j < rest.len() implies tokens[next + j] == rest[j] by {
            assert(all[first.len() + j] == rest[j]);
            assert(tokens[k + (first.len() + j)] == all[first.len() + j]);
        }
        lemma_heads_of_elements(sig, kind_end(sig, at), (n - 1) as nat, file, tokens, next);
        let params = kinds(sig, at, n, file);
        let later = kinds(sig, kind_end(sig, at), (n - 1) as nat, file);
        assert(params == seq![(Parameter { kind: kind_at(sig, at, file) })] + later);
        assert(outer_kinds(params) =~= seq![kind_at(sig, at, file)] + outer_kinds(later));
    }
}

/// The outermost elements among the elements of a signature are what the
/// method returns, if anything, and its parameters.
pub proof fn lemma_heads_of_signature(sig: Seq<u8>, file: u16)
    requires
        has_signature(sig),
    ensures
        heads(sig_elements(sig, file), 0) == outer_of(sig_return(sig, file), sig_params(sig, file)),
{
    let all = sig_elements(sig, file);
    let n = prefix_value(sig, 1) as nat;
    if sig[return_at(sig)] == 0x01 {
        lemma_heads_of_elements(sig, params_at(sig), n, file, all, 0);
    } else {
        let first = run_tokens(sig, return_at(sig), 1, file);
        let rest = elements(sig, params_at(sig), n, file);
        assert(all == first + rest);
        assert forall|j: int| 0 <= j < first.len() implies all[0 + j] == first[j] by {}
        lemma_run_span(sig, return_at(sig), 1, file, all, 0);
        assert forall|j: int| 0 <= j < rest.len() implies all[first.len() + j] == rest[j] by {}
        lemma_heads_of_elements(sig, params_at(sig), n, file, all, first.len() as int);
    }
}

/// How many types must follow `kind` to complete it.
pub fn open_count(kind: TypeKind) -> (r: u32)
    ensures
        r == opens(kind),
{
    match kind {
        TypeKind::Array => 1,
        TypeKind::ByRef => 1,
        TypeKind::Modified(_) => 1,
        TypeKind::Instance(_, count) => count,
        _ => 0,
    }
}

/// The outermost element of each of the types whose elements `tokens` holds.
pub fn outermost(tokens: &Vec<TypeKind>) -> (r: Vec<TypeKind>)
    ensures
        r@ == heads(tokens@, 0),
{
    let size: usize = tokens.len();
    let mut out: Vec<TypeKind> = Vec::new();
    let mut at: usize = 0;
    assert(out@ + heads(tokens@, 0) =~= heads(tokens@, 0));
    while at < size
        invariant
            size == tokens@.len(),
            at <= size,
            out@ + heads(tokens@, at as int) == heads(tokens@, 0),
        decreases size - at,
    {
        let ghost tail = heads(tokens@, span_end(tokens@, at as int, 1));
        let ghost before = out@;
        out.push(tokens[at]);
        let mut place: usize = at + 1;
        let mut pending: u128 = open_count(tokens[at]) as u128;
        while pending > 0 && place < size
            invariant
                size == tokens@.len(),
                at < place <= size,
                pending <= (place - at) * 0x1_0000_0000,
                span_end(tokens@, place as int, pending as int) == span_end(tokens@, at as int, 1),
            decreases size - place,
        {
            pending = pending - 1 + open_count(tokens[place]) as u128;
            place = place + 1;
        }
        assert(span_end(tokens@, at as int, 1) == place);
        assert(out@ + tail =~= before + (seq![tokens@[at as int]] + tail));
        at = place;
    }
    assert(out@ + Seq::<TypeKind>::empty() =~= out@);
    out
}

/// Whether `first` and `second` hold the same kinds in the same order.
pub fn same_kinds(first: &Vec<TypeKind>, second: &Vec<TypeKind>) -> (r: bool)
    ensures
        r == (first@ == second@),
{
    if first.len() != second.len() {
        return false;
    }
    let mut i: usize = 0;
    while i < first.len()
        invariant
            first@.len() == second@.len(),
            i <= first@.len(),
            forall|j: int| 0 <= j < i ==> first@[j] == second@[j],
        decreases first@.len() - i,
    {
        if first[i] != second[i] {
            return false;
        }
        i = i + 1;
    }
    assert(first@ =~= second@);
    true
}

/// Every element of the types of a method signature, in the order of the
/// signature: those of what the method returns, unless that is nothing,
/// then those of its parameters.
pub open spec fn sig_elements(sig: Seq<u8>, file: u16) -> Seq<TypeKind> {
    if sig[return_at(sig)] == 0x01 {
        elements(sig, params_at(sig), prefix_value(sig, 1) as nat, file)
    } else {
        run_tokens(sig, return_at(sig), 1, file) + elements(
            sig,
            params_at(sig),
            prefix_value(sig, 1) as nat,
            file,
        )
    }
}

/// Reads every element of `n` types from `at` on, after those in `before`.
pub fn read_elements(before: Vec<TypeKind>, sig: &Vec<u8>, at: usize, n: u32, file: u16) -> (r: Vec<
    TypeKind,
>)
    requires
        has_kinds(sig@, at as int, n as nat),
    ensures
        r@ == before@ + elements(sig@, at as int, n as nat, file),
{
    let ghost whole = before@ + elements(sig@, at as int, n as nat, file);
    let mut out = before;
    let mut start: usize = at;
    let mut i: u32 = 0;
    assert(out@ + elements(sig@, at as int, n as nat, file) == whole);
    while i < n
        invariant
            i <= n,
            has_kinds(sig@, start as int, (n - i) as nat),
            out@ + elements(sig@, start as int, (n - i) as nat, file) == whole,
        decreases n - i,
    {
        let ghost rest = elements(sig@, kind_end(sig@, start as int), (n - i - 1) as nat, file);
        let ghost head = out@;
        assert(head + (run_tokens(sig@, start as int, 1, file) + rest) =~= head + run_tokens(
            sig@,
            start as int,
            1,
            file,
        ) + rest);
        let mut place: usize = start;
        let mut pending: u128 = 1;
        while pending > 0
            invariant
                start <= place <= sig@.len(),
                pending <= 1 + (place - start) * 0x1_0000_0000,
                run_fits(sig@, place as int, pending as int),
                run_end(sig@, place as int, pending as int) == kind_end(sig@, start as int),
                out@ + run_tokens(sig@, place as int, pending as int, file) + rest == whole,
            decreases sig@.len() - place,
        {
            let ghost tail = run_tokens(
                sig@,
                token_end(sig@, place as int),
                pending - 1 + token_open(sig@, place as int),
                file,
            );
            let ghost so_far = out@;
            let (kind, next, more) = read_token(sig, place, file);
            out.push(kind);
            assert(out@ + tail + rest =~= so_far + (seq![kind] + tail) + rest);
            pending = pending - 1 + more as u128;
            place = next;
        }
        assert(out@ + run_tokens(sig@, place as int, 0, file) + rest =~= out@ + rest);
        start = place;
        i = i + 1;
    }
    assert(out@ + Seq::<TypeKind>::empty() =~= out@);
    out
}

/// Reads every element of the types of a method signature.
pub fn read_sig_elements(sig: &Vec<u8>, file: u16) -> (r: Vec<TypeKind>)
    requires
        has_signature(sig@),
    ensures
        r@ == sig_elements(sig@, file),
{
    let (count, at) = read_number(sig, 1);
    if sig[at] == 0x01 {
        let r = read_elements(Vec::new(), sig, at + 1, count, file);
        assert(Seq::<TypeKind>::empty() + elements(sig@, at + 1, count as nat, file) =~= elements(
            sig@,
            at + 1,
            count as nat,
            file,
        ));
        r
    } else {
        assert(has_kinds(sig@, at as int, 1)) by {
            reveal_with_fuel(has_kinds, 2);
        }
        let head = read_elements(Vec::new(), sig, at, 1, file);
        assert(head@ =~= run_tokens(sig@, at as int, 1, file)) by {
            reveal_with_fuel(elements, 2);
        }
        read_elements(head, sig, kind_end_of(sig, at), count, file)
    }
}

/// Where the type at `at` ends.
pub fn kind_end_of(sig: &Vec<u8>, at: usize) -> (r: usize)
    requires
        kind_fits(sig@, at as int),
    ensures
        r == kind_end(sig@, at as int),
        r <= sig@.len(),
{
    read_kind(sig, at, 0).1
}

/// Reads a method signature: what the method returns and its parameters.
pub fn read_signature(sig: &Vec<u8>, file: u16) -> (r: (Option<Parameter>, Vec<Parameter>))
    requires
        has_signature(sig@),
    ensures
        r.0 == sig_return(sig@, file),
        r.1@ == sig_params(sig@, file),
{
    let (count, at) = read_number(sig, 1);
    if sig[at] == 0x01 {
        (None, read_kinds(sig, at + 1, count, file))
    } else {
        let (kind, end) = read_kind(sig, at, file);
        (Some(Parameter { kind }), read_kinds(sig, end, count, file))
    }
}

} // verus!
