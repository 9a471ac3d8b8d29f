//! The name of a type with its generic parameters.

use vstd::prelude::*;
use crate::codes::TypeDefOrRef;
use crate::file::{prefix_len, prefix_value, TABLE_GENERICPARAM};
use crate::reader::Reader;
use crate::row::RowRange;
use crate::tables::{GenericParam, TypeSpec};
use crate::type_def::TypeDef;
use crate::type_kind::{
    elements, has_kinds, kinds_exist, number_exists, number_fits, read_elements, read_number,
    TypeKind,
};

verus! {

/// Namespace and name of a type, its generic parameters in order, and the
/// definition it comes from.
#[derive(Clone, PartialEq, Eq, Debug)]
pub struct TypeName {
    pub namespace: Vec<u8>,
    pub name: Vec<u8>,
    pub generics: Vec<TypeKind>,
    pub def: TypeDef,
}

/// The references to types among `kinds`, in order.
pub open spec fn refs_of(kinds: Seq<TypeKind>) -> Seq<TypeDefOrRef>
    decreases kinds.len(),
{
    if kinds.len() == 0 {
        Seq::empty()
    } else {
        match kinds.last() {
            TypeKind::Type(value) => refs_of(kinds.drop_last()).push(value),
            TypeKind::Instance(value, _) => refs_of(kinds.drop_last()).push(value),
            _ => refs_of(kinds.drop_last()),
        }
    }
}

/// The definitions that `refs` lead to, in order; a reference that leads
/// to none is left out.
pub open spec fn defs_of(reader: &Reader, refs: Seq<TypeDefOrRef>) -> Seq<TypeDef>
    decreases refs.len(),
{
    if refs.len() == 0 {
        Seq::empty()
    } else {
        match refs.last().resolved(reader) {
            Some(def) => defs_of(reader, refs.drop_last()).push(def),
            None => defs_of(reader, refs.drop_last()),
        }
    }
}

/// `defs` with every definition kept where it first occurs and left out
/// where it occurs again.
pub open spec fn distinct(defs: Seq<TypeDef>) -> Seq<TypeDef>
    decreases defs.len(),
{
    if defs.len() == 0 {
        Seq::empty()
    } else if distinct(defs.drop_last()).contains(defs.last()) {
        distinct(defs.drop_last())
    } else {
        distinct(defs.drop_last()).push(defs.last())
    }
}

/// What is left holds no definition twice, and holds a definition exactly
/// when the list it was made from does.
pub proof fn lemma_distinct(defs: Seq<TypeDef>)
    ensures
        distinct(defs).no_duplicates(),
        forall|d: TypeDef| distinct(defs).contains(d) <==> defs.contains(d),
        distinct(defs).to_set() == defs.to_set(),
    decreases defs.len(),
{
    let out = distinct(defs);
    if defs.len() > 0 {
        let front = defs.drop_last();
        let x = defs.last();
        let rest = distinct(front);
        lemma_distinct(front);
        assert forall|d: TypeDef| out.contains(d) <==> defs.contains(d) by {
            if out.contains(d) {
                let i = choose|i: int| 0 <= i < out.len() && out[i] == d;
                if i < rest.len() {
                    assert(rest[i] == d);
                    assert(front.contains(d));
                    let j = choose|j: int| 0 <= j < front.len() && front[j] == d;
                    assert(defs[j] == d);
                } else {
                    assert(defs[defs.len() - 1] == d);
                }
            }
            if defs.contains(d) {
                let j = choose|j: int| 0 <= j < defs.len() && defs[j] == d;
                if j < front.len() {
                    assert(front[j] == d);
                    assert(front.contains(d));
                    assert(rest.contains(d));
                    let i = choose|i: int| 0 <= i < rest.len() && rest[i] == d;
                    assert(out[i] == d);
                } else if rest.contains(x) {
                } else {
                    assert(out[out.len() - 1] == d);
                }
            }
        }
        assert forall|i: int, j: int| 0 <= i < out.len() && 0 <= j < out.len() && i != j implies out[i]
            != out[j] by {
            if i < rest.len() {
                assert(rest.contains(out[i]));
            }
            if j < rest.len() {
                assert(rest.contains(out[j]));
            }
        }
    }
    assert(out.to_set() =~= defs.to_set());
}

/// Whether `defs` holds `def`.
pub fn holds(defs: &Vec<TypeDef>, def: TypeDef) -> (r: bool)
    ensures
        r == defs@.contains(def),
{
    let mut i: usize = 0;
    while i < defs.len()
        invariant
            i <= defs@.len(),
            forall|j: int| 0 <= j < i ==> defs@[j] != def,
        decreases defs@.len() - i,
    {
        if defs[i] == def {
            return true;
        }
        i = i + 1;
    }
    false
}

/// `defs` without repetitions, each definition where it first occurs.
pub fn without_repeats(defs: &Vec<TypeDef>) -> (r: Vec<TypeDef>)
    ensures
        r@ == distinct(defs@),
        r@.no_duplicates(),
        r@.to_set() == defs@.to_set(),
{
    let mut out: Vec<TypeDef> = Vec::new();
    let mut i: usize = 0;
    while i < defs.len()
        invariant
            i <= defs@.len(),
            out@ == distinct(defs@.subrange(0, i as int)),
        decreases defs@.len() - i,
    {
        assert(defs@.subrange(0, i + 1).drop_last() =~= defs@.subrange(0, i as int));
        if !holds(&out, defs[i]) {
            out.push(defs[i]);
        }
        i = i + 1;
    }
    assert(defs@.subrange(0, i as int) =~= defs@);
    proof {
        lemma_distinct(defs@);
    }
    out
}

/// The definitions that `refs` lead to, each once, in the order in which
/// they are first referred to.
pub fn resolve_distinct(reader: &Reader, refs: &Vec<TypeDefOrRef>) -> (r: Vec<TypeDef>)
    requires
        reader.wf(),
        all_resolve(reader, refs@),
    ensures
        r@ == distinct(defs_of(reader, refs@)),
        r@.no_duplicates(),
        r@.to_set() == defs_of(reader, refs@).to_set(),
{
    let all = resolve_all(reader, refs);
    without_repeats(&all)
}

/// Each of `refs` can be looked for.
pub open spec fn all_resolve(reader: &Reader, refs: Seq<TypeDefOrRef>) -> bool {
    forall|i: int| 0 <= i < refs.len() ==> (#[trigger] refs[i]).can_resolve(reader)
}

/// Whether each of `refs` can be looked for.
pub fn can_resolve_all(reader: &Reader, refs: &Vec<TypeDefOrRef>) -> (r: bool)
    requires
        reader.wf(),
    ensures
        r == all_resolve(reader, refs@),
{
    let mut i: usize = 0;
    while i < refs.len()
        invariant
            reader.wf(),
            i <= refs@.len(),
            forall|j: int| 0 <= j < i ==> (#[trigger] refs@[j]).can_resolve(reader),
        decreases refs@.len() - i,
    {
        if !refs[i].resolve_exists(reader) {
            return false;
        }
        i = i + 1;
    }
    true
}

/// The definitions that `refs` lead to, in order.
pub fn resolve_all(reader: &Reader, refs: &Vec<TypeDefOrRef>) -> (r: Vec<TypeDef>)
    requires
        reader.wf(),
        all_resolve(reader, refs@),
    ensures
        r@ == defs_of(reader, refs@),
{
    let mut out: Vec<TypeDef> = Vec::new();
    let mut i: usize = 0;
    while i < refs.len()
        invariant
            reader.wf(),
            all_resolve(reader, refs@),
            i <= refs@.len(),
            out@ == defs_of(reader, refs@.subrange(0, i as int)),
        decreases refs@.len() - i,
    {
        assert(refs@.subrange(0, i + 1).drop_last() =~= refs@.subrange(0, i as int));
        match refs[i].resolve(reader) {
            Some(def) => {
                out.push(def);
            },
            None => {},
        }
        i = i + 1;
    }
    assert(refs@.subrange(0, i as int) =~= refs@);
    out
}

/// The references to types among `kinds`, in order.
pub fn refs(kinds: &Vec<TypeKind>) -> (r: Vec<TypeDefOrRef>)
    ensures
        r@ == refs_of(kinds@),
{
    let mut out: Vec<TypeDefOrRef> = Vec::new();
    let mut i: usize = 0;
    while i < kinds.len()
        invariant
            i <= kinds@.len(),
            out@ == refs_of(kinds@.subrange(0, i as int)),
        decreases kinds@.len() - i,
    {
        assert(kinds@.subrange(0, i + 1).drop_last() =~= kinds@.subrange(0, i as int));
        match kinds[i] {
            TypeKind::Type(value) => {
                out.push(value);
            },
            TypeKind::Instance(value, _) => {
                out.push(value);
            },
            _ => {},
        }
        i = i + 1;
    }
    assert(kinds@.subrange(0, i as int) =~= kinds@);
    out
}

impl TypeName {
    /// The rows of the generic parameters of `def`.
    pub open spec fn generic_rows(reader: &Reader, def: TypeDef) -> RowRange {
        reader.equal_range_of(def.0.file, TABLE_GENERICPARAM, 2, def.generic_key())
    }

    /// The generic parameters of `def`, each as the row that declares it.
    pub open spec fn generics_of(reader: &Reader, def: TypeDef) -> Seq<TypeKind> {
        Seq::new(
            Self::generic_rows(reader, def).count(),
            |i: int| TypeKind::Generic(GenericParam(Self::generic_rows(reader, def).rows()[i])),
        )
    }

    /// The name and the generic parameters of `def` can be read.
    pub open spec fn has_def(reader: &Reader, def: TypeDef) -> bool {
        &&& def.has_name(reader)
        &&& reader.has_column(def.0.file as int, TABLE_GENERICPARAM as int, 2)
        &&& def.generic_key() <= u32::MAX
    }

    /// This is the name of `def` with the generic arguments `generics`.
    pub open spec fn is_of(&self, reader: &Reader, def: TypeDef, generics: Seq<TypeKind>) -> bool {
        &&& (self.namespace@, self.name@) == def.name_of(reader)
        &&& self.generics@ == generics
        &&& self.def == def
    }

    /// Whether the file holds what the name of `def` needs.
    pub fn can_build(reader: &Reader, def: TypeDef) -> (r: bool)
        requires
            reader.wf(),
        ensures
            r == Self::has_def(reader, def),
    {
        def.name_exists(reader) && reader.column_exists(def.0.file, TABLE_GENERICPARAM, 2) && def.0.row
            < u32::MAX / 2
    }

    /// The name of a definition; its generic parameters stand for themselves.
    pub fn from_type_def(reader: &Reader, def: TypeDef) -> (r: TypeName)
        requires
            reader.wf(),
            Self::has_def(reader, def),
        ensures
            r.is_of(reader, def, Self::generics_of(reader, def)),
    {
        let (namespace, name) = def.name(reader);
        let range = def.generics(reader);
        let n: u32 = range.len();
        let mut generics: Vec<TypeKind> = Vec::new();
        let mut i: u32 = 0;
        while i < n
            invariant
                range == Self::generic_rows(reader, def),
                n == range.count(),
                i <= n,
                generics@.len() == i,
                forall|j: int| 0 <= j < i ==> generics@[j] == Self::generics_of(reader, def)[j],
            decreases n - i,
        {
            generics.push(TypeKind::Generic(GenericParam(range.get(i))));
            i = i + 1;
        }
        assert(generics@ =~= Self::generics_of(reader, def));
        TypeName { namespace, name, generics, def }
    }

    /// Where the number of generic arguments stands in the signature of an
    /// instantiation: after the two leading bytes and the reference to the
    /// generic type.
    pub open spec fn count_at(sig: Seq<u8>) -> int {
        2 + prefix_len(sig[2])
    }

    /// `sig` is the signature of an instantiation of a generic type: the
    /// byte that marks an instantiation, the byte that tells a class from a
    /// value type, the reference to the generic type, the number of
    /// arguments, and arguments that are all of the kinds read here.
    pub open spec fn has_instance(sig: Seq<u8>) -> bool {
        &&& number_fits(sig, 2)
        &&& sig[0] == 0x15
        &&& (sig[1] == 0x11 || sig[1] == 0x12)
        &&& TypeDefOrRef::valid(prefix_value(sig, 2) as u32)
        &&& number_fits(sig, Self::count_at(sig))
        &&& has_kinds(
            sig,
            Self::count_at(sig) + prefix_len(sig[Self::count_at(sig)]),
            prefix_value(sig, Self::count_at(sig)) as nat,
        )
    }

    /// The generic type that the signature of an instantiation refers to.
    pub open spec fn instance_type(sig: Seq<u8>, file: u16) -> TypeDefOrRef {
        TypeDefOrRef::decoded(prefix_value(sig, 2) as u32, file)
    }

    /// The generic arguments that the signature of an instantiation lists:
    /// every element of their types, in the order of the signature.
    pub open spec fn instance_args(sig: Seq<u8>, file: u16) -> Seq<TypeKind> {
        elements(
            sig,
            Self::count_at(sig) + prefix_len(sig[Self::count_at(sig)]),
            prefix_value(sig, Self::count_at(sig)) as nat,
            file,
        )
    }

    /// The signature of `spec` can be read, and the generic type it refers
    /// to can be looked for.
    pub open spec fn has_spec(reader: &Reader, spec: TypeSpec) -> bool {
        &&& reader.has_blob(spec.0, 0)
        &&& Self::has_instance(reader.blob_bytes(spec.0, 0))
        &&& Self::instance_type(reader.blob_bytes(spec.0, 0), spec.0.file).can_resolve(reader)
    }

    /// Whether `sig` is the signature of an instantiation whose arguments
    /// are all of the kinds read here.
    pub fn instance_exists(sig: &Vec<u8>) -> (r: bool)
        ensures
            r == Self::has_instance(sig@),
    {
        if !number_exists(sig, 2) || sig[0] != 0x15 || (sig[1] != 0x11 && sig[1] != 0x12) {
            return false;
        }
        let (code, at) = read_number(sig, 2);
        if !TypeDefOrRef::is_valid(code) || !number_exists(sig, at) {
            return false;
        }
        let (count, start) = read_number(sig, at);
        kinds_exist(sig, start, count)
    }

    /// Whether the file holds what the name of the instantiation needs.
    pub fn can_build_spec(reader: &Reader, spec: TypeSpec) -> (r: bool)
        requires
            reader.wf(),
        ensures
            r == Self::has_spec(reader, spec),
    {
        if !reader.blob_exists(spec.0, 0) {
            return false;
        }
        let sig = spec.sig(reader);
        if !Self::instance_exists(&sig) {
            return false;
        }
        let (code, _) = read_number(&sig, 2);
        TypeDefOrRef::decode(code, spec.0.file).resolve_exists(reader)
    }

    /// The name of an instantiation: that of the generic type, with the
    /// arguments that the signature lists. Nothing where the generic type is
    /// not found.
    pub fn from_type_spec(reader: &Reader, spec: TypeSpec) -> (r: Option<TypeName>)
        requires
            reader.wf(),
            Self::has_spec(reader, spec),
        ensures
            match r {
                Some(name) => {
                    &&& Self::instance_type(reader.blob_bytes(spec.0, 0), spec.0.file).resolves_to(
                        reader,
                        Some(name.def),
                    )
                    &&& name.is_of(
                        reader,
                        name.def,
                        Self::instance_args(reader.blob_bytes(spec.0, 0), spec.0.file),
                    )
                },
                None => Self::instance_type(reader.blob_bytes(spec.0, 0), spec.0.file).resolves_to(
                    reader,
                    None,
                ),
            },
    {
        let sig = spec.sig(reader);
        let (code, at) = read_number(&sig, 2);
        let (count, start) = read_number(&sig, at);
        let generics = read_elements(Vec::new(), &sig, start, count, spec.0.file);
        assert(generics@ =~= elements(sig@, start as int, count as nat, spec.0.file));
        match TypeDefOrRef::decode(code, spec.0.file).resolve(reader) {
            Some(def) => {
                let (namespace, name) = def.name(reader);
                Some(TypeName { namespace, name, generics, def })
            },
            None => None,
        }
    }

    /// The definitions of the types that the generic arguments refer to,
    /// each once.
    pub fn dependencies(&self, reader: &Reader) -> (r: Vec<TypeDef>)
        requires
            reader.wf(),
            all_resolve(reader, refs_of(self.generics@)),
        ensures
            r@ == distinct(defs_of(reader, refs_of(self.generics@))),
            r@.no_duplicates(),
            r@.to_set() == defs_of(reader, refs_of(self.generics@)).to_set(),
    {
        resolve_distinct(reader, &self.references())
    }

    /// The references to types among the generic arguments.
    pub fn references(&self) -> (r: Vec<TypeDefOrRef>)
        ensures
            r@ == refs_of(self.generics@),
    {
        refs(&self.generics)
    }
}

} // verus!
