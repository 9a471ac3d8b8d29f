//! A method as the model holds it.

use vstd::prelude::*;
use crate::codes::TypeDefOrRef;
use crate::flags::MethodCategory;
use crate::method_def::{method_category, MethodDef};
use crate::names::{all_resolve, defs_of, distinct, refs, refs_of, resolve_distinct};
use crate::type_def::TypeDef;
use crate::reader::Reader;
use crate::type_kind::{
    has_signature, heads, lemma_heads_of_signature, outer_of, outermost, read_sig_elements,
    read_signature, same_kinds,
    sig_elements, sig_params, sig_return, signature_exists, Parameter, TypeKind,
};

verus! {

/// A method: its name, what it is to its type, its parameters in order, what
/// it returns if anything, and the generic parameters of the type it
/// belongs to.
#[derive(Clone, PartialEq, Eq, Debug)]
pub struct Method {
    pub name: Vec<u8>,
    pub kind: MethodCategory,
    pub params: Vec<Parameter>,
    pub return_type: Option<Parameter>,
    pub generics: Vec<TypeKind>,
    /// Every element of the types of the signature, in its order: what
    /// completes an array, a reference or an instantiation is found here.
    pub elements: Vec<TypeKind>,
}

/// A copy of `kinds`.
pub fn copy_kinds(kinds: &Vec<TypeKind>) -> (r: Vec<TypeKind>)
    ensures
        r@ == kinds@,
{
    let mut out: Vec<TypeKind> = Vec::new();
    let mut i: usize = 0;
    while i < kinds.len()
        invariant
            i <= kinds@.len(),
            out@ == kinds@.subrange(0, i as int),
        decreases kinds@.len() - i,
    {
        out.push(kinds[i]);
        assert(out@ =~= kinds@.subrange(0, i + 1));
        i = i + 1;
    }
    assert(kinds@.subrange(0, i as int) =~= kinds@);
    out
}

/// `first` followed by `second`.
pub fn joined(first: Vec<TypeDefOrRef>, second: &Vec<TypeDefOrRef>) -> (r: Vec<TypeDefOrRef>)
    ensures
        r@ == first@ + second@,
{
    let ghost start = first@;
    let mut out = first;
    let mut i: usize = 0;
    while i < second.len()
        invariant
            i <= second@.len(),
            out@ == start + second@.subrange(0, i as int),
        decreases second@.len() - i,
    {
        out.push(second[i]);
        assert(out@ =~= start + second@.subrange(0, i + 1));
        i = i + 1;
    }
    assert(second@.subrange(0, i as int) =~= second@);
    out
}

impl Method {
    /// Name, flags and signature of `method` can be read, and the types of
    /// the signature are all of the kinds read here.
    pub open spec fn has_def(reader: &Reader, method: MethodDef) -> bool {
        &&& reader.has_text(method.0, 3)
        &&& reader.has_cell(method.0, 2)
        &&& reader.has_blob(method.0, 4)
        &&& has_signature(reader.blob_bytes(method.0, 4))
    }

    /// This is `method` as the file describes it, in a type with the
    /// generic parameters `generics`.
    pub open spec fn is_of(&self, reader: &Reader, method: MethodDef, generics: Seq<TypeKind>) -> bool {
        &&& self.name@ == reader.text(method.0, 3)
        &&& self.kind == method_category(method.flags_of(reader).is_special(), reader.text(method.0, 3))
        &&& self.params@ == sig_params(reader.blob_bytes(method.0, 4), method.0.file)
        &&& self.return_type == sig_return(reader.blob_bytes(method.0, 4), method.0.file)
        &&& self.generics@ == generics
        &&& self.elements@ == sig_elements(reader.blob_bytes(method.0, 4), method.0.file)
        &&& self.tied()
    }

    /// The elements are those of the types of what the method returns and
    /// of its parameters: the outermost elements found among them are the
    /// kind of the return value, if there is one, and the kinds of the
    /// parameters, in that order.
    pub open spec fn tied(&self) -> bool {
        heads(self.elements@, 0) == outer_of(self.return_type, self.params@)
    }

    /// The references that the method holds to types: every reference
    /// among its elements, in their order. Where the elements are tied to
    /// the return value and the parameters, these are the references that
    /// the types of the return value and of the parameters hold.
    pub open spec fn references_of(&self) -> Seq<TypeDefOrRef> {
        refs_of(self.elements@)
    }

    /// Whether the elements are those of the types of what the method
    /// returns and of its parameters.
    pub fn is_tied(&self) -> (r: bool)
        ensures
            r == self.tied(),
    {
        let found = outermost(&self.elements);
        let mut expected: Vec<TypeKind> = Vec::new();
        match self.return_type {
            Some(value) => {
                expected.push(value.kind);
            },
            None => {},
        }
        let ghost start = expected@;
        let mut i: usize = 0;
        while i < self.params.len()
            invariant
                i <= self.params@.len(),
                expected@.len() == start.len() + i,
                forall|j: int| 0 <= j < start.len() ==> expected@[j] == start[j],
                forall|j: int| 0 <= j < i ==> expected@[start.len() + j] == self.params@[j].kind,
            decreases self.params@.len() - i,
        {
            expected.push(self.params[i].kind);
            i = i + 1;
        }
        assert(expected@ =~= outer_of(self.return_type, self.params@));
        same_kinds(&found, &expected)
    }

    /// Whether the file holds what reading `method` needs.
    pub fn can_build(reader: &Reader, method: MethodDef) -> (r: bool)
        requires
            reader.wf(),
        ensures
            r == Self::has_def(reader, method),
    {
        reader.text_exists(method.0, 3) && reader.cell_exists(method.0, 2) && reader.blob_exists(
            method.0,
            4,
        ) && signature_exists(&method.sig(reader))
    }

    /// Reads a method from its row.
    pub fn from_method_def(reader: &Reader, method: MethodDef, generics: &Vec<TypeKind>) -> (r: Method)
        requires
            reader.wf(),
            Self::has_def(reader, method),
        ensures
            r.is_of(reader, method, generics@),
    {
        let name = method.name(reader);
        let kind = method.category(reader);
        let sig = method.sig(reader);
        let (return_type, params) = read_signature(&sig, method.0.file);
        let elements = read_sig_elements(&sig, method.0.file);
        proof {
            lemma_heads_of_signature(sig@, method.0.file);
        }
        Method { name, kind, params, return_type, generics: copy_kinds(generics), elements }
    }

    /// The definitions of the types that the method refers to, each once,
    /// in the order in which they are first referred to.
    pub fn dependencies(&self, reader: &Reader) -> (r: Vec<TypeDef>)
        requires
            reader.wf(),
            self.tied(),
            all_resolve(reader, self.references_of()),
        ensures
            r@ == distinct(defs_of(reader, self.references_of())),
            r@.no_duplicates(),
            r@.to_set() == defs_of(reader, self.references_of()).to_set(),
    {
        resolve_distinct(reader, &self.references())
    }

    /// The references that the method holds to types.
    pub fn references(&self) -> (r: Vec<TypeDefOrRef>)
        ensures
            r@ == self.references_of(),
    {
        refs(&self.elements)
    }
}

} // verus!
