//! An interface as the model holds it.

use vstd::prelude::*;
use crate::codes::TypeDefOrRef;
use crate::file::TABLE_METHODDEF;
use crate::method::{joined, Method};
use crate::method_def::MethodDef;
use crate::names::{all_resolve, defs_of, distinct, refs_of, resolve_distinct, TypeName};
use crate::reader::Reader;
use crate::row::RowRange;
use crate::tables::{Attribute, InterfaceImpl, TypeRef, TypeSpec};
use crate::text::is_name;
use crate::type_def::TypeDef;
use crate::type_guid::TypeGuid;

verus! {

/// An interface: its name, its identifier, its methods in order, and the
/// interfaces it is composed of.
#[derive(Debug)]
pub struct Interface {
    pub name: TypeName,
    pub guid: TypeGuid,
    pub methods: Vec<Method>,
    pub interfaces: Vec<Interface>,
}

/// The references that `methods` hold to types, method by method.
pub open spec fn method_refs(methods: Seq<Method>) -> Seq<TypeDefOrRef>
    decreases methods.len(),
{
    if methods.len() == 0 {
        Seq::empty()
    } else {
        method_refs(methods.drop_last()) + methods.last().references_of()
    }
}

impl Interface {
    /// The rows of the methods of `def`.
    pub open spec fn method_rows(reader: &Reader, def: TypeDef) -> RowRange {
        reader.list_of(def.0, TABLE_METHODDEF, 5)
    }

    /// The attribute of `def` that holds its identifier.
    pub open spec fn guid_attribute(reader: &Reader, def: TypeDef) -> Attribute {
        def.attribute_of(reader, ("Windows.Foundation.Metadata", "GuidAttribute"))
    }

    /// Everything that makes up the interface `def` can be read: its name
    /// and generic parameters, an attribute with its identifier, and each
    /// of its methods.
    pub open spec fn has_def(reader: &Reader, def: TypeDef) -> bool {
        &&& TypeName::has_def(reader, def)
        &&& def.has_attributes(reader)
        &&& def.is_attributed(reader, ("Windows.Foundation.Metadata", "GuidAttribute"))
        &&& reader.has_blob(Self::guid_attribute(reader, def).0, 2)
        &&& TypeGuid::has_args(reader.blob_bytes(Self::guid_attribute(reader, def).0, 2))
        &&& reader.has_list(def.0, 5)
        &&& forall|i: int|
            0 <= i < Self::method_rows(reader, def).count() ==> Method::has_def(
                reader,
                MethodDef(#[trigger] Self::method_rows(reader, def).rows()[i]),
            )
    }

    /// This is the interface `def` as the file describes it.
    pub open spec fn is_of(&self, reader: &Reader, def: TypeDef) -> bool {
        &&& self.name.is_of(reader, def, TypeName::generics_of(reader, def))
        &&& self.guid.0@ == TypeGuid::of_args(reader.blob_bytes(Self::guid_attribute(reader, def).0, 2))
        &&& self.methods@.len() == Self::method_rows(reader, def).count()
        &&& forall|i: int|
            0 <= i < self.methods@.len() ==> (#[trigger] self.methods@[i]).is_of(
                reader,
                MethodDef(Self::method_rows(reader, def).rows()[i]),
                TypeName::generics_of(reader, def),
            )
        &&& self.interfaces@.len() == 0
        &&& self.methods_tied()
    }

    /// This is an instantiation of the generic interface `def` with the
    /// arguments `generics`: its identifier is not computed and it lists no
    /// methods.
    pub open spec fn is_instance(&self, reader: &Reader, def: TypeDef, generics: Seq<
        crate::type_kind::TypeKind,
    >) -> bool {
        &&& self.name.is_of(reader, def, generics)
        &&& self.guid.0@ == TypeGuid::empty()
        &&& self.methods@.len() == 0
        &&& self.interfaces@.len() == 0
        &&& self.methods_tied()
    }

    /// In each method the elements are those of the types of its return
    /// value and of its parameters.
    pub open spec fn methods_tied(&self) -> bool {
        forall|i: int| 0 <= i < self.methods@.len() ==> (#[trigger] self.methods@[i]).tied()
    }

    /// Whether in each method the elements are those of the types of its
    /// return value and of its parameters.
    pub fn are_methods_tied(&self) -> (r: bool)
        ensures
            r == self.methods_tied(),
    {
        let mut i: usize = 0;
        while i < self.methods.len()
            invariant
                i <= self.methods@.len(),
                forall|j: int| 0 <= j < i ==> (#[trigger] self.methods@[j]).tied(),
            decreases self.methods@.len() - i,
        {
            if !self.methods[i].is_tied() {
                return false;
            }
            i = i + 1;
        }
        true
    }

    /// The references that the interface holds to types: those of the
    /// generic arguments of its name, then those of its methods in order.
    pub open spec fn references_of(&self) -> Seq<TypeDefOrRef> {
        refs_of(self.name.generics@) + method_refs(self.methods@)
    }

    /// What building an interface from `code` needs of the file.
    pub open spec fn has_code(reader: &Reader, code: TypeDefOrRef) -> bool {
        match code {
            TypeDefOrRef::TypeDef(value) => Self::has_def(reader, value),
            TypeDefOrRef::TypeRef(value) => Self::has_ref(reader, value),
            TypeDefOrRef::TypeSpec(value) => TypeName::has_spec(reader, value),
        }
    }

    /// What building an interface from a named reference needs: the name,
    /// the names of all definitions, and of a definition that is found all
    /// that makes up an interface.
    pub open spec fn has_ref(reader: &Reader, type_ref: TypeRef) -> bool {
        &&& type_ref.has_name(reader)
        &&& reader.has_type_names()
        &&& reader.files@.len() <= u16::MAX
        &&& forall|def: TypeDef| #[trigger]
            reader.finds(type_ref.name_of(reader), Some(def)) ==> Self::has_def(reader, def)
    }

    /// `found` is the interface that `code` leads to.
    pub open spec fn is_of_code(reader: &Reader, code: TypeDefOrRef, found: Option<Interface>) -> bool {
        match code {
            TypeDefOrRef::TypeDef(value) => found.is_some() && found.unwrap().is_of(reader, value),
            TypeDefOrRef::TypeRef(value) => Self::is_of_ref(reader, value, found),
            TypeDefOrRef::TypeSpec(value) => Self::is_of_spec(reader, value, found),
        }
    }

    /// `found` is the interface that the named reference leads to: that of
    /// the definition found under the name, or nothing where none is found.
    pub open spec fn is_of_ref(reader: &Reader, type_ref: TypeRef, found: Option<Interface>) -> bool {
        match found {
            Some(interface) => {
                &&& reader.finds(type_ref.name_of(reader), Some(interface.name.def))
                &&& interface.is_of(reader, interface.name.def)
            },
            None => reader.finds(type_ref.name_of(reader), None),
        }
    }

    /// `found` is the interface that the instantiation leads to, or nothing
    /// where its generic type is not found.
    pub open spec fn is_of_spec(reader: &Reader, spec: TypeSpec, found: Option<Interface>) -> bool {
        let sig = reader.blob_bytes(spec.0, 0);
        match found {
            Some(interface) => {
                &&& TypeName::instance_type(sig, spec.0.file).resolves_to(reader, Some(interface.name.def))
                &&& interface.is_instance(
                    reader,
                    interface.name.def,
                    TypeName::instance_args(sig, spec.0.file),
                )
            },
            None => TypeName::instance_type(sig, spec.0.file).resolves_to(reader, None),
        }
    }

    /// Whether the file holds all that makes up the interface `def`.
    pub fn can_build(reader: &Reader, def: TypeDef) -> (r: bool)
        requires
            reader.wf(),
        ensures
            r == Self::has_def(reader, def),
    {
        let guid = ("Windows.Foundation.Metadata", "GuidAttribute");
        if !TypeName::can_build(reader, def) || !def.attributes_exist(reader) || !def.has_attribute(
            reader,
            guid,
        ) {
            return false;
        }
        let attribute = def.attribute(reader, guid);
        if !reader.blob_exists(attribute.0, 2) || attribute.args(reader).len() < 18
            || !reader.list_exists(def.0, 5) {
            return false;
        }
        let range = def.methods(reader);
        let n: u32 = range.len();
        let mut i: u32 = 0;
        while i < n
            invariant
                reader.wf(),
                range == Self::method_rows(reader, def),
                n == range.count(),
                i <= n,
                forall|j: int|
                    0 <= j < i ==> Method::has_def(
                        reader,
                        MethodDef(#[trigger] Self::method_rows(reader, def).rows()[j]),
                    ),
            decreases n - i,
        {
            if !Method::can_build(reader, MethodDef(range.get(i))) {
                return false;
            }
            i = i + 1;
        }
        true
    }

    /// Whether the file holds what building an interface from a named
    /// reference needs.
    pub fn can_build_ref(reader: &Reader, type_ref: TypeRef) -> (r: bool)
        requires
            reader.wf(),
        ensures
            r == Self::has_ref(reader, type_ref),
    {
        if !type_ref.name_exists(reader) || !reader.type_names_exist() {
            return false;
        }
        let found = type_ref.resolve(reader);
        let r: bool = match found {
            Some(def) => Self::can_build(reader, def),
            None => true,
        };
        proof {
            assert forall|def: TypeDef| #[trigger]
                reader.finds(type_ref.name_of(reader), Some(def)) implies found == Some(def) by {
                reader.lemma_finds_one(type_ref.name_of(reader), found, Some(def));
            }
        }
        r
    }

    /// Whether the file holds what building an interface from `code` needs.
    pub fn can_build_code(reader: &Reader, code: TypeDefOrRef) -> (r: bool)
        requires
            reader.wf(),
        ensures
            r == Self::has_code(reader, code),
    {
        match code {
            TypeDefOrRef::TypeDef(value) => Self::can_build(reader, value),
            TypeDefOrRef::TypeRef(value) => Self::can_build_ref(reader, value),
            TypeDefOrRef::TypeSpec(value) => TypeName::can_build_spec(reader, value),
        }
    }

    /// The set of the definitions of the types that the interface refers
    /// to, through the generic arguments of its name and through the
    /// parameters and return values of its methods: each definition once,
    /// in the order in which they are first referred to.
    pub fn dependencies(&self, reader: &Reader) -> (r: Vec<TypeDef>)
        requires
            reader.wf(),
            self.methods_tied(),
            all_resolve(reader, self.references_of()),
        ensures
            r@ == distinct(defs_of(reader, self.references_of())),
            r@.no_duplicates(),
            r@.to_set() == defs_of(reader, self.references_of()).to_set(),
    {
        resolve_distinct(reader, &self.references())
    }

    /// The references that the interface holds to types.
    pub fn references(&self) -> (r: Vec<TypeDefOrRef>)
        ensures
            r@ == self.references_of(),
    {
        let mut out = self.name.references();
        let ghost start = out@;
        let mut i: usize = 0;
        while i < self.methods.len()
            invariant
                i <= self.methods@.len(),
                out@ == start + method_refs(self.methods@.subrange(0, i as int)),
            decreases self.methods@.len() - i,
        {
            let more = self.methods[i].references();
            let ghost before = out@;
            out = joined(out, &more);
            proof {
                let head = self.methods@.subrange(0, i + 1);
                assert(head.drop_last() =~= self.methods@.subrange(0, i as int));
                assert(head.last() == self.methods@[i as int]);
                assert(out@ =~= start + method_refs(head));
            }
            i = i + 1;
        }
        assert(self.methods@.subrange(0, i as int) =~= self.methods@);
        out
    }

    /// Builds the interface that `def` defines.
    pub fn from_type_def(reader: &Reader, def: TypeDef) -> (r: Interface)
        requires
            reader.wf(),
            Self::has_def(reader, def),
        ensures
            r.is_of(reader, def),
    {
        let name = TypeName::from_type_def(reader, def);
        let attribute = def.attribute(reader, ("Windows.Foundation.Metadata", "GuidAttribute"));
        let args = attribute.args(reader);
        let guid = TypeGuid::from_args(&args);
        let range = def.methods(reader);
        let n: u32 = range.len();
        let mut methods: Vec<Method> = Vec::new();
        let mut i: u32 = 0;
        while i < n
            invariant
                reader.wf(),
                Self::has_def(reader, def),
                range == Self::method_rows(reader, def),
                n == range.count(),
                i <= n,
                methods@.len() == i,
                name.generics@ == TypeName::generics_of(reader, def),
                forall|j: int|
                    0 <= j < i ==> (#[trigger] methods@[j]).is_of(
                        reader,
                        MethodDef(range.rows()[j]),
                        TypeName::generics_of(reader, def),
                    ),
            decreases n - i,
        {
            let method = MethodDef(range.get(i));
            methods.push(Method::from_method_def(reader, method, &name.generics));
            i = i + 1;
        }
        Interface { name, guid, methods, interfaces: Vec::new() }
    }

    /// Builds the interface that a named reference leads to.
    pub fn from_type_ref(reader: &Reader, type_ref: TypeRef) -> (r: Option<Interface>)
        requires
            reader.wf(),
            Self::has_ref(reader, type_ref),
        ensures
            Self::is_of_ref(reader, type_ref, r),
    {
        match type_ref.resolve(reader) {
            Some(def) => Some(Self::from_type_def(reader, def)),
            None => None,
        }
    }

    /// Builds the interface that an instantiation of a generic interface
    /// stands for. Its identifier is left as the one that was not computed,
    /// and its methods are not listed.
    pub fn from_type_spec(reader: &Reader, spec: TypeSpec) -> (r: Option<Interface>)
        requires
            reader.wf(),
            TypeName::has_spec(reader, spec),
        ensures
            Self::is_of_spec(reader, spec, r),
    {
        match TypeName::from_type_spec(reader, spec) {
            Some(name) => Some(
                Interface { name, guid: TypeGuid::new(), methods: Vec::new(), interfaces: Vec::new() },
            ),
            None => None,
        }
    }

    /// Builds the interface that `code` leads to.
    pub fn from_type_def_or_ref(reader: &Reader, code: TypeDefOrRef) -> (r: Option<Interface>)
        requires
            reader.wf(),
            Self::has_code(reader, code),
        ensures
            Self::is_of_code(reader, code, r),
    {
        match code {
            TypeDefOrRef::TypeDef(value) => Some(Self::from_type_def(reader, value)),
            TypeDefOrRef::TypeRef(value) => Self::from_type_ref(reader, value),
            TypeDefOrRef::TypeSpec(value) => Self::from_type_spec(reader, value),
        }
    }

    /// Builds the interface that a type implements.
    pub fn from_interface_impl(reader: &Reader, key: InterfaceImpl) -> (r: Option<Interface>)
        requires
            reader.wf(),
            key.has_interface(reader),
            Self::has_code(reader, key.interface_of(reader)),
        ensures
            Self::is_of_code(reader, key.interface_of(reader), r),
    {
        Self::from_type_def_or_ref(reader, key.interface(reader))
    }
}

} // verus!
