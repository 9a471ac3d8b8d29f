//! Typed views of rows: each wraps the handle of a row of one table.

use vstd::prelude::*;
use crate::codes::{AttributeType, MemberRefParent, TypeDefOrRef};
use crate::file::TABLE_TYPEDEF;
use crate::reader::Reader;
use crate::row::Row;
use crate::type_def::TypeDef;

verus! {

/// A field of a type.
#[derive(Copy, Clone, PartialEq, Eq, PartialOrd, Ord, Debug, Structural)]
pub struct Field(pub Row);

/// A parameter of a method.
#[derive(Copy, Clone, PartialEq, Eq, PartialOrd, Ord, Debug, Structural)]
pub struct Param(pub Row);

/// A generic parameter of a type or method.
#[derive(Copy, Clone, PartialEq, Eq, PartialOrd, Ord, Debug, Structural)]
pub struct GenericParam(pub Row);

/// The fact that a type implements an interface.
#[derive(Copy, Clone, PartialEq, Eq, PartialOrd, Ord, Debug, Structural)]
pub struct InterfaceImpl(pub Row);

/// A reference to a type by name.
#[derive(Copy, Clone, PartialEq, Eq, PartialOrd, Ord, Debug, Structural)]
pub struct TypeRef(pub Row);

/// An instantiation of a generic type, given by a signature.
#[derive(Copy, Clone, PartialEq, Eq, PartialOrd, Ord, Debug, Structural)]
pub struct TypeSpec(pub Row);

/// A reference to a member of a type.
#[derive(Copy, Clone, PartialEq, Eq, PartialOrd, Ord, Debug, Structural)]
pub struct MemberRef(pub Row);

/// A custom attribute attached to something.
#[derive(Copy, Clone, PartialEq, Eq, PartialOrd, Ord, Debug, Structural)]
pub struct Attribute(pub Row);

impl Field {
    pub fn name(self, reader: &Reader) -> (r: Vec<u8>)
        requires
            reader.wf(),
            reader.has_text(self.0, 1),
        ensures
            r@ == reader.text(self.0, 1),
    {
        reader.str(self.0, 1)
    }

    /// The signature of the field, as the blob heap holds it.
    pub fn sig(self, reader: &Reader) -> (r: Vec<u8>)
        requires
            reader.wf(),
            reader.has_blob(self.0, 2),
        ensures
            r@ == reader.blob_bytes(self.0, 2),
    {
        reader.blob(self.0, 2)
    }
}

impl Param {
    /// The place of the parameter among those of its method, counted from
    /// one; zero stands for the return value.
    pub fn sequence(self, reader: &Reader) -> (r: u32)
        requires
            reader.wf(),
            reader.has_cell(self.0, 1),
        ensures
            r == reader.cell(self.0, 1),
    {
        reader.u32(self.0, 1)
    }

    pub fn name(self, reader: &Reader) -> (r: Vec<u8>)
        requires
            reader.wf(),
            reader.has_text(self.0, 2),
        ensures
            r@ == reader.text(self.0, 2),
    {
        reader.str(self.0, 2)
    }
}

impl GenericParam {
    /// The place of the parameter among those of its owner, counted from zero.
    pub fn number(self, reader: &Reader) -> (r: u32)
        requires
            reader.wf(),
            reader.has_cell(self.0, 0),
        ensures
            r == reader.cell(self.0, 0),
    {
        reader.u32(self.0, 0)
    }

    pub fn name(self, reader: &Reader) -> (r: Vec<u8>)
        requires
            reader.wf(),
            reader.has_text(self.0, 3),
        ensures
            r@ == reader.text(self.0, 3),
    {
        reader.str(self.0, 3)
    }
}

impl InterfaceImpl {
    pub open spec fn has_interface(self, reader: &Reader) -> bool {
        reader.has_cell(self.0, 1) && TypeDefOrRef::valid(reader.cell(self.0, 1) as u32)
    }

    pub open spec fn interface_of(self, reader: &Reader) -> TypeDefOrRef {
        TypeDefOrRef::decoded(reader.cell(self.0, 1) as u32, self.0.file)
    }

    /// Whether the interface that is implemented can be read.
    pub fn interface_exists(self, reader: &Reader) -> (r: bool)
        requires
            reader.wf(),
        ensures
            r == self.has_interface(reader),
    {
        reader.cell_exists(self.0, 1) && TypeDefOrRef::is_valid(reader.u32(self.0, 1))
    }

    /// The interface that is implemented.
    pub fn interface(self, reader: &Reader) -> (r: TypeDefOrRef)
        requires
            reader.wf(),
            self.has_interface(reader),
        ensures
            r == self.interface_of(reader),
    {
        TypeDefOrRef::decode(reader.u32(self.0, 1), self.0.file)
    }
}

impl TypeRef {
    pub open spec fn has_name(self, reader: &Reader) -> bool {
        reader.has_text(self.0, 2) && reader.has_text(self.0, 1)
    }

    /// Namespace and name.
    pub open spec fn name_of(self, reader: &Reader) -> (Seq<u8>, Seq<u8>) {
        (reader.text(self.0, 2), reader.text(self.0, 1))
    }

    /// Whether namespace and name can be read.
    pub fn name_exists(self, reader: &Reader) -> (r: bool)
        requires
            reader.wf(),
        ensures
            r == self.has_name(reader),
    {
        reader.text_exists(self.0, 2) && reader.text_exists(self.0, 1)
    }

    /// Namespace and name of the type referred to.
    pub fn name(self, reader: &Reader) -> (r: (Vec<u8>, Vec<u8>))
        requires
            reader.wf(),
            self.has_name(reader),
        ensures
            (r.0@, r.1@) == self.name_of(reader),
    {
        (reader.str(self.0, 2), reader.str(self.0, 1))
    }
}

impl TypeRef {
    /// The definition of the type referred to, in whichever file it lies.
    pub fn resolve(self, reader: &Reader) -> (r: Option<TypeDef>)
        requires
            reader.wf(),
            self.has_name(reader),
            reader.has_type_names(),
            reader.files@.len() <= u16::MAX,
        ensures
            reader.finds(self.name_of(reader), r),
            r.is_some() ==> r.unwrap().has_name(reader),
    {
        let name = self.name(reader);
        let r = reader.find(name.0.as_slice(), name.1.as_slice());
        proof {
            if r.is_some() {
                let def = r.unwrap();
                assert(def == Reader::type_at(def.0.file as int, def.0.row as int));
            }
        }
        r
    }
}

impl TypeSpec {
    /// The signature of the instantiation.
    pub fn sig(self, reader: &Reader) -> (r: Vec<u8>)
        requires
            reader.wf(),
            reader.has_blob(self.0, 0),
        ensures
            r@ == reader.blob_bytes(self.0, 0),
    {
        reader.blob(self.0, 0)
    }
}

impl TypeDefOrRef {
    /// The reference is to a definition or a named reference, whose name
    /// can be read. An instantiation has no name of its own.
    pub open spec fn has_name(self, reader: &Reader) -> bool {
        match self {
            TypeDefOrRef::TypeDef(value) => value.has_name(reader),
            TypeDefOrRef::TypeRef(value) => value.has_name(reader),
            TypeDefOrRef::TypeSpec(_) => false,
        }
    }

    pub open spec fn name_of(self, reader: &Reader) -> (Seq<u8>, Seq<u8>) {
        match self {
            TypeDefOrRef::TypeDef(value) => value.name_of(reader),
            TypeDefOrRef::TypeRef(value) => value.name_of(reader),
            TypeDefOrRef::TypeSpec(_) => (Seq::empty(), Seq::empty()),
        }
    }

    /// Whether the reference has a name that can be read.
    pub fn name_exists(self, reader: &Reader) -> (r: bool)
        requires
            reader.wf(),
        ensures
            r == self.has_name(reader),
    {
        match self {
            TypeDefOrRef::TypeDef(value) => value.name_exists(reader),
            TypeDefOrRef::TypeRef(value) => value.name_exists(reader),
            TypeDefOrRef::TypeSpec(_) => false,
        }
    }

    /// Namespace and name, whether the type is defined here or referred to.
    pub fn name(self, reader: &Reader) -> (r: (Vec<u8>, Vec<u8>))
        requires
            reader.wf(),
            self.has_name(reader),
        ensures
            (r.0@, r.1@) == self.name_of(reader),
    {
        match self {
            TypeDefOrRef::TypeDef(value) => value.name(reader),
            TypeDefOrRef::TypeRef(value) => value.name(reader),
            TypeDefOrRef::TypeSpec(_) => vstd::pervasive::unreached(),
        }
    }
}

impl TypeDefOrRef {
    /// The type referred to can be looked for, and the name of what is
    /// found can be read: a definition has a name; a named reference has
    /// one, and so has every definition in every file.
    pub open spec fn can_resolve(self, reader: &Reader) -> bool {
        match self {
            TypeDefOrRef::TypeDef(value) => value.has_name(reader),
            TypeDefOrRef::TypeRef(value) => {
                &&& value.has_name(reader)
                &&& reader.has_type_names()
                &&& reader.files@.len() <= u16::MAX
            },
            _ => true,
        }
    }

    /// Whether the type referred to can be looked for.
    pub fn resolve_exists(self, reader: &Reader) -> (r: bool)
        requires
            reader.wf(),
        ensures
            r == self.can_resolve(reader),
    {
        match self {
            TypeDefOrRef::TypeDef(value) => value.name_exists(reader),
            TypeDefOrRef::TypeRef(value) => value.name_exists(reader) && reader.type_names_exist(),
            TypeDefOrRef::TypeSpec(_) => true,
        }
    }

    /// `found` is the definition that the reference leads to: a definition
    /// itself; for a named reference what looking for the name gives; for
    /// an instantiation nothing.
    pub open spec fn resolves_to(self, reader: &Reader, found: Option<TypeDef>) -> bool {
        match self {
            TypeDefOrRef::TypeDef(value) => found == Some(value),
            TypeDefOrRef::TypeRef(value) => reader.finds(value.name_of(reader), found),
            TypeDefOrRef::TypeSpec(_) => found.is_none(),
        }
    }

    /// The definition that the reference leads to, if there is one.
    pub open spec fn resolved(self, reader: &Reader) -> Option<TypeDef> {
        choose|found: Option<TypeDef>| self.resolves_to(reader, found)
    }

    /// A reference leads to one outcome only.
    pub proof fn lemma_resolves_one(self, reader: &Reader, first: Option<TypeDef>, second: Option<TypeDef>)
        requires
            self.resolves_to(reader, first),
            self.resolves_to(reader, second),
        ensures
            first == second,
            first == self.resolved(reader),
    {
        match self {
            TypeDefOrRef::TypeRef(value) => {
                reader.lemma_finds_one(value.name_of(reader), first, second);
                reader.lemma_finds_one(value.name_of(reader), first, self.resolved(reader));
            },
            _ => {},
        }
    }

    /// The definition that the reference leads to, if there is one.
    pub fn resolve(self, reader: &Reader) -> (r: Option<TypeDef>)
        requires
            reader.wf(),
            self.can_resolve(reader),
        ensures
            self.resolves_to(reader, r),
            r == self.resolved(reader),
            r.is_some() ==> r.unwrap().has_name(reader),
    {
        let r = match self {
            TypeDefOrRef::TypeDef(value) => Some(value),
            TypeDefOrRef::TypeRef(value) => value.resolve(reader),
            TypeDefOrRef::TypeSpec(_) => None,
        };
        proof {
            self.lemma_resolves_one(reader, r, r);
        }
        r
    }
}

impl MemberRefParent {
    /// The parent is a type defined here or referred to by name, whose name
    /// can be read.
    pub open spec fn has_name(self, reader: &Reader) -> bool {
        match self {
            MemberRefParent::TypeDef(value) => value.has_name(reader),
            MemberRefParent::TypeRef(value) => value.has_name(reader),
            _ => false,
        }
    }

    pub open spec fn name_of(self, reader: &Reader) -> (Seq<u8>, Seq<u8>) {
        match self {
            MemberRefParent::TypeDef(value) => value.name_of(reader),
            MemberRefParent::TypeRef(value) => value.name_of(reader),
            _ => (Seq::empty(), Seq::empty()),
        }
    }

    /// Whether the parent is a type with a name that can be read.
    pub fn name_exists(self, reader: &Reader) -> (r: bool)
        requires
            reader.wf(),
        ensures
            r == self.has_name(reader),
    {
        match self {
            MemberRefParent::TypeDef(value) => value.name_exists(reader),
            MemberRefParent::TypeRef(value) => value.name_exists(reader),
            _ => false,
        }
    }

    /// Namespace and name of the parent type.
    pub fn name(self, reader: &Reader) -> (r: (Vec<u8>, Vec<u8>))
        requires
            reader.wf(),
            self.has_name(reader),
        ensures
            (r.0@, r.1@) == self.name_of(reader),
    {
        match self {
            MemberRefParent::TypeDef(value) => value.name(reader),
            MemberRefParent::TypeRef(value) => value.name(reader),
            _ => vstd::pervasive::unreached(),
        }
    }
}

impl MemberRef {
    pub open spec fn has_parent(self, reader: &Reader) -> bool {
        reader.has_cell(self.0, 0) && MemberRefParent::valid(reader.cell(self.0, 0) as u32)
    }

    pub open spec fn parent_of(self, reader: &Reader) -> MemberRefParent {
        MemberRefParent::decoded(reader.cell(self.0, 0) as u32, self.0.file)
    }

    pub fn name(self, reader: &Reader) -> (r: Vec<u8>)
        requires
            reader.wf(),
            reader.has_text(self.0, 1),
        ensures
            r@ == reader.text(self.0, 1),
    {
        reader.str(self.0, 1)
    }

    /// Whether the parent can be read.
    pub fn parent_exists(self, reader: &Reader) -> (r: bool)
        requires
            reader.wf(),
        ensures
            r == self.has_parent(reader),
    {
        reader.cell_exists(self.0, 0) && MemberRefParent::is_valid(reader.u32(self.0, 0))
    }

    /// What the member belongs to.
    pub fn parent(self, reader: &Reader) -> (r: MemberRefParent)
        requires
            reader.wf(),
            self.has_parent(reader),
        ensures
            r == self.parent_of(reader),
    {
        MemberRefParent::decode(reader.u32(self.0, 0), self.0.file)
    }
}

impl Attribute {
    pub open spec fn has_constructor(self, reader: &Reader) -> bool {
        reader.has_cell(self.0, 1) && AttributeType::valid(reader.cell(self.0, 1) as u32)
    }

    pub open spec fn constructor_of(self, reader: &Reader) -> AttributeType {
        AttributeType::decoded(reader.cell(self.0, 1) as u32, self.0.file)
    }

    /// The name of the attribute's type can be read: its constructor is a
    /// method of a type defined here, or a member of a type with a name.
    pub open spec fn has_name(self, reader: &Reader) -> bool {
        &&& self.has_constructor(reader)
        &&& match self.constructor_of(reader) {
            AttributeType::MethodDef(method) => {
                &&& method.has_parent(reader)
                &&& method.parent_of(reader).has_name(reader)
            },
            AttributeType::MemberRef(member) => {
                &&& member.has_parent(reader)
                &&& member.parent_of(reader).has_name(reader)
            },
        }
    }

    /// Namespace and name of the attribute's type.
    pub open spec fn name_of(self, reader: &Reader) -> (Seq<u8>, Seq<u8>) {
        match self.constructor_of(reader) {
            AttributeType::MethodDef(method) => method.parent_of(reader).name_of(reader),
            AttributeType::MemberRef(member) => member.parent_of(reader).name_of(reader),
        }
    }

    /// Whether the constructor can be read.
    pub fn constructor_exists(self, reader: &Reader) -> (r: bool)
        requires
            reader.wf(),
        ensures
            r == self.has_constructor(reader),
    {
        reader.cell_exists(self.0, 1) && AttributeType::is_valid(reader.u32(self.0, 1))
    }

    /// Whether the name of the attribute's type can be read.
    pub fn name_exists(self, reader: &Reader) -> (r: bool)
        requires
            reader.wf(),
        ensures
            r == self.has_name(reader),
    {
        if !self.constructor_exists(reader) {
            return false;
        }
        match self.constructor(reader) {
            AttributeType::MethodDef(method) => method.parent_exists(reader) && method.parent(
                reader,
            ).name_exists(reader),
            AttributeType::MemberRef(member) => member.parent_exists(reader) && member.parent(
                reader,
            ).name_exists(reader),
        }
    }

    /// The constructor that the attribute was made with.
    pub fn constructor(self, reader: &Reader) -> (r: AttributeType)
        requires
            reader.wf(),
            self.has_constructor(reader),
        ensures
            r == self.constructor_of(reader),
    {
        AttributeType::decode(reader.u32(self.0, 1), self.0.file)
    }

    /// Namespace and name of the attribute's type.
    pub fn name(self, reader: &Reader) -> (r: (Vec<u8>, Vec<u8>))
        requires
            reader.wf(),
            self.has_name(reader),
        ensures
            (r.0@, r.1@) == self.name_of(reader),
    {
        match self.constructor(reader) {
            AttributeType::MethodDef(method) => method.parent(reader).name(reader),
            AttributeType::MemberRef(member) => member.parent(reader).name(reader),
        }
    }

    /// The value of the attribute: the blob that holds the arguments its
    /// constructor was called with.
    pub fn args(self, reader: &Reader) -> (r: Vec<u8>)
        requires
            reader.wf(),
            reader.has_blob(self.0, 2),
        ensures
            r@ == reader.blob_bytes(self.0, 2),
    {
        reader.blob(self.0, 2)
    }
}

} // verus!
