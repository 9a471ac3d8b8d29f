//! A type as the model holds it.

use vstd::prelude::*;
use crate::flags::TypeCategory;
use crate::interface::Interface;
use crate::names::TypeName;
use crate::reader::Reader;
use crate::type_def::TypeDef;

verus! {

/// A type of the runtime: an interface in full, any other type by its name.
#[derive(Debug)]
pub enum Type {
    Interface(Interface),
    Class(TypeName),
    Enum(TypeName),
    Struct(TypeName),
    Delegate(TypeName),
}

impl Type {
    /// What building the type `def` needs of the file: its kind, and for an
    /// interface all that makes it up, for any other type its name.
    pub open spec fn has_def(reader: &Reader, def: TypeDef) -> bool {
        &&& def.has_category(reader)
        &&& def.flags_of(reader).is_windows_runtime()
        &&& if def.flags_of(reader).is_interface() {
            Interface::has_def(reader, def)
        } else {
            TypeName::has_def(reader, def)
        }
    }

    /// The name of the type.
    pub open spec fn name_of(&self) -> TypeName {
        match *self {
            Type::Interface(value) => value.name,
            Type::Class(value) => value,
            Type::Enum(value) => value,
            Type::Struct(value) => value,
            Type::Delegate(value) => value,
        }
    }

    /// The kind of the type.
    pub open spec fn category_of(&self) -> TypeCategory {
        match *self {
            Type::Interface(_) => TypeCategory::Interface,
            Type::Class(_) => TypeCategory::Class,
            Type::Enum(_) => TypeCategory::Enum,
            Type::Struct(_) => TypeCategory::Struct,
            Type::Delegate(_) => TypeCategory::Delegate,
        }
    }

    /// This is the type `def` as the file describes it.
    pub open spec fn is_of(&self, reader: &Reader, def: TypeDef) -> bool {
        &&& self.category_of() == def.category_of(reader)
        &&& self.name_of().is_of(reader, def, TypeName::generics_of(reader, def))
        &&& match *self {
            Type::Interface(value) => value.is_of(reader, def),
            _ => true,
        }
    }

    /// Whether the file holds what building the type `def` needs.
    pub fn can_build(reader: &Reader, def: TypeDef) -> (r: bool)
        requires
            reader.wf(),
        ensures
            r == Self::has_def(reader, def),
    {
        if !def.can_category(reader) || !def.flags(reader).windows_runtime() {
            return false;
        }
        if def.flags(reader).interface() {
            Interface::can_build(reader, def)
        } else {
            TypeName::can_build(reader, def)
        }
    }

    /// Builds the type that `def` defines.
    pub fn from_type_def(reader: &Reader, def: TypeDef) -> (r: Type)
        requires
            reader.wf(),
            Self::has_def(reader, def),
        ensures
            r.is_of(reader, def),
    {
        match def.category(reader) {
            TypeCategory::Interface => Type::Interface(Interface::from_type_def(reader, def)),
            TypeCategory::Class => Type::Class(TypeName::from_type_def(reader, def)),
            TypeCategory::Enum => Type::Enum(TypeName::from_type_def(reader, def)),
            TypeCategory::Struct => Type::Struct(TypeName::from_type_def(reader, def)),
            TypeCategory::Delegate => Type::Delegate(TypeName::from_type_def(reader, def)),
        }
    }

    /// The name of the type.
    pub fn name(&self) -> (r: &TypeName)
        ensures
            *r == self.name_of(),
    {
        match self {
            Type::Interface(value) => &value.name,
            Type::Class(value) => value,
            Type::Enum(value) => value,
            Type::Struct(value) => value,
            Type::Delegate(value) => value,
        }
    }
}

impl TypeDef {
    /// The type that this row defines, as the model holds it.
    pub fn info(&self, reader: &Reader) -> (r: Type)
        requires
            reader.wf(),
            Type::has_def(reader, *self),
        ensures
            r.is_of(reader, *self),
    {
        Type::from_type_def(reader, *self)
    }
}

} // verus!
