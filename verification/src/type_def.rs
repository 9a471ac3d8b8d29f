//! The view of a row of the table of types.

use vstd::prelude::*;
use crate::codes::{HasAttribute, TypeDefOrRef, TypeOrMethodDef};
use crate::file::{
    TABLE_CUSTOMATTRIBUTE, TABLE_FIELD, TABLE_GENERICPARAM, TABLE_INTERFACEIMPL, TABLE_METHODDEF,
};
use crate::flags::{TypeCategory, TypeFlags};
use crate::reader::Reader;
use crate::row::{Row, RowRange};
use crate::tables::Attribute;
use crate::text::{is_name, name_eq};

verus! {

/// A type that the file defines.
#[derive(Copy, Clone, PartialEq, Eq, PartialOrd, Ord, Debug, Structural)]
pub struct TypeDef(pub Row);

impl TypeDef {
    pub open spec fn flags_of(&self, reader: &Reader) -> TypeFlags {
        TypeFlags(reader.cell(self.0, 0) as u32)
    }

    pub open spec fn has_name(&self, reader: &Reader) -> bool {
        reader.has_text(self.0, 2) && reader.has_text(self.0, 1)
    }

    /// Namespace and name.
    pub open spec fn name_of(&self, reader: &Reader) -> (Seq<u8>, Seq<u8>) {
        (reader.text(self.0, 2), reader.text(self.0, 1))
    }

    pub open spec fn has_extends(&self, reader: &Reader) -> bool {
        reader.has_cell(self.0, 3) && TypeDefOrRef::valid(reader.cell(self.0, 3) as u32)
    }

    pub open spec fn extends_of(&self, reader: &Reader) -> TypeDefOrRef {
        TypeDefOrRef::decoded(reader.cell(self.0, 3) as u32, self.0.file)
    }

    /// The key under which the attributes of this type are filed.
    pub open spec fn attribute_key(&self) -> int {
        HasAttribute::TypeDef(*self).encoded()
    }

    /// The key under which the generic parameters of this type are filed.
    pub open spec fn generic_key(&self) -> int {
        TypeOrMethodDef::TypeDef(*self).encoded()
    }

    /// The rows that `attributes` gives.
    pub open spec fn attributes_of(&self, reader: &Reader) -> RowRange {
        reader.equal_range_of(self.0.file, TABLE_CUSTOMATTRIBUTE, 0, self.attribute_key())
    }

    /// The attributes of the type can be looked up and each has a type
    /// with a name.
    pub open spec fn has_attributes(&self, reader: &Reader) -> bool {
        &&& reader.has_column(self.0.file as int, TABLE_CUSTOMATTRIBUTE as int, 0)
        &&& self.attribute_key() <= u32::MAX
        &&& forall|i: int|
            0 <= i < self.attributes_of(reader).count() ==> Attribute(
                #[trigger] self.attributes_of(reader).rows()[i],
            ).has_name(reader)
    }

    /// The first `n` attributes of the type hold none whose type is named
    /// `name`.
    pub open spec fn none_named(&self, reader: &Reader, name: (&str, &str), n: int) -> bool {
        forall|i: int|
            0 <= i < n ==> !is_name(
                Attribute(#[trigger] self.attributes_of(reader).rows()[i]).name_of(reader),
                name,
            )
    }

    /// The type has an attribute whose type is named `name`.
    pub open spec fn is_attributed(&self, reader: &Reader, name: (&str, &str)) -> bool {
        !self.none_named(reader, name, self.attributes_of(reader).count() as int)
    }

    /// The type that this one extends can be read and has a name.
    pub open spec fn has_base(&self, reader: &Reader) -> bool {
        self.has_extends(reader) && self.extends_of(reader).has_name(reader)
    }

    /// Namespace and name of the type that this one extends.
    pub open spec fn base_of(&self, reader: &Reader) -> (Seq<u8>, Seq<u8>) {
        self.extends_of(reader).name_of(reader)
    }

    /// What `ignore` needs of the file: the flags; for a type of the
    /// runtime that is no interface its base; for a value type its
    /// attributes.
    pub open spec fn has_ignore(&self, reader: &Reader) -> bool {
        &&& reader.has_cell(self.0, 0)
        &&& (self.flags_of(reader).is_windows_runtime() && !self.flags_of(reader).is_interface() ==> {
            &&& self.has_base(reader)
            &&& (is_name(self.base_of(reader), ("System", "ValueType")) ==> self.has_attributes(reader))
        })
    }

    /// Whether the type is left out of the model: one outside the runtime
    /// is; an interface is not; a value type is unless it carries an API
    /// contract attribute; an attribute type is; any other type is not.
    pub open spec fn ignored(&self, reader: &Reader) -> bool {
        let flags = self.flags_of(reader);
        if !flags.is_windows_runtime() {
            true
        } else if flags.is_interface() {
            false
        } else if is_name(self.base_of(reader), ("System", "ValueType")) {
            !self.is_attributed(reader, ("Windows.Foundation.Metadata", "ApiContractAttribute"))
        } else {
            is_name(self.base_of(reader), ("System", "Attribute"))
        }
    }

    /// What `category` needs of the file: the flags, and for a type that is
    /// no interface its base.
    pub open spec fn has_category(&self, reader: &Reader) -> bool {
        &&& reader.has_cell(self.0, 0)
        &&& (!self.flags_of(reader).is_interface() ==> self.has_base(reader))
    }

    /// The kind of the type: an interface by its flag, else told by the
    /// type it extends.
    pub open spec fn category_of(&self, reader: &Reader) -> TypeCategory {
        if self.flags_of(reader).is_interface() {
            TypeCategory::Interface
        } else if is_name(self.base_of(reader), ("System", "Enum")) {
            TypeCategory::Enum
        } else if is_name(self.base_of(reader), ("System", "MulticastDelegate")) {
            TypeCategory::Delegate
        } else if is_name(self.base_of(reader), ("System", "ValueType")) {
            TypeCategory::Struct
        } else {
            TypeCategory::Class
        }
    }

    /// `at` is the position of the first attribute of the type whose type
    /// is named `name`.
    pub open spec fn is_first(&self, reader: &Reader, name: (&str, &str), at: int) -> bool {
        &&& 0 <= at < self.attributes_of(reader).count()
        &&& is_name(Attribute(self.attributes_of(reader).rows()[at]).name_of(reader), name)
        &&& self.none_named(reader, name, at)
    }

    /// The first attribute of the type whose type is named `name`.
    pub open spec fn attribute_of(&self, reader: &Reader, name: (&str, &str)) -> Attribute {
        Attribute(self.attributes_of(reader).rows()[choose|at: int| self.is_first(reader, name, at)])
    }

    pub fn flags(&self, reader: &Reader) -> (r: TypeFlags)
        requires
            reader.wf(),
            reader.has_cell(self.0, 0),
        ensures
            r == self.flags_of(reader),
    {
        TypeFlags(reader.u32(self.0, 0))
    }

    /// Whether namespace and name can be read.
    pub fn name_exists(&self, reader: &Reader) -> (r: bool)
        requires
            reader.wf(),
        ensures
            r == self.has_name(reader),
    {
        reader.text_exists(self.0, 2) && reader.text_exists(self.0, 1)
    }

    /// Whether the type that this one extends can be read.
    pub fn extends_exists(&self, reader: &Reader) -> (r: bool)
        requires
            reader.wf(),
        ensures
            r == self.has_extends(reader),
    {
        reader.cell_exists(self.0, 3) && TypeDefOrRef::is_valid(reader.u32(self.0, 3))
    }

    /// Whether the type that this one extends can be read and has a name.
    pub fn base_exists(&self, reader: &Reader) -> (r: bool)
        requires
            reader.wf(),
        ensures
            r == self.has_base(reader),
    {
        self.extends_exists(reader) && self.extends(reader).name_exists(reader)
    }

    /// Whether the attributes of the type can be looked up and each has a
    /// type with a name.
    pub fn attributes_exist(&self, reader: &Reader) -> (r: bool)
        requires
            reader.wf(),
        ensures
            r == self.has_attributes(reader),
    {
        if !reader.column_exists(self.0.file, TABLE_CUSTOMATTRIBUTE, 0) || self.0.row > 134217726 {
            return false;
        }
        let range = self.attributes(reader);
        let n: u32 = range.len();
        let mut i: u32 = 0;
        while i < n
            invariant
                reader.wf(),
                range == self.attributes_of(reader),
                n == range.count(),
                i <= n,
                forall|j: int|
                    0 <= j < i ==> Attribute(#[trigger] self.attributes_of(reader).rows()[j]).has_name(
                        reader,
                    ),
            decreases n - i,
        {
            if !Attribute(range.get(i)).name_exists(reader) {
                return false;
            }
            i = i + 1;
        }
        true
    }

    /// Whether the file holds what `ignore` needs.
    pub fn can_ignore(&self, reader: &Reader) -> (r: bool)
        requires
            reader.wf(),
        ensures
            r == self.has_ignore(reader),
    {
        if !reader.cell_exists(self.0, 0) {
            return false;
        }
        let flags = self.flags(reader);
        if flags.windows_runtime() && !flags.interface() {
            if !self.base_exists(reader) {
                return false;
            }
            let base = self.extends(reader).name(reader);
            !name_eq(&base, ("System", "ValueType")) || self.attributes_exist(reader)
        } else {
            true
        }
    }

    /// Whether the file holds what `category` needs.
    pub fn can_category(&self, reader: &Reader) -> (r: bool)
        requires
            reader.wf(),
        ensures
            r == self.has_category(reader),
    {
        reader.cell_exists(self.0, 0) && (self.flags(reader).interface() || self.base_exists(reader))
    }

    /// Namespace and name.
    pub fn name(&self, reader: &Reader) -> (r: (Vec<u8>, Vec<u8>))
        requires
            reader.wf(),
            self.has_name(reader),
        ensures
            (r.0@, r.1@) == self.name_of(reader),
    {
        (reader.str(self.0, 2), reader.str(self.0, 1))
    }

    /// The type that this one extends.
    pub fn extends(&self, reader: &Reader) -> (r: TypeDefOrRef)
        requires
            reader.wf(),
            self.has_extends(reader),
        ensures
            r == self.extends_of(reader),
    {
        TypeDefOrRef::decode(reader.u32(self.0, 3), self.0.file)
    }

    /// The fields of the type: rows of the table of fields.
    pub fn fields(&self, reader: &Reader) -> (r: RowRange)
        requires
            reader.wf(),
            reader.has_list(self.0, 4),
        ensures
            r == reader.list_of(self.0, TABLE_FIELD, 4),
    {
        reader.list(self.0, TABLE_FIELD, 4)
    }

    /// The methods of the type: rows of the table of methods.
    pub fn methods(&self, reader: &Reader) -> (r: RowRange)
        requires
            reader.wf(),
            reader.has_list(self.0, 5),
        ensures
            r == reader.list_of(self.0, TABLE_METHODDEF, 5),
    {
        reader.list(self.0, TABLE_METHODDEF, 5)
    }

    /// The generic parameters of the type: rows of the table of generic
    /// parameters, which is looked up by its owner column.
    pub fn generics(&self, reader: &Reader) -> (r: RowRange)
        requires
            reader.wf(),
            reader.has_column(self.0.file as int, TABLE_GENERICPARAM as int, 2),
            self.generic_key() <= u32::MAX,
        ensures
            r == reader.equal_range_of(self.0.file, TABLE_GENERICPARAM, 2, self.generic_key()),
            reader.sorted(self.0.file as int, TABLE_GENERICPARAM as int, 2) ==> forall|i: int|
                0 <= i < reader.rows(self.0.file as int, TABLE_GENERICPARAM as int) ==> (r.first <= i
                    < r.last <==> #[trigger] reader.value(
                    self.0.file as int,
                    TABLE_GENERICPARAM as int,
                    i,
                    2,
                ) == self.generic_key()),
    {
        reader.equal_range(self.0.file, TABLE_GENERICPARAM, 2, TypeOrMethodDef::TypeDef(*self).encode())
    }

    /// The interfaces that the type implements: rows of the table of
    /// implementations, which is looked up by the one-based number of the
    /// implementing type.
    pub fn interfaces(&self, reader: &Reader) -> (r: RowRange)
        requires
            reader.wf(),
            reader.has_column(self.0.file as int, TABLE_INTERFACEIMPL as int, 0),
            self.0.row < u32::MAX,
        ensures
            r == reader.equal_range_of(self.0.file, TABLE_INTERFACEIMPL, 0, self.0.row + 1),
            reader.sorted(self.0.file as int, TABLE_INTERFACEIMPL as int, 0) ==> forall|i: int|
                0 <= i < reader.rows(self.0.file as int, TABLE_INTERFACEIMPL as int) ==> (r.first <= i
                    < r.last <==> #[trigger] reader.value(
                    self.0.file as int,
                    TABLE_INTERFACEIMPL as int,
                    i,
                    0,
                ) == self.0.row + 1),
    {
        reader.equal_range(self.0.file, TABLE_INTERFACEIMPL, 0, self.0.row + 1)
    }

    /// The custom attributes of the type: rows of the table of attributes,
    /// which is looked up by its parent column.
    pub fn attributes(&self, reader: &Reader) -> (r: RowRange)
        requires
            reader.wf(),
            reader.has_column(self.0.file as int, TABLE_CUSTOMATTRIBUTE as int, 0),
            self.attribute_key() <= u32::MAX,
        ensures
            r == self.attributes_of(reader),
            reader.sorted(self.0.file as int, TABLE_CUSTOMATTRIBUTE as int, 0) ==> forall|i: int|
                0 <= i < reader.rows(self.0.file as int, TABLE_CUSTOMATTRIBUTE as int) ==> (r.first
                    <= i < r.last <==> #[trigger] reader.value(
                    self.0.file as int,
                    TABLE_CUSTOMATTRIBUTE as int,
                    i,
                    0,
                ) == self.attribute_key()),
    {
        reader.equal_range(self.0.file, TABLE_CUSTOMATTRIBUTE, 0, HasAttribute::TypeDef(*self).encode())
    }

    /// The position, among the attributes of the type, of the first whose
    /// type is named `name`; their number where there is none.
    fn position(&self, reader: &Reader, name: (&str, &str)) -> (at: u32)
        requires
            reader.wf(),
            self.has_attributes(reader),
        ensures
            at <= self.attributes_of(reader).count(),
            self.none_named(reader, name, at as int),
            at < self.attributes_of(reader).count() ==> is_name(
                Attribute(self.attributes_of(reader).rows()[at as int]).name_of(reader),
                name,
            ),
    {
        let range = self.attributes(reader);
        let n: u32 = range.len();
        let mut i: u32 = 0;
        while i < n
            invariant
                reader.wf(),
                self.has_attributes(reader),
                range == self.attributes_of(reader),
                n == range.count(),
                i <= n,
                self.none_named(reader, name, i as int),
            decreases n - i,
        {
            let attribute = Attribute(range.get(i));
            let found = attribute.name(reader);
            if name_eq(&found, name) {
                return i;
            }
            i = i + 1;
        }
        i
    }

    /// Whether the type has an attribute whose type is named `name`.
    pub fn has_attribute(&self, reader: &Reader, name: (&str, &str)) -> (r: bool)
        requires
            reader.wf(),
            self.has_attributes(reader),
        ensures
            r == self.is_attributed(reader, name),
    {
        let at: u32 = self.position(reader, name);
        let n: u32 = self.attributes(reader).len();
        at < n
    }

    /// The first attribute of the type whose type is named `name`.
    pub fn attribute(&self, reader: &Reader, name: (&str, &str)) -> (r: Attribute)
        requires
            reader.wf(),
            self.has_attributes(reader),
            self.is_attributed(reader, name),
        ensures
            r == self.attribute_of(reader, name),
            self.is_first(reader, name, choose|at: int| self.is_first(reader, name, at)),
    {
        let at: u32 = self.position(reader, name);
        let range = self.attributes(reader);
        proof {
            assert(self.is_first(reader, name, at as int));
            let other = choose|c: int| self.is_first(reader, name, c);
            assert(self.is_first(reader, name, other));
            if other < at {
                assert(!is_name(Attribute(self.attributes_of(reader).rows()[other]).name_of(reader), name));
            }
            if at < other {
                assert(!is_name(
                    Attribute(self.attributes_of(reader).rows()[at as int]).name_of(reader),
                    name,
                ));
            }
        }
        Attribute(range.get(at))
    }

    /// Whether the type is left out of the model.
    pub fn ignore(&self, reader: &Reader) -> (r: bool)
        requires
            reader.wf(),
            self.has_ignore(reader),
        ensures
            r == self.ignored(reader),
    {
        let flags = self.flags(reader);
        if !flags.windows_runtime() {
            true
        } else if flags.interface() {
            false
        } else {
            let base = self.extends(reader).name(reader);
            if name_eq(&base, ("System", "ValueType")) {
                !self.has_attribute(reader, ("Windows.Foundation.Metadata", "ApiContractAttribute"))
            } else {
                name_eq(&base, ("System", "Attribute"))
            }
        }
    }

    /// The kind of a type of the runtime. Of a type outside the runtime
    /// nothing is said.
    pub fn category(&self, reader: &Reader) -> (r: TypeCategory)
        requires
            reader.wf(),
            self.has_category(reader),
            self.flags_of(reader).is_windows_runtime(),
        ensures
            r == self.category_of(reader),
    {
        if self.flags(reader).interface() {
            TypeCategory::Interface
        } else {
            let base = self.extends(reader).name(reader);
            if name_eq(&base, ("System", "Enum")) {
                TypeCategory::Enum
            } else if name_eq(&base, ("System", "MulticastDelegate")) {
                TypeCategory::Delegate
            } else if name_eq(&base, ("System", "ValueType")) {
                TypeCategory::Struct
            } else {
                TypeCategory::Class
            }
        }
    }
}

} // verus!
