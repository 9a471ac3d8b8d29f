//! The view of a row of the table of methods.

use vstd::prelude::*;
use crate::codes::HasAttribute;
use crate::file::{TABLE_CUSTOMATTRIBUTE, TABLE_METHODDEF, TABLE_PARAM, TABLE_TYPEDEF};
use crate::flags::{MethodCategory, MethodFlags};
use crate::reader::Reader;
use crate::row::{Row, RowRange};
use crate::text::{has_prefix, starts_with};
use crate::type_def::TypeDef;

verus! {

/// A method of a type.
#[derive(Copy, Clone, PartialEq, Eq, PartialOrd, Ord, Debug, Structural)]
pub struct MethodDef(pub Row);

/// The category of a method with the given name: told from the start of the
/// name where the name is special, `Normal` otherwise. A special name that
/// starts with none of the four words, such as a delegate's `Invoke`, is
/// `Normal` too.
pub open spec fn method_category(special: bool, name: Seq<u8>) -> MethodCategory {
    if !special {
        MethodCategory::Normal
    } else if has_prefix(name, "get") {
        MethodCategory::Get
    } else if has_prefix(name, "put") {
        MethodCategory::Put
    } else if has_prefix(name, "add") {
        MethodCategory::Add
    } else if has_prefix(name, "remove") {
        MethodCategory::Remove
    } else {
        MethodCategory::Normal
    }
}

impl MethodDef {
    /// The flags that the row holds.
    pub open spec fn flags_of(self, reader: &Reader) -> MethodFlags {
        MethodFlags(reader.cell(self.0, 2) as u32)
    }

    /// The key under which the attributes of this method are filed.
    pub open spec fn attribute_key(self) -> int {
        HasAttribute::MethodDef(self).encoded()
    }

    /// What `category` needs of the file: the flags, and for a method with a
    /// special name the name.
    pub open spec fn has_category(self, reader: &Reader) -> bool {
        &&& reader.has_cell(self.0, 2)
        &&& (self.flags_of(reader).is_special() ==> reader.has_text(self.0, 3))
    }

    pub fn flags(self, reader: &Reader) -> (r: MethodFlags)
        requires
            reader.wf(),
            reader.has_cell(self.0, 2),
        ensures
            r == self.flags_of(reader),
    {
        MethodFlags(reader.u32(self.0, 2))
    }

    /// The search for the owner ends after some type: the method does not
    /// lie before the first type's list of methods.
    pub open spec fn has_parent(self, reader: &Reader) -> bool {
        &&& reader.has_column(self.0.file as int, TABLE_TYPEDEF as int, 5)
        &&& self.0.row < u32::MAX
        &&& reader.upper_bound_of(self.0.file as int, TABLE_TYPEDEF as int, 5, self.0.row + 1) >= 1
    }

    /// The type that owns the method: the last type whose list of methods
    /// starts at or before the method, which is the row before the first
    /// type whose list starts after it.
    pub open spec fn parent_of(self, reader: &Reader) -> TypeDef {
        TypeDef(
            Row {
                file: self.0.file,
                table: TABLE_TYPEDEF,
                row: (reader.upper_bound_of(self.0.file as int, TABLE_TYPEDEF as int, 5, self.0.row + 1)
                    - 1) as u32,
            },
        )
    }

    /// In a table of types in ascending order of the starts of their lists
    /// of methods, the type whose list holds the method is its parent: the
    /// only such type, whether the method is the first or the last of the
    /// list, and whatever types without methods come before.
    pub proof fn lemma_parent_is_owner(self, reader: &Reader, owner: TypeDef)
        requires
            reader.sorted(self.0.file as int, TABLE_TYPEDEF as int, 5),
            owner.0.file == self.0.file,
            owner.0.table == TABLE_TYPEDEF,
            reader.has_list(owner.0, 5),
            reader.list_of(owner.0, TABLE_METHODDEF, 5).first <= self.0.row < reader.list_of(
                owner.0,
                TABLE_METHODDEF,
                5,
            ).last,
        ensures
            self.has_parent(reader),
            self.parent_of(reader) == owner,
    {
        let file = self.0.file as int;
        let types = TABLE_TYPEDEF as int;
        let at = owner.0.row as int;
        reader.lemma_upper_bound_of(file, types, 5, self.0.row + 1);
        assert(reader.value(file, types, at, 5) <= self.0.row + 1);
        if at + 1 < reader.rows(file, types) {
            assert(reader.has_row(Reader::next(owner.0)));
            assert(reader.value(file, types, at + 1, 5) > self.0.row + 1);
        }
    }

    /// Whether the search for the owner ends after some type.
    pub fn parent_exists(self, reader: &Reader) -> (r: bool)
        requires
            reader.wf(),
        ensures
            r == self.has_parent(reader),
    {
        reader.column_exists(self.0.file, TABLE_TYPEDEF, 5) && self.0.row < u32::MAX
            && reader.upper_bound(self.0.file, TABLE_TYPEDEF, 5, self.0.row + 1).row >= 1
    }

    /// The type that owns the method. In a table of types in ascending
    /// order of the starts of their lists of methods, the list of the type
    /// that comes back holds the method.
    pub fn parent(self, reader: &Reader) -> (r: TypeDef)
        requires
            reader.wf(),
            self.has_parent(reader),
        ensures
            r == self.parent_of(reader),
            r.0.row < reader.rows(self.0.file as int, TABLE_TYPEDEF as int),
            reader.sorted(self.0.file as int, TABLE_TYPEDEF as int, 5) && reader.cell(r.0, 5) >= 1
                && self.0.row < reader.rows(self.0.file as int, TABLE_METHODDEF as int)
                ==> reader.list_of(r.0, TABLE_METHODDEF, 5).first <= self.0.row < reader.list_of(
                r.0,
                TABLE_METHODDEF,
                5,
            ).last,
    {
        let after = reader.upper_bound(self.0.file, TABLE_TYPEDEF, 5, self.0.row + 1);
        let r = TypeDef(Row { file: self.0.file, table: TABLE_TYPEDEF, row: after.row - 1 });
        proof {
            let file = self.0.file as int;
            let types = TABLE_TYPEDEF as int;
            if reader.sorted(file, types, 5) {
                reader.lemma_upper_bound_of(file, types, 5, self.0.row + 1);
                assert(reader.value(file, types, r.0.row as int, 5) <= self.0.row + 1);
                if after.row < reader.rows(file, types) {
                    assert(reader.has_row(Reader::next(r.0)));
                    assert(reader.value(file, types, after.row as int, 5) > self.0.row + 1);
                }
            }
        }
        r
    }

    /// The parameters of the method: rows of the table of parameters.
    pub fn params(self, reader: &Reader) -> (r: RowRange)
        requires
            reader.wf(),
            reader.has_list(self.0, 5),
        ensures
            r == reader.list_of(self.0, TABLE_PARAM, 5),
    {
        reader.list(self.0, TABLE_PARAM, 5)
    }

    pub fn name(self, reader: &Reader) -> (r: Vec<u8>)
        requires
            reader.wf(),
            reader.has_text(self.0, 3),
        ensures
            r@ == reader.text(self.0, 3),
    {
        reader.str(self.0, 3)
    }

    /// The signature of the method, as the blob heap holds it.
    pub fn sig(self, reader: &Reader) -> (r: Vec<u8>)
        requires
            reader.wf(),
            reader.has_blob(self.0, 4),
        ensures
            r@ == reader.blob_bytes(self.0, 4),
    {
        reader.blob(self.0, 4)
    }

    /// Whether the file holds what `category` needs.
    pub fn can_category(self, reader: &Reader) -> (r: bool)
        requires
            reader.wf(),
        ensures
            r == self.has_category(reader),
    {
        reader.cell_exists(self.0, 2) && (!self.flags(reader).special() || reader.text_exists(self.0, 3))
    }

    pub fn category(self, reader: &Reader) -> (r: MethodCategory)
        requires
            reader.wf(),
            self.has_category(reader),
        ensures
            r == method_category(self.flags_of(reader).is_special(), reader.text(self.0, 3)),
    {
        if self.flags(reader).special() {
            let name = self.name(reader);
            if starts_with(&name, "get") {
                MethodCategory::Get
            } else if starts_with(&name, "put") {
                MethodCategory::Put
            } else if starts_with(&name, "add") {
                MethodCategory::Add
            } else if starts_with(&name, "remove") {
                MethodCategory::Remove
            } else {
                MethodCategory::Normal
            }
        } else {
            MethodCategory::Normal
        }
    }

    /// The custom attributes of the method: rows of the table of attributes,
    /// which is looked up by its parent column.
    pub fn attributes(self, reader: &Reader) -> (r: RowRange)
        requires
            reader.wf(),
            reader.has_column(self.0.file as int, TABLE_CUSTOMATTRIBUTE as int, 0),
            self.attribute_key() <= u32::MAX,
        ensures
            r == reader.equal_range_of(self.0.file, TABLE_CUSTOMATTRIBUTE, 0, self.attribute_key()),
            reader.sorted(self.0.file as int, TABLE_CUSTOMATTRIBUTE as int, 0) ==> forall|i: int|
                0 <= i < reader.rows(self.0.file as int, TABLE_CUSTOMATTRIBUTE as int) ==> (r.first
                    <= i < r.last <==> #[trigger] reader.value(
                    self.0.file as int,
                    TABLE_CUSTOMATTRIBUTE as int,
                    i,
                    0,
                ) == self.attribute_key()),
    {
        reader.equal_range(self.0.file, TABLE_CUSTOMATTRIBUTE, 0, HasAttribute::MethodDef(self).encode())
    }
}

} // verus!
