//! Coded indexes: a reference whose low bits choose one of several tables
//! and whose other bits are a one-based row number in that table.

use vstd::prelude::*;
use crate::file::{
    TABLE_FIELD, TABLE_GENERICPARAM, TABLE_INTERFACEIMPL, TABLE_MEMBERREF, TABLE_METHODDEF,
    TABLE_PARAM, TABLE_TYPEDEF, TABLE_TYPEREF, TABLE_TYPESPEC,
};
use crate::method_def::MethodDef;
use crate::row::Row;
use crate::tables::{Field, GenericParam, InterfaceImpl, MemberRef, Param, TypeRef, TypeSpec};
use crate::type_def::TypeDef;

verus! {

/// The row that a coded index names: the bits above the tag, less one.
pub open spec fn coded_row(code: u32, span: int, file: u16, table: u16) -> Row {
    Row { file, table, row: (code / (span as u32) - 1) as u32 }
}

/// Taking the tag as a remainder and the row number as a quotient is
/// taking the low bits and shifting them out.
pub proof fn lemma_tag_bits(code: u32)
    ensures
        code % 2 == code & 1,
        code / 2 == code >> 1,
        code % 4 == code & 3,
        code / 4 == code >> 2,
        code % 8 == code & 7,
        code / 8 == code >> 3,
        code % 32 == code & 31,
        code / 32 == code >> 5,
{
    assert(code % 2 == code & 1) by (bit_vector);
    assert(code / 2 == code >> 1) by (bit_vector);
    assert(code % 4 == code & 3) by (bit_vector);
    assert(code / 4 == code >> 2) by (bit_vector);
    assert(code % 8 == code & 7) by (bit_vector);
    assert(code / 8 == code >> 3) by (bit_vector);
    assert(code % 32 == code & 31) by (bit_vector);
    assert(code / 32 == code >> 5) by (bit_vector);
}

/// The coded index of `row` under `tag`, where the tag takes `span` values.
pub open spec fn coded(row: Row, span: int, tag: int) -> int {
    (row.row + 1) * span + tag
}

/// What a type extends or implements: a definition, a reference to one, or an
/// instantiation of a generic one. The tag takes 2 bits.
#[derive(Copy, Clone, PartialEq, Eq, Debug, Structural)]
pub enum TypeDefOrRef {
    TypeDef(TypeDef),
    TypeRef(TypeRef),
    TypeSpec(TypeSpec),
}

impl TypeDefOrRef {
    /// The row that the reference names.
    pub open spec fn row(&self) -> Row {
        match *self {
            TypeDefOrRef::TypeDef(value) => value.0,
            TypeDefOrRef::TypeRef(value) => value.0,
            TypeDefOrRef::TypeSpec(value) => value.0,
        }
    }

    /// The tag that chooses the table.
    pub open spec fn tag(&self) -> int {
        match *self {
            TypeDefOrRef::TypeDef(_) => 0,
            TypeDefOrRef::TypeRef(_) => 1,
            TypeDefOrRef::TypeSpec(_) => 2,
        }
    }

    /// The table that the reference points into.
    pub open spec fn table(&self) -> u16 {
        match *self {
            TypeDefOrRef::TypeDef(_) => TABLE_TYPEDEF,
            TypeDefOrRef::TypeRef(_) => TABLE_TYPEREF,
            TypeDefOrRef::TypeSpec(_) => TABLE_TYPESPEC,
        }
    }

    /// `code` names a row of one of the candidate tables.
    pub open spec fn valid(code: u32) -> bool {
        code / 4 >= 1 && (code % 4 == 0 || code % 4 == 1 || code % 4 == 2)
    }

    /// What `code`, read in file `file`, refers to.
    pub open spec fn decoded(code: u32, file: u16) -> Self {
        if code % 4 == 0 {
            TypeDefOrRef::TypeDef(TypeDef(coded_row(code, 4, file, TABLE_TYPEDEF)))
        } else if code % 4 == 1 {
            TypeDefOrRef::TypeRef(TypeRef(coded_row(code, 4, file, TABLE_TYPEREF)))
        } else {
            TypeDefOrRef::TypeSpec(TypeSpec(coded_row(code, 4, file, TABLE_TYPESPEC)))
        }
    }

    /// The number that stands for the reference.
    pub open spec fn encoded(&self) -> int {
        coded(self.row(), 4, self.tag())
    }

    /// Whether `code` names a row of one of the candidate tables.
    pub fn is_valid(code: u32) -> (r: bool)
        ensures
            r == Self::valid(code),
    {
        code / 4 >= 1 && (code % 4 == 0 || code % 4 == 1 || code % 4 == 2)
    }

    /// Turns a number read from a cell into the reference it stands for.
    pub fn decode(code: u32, file: u16) -> (r: Self)
        requires
            Self::valid(code),
        ensures
            r == Self::decoded(code, file),
            r.row().file == file,
    {
        let row: u32 = code / 4 - 1;
        let tag: u32 = code % 4;
        if tag == 0 {
            TypeDefOrRef::TypeDef(TypeDef(Row { file, table: TABLE_TYPEDEF, row }))
        } else if tag == 1 {
            TypeDefOrRef::TypeRef(TypeRef(Row { file, table: TABLE_TYPEREF, row }))
        } else {
            TypeDefOrRef::TypeSpec(TypeSpec(Row { file, table: TABLE_TYPESPEC, row }))
        }
    }

    /// The number that stands for the reference.
    pub fn encode(&self) -> (code: u32)
        requires
            self.encoded() <= u32::MAX,
        ensures
            code == self.encoded(),
    {
        match *self {
            TypeDefOrRef::TypeDef(value) => (value.0.row + 1) * 4,
            TypeDefOrRef::TypeRef(value) => (value.0.row + 1) * 4 + 1,
            TypeDefOrRef::TypeSpec(value) => (value.0.row + 1) * 4 + 2,
        }
    }

    /// Encoding a reference into its own table and decoding the outcome
    /// gives the reference back.
    pub proof fn lemma_decode_encode(value: Self)
        requires
            value.encoded() <= u32::MAX,
            value.row().table == value.table(),
        ensures
            Self::valid(value.encoded() as u32),
            Self::decoded(value.encoded() as u32, value.row().file) == value,
    {
    }

    /// Decoding a valid number and encoding the outcome gives the number back.
    pub proof fn lemma_encode_decode(code: u32, file: u16)
        requires
            Self::valid(code),
        ensures
            Self::decoded(code, file).encoded() == code,
    {
    }
}

/// The owner of a generic parameter. The tag takes 1 bit.
#[derive(Copy, Clone, PartialEq, Eq, Debug, Structural)]
pub enum TypeOrMethodDef {
    TypeDef(TypeDef),
    MethodDef(MethodDef),
}

impl TypeOrMethodDef {
    /// The row that the reference names.
    pub open spec fn row(&self) -> Row {
        match *self {
            TypeOrMethodDef::TypeDef(value) => value.0,
            TypeOrMethodDef::MethodDef(value) => value.0,
        }
    }

    /// The tag that chooses the table.
    pub open spec fn tag(&self) -> int {
        match *self {
            TypeOrMethodDef::TypeDef(_) => 0,
            TypeOrMethodDef::MethodDef(_) => 1,
        }
    }

    /// The table that the reference points into.
    pub open spec fn table(&self) -> u16 {
        match *self {
            TypeOrMethodDef::TypeDef(_) => TABLE_TYPEDEF,
            TypeOrMethodDef::MethodDef(_) => TABLE_METHODDEF,
        }
    }

    /// `code` names a row of one of the candidate tables.
    pub open spec fn valid(code: u32) -> bool {
        code / 2 >= 1 && (code % 2 == 0 || code % 2 == 1)
    }

    /// What `code`, read in file `file`, refers to.
    pub open spec fn decoded(code: u32, file: u16) -> Self {
        if code % 2 == 0 {
            TypeOrMethodDef::TypeDef(TypeDef(coded_row(code, 2, file, TABLE_TYPEDEF)))
        } else {
            TypeOrMethodDef::MethodDef(MethodDef(coded_row(code, 2, file, TABLE_METHODDEF)))
        }
    }

    /// The number that stands for the reference.
    pub open spec fn encoded(&self) -> int {
        coded(self.row(), 2, self.tag())
    }

    /// Whether `code` names a row of one of the candidate tables.
    pub fn is_valid(code: u32) -> (r: bool)
        ensures
            r == Self::valid(code),
    {
        code / 2 >= 1 && (code % 2 == 0 || code % 2 == 1)
    }

    /// Turns a number read from a cell into the reference it stands for.
    pub fn decode(code: u32, file: u16) -> (r: Self)
        requires
            Self::valid(code),
        ensures
            r == Self::decoded(code, file),
            r.row().file == file,
    {
        let row: u32 = code / 2 - 1;
        let tag: u32 = code % 2;
        if tag == 0 {
            TypeOrMethodDef::TypeDef(TypeDef(Row { file, table: TABLE_TYPEDEF, row }))
        } else {
            TypeOrMethodDef::MethodDef(MethodDef(Row { file, table: TABLE_METHODDEF, row }))
        }
    }

    /// The number that stands for the reference.
    pub fn encode(&self) -> (code: u32)
        requires
            self.encoded() <= u32::MAX,
        ensures
            code == self.encoded(),
    {
        match *self {
            TypeOrMethodDef::TypeDef(value) => (value.0.row + 1) * 2,
            TypeOrMethodDef::MethodDef(value) => (value.0.row + 1) * 2 + 1,
        }
    }

    /// Encoding a reference into its own table and decoding the outcome
    /// gives the reference back.
    pub proof fn lemma_decode_encode(value: Self)
        requires
            value.encoded() <= u32::MAX,
            value.row().table == value.table(),
        ensures
            Self::valid(value.encoded() as u32),
            Self::decoded(value.encoded() as u32, value.row().file) == value,
    {
    }

    /// Decoding a valid number and encoding the outcome gives the number back.
    pub proof fn lemma_encode_decode(code: u32, file: u16)
        requires
            Self::valid(code),
        ensures
            Self::decoded(code, file).encoded() == code,
    {
    }
}

/// What a custom attribute is attached to. The tag takes 5 bits.
#[derive(Copy, Clone, PartialEq, Eq, Debug, Structural)]
pub enum HasAttribute {
    MethodDef(MethodDef),
    Field(Field),
    TypeRef(TypeRef),
    TypeDef(TypeDef),
    Param(Param),
    InterfaceImpl(InterfaceImpl),
    MemberRef(MemberRef),
    TypeSpec(TypeSpec),
    GenericParam(GenericParam),
}

impl HasAttribute {
    /// The row that the reference names.
    pub open spec fn row(&self) -> Row {
        match *self {
            HasAttribute::MethodDef(value) => value.0,
            HasAttribute::Field(value) => value.0,
            HasAttribute::TypeRef(value) => value.0,
            HasAttribute::TypeDef(value) => value.0,
            HasAttribute::Param(value) => value.0,
            HasAttribute::InterfaceImpl(value) => value.0,
            HasAttribute::MemberRef(value) => value.0,
            HasAttribute::TypeSpec(value) => value.0,
            HasAttribute::GenericParam(value) => value.0,
        }
    }

    /// The tag that chooses the table.
    pub open spec fn tag(&self) -> int {
        match *self {
            HasAttribute::MethodDef(_) => 0,
            HasAttribute::Field(_) => 1,
            HasAttribute::TypeRef(_) => 2,
            HasAttribute::TypeDef(_) => 3,
            HasAttribute::Param(_) => 4,
            HasAttribute::InterfaceImpl(_) => 5,
            HasAttribute::MemberRef(_) => 6,
            HasAttribute::TypeSpec(_) => 13,
            HasAttribute::GenericParam(_) => 19,
        }
    }

    /// The table that the reference points into.
    pub open spec fn table(&self) -> u16 {
        match *self {
            HasAttribute::MethodDef(_) => TABLE_METHODDEF,
            HasAttribute::Field(_) => TABLE_FIELD,
            HasAttribute::TypeRef(_) => TABLE_TYPEREF,
            HasAttribute::TypeDef(_) => TABLE_TYPEDEF,
            HasAttribute::Param(_) => TABLE_PARAM,
            HasAttribute::InterfaceImpl(_) => TABLE_INTERFACEIMPL,
            HasAttribute::MemberRef(_) => TABLE_MEMBERREF,
            HasAttribute::TypeSpec(_) => TABLE_TYPESPEC,
            HasAttribute::GenericParam(_) => TABLE_GENERICPARAM,
        }
    }

    /// `code` names a row of one of the candidate tables.
    pub open spec fn valid(code: u32) -> bool {
        code / 32 >= 1 && (code % 32 == 0 || code % 32 == 1 || code % 32 == 2 || code % 32 == 3 || code % 32 == 4 || code % 32 == 5 || code % 32 == 6 || code % 32 == 13 || code % 32 == 19)
    }

    /// What `code`, read in file `file`, refers to.
    pub open spec fn decoded(code: u32, file: u16) -> Self {
        if code % 32 == 0 {
            HasAttribute::MethodDef(MethodDef(coded_row(code, 32, file, TABLE_METHODDEF)))
        } else if code % 32 == 1 {
            HasAttribute::Field(Field(coded_row(code, 32, file, TABLE_FIELD)))
        } else if code % 32 == 2 {
            HasAttribute::TypeRef(TypeRef(coded_row(code, 32, file, TABLE_TYPEREF)))
        } else if code % 32 == 3 {
            HasAttribute::TypeDef(TypeDef(coded_row(code, 32, file, TABLE_TYPEDEF)))
        } else if code % 32 == 4 {
            HasAttribute::Param(Param(coded_row(code, 32, file, TABLE_PARAM)))
        } else if code % 32 == 5 {
            HasAttribute::InterfaceImpl(InterfaceImpl(coded_row(code, 32, file, TABLE_INTERFACEIMPL)))
        } else if code % 32 == 6 {
            HasAttribute::MemberRef(MemberRef(coded_row(code, 32, file, TABLE_MEMBERREF)))
        } else if code % 32 == 13 {
            HasAttribute::TypeSpec(TypeSpec(coded_row(code, 32, file, TABLE_TYPESPEC)))
        } else {
            HasAttribute::GenericParam(GenericParam(coded_row(code, 32, file, TABLE_GENERICPARAM)))
        }
    }

    /// The number that stands for the reference.
    pub open spec fn encoded(&self) -> int {
        coded(self.row(), 32, self.tag())
    }

    /// Whether `code` names a row of one of the candidate tables.
    pub fn is_valid(code: u32) -> (r: bool)
        ensures
            r == Self::valid(code),
    {
        code / 32 >= 1 && (code % 32 == 0 || code % 32 == 1 || code % 32 == 2 || code % 32 == 3 || code % 32 == 4 || code % 32 == 5 || code % 32 == 6 || code % 32 == 13 || code % 32 == 19)
    }

    /// Turns a number read from a cell into the reference it stands for.
    pub fn decode(code: u32, file: u16) -> (r: Self)
        requires
            Self::valid(code),
        ensures
            r == Self::decoded(code, file),
            r.row().file == file,
    {
        let row: u32 = code / 32 - 1;
        let tag: u32 = code % 32;
        if tag == 0 {
            HasAttribute::MethodDef(MethodDef(Row { file, table: TABLE_METHODDEF, row }))
        } else if tag == 1 {
            HasAttribute::Field(Field(Row { file, table: TABLE_FIELD, row }))
        } else if tag == 2 {
            HasAttribute::TypeRef(TypeRef(Row { file, table: TABLE_TYPEREF, row }))
        } else if tag == 3 {
            HasAttribute::TypeDef(TypeDef(Row { file, table: TABLE_TYPEDEF, row }))
        } else if tag == 4 {
            HasAttribute::Param(Param(Row { file, table: TABLE_PARAM, row }))
        } else if tag == 5 {
            HasAttribute::InterfaceImpl(InterfaceImpl(Row { file, table: TABLE_INTERFACEIMPL, row }))
        } else if tag == 6 {
            HasAttribute::MemberRef(MemberRef(Row { file, table: TABLE_MEMBERREF, row }))
        } else if tag == 13 {
            HasAttribute::TypeSpec(TypeSpec(Row { file, table: TABLE_TYPESPEC, row }))
        } else {
            HasAttribute::GenericParam(GenericParam(Row { file, table: TABLE_GENERICPARAM, row }))
        }
    }

    /// The number that stands for the reference.
    pub fn encode(&self) -> (code: u32)
        requires
            self.encoded() <= u32::MAX,
        ensures
            code == self.encoded(),
    {
        match *self {
            HasAttribute::MethodDef(value) => (value.0.row + 1) * 32,
            HasAttribute::Field(value) => (value.0.row + 1) * 32 + 1,
            HasAttribute::TypeRef(value) => (value.0.row + 1) * 32 + 2,
            HasAttribute::TypeDef(value) => (value.0.row + 1) * 32 + 3,
            HasAttribute::Param(value) => (value.0.row + 1) * 32 + 4,
            HasAttribute::InterfaceImpl(value) => (value.0.row + 1) * 32 + 5,
            HasAttribute::MemberRef(value) => (value.0.row + 1) * 32 + 6,
            HasAttribute::TypeSpec(value) => (value.0.row + 1) * 32 + 13,
            HasAttribute::GenericParam(value) => (value.0.row + 1) * 32 + 19,
        }
    }

    /// Encoding a reference into its own table and decoding the outcome
    /// gives the reference back.
    pub proof fn lemma_decode_encode(value: Self)
        requires
            value.encoded() <= u32::MAX,
            value.row().table == value.table(),
        ensures
            Self::valid(value.encoded() as u32),
            Self::decoded(value.encoded() as u32, value.row().file) == value,
    {
    }

    /// Decoding a valid number and encoding the outcome gives the number back.
    pub proof fn lemma_encode_decode(code: u32, file: u16)
        requires
            Self::valid(code),
        ensures
            Self::decoded(code, file).encoded() == code,
    {
    }
}

/// The type or method that a member reference belongs to. The tag takes 3 bits.
#[derive(Copy, Clone, PartialEq, Eq, Debug, Structural)]
pub enum MemberRefParent {
    TypeDef(TypeDef),
    TypeRef(TypeRef),
    MethodDef(MethodDef),
    TypeSpec(TypeSpec),
}

impl MemberRefParent {
    /// The row that the reference names.
    pub open spec fn row(&self) -> Row {
        match *self {
            MemberRefParent::TypeDef(value) => value.0,
            MemberRefParent::TypeRef(value) => value.0,
            MemberRefParent::MethodDef(value) => value.0,
            MemberRefParent::TypeSpec(value) => value.0,
        }
    }

    /// The tag that chooses the table.
    pub open spec fn tag(&self) -> int {
        match *self {
            MemberRefParent::TypeDef(_) => 0,
            MemberRefParent::TypeRef(_) => 1,
            MemberRefParent::MethodDef(_) => 3,
            MemberRefParent::TypeSpec(_) => 4,
        }
    }

    /// The table that the reference points into.
    pub open spec fn table(&self) -> u16 {
        match *self {
            MemberRefParent::TypeDef(_) => TABLE_TYPEDEF,
            MemberRefParent::TypeRef(_) => TABLE_TYPEREF,
            MemberRefParent::MethodDef(_) => TABLE_METHODDEF,
            MemberRefParent::TypeSpec(_) => TABLE_TYPESPEC,
        }
    }

    /// `code` names a row of one of the candidate tables.
    pub open spec fn valid(code: u32) -> bool {
        code / 8 >= 1 && (code % 8 == 0 || code % 8 == 1 || code % 8 == 3 || code % 8 == 4)
    }

    /// What `code`, read in file `file`, refers to.
    pub open spec fn decoded(code: u32, file: u16) -> Self {
        if code % 8 == 0 {
            MemberRefParent::TypeDef(TypeDef(coded_row(code, 8, file, TABLE_TYPEDEF)))
        } else if code % 8 == 1 {
            MemberRefParent::TypeRef(TypeRef(coded_row(code, 8, file, TABLE_TYPEREF)))
        } else if code % 8 == 3 {
            MemberRefParent::MethodDef(MethodDef(coded_row(code, 8, file, TABLE_METHODDEF)))
        } else {
            MemberRefParent::TypeSpec(TypeSpec(coded_row(code, 8, file, TABLE_TYPESPEC)))
        }
    }

    /// The number that stands for the reference.
    pub open spec fn encoded(&self) -> int {
        coded(self.row(), 8, self.tag())
    }

    /// Whether `code` names a row of one of the candidate tables.
    pub fn is_valid(code: u32) -> (r: bool)
        ensures
            r == Self::valid(code),
    {
        code / 8 >= 1 && (code % 8 == 0 || code % 8 == 1 || code % 8 == 3 || code % 8 == 4)
    }

    /// Turns a number read from a cell into the reference it stands for.
    pub fn decode(code: u32, file: u16) -> (r: Self)
        requires
            Self::valid(code),
        ensures
            r == Self::decoded(code, file),
            r.row().file == file,
    {
        let row: u32 = code / 8 - 1;
        let tag: u32 = code % 8;
        if tag == 0 {
            MemberRefParent::TypeDef(TypeDef(Row { file, table: TABLE_TYPEDEF, row }))
        } else if tag == 1 {
            MemberRefParent::TypeRef(TypeRef(Row { file, table: TABLE_TYPEREF, row }))
        } else if tag == 3 {
            MemberRefParent::MethodDef(MethodDef(Row { file, table: TABLE_METHODDEF, row }))
        } else {
            MemberRefParent::TypeSpec(TypeSpec(Row { file, table: TABLE_TYPESPEC, row }))
        }
    }

    /// The number that stands for the reference.
    pub fn encode(&self) -> (code: u32)
        requires
            self.encoded() <= u32::MAX,
        ensures
            code == self.encoded(),
    {
        match *self {
            MemberRefParent::TypeDef(value) => (value.0.row + 1) * 8,
            MemberRefParent::TypeRef(value) => (value.0.row + 1) * 8 + 1,
            MemberRefParent::MethodDef(value) => (value.0.row + 1) * 8 + 3,
            MemberRefParent::TypeSpec(value) => (value.0.row + 1) * 8 + 4,
        }
    }

    /// Encoding a reference into its own table and decoding the outcome
    /// gives the reference back.
    pub proof fn lemma_decode_encode(value: Self)
        requires
            value.encoded() <= u32::MAX,
            value.row().table == value.table(),
        ensures
            Self::valid(value.encoded() as u32),
            Self::decoded(value.encoded() as u32, value.row().file) == value,
    {
    }

    /// Decoding a valid number and encoding the outcome gives the number back.
    pub proof fn lemma_encode_decode(code: u32, file: u16)
        requires
            Self::valid(code),
        ensures
            Self::decoded(code, file).encoded() == code,
    {
    }
}

/// The constructor of a custom attribute. The tag takes 3 bits.
#[derive(Copy, Clone, PartialEq, Eq, Debug, Structural)]
pub enum AttributeType {
    MethodDef(MethodDef),
    MemberRef(MemberRef),
}

impl AttributeType {
    /// The row that the reference names.
    pub open spec fn row(&self) -> Row {
        match *self {
            AttributeType::MethodDef(value) => value.0,
            AttributeType::MemberRef(value) => value.0,
        }
    }

    /// The tag that chooses the table.
    pub open spec fn tag(&self) -> int {
        match *self {
            AttributeType::MethodDef(_) => 2,
            AttributeType::MemberRef(_) => 3,
        }
    }

    /// The table that the reference points into.
    pub open spec fn table(&self) -> u16 {
        match *self {
            AttributeType::MethodDef(_) => TABLE_METHODDEF,
            AttributeType::MemberRef(_) => TABLE_MEMBERREF,
        }
    }

    /// `code` names a row of one of the candidate tables.
    pub open spec fn valid(code: u32) -> bool {
        code / 8 >= 1 && (code % 8 == 2 || code % 8 == 3)
    }

    /// What `code`, read in file `file`, refers to.
    pub open spec fn decoded(code: u32, file: u16) -> Self {
        if code % 8 == 2 {
            AttributeType::MethodDef(MethodDef(coded_row(code, 8, file, TABLE_METHODDEF)))
        } else {
            AttributeType::MemberRef(MemberRef(coded_row(code, 8, file, TABLE_MEMBERREF)))
        }
    }

    /// The number that stands for the reference.
    pub open spec fn encoded(&self) -> int {
        coded(self.row(), 8, self.tag())
    }

    /// Whether `code` names a row of one of the candidate tables.
    pub fn is_valid(code: u32) -> (r: bool)
        ensures
            r == Self::valid(code),
    {
        code / 8 >= 1 && (code % 8 == 2 || code % 8 == 3)
    }

    /// Turns a number read from a cell into the reference it stands for.
    pub fn decode(code: u32, file: u16) -> (r: Self)
        requires
            Self::valid(code),
        ensures
            r == Self::decoded(code, file),
            r.row().file == file,
    {
        let row: u32 = code / 8 - 1;
        let tag: u32 = code % 8;
        if tag == 2 {
            AttributeType::MethodDef(MethodDef(Row { file, table: TABLE_METHODDEF, row }))
        } else {
            AttributeType::MemberRef(MemberRef(Row { file, table: TABLE_MEMBERREF, row }))
        }
    }

    /// The number that stands for the reference.
    pub fn encode(&self) -> (code: u32)
        requires
            self.encoded() <= u32::MAX,
        ensures
            code == self.encoded(),
    {
        match *self {
            AttributeType::MethodDef(value) => (value.0.row + 1) * 8 + 2,
            AttributeType::MemberRef(value) => (value.0.row + 1) * 8 + 3,
        }
    }

    /// Encoding a reference into its own table and decoding the outcome
    /// gives the reference back.
    pub proof fn lemma_decode_encode(value: Self)
        requires
            value.encoded() <= u32::MAX,
            value.row().table == value.table(),
        ensures
            Self::valid(value.encoded() as u32),
            Self::decoded(value.encoded() as u32, value.row().file) == value,
    {
    }

    /// Decoding a valid number and encoding the outcome gives the number back.
    pub proof fn lemma_encode_decode(code: u32, file: u16)
        requires
            Self::valid(code),
        ensures
            Self::decoded(code, file).encoded() == code,
    {
    }
}

} // verus!
