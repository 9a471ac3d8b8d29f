//! Flag words of types and methods, and the categories derived from them.

use vstd::prelude::*;

verus! {

/// The flags of a method.
#[derive(Copy, Clone, PartialEq, Eq, Debug, Structural)]
pub struct MethodFlags(pub u32);

/// The flags of a type.
#[derive(Copy, Clone, PartialEq, Eq, Debug, Structural)]
pub struct TypeFlags(pub u32);

/// What a method is to its type. Told from the method's name, by
/// convention: an approximation, not a fact the file records.
#[derive(Copy, Clone, PartialEq, Eq, Debug, Structural)]
pub enum MethodCategory {
    Normal,
    /// The getter of a property.
    Get,
    /// The setter of a property.
    Put,
    Add,
    Remove,
}

/// The kind of a type.
#[derive(Copy, Clone, PartialEq, Eq, Debug, Structural)]
pub enum TypeCategory {
    Interface,
    Enum,
    Delegate,
    Struct,
    Class,
}

impl MethodFlags {
    /// The method has a special name.
    pub open spec fn is_special(&self) -> bool {
        self.0 & 0x800 != 0
    }

    pub fn special(&self) -> (r: bool)
        ensures
            r == self.is_special(),
    {
        self.0 & 0x800 != 0
    }
}

impl TypeFlags {
    /// The type takes part in the projected type system.
    pub open spec fn is_windows_runtime(&self) -> bool {
        self.0 & 0x4000 != 0
    }

    /// The type is an interface.
    pub open spec fn is_interface(&self) -> bool {
        self.0 & 0x20 != 0
    }

    pub fn windows_runtime(&self) -> (r: bool)
        ensures
            r == self.is_windows_runtime(),
    {
        self.0 & 0x4000 != 0
    }

    pub fn interface(&self) -> (r: bool)
        ensures
            r == self.is_interface(),
    {
        self.0 & 0x20 != 0
    }
}

} // verus!
