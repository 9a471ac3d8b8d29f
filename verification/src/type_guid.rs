//! The identifier of an interface, as the constants it is written with.

use vstd::prelude::*;

verus! {

/// One constant of an identifier.
#[derive(Copy, Clone, PartialEq, Eq, Debug, Structural)]
pub enum GuidConstant {
    U32(u32),
    U16(u16),
    U8(u8),
}

/// An identifier of sixteen bytes in eleven constants: one of four bytes,
/// two of two bytes and eight of one. The value with every constant a zero
/// byte stands for an identifier that was not computed, never for the
/// identifier zero.
#[derive(Clone, PartialEq, Eq, Debug)]
pub struct TypeGuid(pub [GuidConstant; 11]);

impl Default for GuidConstant {
    fn default() -> (r: Self)
        ensures
            r == GuidConstant::U8(0),
    {
        GuidConstant::U8(0)
    }
}

impl Default for TypeGuid {
    fn default() -> (r: Self)
        ensures
            r.0@ == TypeGuid::empty(),
    {
        TypeGuid::new()
    }
}

impl TypeGuid {
    /// The constants of the identifier that was not computed.
    pub open spec fn empty() -> Seq<GuidConstant> {
        Seq::new(11, |i: int| GuidConstant::U8(0))
    }

    /// The attribute value holds the sixteen bytes after its two leading ones.
    pub open spec fn has_args(args: Seq<u8>) -> bool {
        args.len() >= 18
    }

    /// The constants that an attribute value holds: after two leading
    /// bytes, little-endian numbers of four, two and two bytes, then eight
    /// single bytes.
    pub open spec fn of_args(args: Seq<u8>) -> Seq<GuidConstant> {
        seq![
            GuidConstant::U32(
                (args[2] as int + 256 * (args[3] as int) + 65536 * (args[4] as int) + 16777216 * (args[5] as int)) as u32,
            ),
            GuidConstant::U16((args[6] as int + 256 * (args[7] as int)) as u16),
            GuidConstant::U16((args[8] as int + 256 * (args[9] as int)) as u16),
            GuidConstant::U8(args[10]),
            GuidConstant::U8(args[11]),
            GuidConstant::U8(args[12]),
            GuidConstant::U8(args[13]),
            GuidConstant::U8(args[14]),
            GuidConstant::U8(args[15]),
            GuidConstant::U8(args[16]),
            GuidConstant::U8(args[17]),
        ]
    }

    /// The identifier that was not computed.
    pub fn new() -> (r: TypeGuid)
        ensures
            r.0@ == TypeGuid::empty(),
    {
        let zero = GuidConstant::U8(0);
        let r = TypeGuid([zero, zero, zero, zero, zero, zero, zero, zero, zero, zero, zero]);
        assert(r.0@ =~= TypeGuid::empty());
        r
    }

    /// The identifier that the value of a `GuidAttribute` holds.
    pub fn from_args(args: &Vec<u8>) -> (r: TypeGuid)
        requires
            TypeGuid::has_args(args@),
        ensures
            r.0@ == TypeGuid::of_args(args@),
    {
        let a: u32 = args[2] as u32 + 256 * (args[3] as u32) + 65536 * (args[4] as u32) + 16777216 * (
        args[5] as u32);
        let b: u16 = args[6] as u16 + 256 * (args[7] as u16);
        let c: u16 = args[8] as u16 + 256 * (args[9] as u16);
        let r = TypeGuid(
            [
                GuidConstant::U32(a),
                GuidConstant::U16(b),
                GuidConstant::U16(c),
                GuidConstant::U8(args[10]),
                GuidConstant::U8(args[11]),
                GuidConstant::U8(args[12]),
                GuidConstant::U8(args[13]),
                GuidConstant::U8(args[14]),
                GuidConstant::U8(args[15]),
                GuidConstant::U8(args[16]),
                GuidConstant::U8(args[17]),
            ],
        );
        assert(r.0@ =~= TypeGuid::of_args(args@));
        r
    }
}

} // verus!
