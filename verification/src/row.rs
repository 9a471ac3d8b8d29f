//! Row handles and contiguous ranges of rows.

use vstd::prelude::*;

verus! {

/// A handle to one row: the file it lies in, its table and its zero-based index.
#[derive(Copy, Clone, PartialEq, Eq, PartialOrd, Ord, Debug, Structural)]
pub struct Row {
    pub file: u16,
    pub table: u16,
    pub row: u32,
}

impl Row {
    pub fn new(row: u32, table: u16, file: u16) -> (r: Row)
        ensures
            r == (Row { file, table, row }),
    {
        Row { file, table, row }
    }
}

/// The rows `first..last` of one table of one file. Nothing is cached: every
/// row is computed from the bounds when it is asked for.
#[derive(Copy, Clone, PartialEq, Eq, Debug, Structural)]
pub struct RowRange {
    pub file: u16,
    pub table: u16,
    pub first: u32,
    pub last: u32,
}

impl RowRange {
    /// The number of rows in the range.
    pub open spec fn count(&self) -> nat {
        if self.first <= self.last {
            (self.last - self.first) as nat
        } else {
            0
        }
    }

    /// The rows of the range, in table order.
    pub open spec fn rows(&self) -> Seq<Row> {
        Seq::new(
            self.count(),
            |i: int| (Row { file: self.file, table: self.table, row: (self.first + i) as u32 }),
        )
    }

    pub fn len(&self) -> (n: u32)
        ensures
            n == self.count(),
            n == self.rows().len(),
    {
        if self.first <= self.last {
            self.last - self.first
        } else {
            0
        }
    }

    pub fn is_empty(&self) -> (e: bool)
        ensures
            e == (self.rows().len() == 0),
    {
        self.first >= self.last
    }

    /// The row at position `i` of the range.
    pub fn get(&self, i: u32) -> (r: Row)
        requires
            i < self.count(),
        ensures
            r == self.rows()[i as int],
            r == (Row { file: self.file, table: self.table, row: (self.first + i) as u32 }),
    {
        Row { file: self.file, table: self.table, row: self.first + i }
    }

    /// All rows of the range, collected.
    pub fn to_vec(&self) -> (v: Vec<Row>)
        ensures
            v@ == self.rows(),
    {
        let mut v: Vec<Row> = Vec::new();
        let n: u32 = self.len();
        let mut i: u32 = 0;
        while i < n
            invariant
                n == self.count(),
                i <= n,
                v@.len() == i,
                forall|j: int| 0 <= j < i ==> v@[j] == self.rows()[j],
            decreases n - i,
        {
            v.push(self.get(i));
            i = i + 1;
        }
        assert(v@ =~= self.rows());
        v
    }
}

} // verus!
