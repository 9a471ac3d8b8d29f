//! The reader over all loaded files: cell access by row handle, list ranges
//! and the binary searches over sorted tables.

use vstd::prelude::*;
use crate::file::MetadataFile;
use crate::file::TABLE_TYPEDEF;
use crate::row::{Row, RowRange};
use crate::text::same;
use vstd::string::StringSliceAdditionalSpecFns;
use crate::type_def::TypeDef;

verus! {

/// The loaded files. A row handle names its file by its position here.
pub struct Reader {
    pub files: Vec<MetadataFile>,
}

impl Reader {
    /// Every file is well formed.
    pub open spec fn wf(&self) -> bool {
        forall|f: int| 0 <= f < self.files@.len() ==> (#[trigger] self.files@[f]).wf()
    }

    /// The number of rows of `table` in file `file`; none where the file or
    /// the table is absent.
    pub open spec fn rows(&self, file: int, table: int) -> int {
        if 0 <= file < self.files@.len() {
            self.files@[file].rows(table)
        } else {
            0
        }
    }

    /// `row` exists.
    pub open spec fn has_row(&self, row: Row) -> bool {
        row.row < self.rows(row.file as int, row.table as int)
    }

    /// `row` exists and has a column `column`.
    pub open spec fn has_cell(&self, row: Row, column: int) -> bool {
        &&& row.file < self.files@.len()
        &&& self.files@[row.file as int].has_cell(row.table as int, row.row as int, column)
    }

    /// Every row of the table has a column `column`.
    pub open spec fn has_column(&self, file: int, table: int, column: int) -> bool {
        &&& 0 <= file < self.files@.len()
        &&& (self.rows(file, table) > 0 ==> 0 <= column < self.files@[file].tables@[table].columns@.len())
    }

    /// The number in a cell.
    pub open spec fn cell(&self, row: Row, column: int) -> int {
        self.files@[row.file as int].cell(row.table as int, row.row as int, column)
    }

    /// The number in column `column` of row `row` of a table.
    pub open spec fn value(&self, file: int, table: int, row: int, column: int) -> int {
        self.files@[file].cell(table, row, column)
    }

    pub open spec fn has_text(&self, row: Row, column: int) -> bool {
        &&& row.file < self.files@.len()
        &&& self.files@[row.file as int].has_text(row.table as int, row.row as int, column)
    }

    pub open spec fn text(&self, row: Row, column: int) -> Seq<u8> {
        self.files@[row.file as int].text(row.table as int, row.row as int, column)
    }

    pub open spec fn has_blob(&self, row: Row, column: int) -> bool {
        &&& row.file < self.files@.len()
        &&& self.files@[row.file as int].has_blob(row.table as int, row.row as int, column)
    }

    pub open spec fn blob_bytes(&self, row: Row, column: int) -> Seq<u8> {
        self.files@[row.file as int].blob_bytes(row.table as int, row.row as int, column)
    }

    /// The table is in ascending order of column `column`.
    pub open spec fn sorted(&self, file: int, table: int, column: int) -> bool {
        forall|i: int, j: int|
            0 <= i <= j < self.rows(file, table) ==> #[trigger] self.value(file, table, i, column)
                <= #[trigger] self.value(file, table, j, column)
    }

    /// The row after `row` in its table.
    pub open spec fn next(row: Row) -> Row {
        Row { file: row.file, table: row.table, row: (row.row + 1) as u32 }
    }

    /// `row` and the row after it, if there is one, hold a list start in
    /// `column`: a one-based row number.
    pub open spec fn has_list(&self, row: Row, column: int) -> bool {
        &&& self.has_cell(row, column)
        &&& self.cell(row, column) >= 1
        &&& (self.has_row(Self::next(row)) ==> self.cell(Self::next(row), column) >= 1)
    }

    /// The rows of `table` that belong to `row`: from the row that `column`
    /// names up to the one that the next row names, or to the end of `table`
    /// where `row` is the last of its table.
    pub open spec fn list_of(&self, row: Row, table: u16, column: int) -> RowRange {
        RowRange {
            file: row.file,
            table,
            first: (self.cell(row, column) - 1) as u32,
            last: if self.has_row(Self::next(row)) {
                (self.cell(Self::next(row), column) - 1) as u32
            } else {
                self.rows(row.file as int, table as int) as u32
            },
        }
    }

    /// Whether every file is well formed.
    pub fn is_well_formed(&self) -> (r: bool)
        ensures
            r == self.wf(),
    {
        let mut f: usize = 0;
        while f < self.files.len()
            invariant
                f <= self.files@.len(),
                forall|k: int| 0 <= k < f ==> (#[trigger] self.files@[k]).wf(),
            decreases self.files@.len() - f,
        {
            if !self.files[f].is_well_formed() {
                return false;
            }
            f = f + 1;
        }
        true
    }

    /// Whether `row` exists and has a column `column`.
    pub fn cell_exists(&self, row: Row, column: usize) -> (r: bool)
        ensures
            r == self.has_cell(row, column as int),
    {
        (row.file as usize) < self.files.len() && self.files[row.file as usize].cell_exists(
            row.row,
            row.table,
            column,
        )
    }

    /// Whether every row of the table has a column `column`.
    pub fn column_exists(&self, file: u16, table: u16, column: usize) -> (r: bool)
        ensures
            r == self.has_column(file as int, table as int, column as int),
    {
        (file as usize) < self.files.len() && (self.row_count(file, table) == 0
            || self.cell_exists(Row { file, table, row: 0 }, column))
    }

    /// Whether `row` and the row after it, if there is one, hold a list
    /// start in `column`.
    pub fn list_exists(&self, row: Row, column: usize) -> (r: bool)
        requires
            self.wf(),
        ensures
            r == self.has_list(row, column as int),
    {
        if !self.cell_exists(row, column) || self.u32(row, column) < 1 {
            return false;
        }
        if row.row < u32::MAX && row.row + 1 < self.row_count(row.file, row.table) {
            self.u32(Row { file: row.file, table: row.table, row: row.row + 1 }, column) >= 1
        } else {
            true
        }
    }

    /// Whether the cell refers to a string that ends inside the buffer.
    pub fn text_exists(&self, row: Row, column: usize) -> (r: bool)
        requires
            self.wf(),
        ensures
            r == self.has_text(row, column as int),
    {
        (row.file as usize) < self.files.len() && self.files[row.file as usize].text_exists(
            row.row,
            row.table,
            column,
        )
    }

    /// Whether the cell refers to a blob that lies inside the buffer.
    pub fn blob_exists(&self, row: Row, column: usize) -> (r: bool)
        requires
            self.wf(),
        ensures
            r == self.has_blob(row, column as int),
    {
        (row.file as usize) < self.files.len() && self.files[row.file as usize].blob_exists(
            row.row,
            row.table,
            column,
        )
    }

    /// The number of rows of `table` in file `file`.
    pub fn row_count(&self, file: u16, table: u16) -> (n: u32)
        ensures
            n == self.rows(file as int, table as int),
    {
        if (file as usize) < self.files.len() {
            self.files[file as usize].row_count(table)
        } else {
            0
        }
    }

    /// Reads the number in a cell.
    pub fn u32(&self, row: Row, column: usize) -> (v: u32)
        requires
            self.wf(),
            self.has_cell(row, column as int),
        ensures
            v == self.cell(row, column as int),
    {
        self.files[row.file as usize].u32(row.row, row.table, column)
    }

    /// The string that a cell refers to.
    pub fn str(&self, row: Row, column: usize) -> (s: Vec<u8>)
        requires
            self.wf(),
            self.has_text(row, column as int),
        ensures
            s@ == self.text(row, column as int),
    {
        self.files[row.file as usize].str(row.row, row.table, column)
    }

    /// The blob that a cell refers to.
    pub fn blob(&self, row: Row, column: usize) -> (b: Vec<u8>)
        requires
            self.wf(),
            self.has_blob(row, column as int),
        ensures
            b@ == self.blob_bytes(row, column as int),
    {
        self.files[row.file as usize].blob(row.row, row.table, column)
    }

    /// The rows of `table` that `row` owns through its list column `column`.
    pub fn list(&self, row: Row, table: u16, column: usize) -> (r: RowRange)
        requires
            self.wf(),
            self.has_list(row, column as int),
        ensures
            r == self.list_of(row, table, column as int),
    {
        let first: u32 = self.u32(row, column) - 1;
        let last: u32 = if row.row < u32::MAX && row.row + 1 < self.row_count(row.file, row.table) {
            self.u32(Row { file: row.file, table: row.table, row: row.row + 1 }, column) - 1
        } else {
            self.row_count(row.file, table)
        };
        RowRange { file: row.file, table, first, last }
    }

    /// Where halving the rows `lo..hi` of a table ends: at each step the
    /// middle row is looked at, and the search goes on after it where its
    /// value is below `key` (or, with `above`, at most `key`), before it
    /// otherwise.
    pub open spec fn bound_of(
        &self,
        file: int,
        table: int,
        column: int,
        key: int,
        above: bool,
        lo: int,
        hi: int,
    ) -> int
        decreases hi - lo,
    {
        if lo >= hi {
            lo
        } else {
            let mid = lo + (hi - lo) / 2;
            let v = self.value(file, table, mid, column);
            if v < key || (above && v == key) {
                self.bound_of(file, table, column, key, above, mid + 1, hi)
            } else {
                self.bound_of(file, table, column, key, above, lo, mid)
            }
        }
    }

    /// The row at which `upper_bound` ends.
    pub open spec fn upper_bound_of(&self, file: int, table: int, column: int, key: int) -> int {
        self.bound_of(file, table, column, key, true, 0, self.rows(file, table))
    }

    /// The range at which `equal_range` ends.
    pub open spec fn equal_range_of(&self, file: u16, table: u16, column: int, key: int) -> RowRange {
        RowRange {
            file,
            table,
            first: self.bound_of(file as int, table as int, column, key, false, 0, self.rows(file as int, table as int)) as u32,
            last: self.bound_of(file as int, table as int, column, key, true, 0, self.rows(file as int, table as int)) as u32,
        }
    }

    /// Under the order that a sorted table has, halving ends at the row
    /// that parts the rows below `key` (or, with `above`, at most `key`)
    /// from the others.
    pub proof fn lemma_bound_of(
        &self,
        file: int,
        table: int,
        column: int,
        key: int,
        above: bool,
        lo: int,
        hi: int,
    )
        requires
            self.sorted(file, table, column),
            0 <= lo <= hi <= self.rows(file, table),
        ensures
            lo <= self.bound_of(file, table, column, key, above, lo, hi) <= hi,
            forall|i: int|
                lo <= i < hi ==> (i < self.bound_of(file, table, column, key, above, lo, hi) <==> {
                    let v = #[trigger] self.value(file, table, i, column);
                    v < key || (above && v == key)
                }),
        decreases hi - lo,
    {
        if lo < hi {
            let mid = lo + (hi - lo) / 2;
            let v = self.value(file, table, mid, column);
            if v < key || (above && v == key) {
                self.lemma_bound_of(file, table, column, key, above, mid + 1, hi);
                assert forall|i: int| lo <= i <= mid implies {
                    let w = #[trigger] self.value(file, table, i, column);
                    w < key || (above && w == key)
                } by {
                    assert(self.value(file, table, i, column) <= self.value(file, table, mid, column));
                }
            } else {
                self.lemma_bound_of(file, table, column, key, above, lo, mid);
                assert forall|i: int| mid <= i < hi implies {
                    let w = #[trigger] self.value(file, table, i, column);
                    !(w < key || (above && w == key))
                } by {
                    assert(self.value(file, table, mid, column) <= self.value(file, table, i, column));
                }
            }
        }
    }

    /// In a table in ascending order of `column`, the rows before the one
    /// that `upper_bound` gives are those with a value of at most `key`.
    pub proof fn lemma_upper_bound_of(&self, file: int, table: int, column: int, key: int)
        requires
            self.sorted(file, table, column),
        ensures
            0 <= self.upper_bound_of(file, table, column, key) <= self.rows(file, table),
            forall|i: int|
                0 <= i < self.rows(file, table) ==> (i < self.upper_bound_of(file, table, column, key)
                    <==> #[trigger] self.value(file, table, i, column) <= key),
    {
        if self.rows(file, table) >= 0 {
            self.lemma_bound_of(file, table, column, key, true, 0, self.rows(file, table));
        }
    }

    /// In a table in ascending order of `column`, the range that
    /// `equal_range` gives holds exactly the rows whose value is `key`: all
    /// of them, and no other. Where `key` does not occur it is empty.
    pub proof fn lemma_equal_range_of(&self, file: u16, table: u16, column: int, key: int)
        requires
            self.sorted(file as int, table as int, column),
        ensures
            self.equal_range_of(file, table, column, key).first <= self.equal_range_of(
                file,
                table,
                column,
                key,
            ).last <= self.rows(file as int, table as int),
            forall|i: int|
                0 <= i < self.rows(file as int, table as int) ==> (self.equal_range_of(
                    file,
                    table,
                    column,
                    key,
                ).first <= i < self.equal_range_of(file, table, column, key).last
                    <==> #[trigger] self.value(file as int, table as int, i, column) == key),
            (forall|i: int|
                0 <= i < self.rows(file as int, table as int) ==> #[trigger] self.value(
                    file as int,
                    table as int,
                    i,
                    column,
                ) != key) ==> self.equal_range_of(file, table, column, key).count() == 0,
    {
        let n = self.rows(file as int, table as int);
        self.lemma_bound_of(file as int, table as int, column, key, false, 0, n);
        self.lemma_bound_of(file as int, table as int, column, key, true, 0, n);
        let first = self.bound_of(file as int, table as int, column, key, false, 0, n);
        let last = self.bound_of(file as int, table as int, column, key, true, 0, n);
        if first > last {
            let v = self.value(file as int, table as int, last, column);
            assert(v < key);
        }
        assert forall|i: int| 0 <= i < n implies (first <= i < last <==> #[trigger] self.value(
            file as int,
            table as int,
            i,
            column,
        ) == key) by {
            let v = self.value(file as int, table as int, i, column);
            assert(i < first <==> v < key);
            assert(i < last <==> v <= key);
        }
        if first < last {
            assert(self.value(file as int, table as int, first, column) == key);
        }
    }

    /// Halves the table until the bound is found.
    fn bound(&self, file: u16, table: u16, column: usize, key: u32, above: bool) -> (r: u32)
        requires
            self.wf(),
            self.has_column(file as int, table as int, column as int),
        ensures
            r <= self.rows(file as int, table as int),
            r == self.bound_of(
                file as int,
                table as int,
                column as int,
                key as int,
                above,
                0,
                self.rows(file as int, table as int),
            ),
    {
        let n: u32 = self.row_count(file, table);
        let mut lo: u32 = 0;
        let mut hi: u32 = n;
        while lo < hi
            invariant
                self.wf(),
                self.has_column(file as int, table as int, column as int),
                n == self.rows(file as int, table as int),
                lo <= hi <= n,
                self.bound_of(file as int, table as int, column as int, key as int, above, lo as int, hi as int)
                    == self.bound_of(file as int, table as int, column as int, key as int, above, 0, n as int),
            decreases hi - lo,
        {
            let mid: u32 = lo + (hi - lo) / 2;
            let v: u32 = self.u32(Row { file, table, row: mid }, column);
            assert(v == self.value(file as int, table as int, mid as int, column as int));
            if v < key || (above && v == key) {
                lo = mid + 1;
            } else {
                hi = mid;
            }
        }
        lo
    }

    /// The first row of `table` whose value in `column` exceeds `key`; the
    /// row after the last one where none does. What comes back is meaningful
    /// only for a table in ascending order of `column`.
    pub fn upper_bound(&self, file: u16, table: u16, column: usize, key: u32) -> (r: Row)
        requires
            self.wf(),
            self.has_column(file as int, table as int, column as int),
        ensures
            r == (Row { file, table, row: self.upper_bound_of(file as int, table as int, column as int, key as int) as u32 }),
            r.row == self.upper_bound_of(file as int, table as int, column as int, key as int),
            r.row <= self.rows(file as int, table as int),
            self.sorted(file as int, table as int, column as int) ==> forall|i: int|
                0 <= i < self.rows(file as int, table as int) ==> (i < r.row <==> #[trigger] self.value(
                    file as int,
                    table as int,
                    i,
                    column as int,
                ) <= key),
    {
        let r: u32 = self.bound(file, table, column, key, true);
        proof {
            if self.sorted(file as int, table as int, column as int) {
                self.lemma_upper_bound_of(file as int, table as int, column as int, key as int);
            }
        }
        Row { file, table, row: r }
    }

    /// The rows of `table` whose value in `column` is `key`: for a table in
    /// ascending order of `column`, exactly those rows, none where `key` does
    /// not occur. What comes back is meaningful only for such a table.
    pub fn equal_range(&self, file: u16, table: u16, column: usize, key: u32) -> (r: RowRange)
        requires
            self.wf(),
            self.has_column(file as int, table as int, column as int),
        ensures
            r == self.equal_range_of(file, table, column as int, key as int),
            r.first <= self.rows(file as int, table as int),
            r.last <= self.rows(file as int, table as int),
            self.sorted(file as int, table as int, column as int) ==> {
                &&& r.first <= r.last
                &&& forall|i: int|
                    0 <= i < self.rows(file as int, table as int) ==> (r.first <= i < r.last
                        <==> #[trigger] self.value(file as int, table as int, i, column as int) == key)
            },
    {
        let first: u32 = self.bound(file, table, column, key, false);
        let last: u32 = self.bound(file, table, column, key, true);
        proof {
            if self.sorted(file as int, table as int, column as int) {
                self.lemma_equal_range_of(file, table, column as int, key as int);
            }
        }
        RowRange { file, table, first, last }
    }

    /// A row that is the only one of its table owns, through any list
    /// column, the rows of the target table up to its end.
    pub proof fn lemma_list_of_sole_row(&self, row: Row, table: u16, column: int)
        requires
            self.has_row(row),
            self.rows(row.file as int, row.table as int) == 1,
        ensures
            self.list_of(row, table, column).last == self.rows(row.file as int, table as int),
            self.cell(row, column) == 1 ==> self.list_of(row, table, column).count() == self.rows(
                row.file as int,
                table as int,
            ),
    {
    }

    /// The type at row `row` of file `file`.
    pub open spec fn type_at(file: int, row: int) -> TypeDef {
        TypeDef(Row { file: file as u16, table: TABLE_TYPEDEF, row: row as u32 })
    }

    /// The name of every type that any file defines can be read.
    pub open spec fn has_type_names(&self) -> bool {
        forall|f: int, i: int|
            0 <= f < self.files@.len() && 0 <= i < self.rows(f, TABLE_TYPEDEF as int) ==> (
            #[trigger] Self::type_at(f, i)).has_name(self)
    }

    /// The type at row `row` of file `file` has the name `name`.
    pub open spec fn named(&self, file: int, row: int, name: (Seq<u8>, Seq<u8>)) -> bool {
        Self::type_at(file, row).name_of(self) == name
    }

    /// No type before row `row` of file `file`, in the order of files and
    /// rows, has the name `name`.
    pub open spec fn none_before(&self, file: int, row: int, name: (Seq<u8>, Seq<u8>)) -> bool {
        forall|f: int, i: int|
            0 <= f < self.files@.len() && 0 <= i < self.rows(f, TABLE_TYPEDEF as int) && (f < file || (f
                == file && i < row)) ==> !#[trigger] self.named(f, i, name)
    }

    /// Whether the name of every type that any file defines can be read.
    pub fn type_names_exist(&self) -> (r: bool)
        requires
            self.wf(),
        ensures
            r == (self.has_type_names() && self.files@.len() <= u16::MAX),
    {
        let count: usize = self.files.len();
        if count > 65535 {
            return false;
        }
        let mut f: u16 = 0;
        while (f as usize) < count
            invariant
                self.wf(),
                count == self.files@.len(),
                count <= u16::MAX,
                f <= count,
                forall|g: int, i: int|
                    0 <= g < f && 0 <= i < self.rows(g, TABLE_TYPEDEF as int) ==> (
                    #[trigger] Self::type_at(g, i)).has_name(self),
            decreases count - f,
        {
            let n: u32 = self.row_count(f, TABLE_TYPEDEF);
            let mut i: u32 = 0;
            while i < n
                invariant
                    self.wf(),
                    f < self.files@.len(),
                    n == self.rows(f as int, TABLE_TYPEDEF as int),
                    i <= n,
                    forall|k: int| 0 <= k < i ==> (#[trigger] Self::type_at(f as int, k)).has_name(self),
                decreases n - i,
            {
                let def = TypeDef(Row { file: f, table: TABLE_TYPEDEF, row: i });
                assert(def == Self::type_at(f as int, i as int));
                if !def.name_exists(self) {
                    return false;
                }
                i = i + 1;
            }
            f = f + 1;
        }
        true
    }

    /// Looking for a name gives one outcome only.
    pub proof fn lemma_finds_one(&self, name: (Seq<u8>, Seq<u8>), first: Option<TypeDef>, second: Option<TypeDef>)
        requires
            self.finds(name, first),
            self.finds(name, second),
        ensures
            first == second,
    {
        match (first, second) {
            (Some(a), Some(b)) => {
                assert(self.named(a.0.file as int, a.0.row as int, name));
                assert(self.named(b.0.file as int, b.0.row as int, name));
            },
            (Some(a), None) => {
                assert(self.named(a.0.file as int, a.0.row as int, name));
            },
            (None, Some(b)) => {
                assert(self.named(b.0.file as int, b.0.row as int, name));
            },
            (None, None) => {},
        }
    }

    /// `found` is what looking for the type named `name` gives: the first
    /// type of that name in the order of files and rows, or nothing where
    /// no file defines one.
    pub open spec fn finds(&self, name: (Seq<u8>, Seq<u8>), found: Option<TypeDef>) -> bool {
        match found {
            Some(def) => {
                &&& def.0.file < self.files@.len()
                &&& def.0.table == TABLE_TYPEDEF
                &&& def.0.row < self.rows(def.0.file as int, TABLE_TYPEDEF as int)
                &&& self.named(def.0.file as int, def.0.row as int, name)
                &&& self.none_before(def.0.file as int, def.0.row as int, name)
            },
            None => self.none_before(self.files@.len() as int, 0, name),
        }
    }

    /// The type with the given namespace and name, if a file defines one.
    pub fn resolve(&self, name: (&str, &str)) -> (r: Option<TypeDef>)
        requires
            self.wf(),
            self.has_type_names(),
            self.files@.len() <= u16::MAX,
        ensures
            self.finds((name.0.spec_bytes(), name.1.spec_bytes()), r),
    {
        self.find(name.0.as_bytes(), name.1.as_bytes())
    }

    /// The type with the given namespace and name, both as bytes, if a file
    /// defines one.
    pub fn find(&self, namespace: &[u8], name_bytes: &[u8]) -> (r: Option<TypeDef>)
        requires
            self.wf(),
            self.has_type_names(),
            self.files@.len() <= u16::MAX,
        ensures
            self.finds((namespace@, name_bytes@), r),
    {
        let ghost name = (namespace@, name_bytes@);
        let count: usize = self.files.len();
        let mut f: u16 = 0;
        while (f as usize) < count
            invariant
                self.wf(),
                self.has_type_names(),
                count == self.files@.len(),
                count <= u16::MAX,
                f <= count,
                name == (namespace@, name_bytes@),
                self.none_before(f as int, 0, name),
            decreases count - f,
        {
            let n: u32 = self.row_count(f, TABLE_TYPEDEF);
            let mut i: u32 = 0;
            while i < n
                invariant
                    self.wf(),
                    self.has_type_names(),
                    f < self.files@.len(),
                    n == self.rows(f as int, TABLE_TYPEDEF as int),
                    i <= n,
                    name == (namespace@, name_bytes@),
                    self.none_before(f as int, i as int, name),
                decreases n - i,
            {
                let def = TypeDef(Row { file: f, table: TABLE_TYPEDEF, row: i });
                assert(def == Self::type_at(f as int, i as int));
                let found = def.name(self);
                if same(found.0.as_slice(), namespace) && same(found.1.as_slice(), name_bytes) {
                    return Some(def);
                }
                i = i + 1;
            }
            f = f + 1;
        }
        None
    }
}

} // verus!
