//! One loaded metadata file: the byte buffer, the layout of its tables and the
//! places of its heaps.

use vstd::prelude::*;

verus! {

pub const TABLE_TYPEREF: u16 = 1;
pub const TABLE_TYPEDEF: u16 = 2;
pub const TABLE_FIELD: u16 = 4;
pub const TABLE_METHODDEF: u16 = 6;
pub const TABLE_PARAM: u16 = 8;
pub const TABLE_INTERFACEIMPL: u16 = 9;
pub const TABLE_MEMBERREF: u16 = 10;
pub const TABLE_CUSTOMATTRIBUTE: u16 = 12;
pub const TABLE_TYPESPEC: u16 = 27;
pub const TABLE_GENERICPARAM: u16 = 42;

/// Where a column lies inside a row, and how many bytes it takes (1, 2 or 4).
#[derive(Copy, Clone, PartialEq, Eq, Debug)]
pub struct Column {
    pub offset: usize,
    pub width: usize,
}

/// The layout of one table: where its first row starts in the buffer, how many
/// rows it has, how many bytes a row takes, and its columns.
#[derive(Clone, PartialEq, Eq, Debug)]
pub struct Table {
    pub offset: usize,
    pub rows: u32,
    pub width: usize,
    pub columns: Vec<Column>,
}

/// The bytes of one file with the layout computed at load time. Never changed
/// after it was made.
#[derive(Clone, PartialEq, Eq, Debug)]
pub struct MetadataFile {
    pub bytes: Vec<u8>,
    pub strings: usize,
    pub blobs: usize,
    pub tables: Vec<Table>,
}

/// The little-endian number held by `width` bytes of `bytes` from `at` on.
pub open spec fn le_value(bytes: Seq<u8>, at: int, width: int) -> int {
    if width == 1 {
        bytes[at] as int
    } else if width == 2 {
        bytes[at] as int + 256 * (bytes[at + 1] as int)
    } else {
        bytes[at] as int + 256 * (bytes[at + 1] as int) + 65536 * (bytes[at + 2] as int) + 16777216
            * (bytes[at + 3] as int)
    }
}

/// The first index from `at` on that holds a zero byte, or the length of
/// `bytes` where none follows.
pub open spec fn text_end(bytes: Seq<u8>, at: int) -> int
    decreases bytes.len() - at,
{
    if at < 0 || at >= bytes.len() || bytes[at] == 0 {
        at
    } else {
        text_end(bytes, at + 1)
    }
}

/// How many bytes the compressed length prefix starting with `lead` takes.
pub open spec fn prefix_len(lead: u8) -> int {
    if lead < 0x80 {
        1
    } else if lead < 0xC0 {
        2
    } else {
        4
    }
}

/// The number that a compressed length prefix at `at` stands for.
pub open spec fn prefix_value(bytes: Seq<u8>, at: int) -> int {
    let lead = bytes[at];
    if lead < 0x80 {
        lead as int
    } else if lead < 0xC0 {
        (lead - 0x80) * 256 + bytes[at + 1]
    } else {
        (lead % 0x20) * 16777216 + bytes[at + 1] * 65536 + bytes[at + 2] * 256 + bytes[at + 3]
    }
}

impl Table {
    pub open spec fn wf(&self, size: int) -> bool {
        &&& self.offset + self.rows * self.width <= size
        &&& forall|c: int|
            0 <= c < self.columns@.len() ==> {
                let column = #[trigger] self.columns@[c];
                &&& (column.width == 1 || column.width == 2 || column.width == 4)
                &&& column.offset + column.width <= self.width
            }
    }
}

/// The bytes that a reference to a row of a table of `rows` rows takes:
/// two while every row number fits in sixteen bits, four otherwise.
pub open spec fn index_width_of(rows: int) -> int {
    if rows < 65536 {
        2
    } else {
        4
    }
}

/// The bytes that a coded index takes whose tag takes `span` values and
/// whose largest candidate table has `rows` rows: two while every row
/// number fits in the bits that the tag leaves of sixteen, four otherwise.
pub open spec fn coded_width_of(rows: int, span: int) -> int {
    if rows < 65536int / span {
        2
    } else {
        4
    }
}

/// The sum of the first `n` of `widths`.
pub open spec fn total(widths: Seq<usize>, n: int) -> int
    decreases n,
{
    if n <= 0 {
        0
    } else {
        total(widths, n - 1) + widths[n - 1]
    }
}

pub fn index_width(rows: u32) -> (w: usize)
    ensures
        w == index_width_of(rows as int),
{
    if rows < 65536 {
        2
    } else {
        4
    }
}

pub fn coded_width(rows: u32, span: u32) -> (w: usize)
    requires
        span > 0,
    ensures
        w == coded_width_of(rows as int, span as int),
{
    if rows < 65536 / span {
        2
    } else {
        4
    }
}

impl Table {
    /// The table starts at `offset`, has `rows` rows, and its columns have
    /// the given widths and follow one another without gaps.
    pub open spec fn laid_out(&self, offset: usize, rows: u32, widths: Seq<usize>) -> bool {
        &&& self.offset == offset
        &&& self.rows == rows
        &&& self.width == total(widths, widths.len() as int)
        &&& self.columns@.len() == widths.len()
        &&& forall|c: int|
            0 <= c < widths.len() ==> {
                &&& (#[trigger] self.columns@[c]).offset == total(widths, c)
                &&& self.columns@[c].width == widths[c]
            }
    }

    /// Lays out a table from the widths of its columns. Nothing where a row
    /// would be longer than the machine can count.
    pub fn new(offset: usize, rows: u32, widths: &Vec<usize>) -> (r: Option<Table>)
        ensures
            match r {
                Some(table) => table.laid_out(offset, rows, widths@),
                None => total(widths@, widths@.len() as int) > usize::MAX,
            },
    {
        let mut columns: Vec<Column> = Vec::new();
        let mut width: usize = 0;
        let mut c: usize = 0;
        while c < widths.len()
            invariant
                c <= widths@.len(),
                width == total(widths@, c as int),
                columns@.len() == c,
                forall|k: int|
                    0 <= k < c ==> {
                        &&& (#[trigger] columns@[k]).offset == total(widths@, k)
                        &&& columns@[k].width == widths@[k]
                    },
            decreases widths@.len() - c,
        {
            columns.push(Column { offset: width, width: widths[c] });
            if widths[c] > usize::MAX - width {
                proof {
                    lemma_total_grows(widths@, c + 1, widths@.len() as int);
                }
                return None;
            }
            width = width + widths[c];
            c = c + 1;
        }
        Some(Table { offset, rows, width, columns })
    }

    /// Whether the table lies inside a buffer of `size` bytes and every
    /// column inside its row.
    pub fn is_well_formed(&self, size: usize) -> (r: bool)
        ensures
            r == self.wf(size as int),
    {
        assert(0 <= self.rows * self.width <= 0xFFFF_FFFF * 0xFFFF_FFFF_FFFF_FFFF) by (nonlinear_arith)
            requires
                0 <= self.rows <= 0xFFFF_FFFF,
                0 <= self.width <= 0xFFFF_FFFF_FFFF_FFFF,
        ;
        let rows: u128 = self.rows as u128;
        let width: u128 = self.width as u128;
        let offset: u128 = self.offset as u128;
        let limit: u128 = size as u128;
        if offset + rows * width > limit {
            return false;
        }
        let mut c: usize = 0;
        while c < self.columns.len()
            invariant
                c <= self.columns@.len(),
                self.offset + self.rows * self.width <= size,
                forall|k: int|
                    0 <= k < c ==> {
                        let column = #[trigger] self.columns@[k];
                        &&& (column.width == 1 || column.width == 2 || column.width == 4)
                        &&& column.offset + column.width <= self.width
                    },
            decreases self.columns@.len() - c,
        {
            let column = &self.columns[c];
            let fits: bool = (column.width == 1 || column.width == 2 || column.width == 4)
                && column.offset <= self.width && column.width <= self.width - column.offset;
            if !fits {
                return false;
            }
            c = c + 1;
        }
        true
    }
}

/// The sum of more widths is no smaller.
pub proof fn lemma_total_grows(widths: Seq<usize>, n: int, m: int)
    requires
        0 <= n <= m,
    ensures
        total(widths, n) <= total(widths, m),
    decreases m - n,
{
    if n < m {
        lemma_total_grows(widths, n, m - 1);
    }
}

impl MetadataFile {
    /// A file from its bytes, the places of its heaps and the layout of
    /// its tables. Nothing where a table does not lie inside the bytes or a
    /// column not inside its row.
    pub fn new(bytes: Vec<u8>, strings: usize, blobs: usize, tables: Vec<Table>) -> (r: Option<
        MetadataFile,
    >)
        ensures
            match r {
                Some(file) => {
                    &&& file.wf()
                    &&& file.bytes@ == bytes@
                    &&& file.strings == strings
                    &&& file.blobs == blobs
                    &&& file.tables@ == tables@
                },
                None => !(MetadataFile { bytes, strings, blobs, tables }).wf(),
            },
    {
        let file = MetadataFile { bytes, strings, blobs, tables };
        if file.is_well_formed() {
            Some(file)
        } else {
            None
        }
    }

    /// Every table lies inside the buffer and every column inside its row.
    pub open spec fn wf(&self) -> bool {
        forall|t: int| 0 <= t < self.tables@.len() ==> (#[trigger] self.tables@[t]).wf(self.bytes@.len() as int)
    }

    /// The number of rows of `table`; a table that the file does not list has none.
    pub open spec fn rows(&self, table: int) -> int {
        if 0 <= table < self.tables@.len() {
            self.tables@[table].rows as int
        } else {
            0
        }
    }

    /// `table` has a row `row` with a column `column`.
    pub open spec fn has_cell(&self, table: int, row: int, column: int) -> bool {
        &&& 0 <= row < self.rows(table)
        &&& 0 <= column < self.tables@[table].columns@.len()
    }

    /// The byte at which the cell starts.
    pub open spec fn cell_at(&self, table: int, row: int, column: int) -> int {
        let t = self.tables@[table];
        t.offset + row * t.width + t.columns@[column].offset
    }

    /// The number that the cell holds.
    pub open spec fn cell(&self, table: int, row: int, column: int) -> int {
        le_value(
            self.bytes@,
            self.cell_at(table, row, column),
            self.tables@[table].columns@[column].width as int,
        )
    }

    /// Where the string that the cell refers to starts.
    pub open spec fn text_at(&self, table: int, row: int, column: int) -> int {
        self.strings + self.cell(table, row, column)
    }

    /// The cell refers to a string that ends inside the buffer.
    pub open spec fn has_text(&self, table: int, row: int, column: int) -> bool {
        &&& self.has_cell(table, row, column)
        &&& text_end(self.bytes@, self.text_at(table, row, column)) < self.bytes@.len()
    }

    /// The string that the cell refers to, without its terminator.
    pub open spec fn text(&self, table: int, row: int, column: int) -> Seq<u8> {
        let at = self.text_at(table, row, column);
        self.bytes@.subrange(at, text_end(self.bytes@, at))
    }

    /// Where the blob that the cell refers to starts: at its length prefix.
    pub open spec fn blob_at(&self, table: int, row: int, column: int) -> int {
        self.blobs + self.cell(table, row, column)
    }

    /// The cell refers to a blob that lies inside the buffer, prefix included.
    pub open spec fn has_blob(&self, table: int, row: int, column: int) -> bool {
        let at = self.blob_at(table, row, column);
        &&& self.has_cell(table, row, column)
        &&& at < self.bytes@.len()
        &&& at + prefix_len(self.bytes@[at]) <= self.bytes@.len()
        &&& at + prefix_len(self.bytes@[at]) + prefix_value(self.bytes@, at) <= self.bytes@.len()
    }

    /// The bytes of the blob that the cell refers to, after the prefix.
    pub open spec fn blob_bytes(&self, table: int, row: int, column: int) -> Seq<u8> {
        let at = self.blob_at(table, row, column);
        let start = at + prefix_len(self.bytes@[at]);
        self.bytes@.subrange(start, start + prefix_value(self.bytes@, at))
    }

    /// A cell of a well-formed file lies inside the buffer.
    pub proof fn lemma_cell_inside(&self, table: int, row: int, column: int)
        requires
            self.wf(),
            self.has_cell(table, row, column),
        ensures
            0 <= self.cell_at(table, row, column),
            self.cell_at(table, row, column) + self.tables@[table].columns@[column].width
                <= self.bytes@.len(),
            self.tables@[table].offset + row * self.tables@[table].width + self.tables@[table].width
                <= self.bytes@.len(),
            0 <= row * self.tables@[table].width,
            0 <= self.cell(table, row, column) <= u32::MAX,
    {
        let t = self.tables@[table];
        assert(t.wf(self.bytes@.len() as int));
        let c = t.columns@[column];
        assert(c.offset + c.width <= t.width);
        assert(row * t.width + t.width <= t.rows * t.width && 0 <= row * t.width) by (nonlinear_arith)
            requires
                0 <= row < t.rows,
                0 <= t.width,
        ;
    }

    /// Whether the file is well formed.
    pub fn is_well_formed(&self) -> (r: bool)
        ensures
            r == self.wf(),
    {
        let size: usize = self.bytes.len();
        let mut t: usize = 0;
        while t < self.tables.len()
            invariant
                size == self.bytes@.len(),
                t <= self.tables@.len(),
                forall|k: int| 0 <= k < t ==> (#[trigger] self.tables@[k]).wf(size as int),
            decreases self.tables@.len() - t,
        {
            if !self.tables[t].is_well_formed(size) {
                return false;
            }
            t = t + 1;
        }
        true
    }

    /// Whether `table` has a row `row` with a column `column`.
    pub fn cell_exists(&self, row: u32, table: u16, column: usize) -> (r: bool)
        ensures
            r == self.has_cell(table as int, row as int, column as int),
    {
        row < self.row_count(table) && column < self.tables[table as usize].columns.len()
    }

    /// Whether the cell refers to a string that ends inside the buffer.
    pub fn text_exists(&self, row: u32, table: u16, column: usize) -> (r: bool)
        requires
            self.wf(),
        ensures
            r == self.has_text(table as int, row as int, column as int),
    {
        if !self.cell_exists(row, table, column) {
            return false;
        }
        let v: u32 = self.u32(row, table, column);
        let size: usize = self.bytes.len();
        let ghost start: int = self.strings + v;
        if self.strings >= size || v as usize >= size - self.strings {
            assert(text_end(self.bytes@, start) == start);
            return false;
        }
        let mut at: usize = self.strings + v as usize;
        while at < size && self.bytes[at] != 0
            invariant
                size == self.bytes@.len(),
                0 <= start <= at <= size,
                text_end(self.bytes@, at as int) == text_end(self.bytes@, start),
            decreases size - at,
        {
            assert(text_end(self.bytes@, at + 1) == text_end(self.bytes@, at as int));
            at = at + 1;
        }
        assert(text_end(self.bytes@, at as int) == at);
        at < size
    }

    /// Whether the cell refers to a blob that lies inside the buffer.
    pub fn blob_exists(&self, row: u32, table: u16, column: usize) -> (r: bool)
        requires
            self.wf(),
        ensures
            r == self.has_blob(table as int, row as int, column as int),
    {
        if !self.cell_exists(row, table, column) {
            return false;
        }
        let v: u32 = self.u32(row, table, column);
        let size: usize = self.bytes.len();
        if self.blobs >= size || v as usize >= size - self.blobs {
            return false;
        }
        let at: usize = self.blobs + v as usize;
        let lead: u8 = self.bytes[at];
        let skip: usize = if lead < 0x80 {
            1
        } else if lead < 0xC0 {
            2
        } else {
            4
        };
        if skip > size - at {
            return false;
        }
        let length: usize = if lead < 0x80 {
            lead as usize
        } else if lead < 0xC0 {
            (lead - 0x80) as usize * 256 + self.bytes[at + 1] as usize
        } else {
            (lead % 0x20) as usize * 16777216 + self.bytes[at + 1] as usize * 65536 + self.bytes[at
                + 2] as usize * 256 + self.bytes[at + 3] as usize
        };
        length <= size - at - skip
    }

    /// The number of rows of `table`.
    pub fn row_count(&self, table: u16) -> (n: u32)
        ensures
            n == self.rows(table as int),
    {
        if (table as usize) < self.tables.len() {
            self.tables[table as usize].rows
        } else {
            0
        }
    }

    /// Reads the number in a cell.
    pub fn u32(&self, row: u32, table: u16, column: usize) -> (v: u32)
        requires
            self.wf(),
            self.has_cell(table as int, row as int, column as int),
        ensures
            v == self.cell(table as int, row as int, column as int),
    {
        proof {
            self.lemma_cell_inside(table as int, row as int, column as int);
        }
        let size: usize = self.bytes.len();
        let t = &self.tables[table as usize];
        let c = &t.columns[column];
        let at: usize = t.offset + (row as usize) * t.width + c.offset;
        let b0: u32 = self.bytes[at] as u32;
        if c.width == 1 {
            b0
        } else if c.width == 2 {
            let b1: u32 = self.bytes[at + 1] as u32;
            b0 + 256 * b1
        } else {
            let b1: u32 = self.bytes[at + 1] as u32;
            let b2: u32 = self.bytes[at + 2] as u32;
            let b3: u32 = self.bytes[at + 3] as u32;
            b0 + 256 * b1 + 65536 * b2 + 16777216 * b3
        }
    }

    /// The string that a cell refers to: the bytes from the referred place in
    /// the string heap up to the next zero byte.
    pub fn str(&self, row: u32, table: u16, column: usize) -> (s: Vec<u8>)
        requires
            self.wf(),
            self.has_text(table as int, row as int, column as int),
        ensures
            s@ == self.text(table as int, row as int, column as int),
    {
        let v: u32 = self.u32(row, table, column);
        let size: usize = self.bytes.len();
        let ghost start: int = self.strings + v;
        assert(start < size) by {
            if start >= size {
                assert(text_end(self.bytes@, start) == start);
            }
        }
        let mut s: Vec<u8> = Vec::new();
        let mut at: usize = self.strings + v as usize;
        while self.bytes[at] != 0
            invariant
                size == self.bytes@.len(),
                0 <= start <= at < size,
                text_end(self.bytes@, at as int) == text_end(self.bytes@, start),
                text_end(self.bytes@, start) < size,
                s@ == self.bytes@.subrange(start, at as int),
            decreases size - at,
        {
            s.push(self.bytes[at]);
            assert(s@ =~= self.bytes@.subrange(start, at + 1));
            assert(text_end(self.bytes@, at + 1) == text_end(self.bytes@, at as int));
            assert(at + 1 < size) by {
                if at + 1 >= size {
                    assert(text_end(self.bytes@, at + 1) == at + 1);
                }
            }
            at = at + 1;
        }
        s
    }

    /// The blob that a cell refers to: the bytes that follow the compressed
    /// length prefix at the referred place in the blob heap.
    pub fn blob(&self, row: u32, table: u16, column: usize) -> (b: Vec<u8>)
        requires
            self.wf(),
            self.has_blob(table as int, row as int, column as int),
        ensures
            b@ == self.blob_bytes(table as int, row as int, column as int),
    {
        let v: u32 = self.u32(row, table, column);
        let total: usize = self.bytes.len();
        let at: usize = self.blobs + v as usize;
        let lead: u8 = self.bytes[at];
        let mut skip: usize = 1;
        let mut size: usize = 0;
        if lead < 0x80 {
            size = lead as usize;
        } else if lead < 0xC0 {
            skip = 2;
            size = (lead - 0x80) as usize * 256 + self.bytes[at + 1] as usize;
        } else {
            skip = 4;
            size = (lead % 0x20) as usize * 16777216 + self.bytes[at + 1] as usize * 65536
                + self.bytes[at + 2] as usize * 256 + self.bytes[at + 3] as usize;
        }
        let start: usize = at + skip;
        let mut b: Vec<u8> = Vec::new();
        let mut i: usize = 0;
        while i < size
            invariant
                i <= size,
                total == self.bytes@.len(),
                start + size <= self.bytes@.len(),
                b@ == self.bytes@.subrange(start as int, start + i),
            decreases size - i,
        {
            b.push(self.bytes[start + i]);
            assert(b@ =~= self.bytes@.subrange(start as int, start + i + 1));
            i = i + 1;
        }
        b
    }
}

} // verus!
