//! The table: rows numbered from one in the order in which they were put
//! in, each at its place in a page of the cache and of the file.

use crate::byte_order::{u32_bytes, ByteOrder};
use crate::error::TableError;
use crate::file::{views, FileRange, FileWrite, WriteView};
use crate::layout::{
    lemma_row_place, page_at, page_of, row_number_at, slot_at, slot_of, HEADER_SIZE, PAGE_SIZE,
    ROWS_PER_PAGE, ROW_SIZE, TABLE_MAX_PAGES, TABLE_MAX_ROWS,
};
use crate::page::PageView;
use crate::pager::{
    header_count, page_image, page_range, row_range, Fetch, FetchView, Pager, PagerView,
};
use crate::row::{
    encode_row, is_text_record, lemma_decode_encode_row, lemma_encode_row_is_text,
    lemma_round_trip, Row, RowView,
};
use vstd::prelude::*;

verus! {

/// The writes that bring the first `pages` pages of the cache to the file,
/// page after page.
pub open spec fn pages_writes(pager: PagerView, pages: int) -> Seq<WriteView>
    decreases pages,
{
    if pages <= 0 {
        Seq::empty()
    } else {
        pages_writes(pager, pages - 1) + pager.flush_writes(pages - 1)
    }
}

/// What a table holds: the name of its file, the number of its rows, and its
/// cache.
pub struct TableView {
    pub filename: Seq<char>,
    pub num_rows: nat,
    pub pager: PagerView,
}

impl TableView {
    /// A table as it is when it was opened: with the rows that the file
    /// holds, and none of them in the cache.
    pub open spec fn opened(filename: Seq<char>, order: ByteOrder, num_rows: nat) -> TableView {
        TableView { filename, num_rows, pager: PagerView::empty(order) }
    }

    /// Whether the table holds no more rows than it can, and its cache is
    /// well formed. This holds of every table: of one that was just opened
    /// (`lemma_opened_wf`), and still after a row was put in (`lemma_push`)
    /// or bytes of the file were taken in (`lemma_load`).
    pub open spec fn wf(self) -> bool {
        &&& self.num_rows <= TABLE_MAX_ROWS
        &&& self.pager.wf()
    }

    /// This table with one row more, whose record is `record`.
    pub open spec fn push(self, record: Seq<u8>) -> TableView {
        let row_number = self.num_rows as int + 1;
        TableView {
            filename: self.filename,
            num_rows: self.num_rows + 1,
            pager: self.pager.with_row(page_of(row_number), slot_of(row_number), record),
        }
    }

    /// What a look for row `row_number` comes to.
    pub open spec fn lookup(self, row_number: int) -> FetchView {
        self.pager.lookup(page_of(row_number), slot_of(row_number))
    }

    /// The record that the cache has of row `row_number`.
    pub open spec fn record(self, row_number: int) -> Option<Seq<u8>> {
        self.pager.record(page_of(row_number), slot_of(row_number))
    }

    /// This table after `rows` were put in, one after the other.
    pub open spec fn push_rows(self, rows: Seq<RowView>) -> TableView
        decreases rows.len(),
    {
        if rows.len() == 0 {
            self
        } else {
            self.push_rows(rows.drop_last()).push(encode_row(self.pager.order, rows.last()))
        }
    }

    /// This table once it has taken into its cache what the file gave for
    /// the stretch `range`, or nothing where it does not take it. It takes
    /// a page, or a record of which the texts can be read, of a row that it
    /// has, if the cache does not have that page or record yet; and a
    /// record only if the cache has its page.
    pub open spec fn load(self, range: FileRange, bytes: Seq<u8>) -> Option<TableView> {
        let page = page_at(range.offset as int);
        let slot = slot_at(range.offset as int);
        if 0 <= page < TABLE_MAX_PAGES && range == page_range(page) {
            if row_number_at(page, 0) <= self.num_rows && self.pager.pages[page] is None {
                Some(
                    self.with_pager(
                        self.pager.with_page(page, PageView::empty(Some(page_image(bytes)))),
                    ),
                )
            } else {
                None
            }
        } else if 0 <= page < TABLE_MAX_PAGES && 0 <= slot < ROWS_PER_PAGE && range == row_range(
            page,
            slot,
        ) {
            if row_number_at(page, slot) <= self.num_rows && self.pager.pages[page] is Some
                && self.pager.record(page, slot) is None && bytes.len() == ROW_SIZE
                && is_text_record(bytes) {
                Some(self.with_pager(self.pager.with_row(page, slot, bytes)))
            } else {
                None
            }
        } else {
            None
        }
    }

    /// This table with another cache.
    pub open spec fn with_pager(self, pager: PagerView) -> TableView {
        TableView { filename: self.filename, num_rows: self.num_rows, pager }
    }

    /// The writes that bring the table to the file: first the number of
    /// rows into the header, then every record of the cache, page after
    /// page.
    pub open spec fn close_writes(self) -> Seq<WriteView> {
        seq![WriteView { offset: 0, bytes: u32_bytes(self.pager.order, self.num_rows as u32) }]
            + pages_writes(self.pager, TABLE_MAX_PAGES as int)
    }
}

/// A table that was just opened is well formed.
pub proof fn lemma_opened_wf(filename: Seq<char>, order: ByteOrder, num_rows: nat)
    requires
        num_rows <= TABLE_MAX_ROWS,
    ensures
        TableView::opened(filename, order, num_rows).wf(),
{
}

/// Putting a row in leaves the table well formed, gives the row the next
/// number, and leaves the record of every other row as the cache had it.
pub proof fn lemma_push(table: TableView, record: Seq<u8>)
    requires
        table.wf(),
        table.num_rows < TABLE_MAX_ROWS,
        record.len() == ROW_SIZE,
        is_text_record(record),
    ensures
        table.push(record).wf(),
        table.push(record).pager.order == table.pager.order,
        table.push(record).num_rows == table.num_rows + 1,
        table.push(record).record(table.num_rows as int + 1) == Some(record),
        forall|n: int|
            1 <= n <= TABLE_MAX_ROWS && n != table.num_rows + 1 ==> #[trigger] table.push(
                record,
            ).record(n) == table.record(n),
{
    let row_number = table.num_rows as int + 1;
    let after = table.push(record);
    lemma_row_place(row_number);
    let page = page_of(row_number);
    let before_page = match table.pager.pages[page] {
        Some(p) => p,
        None => PageView::empty(None),
    };
    assert(before_page.with_row(slot_of(row_number), record).wf());
    assert(after.pager.wf());
    assert forall|n: int|
        1 <= n <= TABLE_MAX_ROWS && n != row_number implies #[trigger] after.record(n)
        == table.record(n) by {
        lemma_row_place(n);
    }
}

/// Taking bytes of the file into the cache leaves the table well formed,
/// with as many rows, and with every record that the cache had.
pub proof fn lemma_load(table: TableView, range: FileRange, bytes: Seq<u8>)
    requires
        table.wf(),
        table.load(range, bytes) is Some,
    ensures
        table.load(range, bytes)->0.wf(),
        table.load(range, bytes)->0.num_rows == table.num_rows,
        table.load(range, bytes)->0.pager.order == table.pager.order,
        forall|n: int|
            1 <= n <= TABLE_MAX_ROWS && table.record(n) is Some ==> #[trigger] table.load(
                range,
                bytes,
            )->0.record(n) == table.record(n),
{
    let after = table.load(range, bytes)->0;
    let page = page_at(range.offset as int);
    assert(after.pager.pages[page]->0.wf());
    assert(after.pager.wf());
    assert forall|n: int|
        1 <= n <= TABLE_MAX_ROWS && table.record(n) is Some implies #[trigger] after.record(n)
        == table.record(n) by {
        lemma_row_place(n);
    }
}

/// Sequential addressing: after rows were put into a table one after the
/// other, the table has that many rows more, and a look for the `k`-th of
/// the new rows finds that row: unchanged, if its texts do not end in a NUL
/// character, and else without the NUL characters at their end, which are
/// taken for padding. This holds of rows whose texts fit into their columns.
pub proof fn lemma_sequential_addressing(table: TableView, rows: Seq<RowView>, k: int)
    requires
        table.wf(),
        table.num_rows + rows.len() <= TABLE_MAX_ROWS,
        forall|i: int| 0 <= i < rows.len() ==> (#[trigger] rows[i]).fits(),
        1 <= k <= rows.len(),
    ensures
        table.push_rows(rows).num_rows == table.num_rows + rows.len(),
        table.push_rows(rows).lookup(table.num_rows + k) == FetchView::Row(
            rows[k - 1].without_nuls(),
        ),
        rows[k - 1].ends_in_text() ==> table.push_rows(rows).lookup(table.num_rows + k)
            == FetchView::Row(rows[k - 1]),
{
    lemma_push_rows(table, rows);
    let order = table.pager.order;
    let row = rows[k - 1];
    lemma_decode_encode_row(order, row);
    if row.ends_in_text() {
        lemma_round_trip(order, row);
    }
    let after = table.push_rows(rows);
    assert(after.record(table.num_rows + k) == Some(encode_row(order, row)));
}

/// After rows were put into a table one after the other, the table is well
/// formed and has that many rows more; the cache has the record of each of
/// them under its number, and the records of the rows before them as it
/// had them.
pub proof fn lemma_push_rows(table: TableView, rows: Seq<RowView>)
    requires
        table.wf(),
        table.num_rows + rows.len() <= TABLE_MAX_ROWS,
        forall|i: int| 0 <= i < rows.len() ==> (#[trigger] rows[i]).fits(),
    ensures
        table.push_rows(rows).wf(),
        table.push_rows(rows).pager.order == table.pager.order,
        table.push_rows(rows).filename == table.filename,
        table.push_rows(rows).num_rows == table.num_rows + rows.len(),
        forall|k: int|
            1 <= k <= rows.len() ==> #[trigger] table.push_rows(rows).record(table.num_rows + k)
                == Some(encode_row(table.pager.order, rows[k - 1])),
        forall|n: int|
            1 <= n <= table.num_rows ==> #[trigger] table.push_rows(rows).record(n)
                == table.record(n),
    decreases rows.len(),
{
    if rows.len() > 0 {
        let order = table.pager.order;
        let before = table.push_rows(rows.drop_last());
        let record = encode_row(order, rows.last());
        lemma_push_rows(table, rows.drop_last());
        lemma_encode_row_is_text(order, rows.last());
        lemma_push(before, record);
        let after = before.push(record);
        assert forall|k: int| 1 <= k <= rows.len() implies #[trigger] after.record(
            table.num_rows + k,
        ) == Some(encode_row(order, rows[k - 1])) by {
            if k < rows.len() {
                assert(before.record(table.num_rows + k) == Some(
                    encode_row(order, rows.drop_last()[k - 1]),
                ));
            }
        }
        assert forall|n: int| 1 <= n <= table.num_rows implies #[trigger] after.record(n)
            == table.record(n) by {}
    }
}

/// A number of rows that a table can hold.
#[derive(Debug)]
struct RowCount {
    value: u32,
}

impl RowCount {
    #[verifier::type_invariant]
    closed spec fn inv(self) -> bool {
        self.value <= TABLE_MAX_ROWS
    }

    fn new(value: u32) -> (count: RowCount)
        requires
            value <= TABLE_MAX_ROWS,
        ensures
            count.value == value,
    {
        RowCount { value }
    }

    fn get(&self) -> (value: u32)
        ensures
            value == self.value,
            value <= TABLE_MAX_ROWS,
    {
        proof {
            use_type_invariant(self);
        }
        self.value
    }

    fn increment(&mut self)
        requires
            old(self).value < TABLE_MAX_ROWS,
        ensures
            final(self).value == old(self).value + 1,
    {
        self.value += 1;
    }
}

/// The table.
#[derive(Debug)]
pub struct Table {
    num_rows: RowCount,
    filename: String,
    pager: Pager,
}

impl View for Table {
    type V = TableView;

    closed spec fn view(&self) -> TableView {
        TableView {
            filename: self.filename@,
            num_rows: self.num_rows.value as nat,
            pager: self.pager@,
        }
    }
}

impl Table {
    /// The page and the slot of row `row_num`, where rows are counted from
    /// one. Putting a row in and looking for it both go by this.
    pub fn row_slot(row_num: usize) -> (place: (usize, usize))
        requires
            1 <= row_num <= TABLE_MAX_ROWS,
        ensures
            place.0 == page_of(row_num as int),
            place.1 == slot_of(row_num as int),
            place.0 < TABLE_MAX_PAGES,
            place.1 < ROWS_PER_PAGE,
    {
        proof {
            lemma_row_place(row_num as int);
        }
        let page_index = (row_num - 1) / ROWS_PER_PAGE;
        let row_index = (row_num - 1) % ROWS_PER_PAGE;
        (page_index, row_index)
    }

    /// The table of the file `filename`, given the bytes that a read of
    /// `HEADER_SIZE` bytes at the start of the file gave, and the byte
    /// order of the numbers in the file. The table has the rows that the
    /// header says, none where the file is too short to have a header, and
    /// nothing in its cache. The header must not say more rows than a table
    /// can hold.
    pub fn open(filename: String, order: ByteOrder, header: &[u8]) -> (table: Table)
        requires
            header_count(order, header@) <= TABLE_MAX_ROWS,
        ensures
            table@ == TableView::opened(filename@, order, header_count(order, header@) as nat),
    {
        let pager = Pager::new(order);
        let num_rows = RowCount::new(pager.get_num_rows(header));
        Table { num_rows, filename, pager }
    }

    /// The number of rows in the table.
    pub fn num_rows(&self) -> (num_rows: u32)
        ensures
            num_rows == self@.num_rows,
            num_rows <= TABLE_MAX_ROWS,
    {
        self.num_rows.get()
    }

    /// The name of the table's file.
    pub fn filename(&self) -> (filename: &str)
        ensures
            filename@ == self@.filename,
    {
        self.filename.as_str()
    }

    /// The writes that bring the table to the file: the number of rows
    /// into the header first, then every record of the cache, page after
    /// page. The table is done with after this.
    pub fn close(self) -> (writes: Vec<FileWrite>)
        ensures
            views(writes@) == self@.close_writes(),
    {
        let mut writes: Vec<FileWrite> = Vec::new();
        writes.push(self.pager.write_num_rows(self.num_rows.get()));
        assert(views(writes@) =~= seq![
            WriteView { offset: 0, bytes: u32_bytes(self@.pager.order, self@.num_rows as u32) },
        ]);
        let mut i: usize = 0;
        while i < TABLE_MAX_PAGES
            invariant
                i <= TABLE_MAX_PAGES,
                views(writes@) == seq![
                    WriteView {
                        offset: 0,
                        bytes: u32_bytes(self@.pager.order, self@.num_rows as u32),
                    },
                ] + pages_writes(self@.pager, i as int),
            decreases TABLE_MAX_PAGES - i,
        {
            let ghost before = writes@;
            let mut page = self.pager.flush(i);
            let ghost added = page@;
            writes.append(&mut page);
            assert(views(writes@) =~= views(before) + views(added));
            i += 1;
        }
        writes
    }

    /// Puts `row` in as the next row of the table. A table that is full
    /// refuses it with `TableFull`, and a row of which a text is too long
    /// for its column is refused with `ByteOverflow`; the table then stays
    /// as it was. Nothing is read or written for this.
    pub fn push_row(&mut self, row: Row) -> (result: Result<(), TableError>)
        ensures
            result is Ok <==> old(self)@.num_rows < TABLE_MAX_ROWS && row@.fits(),
            result == Err::<(), TableError>(TableError::TableFull) <==> old(self)@.num_rows
                == TABLE_MAX_ROWS,
            result == Err::<(), TableError>(TableError::ByteOverflow) <==> old(self)@.num_rows
                < TABLE_MAX_ROWS && !row@.fits(),
            result != Err::<(), TableError>(TableError::TableIndexError),
            result is Ok ==> final(self)@ == old(self)@.push(
                encode_row(old(self)@.pager.order, row@),
            ),
            result is Err ==> final(self)@ == old(self)@,
    {
        let num_rows = self.num_rows.get() as usize;
        if num_rows == TABLE_MAX_ROWS {
            return Err(TableError::TableFull);
        }
        let (page_index, row_index) = Self::row_slot(num_rows + 1);
        let order = self.pager.order();
        let ghost view = row@;
        match row.serialize(order) {
            Ok(record) => {
                proof {
                    lemma_encode_row_is_text(order, view);
                }
                self.pager.put_row(page_index, row_index, record);
                self.num_rows.increment();
                Ok(())
            },
            Err(e) => Err(e),
        }
    }

    /// Looks for row `row_number`, where rows are counted from one. A
    /// number that is zero or above the number of rows is refused with
    /// `TableIndexError`. Else the row is given if the cache has its
    /// record; if not, the result says what is to be read from the file
    /// and handed to `load` before the next look.
    pub fn get_row(&self, row_number: usize) -> (result: Result<Fetch, TableError>)
        ensures
            result is Err <==> (row_number == 0 || row_number > self@.num_rows),
            result matches Err(e) ==> e == TableError::TableIndexError,
            result matches Ok(fetch) ==> fetch@ == self@.lookup(row_number as int),
    {
        if row_number == 0 || row_number > self.num_rows.get() as usize {
            return Err(TableError::TableIndexError);
        }
        let (page_index, row_index) = Self::row_slot(row_number);
        Ok(self.pager.get_row(page_index, row_index))
    }

    /// Takes into the cache what the file gave for a stretch that `get_row`
    /// asked for. For the stretch of a page, fewer bytes than a page has
    /// stand for a page of zeros. For the stretch of a record, the bytes
    /// must be a whole record of which the texts can be read. Nothing is
    /// taken that the cache has already, or that is no page or record of a
    /// row of the table; the table then stays as it was. Says whether the
    /// bytes were taken.
    pub fn load(&mut self, range: FileRange, bytes: &[u8]) -> (loaded: bool)
        ensures
            loaded == old(self)@.load(range, bytes@) is Some,
            loaded ==> Some(final(self)@) == old(self)@.load(range, bytes@),
            !loaded ==> final(self)@ == old(self)@,
    {
        let num_rows = self.num_rows.get() as usize;
        if range.offset < HEADER_SIZE as u64 || range.offset >= (HEADER_SIZE + TABLE_MAX_PAGES
            * PAGE_SIZE) as u64 {
            return false;
        }
        let behind: usize = range.offset as usize - HEADER_SIZE;
        let page: usize = behind / PAGE_SIZE;
        let in_page: usize = behind % PAGE_SIZE;
        let slot: usize = in_page / ROW_SIZE;
        if range.len == PAGE_SIZE {
            if in_page != 0 || page * ROWS_PER_PAGE >= num_rows {
                return false;
            }
            self.pager.load_page(page, bytes)
        } else if range.len == ROW_SIZE {
            if slot >= ROWS_PER_PAGE || in_page % ROW_SIZE != 0 || page * ROWS_PER_PAGE + slot
                >= num_rows {
                return false;
            }
            self.pager.load_row(page, slot, bytes)
        } else {
            false
        }
    }
}

} // verus!
