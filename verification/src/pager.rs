//! The cache of pages, and the decisions on what has to be read from the
//! file and what has to be written to it.
//!
//! A look into the cache either finds what was asked for or says which bytes
//! of the file are needed. Whoever holds the file reads them and hands them
//! to `load_page` or `load_row`; after that the look succeeds.

use crate::byte_order::{u32_bytes, u32_value, ByteOrder};
use crate::bytes::array_at;
use crate::file::{views, FileRange, FileWrite, WriteView};
use crate::layout::{
    page_offset, row_offset, HEADER_SIZE, PAGE_SIZE, ROWS_PER_PAGE, ROW_SIZE, TABLE_MAX_PAGES,
};
use crate::page::{Page, PageView};
use crate::row::{decode_row, is_text_record, Row, RowBytes, RowView};
use vstd::prelude::*;
use vstd::slice::slice_to_vec;

verus! {

/// What a look for a row came to.
#[derive(Debug)]
pub enum Fetch {
    /// The row.
    Row(Row),
    /// The page of the row is not in the cache. It lies in this stretch of
    /// the file, which is to be read and handed to the cache.
    NeedPage(FileRange),
    /// The page is in the cache, the record of the row is not. It lies in
    /// this stretch of the file, which is to be read and handed to the
    /// cache.
    NeedRow(FileRange),
}

/// What a `Fetch` holds.
pub enum FetchView {
    Row(RowView),
    NeedPage(FileRange),
    NeedRow(FileRange),
}

impl View for Fetch {
    type V = FetchView;

    open spec fn view(&self) -> FetchView {
        match self {
            Fetch::Row(row) => FetchView::Row(row@),
            Fetch::NeedPage(range) => FetchView::NeedPage(*range),
            Fetch::NeedRow(range) => FetchView::NeedRow(*range),
        }
    }
}

/// The stretch of the file that holds page `page`.
pub open spec fn page_range(page: int) -> FileRange {
    FileRange { offset: page_offset(page) as u64, len: PAGE_SIZE }
}

/// The stretch of the file that holds the record in slot `slot` of page
/// `page`.
pub open spec fn row_range(page: int, slot: int) -> FileRange {
    FileRange { offset: row_offset(page, slot) as u64, len: ROW_SIZE }
}

/// The number of rows that the start of a file says: the number held by its
/// first `HEADER_SIZE` bytes, and zero where the file is shorter than that.
pub open spec fn header_count(order: ByteOrder, header: Seq<u8>) -> u32 {
    if header.len() >= HEADER_SIZE {
        u32_value(order, header.take(HEADER_SIZE as int))
    } else {
        0
    }
}

/// The bytes of a page for which the file gave `read`: its first `PAGE_SIZE`
/// bytes, and zeros only where the file gave fewer than that.
pub open spec fn page_image(read: Seq<u8>) -> Seq<u8> {
    if read.len() >= PAGE_SIZE {
        read.take(PAGE_SIZE as int)
    } else {
        Seq::new(PAGE_SIZE as nat, |i: int| 0u8)
    }
}

/// The writes that bring the first `slots` slots of a page to the file: one
/// for each record among them, in the order of the slots, at the place of
/// the record in the file.
pub open spec fn page_writes(page: PageView, page_index: int, slots: int) -> Seq<WriteView>
    decreases slots,
{
    if slots <= 0 {
        Seq::empty()
    } else {
        let before = page_writes(page, page_index, slots - 1);
        match page.rows[slots - 1] {
            Some(record) => before.push(
                WriteView { offset: row_offset(page_index, slots - 1), bytes: record },
            ),
            None => before,
        }
    }
}

/// What a pager holds: for each page of the table what the cache has of it,
/// and the byte order of the numbers in the file.
pub struct PagerView {
    pub pages: Seq<Option<PageView>>,
    pub order: ByteOrder,
}

impl PagerView {
    /// A cache without pages.
    pub open spec fn empty(order: ByteOrder) -> PagerView {
        PagerView { pages: Seq::new(TABLE_MAX_PAGES as nat, |i: int| None::<PageView>), order }
    }

    /// Whether there is an entry for each page of the table, and every page
    /// in the cache is well formed.
    pub open spec fn wf(self) -> bool {
        &&& self.pages.len() == TABLE_MAX_PAGES
        &&& forall|i: int|
            0 <= i < TABLE_MAX_PAGES ==> (#[trigger] self.pages[i] matches Some(page)
                ==> page.wf())
    }

    /// The record that the cache has for slot `slot` of page `page`.
    pub open spec fn record(self, page: int, slot: int) -> Option<Seq<u8>> {
        match self.pages[page] {
            Some(p) => p.rows[slot],
            None => None,
        }
    }

    /// This cache with `page` as page `index`.
    pub open spec fn with_page(self, index: int, page: PageView) -> PagerView {
        PagerView { pages: self.pages.update(index, Some(page)), order: self.order }
    }

    /// This cache with `record` in slot `slot` of page `page`, which is
    /// made new if the cache does not have it.
    pub open spec fn with_row(self, page: int, slot: int, record: Seq<u8>) -> PagerView {
        let before = match self.pages[page] {
            Some(p) => p,
            None => PageView::empty(None),
        };
        self.with_page(page, before.with_row(slot, record))
    }

    /// What a look for the row in slot `slot` of page `page` comes to.
    pub open spec fn lookup(self, page: int, slot: int) -> FetchView {
        match self.pages[page] {
            None => FetchView::NeedPage(page_range(page)),
            Some(p) => match p.rows[slot] {
                None => FetchView::NeedRow(row_range(page, slot)),
                Some(record) => FetchView::Row(decode_row(self.order, record)),
            },
        }
    }

    /// The writes that bring page `page` to the file: none if the cache
    /// does not have the page, else one for each record in it.
    pub open spec fn flush_writes(self, page: int) -> Seq<WriteView> {
        match self.pages[page] {
            Some(p) => page_writes(p, page, ROWS_PER_PAGE as int),
            None => Seq::empty(),
        }
    }
}

/// The cache of pages.
#[derive(Debug)]
pub struct Pager {
    pages: Vec<Option<Page>>,
    order: ByteOrder,
}

impl View for Pager {
    type V = PagerView;

    closed spec fn view(&self) -> PagerView {
        PagerView {
            pages: Seq::new(
                self.pages@.len(),
                |i: int|
                    match self.pages@[i] {
                        Some(page) => Some(page@),
                        None => None,
                    },
            ),
            order: self.order,
        }
    }
}

impl Pager {
    /// What holds of every pager: it has an entry for each page of the
    /// table.
    #[verifier::type_invariant]
    pub closed spec fn inv(self) -> bool {
        self.pages@.len() == TABLE_MAX_PAGES
    }

    /// A pager with nothing in its cache, for a file whose numbers are in
    /// the given byte order.
    pub fn new(order: ByteOrder) -> (pager: Pager)
        ensures
            pager@ == PagerView::empty(order),
    {
        let mut pages: Vec<Option<Page>> = Vec::new();
        let mut i: usize = 0;
        while i < TABLE_MAX_PAGES
            invariant
                i <= TABLE_MAX_PAGES,
                pages@.len() == i,
                forall|j: int| 0 <= j < i ==> pages@[j] is None,
            decreases TABLE_MAX_PAGES - i,
        {
            pages.push(None);
            i += 1;
        }
        let pager = Pager { pages, order };
        assert(pager@.pages =~= PagerView::empty(order).pages);
        pager
    }

    /// The byte order of the numbers in the file.
    pub fn order(&self) -> (order: ByteOrder)
        ensures
            order == self@.order,
    {
        self.order
    }

    /// The stretch of the file that holds page `page_index`.
    pub fn page_range(page_index: usize) -> (range: FileRange)
        requires
            page_index < TABLE_MAX_PAGES,
        ensures
            range == page_range(page_index as int),
    {
        FileRange { offset: (HEADER_SIZE + page_index * PAGE_SIZE) as u64, len: PAGE_SIZE }
    }

    /// The stretch of the file that holds the record in slot `row_index` of
    /// page `page_index`.
    pub fn row_range(page_index: usize, row_index: usize) -> (range: FileRange)
        requires
            page_index < TABLE_MAX_PAGES,
            row_index < ROWS_PER_PAGE,
        ensures
            range == row_range(page_index as int, row_index as int),
    {
        FileRange {
            offset: (HEADER_SIZE + page_index * PAGE_SIZE + row_index * ROW_SIZE) as u64,
            len: ROW_SIZE,
        }
    }

    /// The number of rows that the file holds, given the bytes that a read
    /// of `HEADER_SIZE` bytes at its start gave. A file too short for a
    /// header holds no rows.
    pub fn get_num_rows(&self, header: &[u8]) -> (num_rows: u32)
        ensures
            num_rows == header_count(self@.order, header@),
    {
        if header.len() >= HEADER_SIZE {
            let bytes: [u8; HEADER_SIZE] = array_at(header, 0);
            self.order.decode_u32(&bytes)
        } else {
            0
        }
    }

    /// The write that puts `num_rows` into the header of the file.
    pub fn write_num_rows(&self, num_rows: u32) -> (write: FileWrite)
        ensures
            write@ == (WriteView { offset: 0, bytes: u32_bytes(self@.order, num_rows) }),
    {
        let bytes = self.order.encode_u32(num_rows);
        FileWrite { offset: 0, bytes: slice_to_vec(bytes.as_slice()) }
    }

    /// Page `page_index` as the cache has it, or `None` if it does not: the
    /// page then lies in `page_range(page_index)` of the file and is to be
    /// handed to `load_page`.
    pub fn get_page(&self, page_index: usize) -> (page: Option<&Page>)
        requires
            page_index < TABLE_MAX_PAGES,
        ensures
            page is Some <==> self@.pages[page_index as int] is Some,
            page matches Some(p) ==> self@.pages[page_index as int] == Some(p@),
    {
        proof {
            use_type_invariant(self);
        }
        self.pages[page_index].as_ref()
    }

    /// Takes page `page_index` into the cache, as the bytes that the file
    /// gave for `page_range(page_index)`. Fewer bytes than a page has, as
    /// for a page that was never written, stand for a page of zeros. A page
    /// that the cache has already stays as it is. Says whether the page was
    /// taken in.
    pub fn load_page(&mut self, page_index: usize, bytes: &[u8]) -> (loaded: bool)
        requires
            page_index < TABLE_MAX_PAGES,
        ensures
            loaded == (old(self)@.pages[page_index as int] is None),
            loaded ==> final(self)@ == old(self)@.with_page(
                page_index as int,
                PageView::empty(Some(page_image(bytes@))),
            ),
            !loaded ==> final(self)@ == old(self)@,
    {
        proof {
            use_type_invariant(&*self);
        }
        if self.pages[page_index].is_some() {
            return false;
        }
        let image: [u8; PAGE_SIZE] = if bytes.len() >= PAGE_SIZE {
            array_at(bytes, 0)
        } else {
            [0u8; PAGE_SIZE]
        };
        assert(image@ =~= page_image(bytes@));
        self.pages[page_index] = Some(Page::from_bytes(image));
        assert(self@.pages =~= old(self)@.with_page(
            page_index as int,
            PageView::empty(Some(page_image(bytes@))),
        ).pages);
        true
    }

    /// Looks for the row in slot `row_index` of page `page_index`: gives
    /// the row if the cache has its record, and else says what is to be
    /// read, the page first.
    pub fn get_row(&self, page_index: usize, row_index: usize) -> (fetch: Fetch)
        requires
            page_index < TABLE_MAX_PAGES,
            row_index < ROWS_PER_PAGE,
        ensures
            fetch@ == self@.lookup(page_index as int, row_index as int),
    {
        match self.get_page(page_index) {
            None => Fetch::NeedPage(Self::page_range(page_index)),
            Some(page) => match page.row(row_index) {
                None => Fetch::NeedRow(Self::row_range(page_index, row_index)),
                Some(record) => Fetch::Row(record.deserialize(self.order)),
            },
        }
    }

    /// Takes the record in slot `row_index` of page `page_index` into the
    /// cache, as the bytes that the file gave for `row_range(page_index,
    /// row_index)`. They are taken if the cache has the page and no record
    /// in the slot yet, and if they are a whole record of which the texts
    /// can be read; else the cache stays as it is. Says whether they were
    /// taken.
    pub fn load_row(&mut self, page_index: usize, row_index: usize, bytes: &[u8]) -> (loaded: bool)
        requires
            page_index < TABLE_MAX_PAGES,
            row_index < ROWS_PER_PAGE,
        ensures
            loaded == (old(self)@.pages[page_index as int] is Some && old(self)@.record(
                page_index as int,
                row_index as int,
            ) is None && bytes@.len() == ROW_SIZE && is_text_record(bytes@)),
            loaded ==> final(self)@ == old(self)@.with_row(
                page_index as int,
                row_index as int,
                bytes@,
            ),
            !loaded ==> final(self)@ == old(self)@,
    {
        proof {
            use_type_invariant(&*self);
        }
        if bytes.len() != ROW_SIZE {
            return false;
        }
        let mut page: Page = match self.pages[page_index] {
            Some(page) => page,
            None => {
                return false;
            },
        };
        if page.row(row_index).is_some() {
            return false;
        }
        let image: [u8; ROW_SIZE] = array_at(bytes, 0);
        assert(image@ =~= bytes@);
        let record = RowBytes::new(image);
        if !record.is_text() {
            return false;
        }
        page.set_row(row_index, record);
        self.pages[page_index] = Some(page);
        assert(self@.pages =~= old(self)@.with_row(
            page_index as int,
            row_index as int,
            bytes@,
        ).pages);
        true
    }

    /// Puts `record` into slot `row_index` of page `page_index`, which is
    /// made new if the cache does not have it. Nothing is read for this.
    pub fn put_row(&mut self, page_index: usize, row_index: usize, record: RowBytes)
        requires
            page_index < TABLE_MAX_PAGES,
            row_index < ROWS_PER_PAGE,
            record.spec_is_text(),
        ensures
            final(self)@ == old(self)@.with_row(page_index as int, row_index as int, record@),
    {
        proof {
            use_type_invariant(&*self);
        }
        let mut page: Page = match self.pages[page_index] {
            Some(page) => page,
            None => Page::new(),
        };
        page.set_row(row_index, record);
        self.pages[page_index] = Some(page);
        assert(self@.pages =~= old(self)@.with_row(
            page_index as int,
            row_index as int,
            record@,
        ).pages);
    }

    /// The writes that bring page `page_num` to the file: one for each
    /// record that the cache has of it, at the place of that record alone,
    /// so that what the file holds of the other records stays. A page that
    /// is not in the cache needs none.
    pub fn flush(&self, page_num: usize) -> (writes: Vec<FileWrite>)
        requires
            page_num < TABLE_MAX_PAGES,
        ensures
            views(writes@) == self@.flush_writes(page_num as int),
    {
        let mut writes: Vec<FileWrite> = Vec::new();
        match self.get_page(page_num) {
            None => {},
            Some(page) => {
                let mut i: usize = 0;
                while i < ROWS_PER_PAGE
                    invariant
                        i <= ROWS_PER_PAGE,
                        page_num < TABLE_MAX_PAGES,
                        views(writes@) == page_writes(page@, page_num as int, i as int),
                    decreases ROWS_PER_PAGE - i,
                {
                    if let Some(record) = page.row(i) {
                        let range = Self::row_range(page_num, i);
                        let bytes = record.serialize();
                        let ghost before = writes@;
                        let bytes = slice_to_vec(bytes.as_slice());
                        writes.push(FileWrite { offset: range.offset, bytes });
                        assert(views(writes@) =~= views(before).push(
                            WriteView {
                                offset: row_offset(page_num as int, i as int),
                                bytes: record@,
                            },
                        ));
                    }
                    i += 1;
                }
            },
        }
        writes
    }
}

} // verus!
