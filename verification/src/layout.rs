//! The layout of the file: a header of `HEADER_SIZE` bytes that holds the
//! number of rows, then the pages, each of `PAGE_SIZE` bytes and holding
//! `ROWS_PER_PAGE` records of `ROW_SIZE` bytes each.

use vstd::prelude::*;

verus! {

/// The most bytes that a user name can take.
pub const USERNAME_MAX: usize = 32;

/// The most bytes that an e-mail address can take.
pub const EMAIL_MAX: usize = 255;

/// The bytes at the start of the file that hold the number of rows.
pub const HEADER_SIZE: usize = 4;

/// The bytes of a record that hold the row's number.
pub const ID_SIZE: usize = 4;

pub const USERNAME_SIZE: usize = USERNAME_MAX;

pub const EMAIL_SIZE: usize = EMAIL_MAX;

pub const ID_OFFSET: usize = 0;

/// Where the user name starts in a record.
pub const USERNAME_OFFSET: usize = ID_OFFSET + ID_SIZE;

/// Where the e-mail address starts in a record.
pub const EMAIL_OFFSET: usize = USERNAME_OFFSET + USERNAME_SIZE;

/// The bytes of a record: `ID_SIZE + USERNAME_SIZE + EMAIL_SIZE`.
pub const ROW_SIZE: usize = 291;

/// The bytes of a page.
pub const PAGE_SIZE: usize = 4096;

/// The most pages that a table can have.
pub const TABLE_MAX_PAGES: usize = 100;

/// The records that a page holds: as many as fit into it, which is
/// `PAGE_SIZE / ROW_SIZE`. What is left of the page after them is never
/// used.
pub const ROWS_PER_PAGE: usize = 14;

/// The most rows that a table can hold: `ROWS_PER_PAGE * TABLE_MAX_PAGES`.
pub const TABLE_MAX_ROWS: usize = 1400;

/// The size of a record and the numbers of rows are what the sizes of the
/// parts make them.
pub proof fn lemma_capacity()
    ensures
        ROW_SIZE == ID_SIZE + USERNAME_SIZE + EMAIL_SIZE,
        ROWS_PER_PAGE == PAGE_SIZE / ROW_SIZE,
        TABLE_MAX_ROWS == ROWS_PER_PAGE * TABLE_MAX_PAGES,
{
}

/// The page that holds row `row_number`, where rows are counted from one.
pub open spec fn page_of(row_number: int) -> int {
    (row_number - 1) / (ROWS_PER_PAGE as int)
}

/// The slot that row `row_number` has in its page, where rows are counted
/// from one and slots from zero.
pub open spec fn slot_of(row_number: int) -> int {
    (row_number - 1) % (ROWS_PER_PAGE as int)
}

/// The number of the row in slot `slot` of page `page`.
pub open spec fn row_number_at(page: int, slot: int) -> int {
    page * ROWS_PER_PAGE + slot + 1
}

/// Where page `page` starts in the file.
pub open spec fn page_offset(page: int) -> int {
    HEADER_SIZE + page * PAGE_SIZE
}

/// Where the record in slot `slot` of page `page` starts in the file.
pub open spec fn row_offset(page: int, slot: int) -> int {
    HEADER_SIZE + page * PAGE_SIZE + slot * ROW_SIZE
}

/// The page in which the byte at `offset` of the file lies.
pub open spec fn page_at(offset: int) -> int {
    (offset - HEADER_SIZE) / (PAGE_SIZE as int)
}

/// The slot in whose record the byte at `offset` of the file lies, if it
/// lies in a record.
pub open spec fn slot_at(offset: int) -> int {
    ((offset - HEADER_SIZE) % (PAGE_SIZE as int)) / (ROW_SIZE as int)
}

/// Every row of a table has its page and its slot, and no two rows share
/// them.
pub proof fn lemma_row_place(row_number: int)
    requires
        1 <= row_number <= TABLE_MAX_ROWS,
    ensures
        0 <= page_of(row_number) < TABLE_MAX_PAGES,
        0 <= slot_of(row_number) < ROWS_PER_PAGE,
        row_number_at(page_of(row_number), slot_of(row_number)) == row_number,
{
}

/// A byte of a record lies in the page and the slot of that record and of
/// no other, and behind the header.
pub proof fn lemma_place_of_offset(page: int, slot: int, offset: int)
    requires
        0 <= page < TABLE_MAX_PAGES,
        0 <= slot < ROWS_PER_PAGE,
        row_offset(page, slot) <= offset < row_offset(page, slot) + ROW_SIZE,
    ensures
        HEADER_SIZE <= offset,
        page_at(offset) == page,
        slot_at(offset) == slot,
{
}

} // verus!
