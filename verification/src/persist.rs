//! What closing a table leaves in its file.

use crate::byte_order::{lemma_u32_value_of_bytes, u32_bytes};
use crate::file::{lemma_write_all_keeps, lemma_write_all_sets, read_at, write_all, WriteView};
use crate::layout::{
    lemma_place_of_offset, lemma_row_place, page_at, page_of, page_offset, row_offset, slot_at,
    slot_of, HEADER_SIZE, ROWS_PER_PAGE, ROW_SIZE, TABLE_MAX_PAGES, TABLE_MAX_ROWS,
};
use crate::pager::{header_count, page_range, page_writes, row_range, FetchView, PagerView};
use crate::table::{pages_writes, TableView};
use vstd::prelude::*;

verus! {

/// Whether `write` brings a record of the cache to its place in the file.
pub open spec fn is_record_write(pager: PagerView, write: WriteView) -> bool {
    let page = page_at(write.offset);
    let slot = slot_at(write.offset);
    &&& 0 <= page < TABLE_MAX_PAGES
    &&& 0 <= slot < ROWS_PER_PAGE
    &&& write.offset == row_offset(page, slot)
    &&& pager.record(page, slot) == Some(write.bytes)
}

/// The write that brings `record` to slot `slot` of page `page`.
pub open spec fn record_write(page: int, slot: int, record: Seq<u8>) -> WriteView {
    WriteView { offset: row_offset(page, slot), bytes: record }
}

/// Each write for a page brings a record of that page to its place.
proof fn lemma_page_writes_are_records(pager: PagerView, page: int, slots: int)
    requires
        0 <= page < TABLE_MAX_PAGES,
        0 <= slots <= ROWS_PER_PAGE,
        pager.wf(),
        pager.pages[page] is Some,
    ensures
        forall|i: int|
            0 <= i < page_writes(pager.pages[page]->0, page, slots).len() ==> is_record_write(
                pager,
                #[trigger] page_writes(pager.pages[page]->0, page, slots)[i],
            ),
    decreases slots,
{
    if slots > 0 {
        lemma_page_writes_are_records(pager, page, slots - 1);
        let writes = page_writes(pager.pages[page]->0, page, slots);
        let before = page_writes(pager.pages[page]->0, page, slots - 1);
        assert forall|i: int| 0 <= i < writes.len() implies is_record_write(
            pager,
            #[trigger] writes[i],
        ) by {
            if i < before.len() {
                assert(writes[i] == before[i]);
            } else {
                lemma_place_of_offset(page, slots - 1, writes[i].offset);
            }
        }
    }
}

/// Each record of a page has its write among the writes for the page.
proof fn lemma_page_writes_has(pager: PagerView, page: int, slots: int, slot: int) -> (which: int)
    requires
        0 <= page < TABLE_MAX_PAGES,
        0 <= slot < slots <= ROWS_PER_PAGE,
        pager.wf(),
        pager.pages[page] is Some,
        pager.record(page, slot) is Some,
    ensures
        0 <= which < page_writes(pager.pages[page]->0, page, slots).len(),
        page_writes(pager.pages[page]->0, page, slots)[which] == record_write(
            page,
            slot,
            pager.record(page, slot)->0,
        ),
    decreases slots,
{
    if slot == slots - 1 {
        page_writes(pager.pages[page]->0, page, slots - 1).len() as int
    } else {
        lemma_page_writes_has(pager, page, slots - 1, slot)
    }
}

/// Each write for the pages brings a record of the cache to its place.
proof fn lemma_pages_writes_are_records(pager: PagerView, pages: int)
    requires
        0 <= pages <= TABLE_MAX_PAGES,
        pager.wf(),
    ensures
        forall|i: int|
            0 <= i < pages_writes(pager, pages).len() ==> is_record_write(
                pager,
                #[trigger] pages_writes(pager, pages)[i],
            ),
    decreases pages,
{
    if pages > 0 {
        lemma_pages_writes_are_records(pager, pages - 1);
        if pager.pages[pages - 1] is Some {
            lemma_page_writes_are_records(pager, pages - 1, ROWS_PER_PAGE as int);
        }
        let writes = pages_writes(pager, pages);
        let before = pages_writes(pager, pages - 1);
        let added = pager.flush_writes(pages - 1);
        assert forall|i: int| 0 <= i < writes.len() implies is_record_write(
            pager,
            #[trigger] writes[i],
        ) by {
            if i < before.len() {
                assert(writes[i] == before[i]);
            } else {
                assert(writes[i] == added[i - before.len()]);
            }
        }
    }
}

/// Each record of the cache has its write among the writes for the pages.
proof fn lemma_pages_writes_has(pager: PagerView, pages: int, page: int, slot: int) -> (which:
    int)
    requires
        0 <= page < pages <= TABLE_MAX_PAGES,
        0 <= slot < ROWS_PER_PAGE,
        pager.wf(),
        pager.record(page, slot) is Some,
    ensures
        0 <= which < pages_writes(pager, pages).len(),
        pages_writes(pager, pages)[which] == record_write(
            page,
            slot,
            pager.record(page, slot)->0,
        ),
    decreases pages,
{
    let before = pages_writes(pager, pages - 1);
    if page == pages - 1 {
        let i = lemma_page_writes_has(pager, page, ROWS_PER_PAGE as int, slot);
        before.len() + i
    } else {
        lemma_pages_writes_has(pager, pages - 1, page, slot)
    }
}

/// Persistence: after the writes of `close`, the file says in its header
/// how many rows the table has; it holds each record that was in the cache
/// at the place of its row; and every byte that it held before, outside
/// the header and those records, is as it was. So a row that was in the
/// file and never came into the cache is still there.
pub proof fn lemma_close_persists(table: TableView, file: Seq<u8>)
    requires
        table.wf(),
    ensures
        ({
            let after = write_all(file, table.close_writes());
            &&& after.len() >= file.len()
            &&& header_count(table.pager.order, read_at(after, 0, HEADER_SIZE as int))
                == table.num_rows
            &&& forall|n: int|
                #![trigger table.record(n)]
                1 <= n <= TABLE_MAX_ROWS && table.record(n) is Some ==> read_at(
                    after,
                    row_offset(page_of(n), slot_of(n)),
                    ROW_SIZE as int,
                ) == table.record(n)->0
            &&& forall|k: int|
                #![trigger after[k]]
                HEADER_SIZE <= k < file.len() && table.pager.record(page_at(k), slot_at(k))
                    is None ==> after[k] == file[k]
        }),
{
    let pager = table.pager;
    let header = WriteView { offset: 0, bytes: u32_bytes(pager.order, table.num_rows as u32) };
    let records = pages_writes(pager, TABLE_MAX_PAGES as int);
    let writes = table.close_writes();
    let after = write_all(file, writes);
    lemma_u32_value_of_bytes(pager.order, table.num_rows as u32);
    lemma_pages_writes_are_records(pager, TABLE_MAX_PAGES as int);
    lemma_len_grows(file, writes);

    // The first write is that of the header, the others are of records, and
    // those lie behind the header.
    assert(writes[0] == header);
    assert forall|i: int| 1 <= i < writes.len() implies is_record_write(
        pager,
        #[trigger] writes[i],
    ) by {
        assert(writes[i] == records[i - 1]);
    }
    assert forall|i: int| 0 <= i < writes.len() implies (#[trigger] writes[i]).offset >= 0 by {
        if i > 0 {
            assert(is_record_write(pager, writes[i]));
        }
    }

    // The header.
    assert forall|k: int| 0 <= k < HEADER_SIZE implies k < after.len() && after[k]
        == header.bytes[k] by {
        assert forall|i: int| 0 <= i < writes.len() && (#[trigger] writes[i]).covers(
            k,
        ) implies i == 0 by {
            if i > 0 {
                assert(is_record_write(pager, writes[i]));
            }
        }
        lemma_write_all_sets(file, writes, k, header.bytes[k], 0);
    }
    assert(read_at(after, 0, HEADER_SIZE as int) =~= header.bytes);

    // The records of the cache.
    assert forall|n: int|
        #![trigger table.record(n)]
        1 <= n <= TABLE_MAX_ROWS && table.record(n) is Some implies read_at(
        after,
        row_offset(page_of(n), slot_of(n)),
        ROW_SIZE as int,
    ) == table.record(n)->0 by {
        lemma_row_place(n);
        let page = page_of(n);
        let slot = slot_of(n);
        let record = table.record(n)->0;
        let start = row_offset(page, slot);
        let which = 1 + lemma_pages_writes_has(pager, TABLE_MAX_PAGES as int, page, slot);
        assert(writes[which] == record_write(page, slot, record));
        assert forall|k: int| start <= k < start + ROW_SIZE implies k < after.len() && after[k]
            == record[k - start] by {
            lemma_place_of_offset(page, slot, k);
            assert forall|i: int| 0 <= i < writes.len() && (#[trigger] writes[i]).covers(
                k,
            ) implies writes[i] == record_write(page, slot, record) by {
                assert(i > 0);
                assert(is_record_write(pager, writes[i]));
                lemma_covering_write(pager, writes[i], k);
            }
            lemma_write_all_sets(file, writes, k, record[k - start], which);
        }
        assert(after[start + ROW_SIZE - 1] == record[ROW_SIZE - 1]);
        assert(read_at(after, start, ROW_SIZE as int) =~= record);
    }

    // What no write touches.
    assert forall|k: int|
        #![trigger after[k]]
        HEADER_SIZE <= k < file.len() && pager.record(page_at(k), slot_at(k))
            is None implies after[k] == file[k] by {
        assert forall|i: int| 0 <= i < writes.len() implies !(#[trigger] writes[i]).covers(
            k,
        ) by {
            if i > 0 && writes[i].covers(k) {
                assert(is_record_write(pager, writes[i]));
                lemma_covering_write(pager, writes[i], k);
            }
        }
        lemma_write_all_keeps(file, writes, k);
    }
}

/// Persistence round trip: once a table is closed and the table of the
/// same file is opened, that table has as many rows; and for each row that
/// the cache had, a look first asks for its page, then for its record, and
/// then, when each was read from the file and taken in, finds the row as
/// it was found before closing.
pub proof fn lemma_reopen(table: TableView, file: Seq<u8>, n: int)
    requires
        table.wf(),
        1 <= n <= table.num_rows,
        table.record(n) is Some,
    ensures
        ({
            let after = write_all(file, table.close_writes());
            let order = table.pager.order;
            let page = page_range(page_of(n));
            let row = row_range(page_of(n), slot_of(n));
            let opened = TableView::opened(
                table.filename,
                order,
                header_count(order, read_at(after, 0, HEADER_SIZE as int)) as nat,
            );
            let paged = opened.load(page, read_at(after, page.offset as int, page.len as int));
            let loaded = paged->0.load(row, read_at(after, row.offset as int, row.len as int));
            &&& opened.num_rows == table.num_rows
            &&& opened.lookup(n) == FetchView::NeedPage(page)
            &&& paged is Some
            &&& paged->0.lookup(n) == FetchView::NeedRow(row)
            &&& loaded is Some
            &&& loaded->0.lookup(n) == table.lookup(n)
        }),
{
    lemma_close_persists(table, file);
    lemma_row_place(n);
    let page = page_of(n);
    let slot = slot_of(n);
    lemma_place_of_offset(page, 0, page_offset(page));
    lemma_place_of_offset(page, slot, row_offset(page, slot));
}

/// A write of a whole record puts bytes into the slot of that record and
/// nowhere else.
proof fn lemma_covering_write(pager: PagerView, write: WriteView, offset: int)
    requires
        pager.wf(),
        is_record_write(pager, write),
        write.covers(offset),
    ensures
        page_at(offset) == page_at(write.offset),
        slot_at(offset) == slot_at(write.offset),
{
    let page = page_at(write.offset);
    let slot = slot_at(write.offset);
    assert(pager.pages[page]->0.wf());
    assert(pager.pages[page]->0.rows[slot] == Some(write.bytes));
    lemma_place_of_offset(page, slot, offset);
}

/// A file gets no shorter by writes.
proof fn lemma_len_grows(file: Seq<u8>, writes: Seq<WriteView>)
    ensures
        write_all(file, writes).len() >= file.len(),
    decreases writes.len(),
{
    if writes.len() > 0 {
        lemma_len_grows(file, writes.drop_last());
    }
}

} // verus!
