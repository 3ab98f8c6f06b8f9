//! A page of the cache: the records of one page of the file that have been
//! written or read so far.

use crate::layout::{PAGE_SIZE, ROWS_PER_PAGE, ROW_SIZE};
use crate::row::{is_text_record, RowBytes};
use vstd::prelude::*;

verus! {

/// What a page holds: for each slot the record in it, if there is one, and
/// the bytes that the page was read from, if it was read.
pub struct PageView {
    pub rows: Seq<Option<Seq<u8>>>,
    pub bytes: Option<Seq<u8>>,
}

impl PageView {
    /// A page without any record.
    pub open spec fn empty(bytes: Option<Seq<u8>>) -> PageView {
        PageView { rows: Seq::new(ROWS_PER_PAGE as nat, |i: int| None::<Seq<u8>>), bytes }
    }

    /// This page with `record` in slot `slot`.
    pub open spec fn with_row(self, slot: int, record: Seq<u8>) -> PageView {
        PageView { rows: self.rows.update(slot, Some(record)), bytes: self.bytes }
    }

    /// The page as `PAGE_SIZE` bytes: each record at its place, slot after
    /// slot, and zeros wherever there is no record.
    pub open spec fn image(self) -> Seq<u8> {
        Seq::new(
            PAGE_SIZE as nat,
            |k: int|
                {
                    let slot = k / (ROW_SIZE as int);
                    if slot < ROWS_PER_PAGE && self.rows[slot] is Some {
                        self.rows[slot]->0[k % (ROW_SIZE as int)]
                    } else {
                        0u8
                    }
                },
        )
    }

    /// Whether the page has a slot for each of its rows, and every record in
    /// it is `ROW_SIZE` bytes of which the texts can be read.
    pub open spec fn wf(self) -> bool {
        &&& self.rows.len() == ROWS_PER_PAGE
        &&& forall|i: int|
            0 <= i < ROWS_PER_PAGE ==> (#[trigger] self.rows[i] matches Some(record)
                ==> record.len() == ROW_SIZE && is_text_record(record))
        &&& self.bytes matches Some(bytes) ==> bytes.len() == PAGE_SIZE
    }
}

/// A page of the cache.
#[derive(Debug, Clone, Copy)]
pub struct Page {
    rows: [Option<RowBytes>; ROWS_PER_PAGE],
    bytes: Option<[u8; PAGE_SIZE]>,
}

impl View for Page {
    type V = PageView;

    closed spec fn view(&self) -> PageView {
        PageView {
            rows: Seq::new(
                ROWS_PER_PAGE as nat,
                |i: int|
                    match self.rows@[i] {
                        Some(record) => Some(record@),
                        None => None,
                    },
            ),
            bytes: match self.bytes {
                Some(bytes) => Some(bytes@),
                None => None,
            },
        }
    }
}

impl Page {
    /// What holds of every page: the texts of each record in it can be read.
    #[verifier::type_invariant]
    pub closed spec fn inv(self) -> bool {
        forall|i: int|
            0 <= i < ROWS_PER_PAGE ==> (#[trigger] self.rows@[i] matches Some(record)
                ==> record.spec_is_text())
    }

    /// A page without records that was not read from the file.
    pub fn new() -> (page: Page)
        ensures
            page@ == PageView::empty(None),
    {
        let page = Page { rows: [None; ROWS_PER_PAGE], bytes: None };
        assert(page@.rows =~= PageView::empty(None).rows);
        page
    }

    /// A page that was read from the file as `bytes`. None of its records
    /// is taken out of the bytes yet.
    pub fn from_bytes(bytes: [u8; PAGE_SIZE]) -> (page: Page)
        ensures
            page@ == PageView::empty(Some(bytes@)),
    {
        let page = Page { rows: [None; ROWS_PER_PAGE], bytes: Some(bytes) };
        assert(page@.rows =~= PageView::empty(Some(bytes@)).rows);
        page
    }

    /// The page as `PAGE_SIZE` bytes, whatever the number of its records:
    /// each record at its place, slot after slot, and zeros wherever there
    /// is no record.
    pub fn serialize(&self) -> (bytes: [u8; PAGE_SIZE])
        ensures
            bytes@ == self@.image(),
    {
        let mut bytes = [0u8; PAGE_SIZE];
        let mut i: usize = 0;
        while i < ROWS_PER_PAGE
            invariant
                i <= ROWS_PER_PAGE,
                forall|k: int| 0 <= k < i * ROW_SIZE ==> bytes@[k] == self@.image()[k],
                forall|k: int| i * ROW_SIZE <= k < PAGE_SIZE ==> bytes@[k] == 0,
            decreases ROWS_PER_PAGE - i,
        {
            if let Some(record) = self.rows[i] {
                let row_bytes = record.serialize();
                let mut j: usize = 0;
                while j < ROW_SIZE
                    invariant
                        i < ROWS_PER_PAGE,
                        j <= ROW_SIZE,
                        self.rows@[i as int] == Some(record),
                        row_bytes@ == record@,
                        forall|k: int| 0 <= k < i * ROW_SIZE ==> bytes@[k] == self@.image()[k],
                        forall|k: int| 0 <= k < j ==> bytes@[i * ROW_SIZE + k] == row_bytes@[k],
                        forall|k: int| i * ROW_SIZE + j <= k < PAGE_SIZE ==> bytes@[k] == 0,
                    decreases ROW_SIZE - j,
                {
                    bytes[i * ROW_SIZE + j] = row_bytes[j];
                    j += 1;
                }
                assert forall|k: int| i * ROW_SIZE <= k < (i + 1) * ROW_SIZE implies bytes@[k]
                    == self@.image()[k] by {
                    assert(bytes@[i * ROW_SIZE + (k - i * ROW_SIZE)] == row_bytes@[k - i
                        * ROW_SIZE]);
                }
            }
            i += 1;
        }
        bytes
    }

    /// The record in slot `slot`, if there is one.
    pub fn row(&self, slot: usize) -> (record: Option<RowBytes>)
        requires
            slot < ROWS_PER_PAGE,
        ensures
            record is Some <==> self@.rows[slot as int] is Some,
            record matches Some(r) ==> self@.rows[slot as int] == Some(r@) && r.spec_is_text(),
    {
        proof {
            use_type_invariant(self);
        }
        self.rows[slot]
    }

    /// Puts `record` into slot `slot`.
    pub(crate) fn set_row(&mut self, slot: usize, record: RowBytes)
        requires
            slot < ROWS_PER_PAGE,
            record.spec_is_text(),
        ensures
            final(self)@ == old(self)@.with_row(slot as int, record@),
    {
        proof {
            use_type_invariant(&*self);
        }
        self.rows[slot] = Some(record);
        assert(self@.rows =~= old(self)@.with_row(slot as int, record@).rows);
    }
}

} // verus!
