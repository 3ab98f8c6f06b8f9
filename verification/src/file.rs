//! What the table asks of its file. The library opens no file: it says which
//! bytes it wants read and which bytes it wants written, and whoever holds
//! the file does it.

use vstd::prelude::*;

verus! {

/// A stretch of the file to be read: `len` bytes from `offset` on.
#[derive(Debug, Clone, Copy, PartialEq, Eq, Structural)]
pub struct FileRange {
    pub offset: u64,
    pub len: usize,
}

/// Bytes to be written to the file from `offset` on.
#[derive(Debug)]
pub struct FileWrite {
    pub offset: u64,
    pub bytes: Vec<u8>,
}

/// What a write holds.
pub struct WriteView {
    pub offset: int,
    pub bytes: Seq<u8>,
}

impl View for FileWrite {
    type V = WriteView;

    open spec fn view(&self) -> WriteView {
        WriteView { offset: self.offset as int, bytes: self.bytes@ }
    }
}

impl WriteView {
    /// Whether the write puts a byte at `offset` of the file.
    pub open spec fn covers(self, offset: int) -> bool {
        self.offset <= offset < self.offset + self.bytes.len()
    }
}

/// What a read of `len` bytes at `offset` gives from a file that holds
/// `file`: the bytes of that stretch as far as the file goes.
pub open spec fn read_at(file: Seq<u8>, offset: int, len: int) -> Seq<u8>
    recommends
        0 <= offset,
        0 <= len,
{
    if offset + len <= file.len() {
        file.subrange(offset, offset + len)
    } else if offset <= file.len() {
        file.subrange(offset, file.len() as int)
    } else {
        Seq::empty()
    }
}

/// What a file that held `file` holds after a write: the bytes of the
/// write at their place, zeros between the old end of the file and a write
/// that starts behind it, and everywhere else what it held.
pub open spec fn write_at(file: Seq<u8>, write: WriteView) -> Seq<u8>
    recommends
        0 <= write.offset,
{
    if write.bytes.len() == 0 {
        file
    } else {
        let end = write.offset + write.bytes.len();
        let len = if end > file.len() {
            end
        } else {
            file.len() as int
        };
        Seq::new(
            len as nat,
            |k: int|
                if write.covers(k) {
                    write.bytes[k - write.offset]
                } else if k < file.len() {
                    file[k]
                } else {
                    0u8
                },
        )
    }
}

/// What a file that held `file` holds after the given writes, done one
/// after the other.
pub open spec fn write_all(file: Seq<u8>, writes: Seq<WriteView>) -> Seq<u8>
    decreases writes.len(),
{
    if writes.len() == 0 {
        file
    } else {
        write_at(write_all(file, writes.drop_last()), writes.last())
    }
}

/// Writes that do not put a byte at `offset` leave the byte there as it
/// was.
pub proof fn lemma_write_all_keeps(file: Seq<u8>, writes: Seq<WriteView>, offset: int)
    requires
        0 <= offset < file.len(),
        forall|i: int| 0 <= i < writes.len() ==> !(#[trigger] writes[i]).covers(offset),
    ensures
        offset < write_all(file, writes).len(),
        write_all(file, writes)[offset] == file[offset],
    decreases writes.len(),
{
    if writes.len() > 0 {
        lemma_write_all_keeps(file, writes.drop_last(), offset);
    }
}

/// Where one write at least puts a byte at `offset`, and all that do put
/// the same byte there, that byte is there after the writes.
pub proof fn lemma_write_all_sets(
    file: Seq<u8>,
    writes: Seq<WriteView>,
    offset: int,
    byte: u8,
    which: int,
)
    requires
        0 <= which < writes.len(),
        writes[which].covers(offset),
        forall|i: int| 0 <= i < writes.len() ==> (#[trigger] writes[i]).offset >= 0,
        forall|i: int|
            0 <= i < writes.len() && (#[trigger] writes[i]).covers(offset)
                ==> writes[i].bytes[offset - writes[i].offset] == byte,
    ensures
        0 <= offset < write_all(file, writes).len(),
        write_all(file, writes)[offset] == byte,
    decreases writes.len(),
{
    if !writes.last().covers(offset) {
        lemma_write_all_sets(file, writes.drop_last(), offset, byte, which);
    }
}

/// What each of a list of writes holds.
pub open spec fn views(writes: Seq<FileWrite>) -> Seq<WriteView> {
    Seq::new(writes.len(), |i: int| writes[i]@)
}

} // verus!
