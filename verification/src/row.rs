//! A row of the table and its record: the fixed number of bytes in which the
//! row is kept in the cache and in the file.

use crate::byte_order::{lemma_u32_value_of_bytes, u32_bytes, u32_value, ByteOrder};
use crate::bytes::array_at;
use crate::error::TableError;
use crate::layout::{
    EMAIL_MAX, EMAIL_OFFSET, ID_SIZE, ROW_SIZE, USERNAME_MAX, USERNAME_OFFSET,
};
use crate::text::{
    has_no_nul_at_end, lemma_text_column_valid_utf8, lemma_trimmed_encode_utf8,
    lemma_trimmed_padded, pad_text, padded, text_len, trimmed, without_nuls,
};
use vstd::prelude::*;
use vstd::slice::{slice_subrange, slice_to_vec};
use vstd::utf8::{decode_utf8, encode_utf8, encode_utf8_decode_utf8, valid_utf8};

verus! {

/// A row of the table.
#[derive(Debug, Clone)]
pub struct Row {
    pub id: u32,
    pub username: String,
    pub email: String,
}

/// What a row holds: its number and its two texts, as characters.
pub struct RowView {
    pub id: u32,
    pub username: Seq<char>,
    pub email: Seq<char>,
}

impl View for Row {
    type V = RowView;

    open spec fn view(&self) -> RowView {
        RowView { id: self.id, username: self.username@, email: self.email@ }
    }
}

impl RowView {
    /// Whether each text of the row fits into its column.
    pub open spec fn fits(self) -> bool {
        &&& encode_utf8(self.username).len() <= USERNAME_MAX
        &&& encode_utf8(self.email).len() <= EMAIL_MAX
    }

    /// Whether neither text ends in a NUL character, which reading the
    /// record back would take for padding.
    pub open spec fn ends_in_text(self) -> bool {
        &&& has_no_nul_at_end(self.username)
        &&& has_no_nul_at_end(self.email)
    }

    /// The row without the NUL characters at the end of its texts.
    pub open spec fn without_nuls(self) -> RowView {
        RowView {
            id: self.id,
            username: without_nuls(self.username),
            email: without_nuls(self.email),
        }
    }
}

/// The bytes of a record that hold the row's number.
pub open spec fn id_field(record: Seq<u8>) -> Seq<u8> {
    record.subrange(0, USERNAME_OFFSET as int)
}

/// The bytes of a record that hold the user name.
pub open spec fn username_field(record: Seq<u8>) -> Seq<u8> {
    record.subrange(USERNAME_OFFSET as int, EMAIL_OFFSET as int)
}

/// The bytes of a record that hold the e-mail address.
pub open spec fn email_field(record: Seq<u8>) -> Seq<u8> {
    record.subrange(EMAIL_OFFSET as int, ROW_SIZE as int)
}

/// The record of a row: the number in the given byte order, then each text
/// as UTF-8, padded with zero bytes to the width of its column.
pub open spec fn encode_row(order: ByteOrder, row: RowView) -> Seq<u8>
    recommends
        row.fits(),
{
    u32_bytes(order, row.id) + padded(encode_utf8(row.username), USERNAME_MAX as nat) + padded(
        encode_utf8(row.email),
        EMAIL_MAX as nat,
    )
}

/// Whether both text columns of a record hold well-formed UTF-8 once the
/// padding is dropped.
pub open spec fn is_text_record(record: Seq<u8>) -> bool {
    &&& valid_utf8(trimmed(username_field(record)))
    &&& valid_utf8(trimmed(email_field(record)))
}

/// The row that a record holds.
pub open spec fn decode_row(order: ByteOrder, record: Seq<u8>) -> RowView
    recommends
        record.len() == ROW_SIZE,
        is_text_record(record),
{
    RowView {
        id: u32_value(order, id_field(record)),
        username: decode_utf8(trimmed(username_field(record))),
        email: decode_utf8(trimmed(email_field(record))),
    }
}

/// The three fields of the record of a row are the row's number and its two
/// padded texts.
pub proof fn lemma_encode_row_fields(order: ByteOrder, row: RowView)
    requires
        row.fits(),
    ensures
        encode_row(order, row).len() == ROW_SIZE,
        id_field(encode_row(order, row)) == u32_bytes(order, row.id),
        username_field(encode_row(order, row)) == padded(
            encode_utf8(row.username),
            USERNAME_MAX as nat,
        ),
        email_field(encode_row(order, row)) == padded(encode_utf8(row.email), EMAIL_MAX as nat),
{
    lemma_u32_value_of_bytes(order, row.id);
}

/// Every record made from a row can be read back as a row.
pub proof fn lemma_encode_row_is_text(order: ByteOrder, row: RowView)
    requires
        row.fits(),
    ensures
        encode_row(order, row).len() == ROW_SIZE,
        is_text_record(encode_row(order, row)),
{
    lemma_encode_row_fields(order, row);
    lemma_text_column_valid_utf8(row.username, USERNAME_MAX as nat);
    lemma_text_column_valid_utf8(row.email, EMAIL_MAX as nat);
}

/// What comes back from the record of a row is the row without the NUL
/// characters at the end of its texts.
pub proof fn lemma_decode_encode_row(order: ByteOrder, row: RowView)
    requires
        row.fits(),
    ensures
        decode_row(order, encode_row(order, row)) == row.without_nuls(),
{
    lemma_encode_row_fields(order, row);
    lemma_u32_value_of_bytes(order, row.id);
    lemma_trimmed_padded(encode_utf8(row.username), USERNAME_MAX as nat);
    lemma_trimmed_padded(encode_utf8(row.email), EMAIL_MAX as nat);
    lemma_trimmed_encode_utf8(row.username);
    lemma_trimmed_encode_utf8(row.email);
    encode_utf8_decode_utf8(without_nuls(row.username));
    encode_utf8_decode_utf8(without_nuls(row.email));
}

/// Round trip: a row whose texts fit into their columns, and do not end in
/// a NUL character, is what the record made from it holds.
pub proof fn lemma_round_trip(order: ByteOrder, row: RowView)
    requires
        row.fits(),
        row.ends_in_text(),
    ensures
        decode_row(order, encode_row(order, row)) == row,
{
    lemma_decode_encode_row(order, row);
}

/// `String::from_utf8`: the text whose UTF-8 encoding is `bytes`. There is
/// one exactly when `bytes` is well-formed UTF-8.
#[verifier::external_body]
fn string_from_utf8(bytes: Vec<u8>) -> (text: Option<String>)
    ensures
        text is Some <==> valid_utf8(bytes@),
        text matches Some(s) ==> encode_utf8(s@) == bytes@,
{
    match String::from_utf8(bytes) {
        Ok(s) => Some(s),
        Err(_) => None,
    }
}

/// The text that a column holds, if what is left of the column without its
/// padding is well-formed UTF-8.
fn column_text(field: &[u8]) -> (text: Option<String>)
    ensures
        text is Some <==> valid_utf8(trimmed(field@)),
        text matches Some(s) ==> s@ == decode_utf8(trimmed(field@)),
{
    let n = text_len(field);
    let bytes = slice_to_vec(slice_subrange(field, 0, n));
    let text = string_from_utf8(bytes);
    proof {
        if text is Some {
            encode_utf8_decode_utf8(text->0@);
        }
    }
    text
}

impl Row {
    /// A row with the given number and texts.
    pub fn build(id: u32, username: String, email: String) -> (row: Row)
        ensures
            row.id == id,
            row.username == username,
            row.email == email,
    {
        Row { id, username, email }
    }

    /// The record of this row, with the number in the given byte order.
    /// A text that takes more bytes than its column has is refused with
    /// `ByteOverflow`; nothing is ever cut off.
    pub fn serialize(self, order: ByteOrder) -> (result: Result<RowBytes, TableError>)
        ensures
            result is Ok <==> self@.fits(),
            result matches Ok(record) ==> record@ == encode_row(order, self@),
            result matches Err(e) ==> e == TableError::ByteOverflow,
    {
        let text = self.username.as_str().as_bytes();
        if text.len() > USERNAME_MAX {
            return Err(TableError::ByteOverflow);
        }
        let username: [u8; USERNAME_MAX] = pad_text(text);

        let text = self.email.as_str().as_bytes();
        if text.len() > EMAIL_MAX {
            return Err(TableError::ByteOverflow);
        }
        let email: [u8; EMAIL_MAX] = pad_text(text);

        Ok(RowBytes { id: order.encode_u32(self.id), username, email })
    }
}

/// The record of a row: `ROW_SIZE` bytes, of which the first four hold the
/// number, the next `USERNAME_MAX` the user name and the last `EMAIL_MAX`
/// the e-mail address.
#[derive(Debug, Clone, Copy)]
pub struct RowBytes {
    id: [u8; ID_SIZE],
    username: [u8; USERNAME_MAX],
    email: [u8; EMAIL_MAX],
}

impl View for RowBytes {
    type V = Seq<u8>;

    closed spec fn view(&self) -> Seq<u8> {
        self.id@ + self.username@ + self.email@
    }
}

impl RowBytes {
    /// Whether both texts of the record can be read.
    pub open spec fn spec_is_text(&self) -> bool {
        is_text_record(self@)
    }

    /// The record made of the given bytes.
    pub fn new(bytes: [u8; ROW_SIZE]) -> (record: RowBytes)
        ensures
            record@ == bytes@,
    {
        let id: [u8; ID_SIZE] = array_at(bytes.as_slice(), 0);
        let username: [u8; USERNAME_MAX] = array_at(bytes.as_slice(), USERNAME_OFFSET);
        let email: [u8; EMAIL_MAX] = array_at(bytes.as_slice(), EMAIL_OFFSET);
        let record = RowBytes { id, username, email };
        assert(record@ =~= bytes@);
        record
    }

    /// The bytes of the record.
    pub fn serialize(&self) -> (bytes: [u8; ROW_SIZE])
        ensures
            bytes@ == self@,
    {
        let mut bytes = [0u8; ROW_SIZE];
        let mut i: usize = 0;
        while i < ID_SIZE
            invariant
                i <= ID_SIZE,
                forall|j: int| 0 <= j < i ==> bytes@[j] == self.id@[j],
            decreases ID_SIZE - i,
        {
            bytes[i] = self.id[i];
            i += 1;
        }
        let mut i: usize = 0;
        while i < USERNAME_MAX
            invariant
                i <= USERNAME_MAX,
                forall|j: int| 0 <= j < ID_SIZE ==> bytes@[j] == self.id@[j],
                forall|j: int| 0 <= j < i ==> bytes@[USERNAME_OFFSET + j] == self.username@[j],
            decreases USERNAME_MAX - i,
        {
            bytes[USERNAME_OFFSET + i] = self.username[i];
            i += 1;
        }
        let mut i: usize = 0;
        while i < EMAIL_MAX
            invariant
                i <= EMAIL_MAX,
                forall|j: int| 0 <= j < ID_SIZE ==> bytes@[j] == self.id@[j],
                forall|j: int|
                    0 <= j < USERNAME_MAX ==> bytes@[USERNAME_OFFSET + j] == self.username@[j],
                forall|j: int| 0 <= j < i ==> bytes@[EMAIL_OFFSET + j] == self.email@[j],
            decreases EMAIL_MAX - i,
        {
            bytes[EMAIL_OFFSET + i] = self.email[i];
            i += 1;
        }
        assert(bytes@ =~= self@) by {
            assert forall|k: int| 0 <= k < ROW_SIZE implies bytes@[k] == self@[k] by {
                if k < ID_SIZE {
                } else if k < EMAIL_OFFSET {
                    assert(bytes@[USERNAME_OFFSET + (k - USERNAME_OFFSET)] == self.username@[k
                        - USERNAME_OFFSET]);
                } else {
                    assert(bytes@[EMAIL_OFFSET + (k - EMAIL_OFFSET)] == self.email@[k
                        - EMAIL_OFFSET]);
                }
            }
        }
        bytes
    }

    /// Whether both texts of the record can be read: whether each column,
    /// without its padding, holds well-formed UTF-8.
    pub fn is_text(&self) -> (text: bool)
        ensures
            text == self.spec_is_text(),
    {
        proof {
            self.lemma_fields();
        }
        column_text(self.username.as_slice()).is_some() && column_text(
            self.email.as_slice(),
        ).is_some()
    }

    /// The row that the record holds, its number read in the given byte
    /// order and each text without the zero bytes at its end. The texts
    /// must be readable; `is_text` says whether they are.
    pub fn deserialize(&self, order: ByteOrder) -> (row: Row)
        requires
            self.spec_is_text(),
        ensures
            row@ == decode_row(order, self@),
    {
        proof {
            self.lemma_fields();
        }
        let username = column_text(self.username.as_slice()).unwrap();
        let email = column_text(self.email.as_slice()).unwrap();
        Row { id: order.decode_u32(&self.id), username, email }
    }

    /// The three arrays of the record are its three fields.
    proof fn lemma_fields(self)
        ensures
            id_field(self@) == self.id@,
            username_field(self@) == self.username@,
            email_field(self@) == self.email@,
    {
    }
}

} // verus!
