//! The statements of the shell: `insert <id> <username> <email>` puts a row
//! into the table, `select <row number>` looks for one.

use crate::error::TableError;
use crate::layout::TABLE_MAX_ROWS;
use crate::pager::Fetch;
use crate::row::{encode_row, Row, RowView};
use crate::table::Table;
use vstd::prelude::*;
use vstd::string::StringExecFns;
use vstd::utf8::encode_utf8;

verus! {

/// A statement: what is to be done, and the words that follow the first
/// word of the line.
#[derive(Debug)]
pub enum StatementType {
    Insert { args: Vec<String> },
    Select { args: Vec<String> },
}

/// What a statement holds.
pub enum StatementView {
    Insert { args: Seq<Seq<char>> },
    Select { args: Seq<Seq<char>> },
}

impl View for StatementType {
    type V = StatementView;

    open spec fn view(&self) -> StatementView {
        match self {
            StatementType::Insert { args } => StatementView::Insert { args: texts(args@) },
            StatementType::Select { args } => StatementView::Select { args: texts(args@) },
        }
    }
}

/// What a statement came to.
#[derive(Debug)]
pub enum ProcessorMessage {
    /// The row that was looked for, as text.
    Fetched(String),
    /// The row was put in.
    Executed,
}

/// Why a statement was not carried out.
#[derive(Debug, Clone, Copy, PartialEq, Eq, Structural)]
pub enum ProcessorError {
    /// The row number of a `select` is no number.
    BadRowNumber,
    /// A `select` without a row number.
    RowNumberNotFound,
    /// An `insert` without a number for the row, or with one that is no
    /// number.
    BadKey,
    /// An `insert` without a user name.
    BadUsername,
    /// An `insert` without an e-mail address.
    BadEmail,
    /// The table refused.
    TableErr(TableError),
}

/// The texts of a list of strings.
pub open spec fn texts(words: Seq<String>) -> Seq<Seq<char>> {
    Seq::new(words.len(), |i: int| words[i]@)
}

/// The words of a line: what `str::split_whitespace` gives for it.
pub uninterp spec fn whitespace_tokens(line: Seq<char>) -> Seq<Seq<char>>;

/// `str::split_whitespace`: the words of `line`, which are what stands
/// between the white space in it, in their order.
#[verifier::external_body]
pub(crate) fn split_whitespace(line: &str) -> (words: Vec<String>)
    ensures
        texts(words@) == whitespace_tokens(line@),
{
    let mut words = Vec::new();
    for word in line.split_whitespace() {
        words.push(String::from(word));
    }
    words
}

/// The statement that a line of the given words is: the first word says
/// what is to be done, the others go with it. A line without words, or with
/// another first word, is no statement.
pub open spec fn statement_of(words: Seq<Seq<char>>) -> Option<StatementView> {
    if words.len() == 0 {
        None
    } else if words[0] == "insert"@ {
        Some(StatementView::Insert { args: words.drop_first() })
    } else if words[0] == "select"@ {
        Some(StatementView::Select { args: words.drop_first() })
    } else {
        None
    }
}

/// Whether `byte` is one of the digits `0` to `9`.
pub open spec fn is_digit(byte: u8) -> bool {
    48 <= byte <= 57
}

/// The number that a run of digits stands for.
pub open spec fn digits_value(digits: Seq<u8>) -> nat
    decreases digits.len(),
{
    if digits.len() == 0 {
        0
    } else {
        10 * digits_value(digits.drop_last()) + (digits.last() - 48) as nat
    }
}

/// Whether every byte of `digits` is a digit.
pub open spec fn all_digits(digits: Seq<u8>) -> bool {
    forall|i: int| 0 <= i < digits.len() ==> is_digit(#[trigger] digits[i])
}

/// A word without the `+` that may stand before its digits.
pub open spec fn unsigned(word: Seq<u8>) -> Seq<u8> {
    if word.len() > 0 && word[0] == 43 {
        word.drop_first()
    } else {
        word
    }
}

/// The number that a word stands for: the word is one digit or more, with
/// or without a `+` before them.
pub open spec fn number_of(word: Seq<u8>) -> Option<nat> {
    let digits = unsigned(word);
    if digits.len() > 0 && all_digits(digits) {
        Some(digits_value(digits))
    } else {
        None
    }
}

/// The number that a word stands for, if it is one and no more than `max`.
pub open spec fn number_up_to(word: Seq<char>, max: nat) -> Option<nat> {
    match number_of(encode_utf8(word)) {
        Some(value) => if value <= max {
            Some(value)
        } else {
            None
        },
        None => None,
    }
}

/// The digits at the start of a number stand for no more than the whole.
proof fn lemma_digits_value_grows(digits: Seq<u8>, n: int)
    requires
        0 <= n <= digits.len(),
        all_digits(digits),
    ensures
        digits_value(digits.take(n)) <= digits_value(digits),
    decreases digits.len() - n,
{
    if n == digits.len() {
        assert(digits.take(n) =~= digits);
    } else {
        lemma_digits_value_grows(digits, n + 1);
        assert(digits.take(n + 1).drop_last() =~= digits.take(n));
    }
}

/// The row that the words after `insert` make: a number, a user name and an
/// e-mail address. What comes after them is not looked at.
pub open spec fn insert_row(args: Seq<Seq<char>>) -> Result<RowView, ProcessorError> {
    if args.len() == 0 {
        Err(ProcessorError::BadKey)
    } else {
        match number_up_to(args[0], u32::MAX as nat) {
            None => Err(ProcessorError::BadKey),
            Some(id) => if args.len() == 1 {
                Err(ProcessorError::BadUsername)
            } else if args.len() == 2 {
                Err(ProcessorError::BadEmail)
            } else {
                Ok(RowView { id: id as u32, username: args[1], email: args[2] })
            },
        }
    }
}

/// The row number that the words after `select` make.
pub open spec fn select_row_number(args: Seq<Seq<char>>) -> Result<nat, ProcessorError> {
    if args.len() == 0 {
        Err(ProcessorError::RowNumberNotFound)
    } else {
        match number_up_to(args[0], usize::MAX as nat) {
            None => Err(ProcessorError::BadRowNumber),
            Some(row_number) => Ok(row_number),
        }
    }
}

/// The number that `word` stands for, if it is one and no more than `max`.
pub fn parse_number(word: &str, max: u64) -> (number: Option<u64>)
    ensures
        number matches Some(n) ==> number_up_to(word@, max as nat) == Some(n as nat),
        number is None ==> number_up_to(word@, max as nat) is None,
{
    let bytes = word.as_bytes();
    let len: usize = bytes.len();
    let start: usize = if len > 0 && bytes[0] == 43 {
        1
    } else {
        0
    };
    let ghost digits = unsigned(bytes@);
    assert(digits =~= bytes@.subrange(start as int, len as int));
    if start == len {
        return None;
    }
    let mut value: u64 = 0;
    let mut i: usize = start;
    while i < len
        invariant
            start <= i <= len,
            len == bytes@.len(),
            bytes@ == encode_utf8(word@),
            digits == unsigned(bytes@),
            digits == bytes@.subrange(start as int, len as int),
            all_digits(digits.take(i - start)),
            value == digits_value(digits.take(i - start)),
            value <= max,
        decreases len - i,
    {
        let byte = bytes[i];
        assert(byte == digits[i - start]);
        if byte < 48 || byte > 57 {
            return None;
        }
        let digit: u64 = (byte - 48) as u64;
        let ghost longer = digits.take(i - start + 1);
        assert(longer.drop_last() =~= digits.take(i - start));
        assert(all_digits(longer)) by {
            assert forall|j: int| 0 <= j < longer.len() implies is_digit(#[trigger] longer[j]) by {
                if j < i - start {
                    assert(longer[j] == digits.take(i - start)[j]);
                }
            }
        }
        if digit > max || value > (max - digit) / 10 {
            proof {
                if all_digits(digits) {
                    lemma_digits_value_grows(digits, i - start + 1);
                }
            }
            return None;
        }
        value = 10 * value + digit;
        i += 1;
    }
    assert(digits.take(len - start) =~= digits);
    Some(value)
}

/// The statement that a line of the given words is, or nothing where it is
/// none: where there is no word, or the first word is neither `insert` nor
/// `select`.
pub fn statement_of_words(words: Vec<String>) -> (result: Result<StatementType, ()>)
    ensures
        result is Ok <==> statement_of(texts(words@)) is Some,
        result matches Ok(statement) ==> statement_of(texts(words@)) == Some(statement@),
{
    let mut words = words;
    let ghost all = words@;
    if words.len() == 0 {
        return Err(());
    }
    let is_insert = words[0] == String::from_str("insert");
    let is_select = words[0] == String::from_str("select");
    if is_insert || is_select {
        let _ = words.remove(0);
        assert(texts(words@) =~= texts(all).drop_first());
        if is_insert {
            Ok(StatementType::Insert { args: words })
        } else {
            Ok(StatementType::Select { args: words })
        }
    } else {
        Err(())
    }
}

/// The statement that a line is. Its words are what white space parts.
pub fn prepare_statement(input_buffer: &String) -> (result: Result<StatementType, ()>)
    ensures
        result is Ok <==> statement_of(whitespace_tokens(input_buffer@)) is Some,
        result matches Ok(statement) ==> statement_of(whitespace_tokens(input_buffer@)) == Some(
            statement@,
        ),
{
    statement_of_words(split_whitespace(input_buffer.as_str()))
}

/// Carries out an `insert` with the given words after it: puts the row
/// that they make into the table. Words that make no row are refused
/// before the table is asked, and so is a row that the table refuses; the
/// table then stays as it was.
pub fn execute_insert(args: &Vec<String>, table: &mut Table) -> (result: Result<
    ProcessorMessage,
    ProcessorError,
>)
    ensures
        match insert_row(texts(args@)) {
            Err(e) => result == Err::<ProcessorMessage, ProcessorError>(e) && final(table)@ == old(
                table,
            )@,
            Ok(row) => match result {
                Ok(message) => {
                    &&& message is Executed
                    &&& old(table)@.num_rows < TABLE_MAX_ROWS
                    &&& row.fits()
                    &&& final(table)@ == old(table)@.push(
                        encode_row(old(table)@.pager.order, row),
                    )
                },
                Err(ProcessorError::TableErr(TableError::TableFull)) => {
                    &&& old(table)@.num_rows == TABLE_MAX_ROWS
                    &&& final(table)@ == old(table)@
                },
                Err(ProcessorError::TableErr(TableError::ByteOverflow)) => {
                    &&& old(table)@.num_rows < TABLE_MAX_ROWS
                    &&& !row.fits()
                    &&& final(table)@ == old(table)@
                },
                Err(_) => false,
            },
        },
{
    if args.len() == 0 {
        return Err(ProcessorError::BadKey);
    }
    let id: u32 = match parse_number(args[0].as_str(), u32::MAX as u64) {
        Some(n) => n as u32,
        None => {
            return Err(ProcessorError::BadKey);
        },
    };
    if args.len() == 1 {
        return Err(ProcessorError::BadUsername);
    }
    let username = args[1].clone();
    if args.len() == 2 {
        return Err(ProcessorError::BadEmail);
    }
    let email = args[2].clone();
    match table.push_row(Row::build(id, username, email)) {
        Ok(()) => Ok(ProcessorMessage::Executed),
        Err(e) => Err(ProcessorError::TableErr(e)),
    }
}

/// Carries out a `select` with the given words after it, as far as the
/// cache goes: looks for the row whose number they make. Words that make no
/// row number are refused before the table is asked.
pub fn execute_select(args: &Vec<String>, table: &Table) -> (result: Result<Fetch, ProcessorError>)
    ensures
        match select_row_number(texts(args@)) {
            Err(e) => result == Err::<Fetch, ProcessorError>(e),
            Ok(row_number) => if row_number == 0 || row_number > table@.num_rows {
                result == Err::<Fetch, ProcessorError>(
                    ProcessorError::TableErr(TableError::TableIndexError),
                )
            } else {
                result matches Ok(fetch) && fetch@ == table@.lookup(row_number as int)
            },
        },
{
    if args.len() == 0 {
        return Err(ProcessorError::RowNumberNotFound);
    }
    let row_number: usize = match parse_number(args[0].as_str(), usize::MAX as u64) {
        Some(n) => n as usize,
        None => {
            return Err(ProcessorError::BadRowNumber);
        },
    };
    match table.get_row(row_number) {
        Ok(fetch) => Ok(fetch),
        Err(e) => Err(ProcessorError::TableErr(e)),
    }
}

} // verus!
