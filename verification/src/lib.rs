//! A table of rows of fixed size that lives in one file, page by page, with
//! a cache of the pages in between.
//!
//! The library opens no file. It keeps the cache, lays out the bytes, and
//! says what is to be read from the file and written to it.

pub mod btree;
pub mod byte_order;
pub mod bytes;
pub mod error;
pub mod file;
pub mod layout;
pub mod page;
pub mod pager;
pub mod persist;
pub mod processor;
pub mod repl;
pub mod row;
pub mod table;
pub mod text;

pub use btree::{leaf_node_cell, leaf_node_key, leaf_node_num_cells, leaf_node_value};
pub use byte_order::ByteOrder;
pub use error::TableError;
pub use file::{FileRange, FileWrite};
pub use layout::{
    EMAIL_MAX, HEADER_SIZE, PAGE_SIZE, ROWS_PER_PAGE, ROW_SIZE, TABLE_MAX_PAGES, TABLE_MAX_ROWS,
    USERNAME_MAX,
};
pub use page::Page;
pub use pager::{Fetch, Pager};
pub use processor::{
    execute_insert, execute_select, parse_number, prepare_statement, statement_of_words,
    ProcessorError, ProcessorMessage, StatementType,
};
pub use repl::{do_meta_command, is_meta_command, meta_command_of_words, MetaCommand};
pub use row::{Row, RowBytes};
pub use table::Table;
