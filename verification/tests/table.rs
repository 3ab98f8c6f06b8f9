use rowstore::{
    ByteOrder, Fetch, FileRange, FileWrite, Row, Table, TableError, EMAIL_MAX, HEADER_SIZE,
    PAGE_SIZE, ROWS_PER_PAGE, ROW_SIZE, TABLE_MAX_ROWS, USERNAME_MAX,
};

/// A table over a file that does not exist yet.
fn fresh_table() -> Table {
    Table::open(String::from("test.db"), ByteOrder::native(), &[])
}

/// Does a write to a file that is held in memory.
fn write_to(disk: &mut Vec<u8>, write: &FileWrite) {
    let start = write.offset as usize;
    let end = start + write.bytes.len();
    if disk.len() < end {
        disk.resize(end, 0);
    }
    disk[start..end].copy_from_slice(&write.bytes);
}

/// Reads from a file that is held in memory: fewer bytes than asked for
/// where the file ends before.
fn read_from(disk: &[u8], range: FileRange) -> Vec<u8> {
    let start = (range.offset as usize).min(disk.len());
    let end = (range.offset as usize + range.len).min(disk.len());
    disk[start..end].to_vec()
}

/// Looks for a row and reads from the file whatever the table asks for.
fn select(table: &mut Table, disk: &[u8], row_number: usize) -> Result<Row, TableError> {
    loop {
        match table.get_row(row_number)? {
            Fetch::Row(row) => return Ok(row),
            Fetch::NeedPage(range) | Fetch::NeedRow(range) => {
                assert!(table.load(range, &read_from(disk, range)));
            }
        }
    }
}

/// The row that the cache has, without reading anything.
fn cached(table: &Table, row_number: usize) -> Row {
    match table.get_row(row_number).expect("test ok") {
        Fetch::Row(row) => row,
        other => panic!("not in the cache: {:?}", other),
    }
}

#[test]
fn test_table_add_length() {
    let mut table = fresh_table();

    let id: u32 = 123;
    let username = std::str::from_utf8(&[b'a'; USERNAME_MAX]).unwrap();
    let email = std::str::from_utf8(&[b'a'; EMAIL_MAX]).unwrap();

    let username_bad = std::str::from_utf8(&[b'a'; USERNAME_MAX + 1]).unwrap();
    let email_bad = std::str::from_utf8(&[b'a'; EMAIL_MAX + 1]).unwrap();

    let r1 = Row::build(id, String::from(username), String::from(email));
    let r2 = Row::build(id, String::from(username_bad), String::from(email));
    let r3 = Row::build(id, String::from(username), String::from(email_bad));

    assert_eq!(table.push_row(r1).expect("test ok"), ());
    assert_eq!(
        format!("{:?}", table.push_row(r2).expect_err("test err")),
        "ByteOverflow"
    );
    assert_eq!(
        format!("{:?}", table.push_row(r3).expect_err("test err")),
        "ByteOverflow"
    );
}

#[test]
fn test_table_get_row() {
    let mut table = fresh_table();

    let id: u32 = 123;
    let username = std::str::from_utf8(&[b'a'; USERNAME_MAX]).unwrap();
    let email = std::str::from_utf8(&[b'a'; EMAIL_MAX]).unwrap();

    let _ = table.push_row(Row::build(id, String::from(username), String::from(email)));

    let row = cached(&table, 1);
    assert_eq!(row.id, id);
    assert_eq!(row.username, username);
    assert_eq!(row.email, email);

    assert_eq!(
        format!("{:?}", table.get_row(2).expect_err("test err")),
        "TableIndexError"
    )
}

#[test]
fn fresh_table_is_empty() {
    let table = fresh_table();
    assert_eq!(table.num_rows(), 0);
    assert_eq!(table.filename(), "test.db");
    assert_eq!(table.get_row(1).unwrap_err(), TableError::TableIndexError);
    assert_eq!(table.get_row(0).unwrap_err(), TableError::TableIndexError);
}

#[test]
fn capacity_is_fourteen_rows_on_each_of_a_hundred_pages() {
    assert_eq!(ROW_SIZE, 4 + USERNAME_MAX + EMAIL_MAX);
    assert_eq!(ROW_SIZE, 291);
    assert_eq!(ROWS_PER_PAGE, PAGE_SIZE / ROW_SIZE);
    assert_eq!(ROWS_PER_PAGE, 14);
    assert_eq!(TABLE_MAX_ROWS, 1400);
}

#[test]
fn rows_fill_page_after_page() {
    assert_eq!(Table::row_slot(1), (0, 0));
    assert_eq!(Table::row_slot(2), (0, 1));
    assert_eq!(Table::row_slot(ROWS_PER_PAGE), (0, ROWS_PER_PAGE - 1));
    assert_eq!(Table::row_slot(ROWS_PER_PAGE + 1), (1, 0));
    assert_eq!(Table::row_slot(100), (7, 1));
    assert_eq!(Table::row_slot(TABLE_MAX_ROWS), (99, 13));
}

#[test]
fn overflow_leaves_row_count() {
    let mut table = fresh_table();
    table
        .push_row(Row::build(1, String::from("alice"), String::from("a@x.com")))
        .expect("test ok");
    let long_name = "u".repeat(USERNAME_MAX + 1);
    let result = table.push_row(Row::build(2, long_name, String::from("b@x.com")));
    assert_eq!(result, Err(TableError::ByteOverflow));
    assert_eq!(table.num_rows(), 1);
    assert_eq!(table.get_row(2).unwrap_err(), TableError::TableIndexError);
    // The next row still gets number two.
    table
        .push_row(Row::build(3, String::from("carol"), String::from("c@x.com")))
        .expect("test ok");
    assert_eq!(cached(&table, 2).id, 3);
}

#[test]
fn two_rows_come_back_in_order() {
    let mut table = fresh_table();
    table
        .push_row(Row::build(1, String::from("alice"), String::from("a@x.com")))
        .expect("test ok");
    table
        .push_row(Row::build(2, String::from("bob"), String::from("b@x.com")))
        .expect("test ok");

    let first = cached(&table, 1);
    assert_eq!(first.id, 1);
    assert_eq!(first.username, "alice");
    assert_eq!(first.email, "a@x.com");

    let second = cached(&table, 2);
    assert_eq!(second.id, 2);
    assert_eq!(second.username, "bob");
    assert_eq!(second.email, "b@x.com");

    assert_eq!(table.get_row(3).unwrap_err(), TableError::TableIndexError);
}

#[test]
fn every_row_comes_back_from_its_number() {
    let mut table = fresh_table();
    let n: usize = 3 * ROWS_PER_PAGE + 5;
    for k in 1..=n {
        let row = Row::build(k as u32 * 7, format!("user{}", k), format!("u{}@x.com", k));
        table.push_row(row).expect("test ok");
    }
    assert_eq!(table.num_rows() as usize, n);
    for k in 1..=n {
        let row = cached(&table, k);
        assert_eq!(row.id, k as u32 * 7);
        assert_eq!(row.username, format!("user{}", k));
        assert_eq!(row.email, format!("u{}@x.com", k));
    }
    assert_eq!(table.get_row(n + 1).unwrap_err(), TableError::TableIndexError);
    assert_eq!(table.get_row(0).unwrap_err(), TableError::TableIndexError);
}

#[test]
fn full_table_refuses_the_next_row() {
    let mut table = fresh_table();
    for k in 1..=TABLE_MAX_ROWS {
        let row = Row::build(k as u32, String::from("u"), String::from("e"));
        table.push_row(row).expect("test ok");
    }
    assert_eq!(table.num_rows() as usize, TABLE_MAX_ROWS);
    let result = table.push_row(Row::build(0, String::from("u"), String::from("e")));
    assert_eq!(result, Err(TableError::TableFull));
    assert_eq!(table.num_rows() as usize, TABLE_MAX_ROWS);
    assert_eq!(cached(&table, TABLE_MAX_ROWS).id, TABLE_MAX_ROWS as u32);
    // A full table says so before it looks at the row.
    let long_name = "u".repeat(USERNAME_MAX + 1);
    let result = table.push_row(Row::build(0, long_name, String::from("e")));
    assert_eq!(result, Err(TableError::TableFull));
}

#[test]
fn close_writes_the_header_and_then_each_record_at_its_place() {
    let mut table = fresh_table();
    for k in 1..=(ROWS_PER_PAGE + 1) {
        let row = Row::build(k as u32, String::from("abc"), String::from("x@y.com"));
        table.push_row(row).expect("test ok");
    }
    let writes = table.close();
    assert_eq!(writes.len(), 1 + ROWS_PER_PAGE + 1);
    assert_eq!(writes[0].offset, 0);
    assert_eq!(writes[0].bytes, (ROWS_PER_PAGE as u32 + 1).to_ne_bytes().to_vec());
    for slot in 0..ROWS_PER_PAGE {
        let write = &writes[1 + slot];
        assert_eq!(write.offset as usize, HEADER_SIZE + slot * ROW_SIZE);
        assert_eq!(write.bytes.len(), ROW_SIZE);
        assert_eq!(&write.bytes[0..4], &(slot as u32 + 1).to_ne_bytes());
        assert_eq!(&write.bytes[4..7], b"abc");
        assert_eq!(write.bytes[7], 0);
    }
    // The first row of the second page starts where that page starts.
    let last = &writes[1 + ROWS_PER_PAGE];
    assert_eq!(last.offset as usize, HEADER_SIZE + PAGE_SIZE);
    assert_eq!(&last.bytes[0..4], &(ROWS_PER_PAGE as u32 + 1).to_ne_bytes());
}

#[test]
fn rows_come_back_after_close_and_open() {
    let mut disk: Vec<u8> = Vec::new();

    let mut table = fresh_table();
    let n: usize = ROWS_PER_PAGE + 3;
    for _ in 0..n {
        let row = Row::build(123, String::from("abc"), String::from("x@y.com"));
        table.push_row(row).expect("test ok");
    }
    let before: Vec<Row> = (1..=n).map(|k| cached(&table, k)).collect();
    for write in table.close().iter() {
        write_to(&mut disk, write);
    }
    assert_eq!(disk.len(), HEADER_SIZE + PAGE_SIZE + 3 * ROW_SIZE);

    let header = read_from(&disk, FileRange { offset: 0, len: HEADER_SIZE });
    let mut table = Table::open(String::from("test.db"), ByteOrder::native(), &header);
    assert_eq!(table.num_rows() as usize, n);
    for k in 1..=n {
        let row = select(&mut table, &disk, k).expect("test ok");
        assert_eq!(row.id, 123);
        assert_eq!(row.username, "abc");
        assert_eq!(row.email, "x@y.com");
        assert_eq!(row.id, before[k - 1].id);
        assert_eq!(row.username, before[k - 1].username);
        assert_eq!(row.email, before[k - 1].email);
    }
    assert_eq!(
        select(&mut table, &disk, n + 1).unwrap_err(),
        TableError::TableIndexError
    );
}

#[test]
fn a_row_of_the_file_is_read_page_first_and_then_alone() {
    let mut disk: Vec<u8> = Vec::new();
    let mut table = fresh_table();
    for k in 1..=(ROWS_PER_PAGE + 2) {
        let row = Row::build(k as u32, format!("user{}", k), String::from("x@y.com"));
        table.push_row(row).expect("test ok");
    }
    for write in table.close().iter() {
        write_to(&mut disk, write);
    }

    let mut table = Table::open(String::from("test.db"), ByteOrder::native(), &disk[0..4]);
    let row_number = ROWS_PER_PAGE + 2;

    // Nothing of the second page is in the cache: the page is asked for.
    let page = FileRange { offset: (HEADER_SIZE + PAGE_SIZE) as u64, len: PAGE_SIZE };
    match table.get_row(row_number).expect("test ok") {
        Fetch::NeedPage(range) => assert_eq!(range, page),
        other => panic!("{:?}", other),
    }
    // The file ends inside the page; what there is of it will do.
    let bytes = read_from(&disk, page);
    assert!(bytes.len() < PAGE_SIZE);
    assert!(table.load(page, &bytes));
    assert!(!table.load(page, &bytes));

    // Now the record is asked for, at its own place.
    let record = FileRange {
        offset: (HEADER_SIZE + PAGE_SIZE + ROW_SIZE) as u64,
        len: ROW_SIZE,
    };
    match table.get_row(row_number).expect("test ok") {
        Fetch::NeedRow(range) => assert_eq!(range, record),
        other => panic!("{:?}", other),
    }
    // Half a record is not taken, nor one that is no text.
    let bytes = read_from(&disk, record);
    assert!(!table.load(record, &bytes[0..ROW_SIZE - 1]));
    let mut broken = bytes.clone();
    broken[4] = 0xff;
    assert!(!table.load(record, &broken));
    assert!(table.load(record, &bytes));
    assert!(!table.load(record, &bytes));

    let row = cached(&table, row_number);
    assert_eq!(row.id, row_number as u32);
    assert_eq!(row.username, format!("user{}", row_number));

    // Its neighbour in the page is still to be read, the page is not.
    match table.get_row(row_number - 1).expect("test ok") {
        Fetch::NeedRow(range) => {
            assert_eq!(range.offset as usize, HEADER_SIZE + PAGE_SIZE);
        }
        other => panic!("{:?}", other),
    }
    // What is not of a row of the table is not taken.
    let next = FileRange { offset: record.offset + ROW_SIZE as u64, len: ROW_SIZE };
    assert!(!table.load(next, &bytes));
    let third_page = FileRange { offset: (HEADER_SIZE + 2 * PAGE_SIZE) as u64, len: PAGE_SIZE };
    assert!(!table.load(third_page, &[]));
    // Nor what is no page and no record.
    let askew = FileRange { offset: record.offset - ROW_SIZE as u64 + 1, len: ROW_SIZE };
    assert!(!table.load(askew, &bytes));
    let header = FileRange { offset: 0, len: HEADER_SIZE };
    assert!(!table.load(header, &disk[0..4]));
    let odd = FileRange { offset: record.offset - ROW_SIZE as u64, len: ROW_SIZE + 1 };
    assert!(!table.load(odd, &bytes));
    assert!(matches!(table.get_row(row_number - 1), Ok(Fetch::NeedRow(_))));
}

#[test]
fn a_record_is_not_taken_before_its_page() {
    let mut disk: Vec<u8> = Vec::new();
    let mut table = fresh_table();
    table
        .push_row(Row::build(1, String::from("alice"), String::from("a@x.com")))
        .expect("test ok");
    for write in table.close().iter() {
        write_to(&mut disk, write);
    }
    let mut table = Table::open(String::from("test.db"), ByteOrder::native(), &disk[0..4]);
    let record = FileRange { offset: HEADER_SIZE as u64, len: ROW_SIZE };
    let bytes = read_from(&disk, record);
    assert!(!table.load(record, &bytes));
    assert!(matches!(table.get_row(1), Ok(Fetch::NeedPage(_))));
    let page = FileRange { offset: HEADER_SIZE as u64, len: PAGE_SIZE };
    assert!(table.load(page, &read_from(&disk, page)));
    assert!(table.load(record, &bytes));
    assert_eq!(cached(&table, 1).username, "alice");
}

#[test]
fn a_row_put_in_after_opening_does_not_hide_the_rows_of_the_file() {
    let mut disk: Vec<u8> = Vec::new();
    let mut table = fresh_table();
    table
        .push_row(Row::build(1, String::from("alice"), String::from("a@x.com")))
        .expect("test ok");
    for write in table.close().iter() {
        write_to(&mut disk, write);
    }

    let mut table = Table::open(String::from("test.db"), ByteOrder::native(), &disk[0..4]);
    table
        .push_row(Row::build(2, String::from("bob"), String::from("b@x.com")))
        .expect("test ok");
    assert_eq!(table.num_rows(), 2);
    assert_eq!(cached(&table, 2).username, "bob");
    assert_eq!(select(&mut table, &disk, 1).expect("test ok").username, "alice");

    // Closing again writes both rows and the new number of rows.
    for write in table.close().iter() {
        write_to(&mut disk, write);
    }
    let mut table = Table::open(String::from("test.db"), ByteOrder::native(), &disk[0..4]);
    assert_eq!(table.num_rows(), 2);
    assert_eq!(select(&mut table, &disk, 1).expect("test ok").email, "a@x.com");
    assert_eq!(select(&mut table, &disk, 2).expect("test ok").email, "b@x.com");
}

#[test]
fn closing_leaves_alone_what_was_not_in_the_cache() {
    let mut disk: Vec<u8> = Vec::new();
    let mut table = fresh_table();
    for k in 1..=3 {
        let row = Row::build(k, format!("user{}", k), String::from("x@y.com"));
        table.push_row(row).expect("test ok");
    }
    for write in table.close().iter() {
        write_to(&mut disk, write);
    }
    let written = disk.clone();

    // Only the second row is brought into the cache before closing.
    let mut table = Table::open(String::from("test.db"), ByteOrder::native(), &disk[0..4]);
    select(&mut table, &disk, 2).expect("test ok");
    let writes = table.close();
    assert_eq!(writes.len(), 2);
    assert_eq!(writes[1].offset as usize, HEADER_SIZE + ROW_SIZE);
    for write in writes.iter() {
        write_to(&mut disk, write);
    }
    assert_eq!(disk, written);
}

#[test]
fn a_short_header_means_no_rows() {
    let table = Table::open(String::from("test.db"), ByteOrder::native(), &[1, 0, 0]);
    assert_eq!(table.num_rows(), 0);
    let table = Table::open(String::from("test.db"), ByteOrder::Little, &[5, 0, 0, 0]);
    assert_eq!(table.num_rows(), 5);
    let table = Table::open(String::from("test.db"), ByteOrder::Big, &[0, 0, 0, 5, 9]);
    assert_eq!(table.num_rows(), 5);
}
