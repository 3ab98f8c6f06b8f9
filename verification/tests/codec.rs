use rowstore::{ByteOrder, Row, RowBytes, TableError, EMAIL_MAX, ROW_SIZE, USERNAME_MAX};

#[test]
fn record_is_number_then_padded_texts() {
    let row = Row::build(0x0102_0304, String::from("abc"), String::from("x@y.com"));
    let bytes = row.serialize(ByteOrder::Big).expect("fits").serialize();
    assert_eq!(bytes.len(), ROW_SIZE);
    assert_eq!(&bytes[0..4], &[1, 2, 3, 4]);
    assert_eq!(&bytes[4..7], b"abc");
    assert!(bytes[7..4 + USERNAME_MAX].iter().all(|b| *b == 0));
    assert_eq!(&bytes[36..43], b"x@y.com");
    assert!(bytes[43..].iter().all(|b| *b == 0));

    let row = Row::build(0x0102_0304, String::from("abc"), String::from("x@y.com"));
    let bytes = row.serialize(ByteOrder::Little).expect("fits").serialize();
    assert_eq!(&bytes[0..4], &[4, 3, 2, 1]);
}

#[test]
fn native_order_is_that_of_the_machine() {
    for x in [0u32, 1, 123, 0x0102_0304, 0xdead_beef, u32::MAX] {
        let order = ByteOrder::native();
        assert_eq!(order.encode_u32(x), x.to_ne_bytes());
        assert_eq!(order.decode_u32(&x.to_ne_bytes()), x);
    }
}

#[test]
fn order_is_told_from_the_bytes_of_the_number_one() {
    assert_eq!(ByteOrder::of_one(&1u32.to_le_bytes()), ByteOrder::Little);
    assert_eq!(ByteOrder::of_one(&1u32.to_be_bytes()), ByteOrder::Big);
    assert_eq!(ByteOrder::of_one(&[1, 0, 0, 0]), ByteOrder::Little);
    assert_eq!(ByteOrder::of_one(&[0, 0, 0, 1]), ByteOrder::Big);
    assert_eq!(ByteOrder::of_one(&1u32.to_ne_bytes()), ByteOrder::native());
}

#[test]
fn both_orders_read_back_what_they_wrote() {
    for x in [0u32, 1, 255, 256, 65535, 65536, 0x0102_0304, 0xdead_beef, u32::MAX] {
        assert_eq!(ByteOrder::Little.encode_u32(x), x.to_le_bytes());
        assert_eq!(ByteOrder::Big.encode_u32(x), x.to_be_bytes());
        assert_eq!(ByteOrder::Little.decode_u32(&x.to_le_bytes()), x);
        assert_eq!(ByteOrder::Big.decode_u32(&x.to_be_bytes()), x);
    }
}

#[test]
fn row_comes_back_from_its_record() {
    let order = ByteOrder::native();
    let row = Row::build(123, String::from("abc"), String::from("x@y.com"));
    let record = row.serialize(order).expect("fits");
    assert!(record.is_text());
    let back = record.deserialize(order);
    assert_eq!(back.id, 123);
    assert_eq!(back.username, "abc");
    assert_eq!(back.email, "x@y.com");
}

#[test]
fn empty_texts_come_back_empty() {
    let order = ByteOrder::native();
    let record = Row::build(0, String::new(), String::new())
        .serialize(order)
        .expect("fits");
    assert_eq!(record.serialize(), [0u8; ROW_SIZE]);
    let back = record.deserialize(order);
    assert_eq!(back.id, 0);
    assert_eq!(back.username, "");
    assert_eq!(back.email, "");
}

#[test]
fn texts_that_fill_their_columns_fit() {
    let order = ByteOrder::native();
    let username = "u".repeat(USERNAME_MAX);
    let email = "e".repeat(EMAIL_MAX);
    let record = Row::build(7, username.clone(), email.clone())
        .serialize(order)
        .expect("fits");
    let back = record.deserialize(order);
    assert_eq!(back.username, username);
    assert_eq!(back.email, email);
}

#[test]
fn text_one_byte_too_long_is_refused() {
    let order = ByteOrder::native();
    let row = Row::build(7, "u".repeat(USERNAME_MAX + 1), String::from("e"));
    assert_eq!(row.serialize(order).unwrap_err(), TableError::ByteOverflow);
    let row = Row::build(7, String::from("u"), "e".repeat(EMAIL_MAX + 1));
    assert_eq!(row.serialize(order).unwrap_err(), TableError::ByteOverflow);
}

#[test]
fn length_is_counted_in_bytes() {
    let order = ByteOrder::native();
    // Sixteen letters of two bytes each fill the column; one more is too many.
    let username = "é".repeat(USERNAME_MAX / 2);
    assert_eq!(username.len(), USERNAME_MAX);
    let record = Row::build(1, username.clone(), String::from("e"))
        .serialize(order)
        .expect("fits");
    assert_eq!(record.deserialize(order).username, username);
    let row = Row::build(1, "é".repeat(USERNAME_MAX / 2 + 1), String::from("e"));
    assert_eq!(row.serialize(order).unwrap_err(), TableError::ByteOverflow);
    // A text of 32 characters can be too long.
    let row = Row::build(1, "€".repeat(USERNAME_MAX), String::from("e"));
    assert_eq!(row.serialize(order).unwrap_err(), TableError::ByteOverflow);
}

#[test]
fn zero_bytes_at_the_end_of_a_text_are_taken_for_padding() {
    let order = ByteOrder::native();
    let record = Row::build(1, String::from("a\0"), String::from("\0"))
        .serialize(order)
        .expect("fits");
    let back = record.deserialize(order);
    assert_eq!(back.username, "a");
    assert_eq!(back.email, "");
    // Zero bytes elsewhere stay.
    let record = Row::build(1, String::from("\0a\0b"), String::from("e"))
        .serialize(order)
        .expect("fits");
    assert_eq!(record.deserialize(order).username, "\0a\0b");
}

#[test]
fn record_keeps_the_bytes_it_was_made_of() {
    let mut bytes = [0u8; ROW_SIZE];
    for (i, byte) in bytes.iter_mut().enumerate() {
        *byte = (i % 251) as u8;
    }
    let record = RowBytes::new(bytes);
    assert_eq!(record.serialize(), bytes);
}

#[test]
fn record_that_is_no_text_is_told_apart() {
    let mut bytes = [0u8; ROW_SIZE];
    bytes[4] = b'a';
    bytes[36] = b'b';
    assert!(RowBytes::new(bytes).is_text());
    // A byte that never occurs in UTF-8, in the user name.
    bytes[5] = 0xff;
    assert!(!RowBytes::new(bytes).is_text());
    bytes[5] = 0;
    // The first byte of a letter of two bytes with nothing after it, in
    // the e-mail address.
    bytes[37] = 0xc3;
    assert!(!RowBytes::new(bytes).is_text());
    bytes[38] = 0xa9;
    assert!(RowBytes::new(bytes).is_text());
    let row = RowBytes::new(bytes).deserialize(ByteOrder::Little);
    assert_eq!(row.username, "a");
    assert_eq!(row.email, "bé");
    // The number may be anything.
    bytes[0] = 0xff;
    assert!(RowBytes::new(bytes).is_text());
    assert_eq!(RowBytes::new(bytes).deserialize(ByteOrder::Little).id, 0xff);
    assert_eq!(RowBytes::new(bytes).deserialize(ByteOrder::Big).id, 0xff00_0000);
}
