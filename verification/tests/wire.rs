use authenticate_ssh_key::cursor::{Cursor, Truncated};
use authenticate_ssh_key::wire::{padded, widen, without_zeros, Ssh};

/// Append one `string`.
fn put(wire: &mut Vec<u8>, value: &[u8]) {
    let length = u32::try_from(value.len()).expect("a short string");
    wire.extend_from_slice(&length.to_be_bytes());
    wire.extend_from_slice(value);
}

/// Append one positive `mpint`.
fn put_mpint(wire: &mut Vec<u8>, integer: &[u8]) {
    let zeros = integer.iter().take_while(|byte| **byte == 0).count();
    let mut value = integer[zeros..].to_vec();
    if value.first().is_some_and(|first| first & 0x80 != 0) {
        value.insert(0, 0);
    }
    put(wire, &value);
}

#[test]
fn strings_and_integers_are_read_in_order_and_the_reader_ends_empty() {
    let mut wire = Vec::new();
    put(&mut wire, b"ssh-ed25519");
    put_mpint(&mut wire, &[0x00, 0x80, 0x01]);
    wire.push(50);
    let mut reader = Cursor::new(&wire);

    assert_eq!(reader.text("key blob").expect("text"), "ssh-ed25519");
    assert_eq!(reader.mpint("key blob").expect("integer"), [0x80, 0x01]);
    assert_eq!(reader.byte().expect("byte"), 50);
    assert!(reader.is_empty());
}

#[test]
fn a_length_that_promises_more_than_there_is_names_what_was_truncated() {
    let mut reader = Cursor::new(&[0, 0, 0, 9, b'x']);

    let failure = reader.string("signature blob").expect_err("truncated");

    assert!(failure.message.contains("signature blob is truncated"));
}

#[test]
fn an_integer_is_padded_to_its_width_and_refused_where_it_is_wider() {
    assert_eq!(padded::<4>(&[1, 2]), Some([0, 0, 1, 2]));
    assert_eq!(padded::<1>(&[1, 2]), None);
}

#[test]
fn padding_takes_an_integer_of_the_full_width_and_an_empty_one() {
    assert_eq!(padded::<2>(&[1, 2]), Some([1, 2]));
    assert_eq!(padded::<2>(&[]), Some([0, 0]));
    assert_eq!(padded::<0>(&[]), Some([]));
    assert_eq!(padded::<0>(&[0]), None);
}

#[test]
fn widening_pads_on_the_left_and_never_cuts() {
    assert_eq!(widen(&[1, 2], 4), [0, 0, 1, 2]);
    assert_eq!(widen(&[1, 2], 2), [1, 2]);
    assert_eq!(widen(&[1, 2, 3], 2), [1, 2, 3]);
    assert_eq!(widen(&[], 3), [0, 0, 0]);
}

#[test]
fn padding_brings_back_the_zeros_that_were_dropped() {
    let whole = [0u8, 0, 7, 0, 9];

    assert_eq!(without_zeros(&whole), [7, 0, 9]);
    assert_eq!(widen(without_zeros(&whole), whole.len()), whole);
    assert_eq!(without_zeros(&[0, 0]), [0u8; 0]);
    assert_eq!(without_zeros(&[]), [0u8; 0]);
}

#[test]
fn a_string_is_read_back_and_what_is_behind_it_is_left() {
    for length in [0usize, 1, 255, 256, 70_000] {
        let value = vec![0xa5u8; length];
        let mut wire = Vec::new();
        put(&mut wire, &value);
        wire.extend_from_slice(b"rest");
        let mut reader = Cursor::new(&wire);

        assert_eq!(reader.string("blob").expect("a string"), value);
        assert_eq!(reader.take(4).expect("the rest"), b"rest");
        assert!(reader.is_empty());
    }
}

#[test]
fn a_string_cut_anywhere_is_refused_and_a_promised_length_is_consumed() {
    let mut wire = Vec::new();
    put(&mut wire, b"abcd");
    for end in 0..wire.len() {
        let mut reader = Cursor::new(&wire[..end]);
        let failure = reader.string("blob").expect_err("truncated");
        assert_eq!(failure.message, "the blob is truncated");
        assert_eq!(reader.is_empty(), end == 0 || end == 4);
    }
}

#[test]
fn a_length_of_four_full_bytes_is_refused_where_the_bytes_are_not_there() {
    let mut reader = Cursor::new(&[0xff, 0xff, 0xff, 0xff, 1, 2]);

    assert_eq!(
        reader.string("key blob").expect_err("truncated").message,
        "the key blob is truncated"
    );
}

#[test]
fn text_that_is_not_utf_8_is_refused_and_other_text_is_read() {
    let mut wire = Vec::new();
    put(&mut wire, &[0xc3, 0x28]);
    put(&mut wire, "gr\u{fc}\u{df}".as_bytes());
    let mut reader = Cursor::new(&wire);

    assert_eq!(
        reader.text("key blob").expect_err("not text").message,
        "the key blob names something not text"
    );
    assert_eq!(reader.text("key blob").expect("text"), "gr\u{fc}\u{df}");
    assert_eq!(
        reader.text("key blob").expect_err("nothing left").message,
        "the key blob is truncated"
    );
}

#[test]
fn a_negative_integer_is_refused_and_leading_zeros_are_dropped() {
    let mut wire = Vec::new();
    put(&mut wire, &[0x80]);
    put(&mut wire, &[0x00, 0x00, 0x7f]);
    put(&mut wire, &[]);
    put(&mut wire, &[0x00]);
    let mut reader = Cursor::new(&wire);

    assert_eq!(
        reader.mpint("key blob").expect_err("negative").message,
        "the key blob holds a negative integer"
    );
    assert_eq!(reader.mpint("key blob").expect("integer"), [0x7f]);
    assert_eq!(reader.mpint("key blob").expect("zero"), [0u8; 0]);
    assert_eq!(reader.mpint("key blob").expect("zero"), [0u8; 0]);
    assert!(reader.is_empty());
}

#[test]
fn a_cursor_reads_from_the_front_and_refuses_what_is_not_there() {
    let mut cursor = Cursor::new(&[1, 2, 3, 4, 5, 6]);

    assert_eq!(cursor.u32_be(), Ok(0x0102_0304));
    assert_eq!(cursor.u32_be(), Err(Truncated));
    assert_eq!(cursor.byte(), Ok(5));
    assert_eq!(cursor.take(2), Err(Truncated));
    assert_eq!(cursor.take(1), Ok(&[6u8][..]));
    assert_eq!(cursor.byte(), Err(Truncated));
    assert_eq!(cursor.take(0), Ok(&[][..]));
    assert!(cursor.is_empty());
}
