use graphite_client::wire::{encode, LINE_FEED};

#[test]
fn line_feed_is_ascii_lf() {
    assert_eq!(LINE_FEED, b'\n');
    assert_eq!(LINE_FEED, 10);
}

#[test]
fn encode_two_records() {
    let bytes = encode(&["a.b.c 1 1000", "a.b.c 2 1001"]);
    assert_eq!(bytes, b"a.b.c 1 1000\na.b.c 2 1001\n".to_vec());
}

#[test]
fn encode_empty_batch_is_empty() {
    let none: [&str; 0] = [];
    assert_eq!(encode(&none), Vec::<u8>::new());
}

#[test]
fn encode_single_record() {
    assert_eq!(encode(&["x 1 2"]), vec![b'x', b' ', b'1', b' ', b'2', 10]);
}

#[test]
fn encode_empty_record_is_a_bare_line_feed() {
    assert_eq!(encode(&[""]), vec![10]);
    assert_eq!(encode(&["", ""]), vec![10, 10]);
}

#[test]
fn encode_keeps_batch_order() {
    let bytes = encode(&["b", "a", "c"]);
    assert_eq!(bytes, b"b\na\nc\n".to_vec());
}

#[test]
fn encode_keeps_repeated_records() {
    let bytes = encode(&["m 1 1", "m 1 1"]);
    assert_eq!(bytes, b"m 1 1\nm 1 1\n".to_vec());
}

#[test]
fn encode_writes_utf8_bytes() {
    let bytes = encode(&["caf\u{e9} 1 1"]);
    assert_eq!(bytes, vec![b'c', b'a', b'f', 0xc3, 0xa9, b' ', b'1', b' ', b'1', 10]);
}

#[test]
fn encode_does_not_touch_record_contents() {
    let bytes = encode(&[" padded \t", "two\nlines", "cr\r"]);
    assert_eq!(bytes, b" padded \t\ntwo\nlines\ncr\r\n".to_vec());
}

#[test]
fn encode_length_is_bytes_plus_one_per_record() {
    let data = ["a.b 1 1", "", "longer.metric.path 123456 1700000000"];
    let bytes = encode(&data);
    let expected: usize = data.iter().map(|r| r.len() + 1).sum();
    assert_eq!(expected, 8 + 1 + 37);
    assert_eq!(bytes.len(), 46);
}

#[test]
fn encode_puts_each_record_at_its_offset() {
    let data = ["ab", "", "cde"];
    let bytes = encode(&data);
    assert_eq!(bytes.len(), 3 + 1 + 4);
    assert_eq!(&bytes[0..2], b"ab");
    assert_eq!(bytes[2], 10);
    assert_eq!(bytes[3], 10);
    assert_eq!(&bytes[4..7], b"cde");
    assert_eq!(bytes[7], 10);
}

#[test]
fn encode_of_one_line_records_splits_back_into_them() {
    let data = ["a.b.c 1 1000", "", "x.y 2 1001"];
    let bytes = encode(&data);
    assert_eq!(bytes.iter().filter(|b| **b == 10).count(), data.len());
    let text = String::from_utf8(bytes).unwrap();
    let lines: Vec<&str> = text.split_terminator('\n').collect();
    assert_eq!(lines, data.to_vec());
}

#[test]
fn encode_of_two_batches_in_a_row_is_the_concatenation() {
    let a = ["p 1 1", "q 2 2"];
    let b = ["r 3 3"];
    let mut ab = encode(&a);
    ab.extend(encode(&b));
    assert_eq!(ab, encode(&["p 1 1", "q 2 2", "r 3 3"]));
}
