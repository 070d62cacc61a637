use rexe::network::{encode_record, Framer};

#[test]
fn encode_one_record() {
    let r = encode_record(b"abc");
    assert_eq!(r, b"3\nabc".to_vec());
}

#[test]
fn encode_empty_record() {
    let r = encode_record(b"");
    assert_eq!(r, b"0\n".to_vec());
}

#[test]
fn encode_long_length() {
    let payload = vec![b'x'; 123];
    let mut expected = b"123\n".to_vec();
    expected.extend_from_slice(&payload);
    assert_eq!(encode_record(&payload), expected);
}

#[test]
fn round_trip_three_records() {
    let records: Vec<&[u8]> = vec![b"abc", b"", b"hello world"];
    let mut wire: Vec<u8> = Vec::new();
    for r in &records {
        wire.extend_from_slice(&encode_record(r));
    }
    let mut framer = Framer::new();
    let out = framer.push_chunk(&wire).unwrap();
    assert_eq!(out.len(), 3);
    assert_eq!(out[0], b"abc".to_vec());
    assert_eq!(out[1], b"".to_vec());
    assert_eq!(out[2], b"hello world".to_vec());
}

#[test]
fn split_feed_keeps_residual_bytes() {
    // The length line and the first body bytes arrive in one chunk; the
    // framer must count the residual bytes against the record length.
    let mut framer = Framer::new();
    let out = framer.push_chunk(b"11\nhello").unwrap();
    assert_eq!(out.len(), 0);
    let out = framer.push_chunk(b" world2\nok").unwrap();
    assert_eq!(out.len(), 2);
    assert_eq!(out[0], b"hello world".to_vec());
    assert_eq!(out[1], b"ok".to_vec());
}

#[test]
fn byte_by_byte_feed() {
    let wire = encode_record(b"xy");
    let mut framer = Framer::new();
    let mut got: Vec<Vec<u8>> = Vec::new();
    for b in wire {
        if let Some(rec) = framer.push_byte(b).unwrap() {
            got.push(rec);
        }
    }
    assert_eq!(got, vec![b"xy".to_vec()]);
}

#[test]
fn non_numeric_length_is_an_error() {
    let mut framer = Framer::new();
    assert!(framer.push_chunk(b"3a\nabc").is_err());
}

#[test]
fn empty_length_line_is_an_error() {
    let mut framer = Framer::new();
    assert!(framer.push_chunk(b"\n").is_err());
}

#[test]
fn zero_length_record_is_emitted() {
    let mut framer = Framer::new();
    let out = framer.push_chunk(b"0\n0\n").unwrap();
    assert_eq!(out, vec![b"".to_vec(), b"".to_vec()]);
}

#[test]
fn leading_zeros_in_length_are_accepted() {
    let mut framer = Framer::new();
    let out = framer.push_chunk(b"003\nabc").unwrap();
    assert_eq!(out, vec![b"abc".to_vec()]);
}
