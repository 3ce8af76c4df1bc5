use bms_acquisition::decode::{decode_cells, parse_next, skip, split_fields, FieldCursor};
use bms_acquisition::errors::AcqError;

fn bytes(s: &str) -> Vec<u8> {
    s.as_bytes().to_vec()
}

#[test]
fn split_keeps_order_and_empty_fields() {
    let fields = split_fields(&bytes("1,22,,3"));
    assert_eq!(fields, vec![bytes("1"), bytes("22"), Vec::new(), bytes("3")]);
}

#[test]
fn split_of_empty_payload_is_one_empty_field() {
    let fields = split_fields(&bytes(""));
    assert_eq!(fields, vec![Vec::<u8>::new()]);
}

#[test]
fn split_trailing_comma_ends_with_empty_field() {
    let fields = split_fields(&bytes("5,"));
    assert_eq!(fields, vec![bytes("5"), Vec::new()]);
}

#[test]
fn parse_next_reads_in_order() {
    let mut c = FieldCursor::new(split_fields(&bytes("10,-7,+9")));
    assert_eq!(parse_next(&mut c), Ok(10));
    assert_eq!(parse_next(&mut c), Ok(-7));
    assert_eq!(parse_next(&mut c), Ok(9));
    assert_eq!(parse_next(&mut c), Err(AcqError::FieldMissing(3)));
}

#[test]
fn parse_next_past_end_names_the_position() {
    let mut c = FieldCursor::new(split_fields(&bytes("1,2")));
    skip(&mut c, 5);
    assert_eq!(parse_next(&mut c), Err(AcqError::FieldMissing(5)));
}

#[test]
fn parse_next_rejects_garbage_with_position() {
    let mut c = FieldCursor::new(split_fields(&bytes("1,abc,3")));
    assert_eq!(parse_next(&mut c), Ok(1));
    assert_eq!(parse_next(&mut c), Err(AcqError::FieldUnparseable(1)));
    // The failed parse consumed its field: the next read yields the field
    // after it.
    assert_eq!(parse_next(&mut c), Ok(3));
}

#[test]
fn parse_next_rejects_empty_field() {
    let mut c = FieldCursor::new(split_fields(&bytes(",1")));
    assert_eq!(parse_next(&mut c), Err(AcqError::FieldUnparseable(0)));
}

#[test]
fn parse_next_rejects_bare_sign() {
    let mut c = FieldCursor::new(split_fields(&bytes("-")));
    assert_eq!(parse_next(&mut c), Err(AcqError::FieldUnparseable(0)));
}

#[test]
fn parse_next_covers_i64_range() {
    let mut c = FieldCursor::new(split_fields(&bytes(
        "9223372036854775807,-9223372036854775808,9223372036854775808",
    )));
    assert_eq!(parse_next(&mut c), Ok(i64::MAX));
    assert_eq!(parse_next(&mut c), Ok(i64::MIN));
    assert_eq!(parse_next(&mut c), Err(AcqError::FieldUnparseable(2)));
}

#[test]
fn skip_then_read() {
    let mut c = FieldCursor::new(split_fields(&bytes("0,48500,0,0,1500")));
    skip(&mut c, 1);
    assert_eq!(parse_next(&mut c), Ok(48500));
    skip(&mut c, 2);
    assert_eq!(parse_next(&mut c), Ok(1500));
}

#[test]
fn decode_cells_skips_leading_fields() {
    let fields = split_fields(&bytes("9,garbage,3600,0,4200,65535"));
    let cells = decode_cells(&fields, 2).unwrap();
    assert_eq!(cells, vec![3600, 0, 4200, 65535]);
}

#[test]
fn decode_cells_rejects_garbage_with_payload_position() {
    let fields = split_fields(&bytes("9,9,3600,garbage,4200"));
    assert_eq!(decode_cells(&fields, 2), Err(AcqError::FieldUnparseable(3)));
}

#[test]
fn decode_cells_rejects_out_of_range_sample() {
    let fields = split_fields(&bytes("9,9,3600,70000"));
    assert_eq!(decode_cells(&fields, 2), Err(AcqError::FieldUnparseable(3)));
    let fields = split_fields(&bytes("9,9,-5"));
    assert_eq!(decode_cells(&fields, 2), Err(AcqError::FieldUnparseable(2)));
}

#[test]
fn decode_cells_of_short_list_is_empty() {
    let fields = split_fields(&bytes("9"));
    let cells = decode_cells(&fields, 2).unwrap();
    assert!(cells.is_empty());
}
