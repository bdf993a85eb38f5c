//! Tests for the primitive decoder and the canonical encoder.

use rlp_blocks::decode::decode_item;
use rlp_blocks::encode::{encode_item, min_be_bytes};
use rlp_blocks::err::DecodeError;
use rlp_blocks::item::Item;

#[test]
fn single_byte_item() {
    let buf = vec![0x05u8];
    let (item, n) = decode_item(&buf, 0).unwrap();
    assert_eq!(item, Item::Str(vec![0x05]));
    assert_eq!(n, 1);
}

#[test]
fn empty_string_item() {
    let buf = vec![0x80u8];
    let (item, n) = decode_item(&buf, 0).unwrap();
    assert_eq!(item, Item::Str(vec![]));
    assert_eq!(n, 1);
}

#[test]
fn short_string_item() {
    let buf = vec![0x83u8, b'd', b'o', b'g'];
    let (item, n) = decode_item(&buf, 0).unwrap();
    assert_eq!(item, Item::Str(vec![b'd', b'o', b'g']));
    assert_eq!(n, 4);
}

#[test]
fn single_byte_must_use_single_byte_form() {
    // A one-byte string below 0x80 must not use the short-string form.
    let buf = vec![0x81u8, 0x05];
    assert_eq!(decode_item(&buf, 0), Err(DecodeError::NonCanonicalLength));
}

#[test]
fn one_byte_string_at_boundary_is_canonical() {
    let buf = vec![0x81u8, 0x80];
    let (item, n) = decode_item(&buf, 0).unwrap();
    assert_eq!(item, Item::Str(vec![0x80]));
    assert_eq!(n, 2);
}

#[test]
fn long_string_round_trip() {
    let item = Item::Str(vec![7u8; 56]);
    let buf = encode_item(&item);
    assert_eq!(buf[0], 0xb8);
    assert_eq!(buf[1], 56);
    assert_eq!(buf.len(), 58);
    let (decoded, n) = decode_item(&buf, 0).unwrap();
    assert_eq!(decoded, item);
    assert_eq!(n, 58);
}

#[test]
fn long_form_must_not_fit_short_form() {
    // A 5-byte payload must use the short form, not a length-of-length.
    let mut buf = vec![0xb8u8, 0x05];
    buf.extend_from_slice(&[1, 2, 3, 4, 5]);
    assert_eq!(decode_item(&buf, 0), Err(DecodeError::NonCanonicalLength));
}

#[test]
fn length_of_length_leading_zero_rejected() {
    let mut buf = vec![0xb9u8, 0x00, 0x38];
    buf.extend_from_slice(&[9u8; 56]);
    assert_eq!(decode_item(&buf, 0), Err(DecodeError::NonCanonicalLength));
}

#[test]
fn declared_length_past_end_is_underflow() {
    let buf = vec![0x85u8, 1, 2];
    assert_eq!(decode_item(&buf, 0), Err(DecodeError::BufferUnderflow));
}

#[test]
fn empty_buffer_is_underflow() {
    let buf: Vec<u8> = vec![];
    assert_eq!(decode_item(&buf, 0), Err(DecodeError::BufferUnderflow));
}

#[test]
fn short_list_item() {
    let buf = vec![0xc3u8, 0x01, 0x02, 0x03];
    let (item, n) = decode_item(&buf, 0).unwrap();
    assert_eq!(
        item,
        Item::List(vec![
            Item::Str(vec![0x01]),
            Item::Str(vec![0x02]),
            Item::Str(vec![0x03]),
        ])
    );
    assert_eq!(n, 4);
}

#[test]
fn nested_list_round_trip() {
    let item = Item::List(vec![
        Item::Str(vec![]),
        Item::List(vec![Item::Str(vec![0x0a]), Item::Str(vec![0xff; 3])]),
        Item::Str(vec![0x80, 0x81]),
    ]);
    let buf = encode_item(&item);
    let (decoded, n) = decode_item(&buf, 0).unwrap();
    assert_eq!(decoded, item);
    assert_eq!(n, buf.len());
}

#[test]
fn long_list_round_trip() {
    let children: Vec<Item> = (0u8..60).map(|i| Item::Str(vec![i])).collect();
    let item = Item::List(children);
    let buf = encode_item(&item);
    assert_eq!(buf[0], 0xf8);
    let (decoded, n) = decode_item(&buf, 0).unwrap();
    assert_eq!(decoded, item);
    assert_eq!(n, buf.len());
}

#[test]
fn list_child_crossing_payload_end_is_underflow() {
    // The payload holds one byte 0x81, a short string needing one more byte
    // that lies outside the list's declared payload.
    let buf = vec![0xc1u8, 0x81, 0x99];
    assert_eq!(decode_item(&buf, 0), Err(DecodeError::BufferUnderflow));
}

#[test]
fn decode_at_nonzero_offset() {
    let buf = vec![0xaau8, 0xbb, 0x05];
    let (item, n) = decode_item(&buf, 2).unwrap();
    assert_eq!(item, Item::Str(vec![0x05]));
    assert_eq!(n, 1);
}

#[test]
fn minimal_big_endian_bytes() {
    assert_eq!(min_be_bytes(0), Vec::<u8>::new());
    assert_eq!(min_be_bytes(1), vec![1]);
    assert_eq!(min_be_bytes(127), vec![127]);
    assert_eq!(min_be_bytes(128), vec![0x80]);
    assert_eq!(min_be_bytes(255), vec![0xff]);
    assert_eq!(min_be_bytes(256), vec![1, 0]);
    assert_eq!(min_be_bytes(u64::MAX), vec![0xff; 8]);
}

#[test]
fn integer_string_round_trips() {
    for n in [0u64, 1, 127, 128, 255, 256, u64::MAX] {
        let item = Item::Str(min_be_bytes(n));
        let buf = encode_item(&item);
        let (decoded, used) = decode_item(&buf, 0).unwrap();
        assert_eq!(decoded, item);
        assert_eq!(used, buf.len());
    }
    // The 128-bit and 256-bit maxima, as canonical byte strings.
    for width in [16usize, 32] {
        let item = Item::Str(vec![0xff; width]);
        let buf = encode_item(&item);
        let (decoded, used) = decode_item(&buf, 0).unwrap();
        assert_eq!(decoded, item);
        assert_eq!(used, buf.len());
    }
}
