//! Tests for the stream reader over concatenated block encodings.

use rlp_blocks::encode::{encode_item, min_be_bytes};
use rlp_blocks::err::{DecodeError, RecordKind};
use rlp_blocks::item::Item;
use rlp_blocks::stream::{decode_all, BlockStream, StreamStep};

fn b32(x: u8) -> Item {
    Item::Str(vec![x; 32])
}

fn addr(x: u8) -> Item {
    Item::Str(vec![x; 20])
}

fn uint(v: u64) -> Item {
    Item::Str(min_be_bytes(v))
}

fn header_item(number: u64) -> Item {
    Item::List(vec![
        b32(1),
        b32(2),
        addr(3),
        b32(4),
        b32(5),
        b32(6),
        Item::Str(vec![0xab; 256]),
        uint(1000),
        uint(number),
        uint(8_000_000),
        uint(21_000),
        uint(1_600_000_000),
        Item::Str(vec![]),
        b32(9),
        Item::Str(vec![0, 0, 0, 0x42]),
    ])
}

fn block_item(number: u64) -> Item {
    Item::List(vec![header_item(number), Item::List(vec![]), Item::List(vec![])])
}

fn block_bytes(number: u64) -> Vec<u8> {
    encode_item(&block_item(number))
}

#[test]
fn empty_buffer_yields_zero_blocks_in_success() {
    let (blocks, err) = decode_all(&vec![]);
    assert_eq!(blocks.len(), 0);
    assert_eq!(err, None);
}

#[test]
fn concatenated_blocks_decode_in_order() {
    let mut buf = block_bytes(1);
    buf.extend_from_slice(&block_bytes(2));
    buf.extend_from_slice(&block_bytes(3));
    let (blocks, err) = decode_all(&buf);
    assert_eq!(err, None);
    assert_eq!(blocks.len(), 3);
    assert_eq!(blocks[0].header.number.bytes, min_be_bytes(1));
    assert_eq!(blocks[1].header.number.bytes, min_be_bytes(2));
    assert_eq!(blocks[2].header.number.bytes, min_be_bytes(3));
}

#[test]
fn single_block_buffer_decodes() {
    let buf = block_bytes(42);
    let (blocks, err) = decode_all(&buf);
    assert_eq!(err, None);
    assert_eq!(blocks.len(), 1);
    assert_eq!(blocks[0].header.number.bytes, min_be_bytes(42));
}

#[test]
fn truncated_final_item_fails_at_its_offset() {
    let first = block_bytes(1);
    let offset = first.len();
    let mut buf = first;
    let mut second = block_bytes(2);
    second.truncate(second.len() - 1);
    buf.extend_from_slice(&second);
    let (blocks, err) = decode_all(&buf);
    assert_eq!(blocks.len(), 1);
    assert_eq!(blocks[0].header.number.bytes, min_be_bytes(1));
    assert_eq!(err, Some((DecodeError::BufferUnderflow, offset)));
}

#[test]
fn schema_failure_mid_stream_reports_offset() {
    let first = block_bytes(1);
    let offset = first.len();
    let mut buf = first;
    // A structurally valid item whose header has only 13 children.
    let bad_header = match header_item(2) {
        Item::List(mut c) => {
            c.truncate(13);
            Item::List(c)
        }
        Item::Str(_) => unreachable!(),
    };
    let bad_block = Item::List(vec![bad_header, Item::List(vec![]), Item::List(vec![])]);
    buf.extend_from_slice(&encode_item(&bad_block));
    let (blocks, err) = decode_all(&buf);
    assert_eq!(blocks.len(), 1);
    assert_eq!(
        err,
        Some((
            DecodeError::FieldCountMismatch(RecordKind::Header, 14, 13),
            offset
        ))
    );
}

#[test]
fn reader_emits_then_exhausts_at_boundary() {
    let mut buf = block_bytes(7);
    buf.extend_from_slice(&block_bytes(8));
    let total = buf.len();
    let mut st = BlockStream::new(buf);
    match st.next_block() {
        StreamStep::Emitted(b) => assert_eq!(b.header.number.bytes, min_be_bytes(7)),
        other => panic!("expected a block, got {:?}", other),
    }
    match st.next_block() {
        StreamStep::Emitted(b) => assert_eq!(b.header.number.bytes, min_be_bytes(8)),
        other => panic!("expected a block, got {:?}", other),
    }
    assert_eq!(st.cursor, total);
    assert_eq!(st.next_block(), StreamStep::Exhausted);
    assert_eq!(st.next_block(), StreamStep::Exhausted);
}

#[test]
fn reader_failure_is_terminal() {
    // 0xb9 declares a long string whose length bytes are missing.
    let mut st = BlockStream::new(vec![0xb9]);
    assert_eq!(
        st.next_block(),
        StreamStep::Failed(DecodeError::BufferUnderflow, 0)
    );
    assert_eq!(st.next_block(), StreamStep::Exhausted);
}

#[test]
fn top_level_string_item_is_kind_error() {
    let buf = encode_item(&Item::Str(vec![1, 2, 3]));
    let (blocks, err) = decode_all(&buf);
    assert_eq!(blocks.len(), 0);
    assert_eq!(err, Some((DecodeError::UnexpectedItemKind, 0)));
}

#[test]
fn blocks_before_failure_are_kept() {
    let mut buf = block_bytes(1);
    buf.extend_from_slice(&block_bytes(2));
    let offset = buf.len();
    buf.push(0x81); // a short string missing its byte
    let (blocks, err) = decode_all(&buf);
    assert_eq!(blocks.len(), 2);
    assert_eq!(err, Some((DecodeError::BufferUnderflow, offset)));
}
