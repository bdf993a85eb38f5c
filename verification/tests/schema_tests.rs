//! Tests for the schema mapper: arity, per-field rules and nested records.

use rlp_blocks::encode::min_be_bytes;
use rlp_blocks::err::{DecodeError, FieldId, RecordKind};
use rlp_blocks::item::Item;
use rlp_blocks::schema::{
    map_block, map_header, map_transaction, map_tx_legacy, map_tx_meta, TransactionKind,
};

fn b32(x: u8) -> Item {
    Item::Str(vec![x; 32])
}

fn addr(x: u8) -> Item {
    Item::Str(vec![x; 20])
}

fn uint(v: u64) -> Item {
    Item::Str(min_be_bytes(v))
}

fn header_children() -> Vec<Item> {
    vec![
        b32(1),                       // parent hash
        b32(2),                       // uncle hash
        addr(3),                      // coinbase
        b32(4),                       // state root
        b32(5),                       // transactions root
        b32(6),                       // receipts root
        Item::Str(vec![0xab; 256]),   // bloom
        uint(1000),                   // difficulty
        uint(7),                      // number
        uint(8_000_000),              // gas limit
        uint(21_000),                 // gas used
        uint(1_600_000_000),          // time
        Item::Str(vec![]),            // extra data
        b32(9),                       // mix digest
        Item::Str(vec![0, 0, 0, 0x42]), // nonce
    ]
}

fn tx_legacy_item() -> Item {
    Item::List(vec![
        uint(1),                       // account nonce
        uint(20_000_000_000),          // gas price
        uint(21_000),                  // gas limit
        addr(0x11),                    // to
        uint(5),                       // value
        Item::Str(vec![]),             // input
        uint(27),                      // v
        uint(12_345),                  // r
        uint(67_890),                  // s
    ])
}

fn tx_meta_item() -> Item {
    Item::List(vec![
        uint(100),
        uint(1_600_000_000),
        addr(0x22),
        Item::Str(vec![]),
    ])
}

fn tx_item() -> Item {
    Item::List(vec![
        tx_legacy_item(),
        tx_meta_item(),
        b32(0xaa),
        uint(200),
        addr(0x33),
    ])
}

fn block_item() -> Item {
    Item::List(vec![
        Item::List(header_children()),
        Item::List(vec![tx_item()]),
        Item::List(vec![]),
    ])
}

#[test]
fn header_with_thirteen_children_is_arity_error() {
    let mut children = header_children();
    children.truncate(13);
    assert_eq!(
        map_header(&Item::List(children)),
        Err(DecodeError::FieldCountMismatch(RecordKind::Header, 14, 13))
    );
}

#[test]
fn header_with_sixteen_children_is_arity_error() {
    let mut children = header_children();
    children.push(Item::Str(vec![1]));
    assert_eq!(
        map_header(&Item::List(children)),
        Err(DecodeError::FieldCountMismatch(RecordKind::Header, 14, 16))
    );
}

#[test]
fn header_with_fifteen_children_decodes() {
    let h = map_header(&Item::List(header_children())).unwrap();
    assert_eq!(h.parent_hash, vec![1; 32]);
    assert_eq!(h.coinbase, vec![3; 20]);
    assert_eq!(h.bloom, vec![0xab; 256]);
    assert_eq!(h.difficulty.bytes, min_be_bytes(1000));
    assert_eq!(h.number.bytes, min_be_bytes(7));
    assert_eq!(h.gas_limit, 8_000_000);
    assert_eq!(h.gas_used, 21_000);
    assert_eq!(h.time, 1_600_000_000);
    assert_eq!(h.extra_data, Vec::<u8>::new());
    assert_eq!(h.mix_digest, vec![9; 32]);
    assert_eq!(h.nonce, vec![0, 0, 0, 0x42]);
}

#[test]
fn header_without_trailing_nonce_decodes_with_empty_nonce() {
    let mut children = header_children();
    children.truncate(14);
    let h = map_header(&Item::List(children)).unwrap();
    assert_eq!(h.nonce, Vec::<u8>::new());
}

#[test]
fn integer_with_leading_zero_is_non_canonical() {
    let mut children = header_children();
    children[9] = Item::Str(vec![0x00, 0x05]);
    assert_eq!(
        map_header(&Item::List(children)),
        Err(DecodeError::NonCanonicalInteger)
    );
}

#[test]
fn integer_as_single_byte_decodes_to_five() {
    let mut children = header_children();
    children[9] = Item::Str(vec![0x05]);
    let h = map_header(&Item::List(children)).unwrap();
    assert_eq!(h.gas_limit, 5);
}

#[test]
fn extra_data_over_32_bytes_is_domain_error() {
    let mut children = header_children();
    children[12] = Item::Str(vec![0x61; 33]);
    assert_eq!(
        map_header(&Item::List(children)),
        Err(DecodeError::DomainValidation(FieldId::ExtraData, 32, 33))
    );
}

#[test]
fn extra_data_of_exactly_32_bytes_decodes() {
    let mut children = header_children();
    children[12] = Item::Str(vec![0x61; 32]);
    let h = map_header(&Item::List(children)).unwrap();
    assert_eq!(h.extra_data, vec![0x61; 32]);
}

#[test]
fn coinbase_of_nineteen_bytes_is_size_error() {
    let mut children = header_children();
    children[2] = Item::Str(vec![3; 19]);
    assert_eq!(
        map_header(&Item::List(children)),
        Err(DecodeError::FixedSizeMismatch(FieldId::Coinbase, 20, 19))
    );
}

#[test]
fn coinbase_of_twenty_one_bytes_is_size_error() {
    let mut children = header_children();
    children[2] = Item::Str(vec![3; 21]);
    assert_eq!(
        map_header(&Item::List(children)),
        Err(DecodeError::FixedSizeMismatch(FieldId::Coinbase, 20, 21))
    );
}

#[test]
fn list_where_string_expected_is_kind_error() {
    let mut children = header_children();
    children[0] = Item::List(vec![]);
    assert_eq!(
        map_header(&Item::List(children)),
        Err(DecodeError::UnexpectedItemKind)
    );
}

#[test]
fn string_where_header_list_expected_is_kind_error() {
    assert_eq!(
        map_header(&Item::Str(vec![1, 2, 3])),
        Err(DecodeError::UnexpectedItemKind)
    );
}

#[test]
fn integer_wider_than_its_field_is_domain_error() {
    let mut children = header_children();
    children[9] = Item::Str(vec![1; 9]);
    assert_eq!(
        map_header(&Item::List(children)),
        Err(DecodeError::DomainValidation(FieldId::GasLimit, 8, 9))
    );
}

#[test]
fn gas_limit_of_max_u64_decodes() {
    let mut children = header_children();
    children[9] = Item::Str(vec![0xff; 8]);
    let h = map_header(&Item::List(children)).unwrap();
    assert_eq!(h.gas_limit, u64::MAX);
}

#[test]
fn transaction_decodes_field_by_field() {
    let t = map_transaction(&tx_item()).unwrap();
    assert_eq!(t.data.account_nonce, 1);
    assert_eq!(t.data.gas_price, 20_000_000_000);
    assert_eq!(t.data.gas_limit, 21_000);
    assert_eq!(t.data.to, TransactionKind::Call(vec![0x11; 20]));
    assert_eq!(t.data.value.bytes, min_be_bytes(5));
    assert_eq!(t.data.input, Vec::<u8>::new());
    assert_eq!(t.data.v.bytes, min_be_bytes(27));
    assert_eq!(t.meta.timestamp, 1_600_000_000);
    assert_eq!(t.meta.message_sender, vec![0x22; 20]);
    assert_eq!(t.hash, vec![0xaa; 32]);
    assert_eq!(t.size, 200);
    assert_eq!(t.from, vec![0x33; 20]);
}

#[test]
fn gas_price_of_max_u128_decodes() {
    let children = match tx_legacy_item() {
        Item::List(mut c) => {
            c[1] = Item::Str(vec![0xff; 16]);
            c
        }
        Item::Str(_) => unreachable!(),
    };
    let t = map_tx_legacy(&Item::List(children)).unwrap();
    assert_eq!(t.gas_price, u128::MAX);
}

#[test]
fn difficulty_of_max_u256_decodes() {
    let mut children = header_children();
    children[7] = Item::Str(vec![0xff; 32]);
    let h = map_header(&Item::List(children)).unwrap();
    assert_eq!(h.difficulty.bytes, vec![0xff; 32]);
}

#[test]
fn empty_recipient_is_contract_creation() {
    let children = match tx_legacy_item() {
        Item::List(mut c) => {
            c[3] = Item::Str(vec![]);
            c
        }
        Item::Str(_) => unreachable!(),
    };
    let t = map_tx_legacy(&Item::List(children)).unwrap();
    assert_eq!(t.to, TransactionKind::Create);
}

#[test]
fn nineteen_byte_recipient_is_size_error() {
    let children = match tx_legacy_item() {
        Item::List(mut c) => {
            c[3] = Item::Str(vec![0x11; 19]);
            c
        }
        Item::Str(_) => unreachable!(),
    };
    assert_eq!(
        map_tx_legacy(&Item::List(children)),
        Err(DecodeError::FixedSizeMismatch(FieldId::To, 20, 19))
    );
}

#[test]
fn tx_legacy_with_eight_children_is_arity_error() {
    let children = match tx_legacy_item() {
        Item::List(mut c) => {
            c.truncate(8);
            c
        }
        Item::Str(_) => unreachable!(),
    };
    assert_eq!(
        map_tx_legacy(&Item::List(children)),
        Err(DecodeError::FieldCountMismatch(RecordKind::TxLegacy, 9, 8))
    );
}

#[test]
fn tx_meta_with_three_children_is_arity_error() {
    let children = match tx_meta_item() {
        Item::List(mut c) => {
            c.truncate(3);
            c
        }
        Item::Str(_) => unreachable!(),
    };
    assert_eq!(
        map_tx_meta(&Item::List(children)),
        Err(DecodeError::FieldCountMismatch(RecordKind::TxMeta, 4, 3))
    );
}

#[test]
fn transaction_with_four_children_is_arity_error() {
    let children = match tx_item() {
        Item::List(mut c) => {
            c.truncate(4);
            c
        }
        Item::Str(_) => unreachable!(),
    };
    assert_eq!(
        map_transaction(&Item::List(children)),
        Err(DecodeError::FieldCountMismatch(RecordKind::Transaction, 5, 4))
    );
}

#[test]
fn block_with_two_children_is_arity_error() {
    let children = match block_item() {
        Item::List(mut c) => {
            c.truncate(2);
            c
        }
        Item::Str(_) => unreachable!(),
    };
    assert_eq!(
        map_block(&Item::List(children)),
        Err(DecodeError::FieldCountMismatch(RecordKind::Block, 3, 2))
    );
}

#[test]
fn block_with_string_transaction_list_is_kind_error() {
    let children = match block_item() {
        Item::List(mut c) => {
            c[1] = Item::Str(vec![1]);
            c
        }
        Item::Str(_) => unreachable!(),
    };
    assert_eq!(
        map_block(&Item::List(children)),
        Err(DecodeError::UnexpectedItemKind)
    );
}

#[test]
fn block_decodes_with_transactions_and_uncles() {
    let children = match block_item() {
        Item::List(mut c) => {
            c[2] = Item::List(vec![Item::List(header_children())]);
            c
        }
        Item::Str(_) => unreachable!(),
    };
    let b = map_block(&Item::List(children)).unwrap();
    assert_eq!(b.header.number.bytes, min_be_bytes(7));
    assert_eq!(b.txs.len(), 1);
    assert_eq!(b.txs[0].from, vec![0x33; 20]);
    assert_eq!(b.uncles.len(), 1);
    assert_eq!(b.uncles[0].parent_hash, vec![1; 32]);
}
