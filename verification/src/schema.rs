//! The schema mapper: an item tree onto the typed block records.
//!
//! Each record type is an ordered list of fields; children of a list item are
//! consumed strictly by position. The mandatory arity of every record is
//! fixed; the header additionally accepts one well-known optional trailing
//! field (the proof-of-work nonce), which defaults to the empty byte string
//! when absent. The policy for anything further is strict: children beyond
//! the known fields of a record are an arity error, never silently ignored.
//!
//! Field kinds: fixed-width byte strings, canonical unsigned integers of a
//! bounded width, opaque byte strings (optionally with a semantic length
//! bound), an address-or-empty marker, and nested records or lists of
//! records. Errors are reported for the first failing field in wire order.

use vstd::prelude::*;

use crate::decode::copy_range;
use crate::err::{DecodeError, FieldId, RecordKind};
use crate::item::{Item, ItemModel, item_model, items_model, lemma_items_model_index};
use crate::num::{be_val, is_canonical_be, pow256, lemma_be_val_push, lemma_be_val_bound,
    lemma_pow256_monotone, lemma_pow256_values};

verus! {

// ---------------------------------------------------------------------------
// Typed values
// ---------------------------------------------------------------------------

/// An unsigned integer of at most 256 bits, kept in its canonical minimal
/// big-endian byte form: no leading zero byte, empty for zero.
#[derive(Clone, Debug, PartialEq, Eq)]
pub struct U256Be {
    /// The canonical big-endian bytes of the value.
    pub bytes: Vec<u8>,
}

impl U256Be {
    /// The bytes are canonical and fit 256 bits.
    pub open spec fn wf(&self) -> bool {
        &&& self.bytes@.len() <= 32
        &&& is_canonical_be(self.bytes@)
    }
}

impl View for U256Be {
    type V = nat;

    open spec fn view(&self) -> nat {
        be_val(self.bytes@)
    }
}

/// The recipient of a message call, or the contract-creation marker, which
/// is encoded as the empty byte string.
#[derive(Clone, Debug, PartialEq, Eq)]
pub enum TransactionKind {
    /// A call to the 160-bit address.
    Call(Vec<u8>),
    /// A contract creation.
    Create,
}

/// The model of a [`TransactionKind`].
pub enum TxKindModel {
    /// A call to the 160-bit address.
    Call(Seq<u8>),
    /// A contract creation.
    Create,
}

impl View for TransactionKind {
    type V = TxKindModel;

    open spec fn view(&self) -> TxKindModel {
        match self {
            TransactionKind::Call(a) => TxKindModel::Call(a@),
            TransactionKind::Create => TxKindModel::Create,
        }
    }
}

impl TransactionKind {
    /// A call address has exactly 20 bytes.
    pub open spec fn wf(&self) -> bool {
        match self {
            TransactionKind::Call(a) => a@.len() == 20,
            TransactionKind::Create => true,
        }
    }
}

// ---------------------------------------------------------------------------
// Records and their models
// ---------------------------------------------------------------------------

/// A block header: fourteen mandatory ordered fields and the optional
/// trailing proof-of-work nonce. Field order is part of the wire contract.
#[derive(Clone, Debug, PartialEq, Eq)]
pub struct Header {
    /// Hash of the parent block's header, 32 bytes.
    pub parent_hash: Vec<u8>,
    /// Hash of the ommers list, 32 bytes.
    pub uncle_hash: Vec<u8>,
    /// Fee recipient address, 20 bytes.
    pub coinbase: Vec<u8>,
    /// State trie root, 32 bytes.
    pub root: Vec<u8>,
    /// Transactions trie root, 32 bytes.
    pub tx_hash: Vec<u8>,
    /// Receipts trie root, 32 bytes.
    pub receipt_hash: Vec<u8>,
    /// Logs bloom filter, 256 bytes.
    pub bloom: Vec<u8>,
    /// Difficulty scalar, at most 256 bits.
    pub difficulty: U256Be,
    /// Number of ancestor blocks, at most 256 bits.
    pub number: U256Be,
    /// Gas expenditure limit.
    pub gas_limit: u64,
    /// Total gas used by the block's transactions.
    pub gas_used: u64,
    /// Timestamp at the block's inception.
    pub time: u64,
    /// Arbitrary extra bytes, at most 32.
    pub extra_data: Vec<u8>,
    /// Proof-of-work mix digest, 32 bytes.
    pub mix_digest: Vec<u8>,
    /// Proof-of-work nonce bytes; empty when the optional trailing field is
    /// absent.
    pub nonce: Vec<u8>,
}

/// The model of a [`Header`].
pub struct HeaderModel {
    /// Hash of the parent block's header.
    pub parent_hash: Seq<u8>,
    /// Hash of the ommers list.
    pub uncle_hash: Seq<u8>,
    /// Fee recipient address.
    pub coinbase: Seq<u8>,
    /// State trie root.
    pub root: Seq<u8>,
    /// Transactions trie root.
    pub tx_hash: Seq<u8>,
    /// Receipts trie root.
    pub receipt_hash: Seq<u8>,
    /// Logs bloom filter.
    pub bloom: Seq<u8>,
    /// Difficulty scalar.
    pub difficulty: nat,
    /// Number of ancestor blocks.
    pub number: nat,
    /// Gas expenditure limit.
    pub gas_limit: u64,
    /// Total gas used.
    pub gas_used: u64,
    /// Timestamp.
    pub time: u64,
    /// Arbitrary extra bytes.
    pub extra_data: Seq<u8>,
    /// Proof-of-work mix digest.
    pub mix_digest: Seq<u8>,
    /// Proof-of-work nonce bytes.
    pub nonce: Seq<u8>,
}

impl View for Header {
    type V = HeaderModel;

    open spec fn view(&self) -> HeaderModel {
        HeaderModel {
            parent_hash: self.parent_hash@,
            uncle_hash: self.uncle_hash@,
            coinbase: self.coinbase@,
            root: self.root@,
            tx_hash: self.tx_hash@,
            receipt_hash: self.receipt_hash@,
            bloom: self.bloom@,
            difficulty: self.difficulty@,
            number: self.number@,
            gas_limit: self.gas_limit,
            gas_used: self.gas_used,
            time: self.time,
            extra_data: self.extra_data@,
            mix_digest: self.mix_digest@,
            nonce: self.nonce@,
        }
    }
}

impl Header {
    /// Every fixed-width field has its width, the scalars are canonical and
    /// bounded, and the extra bytes respect their 32-byte bound.
    pub open spec fn wf(&self) -> bool {
        &&& self.parent_hash@.len() == 32
        &&& self.uncle_hash@.len() == 32
        &&& self.coinbase@.len() == 20
        &&& self.root@.len() == 32
        &&& self.tx_hash@.len() == 32
        &&& self.receipt_hash@.len() == 32
        &&& self.bloom@.len() == 256
        &&& self.difficulty.wf()
        &&& self.number.wf()
        &&& self.extra_data@.len() <= 32
        &&& self.mix_digest@.len() == 32
    }
}

/// The legacy transaction payload.
#[derive(Clone, Debug, PartialEq, Eq)]
pub struct TxLegacy {
    /// Count of transactions sent by the sender.
    pub account_nonce: u64,
    /// Wei paid per unit of gas.
    pub gas_price: u128,
    /// Maximum gas for executing the transaction.
    pub gas_limit: u64,
    /// Recipient address or contract-creation marker.
    pub to: TransactionKind,
    /// Wei transferred or endowed, at most 256 bits.
    pub value: U256Be,
    /// Call input or initialisation code.
    pub input: Vec<u8>,
    /// Signature component v, at most 256 bits.
    pub v: U256Be,
    /// Signature component r, at most 256 bits.
    pub r: U256Be,
    /// Signature component s, at most 256 bits.
    pub s: U256Be,
}

/// The model of a [`TxLegacy`].
pub struct TxLegacyModel {
    /// Count of transactions sent by the sender.
    pub account_nonce: u64,
    /// Wei paid per unit of gas.
    pub gas_price: u128,
    /// Maximum gas for executing the transaction.
    pub gas_limit: u64,
    /// Recipient address or contract-creation marker.
    pub to: TxKindModel,
    /// Wei transferred or endowed.
    pub value: nat,
    /// Call input or initialisation code.
    pub input: Seq<u8>,
    /// Signature component v.
    pub v: nat,
    /// Signature component r.
    pub r: nat,
    /// Signature component s.
    pub s: nat,
}

impl View for TxLegacy {
    type V = TxLegacyModel;

    open spec fn view(&self) -> TxLegacyModel {
        TxLegacyModel {
            account_nonce: self.account_nonce,
            gas_price: self.gas_price,
            gas_limit: self.gas_limit,
            to: self.to@,
            value: self.value@,
            input: self.input@,
            v: self.v@,
            r: self.r@,
            s: self.s@,
        }
    }
}

impl TxLegacy {
    /// The recipient and the scalar fields are well formed.
    pub open spec fn wf(&self) -> bool {
        &&& self.to.wf()
        &&& self.value.wf()
        &&& self.v.wf()
        &&& self.r.wf()
        &&& self.s.wf()
    }
}

/// Derived transaction metadata.
#[derive(Clone, Debug, PartialEq, Eq)]
pub struct TxMeta {
    /// Containing block number, at most 256 bits.
    pub block_number: U256Be,
    /// Containing block timestamp.
    pub timestamp: u64,
    /// Recovered message sender, 20 bytes.
    pub message_sender: Vec<u8>,
    /// Residual trailing bytes.
    pub rest: Vec<u8>,
}

/// The model of a [`TxMeta`].
pub struct TxMetaModel {
    /// Containing block number.
    pub block_number: nat,
    /// Containing block timestamp.
    pub timestamp: u64,
    /// Recovered message sender.
    pub message_sender: Seq<u8>,
    /// Residual trailing bytes.
    pub rest: Seq<u8>,
}

impl View for TxMeta {
    type V = TxMetaModel;

    open spec fn view(&self) -> TxMetaModel {
        TxMetaModel {
            block_number: self.block_number@,
            timestamp: self.timestamp,
            message_sender: self.message_sender@,
            rest: self.rest@,
        }
    }
}

impl TxMeta {
    /// The scalar is well formed and the sender has 20 bytes.
    pub open spec fn wf(&self) -> bool {
        &&& self.block_number.wf()
        &&& self.message_sender@.len() == 20
    }
}

/// A full transaction: the legacy payload, the derived metadata, the
/// precomputed hash, the encoded-size counter and the recovered sender.
#[derive(Clone, Debug, PartialEq, Eq)]
pub struct Transaction {
    /// The legacy transaction payload.
    pub data: TxLegacy,
    /// The derived metadata.
    pub meta: TxMeta,
    /// Precomputed transaction hash, 32 bytes.
    pub hash: Vec<u8>,
    /// Encoded-size counter.
    pub size: u32,
    /// Recovered sender address, 20 bytes.
    pub from: Vec<u8>,
}

/// The model of a [`Transaction`].
pub struct TransactionModel {
    /// The legacy transaction payload.
    pub data: TxLegacyModel,
    /// The derived metadata.
    pub meta: TxMetaModel,
    /// Precomputed transaction hash.
    pub hash: Seq<u8>,
    /// Encoded-size counter.
    pub size: u32,
    /// Recovered sender address.
    pub from: Seq<u8>,
}

impl View for Transaction {
    type V = TransactionModel;

    open spec fn view(&self) -> TransactionModel {
        TransactionModel {
            data: self.data@,
            meta: self.meta@,
            hash: self.hash@,
            size: self.size,
            from: self.from@,
        }
    }
}

impl Transaction {
    /// The nested records are well formed and the fixed fields have their
    /// widths.
    pub open spec fn wf(&self) -> bool {
        &&& self.data.wf()
        &&& self.meta.wf()
        &&& self.hash@.len() == 32
        &&& self.from@.len() == 20
    }
}

/// A full block: header, ordered transactions, ordered uncle headers. A
/// block exclusively owns its three parts.
#[derive(Clone, Debug, PartialEq, Eq)]
pub struct Block {
    /// The block header.
    pub header: Header,
    /// The transactions, in wire order.
    pub txs: Vec<Transaction>,
    /// The uncle headers, in wire order.
    pub uncles: Vec<Header>,
}

/// The model of a [`Block`].
pub struct BlockModel {
    /// The block header.
    pub header: HeaderModel,
    /// The transactions, in wire order.
    pub txs: Seq<TransactionModel>,
    /// The uncle headers, in wire order.
    pub uncles: Seq<HeaderModel>,
}

/// The models of a sequence of transactions, in order.
pub open spec fn txs_model(s: Seq<Transaction>) -> Seq<TransactionModel> {
    Seq::new(s.len(), |i: int| s[i]@)
}

/// The models of a sequence of headers, in order.
pub open spec fn headers_model(s: Seq<Header>) -> Seq<HeaderModel> {
    Seq::new(s.len(), |i: int| s[i]@)
}

impl View for Block {
    type V = BlockModel;

    open spec fn view(&self) -> BlockModel {
        BlockModel {
            header: self.header@,
            txs: txs_model(self.txs@),
            uncles: headers_model(self.uncles@),
        }
    }
}

impl Block {
    /// The header, every transaction and every uncle are well formed.
    pub open spec fn wf(&self) -> bool {
        &&& self.header.wf()
        &&& forall|i: int| 0 <= i < self.txs@.len() ==> (#[trigger] self.txs@[i]).wf()
        &&& forall|i: int| 0 <= i < self.uncles@.len() ==> (#[trigger] self.uncles@[i]).wf()
    }
}

// ---------------------------------------------------------------------------
// Per-field decode rules, as specifications
// ---------------------------------------------------------------------------

/// A fixed-width field: a string item of exactly `n` bytes.
pub open spec fn spec_fixed(i: ItemModel, n: usize, f: FieldId) -> Result<Seq<u8>, DecodeError> {
    match i {
        ItemModel::List(_) => Err(DecodeError::UnexpectedItemKind),
        ItemModel::Str(s) => if s.len() == n {
            Ok(s)
        } else {
            Err(DecodeError::FixedSizeMismatch(f, n, s.len() as usize))
        },
    }
}

/// An unsigned integer field: a canonical big-endian string of at most
/// `max_bytes` bytes, the empty string denoting zero.
pub open spec fn spec_uint(i: ItemModel, max_bytes: usize, f: FieldId) -> Result<nat, DecodeError> {
    match i {
        ItemModel::List(_) => Err(DecodeError::UnexpectedItemKind),
        ItemModel::Str(s) => if s.len() > 0 && s[0] == 0 {
            Err(DecodeError::NonCanonicalInteger)
        } else if s.len() > max_bytes {
            Err(DecodeError::DomainValidation(f, max_bytes, s.len() as usize))
        } else {
            Ok(be_val(s))
        },
    }
}

/// An opaque byte field, optionally bounded by a semantic maximum length.
pub open spec fn spec_opaque(i: ItemModel, max: Option<usize>, f: FieldId) -> Result<
    Seq<u8>,
    DecodeError,
> {
    match i {
        ItemModel::List(_) => Err(DecodeError::UnexpectedItemKind),
        ItemModel::Str(s) => match max {
            Some(m) => if s.len() <= m {
                Ok(s)
            } else {
                Err(DecodeError::DomainValidation(f, m, s.len() as usize))
            },
            None => Ok(s),
        },
    }
}

/// The recipient field: a 20-byte address or the empty creation marker.
pub open spec fn spec_to_field(i: ItemModel) -> Result<TxKindModel, DecodeError> {
    match i {
        ItemModel::List(_) => Err(DecodeError::UnexpectedItemKind),
        ItemModel::Str(s) => if s.len() == 0 {
            Ok(TxKindModel::Create)
        } else if s.len() == 20 {
            Ok(TxKindModel::Call(s))
        } else {
            Err(DecodeError::FixedSizeMismatch(FieldId::To, 20, s.len() as usize))
        },
    }
}

/// The error of a field result, if any.
pub open spec fn err_of<T>(r: Result<T, DecodeError>) -> Option<DecodeError> {
    match r {
        Ok(_) => None,
        Err(e) => Some(e),
    }
}

/// The byte string of a string item; the empty string otherwise.
pub open spec fn str_of(i: ItemModel) -> Seq<u8> {
    match i {
        ItemModel::Str(s) => s,
        ItemModel::List(_) => Seq::empty(),
    }
}

// ---------------------------------------------------------------------------
// Record mapping, as specifications
// ---------------------------------------------------------------------------

/// The first per-field error of a header's children, in wire order.
pub open spec fn header_field_err(c: Seq<ItemModel>) -> Option<DecodeError> {
    if err_of(spec_fixed(c[0], 32, FieldId::ParentHash)) is Some {
        err_of(spec_fixed(c[0], 32, FieldId::ParentHash))
    } else if err_of(spec_fixed(c[1], 32, FieldId::UncleHash)) is Some {
        err_of(spec_fixed(c[1], 32, FieldId::UncleHash))
    } else if err_of(spec_fixed(c[2], 20, FieldId::Coinbase)) is Some {
        err_of(spec_fixed(c[2], 20, FieldId::Coinbase))
    } else if err_of(spec_fixed(c[3], 32, FieldId::StateRoot)) is Some {
        err_of(spec_fixed(c[3], 32, FieldId::StateRoot))
    } else if err_of(spec_fixed(c[4], 32, FieldId::TxRoot)) is Some {
        err_of(spec_fixed(c[4], 32, FieldId::TxRoot))
    } else if err_of(spec_fixed(c[5], 32, FieldId::ReceiptRoot)) is Some {
        err_of(spec_fixed(c[5], 32, FieldId::ReceiptRoot))
    } else if err_of(spec_fixed(c[6], 256, FieldId::Bloom)) is Some {
        err_of(spec_fixed(c[6], 256, FieldId::Bloom))
    } else if err_of(spec_uint(c[7], 32, FieldId::Difficulty)) is Some {
        err_of(spec_uint(c[7], 32, FieldId::Difficulty))
    } else if err_of(spec_uint(c[8], 32, FieldId::Number)) is Some {
        err_of(spec_uint(c[8], 32, FieldId::Number))
    } else if err_of(spec_uint(c[9], 8, FieldId::GasLimit)) is Some {
        err_of(spec_uint(c[9], 8, FieldId::GasLimit))
    } else if err_of(spec_uint(c[10], 8, FieldId::GasUsed)) is Some {
        err_of(spec_uint(c[10], 8, FieldId::GasUsed))
    } else if err_of(spec_uint(c[11], 8, FieldId::Time)) is Some {
        err_of(spec_uint(c[11], 8, FieldId::Time))
    } else if err_of(spec_opaque(c[12], Some(32), FieldId::ExtraData)) is Some {
        err_of(spec_opaque(c[12], Some(32), FieldId::ExtraData))
    } else if err_of(spec_fixed(c[13], 32, FieldId::MixDigest)) is Some {
        err_of(spec_fixed(c[13], 32, FieldId::MixDigest))
    } else if c.len() == 15 && err_of(spec_opaque(c[14], None, FieldId::BlockNonce)) is Some {
        err_of(spec_opaque(c[14], None, FieldId::BlockNonce))
    } else {
        None
    }
}

/// Maps an item onto a header: a list of 14 mandatory children, optionally
/// followed by the trailing nonce, each checked by position.
pub open spec fn spec_map_header(i: ItemModel) -> Result<HeaderModel, DecodeError> {
    match i {
        ItemModel::Str(_) => Err(DecodeError::UnexpectedItemKind),
        ItemModel::List(c) => if !(c.len() == 14 || c.len() == 15) {
            Err(DecodeError::FieldCountMismatch(RecordKind::Header, 14, c.len() as usize))
        } else {
            match header_field_err(c) {
                Some(e) => Err(e),
                None => Ok(
                    HeaderModel {
                        parent_hash: str_of(c[0]),
                        uncle_hash: str_of(c[1]),
                        coinbase: str_of(c[2]),
                        root: str_of(c[3]),
                        tx_hash: str_of(c[4]),
                        receipt_hash: str_of(c[5]),
                        bloom: str_of(c[6]),
                        difficulty: be_val(str_of(c[7])),
                        number: be_val(str_of(c[8])),
                        gas_limit: be_val(str_of(c[9])) as u64,
                        gas_used: be_val(str_of(c[10])) as u64,
                        time: be_val(str_of(c[11])) as u64,
                        extra_data: str_of(c[12]),
                        mix_digest: str_of(c[13]),
                        nonce: if c.len() == 15 {
                            str_of(c[14])
                        } else {
                            Seq::empty()
                        },
                    },
                ),
            }
        },
    }
}

/// The first per-field error of a legacy payload's children, in wire order.
pub open spec fn tx_legacy_field_err(c: Seq<ItemModel>) -> Option<DecodeError> {
    if err_of(spec_uint(c[0], 8, FieldId::AccountNonce)) is Some {
        err_of(spec_uint(c[0], 8, FieldId::AccountNonce))
    } else if err_of(spec_uint(c[1], 16, FieldId::GasPrice)) is Some {
        err_of(spec_uint(c[1], 16, FieldId::GasPrice))
    } else if err_of(spec_uint(c[2], 8, FieldId::GasLimit)) is Some {
        err_of(spec_uint(c[2], 8, FieldId::GasLimit))
    } else if err_of(spec_to_field(c[3])) is Some {
        err_of(spec_to_field(c[3]))
    } else if err_of(spec_uint(c[4], 32, FieldId::Value)) is Some {
        err_of(spec_uint(c[4], 32, FieldId::Value))
    } else if err_of(spec_opaque(c[5], None, FieldId::Input)) is Some {
        err_of(spec_opaque(c[5], None, FieldId::Input))
    } else if err_of(spec_uint(c[6], 32, FieldId::SigV)) is Some {
        err_of(spec_uint(c[6], 32, FieldId::SigV))
    } else if err_of(spec_uint(c[7], 32, FieldId::SigR)) is Some {
        err_of(spec_uint(c[7], 32, FieldId::SigR))
    } else if err_of(spec_uint(c[8], 32, FieldId::SigS)) is Some {
        err_of(spec_uint(c[8], 32, FieldId::SigS))
    } else {
        None
    }
}

/// The recipient value of a string child; used once its checks passed.
pub open spec fn to_of(i: ItemModel) -> TxKindModel {
    if str_of(i).len() == 0 {
        TxKindModel::Create
    } else {
        TxKindModel::Call(str_of(i))
    }
}

/// Maps an item onto a legacy transaction payload: a list of exactly 9
/// children, each checked by position.
pub open spec fn spec_map_tx_legacy(i: ItemModel) -> Result<TxLegacyModel, DecodeError> {
    match i {
        ItemModel::Str(_) => Err(DecodeError::UnexpectedItemKind),
        ItemModel::List(c) => if c.len() != 9 {
            Err(DecodeError::FieldCountMismatch(RecordKind::TxLegacy, 9, c.len() as usize))
        } else {
            match tx_legacy_field_err(c) {
                Some(e) => Err(e),
                None => Ok(
                    TxLegacyModel {
                        account_nonce: be_val(str_of(c[0])) as u64,
                        gas_price: be_val(str_of(c[1])) as u128,
                        gas_limit: be_val(str_of(c[2])) as u64,
                        to: to_of(c[3]),
                        value: be_val(str_of(c[4])),
                        input: str_of(c[5]),
                        v: be_val(str_of(c[6])),
                        r: be_val(str_of(c[7])),
                        s: be_val(str_of(c[8])),
                    },
                ),
            }
        },
    }
}

/// The first per-field error of a metadata record's children, in wire order.
pub open spec fn tx_meta_field_err(c: Seq<ItemModel>) -> Option<DecodeError> {
    if err_of(spec_uint(c[0], 32, FieldId::BlockNumber)) is Some {
        err_of(spec_uint(c[0], 32, FieldId::BlockNumber))
    } else if err_of(spec_uint(c[1], 8, FieldId::Timestamp)) is Some {
        err_of(spec_uint(c[1], 8, FieldId::Timestamp))
    } else if err_of(spec_fixed(c[2], 20, FieldId::MessageSender)) is Some {
        err_of(spec_fixed(c[2], 20, FieldId::MessageSender))
    } else if err_of(spec_opaque(c[3], None, FieldId::Rest)) is Some {
        err_of(spec_opaque(c[3], None, FieldId::Rest))
    } else {
        None
    }
}

/// Maps an item onto a transaction metadata record: a list of exactly 4
/// children, each checked by position.
pub open spec fn spec_map_tx_meta(i: ItemModel) -> Result<TxMetaModel, DecodeError> {
    match i {
        ItemModel::Str(_) => Err(DecodeError::UnexpectedItemKind),
        ItemModel::List(c) => if c.len() != 4 {
            Err(DecodeError::FieldCountMismatch(RecordKind::TxMeta, 4, c.len() as usize))
        } else {
            match tx_meta_field_err(c) {
                Some(e) => Err(e),
                None => Ok(
                    TxMetaModel {
                        block_number: be_val(str_of(c[0])),
                        timestamp: be_val(str_of(c[1])) as u64,
                        message_sender: str_of(c[2]),
                        rest: str_of(c[3]),
                    },
                ),
            }
        },
    }
}

/// Maps an item onto a full transaction: a list of exactly 5 children, the
/// first two nested records, the rest checked by position.
pub open spec fn spec_map_transaction(i: ItemModel) -> Result<TransactionModel, DecodeError> {
    match i {
        ItemModel::Str(_) => Err(DecodeError::UnexpectedItemKind),
        ItemModel::List(c) => if c.len() != 5 {
            Err(DecodeError::FieldCountMismatch(RecordKind::Transaction, 5, c.len() as usize))
        } else {
            match spec_map_tx_legacy(c[0]) {
                Err(e) => Err(e),
                Ok(data) => match spec_map_tx_meta(c[1]) {
                    Err(e) => Err(e),
                    Ok(meta) => match spec_fixed(c[2], 32, FieldId::TxHash) {
                        Err(e) => Err(e),
                        Ok(hash) => match spec_uint(c[3], 4, FieldId::Size) {
                            Err(e) => Err(e),
                            Ok(size) => match spec_fixed(c[4], 20, FieldId::Sender) {
                                Err(e) => Err(e),
                                Ok(from) => Ok(
                                    TransactionModel {
                                        data,
                                        meta,
                                        hash,
                                        size: size as u32,
                                        from,
                                    },
                                ),
                            },
                        },
                    },
                },
            }
        },
    }
}

/// Maps a list's children onto transactions, failing on the first child that
/// does not map.
pub open spec fn spec_map_txs(cs: Seq<ItemModel>) -> Result<Seq<TransactionModel>, DecodeError>
    decreases cs.len(),
{
    if cs.len() == 0 {
        Ok(Seq::empty())
    } else {
        match spec_map_transaction(cs[0]) {
            Err(e) => Err(e),
            Ok(t) => match spec_map_txs(cs.skip(1)) {
                Err(e) => Err(e),
                Ok(rest) => Ok(seq![t] + rest),
            },
        }
    }
}

/// Maps a list's children onto uncle headers, failing on the first child
/// that does not map.
pub open spec fn spec_map_uncles(cs: Seq<ItemModel>) -> Result<Seq<HeaderModel>, DecodeError>
    decreases cs.len(),
{
    if cs.len() == 0 {
        Ok(Seq::empty())
    } else {
        match spec_map_header(cs[0]) {
            Err(e) => Err(e),
            Ok(h) => match spec_map_uncles(cs.skip(1)) {
                Err(e) => Err(e),
                Ok(rest) => Ok(seq![h] + rest),
            },
        }
    }
}

/// Maps an item onto a full block: a list of exactly 3 children — the
/// header, the transaction list and the uncle list.
pub open spec fn spec_map_block(i: ItemModel) -> Result<BlockModel, DecodeError> {
    match i {
        ItemModel::Str(_) => Err(DecodeError::UnexpectedItemKind),
        ItemModel::List(c) => if c.len() != 3 {
            Err(DecodeError::FieldCountMismatch(RecordKind::Block, 3, c.len() as usize))
        } else {
            match spec_map_header(c[0]) {
                Err(e) => Err(e),
                Ok(header) => match c[1] {
                    ItemModel::Str(_) => Err(DecodeError::UnexpectedItemKind),
                    ItemModel::List(tx_items) => match spec_map_txs(tx_items) {
                        Err(e) => Err(e),
                        Ok(txs) => match c[2] {
                            ItemModel::Str(_) => Err(DecodeError::UnexpectedItemKind),
                            ItemModel::List(uncle_items) => match spec_map_uncles(uncle_items) {
                                Err(e) => Err(e),
                                Ok(uncles) => Ok(BlockModel { header, txs, uncles }),
                            },
                        },
                    },
                },
            }
        },
    }
}

// ---------------------------------------------------------------------------
// Per-field decode rules, executable
// ---------------------------------------------------------------------------

/// Copies a byte vector.
fn copy_bytes(src: &Vec<u8>) -> (r: Vec<u8>)
    ensures
        r@ == src@,
{
    let n = src.len();
    let r = copy_range(src, 0, n);
    proof {
        assert(src@.subrange(0, n as int) =~= src@);
    }
    r
}

/// Reads a fixed-width field: a string item of exactly `n` bytes.
fn take_fixed(i: &Item, n: usize, f: FieldId) -> (r: Result<Vec<u8>, DecodeError>)
    ensures
        (match r {
            Ok(v) => spec_fixed(i@, n, f) == Ok::<_, DecodeError>(v@) && v@.len() == n,
            Err(e) => spec_fixed(i@, n, f) == Err::<Seq<u8>, _>(e),
        }),
{
    match i {
        Item::List(_) => Err(DecodeError::UnexpectedItemKind),
        Item::Str(s) => if s.len() == n {
            Ok(copy_bytes(s))
        } else {
            Err(DecodeError::FixedSizeMismatch(f, n, s.len()))
        },
    }
}

/// Reads an opaque byte field, optionally bounded by a maximum length.
fn take_opaque(i: &Item, max: Option<usize>, f: FieldId) -> (r: Result<Vec<u8>, DecodeError>)
    ensures
        (match r {
            Ok(v) => spec_opaque(i@, max, f) == Ok::<_, DecodeError>(v@),
            Err(e) => spec_opaque(i@, max, f) == Err::<Seq<u8>, _>(e),
        }),
{
    match i {
        Item::List(_) => Err(DecodeError::UnexpectedItemKind),
        Item::Str(s) => match max {
            Some(m) => if s.len() <= m {
                Ok(copy_bytes(s))
            } else {
                Err(DecodeError::DomainValidation(f, m, s.len()))
            },
            None => Ok(copy_bytes(s)),
        },
    }
}

/// Reads an unsigned integer field of at most `max_bytes` canonical
/// big-endian bytes into a native value.
fn take_uint(i: &Item, max_bytes: usize, f: FieldId) -> (r: Result<u128, DecodeError>)
    requires
        max_bytes <= 16,
    ensures
        (match r {
            Ok(v) => spec_uint(i@, max_bytes, f) == Ok::<_, DecodeError>(v as nat) && (v as nat)
                < pow256(max_bytes as nat),
            Err(e) => spec_uint(i@, max_bytes, f) == Err::<nat, _>(e),
        }),
{
    match i {
        Item::List(_) => Err(DecodeError::UnexpectedItemKind),
        Item::Str(s) => {
            if s.len() > 0 && s[0] == 0 {
                return Err(DecodeError::NonCanonicalInteger);
            }
            if s.len() > max_bytes {
                return Err(DecodeError::DomainValidation(f, max_bytes, s.len()));
            }
            proof {
                lemma_pow256_values();
            }
            let n = s.len();
            let mut v: u128 = 0;
            let mut j: usize = 0;
            while j < n
                invariant
                    j <= n == s@.len(),
                    n <= max_bytes <= 16,
                    v as nat == be_val(s@.subrange(0, j as int)),
                    (v as nat) < pow256(j as nat),
                    pow256(16) == 0x1_0000_0000_0000_0000_0000_0000_0000_0000,
                decreases n - j,
            {
                let b = s[j];
                proof {
                    let prefix = s@.subrange(0, j as int);
                    lemma_be_val_push(prefix, b);
                    assert(prefix.push(b) =~= s@.subrange(0, j as int + 1));
                    lemma_pow256_monotone(j as nat + 1, 16);
                    assert(pow256(j as nat + 1) == 256 * pow256(j as nat));
                }
                v = v * 256 + (b as u128);
                j = j + 1;
            }
            proof {
                assert(s@.subrange(0, n as int) =~= s@);
                lemma_be_val_bound(s@);
                lemma_pow256_monotone(s@.len(), max_bytes as nat);
            }
            Ok(v)
        },
    }
}

/// Reads an unsigned integer field of at most 256 bits, keeping its
/// canonical bytes.
fn take_u256(i: &Item, f: FieldId) -> (r: Result<U256Be, DecodeError>)
    ensures
        (match r {
            Ok(u) => spec_uint(i@, 32, f) == Ok::<_, DecodeError>(u@) && u.wf(),
            Err(e) => spec_uint(i@, 32, f) == Err::<nat, _>(e),
        }),
{
    match i {
        Item::List(_) => Err(DecodeError::UnexpectedItemKind),
        Item::Str(s) => {
            if s.len() > 0 && s[0] == 0 {
                return Err(DecodeError::NonCanonicalInteger);
            }
            if s.len() > 32 {
                return Err(DecodeError::DomainValidation(f, 32, s.len()));
            }
            Ok(U256Be { bytes: copy_bytes(s) })
        },
    }
}

/// Reads the recipient field: a 20-byte address or the empty creation
/// marker.
fn take_to(i: &Item) -> (r: Result<TransactionKind, DecodeError>)
    ensures
        (match r {
            Ok(k) => spec_to_field(i@) == Ok::<_, DecodeError>(k@) && k.wf(),
            Err(e) => spec_to_field(i@) == Err::<TxKindModel, _>(e),
        }),
{
    match i {
        Item::List(_) => Err(DecodeError::UnexpectedItemKind),
        Item::Str(s) => if s.len() == 0 {
            Ok(TransactionKind::Create)
        } else if s.len() == 20 {
            Ok(TransactionKind::Call(copy_bytes(s)))
        } else {
            Err(DecodeError::FixedSizeMismatch(FieldId::To, 20, s.len()))
        },
    }
}

// ---------------------------------------------------------------------------
// Record mapping, executable
// ---------------------------------------------------------------------------

/// Maps an item onto a [`Header`], exactly as [`spec_map_header`] says.
pub fn map_header(item: &Item) -> (r: Result<Header, DecodeError>)
    ensures
        (match r {
            Ok(h) => spec_map_header(item@) == Ok::<_, DecodeError>(h@) && h.wf(),
            Err(e) => spec_map_header(item@) == Err::<HeaderModel, _>(e),
        }),
{
    match item {
        Item::Str(_) => Err(DecodeError::UnexpectedItemKind),
        Item::List(c) => {
            proof {
                lemma_items_model_index(c@);
                lemma_pow256_values();
            }
            if !(c.len() == 14 || c.len() == 15) {
                return Err(DecodeError::FieldCountMismatch(RecordKind::Header, 14, c.len()));
            }
            let parent_hash = match take_fixed(&c[0], 32, FieldId::ParentHash) {
                Ok(v) => v,
                Err(e) => return Err(e),
            };
            let uncle_hash = match take_fixed(&c[1], 32, FieldId::UncleHash) {
                Ok(v) => v,
                Err(e) => return Err(e),
            };
            let coinbase = match take_fixed(&c[2], 20, FieldId::Coinbase) {
                Ok(v) => v,
                Err(e) => return Err(e),
            };
            let root = match take_fixed(&c[3], 32, FieldId::StateRoot) {
                Ok(v) => v,
                Err(e) => return Err(e),
            };
            let tx_hash = match take_fixed(&c[4], 32, FieldId::TxRoot) {
                Ok(v) => v,
                Err(e) => return Err(e),
            };
            let receipt_hash = match take_fixed(&c[5], 32, FieldId::ReceiptRoot) {
                Ok(v) => v,
                Err(e) => return Err(e),
            };
            let bloom = match take_fixed(&c[6], 256, FieldId::Bloom) {
                Ok(v) => v,
                Err(e) => return Err(e),
            };
            let difficulty = match take_u256(&c[7], FieldId::Difficulty) {
                Ok(v) => v,
                Err(e) => return Err(e),
            };
            let number = match take_u256(&c[8], FieldId::Number) {
                Ok(v) => v,
                Err(e) => return Err(e),
            };
            let gas_limit = match take_uint(&c[9], 8, FieldId::GasLimit) {
                Ok(v) => v as u64,
                Err(e) => return Err(e),
            };
            let gas_used = match take_uint(&c[10], 8, FieldId::GasUsed) {
                Ok(v) => v as u64,
                Err(e) => return Err(e),
            };
            let time = match take_uint(&c[11], 8, FieldId::Time) {
                Ok(v) => v as u64,
                Err(e) => return Err(e),
            };
            let extra_data = match take_opaque(&c[12], Some(32), FieldId::ExtraData) {
                Ok(v) => v,
                Err(e) => return Err(e),
            };
            let mix_digest = match take_fixed(&c[13], 32, FieldId::MixDigest) {
                Ok(v) => v,
                Err(e) => return Err(e),
            };
            let nonce = if c.len() == 15 {
                match take_opaque(&c[14], None, FieldId::BlockNonce) {
                    Ok(v) => v,
                    Err(e) => return Err(e),
                }
            } else {
                Vec::new()
            };
            Ok(
                Header {
                    parent_hash,
                    uncle_hash,
                    coinbase,
                    root,
                    tx_hash,
                    receipt_hash,
                    bloom,
                    difficulty,
                    number,
                    gas_limit,
                    gas_used,
                    time,
                    extra_data,
                    mix_digest,
                    nonce,
                },
            )
        },
    }
}

/// Maps an item onto a [`TxLegacy`], exactly as [`spec_map_tx_legacy`] says.
pub fn map_tx_legacy(item: &Item) -> (r: Result<TxLegacy, DecodeError>)
    ensures
        (match r {
            Ok(t) => spec_map_tx_legacy(item@) == Ok::<_, DecodeError>(t@) && t.wf(),
            Err(e) => spec_map_tx_legacy(item@) == Err::<TxLegacyModel, _>(e),
        }),
{
    match item {
        Item::Str(_) => Err(DecodeError::UnexpectedItemKind),
        Item::List(c) => {
            proof {
                lemma_items_model_index(c@);
                lemma_pow256_values();
            }
            if c.len() != 9 {
                return Err(DecodeError::FieldCountMismatch(RecordKind::TxLegacy, 9, c.len()));
            }
            let account_nonce = match take_uint(&c[0], 8, FieldId::AccountNonce) {
                Ok(v) => v as u64,
                Err(e) => return Err(e),
            };
            let gas_price = match take_uint(&c[1], 16, FieldId::GasPrice) {
                Ok(v) => v,
                Err(e) => return Err(e),
            };
            let gas_limit = match take_uint(&c[2], 8, FieldId::GasLimit) {
                Ok(v) => v as u64,
                Err(e) => return Err(e),
            };
            let to = match take_to(&c[3]) {
                Ok(v) => v,
                Err(e) => return Err(e),
            };
            let value = match take_u256(&c[4], FieldId::Value) {
                Ok(v) => v,
                Err(e) => return Err(e),
            };
            let input = match take_opaque(&c[5], None, FieldId::Input) {
                Ok(v) => v,
                Err(e) => return Err(e),
            };
            let v = match take_u256(&c[6], FieldId::SigV) {
                Ok(v) => v,
                Err(e) => return Err(e),
            };
            let sig_r = match take_u256(&c[7], FieldId::SigR) {
                Ok(v) => v,
                Err(e) => return Err(e),
            };
            let sig_s = match take_u256(&c[8], FieldId::SigS) {
                Ok(v) => v,
                Err(e) => return Err(e),
            };
            Ok(
                TxLegacy {
                    account_nonce,
                    gas_price,
                    gas_limit,
                    to,
                    value,
                    input,
                    v,
                    r: sig_r,
                    s: sig_s,
                },
            )
        },
    }
}

/// Maps an item onto a [`TxMeta`], exactly as [`spec_map_tx_meta`] says.
pub fn map_tx_meta(item: &Item) -> (r: Result<TxMeta, DecodeError>)
    ensures
        (match r {
            Ok(t) => spec_map_tx_meta(item@) == Ok::<_, DecodeError>(t@) && t.wf(),
            Err(e) => spec_map_tx_meta(item@) == Err::<TxMetaModel, _>(e),
        }),
{
    match item {
        Item::Str(_) => Err(DecodeError::UnexpectedItemKind),
        Item::List(c) => {
            proof {
                lemma_items_model_index(c@);
                lemma_pow256_values();
            }
            if c.len() != 4 {
                return Err(DecodeError::FieldCountMismatch(RecordKind::TxMeta, 4, c.len()));
            }
            let block_number = match take_u256(&c[0], FieldId::BlockNumber) {
                Ok(v) => v,
                Err(e) => return Err(e),
            };
            let timestamp = match take_uint(&c[1], 8, FieldId::Timestamp) {
                Ok(v) => v as u64,
                Err(e) => return Err(e),
            };
            let message_sender = match take_fixed(&c[2], 20, FieldId::MessageSender) {
                Ok(v) => v,
                Err(e) => return Err(e),
            };
            let rest = match take_opaque(&c[3], None, FieldId::Rest) {
                Ok(v) => v,
                Err(e) => return Err(e),
            };
            Ok(TxMeta { block_number, timestamp, message_sender, rest })
        },
    }
}

/// Maps an item onto a [`Transaction`], exactly as [`spec_map_transaction`]
/// says.
pub fn map_transaction(item: &Item) -> (r: Result<Transaction, DecodeError>)
    ensures
        (match r {
            Ok(t) => spec_map_transaction(item@) == Ok::<_, DecodeError>(t@) && t.wf(),
            Err(e) => spec_map_transaction(item@) == Err::<TransactionModel, _>(e),
        }),
{
    match item {
        Item::Str(_) => Err(DecodeError::UnexpectedItemKind),
        Item::List(c) => {
            proof {
                lemma_items_model_index(c@);
                lemma_pow256_values();
            }
            if c.len() != 5 {
                return Err(DecodeError::FieldCountMismatch(RecordKind::Transaction, 5, c.len()));
            }
            let data = match map_tx_legacy(&c[0]) {
                Ok(v) => v,
                Err(e) => return Err(e),
            };
            let meta = match map_tx_meta(&c[1]) {
                Ok(v) => v,
                Err(e) => return Err(e),
            };
            let hash = match take_fixed(&c[2], 32, FieldId::TxHash) {
                Ok(v) => v,
                Err(e) => return Err(e),
            };
            let size = match take_uint(&c[3], 4, FieldId::Size) {
                Ok(v) => v as u32,
                Err(e) => return Err(e),
            };
            let from = match take_fixed(&c[4], 20, FieldId::Sender) {
                Ok(v) => v,
                Err(e) => return Err(e),
            };
            Ok(Transaction { data, meta, hash, size, from })
        },
    }
}

/// Maps a list's children onto transactions, exactly as [`spec_map_txs`]
/// says.
fn map_txs(items: &Vec<Item>) -> (r: Result<Vec<Transaction>, DecodeError>)
    ensures
        (match r {
            Ok(ts) => spec_map_txs(items_model(items@)) == Ok::<_, DecodeError>(txs_model(ts@))
                && (forall|j: int| 0 <= j < ts@.len() ==> (#[trigger] ts@[j]).wf()),
            Err(e) => spec_map_txs(items_model(items@)) == Err::<Seq<TransactionModel>, _>(e),
        }),
{
    let ghost tis = items_model(items@);
    proof {
        lemma_items_model_index(items@);
    }
    let n = items.len();
    let mut out: Vec<Transaction> = Vec::new();
    let mut k: usize = 0;
    proof {
        assert(tis.skip(0) =~= tis);
        match spec_map_txs(tis) {
            Ok(rest) => {
                assert(txs_model(out@) + rest =~= rest);
            },
            Err(_) => {},
        }
    }
    while k < n
        invariant
            k <= n == items@.len(),
            tis == items_model(items@),
            tis.len() == n,
            forall|j: int| 0 <= j < tis.len() ==> tis[j] == item_model(items@[j]),
            forall|j: int| 0 <= j < out@.len() ==> (#[trigger] out@[j]).wf(),
            (match spec_map_txs(tis.skip(k as int)) {
                Ok(rest) => spec_map_txs(tis) == Ok::<_, DecodeError>(txs_model(out@) + rest),
                Err(e) => spec_map_txs(tis) == Err::<Seq<TransactionModel>, _>(e),
            }),
        decreases n - k,
    {
        match map_transaction(&items[k]) {
            Ok(t) => {
                proof {
                    assert(tis.skip(k as int)[0] == tis[k as int]);
                    assert(tis.skip(k as int).skip(1) =~= tis.skip(k as int + 1));
                }
                let ghost out_old = out@;
                out.push(t);
                proof {
                    match spec_map_txs(tis.skip(k as int + 1)) {
                        Ok(rest2) => {
                            assert(txs_model(out@) + rest2 =~= txs_model(out_old) + (seq![t@]
                                + rest2));
                        },
                        Err(_) => {},
                    }
                }
                k = k + 1;
            },
            Err(e) => {
                proof {
                    assert(tis.skip(k as int)[0] == tis[k as int]);
                }
                return Err(e);
            },
        }
    }
    proof {
        assert(tis.skip(n as int) =~= Seq::<ItemModel>::empty());
        assert(txs_model(out@) + Seq::<TransactionModel>::empty() =~= txs_model(out@));
    }
    Ok(out)
}

/// Maps a list's children onto uncle headers, exactly as [`spec_map_uncles`]
/// says.
fn map_uncle_headers(items: &Vec<Item>) -> (r: Result<Vec<Header>, DecodeError>)
    ensures
        (match r {
            Ok(hs) => spec_map_uncles(items_model(items@)) == Ok::<_, DecodeError>(
                headers_model(hs@),
            ) && (forall|j: int| 0 <= j < hs@.len() ==> (#[trigger] hs@[j]).wf()),
            Err(e) => spec_map_uncles(items_model(items@)) == Err::<Seq<HeaderModel>, _>(e),
        }),
{
    let ghost uis = items_model(items@);
    proof {
        lemma_items_model_index(items@);
    }
    let n = items.len();
    let mut out: Vec<Header> = Vec::new();
    let mut k: usize = 0;
    proof {
        assert(uis.skip(0) =~= uis);
        match spec_map_uncles(uis) {
            Ok(rest) => {
                assert(headers_model(out@) + rest =~= rest);
            },
            Err(_) => {},
        }
    }
    while k < n
        invariant
            k <= n == items@.len(),
            uis == items_model(items@),
            uis.len() == n,
            forall|j: int| 0 <= j < uis.len() ==> uis[j] == item_model(items@[j]),
            forall|j: int| 0 <= j < out@.len() ==> (#[trigger] out@[j]).wf(),
            (match spec_map_uncles(uis.skip(k as int)) {
                Ok(rest) => spec_map_uncles(uis) == Ok::<_, DecodeError>(headers_model(out@)
                    + rest),
                Err(e) => spec_map_uncles(uis) == Err::<Seq<HeaderModel>, _>(e),
            }),
        decreases n - k,
    {
        match map_header(&items[k]) {
            Ok(h) => {
                proof {
                    assert(uis.skip(k as int)[0] == uis[k as int]);
                    assert(uis.skip(k as int).skip(1) =~= uis.skip(k as int + 1));
                }
                let ghost out_old = out@;
                out.push(h);
                proof {
                    match spec_map_uncles(uis.skip(k as int + 1)) {
                        Ok(rest2) => {
                            assert(headers_model(out@) + rest2 =~= headers_model(out_old) + (seq![
                                h@,
                            ] + rest2));
                        },
                        Err(_) => {},
                    }
                }
                k = k + 1;
            },
            Err(e) => {
                proof {
                    assert(uis.skip(k as int)[0] == uis[k as int]);
                }
                return Err(e);
            },
        }
    }
    proof {
        assert(uis.skip(n as int) =~= Seq::<ItemModel>::empty());
        assert(headers_model(out@) + Seq::<HeaderModel>::empty() =~= headers_model(out@));
    }
    Ok(out)
}

/// Maps an item onto a [`Block`], exactly as [`spec_map_block`] says.
pub fn map_block(item: &Item) -> (r: Result<Block, DecodeError>)
    ensures
        (match r {
            Ok(b) => spec_map_block(item@) == Ok::<_, DecodeError>(b@) && b.wf(),
            Err(e) => spec_map_block(item@) == Err::<BlockModel, _>(e),
        }),
{
    match item {
        Item::Str(_) => Err(DecodeError::UnexpectedItemKind),
        Item::List(c) => {
            let ghost cs = items_model(c@);
            proof {
                lemma_items_model_index(c@);
            }
            if c.len() != 3 {
                return Err(DecodeError::FieldCountMismatch(RecordKind::Block, 3, c.len()));
            }
            let header = match map_header(&c[0]) {
                Ok(v) => v,
                Err(e) => return Err(e),
            };
            let txs = match &c[1] {
                Item::Str(_) => {
                    return Err(DecodeError::UnexpectedItemKind);
                },
                Item::List(tx_items) => {
                    match map_txs(tx_items) {
                        Ok(v) => {
                            proof {
                                assert(cs[1] == ItemModel::List(items_model(tx_items@)));
                            }
                            v
                        },
                        Err(e) => return Err(e),
                    }
                },
            };
            let ghost txs_fact = (match cs[1] {
                ItemModel::List(tis) => spec_map_txs(tis) == Ok::<_, DecodeError>(
                    txs_model(txs@),
                ),
                ItemModel::Str(_) => false,
            });
            assert(txs_fact);
            let uncles = match &c[2] {
                Item::Str(_) => {
                    return Err(DecodeError::UnexpectedItemKind);
                },
                Item::List(uncle_items) => {
                    match map_uncle_headers(uncle_items) {
                        Ok(v) => {
                            proof {
                                assert(cs[2] == ItemModel::List(items_model(uncle_items@)));
                            }
                            v
                        },
                        Err(e) => return Err(e),
                    }
                },
            };
            Ok(Block { header, txs, uncles })
        },
    }
}

} // verus!
