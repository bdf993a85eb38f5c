//! Error kinds shared by the primitive decoder, the schema mapper and the
//! stream reader.
//!
//! Every failure is fail-fast and non-recoverable for the item being decoded:
//! a record either fully decodes or decoding stops with one of these kinds.
//! The kinds carry plain enum tags rather than strings so that contracts can
//! compare them structurally; a caller that wants text renders them itself.

use vstd::prelude::*;

verus! {

/// The record type that was being mapped when an arity error was found.
#[derive(Clone, Copy, Debug, PartialEq, Eq, Structural)]
pub enum RecordKind {
    /// A block header record.
    Header,
    /// A full transaction record.
    Transaction,
    /// The legacy transaction payload inside a transaction.
    TxLegacy,
    /// The derived transaction metadata inside a transaction.
    TxMeta,
    /// A full block record.
    Block,
}

/// The field that was being mapped when a per-field error was found.
#[derive(Clone, Copy, Debug, PartialEq, Eq, Structural)]
pub enum FieldId {
    /// Header: hash of the parent block's header.
    ParentHash,
    /// Header: hash of the ommers list.
    UncleHash,
    /// Header: fee recipient address.
    Coinbase,
    /// Header: state trie root.
    StateRoot,
    /// Header: transactions trie root.
    TxRoot,
    /// Header: receipts trie root.
    ReceiptRoot,
    /// Header: logs bloom filter.
    Bloom,
    /// Header: difficulty scalar.
    Difficulty,
    /// Header: block number scalar.
    Number,
    /// Header: gas limit scalar.
    GasLimit,
    /// Header: gas used scalar.
    GasUsed,
    /// Header: timestamp scalar.
    Time,
    /// Header: arbitrary extra bytes, at most 32.
    ExtraData,
    /// Header: proof-of-work mix digest.
    MixDigest,
    /// Header: proof-of-work nonce bytes.
    BlockNonce,
    /// Transaction: precomputed transaction hash.
    TxHash,
    /// Transaction: encoded-size counter.
    Size,
    /// Transaction: recovered sender address.
    Sender,
    /// Legacy payload: sender account nonce.
    AccountNonce,
    /// Legacy payload: gas price scalar.
    GasPrice,
    /// Legacy payload: recipient address or contract-creation marker.
    To,
    /// Legacy payload: transferred value scalar.
    Value,
    /// Legacy payload: call input or initialisation code.
    Input,
    /// Legacy payload: signature component v.
    SigV,
    /// Legacy payload: signature component r.
    SigR,
    /// Legacy payload: signature component s.
    SigS,
    /// Metadata: containing block number.
    BlockNumber,
    /// Metadata: containing block timestamp.
    Timestamp,
    /// Metadata: recovered message sender.
    MessageSender,
    /// Metadata: residual trailing bytes.
    Rest,
}

/// One decode failure. Decoding never substitutes defaults for malformed
/// fields: the first violation found, in wire order, is reported.
#[derive(Clone, Copy, Debug, PartialEq, Eq, Structural)]
pub enum DecodeError {
    /// A declared length exceeds the remaining bytes of the region.
    BufferUnderflow,
    /// A length prefix is not the unique minimal one for its payload.
    NonCanonicalLength,
    /// A nonzero integer is encoded with a superfluous leading zero byte.
    NonCanonicalInteger,
    /// A string item stood where a list was required, or vice versa.
    UnexpectedItemKind,
    /// A record's child count differs from its mandatory arity:
    /// `(record, expected, actual)`.
    FieldCountMismatch(RecordKind, usize, usize),
    /// A fixed-width field's byte string has the wrong length:
    /// `(field, expected, actual)`.
    FixedSizeMismatch(FieldId, usize, usize),
    /// A structurally valid field breaks a semantic length bound:
    /// `(field, allowed maximum, actual)`. Raised for `extra_data` longer
    /// than 32 bytes and for an integer wider than its declared width.
    DomainValidation(FieldId, usize, usize),
}

} // verus!
