//! Decoder for a length-prefixed recursive binary encoding ("RLP") of
//! blockchain block data.
//!
//! The crate has three layers:
//! - [`decode`]: the primitive decoder, which turns a byte region into one
//!   abstract item (a byte string or an ordered list of items) together with
//!   the exact number of bytes consumed, enforcing canonical encodings;
//! - [`schema`]: the schema mapper, which interprets an item as an ordered
//!   list of children and maps each child, by fixed position, onto a typed
//!   field of a block record;
//! - [`stream`]: the stream reader, which walks one buffer that concatenates
//!   whole top-level block encodings with no separator and yields the typed
//!   blocks in order.
//!
//! An encoding layer ([`encode`]) produces the unique canonical encoding of
//! an item; round-trip laws relating it to the decoder live beside it.

pub mod decode;
pub mod encode;
pub mod err;
pub mod item;
pub mod num;
pub mod schema;
pub mod stream;
