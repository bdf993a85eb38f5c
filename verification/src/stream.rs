//! The stream reader: a lazy, finite, single-pass producer of blocks over
//! one buffer.
//!
//! The buffer is a raw concatenation of whole top-level block encodings with
//! no enclosing list and no item count, so a single whole-buffer decode is
//! invalid framing by construction. The reader owns the cursor: on each
//! advance it either reports exhaustion exactly at the buffer boundary,
//! decodes one item at the cursor, maps it onto a block and advances by the
//! consumed length, or fails terminally with the error kind and the starting
//! offset of the failing item. Blocks already emitted before a failure stay
//! valid and are never retracted.
//!
//! The reader buffers the whole input up front, but its contract speaks only
//! of the bytes from the cursor to the end of the buffer, so a source that
//! arrives incrementally can drive the same step: append what has arrived,
//! advance while items complete, and treat an underflow at the boundary as
//! "wait for more bytes" rather than a terminal failure.

use vstd::prelude::*;

use crate::decode::{decode_at, spec_decode};
use crate::encode::{spec_encode, spec_encode_items, encodable_items, lemma_decode_encode,
    lemma_encode_len_ge_1};
use crate::err::DecodeError;
use crate::item::ItemModel;
use crate::schema::{Block, BlockModel, map_block, spec_map_block};

verus! {

/// What reading a whole buffer from an offset yields: the blocks in order,
/// and the failure, if any, with the starting offset of the item that failed.
pub struct StreamOutcome {
    /// The decoded blocks, in buffer order.
    pub blocks: Seq<BlockModel>,
    /// The first failure: its kind and the offset where its item starts;
    /// `None` when the buffer ends exactly at an item boundary.
    pub err: Option<(DecodeError, nat)>,
}

/// Decoding one block at the start of `s`: one primitive decode, then the
/// schema mapping, yielding the block and the bytes consumed.
pub open spec fn spec_decode_block(s: Seq<u8>) -> Result<(BlockModel, nat), DecodeError> {
    match spec_decode(s) {
        Err(e) => Err(e),
        Ok((item, n)) => match spec_map_block(item) {
            Err(e) => Err(e),
            Ok(b) => Ok((b, n)),
        },
    }
}

/// Reading `s` from `pos` to its end, one whole block encoding at a time.
pub open spec fn spec_stream(s: Seq<u8>, pos: nat) -> StreamOutcome
    decreases s.len() - pos,
    when pos <= s.len()
{
    if pos == s.len() {
        StreamOutcome { blocks: Seq::empty(), err: None }
    } else {
        match spec_decode_block(s.skip(pos as int)) {
            Err(e) => StreamOutcome { blocks: Seq::empty(), err: Some((e, pos)) },
            Ok(pair) => if 1 <= pair.1 <= s.len() - pos {
                let rest = spec_stream(s, pos + pair.1);
                StreamOutcome { blocks: seq![pair.0] + rest.blocks, err: rest.err }
            } else {
                StreamOutcome {
                    blocks: Seq::empty(),
                    err: Some((DecodeError::BufferUnderflow, pos)),
                }
            },
        }
    }
}

/// The models of a sequence of blocks, in order.
pub open spec fn blocks_model(s: Seq<Block>) -> Seq<BlockModel> {
    Seq::new(s.len(), |i: int| s[i]@)
}

/// One step of the stream reader.
#[derive(Clone, Debug, PartialEq, Eq)]
pub enum StreamStep {
    /// One block was decoded and the cursor advanced past it.
    Emitted(Block),
    /// The cursor stood exactly at the buffer boundary: terminal success.
    Exhausted,
    /// Decoding failed: the error kind and the starting offset of the item
    /// that failed. Terminal; later advances report exhaustion.
    Failed(DecodeError, usize),
}

/// The stream reader: owns the buffer and the cursor for the whole
/// iteration; nothing else mutates either.
pub struct BlockStream {
    /// The concatenated block encodings.
    pub buf: Vec<u8>,
    /// The offset where the next item starts.
    pub cursor: usize,
    /// Whether a decode failure ended the iteration.
    pub failed: bool,
}

impl BlockStream {
    /// The cursor never passes the buffer boundary.
    pub open spec fn wf(&self) -> bool {
        self.cursor <= self.buf@.len()
    }

    /// A reader over one buffer, at its start.
    pub fn new(buf: Vec<u8>) -> (s: BlockStream)
        ensures
            s.buf@ == buf@,
            s.cursor == 0,
            !s.failed,
            s.wf(),
    {
        BlockStream { buf, cursor: 0, failed: false }
    }

    /// Advances once: exhaustion exactly at the boundary, one emitted block,
    /// or the terminal failure with the failing item's starting offset.
    pub fn next_block(&mut self) -> (step: StreamStep)
        requires
            old(self).wf(),
        ensures
            final(self).wf(),
            final(self).buf@ == old(self).buf@,
            (old(self).failed || old(self).cursor == old(self).buf@.len()) ==> (step
                is Exhausted && *final(self) == *old(self)),
            (!old(self).failed && old(self).cursor < old(self).buf@.len()) ==> (match
                spec_decode_block(old(self).buf@.skip(old(self).cursor as int)) {
                Ok(pair) => {
                    &&& (step matches StreamStep::Emitted(b) && b@ == pair.0 && b.wf())
                    &&& final(self).cursor == old(self).cursor + pair.1
                    &&& old(self).cursor < final(self).cursor <= old(self).buf@.len()
                    &&& !final(self).failed
                },
                Err(e) => {
                    &&& step == StreamStep::Failed(e, old(self).cursor)
                    &&& final(self).failed
                    &&& final(self).cursor == old(self).cursor
                },
            }),
    {
        if self.failed || self.cursor == self.buf.len() {
            return StreamStep::Exhausted;
        }
        let ghost region = self.buf@.skip(self.cursor as int);
        proof {
            assert(region =~= self.buf@.subrange(self.cursor as int, self.buf@.len() as int));
        }
        let len = self.buf.len();
        let offset = self.cursor;
        match decode_at(&self.buf, offset, len) {
            Err(e) => {
                self.failed = true;
                StreamStep::Failed(e, offset)
            },
            Ok((item, n)) => {
                match map_block(&item) {
                    Err(e) => {
                        self.failed = true;
                        StreamStep::Failed(e, offset)
                    },
                    Ok(b) => {
                        self.cursor = offset + n;
                        StreamStep::Emitted(b)
                    },
                }
            },
        }
    }
}

/// Reading from an offset equals reading the suffix from its start, with
/// every failure offset shifted by the suffix's start.
pub proof fn lemma_stream_shift(t: Seq<u8>, pos: nat)
    requires
        pos <= t.len(),
    ensures
        spec_stream(t, pos).blocks == spec_stream(t.skip(pos as int), 0).blocks,
        (match (spec_stream(t, pos).err, spec_stream(t.skip(pos as int), 0).err) {
            (Some(a), Some(b)) => a.0 == b.0 && a.1 == b.1 + pos,
            (None, None) => true,
            _ => false,
        }),
    decreases t.len() - pos,
{
    let u = t.skip(pos as int);
    if pos < t.len() {
        assert(u.skip(0) =~= u);
        match spec_decode_block(u) {
            Err(_) => {},
            Ok(pair) => {
                if 1 <= pair.1 <= t.len() - pos {
                    assert(u.skip(pair.1 as int) =~= t.skip(pos as int + pair.1 as int));
                    lemma_stream_shift(t, pos + pair.1);
                    lemma_stream_shift(u, pair.1);
                }
            },
        }
    }
}

/// The empty buffer yields zero blocks and terminates in success, not
/// error.
pub proof fn lemma_stream_empty()
    ensures
        spec_stream(Seq::empty(), 0).blocks == Seq::<BlockModel>::empty(),
        spec_stream(Seq::empty(), 0).err is None,
{
}

/// For any number of valid block encodings concatenated with no separator,
/// the stream yields exactly those blocks in their concatenation order and ends
/// in success exactly at the buffer boundary.
pub proof fn lemma_stream_of_blocks(items: Seq<ItemModel>, blocks: Seq<BlockModel>)
    requires
        items.len() == blocks.len(),
        encodable_items(items),
        forall|k: int| 0 <= k < items.len() ==> spec_map_block(#[trigger] items[k]) == Ok::<
            _,
            DecodeError,
        >(blocks[k]),
    ensures
        spec_stream(spec_encode_items(items), 0).blocks == blocks,
        spec_stream(spec_encode_items(items), 0).err is None,
    decreases items.len(),
{
    let buffer = spec_encode_items(items);
    if items.len() == 0 {
        assert(buffer.len() == 0);
        assert(blocks =~= Seq::<BlockModel>::empty());
    } else {
        let enc0 = spec_encode(items[0]);
        let tail = spec_encode_items(items.skip(1));
        lemma_encode_len_ge_1(items[0]);
        lemma_decode_encode(items[0], tail);
        assert(buffer == enc0 + tail);
        assert(buffer.skip(0) =~= buffer);
        assert(spec_map_block(items[0]) == Ok::<_, DecodeError>(blocks[0]));
        lemma_stream_shift(buffer, enc0.len());
        assert(buffer.skip(enc0.len() as int) =~= tail);
        assert forall|k: int| 0 <= k < items.skip(1).len() implies spec_map_block(
            #[trigger] items.skip(1)[k],
        ) == Ok::<_, DecodeError>(blocks.skip(1)[k]) by {
            assert(items.skip(1)[k] == items[k + 1]);
            assert(blocks.skip(1)[k] == blocks[k + 1]);
        }
        lemma_stream_of_blocks(items.skip(1), blocks.skip(1));
        assert(seq![blocks[0]] + blocks.skip(1) =~= blocks);
    }
}

/// A buffer whose final item is malformed — for a truncated item, with
/// `BufferUnderflow` — yields the leading valid blocks and then fails,
/// reporting the exact starting offset of the item that failed.
pub proof fn lemma_stream_with_bad_tail(
    items: Seq<ItemModel>,
    blocks: Seq<BlockModel>,
    tail: Seq<u8>,
    e: DecodeError,
)
    requires
        items.len() == blocks.len(),
        encodable_items(items),
        forall|k: int| 0 <= k < items.len() ==> spec_map_block(#[trigger] items[k]) == Ok::<
            _,
            DecodeError,
        >(blocks[k]),
        tail.len() > 0,
        spec_decode(tail) == Err::<(ItemModel, nat), DecodeError>(e),
    ensures
        spec_stream(spec_encode_items(items) + tail, 0).blocks == blocks,
        spec_stream(spec_encode_items(items) + tail, 0).err == Some(
            (e, spec_encode_items(items).len()),
        ),
    decreases items.len(),
{
    let buffer = spec_encode_items(items) + tail;
    assert(buffer.skip(0) =~= buffer);
    if items.len() == 0 {
        assert(buffer =~= tail);
        assert(blocks =~= Seq::<BlockModel>::empty());
    } else {
        let enc0 = spec_encode(items[0]);
        let rest_enc = spec_encode_items(items.skip(1));
        lemma_encode_len_ge_1(items[0]);
        assert(spec_encode_items(items) == enc0 + rest_enc);
        assert(buffer =~= enc0 + (rest_enc + tail));
        lemma_decode_encode(items[0], rest_enc + tail);
        assert(spec_decode(buffer) == Ok::<_, DecodeError>((items[0], enc0.len())));
        assert(spec_map_block(items[0]) == Ok::<_, DecodeError>(blocks[0]));
        lemma_stream_shift(buffer, enc0.len());
        assert(buffer.skip(enc0.len() as int) =~= rest_enc + tail);
        assert forall|k: int| 0 <= k < items.skip(1).len() implies spec_map_block(
            #[trigger] items.skip(1)[k],
        ) == Ok::<_, DecodeError>(blocks.skip(1)[k]) by {
            assert(items.skip(1)[k] == items[k + 1]);
            assert(blocks.skip(1)[k] == blocks[k + 1]);
        }
        lemma_stream_with_bad_tail(items.skip(1), blocks.skip(1), tail, e);
        assert(seq![blocks[0]] + blocks.skip(1) =~= blocks);
    }
}

/// Reads a whole buffer: the blocks in order, and the failure, if any, with
/// the starting offset of the item that failed. Blocks emitted before a
/// failure are returned with it.
pub fn decode_all(buf: &Vec<u8>) -> (r: (Vec<Block>, Option<(DecodeError, usize)>))
    ensures
        blocks_model(r.0@) == spec_stream(buf@, 0).blocks,
        (match (r.1, spec_stream(buf@, 0).err) {
            (Some(got), Some(want)) => got.0 == want.0 && got.1 as nat == want.1,
            (None, None) => true,
            _ => false,
        }),
        forall|i: int| 0 <= i < r.0@.len() ==> (#[trigger] r.0@[i]).wf(),
{
    let len = buf.len();
    let mut out: Vec<Block> = Vec::new();
    let mut cursor: usize = 0;
    proof {
        match spec_stream(buf@, 0) {
            StreamOutcome { blocks, err } => {
                assert(blocks_model(out@) + blocks =~= blocks);
            },
        }
    }
    while cursor < len
        invariant
            cursor <= len == buf@.len(),
            forall|i: int| 0 <= i < out@.len() ==> (#[trigger] out@[i]).wf(),
            spec_stream(buf@, 0).blocks == blocks_model(out@) + spec_stream(
                buf@,
                cursor as nat,
            ).blocks,
            spec_stream(buf@, 0).err == spec_stream(buf@, cursor as nat).err,
        decreases len - cursor,
    {
        let ghost region = buf@.skip(cursor as int);
        proof {
            assert(region =~= buf@.subrange(cursor as int, len as int));
        }
        let ghost cursor0 = cursor;
        match decode_at(buf, cursor, len) {
            Err(e) => {
                proof {
                    assert(blocks_model(out@) + Seq::<BlockModel>::empty() =~= blocks_model(out@));
                }
                return (out, Some((e, cursor)));
            },
            Ok((item, n)) => {
                match map_block(&item) {
                    Err(e) => {
                        proof {
                            assert(blocks_model(out@) + Seq::<BlockModel>::empty() =~= blocks_model(
                                out@,
                            ));
                        }
                        return (out, Some((e, cursor)));
                    },
                    Ok(b) => {
                        let ghost out_old = out@;
                        out.push(b);
                        cursor = cursor + n;
                        proof {
                            assert(blocks_model(out@) =~= blocks_model(out_old).push(b@));
                            let rest = spec_stream(buf@, cursor as nat);
                            assert(spec_stream(buf@, cursor0 as nat).blocks =~= seq![b@]
                                + rest.blocks);
                            assert(blocks_model(out@) + rest.blocks =~= blocks_model(out_old) + (
                            seq![b@] + rest.blocks));
                        }
                    },
                }
            },
        }
    }
    proof {
        assert(spec_stream(buf@, cursor as nat).blocks =~= Seq::<BlockModel>::empty());
        assert(blocks_model(out@) + Seq::<BlockModel>::empty() =~= blocks_model(out@));
    }
    (out, None)
}

} // verus!
