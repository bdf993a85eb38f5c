//! The primitive decoder: one byte region to one item plus the exact number
//! of bytes consumed.
//!
//! The first byte of an encoding determines its form:
//!
//! | first byte  | form               | payload length                            |
//! |-------------|--------------------|-------------------------------------------|
//! | `0x00-0x7F` | single-byte string | the byte itself is the value              |
//! | `0x80-0xB7` | short string       | `b - 0x80`                                |
//! | `0xB8-0xBF` | long string        | big-endian value of the next `b - 0xB7` bytes |
//! | `0xC0-0xF7` | short list         | `b - 0xC0`, recursively decoded           |
//! | `0xF8-0xFF` | long list          | big-endian value of the next `b - 0xF7` bytes |
//!
//! Only canonical encodings are accepted: a one-byte string below `0x80` must
//! use the single-byte form, a length-of-length must not start with a zero
//! byte, and a long form must not carry a length that fits the short form.
//!
//! [`spec_decode`] is the grammar; [`decode_item`] is the verified decoder,
//! whose contract says it returns exactly what the grammar says, errors
//! included.

use vstd::prelude::*;

use crate::err::DecodeError;
use crate::item::{Item, ItemModel, item_model, items_model, lemma_items_model_push};
use crate::num::{be_val, pow256, lemma_be_val_push, lemma_pow256_monotone};

verus! {

/// What decoding one item at the start of `s` yields: the item and the count
/// of bytes consumed, or the error, exactly as the encoding rules demand.
pub open spec fn spec_decode(s: Seq<u8>) -> Result<(ItemModel, nat), DecodeError>
    decreases s.len(), 0int,
{
    if s.len() == 0 {
        Err(DecodeError::BufferUnderflow)
    } else {
        let b = s[0];
        if b < 0x80 {
            Ok((ItemModel::Str(seq![b]), 1))
        } else if b <= 0xb7 {
            let len = b - 0x80;
            if s.len() < 1 + len {
                Err(DecodeError::BufferUnderflow)
            } else if len == 1 && s[1] < 0x80 {
                Err(DecodeError::NonCanonicalLength)
            } else {
                Ok((ItemModel::Str(s.subrange(1, 1 + len)), (1 + len) as nat))
            }
        } else if b <= 0xbf {
            let ll = b - 0xb7;
            if s.len() < 1 + ll {
                Err(DecodeError::BufferUnderflow)
            } else if s[1] == 0 {
                Err(DecodeError::NonCanonicalLength)
            } else {
                let len = be_val(s.subrange(1, 1 + ll));
                if len <= 55 {
                    Err(DecodeError::NonCanonicalLength)
                } else if s.len() < 1 + ll + len {
                    Err(DecodeError::BufferUnderflow)
                } else {
                    Ok((ItemModel::Str(s.subrange(1 + ll, 1 + ll + len)), (1 + ll + len) as nat))
                }
            }
        } else if b <= 0xf7 {
            let len = b - 0xc0;
            if s.len() < 1 + len {
                Err(DecodeError::BufferUnderflow)
            } else {
                match spec_decode_list(s.subrange(1, 1 + len)) {
                    Ok(children) => Ok((ItemModel::List(children), (1 + len) as nat)),
                    Err(e) => Err(e),
                }
            }
        } else {
            let ll = b - 0xf7;
            if s.len() < 1 + ll {
                Err(DecodeError::BufferUnderflow)
            } else if s[1] == 0 {
                Err(DecodeError::NonCanonicalLength)
            } else {
                let len = be_val(s.subrange(1, 1 + ll));
                if len <= 55 {
                    Err(DecodeError::NonCanonicalLength)
                } else if s.len() < 1 + ll + len {
                    Err(DecodeError::BufferUnderflow)
                } else {
                    match spec_decode_list(s.subrange(1 + ll, 1 + ll + len)) {
                        Ok(children) => Ok((ItemModel::List(children), (1 + ll + len) as nat)),
                        Err(e) => Err(e),
                    }
                }
            }
        }
    }
}

/// What decoding a whole region as consecutive items yields: the children of
/// a list, in encounter order, consuming the region exactly.
pub open spec fn spec_decode_list(s: Seq<u8>) -> Result<Seq<ItemModel>, DecodeError>
    decreases s.len(), 1int,
{
    if s.len() == 0 {
        Ok(Seq::empty())
    } else {
        match spec_decode(s) {
            Ok((first, n)) => if 1 <= n <= s.len() {
                match spec_decode_list(s.skip(n as int)) {
                    Ok(rest) => Ok(seq![first] + rest),
                    Err(e) => Err(e),
                }
            } else {
                Err(DecodeError::BufferUnderflow)
            },
            Err(e) => Err(e),
        }
    }
}

/// Copies `buf[a..b]` into a fresh vector.
pub(crate) fn copy_range(buf: &Vec<u8>, a: usize, b: usize) -> (r: Vec<u8>)
    requires
        a <= b <= buf@.len(),
    ensures
        r@ == buf@.subrange(a as int, b as int),
{
    let mut out: Vec<u8> = Vec::new();
    let mut i = a;
    while i < b
        invariant
            a <= i <= b <= buf@.len(),
            out@ == buf@.subrange(a as int, i as int),
        decreases b - i,
    {
        out.push(buf[i]);
        i = i + 1;
        proof {
            assert(out@ =~= buf@.subrange(a as int, i as int));
        }
    }
    out
}

/// Reads `count` big-endian bytes at `start` as an unsigned integer.
fn read_be_u64(buf: &Vec<u8>, start: usize, count: usize) -> (r: u64)
    requires
        count <= 8,
        start + count <= buf@.len(),
    ensures
        r as nat == be_val(buf@.subrange(start as int, start as int + count as int)),
{
    proof {
        crate::num::lemma_pow256_values();
    }
    let buf_len = buf.len();
    let mut v: u64 = 0;
    let mut j: usize = 0;
    while j < count
        invariant
            j <= count <= 8,
            start + count <= buf_len == buf@.len(),
            v as nat == be_val(buf@.subrange(start as int, start as int + j as int)),
            (v as nat) < pow256(j as nat),
            pow256(8) == 0x1_0000_0000_0000_0000,
        decreases count - j,
    {
        let b = buf[start + j];
        proof {
            let prefix = buf@.subrange(start as int, start as int + j as int);
            lemma_be_val_push(prefix, b);
            assert(prefix.push(b) =~= buf@.subrange(start as int, start as int + j as int + 1));
            lemma_pow256_monotone(j as nat + 1, 8);
            assert(pow256(j as nat + 1) == 256 * pow256(j as nat));
        }
        v = v * 256 + (b as u64);
        j = j + 1;
    }
    proof {
        assert(buf@.subrange(start as int, start as int + count as int) =~= buf@.subrange(
            start as int,
            start as int + j as int,
        ));
    }
    v
}

/// Decodes one item from `buf[off..end]`, returning the item and the number
/// of bytes consumed, or the first error the encoding rules find.
pub fn decode_at(buf: &Vec<u8>, off: usize, end: usize) -> (r: Result<(Item, usize), DecodeError>)
    requires
        off <= end <= buf@.len(),
    ensures
        (match r {
            Ok(pair) => {
                &&& spec_decode(buf@.subrange(off as int, end as int)) == Ok::<_, DecodeError>(
                    (pair.0@, pair.1 as nat),
                )
                &&& 1 <= pair.1 <= end - off
            },
            Err(e) => spec_decode(buf@.subrange(off as int, end as int)) == Err::<
                (ItemModel, nat),
                _,
            >(e),
        }),
    decreases end - off, 0int,
{
    let ghost region = buf@.subrange(off as int, end as int);
    let n_rem = end - off;
    if n_rem == 0 {
        return Err(DecodeError::BufferUnderflow);
    }
    let b = buf[off];
    assert(region[0] == b);
    if b < 0x80 {
        let mut bytes: Vec<u8> = Vec::new();
        bytes.push(b);
        proof {
            assert(bytes@ =~= seq![b]);
        }
        Ok((Item::Str(bytes), 1))
    } else if b <= 0xb7 {
        let len = (b - 0x80) as usize;
        if n_rem < 1 + len {
            return Err(DecodeError::BufferUnderflow);
        }
        if len == 1 && buf[off + 1] < 0x80 {
            assert(region[1] == buf@[off + 1]);
            return Err(DecodeError::NonCanonicalLength);
        }
        assert(len == 1 ==> region[1] == buf@[off + 1]);
        let bytes = copy_range(buf, off + 1, off + 1 + len);
        proof {
            assert(bytes@ =~= region.subrange(1, 1 + len as int));
        }
        Ok((Item::Str(bytes), 1 + len))
    } else if b <= 0xbf {
        let ll = (b - 0xb7) as usize;
        if n_rem < 1 + ll {
            return Err(DecodeError::BufferUnderflow);
        }
        if buf[off + 1] == 0 {
            assert(region[1] == buf@[off + 1]);
            return Err(DecodeError::NonCanonicalLength);
        }
        assert(region[1] == buf@[off + 1]);
        let len64 = read_be_u64(buf, off + 1, ll);
        proof {
            assert(buf@.subrange(off as int + 1, off as int + 1 + ll as int) =~= region.subrange(
                1,
                1 + ll as int,
            ));
        }
        if len64 <= 55 {
            return Err(DecodeError::NonCanonicalLength);
        }
        if ((n_rem - 1 - ll) as u64) < len64 {
            return Err(DecodeError::BufferUnderflow);
        }
        let len = len64 as usize;
        let bytes = copy_range(buf, off + 1 + ll, off + 1 + ll + len);
        proof {
            assert(bytes@ =~= region.subrange(1 + ll as int, 1 + ll as int + len as int));
        }
        Ok((Item::Str(bytes), 1 + ll + len))
    } else if b <= 0xf7 {
        let len = (b - 0xc0) as usize;
        if n_rem < 1 + len {
            return Err(DecodeError::BufferUnderflow);
        }
        proof {
            assert(buf@.subrange(off as int + 1, off as int + 1 + len as int) =~= region.subrange(
                1,
                1 + len as int,
            ));
        }
        match decode_items(buf, off + 1, off + 1 + len) {
            Ok(children) => Ok((Item::List(children), 1 + len)),
            Err(e) => Err(e),
        }
    } else {
        let ll = (b - 0xf7) as usize;
        if n_rem < 1 + ll {
            return Err(DecodeError::BufferUnderflow);
        }
        if buf[off + 1] == 0 {
            assert(region[1] == buf@[off + 1]);
            return Err(DecodeError::NonCanonicalLength);
        }
        assert(region[1] == buf@[off + 1]);
        let len64 = read_be_u64(buf, off + 1, ll);
        proof {
            assert(buf@.subrange(off as int + 1, off as int + 1 + ll as int) =~= region.subrange(
                1,
                1 + ll as int,
            ));
        }
        if len64 <= 55 {
            return Err(DecodeError::NonCanonicalLength);
        }
        if ((n_rem - 1 - ll) as u64) < len64 {
            return Err(DecodeError::BufferUnderflow);
        }
        let len = len64 as usize;
        proof {
            assert(buf@.subrange(
                off as int + 1 + ll as int,
                off as int + 1 + ll as int + len as int,
            ) =~= region.subrange(1 + ll as int, 1 + ll as int + len as int));
        }
        match decode_items(buf, off + 1 + ll, off + 1 + ll + len) {
            Ok(children) => Ok((Item::List(children), 1 + ll + len)),
            Err(e) => Err(e),
        }
    }
}

/// Decodes `buf[off..end]` as consecutive items that consume the region
/// exactly: the children of a list payload.
pub fn decode_items(buf: &Vec<u8>, off: usize, end: usize) -> (r: Result<Vec<Item>, DecodeError>)
    requires
        off <= end <= buf@.len(),
    ensures
        (match r {
            Ok(children) => spec_decode_list(buf@.subrange(off as int, end as int)) == Ok::<
                _,
                DecodeError,
            >(items_model(children@)),
            Err(e) => spec_decode_list(buf@.subrange(off as int, end as int)) == Err::<
                Seq<ItemModel>,
                _,
            >(e),
        }),
    decreases end - off, 1int,
{
    let mut children: Vec<Item> = Vec::new();
    let mut cur = off;
    while cur < end
        invariant
            off <= cur <= end <= buf@.len(),
            (match spec_decode_list(buf@.subrange(cur as int, end as int)) {
                Ok(rest) => spec_decode_list(buf@.subrange(off as int, end as int)) == Ok::<
                    _,
                    DecodeError,
                >(items_model(children@) + rest),
                Err(e) => spec_decode_list(buf@.subrange(off as int, end as int)) == Err::<
                    Seq<ItemModel>,
                    _,
                >(e),
            }),
        decreases end - cur,
    {
        let ghost region_cur = buf@.subrange(cur as int, end as int);
        match decode_at(buf, cur, end) {
            Ok((item, n)) => {
                proof {
                    assert(region_cur.skip(n as int) =~= buf@.subrange(
                        cur as int + n as int,
                        end as int,
                    ));
                    lemma_items_model_push(children@, item);
                }
                let ghost old_children = children@;
                children.push(item);
                proof {
                    assert(items_model(children@) == items_model(old_children) + seq![
                        item_model(item),
                    ]);
                    assert forall|rest: Seq<ItemModel>|
                        spec_decode_list(buf@.subrange(cur as int + n as int, end as int))
                            == Ok::<_, DecodeError>(rest) implies items_model(children@) + rest
                        == items_model(old_children) + (seq![item_model(item)] + rest) by {
                        assert(items_model(children@) + rest =~= items_model(old_children) + (seq![
                            item_model(item),
                        ] + rest));
                    }
                }
                cur = cur + n;
            },
            Err(e) => {
                return Err(e);
            },
        }
    }
    proof {
        assert(buf@.subrange(cur as int, end as int).len() == 0);
        assert(spec_decode_list(buf@.subrange(cur as int, end as int)) == Ok::<_, DecodeError>(
            Seq::<ItemModel>::empty(),
        ));
        assert(items_model(children@) + Seq::<ItemModel>::empty() =~= items_model(children@));
    }
    Ok(children)
}

/// Decodes the top-level item that starts at `off` in `buf`, returning it
/// with the exact number of bytes consumed; the buffer is only read.
pub fn decode_item(buf: &Vec<u8>, off: usize) -> (r: Result<(Item, usize), DecodeError>)
    requires
        off <= buf@.len(),
    ensures
        (match r {
            Ok(pair) => {
                &&& spec_decode(buf@.skip(off as int)) == Ok::<_, DecodeError>(
                    (pair.0@, pair.1 as nat),
                )
                &&& 1 <= pair.1 <= buf@.len() - off
            },
            Err(e) => spec_decode(buf@.skip(off as int)) == Err::<(ItemModel, nat), _>(e),
        }),
{
    proof {
        assert(buf@.skip(off as int) =~= buf@.subrange(off as int, buf@.len() as int));
    }
    decode_at(buf, off, buf.len())
}

} // verus!
