//! The canonical encoder, and the round-trip laws that tie it to the
//! decoder.
//!
//! [`spec_encode`] produces the unique minimal encoding of an item; the laws
//! state that decoding an encoding — standing alone or as the prefix of a
//! longer buffer — yields the item back and consumes exactly its bytes. The
//! executable [`encode_item`] produces those bytes for tests and callers
//! that write the format.

use vstd::prelude::*;

use crate::err::DecodeError;
use crate::item::{Item, ItemModel, item_model, items_model, lemma_items_model_index};
use crate::num::{min_be, pow256, lemma_be_val_min_be, lemma_min_be_canonical,
    lemma_pow256_values};
use crate::decode::{spec_decode, spec_decode_list};

verus! {

broadcast use vstd::std_specs::vec::group_vec_axioms, vstd::seq::axiom_seq_index_decreases, vstd::seq::axiom_seq_subrange_decreases;

/// The prefix of a string item whose payload has `len` bytes. One-byte
/// strings below `0x80` carry no prefix and are not routed here.
pub open spec fn str_prefix(len: nat) -> Seq<u8> {
    if len <= 55 {
        seq![(0x80 + len) as u8]
    } else {
        seq![(0xb7 + min_be(len).len()) as u8] + min_be(len)
    }
}

/// The prefix of a list item whose payload has `len` bytes.
pub open spec fn list_prefix(len: nat) -> Seq<u8> {
    if len <= 55 {
        seq![(0xc0 + len) as u8]
    } else {
        seq![(0xf7 + min_be(len).len()) as u8] + min_be(len)
    }
}

/// The unique canonical encoding of an item.
pub open spec fn spec_encode(i: ItemModel) -> Seq<u8>
    decreases i,
{
    match i {
        ItemModel::Str(s) => if s.len() == 1 && s[0] < 0x80 {
            s
        } else {
            str_prefix(s.len()) + s
        },
        ItemModel::List(items) => list_prefix(spec_encode_items(items).len()) + spec_encode_items(
            items,
        ),
    }
}

/// The concatenated encodings of consecutive items: a list payload.
pub open spec fn spec_encode_items(items: Seq<ItemModel>) -> Seq<u8>
    decreases items,
{
    if items.len() == 0 {
        Seq::empty()
    } else {
        spec_encode(items[0]) + spec_encode_items(items.skip(1))
    }
}

/// An item every one of whose payloads is short enough for a length prefix:
/// below `256^8` bytes.
pub open spec fn encodable(i: ItemModel) -> bool
    decreases i,
{
    match i {
        ItemModel::Str(s) => s.len() < pow256(8),
        ItemModel::List(items) => spec_encode_items(items).len() < pow256(8) && encodable_items(
            items,
        ),
    }
}

/// Every item of the sequence is encodable.
pub open spec fn encodable_items(items: Seq<ItemModel>) -> bool
    decreases items,
{
    if items.len() == 0 {
        true
    } else {
        encodable(items[0]) && encodable_items(items.skip(1))
    }
}

/// A value below `256^k` encodes into at most `k` bytes.
pub proof fn lemma_min_be_len(n: nat, k: nat)
    requires
        n < pow256(k),
    ensures
        min_be(n).len() <= k,
    decreases k,
{
    if n > 0 {
        assert(k > 0);
        assert(pow256(k) == 256 * pow256((k - 1) as nat));
        assert(n / 256 < pow256((k - 1) as nat)) by (nonlinear_arith)
            requires
                n < 256 * pow256((k - 1) as nat),
        ;
        lemma_min_be_len(n / 256, (k - 1) as nat);
    }
}

/// An encoding is never empty.
pub proof fn lemma_encode_len_ge_1(i: ItemModel)
    ensures
        spec_encode(i).len() >= 1,
{
}

/// Concatenating item sequences concatenates their encodings.
pub proof fn lemma_encode_items_concat(a: Seq<ItemModel>, b: Seq<ItemModel>)
    ensures
        spec_encode_items(a + b) == spec_encode_items(a) + spec_encode_items(b),
    decreases a.len(),
{
    if a.len() == 0 {
        assert(a + b =~= b);
        assert(spec_encode_items(a) + spec_encode_items(b) =~= spec_encode_items(b));
    } else {
        assert((a + b)[0] == a[0]);
        assert((a + b).skip(1) =~= a.skip(1) + b);
        lemma_encode_items_concat(a.skip(1), b);
        assert((a + b).len() != 0);
        assert(spec_encode_items(a + b) =~= spec_encode_items(a) + spec_encode_items(b));
    }
}

/// Decoding an item's canonical encoding, with anything after it, yields the
/// item back and consumes exactly the encoding.
pub proof fn lemma_decode_encode(i: ItemModel, rest: Seq<u8>)
    requires
        encodable(i),
    ensures
        spec_decode(spec_encode(i) + rest) == Ok::<_, DecodeError>((i, spec_encode(i).len())),
    decreases spec_encode(i).len(), 0int,
{
    lemma_pow256_values();
    let enc = spec_encode(i);
    let s = enc + rest;
    match i {
        ItemModel::Str(bytes) => {
            if bytes.len() == 1 && bytes[0] < 0x80 {
                assert(s[0] == bytes[0]);
                assert(seq![s[0]] =~= bytes);
            } else if bytes.len() <= 55 {
                assert(s[0] == 0x80 + bytes.len());
                assert(s.subrange(1, 1 + bytes.len() as int) =~= bytes);
                if bytes.len() == 1 {
                    assert(s[1] == bytes[0]);
                    assert(s[1] >= 0x80);
                }
            } else {
                let lb = min_be(bytes.len());
                let k = lb.len();
                lemma_min_be_len(bytes.len(), 8);
                lemma_min_be_canonical(bytes.len());
                lemma_be_val_min_be(bytes.len());
                assert(1 <= k <= 8);
                assert(s[0] == 0xb7 + k);
                assert(s.subrange(1, 1 + k as int) =~= lb);
                assert(s[1] == lb[0]);
                assert(s.subrange(1 + k as int, 1 + k as int + bytes.len() as int) =~= bytes);
            }
        },
        ItemModel::List(items) => {
            let payload = spec_encode_items(items);
            let plen = payload.len();
            lemma_decode_list_encode(items);
            if plen <= 55 {
                assert(s[0] == 0xc0 + plen);
                assert(s.subrange(1, 1 + plen as int) =~= payload);
            } else {
                let lb = min_be(plen);
                let k = lb.len();
                lemma_min_be_len(plen, 8);
                lemma_min_be_canonical(plen);
                lemma_be_val_min_be(plen);
                assert(1 <= k <= 8);
                assert(s[0] == 0xf7 + k);
                assert(s.subrange(1, 1 + k as int) =~= lb);
                assert(s[1] == lb[0]);
                assert(s.subrange(1 + k as int, 1 + k as int + plen as int) =~= payload);
            }
        },
    }
}

/// Decoding the concatenated encodings of items as a list payload yields the
/// items back, consuming the payload exactly.
pub proof fn lemma_decode_list_encode(items: Seq<ItemModel>)
    requires
        encodable_items(items),
    ensures
        spec_decode_list(spec_encode_items(items)) == Ok::<_, DecodeError>(items),
    decreases spec_encode_items(items).len(), 1int,
{
    if items.len() == 0 {
        assert(spec_encode_items(items).len() == 0);
        assert(items =~= Seq::<ItemModel>::empty());
    } else {
        let enc0 = spec_encode(items[0]);
        let tail = spec_encode_items(items.skip(1));
        let s = spec_encode_items(items);
        assert(s == enc0 + tail);
        lemma_encode_len_ge_1(items[0]);
        lemma_decode_encode(items[0], tail);
        assert(s.skip(enc0.len() as int) =~= tail);
        lemma_decode_list_encode(items.skip(1));
        assert(seq![items[0]] + items.skip(1) =~= items);
    }
}

/// For any nonnegative integer representable in a field's width,
/// canonical-encode-then-decode yields exactly the integer: the string item
/// round-trips through the primitive decoder, whatever follows it, and the
/// integer field rule accepts it with exactly its value.
pub proof fn lemma_uint_round_trip(n: nat, max_bytes: usize, f: crate::err::FieldId, rest: Seq<u8>)
    requires
        n < pow256(max_bytes as nat),
    ensures
        spec_decode(spec_encode(ItemModel::Str(min_be(n))) + rest) == Ok::<_, DecodeError>(
            (ItemModel::Str(min_be(n)), spec_encode(ItemModel::Str(min_be(n))).len()),
        ),
        crate::schema::spec_uint(ItemModel::Str(min_be(n)), max_bytes, f) == Ok::<
            nat,
            DecodeError,
        >(n),
{
    lemma_pow256_values();
    lemma_min_be_len(n, max_bytes as nat);
    lemma_min_be_canonical(n);
    lemma_be_val_min_be(n);
    assert(min_be(n).len() <= max_bytes <= usize::MAX < pow256(8));
    lemma_decode_encode(ItemModel::Str(min_be(n)), rest);
}

/// Emits the canonical big-endian bytes of a value: no leading zero, empty
/// for zero.
pub fn min_be_bytes(n: u64) -> (r: Vec<u8>)
    ensures
        r@ == min_be(n as nat),
{
    let mut rev: Vec<u8> = Vec::new();
    let mut m = n;
    while m > 0
        invariant
            min_be(n as nat) == min_be(m as nat) + rev@.reverse(),
        decreases m,
    {
        let b = (m % 256) as u8;
        let ghost rev_old = rev@;
        rev.push(b);
        proof {
            assert(min_be(m as nat) == min_be(m as nat / 256).push(b));
            assert(rev@.reverse() =~= seq![b] + rev_old.reverse());
            assert(min_be(m as nat / 256) + rev@.reverse() =~= min_be(m as nat)
                + rev_old.reverse());
            assert(m as nat / 256 == (m / 256) as nat);
        }
        m = m / 256;
    }
    proof {
        assert(min_be(0nat) + rev@.reverse() =~= rev@.reverse());
    }
    let mut out: Vec<u8> = Vec::new();
    let mut i = rev.len();
    proof {
        assert(rev@.skip(i as int) =~= Seq::<u8>::empty());
        assert(out@ =~= rev@.skip(i as int).reverse());
    }
    while i > 0
        invariant
            i <= rev@.len(),
            out@ == rev@.skip(i as int).reverse(),
        decreases i,
    {
        i = i - 1;
        out.push(rev[i]);
        proof {
            assert(out@ =~= rev@.skip(i as int).reverse());
        }
    }
    proof {
        assert(rev@.skip(0) =~= rev@);
    }
    out
}

/// Appends the canonical prefix of a string payload of `len` bytes; the
/// single-byte form carries none.
fn push_str_prefix(out: &mut Vec<u8>, len: usize)
    ensures
        final(out)@ == old(out)@ + str_prefix(len as nat),
{
    proof {
        lemma_pow256_values();
        lemma_min_be_len(len as nat, 8);
        lemma_min_be_canonical(len as nat);
    }
    if len <= 55 {
        out.push(0x80 + len as u8);
        proof {
            assert(final(out)@ =~= old(out)@ + str_prefix(len as nat));
        }
    } else {
        let mut lb = min_be_bytes(len as u64);
        out.push(0xb7 + lb.len() as u8);
        out.append(&mut lb);
        proof {
            assert(final(out)@ =~= old(out)@ + str_prefix(len as nat));
        }
    }
}

/// Appends the canonical prefix of a list payload of `len` bytes.
fn push_list_prefix(out: &mut Vec<u8>, len: usize)
    ensures
        final(out)@ == old(out)@ + list_prefix(len as nat),
{
    proof {
        lemma_pow256_values();
        lemma_min_be_len(len as nat, 8);
        lemma_min_be_canonical(len as nat);
    }
    if len <= 55 {
        out.push(0xc0 + len as u8);
        proof {
            assert(final(out)@ =~= old(out)@ + list_prefix(len as nat));
        }
    } else {
        let mut lb = min_be_bytes(len as u64);
        out.push(0xf7 + lb.len() as u8);
        out.append(&mut lb);
        proof {
            assert(final(out)@ =~= old(out)@ + list_prefix(len as nat));
        }
    }
}

/// Emits the canonical encoding of an item.
#[verifier::loop_isolation(false)]
pub fn encode_item(it: &Item) -> (r: Vec<u8>)
    ensures
        r@ == spec_encode(it@),
    decreases *it,
{
    match it {
        Item::Str(bytes) => {
            if bytes.len() == 1 && bytes[0] < 0x80 {
                let r = crate::decode::copy_range(bytes, 0, 1);
                proof {
                    assert(r@ =~= bytes@);
                }
                r
            } else {
                let mut out: Vec<u8> = Vec::new();
                push_str_prefix(&mut out, bytes.len());
                let mut payload = crate::decode::copy_range(bytes, 0, bytes.len());
                proof {
                    assert(payload@ =~= bytes@);
                }
                out.append(&mut payload);
                proof {
                    assert(out@ =~= str_prefix(bytes@.len()) + bytes@);
                }
                out
            }
        },
        Item::List(children) => {
            let ghost cis = items_model(children@);
            proof {
                lemma_items_model_index(children@);
            }
            let n = children.len();
            let mut payload: Vec<u8> = Vec::new();
            let mut k: usize = 0;
            proof {
                assert(cis.take(0) =~= Seq::<ItemModel>::empty());
                assert(payload@ =~= spec_encode_items(cis.take(0)));
            }
            while k < n
                invariant
                    *it == Item::List(*children),
                    k <= n == children@.len(),
                    cis == items_model(children@),
                    cis.len() == n,
                    forall|j: int| 0 <= j < cis.len() ==> cis[j] == item_model(children@[j]),
                    payload@ == spec_encode_items(cis.take(k as int)),
                decreases n - k,
            {
                proof {
                    assert(decreases_to!(*children => children@[k as int]));
                }
                let mut enc = encode_item(&children[k]);
                let ghost payload_old = payload@;
                payload.append(&mut enc);
                proof {
                    let ghost single = seq![cis[k as int]];
                    assert(cis.take(k as int + 1) =~= cis.take(k as int) + single);
                    lemma_encode_items_concat(cis.take(k as int), single);
                    assert(single[0] == cis[k as int]);
                    assert(single.skip(1) =~= Seq::<ItemModel>::empty());
                    assert(spec_encode_items(Seq::<ItemModel>::empty()) =~= Seq::<u8>::empty());
                    assert(spec_encode_items(single) =~= spec_encode(cis[k as int]));
                    assert(payload@ =~= spec_encode_items(cis.take(k as int + 1)));
                }
                k = k + 1;
            }
            proof {
                assert(cis.take(n as int) =~= cis);
            }
            let mut out: Vec<u8> = Vec::new();
            push_list_prefix(&mut out, payload.len());
            out.append(&mut payload);
            proof {
                assert(out@ =~= list_prefix(spec_encode_items(cis).len()) + spec_encode_items(
                    cis,
                ));
            }
            out
        },
    }
}

} // verus!
