//! Big-endian unsigned integers in canonical minimal form.
//!
//! Integers on the wire are byte strings: big-endian, with no superfluous
//! leading zero byte, and the empty string denoting zero. [`be_val`] gives a
//! string's numeric value, [`min_be`] the unique canonical string of a value.

use vstd::prelude::*;

verus! {

/// The numeric value of a big-endian byte string.
pub open spec fn be_val(s: Seq<u8>) -> nat
    decreases s.len(),
{
    if s.len() == 0 {
        0
    } else {
        be_val(s.drop_last()) * 256 + s.last() as nat
    }
}

/// `256^k`, the number of byte strings of length `k`.
pub open spec fn pow256(k: nat) -> nat
    decreases k,
{
    if k == 0 {
        1
    } else {
        256 * pow256((k - 1) as nat)
    }
}

/// The canonical minimal big-endian encoding of `n`: no leading zero byte,
/// and the empty string for zero.
pub open spec fn min_be(n: nat) -> Seq<u8>
    decreases n,
{
    if n == 0 {
        Seq::empty()
    } else {
        min_be(n / 256).push((n % 256) as u8)
    }
}

/// A byte string is canonical when a nonzero value has no leading zero byte.
pub open spec fn is_canonical_be(s: Seq<u8>) -> bool {
    s.len() > 0 ==> s[0] != 0
}

/// The value of a big-endian string is bounded by the count of strings of
/// its length.
pub proof fn lemma_be_val_bound(s: Seq<u8>)
    ensures
        be_val(s) < pow256(s.len()),
    decreases s.len(),
{
    if s.len() > 0 {
        lemma_be_val_bound(s.drop_last());
    }
}

/// Appending one byte multiplies the leading value by 256 and adds the byte.
pub proof fn lemma_be_val_push(s: Seq<u8>, b: u8)
    ensures
        be_val(s.push(b)) == be_val(s) * 256 + b,
{
    assert(s.push(b).drop_last() =~= s);
}

/// Decoding the canonical encoding of `n` yields exactly `n`.
pub proof fn lemma_be_val_min_be(n: nat)
    ensures
        be_val(min_be(n)) == n,
    decreases n,
{
    if n != 0 {
        lemma_be_val_min_be(n / 256);
        lemma_be_val_push(min_be(n / 256), (n % 256) as u8);
    }
}

/// The canonical encoding has no leading zero byte.
pub proof fn lemma_min_be_canonical(n: nat)
    ensures
        is_canonical_be(min_be(n)),
        n > 0 ==> min_be(n).len() > 0,
        n == 0 ==> min_be(n).len() == 0,
    decreases n,
{
    if n != 0 {
        lemma_min_be_canonical(n / 256);
        if n / 256 == 0 {
            assert(min_be(n) =~= Seq::empty().push((n % 256) as u8));
        }
    }
}

/// The byte-string counts that bound 32-, 64- and 128-bit values.
pub proof fn lemma_pow256_values()
    ensures
        pow256(4) == 0x1_0000_0000,
        pow256(8) == 0x1_0000_0000_0000_0000,
        pow256(16) == 0x1_0000_0000_0000_0000_0000_0000_0000_0000,
{
    reveal_with_fuel(pow256, 17);
}

/// `pow256` is monotone in its exponent.
pub proof fn lemma_pow256_monotone(a: nat, b: nat)
    requires
        a <= b,
    ensures
        pow256(a) <= pow256(b),
    decreases b,
{
    if a < b {
        lemma_pow256_monotone(a, (b - 1) as nat);
        assert(pow256(b) == 256 * pow256((b - 1) as nat));
    }
}

} // verus!
