//! Canonical little-endian encoding of unsigned values.
//!
//! The mathematical model of an encoding is [`le_bytes_of`]: byte `k` of the
//! encoding of `v` at width `w` is `(v / 256^k) % 256`, for `k < w`. The
//! executable encoder [`le_bytes_vec`] is verified against that model. The
//! lemmas below state the architecture-independence facts the normalizer's
//! callers rely on: the big-endian rendering of a value is exactly the
//! reversal of the little-endian one, an encoding at width `w` has exactly
//! `w` bytes, and widening a value that fits a narrower width appends only
//! zero bytes.

use vstd::arithmetic::power::lemma_pow0;
use vstd::arithmetic::power::lemma_pow1;
use vstd::arithmetic::power::lemma_pow_division_inequality;
use vstd::arithmetic::power::pow;
use vstd::prelude::*;

verus! {

/// The little-endian byte sequence of `v` at `width` bytes: the first byte is
/// the least significant. Only the low `width` bytes of `v` are represented.
pub open spec fn le_bytes_of(v: nat, width: nat) -> Seq<u8>
    decreases width,
{
    if width == 0 {
        Seq::empty()
    } else {
        seq![(v % 256) as u8] + le_bytes_of(v / 256, (width - 1) as nat)
    }
}

/// The big-endian byte sequence of `v` at `width` bytes: the last byte is the
/// least significant. This is how a big-endian host lays the value out
/// natively; the normalizer never forwards it.
pub open spec fn be_bytes_of(v: nat, width: nat) -> Seq<u8>
    decreases width,
{
    if width == 0 {
        Seq::empty()
    } else {
        be_bytes_of(v / 256, (width - 1) as nat) + seq![(v % 256) as u8]
    }
}

/// An encoding at width `w` has exactly `w` bytes.
pub proof fn lemma_le_bytes_len(v: nat, width: nat)
    ensures
        le_bytes_of(v, width).len() == width,
    decreases width,
{
    if width > 0 {
        lemma_le_bytes_len(v / 256, (width - 1) as nat);
    }
}

/// Determinism across architectures: the byte sequence a big-endian host
/// holds natively is exactly the reversal of the canonical little-endian
/// encoding, so either native representation determines the same canonical
/// forwarded bytes.
pub proof fn lemma_be_is_le_reversed(v: nat, width: nat)
    ensures
        be_bytes_of(v, width) == le_bytes_of(v, width).reverse(),
    decreases width,
{
    lemma_le_bytes_len(v, width);
    if width == 0 {
        assert(be_bytes_of(v, width) =~= le_bytes_of(v, width).reverse());
    } else {
        lemma_be_is_le_reversed(v / 256, (width - 1) as nat);
        lemma_le_bytes_len(v / 256, (width - 1) as nat);
        assert(be_bytes_of(v, width) =~= le_bytes_of(v, width).reverse());
    }
}

/// The encoding of zero is all zero bytes.
pub proof fn lemma_le_bytes_of_zero(width: nat)
    ensures
        le_bytes_of(0, width) =~= Seq::new(width, |k: int| 0u8),
    decreases width,
{
    if width > 0 {
        lemma_le_bytes_of_zero((width - 1) as nat);
        assert(le_bytes_of(0, width) =~= Seq::new(width, |k: int| 0u8));
    }
}

/// Width canonicalization: a value that fits in `narrow` bytes encodes at a
/// wider width as its narrow encoding followed by zero bytes alone. Widening
/// a platform-width value to the canonical 64-bit width is zero-extension.
pub proof fn lemma_le_bytes_zero_extend(v: nat, narrow: nat, wide: nat)
    requires
        v < pow(256, narrow),
        narrow <= wide,
    ensures
        le_bytes_of(v, wide) == le_bytes_of(v, narrow) + le_bytes_of(0, (wide - narrow) as nat),
    decreases narrow,
{
    if narrow == 0 {
        assert(pow(256, 0) == 1) by {
            lemma_pow0(256);
        };
        assert(v == 0);
        assert(le_bytes_of(v, wide) =~= le_bytes_of(v, 0) + le_bytes_of(0, (wide - 0) as nat));
    } else {
        assert(v / 256 < pow(256, (narrow - 1) as nat)) by {
            lemma_pow_division_inequality(v, 256, narrow, 1);
            lemma_pow1(256);
        };
        lemma_le_bytes_zero_extend(v / 256, (narrow - 1) as nat, (wide - 1) as nat);
        assert(le_bytes_of(v, wide) =~= le_bytes_of(v, narrow) + le_bytes_of(
            0,
            (wide - narrow) as nat,
        ));
    }
}

/// Signed/unsigned bit-pattern equivalence at width 1: reinterpreting an
/// `i8` as a `u8` keeps the two's-complement bit pattern, so a negative
/// value's unsigned reading is the value plus 2^8. The normalizer forwards a
/// signed value exactly as it forwards that unsigned reading.
pub proof fn lemma_signed_bit_pattern_8(i: i8)
    ensures
        (i as u8) as int == if i >= 0 {
            i as int
        } else {
            i as int + 0x100
        },
{
    assert(i >= 0 ==> (i as u8) as i16 == i as i16) by (bit_vector);
    assert(i < 0 ==> (i as u8) as i16 == i as i16 + 0x100) by (bit_vector);
}

/// Signed/unsigned bit-pattern equivalence at width 2.
pub proof fn lemma_signed_bit_pattern_16(i: i16)
    ensures
        (i as u16) as int == if i >= 0 {
            i as int
        } else {
            i as int + 0x10000
        },
{
    assert(i >= 0 ==> (i as u16) as i32 == i as i32) by (bit_vector);
    assert(i < 0 ==> (i as u16) as i32 == i as i32 + 0x10000) by (bit_vector);
}

/// Signed/unsigned bit-pattern equivalence at width 4.
pub proof fn lemma_signed_bit_pattern_32(i: i32)
    ensures
        (i as u32) as int == if i >= 0 {
            i as int
        } else {
            i as int + 0x100000000
        },
{
    assert(i >= 0 ==> (i as u32) as i64 == i as i64) by (bit_vector);
    assert(i < 0 ==> (i as u32) as i64 == i as i64 + 0x100000000) by (bit_vector);
}

/// Signed/unsigned bit-pattern equivalence at width 8.
pub proof fn lemma_signed_bit_pattern_64(i: i64)
    ensures
        (i as u64) as int == if i >= 0 {
            i as int
        } else {
            i as int + 0x10000000000000000
        },
{
    assert(i >= 0 ==> (i as u64) as i128 == i as i128) by (bit_vector);
    assert(i < 0 ==> (i as u64) as i128 == i as i128 + 0x10000000000000000) by (bit_vector);
}

/// Signed/unsigned bit-pattern equivalence at width 16.
pub proof fn lemma_signed_bit_pattern_128(i: i128)
    ensures
        (i as u128) as int == if i >= 0 {
            i as int
        } else {
            i as int + 0x100000000000000000000000000000000
        },
{
    assert(i >= 0 ==> (i as u128) == i as u128) by (bit_vector);
    assert(i < 0 ==> (i as u128) == (i + 0x100000000000000000000000000000000) as u128)
        by (bit_vector);
    if i < 0 {
        assert(0 <= i + 0x100000000000000000000000000000000
            < 0x100000000000000000000000000000000);
    }
}

/// Encodes `v` as exactly `width` little-endian bytes, least significant
/// first. Callers widen values of every fixed width to `u128`; widening
/// preserves the value, so the encoding is of the value handed in.
pub fn le_bytes_vec(v: u128, width: usize) -> (out: Vec<u8>)
    ensures
        out@ == le_bytes_of(v as nat, width as nat),
        out@.len() == width,
{
    proof {
        lemma_le_bytes_len(v as nat, width as nat);
    }
    let mut out: Vec<u8> = Vec::new();
    let mut cur: u128 = v;
    let mut k: usize = 0;
    while k < width
        invariant
            k <= width,
            out@.len() == k,
            out@ + le_bytes_of(cur as nat, (width - k) as nat) == le_bytes_of(
                v as nat,
                width as nat,
            ),
        decreases width - k,
    {
        let ghost prev = cur as nat;
        let ghost rem = (width - k) as nat;
        let b: u8 = (cur % 256) as u8;
        out.push(b);
        cur = cur / 256;
        k = k + 1;
        proof {
            assert(le_bytes_of(prev, rem) == seq![(prev % 256) as u8] + le_bytes_of(
                prev / 256,
                (rem - 1) as nat,
            ));
            assert(out@ + le_bytes_of(cur as nat, (width - k) as nat) =~= le_bytes_of(
                v as nat,
                width as nat,
            ));
        }
    }
    proof {
        assert(out@ =~= le_bytes_of(v as nat, width as nat));
    }
    out
}

} // verus!
