//! Little-endian encoding of the primitive scalar values (booleans and
//! unsigned integers up to 64 bits) that get specialized per-CPU accessors.
//!
//! A primitive variable's storage is its little-endian byte image inside
//! the owning area; the accessor layer reads and writes through these
//! encoders. The round-trip lemma here is what makes a read after a write
//! return the written value.

use vstd::prelude::*;

verus! {

use vstd::arithmetic::div_mod::lemma_fundamental_div_mod;
use vstd::arithmetic::div_mod::lemma_mod_division_less_than_divisor;
use vstd::arithmetic::power2::lemma_pow2_adds;
use vstd::arithmetic::power2::lemma_pow2_pos;
use vstd::arithmetic::power2::lemma2_to64;
use vstd::arithmetic::power2::pow2;

/// The unsigned value that the byte string `s` holds in little-endian
/// order: the first byte is the least significant.
pub open spec fn spec_le_uint(s: Seq<u8>) -> nat
    decreases s.len(),
{
    if s.len() == 0 {
        0
    } else {
        s[0] as nat + 256 * spec_le_uint(s.drop_first())
    }
}

/// The `n`-byte little-endian image of `x` (of `x`'s low `n` bytes, where
/// `x` does not fit).
pub open spec fn spec_le_bytes(x: nat, n: nat) -> Seq<u8>
    decreases n,
{
    if n == 0 {
        Seq::empty()
    } else {
        seq![(x % 256) as u8] + spec_le_bytes(x / 256, (n - 1) as nat)
    }
}

/// The encoding is exactly `n` bytes long.
pub proof fn lemma_le_bytes_len(x: nat, n: nat)
    ensures
        spec_le_bytes(x, n).len() == n,
    decreases n,
{
    if n > 0 {
        lemma_le_bytes_len(x / 256, (n - 1) as nat);
    }
}

/// A byte string of length `n` holds a value below `2^(8n)`.
pub proof fn lemma_le_uint_bound(s: Seq<u8>)
    ensures
        spec_le_uint(s) < pow2(8 * s.len()),
    decreases s.len(),
{
    if s.len() == 0 {
        lemma2_to64();
    } else {
        lemma_le_uint_bound(s.drop_first());
        lemma_pow2_adds(8, 8 * (s.len() - 1) as nat);
        lemma2_to64();
        assert(pow2(8) == 256);
        lemma_pow2_pos(8 * (s.len() - 1) as nat);
    }
}

/// Round trip: decoding the `n`-byte little-endian image of a value that
/// fits in `n` bytes gives the value back. A write of a primitive value
/// followed by a read of the same slot therefore returns the written value.
pub proof fn lemma_le_round_trip(x: nat, n: nat)
    requires
        x < pow2(8 * n),
    ensures
        spec_le_uint(spec_le_bytes(x, n)) == x,
    decreases n,
{
    if n == 0 {
        lemma2_to64();
    } else {
        lemma_fundamental_div_mod(x as int, 256);
        lemma_pow2_adds(8, 8 * (n - 1) as nat);
        lemma2_to64();
        assert(pow2(8) == 256);
        lemma_pow2_pos(8 * (n - 1) as nat);
        assert(x / 256 < pow2(8 * (n - 1) as nat)) by {
            lemma_mod_division_less_than_divisor(x as int, 256);
            if x / 256 >= pow2(8 * (n - 1) as nat) {
                vstd::arithmetic::mul::lemma_mul_inequality(
                    pow2(8 * (n - 1) as nat) as int,
                    x as int / 256,
                    256,
                );
            }
        }
        lemma_le_round_trip(x / 256, (n - 1) as nat);
        let tail = spec_le_bytes(x / 256, (n - 1) as nat);
        assert(spec_le_bytes(x, n).drop_first() =~= tail);
    }
}

/// Decodes a little-endian byte string of at most 8 bytes.
pub fn le_decode(bytes: &Vec<u8>) -> (r: u64)
    requires
        bytes@.len() <= 8,
    ensures
        r as nat == spec_le_uint(bytes@),
{
    let n = bytes.len();
    let mut r: u64 = 0;
    let mut k: usize = n;
    while k > 0
        invariant
            k <= n,
            n == bytes@.len() <= 8,
            r as nat == spec_le_uint(bytes@.subrange(k as int, n as int)),
        decreases k,
    {
        k = k - 1;
        proof {
            let piece = bytes@.subrange(k as int, n as int);
            assert(piece.drop_first() =~= bytes@.subrange(k + 1, n as int));
            lemma_le_uint_bound(piece.drop_first());
            lemma_pow2_adds(8, 8 * (n - k - 1) as nat);
            lemma2_to64();
            assert(pow2(8) == 256);
            if 8 * (n - k) < 64 {
                vstd::arithmetic::power2::lemma_pow2_strictly_increases(8 * (n - k) as nat, 64);
            }
        }
        r = r * 256 + bytes[k] as u64;
    }
    proof {
        assert(bytes@.subrange(0, n as int) =~= bytes@);
    }
    r
}

/// Encodes the low `n` bytes of `val` in little-endian order.
pub fn le_encode(val: u64, n: usize) -> (r: Vec<u8>)
    requires
        n <= 8,
    ensures
        r@ == spec_le_bytes(val as nat, n as nat),
        r@.len() == n,
{
    let mut r: Vec<u8> = Vec::new();
    let mut cur: u64 = val;
    let mut k: usize = 0;
    while k < n
        invariant
            k <= n,
            r@.len() == k,
            spec_le_bytes(val as nat, n as nat) == r@ + spec_le_bytes(cur as nat, (n - k) as nat),
        decreases n - k,
    {
        let b: u8 = (cur % 256) as u8;
        proof {
            let rest = spec_le_bytes(cur as nat, (n - k) as nat);
            assert(rest == seq![b] + spec_le_bytes(cur as nat / 256, (n - k - 1) as nat));
            assert(r@ + rest =~= r@.push(b) + spec_le_bytes(cur as nat / 256, (n - k - 1) as nat));
        }
        r.push(b);
        cur = cur / 256;
        k = k + 1;
    }
    proof {
        lemma_le_bytes_len(val as nat, n as nat);
        assert(r@ + spec_le_bytes(cur as nat, 0) =~= r@);
    }
    r
}

} // verus!
