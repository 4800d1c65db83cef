//! Fixed-width integer encodings used by the tag layout and by storage keys.
//!
//! Counters and telemetry on the tag are big-endian; signer ids on the tag and
//! every storage key are little-endian.

use vstd::prelude::*;

verus! {

/// 256 to the power `n`.
pub open spec fn pow256(n: nat) -> nat
    decreases n,
{
    if n == 0 {
        1
    } else {
        256 * pow256((n - 1) as nat)
    }
}

/// The `len` low-order base-256 digits of `v`, most significant first.
pub open spec fn be_bytes(v: nat, len: nat) -> Seq<u8>
    decreases len,
{
    if len == 0 {
        Seq::empty()
    } else {
        be_bytes(v / 256, (len - 1) as nat).push((v % 256) as u8)
    }
}

/// The `len` low-order base-256 digits of `v`, least significant first.
pub open spec fn le_bytes(v: nat, len: nat) -> Seq<u8>
    decreases len,
{
    if len == 0 {
        Seq::empty()
    } else {
        seq![(v % 256) as u8] + le_bytes(v / 256, (len - 1) as nat)
    }
}

/// The number whose base-256 digits, most significant first, are `s`.
pub open spec fn be_value(s: Seq<u8>) -> nat
    decreases s.len(),
{
    if s.len() == 0 {
        0
    } else {
        be_value(s.drop_last()) * 256 + s.last() as nat
    }
}

/// The number whose base-256 digits, least significant first, are `s`.
pub open spec fn le_value(s: Seq<u8>) -> nat
    decreases s.len(),
{
    if s.len() == 0 {
        0
    } else {
        le_value(s.drop_first()) * 256 + s.first() as nat
    }
}

pub proof fn lemma_be_bytes_len(v: nat, len: nat)
    ensures
        be_bytes(v, len).len() == len,
    decreases len,
{
    if len > 0 {
        lemma_be_bytes_len(v / 256, (len - 1) as nat);
    }
}

pub proof fn lemma_le_bytes_len(v: nat, len: nat)
    ensures
        le_bytes(v, len).len() == len,
    decreases len,
{
    if len > 0 {
        lemma_le_bytes_len(v / 256, (len - 1) as nat);
    }
}

pub proof fn lemma_be_value_bound(s: Seq<u8>)
    ensures
        be_value(s) < pow256(s.len()),
    decreases s.len(),
{
    if s.len() > 0 {
        lemma_be_value_bound(s.drop_last());
        let hi = be_value(s.drop_last());
        let p = pow256((s.len() - 1) as nat);
        assert(hi * 256 + 255 < 256 * p) by (nonlinear_arith)
            requires
                hi < p,
        ;
    }
}

pub proof fn lemma_le_value_bound(s: Seq<u8>)
    ensures
        le_value(s) < pow256(s.len()),
    decreases s.len(),
{
    if s.len() > 0 {
        lemma_le_value_bound(s.drop_first());
        let hi = le_value(s.drop_first());
        let p = pow256((s.len() - 1) as nat);
        assert(hi * 256 + 255 < 256 * p) by (nonlinear_arith)
            requires
                hi < p,
        ;
    }
}

/// Reading back what was written gives the number again, as long as it fits.
pub proof fn lemma_be_value_of_bytes(v: nat, len: nat)
    requires
        v < pow256(len),
    ensures
        be_value(be_bytes(v, len)) == v,
    decreases len,
{
    if len > 0 {
        let p = pow256((len - 1) as nat);
        assert(v / 256 < p) by (nonlinear_arith)
            requires
                v < 256 * p,
        ;
        lemma_be_value_of_bytes(v / 256, (len - 1) as nat);
        let s = be_bytes(v, len);
        assert(s.drop_last() =~= be_bytes(v / 256, (len - 1) as nat));
        assert((v / 256) * 256 + v % 256 == v) by (nonlinear_arith);
    }
}

/// Writing what was read gives the same digits again.
pub proof fn lemma_be_bytes_of_value(s: Seq<u8>)
    ensures
        be_bytes(be_value(s), s.len()) == s,
    decreases s.len(),
{
    if s.len() > 0 {
        lemma_be_bytes_of_value(s.drop_last());
        let hi = be_value(s.drop_last());
        let lo = s.last() as nat;
        assert((hi * 256 + lo) / 256 == hi && (hi * 256 + lo) % 256 == lo) by (nonlinear_arith)
            requires
                lo < 256,
        ;
        assert(be_bytes(be_value(s), s.len()) =~= s);
    }
}

/// Reading back what was written gives the number again, as long as it fits.
pub proof fn lemma_le_value_of_bytes(v: nat, len: nat)
    requires
        v < pow256(len),
    ensures
        le_value(le_bytes(v, len)) == v,
    decreases len,
{
    if len > 0 {
        let p = pow256((len - 1) as nat);
        assert(v / 256 < p) by (nonlinear_arith)
            requires
                v < 256 * p,
        ;
        lemma_le_value_of_bytes(v / 256, (len - 1) as nat);
        let s = le_bytes(v, len);
        assert(s.drop_first() =~= le_bytes(v / 256, (len - 1) as nat));
        assert((v / 256) * 256 + v % 256 == v) by (nonlinear_arith);
    }
}

/// Writing what was read gives the same digits again.
pub proof fn lemma_le_bytes_of_value(s: Seq<u8>)
    ensures
        le_bytes(le_value(s), s.len()) == s,
    decreases s.len(),
{
    if s.len() > 0 {
        lemma_le_bytes_of_value(s.drop_first());
        let hi = le_value(s.drop_first());
        let lo = s.first() as nat;
        assert((hi * 256 + lo) / 256 == hi && (hi * 256 + lo) % 256 == lo) by (nonlinear_arith)
            requires
                lo < 256,
        ;
        assert(le_bytes(le_value(s), s.len()) =~= s);
    }
}

/// `pow256` at the widths the encodings use.
pub proof fn lemma_pow256_widths()
    ensures
        pow256(2) == 0x1_0000,
        pow256(4) == 0x1_0000_0000,
        pow256(15) == 0x100_0000_0000_0000_0000_0000_0000_0000,
        pow256(16) == 0x1_0000_0000_0000_0000_0000_0000_0000_0000,
{
    reveal_with_fuel(pow256, 17);
}

/// Writes the `len` low-order bytes of `v`, most significant first.
pub fn be_encode(v: u128, len: usize) -> (out: Vec<u8>)
    ensures
        out@ == be_bytes(v as nat, len as nat),
{
    let mut out: Vec<u8> = Vec::new();
    let mut rest: u128 = v;
    let mut i: usize = 0;
    while i < len
        invariant
            i <= len,
            be_bytes(v as nat, len as nat) == be_bytes(rest as nat, (len - i) as nat) + out@,
        decreases len - i,
    {
        let low: u8 = (rest % 256) as u8;
        proof {
            let k = (len - i) as nat;
            assert(be_bytes(rest as nat, k) + out@ =~= be_bytes(rest as nat / 256, (k - 1) as nat)
                + out@.insert(0, low));
        }
        out.insert(0, low);
        rest = rest / 256;
        i = i + 1;
    }
    assert(be_bytes(rest as nat, 0) + out@ =~= out@);
    out
}

/// Writes the `len` low-order bytes of `v`, least significant first.
pub fn le_encode(v: u128, len: usize) -> (out: Vec<u8>)
    ensures
        out@ == le_bytes(v as nat, len as nat),
{
    let mut out: Vec<u8> = Vec::new();
    let mut rest: u128 = v;
    let mut i: usize = 0;
    while i < len
        invariant
            i <= len,
            le_bytes(v as nat, len as nat) == out@ + le_bytes(rest as nat, (len - i) as nat),
        decreases len - i,
    {
        let low: u8 = (rest % 256) as u8;
        proof {
            let k = (len - i) as nat;
            assert(out@ + le_bytes(rest as nat, k) =~= out@.push(low) + le_bytes(
                rest as nat / 256,
                (k - 1) as nat,
            ));
        }
        out.push(low);
        rest = rest / 256;
        i = i + 1;
    }
    assert(out@ + le_bytes(rest as nat, 0) =~= out@);
    out
}

/// Appends `part` to `buffer`.
pub fn append_bytes(buffer: &mut Vec<u8>, part: &[u8])
    ensures
        final(buffer)@ == old(buffer)@ + part@,
{
    let ghost before = buffer@;
    let mut i: usize = 0;
    while i < part.len()
        invariant
            i <= part@.len(),
            buffer@ == before + part@.take(i as int),
        decreases part@.len() - i,
    {
        proof {
            assert(part@.take(i + 1) =~= part@.take(i as int).push(part@[i as int]));
            assert((before + part@.take(i as int)).push(part@[i as int]) =~= before + part@.take(
                i + 1,
            ));
        }
        buffer.push(part[i]);
        i = i + 1;
    }
    assert(part@.take(part@.len() as int) =~= part@);
}

/// Reads `len` bytes at `start` as one number, most significant byte first.
pub fn be_decode(bytes: &[u8], start: usize, len: usize) -> (out: u128)
    requires
        len <= 16,
        start + len <= bytes@.len(),
    ensures
        out as nat == be_value(bytes@.subrange(start as int, start + len)),
{
    let mut acc: u128 = 0;
    let mut i: usize = 0;
    while i < len
        invariant
            i <= len <= 16,
            start + len <= bytes.len(),
            acc as nat == be_value(bytes@.subrange(start as int, start + i)),
        decreases len - i,
    {
        let b: u8 = bytes[start + i];
        proof {
            let before = bytes@.subrange(start as int, start + i);
            let after = bytes@.subrange(start as int, start + i + 1);
            assert(after.drop_last() =~= before);
            assert(after.last() == b);
            lemma_be_value_bound(before);
            lemma_pow256_monotone(i as nat, 15);
            lemma_pow256_widths();
        }
        acc = acc * 256 + b as u128;
        i = i + 1;
    }
    acc
}

/// Reads `len` bytes at `start` as one number, least significant byte first.
pub fn le_decode(bytes: &[u8], start: usize, len: usize) -> (out: u128)
    requires
        len <= 16,
        start + len <= bytes@.len(),
    ensures
        out as nat == le_value(bytes@.subrange(start as int, start + len)),
{
    let mut acc: u128 = 0;
    let mut i: usize = len;
    while i > 0
        invariant
            i <= len <= 16,
            start + len <= bytes.len(),
            acc as nat == le_value(bytes@.subrange(start + i, start + len)),
        decreases i,
    {
        let b: u8 = bytes[start + i - 1];
        proof {
            let before = bytes@.subrange(start + i, start + len);
            let after = bytes@.subrange(start + i - 1, start + len);
            assert(after.drop_first() =~= before);
            assert(after.first() == b);
            lemma_le_value_bound(before);
            lemma_pow256_monotone((len - i) as nat, 15);
            lemma_pow256_widths();
        }
        acc = acc * 256 + b as u128;
        i = i - 1;
    }
    acc
}

pub proof fn lemma_pow256_monotone(a: nat, b: nat)
    requires
        a <= b,
    ensures
        pow256(a) <= pow256(b),
    decreases b,
{
    if a < b {
        lemma_pow256_monotone(a, (b - 1) as nat);
    }
}

} // verus!
