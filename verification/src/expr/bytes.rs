//! Integers as strings of bytes: packing bytes into an integer, most
//! significant first, and taking an integer apart into the bytes it occupies.
use vstd::prelude::*;

verus! {

/// The bytes that `n` occupies, least significant first: none for zero, and
/// otherwise up to the last non-zero byte.
pub open spec fn bytes_of(n: nat) -> Seq<u8>
    decreases n,
{
    if n == 0 {
        Seq::empty()
    } else {
        seq![(n % 256) as u8] + bytes_of(n / 256)
    }
}

/// The number whose base-256 digits are `bytes`, most significant first.
pub open spec fn pack(bytes: Seq<u8>) -> nat
    decreases bytes.len(),
{
    if bytes.len() == 0 {
        0
    } else {
        pack(bytes.drop_last()) * 256 + bytes.last() as nat
    }
}

/// The number of values of the calculator's integer type.
pub open spec fn modulus() -> nat {
    0x1_0000_0000_0000_0000_0000_0000_0000_0000nat
}

/// 256 to the power `k`.
pub open spec fn span(k: nat) -> nat
    decreases k,
{
    if k == 0 {
        1
    } else {
        256 * span((k - 1) as nat)
    }
}

proof fn lemma_span_grows(low: nat, high: nat)
    requires
        low <= high,
    ensures
        span(low) <= span(high),
        span(low) >= 1,
    decreases high,
{
    if low < high {
        lemma_span_grows(low, (high - 1) as nat);
    } else if low > 0 {
        lemma_span_grows((low - 1) as nat, (low - 1) as nat);
    }
}

proof fn lemma_span_sixteen()
    ensures
        span(16) == modulus(),
{
    reveal_with_fuel(span, 17);
}

/// Packs bytes, most significant first, and keeps the low 128 bits.
pub fn pack_bytes(bytes: &Vec<u8>) -> (r: u128)
    ensures
        r == pack(bytes@) % modulus(),
{
    let mut acc: u128 = 0;
    let mut i: usize = 0;
    while i < bytes.len()
        invariant
            i <= bytes.len(),
            acc == pack(bytes@.take(i as int)) % modulus(),
        decreases bytes.len() - i,
    {
        let ghost before = pack(bytes@.take(i as int));
        let low: u128 = acc % 0x1_0000_0000_0000_0000_0000_0000_0000_00;
        proof {
            assert(bytes@.take(i + 1).drop_last() == bytes@.take(i as int));
            let b = bytes[i as int] as int;
            let m = 0x1_0000_0000_0000_0000_0000_0000_0000_0000int;
            let h = 0x1_0000_0000_0000_0000_0000_0000_0000_00int;
            let q = before as int / m;
            let q2 = acc as int / h;
            vstd::arithmetic::div_mod::lemma_fundamental_div_mod_converse(
                before * 256 + b,
                m,
                q * 256 + q2,
                low * 256 + b,
            );
        }
        acc = low * 256 + bytes[i] as u128;
        i = i + 1;
    }
    assert(bytes@.take(i as int) == bytes@);
    acc
}

/// The bytes that `n` occupies, least significant first.
pub fn unpack_bytes(n: u128) -> (r: Vec<u8>)
    ensures
        r@ == bytes_of(n as nat),
{
    let mut r: Vec<u8> = Vec::new();
    let mut rest: u128 = n;
    while rest != 0
        invariant
            bytes_of(n as nat) == r@ + bytes_of(rest as nat),
        decreases rest,
    {
        r.push((rest % 256) as u8);
        rest = rest / 256;
    }
    r
}

/// An integer of the calculator's type occupies at most sixteen bytes.
pub proof fn lemma_bytes_of_len(n: nat, k: nat)
    requires
        n < span(k),
    ensures
        bytes_of(n).len() <= k,
    decreases n,
{
    if n > 0 {
        lemma_bytes_of_len(n / 256, (k - 1) as nat);
    }
}

/// A number packed from `k` bytes is less than 256 to the power `k`.
pub proof fn lemma_pack_bound(bytes: Seq<u8>)
    ensures
        pack(bytes) < span(bytes.len()),
    decreases bytes.len(),
{
    if bytes.len() > 0 {
        lemma_pack_bound(bytes.drop_last());
    }
}

/// The bytes of an integer of the calculator's type, packed in the reverse
/// order, fit the type again.
pub proof fn lemma_reversal_fits(n: u128)
    ensures
        pack(bytes_of(n as nat)) < modulus(),
{
    lemma_span_sixteen();
    lemma_bytes_of_len(n as nat, 16);
    lemma_pack_bound(bytes_of(n as nat));
    lemma_span_grows(bytes_of(n as nat).len(), 16);
}

/// A number packed from at most sixteen bytes fits 128 bits.
pub proof fn lemma_pack_fits(bytes: Seq<u8>)
    requires
        bytes.len() <= 16,
    ensures
        pack(bytes) < modulus(),
{
    lemma_span_sixteen();
    lemma_pack_bound(bytes);
    lemma_span_grows(bytes.len(), 16);
}

} // verus!
