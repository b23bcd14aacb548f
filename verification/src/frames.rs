//! Big-endian register-value framing.
//!
//! Both the ADC and the DAC speak a register protocol whose payloads are
//! big-endian byte strings. This module gives the byte strings a
//! mathematical meaning (`be_value`, `be_bytes_of`) and provides the
//! verified encoders and decoders the drivers share.

use vstd::prelude::*;
use vstd::arithmetic::power2::pow2;
use vstd::arithmetic::power2::lemma2_to64;
use vstd::arithmetic::power2::lemma_pow2_adds;
use vstd::arithmetic::div_mod::lemma_fundamental_div_mod;

verus! {

/// The unsigned value of a big-endian byte string, most significant first.
pub open spec fn be_value(s: Seq<u8>) -> nat
    decreases s.len(),
{
    if s.len() == 0 {
        0
    } else {
        (be_value(s.drop_last()) * 256 + s.last()) as nat
    }
}

/// The `n`-byte big-endian encoding of `v % 2^(8n)`, most significant first.
pub open spec fn be_bytes_of(v: nat, n: nat) -> Seq<u8>
    decreases n,
{
    if n == 0 {
        Seq::empty()
    } else {
        be_bytes_of(v / 256, (n - 1) as nat).push((v % 256) as u8)
    }
}

/// A big-endian byte string of length `n` denotes a value below `2^(8n)`.
pub proof fn lemma_be_value_bound(s: Seq<u8>)
    ensures
        be_value(s) < pow2(8 * s.len()),
    decreases s.len(),
{
    lemma2_to64();
    if s.len() > 0 {
        lemma_be_value_bound(s.drop_last());
        lemma_pow2_adds(8 * (s.len() - 1) as nat, 8);
    }
}

/// Encoding then decoding returns the value reduced to the field width.
pub proof fn lemma_be_round_trip(v: nat, n: nat)
    ensures
        be_value(be_bytes_of(v, n)) == v % pow2(8 * n),
    decreases n,
{
    lemma2_to64();
    if n == 0 {
        assert(v % 1 == 0) by (nonlinear_arith);
    } else {
        let s = be_bytes_of(v, n);
        assert(s.drop_last() == be_bytes_of(v / 256, (n - 1) as nat));
        lemma_be_round_trip(v / 256, (n - 1) as nat);
        lemma_pow2_adds(8 * (n - 1) as nat, 8);
        lemma_fundamental_div_mod(v as int, 256);
        vstd::arithmetic::power2::lemma_pow2_pos(8 * (n - 1) as nat);
        assert((v / 256) % pow2(8 * (n - 1) as nat) * 256 + v % 256 == v % (pow2(
            8 * (n - 1) as nat,
        ) * 256)) by (nonlinear_arith)
            requires
                pow2(8 * (n - 1) as nat) > 0,
                v == 256 * (v / 256) + v % 256,
                0 <= v % 256 < 256,
        {
            let p = pow2(8 * (n - 1) as nat);
            lemma_fundamental_div_mod((v / 256) as int, p as int);
            let q = (v / 256) / p;
            assert(v == (p * 256) * q + ((v / 256) % p * 256 + v % 256));
            vstd::arithmetic::div_mod::lemma_fundamental_div_mod_converse(
                v as int,
                (p * 256) as int,
                q as int,
                ((v / 256) % p * 256 + v % 256) as int,
            );
        }
    }
}

/// Encodes the low `size` bytes of `data`, big-endian.
pub fn encode_be(data: u32, size: usize) -> (r: Vec<u8>)
    requires
        1 <= size <= 4,
    ensures
        r@ == be_bytes_of(data as nat, size as nat),
        r@.len() == size,
{
    proof {
        vstd::arithmetic::power2::lemma_pow2_pos(0);
    }
    let mut r: Vec<u8> = Vec::new();
    if size == 4 {
        r.push((data / 0x1000000 % 256) as u8);
    }
    if size >= 3 {
        r.push((data / 0x10000 % 256) as u8);
    }
    if size >= 2 {
        r.push((data / 0x100 % 256) as u8);
    }
    r.push((data % 256) as u8);
    proof {
        reveal_with_fuel(be_bytes_of, 5);
        assert(data as nat / 256 / 256 == data as nat / 0x10000) by (nonlinear_arith);
        assert(data as nat / 256 / 256 / 256 == data as nat / 0x1000000) by (nonlinear_arith);
        assert(data as nat / 0x1000000 / 256 == 0) by (nonlinear_arith)
            requires
                data < 0x100000000,
        ;
        assert(r@ =~= be_bytes_of(data as nat, size as nat));
    }
    r
}

/// Decodes the bytes of `frame` from `start` on as a big-endian value.
pub fn decode_be(frame: &Vec<u8>, start: usize) -> (r: u32)
    requires
        start <= frame@.len(),
        frame@.len() - start <= 4,
    ensures
        r as nat == be_value(frame@.skip(start as int)),
        (r as nat) < pow2(((frame@.len() - start) * 8) as nat),
{
    let mut acc: u32 = 0;
    let mut i: usize = start;
    proof {
        lemma2_to64();
        assert(frame@.subrange(start as int, start as int) =~= Seq::<u8>::empty());
    }
    while i < frame.len()
        invariant
            start <= i <= frame@.len(),
            frame@.len() - start <= 4,
            acc as nat == be_value(frame@.subrange(start as int, i as int)),
            (acc as nat) < pow2(((i - start) * 8) as nat),
        decreases frame@.len() - i,
    {
        let b = frame[i];
        proof {
            lemma2_to64();
            lemma_pow2_adds(((i - start) * 8) as nat, 8);
            let sub = frame@.subrange(start as int, i + 1);
            assert(sub.drop_last() =~= frame@.subrange(start as int, i as int));
            assert(sub.last() == frame@[i as int]);
            assert((acc as nat) * 256 + b < pow2(((i - start) * 8) as nat) * 256) by (nonlinear_arith)
                requires
                    (acc as nat) < pow2(((i - start) * 8) as nat),
                    b < 256,
            ;
        }
        acc = acc * 256 + (b as u32);
        i = i + 1;
    }
    proof {
        assert(frame@.subrange(start as int, frame@.len() as int) =~= frame@.skip(start as int));
    }
    acc
}

} // verus!
