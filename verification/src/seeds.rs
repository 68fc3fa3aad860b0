//! Seeds drawn from the clock, and the hash behind the timing of falling stars.
use vstd::prelude::*;
use vstd::wrapping::u64_specs;
use vstd::arithmetic::div_mod::{lemma_mul_mod_noop_left, lemma_mul_mod_noop_right, lemma_small_mod};
use vstd::arithmetic::mul::lemma_mul_is_associative;

verus! {

/// The first step of the clock seed: whole seconds and nanoseconds combined by a
/// wrapping multiply-add.
pub open spec fn seed_mix_input(secs: u64, subsec_nanos: u32) -> u64 {
    u64_specs::wrapping_add(u64_specs::wrapping_mul(secs, 6364136223846793005), subsec_nanos as u64)
}

/// `x` with its high bits folded onto its low bits: `x ^ (x >> 33)`.
pub open spec fn xorshift33(x: u64) -> u64 {
    x ^ (x >> 33u64)
}

/// The scrambling applied to the multiply-add value: three xorshift rounds with two
/// odd multipliers between them.
pub open spec fn seed_mix(h0: u64) -> u64 {
    let h1 = xorshift33(h0);
    let h2 = u64_specs::wrapping_mul(h1, 0xff51afd7ed558ccd);
    let h3 = xorshift33(h2);
    let h4 = u64_specs::wrapping_mul(h3, 0xc4ceb9fe1a85ec53);
    xorshift33(h4)
}

/// A planet seed made from a moment in time, given as whole seconds since the Unix
/// epoch and the nanoseconds past that second: the two are combined by a
/// multiply-add and scrambled by three multiply-xorshift rounds.
pub open spec fn gen_seed_spec(secs: u64, subsec_nanos: u32) -> u64 {
    seed_mix(seed_mix_input(secs, subsec_nanos))
}

/// The seed of a random planet, from the time at which it was asked for.
pub fn gen_seed(secs: u64, subsec_nanos: u32) -> (h: u64)
    ensures
        h == gen_seed_spec(secs, subsec_nanos),
{
    let mut h = secs.wrapping_mul(6364136223846793005).wrapping_add(subsec_nanos as u64);
    h = h ^ (h >> 33);
    h = h.wrapping_mul(0xff51afd7ed558ccd);
    h = h ^ (h >> 33);
    h = h.wrapping_mul(0xc4ceb9fe1a85ec53);
    h = h ^ (h >> 33);
    h
}

/// Folding by 33 bits undoes itself, since the shift leaves the high bits alone.
proof fn lemma_xorshift33_involution(x: u64)
    ensures
        xorshift33(xorshift33(x)) == x,
{
    assert((x ^ (x >> 33u64)) ^ ((x ^ (x >> 33u64)) >> 33u64) == x) by (bit_vector);
}

/// Multiplying by `c` and then by `d` modulo 2^64 gives back `x` when `d` is the
/// inverse of `c`.
proof fn lemma_wrapping_mul_inverse(x: u64, c: u64, d: u64)
    requires
        (c as int * d as int) % 0x1_0000_0000_0000_0000 == 1,
    ensures
        u64_specs::wrapping_mul(u64_specs::wrapping_mul(x, c), d) == x,
{
    let m: int = 0x1_0000_0000_0000_0000;
    let y: int = (x as int * c as int) % m;
    assert(u64_specs::wrapping_mul(x, c) == y);
    lemma_mul_mod_noop_left(x as int * c as int, d as int, m);
    lemma_mul_is_associative(x as int, c as int, d as int);
    lemma_mul_mod_noop_right(x as int, c as int * d as int, m);
    lemma_small_mod(x as nat, m as nat);
    assert((y * d as int) % m == x as int);
}

/// The scrambling is one-to-one: different multiply-add values give different seeds.
pub proof fn lemma_seed_mix_injective(a: u64, b: u64)
    ensures
        seed_mix(a) == seed_mix(b) <==> a == b,
{
    if seed_mix(a) == seed_mix(b) {
        let a2 = u64_specs::wrapping_mul(xorshift33(a), 0xff51afd7ed558ccd);
        let b2 = u64_specs::wrapping_mul(xorshift33(b), 0xff51afd7ed558ccd);
        let a4 = u64_specs::wrapping_mul(xorshift33(a2), 0xc4ceb9fe1a85ec53);
        let b4 = u64_specs::wrapping_mul(xorshift33(b2), 0xc4ceb9fe1a85ec53);
        lemma_xorshift33_involution(a4);
        lemma_xorshift33_involution(b4);
        assert(a4 == b4);
        lemma_wrapping_mul_inverse(xorshift33(a2), 0xc4ceb9fe1a85ec53, 0x9cb4b2f8129337db);
        lemma_wrapping_mul_inverse(xorshift33(b2), 0xc4ceb9fe1a85ec53, 0x9cb4b2f8129337db);
        lemma_xorshift33_involution(a2);
        lemma_xorshift33_involution(b2);
        assert(a2 == b2);
        lemma_wrapping_mul_inverse(xorshift33(a), 0xff51afd7ed558ccd, 0x4f74430c22a54005);
        lemma_wrapping_mul_inverse(xorshift33(b), 0xff51afd7ed558ccd, 0x4f74430c22a54005);
        lemma_xorshift33_involution(a);
        lemma_xorshift33_involution(b);
    }
}

/// Two clock readings give the same seed exactly when their multiply-add values agree.
pub proof fn lemma_gen_seed_injective(secs1: u64, nanos1: u32, secs2: u64, nanos2: u32)
    ensures
        gen_seed_spec(secs1, nanos1) == gen_seed_spec(secs2, nanos2) <==> seed_mix_input(secs1, nanos1)
            == seed_mix_input(secs2, nanos2),
{
    lemma_seed_mix_injective(seed_mix_input(secs1, nanos1), seed_mix_input(secs2, nanos2));
}

/// Readings within the same second that differ in their nanoseconds give different seeds.
pub proof fn lemma_gen_seed_nanos_distinct(secs: u64, nanos1: u32, nanos2: u32)
    requires
        nanos1 != nanos2,
    ensures
        gen_seed_spec(secs, nanos1) != gen_seed_spec(secs, nanos2),
{
    lemma_gen_seed_injective(secs, nanos1, secs, nanos2);
}

/// The `n`-th number of the falling-star sequence: an LCG step followed by two
/// multiply-xorshift rounds.
pub open spec fn fs_bits_spec(n: u64) -> u64 {
    let h0 = u64_specs::wrapping_add(u64_specs::wrapping_mul(n, 6364136223846793005), 1442695040888963407);
    let h1 = h0 ^ (h0 >> 33u64);
    let h2 = u64_specs::wrapping_mul(h1, 0xff51afd7ed558ccd);
    h2 ^ (h2 >> 33u64)
}
/// Hashes the counter `n`; divided by `u64::MAX` it is the falling stars' number in [0, 1].
pub fn fs_bits(n: u64) -> (h: u64)
    ensures
        h == fs_bits_spec(n),
{
    let mut h = n.wrapping_mul(6364136223846793005).wrapping_add(1442695040888963407);
    h = h ^ (h >> 33);
    h = h.wrapping_mul(0xff51afd7ed558ccd);
    h = h ^ (h >> 33);
    h
}

} // verus!
