//! The deterministic pseudorandom layer: the seahash digests that seed the
//! map and its corners, the Wyrand generator that turns a per-cell seed
//! into a 16-bit sample, and the per-cell jitter seed itself.

use vstd::prelude::*;

use tinyrand::{Rand, Seeded, StdRand};
use tinyrand_std::clock_seed::ClockSeed;

verus! {

/// The seahash digest of a byte string.
pub uninterp spec fn seahash_of(bytes: Seq<u8>) -> u64;

/// The seahash digest of a byte string under four 64-bit keys.
pub uninterp spec fn seahash_seeded_of(bytes: Seq<u8>, k1: u64, k2: u64, k3: u64, k4: u64) -> u64;

/// Relies on seahash::hash: the unkeyed digest of a byte string, a
/// function of the bytes alone.
#[verifier::external_body]
pub(crate) fn hash_bytes(b: &[u8]) -> (r: u64)
    ensures
        r == seahash_of(b@),
{
    seahash::hash(b)
}

/// Relies on seahash::hash_seeded: the keyed digest of a byte string, a
/// function of the bytes and the four keys alone.
#[verifier::external_body]
pub(crate) fn hash_seeded_bytes(b: &[u8], k1: u64, k2: u64, k3: u64, k4: u64) -> (r: u64)
    ensures
        r == seahash_seeded_of(b@, k1, k2, k3, k4),
{
    seahash::hash_seeded(b, k1, k2, k3, k4)
}

/// Relies on tinyrand_std's ClockSeed: a value folded from the system
/// clock. Nothing is promised of it.
#[verifier::external_body]
pub(crate) fn clock_u64() -> u64 {
    ClockSeed.next_u64()
}

/// One Wyrand draw from a fresh state: the state advances by a fixed odd
/// constant, and the output folds the halves of a 128-bit product.
pub open spec fn wyrand_u64_spec(seed: u64) -> u64 {
    let s = seed.wrapping_add(0xA076_1D64_78BD_642F);
    let p = (s as int) * ((s ^ 0xE703_7ED1_A0B4_28DB) as int);
    (p as u64) ^ ((p / 0x1_0000_0000_0000_0000) as u64)
}

/// The 16-bit Wyrand draw: the low half of the 64-bit one.
pub open spec fn wyrand_u16_spec(seed: u64) -> u16 {
    wyrand_u64_spec(seed) as u16
}

/// Relies on tinyrand's StdRand (Wyrand): seeded with `seed`, one
/// `next_u16` draw, which is `next_u64` truncated to its low 16 bits.
#[verifier::external_body]
pub(crate) fn std_rand_u16(seed: u64) -> (r: u16)
    ensures
        r == wyrand_u16_spec(seed),
{
    StdRand::seed(seed).next_u16()
}

/// Relies on tinyrand's StdRand (Wyrand): seeded with `seed`, one
/// `next_u64` draw.
#[verifier::external_body]
pub(crate) fn std_rand_u64(seed: u64) -> (r: u64)
    ensures
        r == wyrand_u64_spec(seed),
{
    StdRand::seed(seed).next_u64()
}

/// The decimal digits of `n`, as ASCII bytes.
pub open spec fn dec_bytes(n: nat) -> Seq<u8>
    decreases n,
{
    if n < 10 {
        seq![(48 + n) as u8]
    } else {
        dec_bytes(n / 10).push((48 + n % 10) as u8)
    }
}

/// Appends the decimal digits of `n` to `v`.
pub fn push_dec(v: &mut Vec<u8>, n: u64)
    ensures
        final(v)@ == old(v)@ + dec_bytes(n as nat),
    decreases n,
{
    if n < 10 {
        v.push(48 + n as u8);
        assert(v@ =~= old(v)@ + dec_bytes(n as nat));
    } else {
        push_dec(v, n / 10);
        v.push(48 + (n % 10) as u8);
        assert(v@ =~= old(v)@ + dec_bytes(n as nat));
    }
}

/// The key under which a corner's initial height is hashed: the decimal
/// coordinates joined by an underscore.
pub open spec fn corner_key(x: nat, y: nat) -> Seq<u8> {
    dec_bytes(x) + seq![95u8] + dec_bytes(y)
}

/// Builds a corner's hash key.
pub fn corner_key_bytes(x: u32, y: u32) -> (v: Vec<u8>)
    ensures
        v@ == corner_key(x as nat, y as nat),
{
    let mut v: Vec<u8> = Vec::new();
    push_dec(&mut v, x as u64);
    v.push(95);
    push_dec(&mut v, y as u64);
    assert(v@ =~= corner_key(x as nat, y as nat));
    v
}

/// The sum of the six residues of a jitter state.
pub open spec fn rsum(x: u64, y: u64) -> int {
    x % 7 + x % 13 + x % 1301081 + y % 8461 + y % 105467 + y % 105943
}

/// One round of the jitter mix: the next `y` folds the seed into the old
/// `x`; the next `x` grows by the residue sum of the old state.
pub open spec fn jitter_round(x: u64, y: u64, seed: u64) -> (u64, u64) {
    (((x + rsum(x, y)) as u64), x.wrapping_add(seed))
}

/// The jitter state after `k` rounds from the coordinates `(x0, y0)`.
pub open spec fn jitter_state(x0: u64, y0: u64, seed: u64, k: nat) -> (u64, u64)
    decreases k,
{
    if k == 0 {
        (x0, y0)
    } else {
        let s = jitter_state(x0, y0, seed, (k - 1) as nat);
        jitter_round(s.0, s.1, seed)
    }
}

/// The shift that normalises `s / 1520972` into `[1, 2)`: how often `s`
/// must be doubled until one more doubling reaches the denominator.
pub open spec fn norm_shift(s: nat) -> nat
    recommends
        1 <= s < 1520972,
    decreases 1520972 - s,
{
    if s == 0 {
        0
    } else if 2 * s >= 1520972 {
        1
    } else {
        1 + norm_shift(2 * s)
    }
}

/// The bit pattern of the IEEE-754 double `s / 1520972`, rounded to
/// nearest with ties to even; for `s` below the denominator the quotient
/// lies in `[0, 1)`.
pub open spec fn ratio_bits(s: nat) -> u64 {
    if s == 0 {
        0
    } else {
        let j = norm_shift(s);
        let num = s * vstd::arithmetic::power2::pow2((52 + j) as nat);
        let q = num / 1520972;
        let r = num % 1520972;
        let m = if 2 * r > 1520972 {
            q + 1
        } else if 2 * r < 1520972 {
            q
        } else if q % 2 == 1 {
            q + 1
        } else {
            q
        };
        if m == vstd::arithmetic::power2::pow2(53) {
            ((1024 - j) as u64) << 52u64
        } else {
            (((1023 - j) as u64) << 52u64) | ((m - vstd::arithmetic::power2::pow2(52)) as u64)
        }
    }
}

/// The default per-cell jitter seed: eighty rounds of residue mixing from
/// the wrapped coordinates, the final residue sum read as the bits of the
/// double `sum / 1520972.0`, folded into the seed.
pub open spec fn jitter_spec(x: u32, y: u32, seed: u64) -> u64 {
    let st = jitter_state(x as u64, y as u64, seed, 80);
    seed ^ ratio_bits(rsum(st.0, st.1) as nat)
}

/// A power of two that fits a 128-bit word.
fn pow2_u128(e: u64) -> (r: u128)
    requires
        e <= 80,
    ensures
        r as nat == vstd::arithmetic::power2::pow2(e as nat),
{
    let mut r: u128 = 1;
    let mut i: u64 = 0;
    proof {
        vstd::arithmetic::power2::lemma2_to64();
    }
    while i < e
        invariant
            i <= e,
            e <= 80,
            r as nat == vstd::arithmetic::power2::pow2(i as nat),
        decreases e - i,
    {
        proof {
            vstd::arithmetic::power2::lemma2_to64();
            vstd::arithmetic::power2::lemma2_to64_rest();
            vstd::arithmetic::power2::lemma_pow2_adds(64, 15);
            if (i as nat) < 79 {
                vstd::arithmetic::power2::lemma_pow2_strictly_increases(i as nat, 79);
            }
            vstd::arithmetic::power2::lemma_pow2_unfold((i + 1) as nat);
        }
        r = 2 * r;
        i = i + 1;
    }
    r
}

/// Computes the bit pattern of the double `s / 1520972.0`.
pub fn ratio_to_f64_bits(s: u64) -> (bits: u64)
    requires
        s < 1520972,
    ensures
        bits == ratio_bits(s as nat),
{
    if s == 0 {
        return 0;
    }
    let mut t: u64 = s;
    let mut jl: u64 = 0;
    proof {
        vstd::arithmetic::power2::lemma2_to64();
    }
    while 2 * t < 1520972
        invariant
            1 <= t < 1520972,
            s >= 1,
            norm_shift(s as nat) == jl + norm_shift(t as nat),
            t as nat == s as nat * vstd::arithmetic::power2::pow2(jl as nat),
            vstd::arithmetic::power2::pow2(jl as nat) <= t as nat,
            jl <= 20,
        decreases 1520972 - t,
    {
        proof {
            vstd::arithmetic::power2::lemma2_to64();
            assert(norm_shift(t as nat) == 1 + norm_shift((2 * t) as nat));
            vstd::arithmetic::power2::lemma_pow2_unfold((jl + 1) as nat);
            assert((2 * t) as nat == s as nat * vstd::arithmetic::power2::pow2(
                (jl + 1) as nat,
            )) by (nonlinear_arith)
                requires
                    t as nat == s as nat * vstd::arithmetic::power2::pow2(jl as nat),
                    vstd::arithmetic::power2::pow2((jl + 1) as nat) == 2
                        * vstd::arithmetic::power2::pow2(jl as nat),
                    2 * t < 1520972,
            ;
            if jl == 20 {
                assert(vstd::arithmetic::power2::pow2(21) == 0x200000) by {
                    vstd::arithmetic::power2::lemma2_to64();
                };
                assert(false);
            }
        }
        t = 2 * t;
        jl = jl + 1;
    }
    let j = jl + 1;
    proof {
        assert(norm_shift(t as nat) == 1);
        assert(norm_shift(s as nat) == j);
        vstd::arithmetic::power2::lemma_pow2_unfold(j as nat);
        assert((2 * t) as nat == s as nat * vstd::arithmetic::power2::pow2(j as nat))
            by (nonlinear_arith)
            requires
                t as nat == s as nat * vstd::arithmetic::power2::pow2(jl as nat),
                vstd::arithmetic::power2::pow2(j as nat) == 2 * vstd::arithmetic::power2::pow2(
                    jl as nat,
                ),
                j == jl + 1,
                2 * t < 4000000,
        ;
    }
    let pw = pow2_u128(52 + j);
    let pw52 = pow2_u128(52);
    let pw53 = pow2_u128(53);
    proof {
        vstd::arithmetic::power2::lemma_pow2_adds(52, j as nat);
        vstd::arithmetic::power2::lemma2_to64();
        vstd::arithmetic::power2::lemma2_to64_rest();
        // num = s * 2^(52+j) = (2t) * 2^52, so it sits in [D * 2^52, 2D * 2^52).
        assert(s as nat * vstd::arithmetic::power2::pow2((52 + j) as nat) == (2 * t) as nat
            * vstd::arithmetic::power2::pow2(52)) by (nonlinear_arith)
            requires
                (2 * t) as nat == s as nat * vstd::arithmetic::power2::pow2(j as nat),
                vstd::arithmetic::power2::pow2((52 + j) as nat) == vstd::arithmetic::power2::pow2(
                    52,
                ) * vstd::arithmetic::power2::pow2(j as nat),
        ;
        assert(1520972 * vstd::arithmetic::power2::pow2(52) <= (2 * t) as nat
            * vstd::arithmetic::power2::pow2(52) < 3041944 * vstd::arithmetic::power2::pow2(52))
            by (nonlinear_arith)
            requires
                1520972 <= 2 * t < 3041944,
                vstd::arithmetic::power2::pow2(52) == 0x10000000000000,
        ;
    }
    let num: u128 = (s as u128) * pw;
    let q: u128 = num / 1520972;
    let rem: u128 = num % 1520972;
    proof {
        vstd::arithmetic::div_mod::lemma_fundamental_div_mod(num as int, 1520972);
        vstd::arithmetic::div_mod::lemma_mod_bound(num as int, 1520972);
        assert(vstd::arithmetic::power2::pow2(52) <= q as nat && (q as nat)
            < vstd::arithmetic::power2::pow2(53)) by (nonlinear_arith)
            requires
                1520972 * (q as int) + (rem as int) == num as int,
                0 <= (rem as int) < 1520972,
                1520972 * vstd::arithmetic::power2::pow2(52) <= num as nat,
                (num as nat) < 3041944 * vstd::arithmetic::power2::pow2(52),
                vstd::arithmetic::power2::pow2(53) == 2 * vstd::arithmetic::power2::pow2(52),
        ;
    }
    let m: u128 = if 2 * rem > 1520972 {
        q + 1
    } else if 2 * rem < 1520972 {
        q
    } else if q % 2 == 1 {
        q + 1
    } else {
        q
    };
    if m == pw53 {
        ((1024 - j) as u64) << 52u64
    } else {
        (((1023 - j) as u64) << 52u64) | ((m - pw52) as u64)
    }
}

/// Computes the default per-cell jitter seed.
pub fn jitter(x: u32, y: u32, seed: u64) -> (r: u64)
    ensures
        r == jitter_spec(x, y, seed),
{
    let mut xs: u64 = x as u64;
    let mut ys: u64 = y as u64;
    let mut i: u64 = 0;
    while i < 80
        invariant
            i <= 80,
            (xs, ys) == jitter_state(x as u64, y as u64, seed, i as nat),
            xs <= x as u64 + i * 1520966,
        decreases 80 - i,
    {
        let rs = xs % 7 + xs % 13 + xs % 1301081 + ys % 8461 + ys % 105467 + ys % 105943;
        let ny = xs.wrapping_add(seed);
        let nx = xs + rs;
        proof {
            assert(jitter_state(x as u64, y as u64, seed, (i + 1) as nat) == jitter_round(
                xs,
                ys,
                seed,
            ));
        }
        xs = nx;
        ys = ny;
        i = i + 1;
    }
    let rs = xs % 7 + xs % 13 + xs % 1301081 + ys % 8461 + ys % 105467 + ys % 105943;
    let bits = ratio_to_f64_bits(rs);
    seed ^ bits
}

} // verus!
