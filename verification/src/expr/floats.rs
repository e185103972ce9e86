//! Conversion of integers to IEEE-754 bit patterns, rounding to the nearest
//! representable value (ties to even), as Rust's `as f32` / `as f64` do.
use vstd::prelude::*;
use vstd::arithmetic::power2::*;
use vstd::arithmetic::div_mod::*;
use vstd::arithmetic::mul::*;

verus! {

/// The position of the highest set bit of a positive number.
pub open spec fn ilog2(m: nat) -> nat
    decreases m,
{
    if m <= 1 {
        0
    } else {
        1 + ilog2(m / 2)
    }
}

/// The significand (with its leading bit) and the unbiased exponent of the value of `m`
/// rounded to `p + 1` significant bits, ties to even.
pub open spec fn rounded_significand(m: nat, p: nat) -> (nat, nat) {
    let e = ilog2(m);
    if e <= p {
        (m * pow2((p - e) as nat), e)
    } else {
        let sh = (e - p) as nat;
        let pw = pow2(sh);
        let q = m / pw;
        let r = m % pw;
        let half = pw / 2;
        let q2 = if r > half || (r == half && q % 2 == 1) {
            q + 1
        } else {
            q
        };
        if q2 == pow2(p + 1) {
            (pow2(p), e + 1)
        } else {
            (q2, e)
        }
    }
}

/// The bit pattern of the floating-point value nearest to the integer `x`, for a format
/// with `p` stored significand bits, exponent bias `bias` and sign bit at `sign_pos`.
pub open spec fn int_to_float_bits(x: int, p: nat, bias: nat, sign_pos: nat) -> nat {
    if x == 0 {
        0
    } else {
        let m = (if x < 0 {
            -x
        } else {
            x
        }) as nat;
        let (sig, exp) = rounded_significand(m, p);
        ((if x < 0 {
            pow2(sign_pos)
        } else {
            0
        }) + (exp + bias) * pow2(p) + (sig - pow2(p))) as nat
    }
}

/// The `float` bit pattern of the value nearest to `x`.
pub open spec fn int_to_f32(x: int) -> u32 {
    int_to_float_bits(x, 23, 127, 31) as u32
}

/// The `double` bit pattern of the value nearest to `x`.
pub open spec fn int_to_f64(x: int) -> u64 {
    int_to_float_bits(x, 52, 1023, 63) as u64
}

proof fn lemma_ilog2_bounds(m: nat)
    requires
        m >= 1,
    ensures
        pow2(ilog2(m)) <= m < pow2(ilog2(m) + 1),
    decreases m,
{
    lemma_pow2_unfold(ilog2(m) + 1);
    if m > 1 {
        lemma_ilog2_bounds(m / 2);
        lemma_pow2_unfold(ilog2(m));
    } else {
        lemma_pow2_unfold(1);
        lemma2_to64();
    }
}

proof fn lemma_ilog2_mono(a: nat, b: nat)
    requires
        1 <= a <= b,
    ensures
        ilog2(a) <= ilog2(b),
    decreases b,
{
    if a > 1 {
        lemma_ilog2_mono(a / 2, b / 2);
    }
}

proof fn lemma_ilog2_pow2(k: nat)
    ensures
        ilog2(pow2(k)) == k,
    decreases k,
{
    lemma_pow2_pos(k);
    if k > 0 {
        lemma_pow2_unfold(k);
        lemma_pow2_pos((k - 1) as nat);
        lemma_ilog2_pow2((k - 1) as nat);
        assert(pow2(k) / 2 == pow2((k - 1) as nat));
    } else {
        lemma2_to64();
    }
}

/// 2 to the power `k`.
fn pow2_u64(k: u64) -> (r: u64)
    requires
        k < 64,
    ensures
        r == pow2(k as nat),
{
    let mut r: u64 = 1;
    let mut i: u64 = 0;
    proof {
        lemma2_to64();
    }
    while i < k
        invariant
            i <= k < 64,
            r == pow2(i as nat),
        decreases k - i,
    {
        proof {
            lemma_pow2_unfold((i + 1) as nat);
            lemma_pow2_strictly_increases((i + 1) as nat, 64);
            lemma2_to64_rest();
        }
        r = r * 2;
        i = i + 1;
    }
    r
}

proof fn lemma_significand_bounds(m: nat, p: nat)
    requires
        1 <= m,
        p < 64,
        ilog2(m) < 64,
    ensures
        pow2(p) <= rounded_significand(m, p).0 < pow2(p + 1),
        rounded_significand(m, p).1 <= ilog2(m) + 1,
{
    let e = ilog2(m);
    lemma_ilog2_bounds(m);
    lemma_pow2_pos(p);
    if e <= p {
        let f = pow2((p - e) as nat);
        lemma_pow2_adds(e, (p - e) as nat);
        lemma_pow2_adds(e + 1, (p - e) as nat);
        lemma_mul_inequality(pow2(e) as int, m as int, f as int);
        lemma_mul_strict_inequality(m as int, pow2(e + 1) as int, f as int);
    } else {
        let sh = (e - p) as nat;
        let pw = pow2(sh);
        lemma_pow2_pos(sh);
        lemma_pow2_adds(p, sh);
        lemma_pow2_adds(p + 1, sh);
        let q = m / pw;
        lemma_div_is_ordered(pow2(e) as int, m as int, pw as int);
        lemma_div_by_multiple(pow2(p) as int, pw as int);
        lemma_mul_is_commutative(pw as int, pow2(p + 1) as int);
        assert(p + 1 + sh == e + 1);
        lemma_multiply_divide_lt(m as int, pw as int, pow2(p + 1) as int);
        assert(pow2(p) <= q < pow2(p + 1));
        lemma_pow2_strictly_increases(p, p + 1);
    }
}

/// The bit pattern of the value nearest to `x` in the format with `p` stored
/// significand bits, exponent bias `bias` and sign bit at `sign_pos`.
fn int_to_float_bits_exec(x: i64, p: u64, bias: u64, sign_pos: u64) -> (r: u64)
    requires
        (p == 23 && bias == 127 && sign_pos == 31) || (p == 52 && bias == 1023 && sign_pos == 63),
    ensures
        r as int == int_to_float_bits(x as int, p as nat, bias as nat, sign_pos as nat),
        p == 23 ==> r < 0x1_0000_0000,
{
    if x == 0 {
        return 0;
    }
    let neg = x < 0;
    let m: u64 = if neg {
        ((-(x + 1)) as u64) + 1
    } else {
        x as u64
    };
    let ghost mn = m as nat;
    assert(mn == if x < 0 { -(x as int) } else { x as int });
    assert(m <= 0x8000_0000_0000_0000u64);
    let mut e: u64 = 0;
    let mut t: u64 = m;
    while t > 1
        invariant
            1 <= t <= m,
            ilog2(m as nat) == e + ilog2(t as nat),
            e + t <= m,
        decreases t,
    {
        t = t / 2;
        e = e + 1;
    }
    proof {
        lemma_ilog2_bounds(mn);
        lemma_ilog2_mono(mn, 0x8000_0000_0000_0000nat);
        lemma_ilog2_pow2(63);
        lemma2_to64_rest();
        lemma_significand_bounds(mn, p as nat);
        lemma_pow2_strictly_increases(p as nat, (p + 1) as nat);
    }
    let sig: u64;
    let exp: u64;
    if e <= p {
        let f = pow2_u64(p - e);
        proof {
            lemma_pow2_strictly_increases((p + 1) as nat, 64);
            lemma2_to64_rest();
        }
        sig = m * f;
        exp = e;
    } else {
        let sh = e - p;
        let pw = pow2_u64(sh);
        proof {
            lemma_pow2_pos(sh as nat);
        }
        let q = m / pw;
        let rem = m % pw;
        let half = pw / 2;
        let q2 = if rem > half || (rem == half && q % 2 == 1) {
            q + 1
        } else {
            q
        };
        let top = pow2_u64(p + 1);
        if q2 == top {
            sig = pow2_u64(p);
            exp = e + 1;
        } else {
            sig = q2;
            exp = e;
        }
    }
    assert((sig as nat, exp as nat) == rounded_significand(mn, p as nat));
    let one = pow2_u64(p);
    let scale = pow2_u64(p);
    proof {
        lemma_pow2_adds(11, p as nat);
        lemma2_to64();
        lemma2_to64_rest();
        lemma_mul_inequality((exp + bias) as int, 2048, scale as int);
        lemma_pow2_adds(p as nat, 1);
    }
    let body = (exp + bias) * scale + (sig - one);
    let sb: u64 = if neg {
        pow2_u64(sign_pos)
    } else {
        0
    };
    proof {
        lemma2_to64_rest();
    }
    sb + body
}

/// The `float` bit pattern of the value nearest to `x`.
pub fn i64_to_f32_bits(x: i64) -> (r: u32)
    ensures
        r == int_to_f32(x as int),
{
    let b = int_to_float_bits_exec(x, 23, 127, 31);
    b as u32
}

/// The `double` bit pattern of the value nearest to `x`.
pub fn i64_to_f64_bits(x: i64) -> (r: u64)
    ensures
        r == int_to_f64(x as int),
{
    int_to_float_bits_exec(x, 52, 1023, 63)
}

} // verus!
