use vstd::prelude::*;
use vstd::arithmetic::power2::{pow2, lemma_pow2_adds, lemma_pow2_pos, lemma_pow2_strictly_increases, lemma_pow2_unfold};
use crate::json::{JsonNumber, NumSpec, bits, round_to_double};

verus! {

/// The exact value `m * 2^(e - base)` of a magnitude, scaled to a common base exponent.
pub open spec fn mag_scaled(m: nat, e: int, base: int) -> int {
    (m * pow2((e - base) as nat)) as int
}

pub open spec fn min_int(a: int, b: int) -> int {
    if a <= b {
        a
    } else {
        b
    }
}

proof fn lemma_pow2_mono(a: nat, b: nat)
    requires
        a <= b,
    ensures
        pow2(a) <= pow2(b),
{
    if a < b {
        lemma_pow2_strictly_increases(a, b);
    }
}

/// `2^k` for `k < 64`.
fn pow2_exec(k: u32) -> (r: u64)
    requires
        k < 64,
    ensures
        r as nat == pow2(k as nat),
{
    let mut r: u64 = 1;
    let mut i: u32 = 0;
    proof {
        vstd::arithmetic::power2::lemma2_to64();
    }
    while i < k
        invariant
            i <= k < 64,
            r as nat == pow2(i as nat),
        decreases k - i,
    {
        proof {
            lemma_pow2_unfold((i + 1) as nat);
            lemma_pow2_strictly_increases((i + 1) as nat, 64);
            vstd::arithmetic::power2::lemma2_to64();
        }
        r = r * 2;
        i = i + 1;
    }
    r
}

/// Number of significant bits of `m`: `2^(b-1) <= m < 2^b`.
fn bit_length(m: u64) -> (b: u32)
    requires
        m > 0,
    ensures
        1 <= b <= 64,
        pow2((b - 1) as nat) <= m < pow2(b as nat),
        b as nat == bits(m as nat),
{
    let mut p: u128 = 1;
    let mut b: u32 = 0;
    proof {
        vstd::arithmetic::power2::lemma2_to64();
    }
    while p <= m as u128
        invariant
            b <= 64,
            p as nat == pow2(b as nat),
            b > 0 ==> pow2((b - 1) as nat) <= m,
            b == 0 ==> p == 1,
        decreases 64 - b,
    {
        proof {
            vstd::arithmetic::power2::lemma2_to64();
            if b >= 64 {
                lemma_pow2_mono(64, b as nat);
            }
            lemma_pow2_unfold((b + 1) as nat);
        }
        p = p * 2;
        b = b + 1;
    }
    proof {
        lemma_bits_bounds(m as nat);
        lemma_bits_unique(m as nat, b as nat);
    }
    b
}

proof fn lemma_bits_bounds(v: nat)
    requires
        v > 0,
    ensures
        bits(v) >= 1,
        pow2((bits(v) - 1) as nat) <= v < pow2(bits(v)),
    decreases v,
{
    vstd::arithmetic::power2::lemma2_to64();
    if v == 1 {
        assert(bits(0) == 0);
        assert(bits(1) == 1);
    } else {
        lemma_bits_bounds(v / 2);
        let b = bits(v / 2);
        lemma_pow2_unfold(b);
        lemma_pow2_unfold(b + 1);
        assert(bits(v) == b + 1);
    }
}

proof fn lemma_bits_unique(v: nat, b: nat)
    requires
        v > 0,
        b >= 1,
        pow2((b - 1) as nat) <= v < pow2(b),
    ensures
        b == bits(v),
{
    lemma_bits_bounds(v);
    let c = bits(v);
    if b < c {
        lemma_pow2_mono(b, (c - 1) as nat);
    } else if c < b {
        lemma_pow2_mono(c, (b - 1) as nat);
    }
}

/// Whether `m1 * 2^e1 < m2 * 2^e2`, compared exactly.
fn mag_less(m1: u64, e1: i32, m2: u64, e2: i32) -> (r: bool)
    ensures
        r == (mag_scaled(m1 as nat, e1 as int, min_int(e1 as int, e2 as int)) < mag_scaled(
            m2 as nat,
            e2 as int,
            min_int(e1 as int, e2 as int),
        )),
{
    let ghost base = min_int(e1 as int, e2 as int);
    let ghost scale1 = pow2((e1 - base) as nat);
    let ghost scale2 = pow2((e2 - base) as nat);
    proof {
        lemma_pow2_pos((e1 - base) as nat);
        lemma_pow2_pos((e2 - base) as nat);
    }
    if m1 == 0 {
        assert(m2 > 0 ==> m2 * scale2 > 0) by (nonlinear_arith)
            requires
                scale2 > 0,
        ;
        assert(m1 * scale1 == 0) by (nonlinear_arith)
            requires
                m1 == 0,
        ;
        assert(mag_scaled(m1 as nat, e1 as int, base) == m1 * scale1);
        assert(mag_scaled(m2 as nat, e2 as int, base) == m2 * scale2);
        assert(mag_scaled(m1 as nat, e1 as int, base) == 0);
        assert(m2 != 0 ==> mag_scaled(m2 as nat, e2 as int, base) > 0);
        assert(m2 == 0 ==> mag_scaled(m2 as nat, e2 as int, base) == 0) by {
            if m2 == 0 {
                assert(m2 * scale2 == 0) by (nonlinear_arith)
                    requires
                        m2 == 0,
                ;
            }
        }
        return m2 != 0;
    }
    if m2 == 0 {
        assert(m2 * scale2 == 0) by (nonlinear_arith)
            requires
                m2 == 0,
        ;
        assert(m1 * scale1 > 0) by (nonlinear_arith)
            requires
                scale1 > 0,
                m1 > 0,
        ;
        return false;
    }
    let b1 = bit_length(m1);
    let b2 = bit_length(m2);
    let t1: i64 = b1 as i64 + e1 as i64;
    let t2: i64 = b2 as i64 + e2 as i64;
    if t1 != t2 {
        proof {
            // The magnitude with the higher top bit is the larger.
            lemma_top_bit_order(m1 as nat, e1 as int, b1 as nat, m2 as nat, e2 as int, b2 as nat, base);
            lemma_top_bit_order(m2 as nat, e2 as int, b2 as nat, m1 as nat, e1 as int, b1 as nat, base);
        }
        return t1 < t2;
    }
    if e1 >= e2 {
        let d: u32 = (e1 as i64 - e2 as i64) as u32;
        assert(base == e2 as int);
        assert(d as int == b2 as int - b1 as int);
        let pw = pow2_exec(d);
        assert(scale2 == 1) by {
            vstd::arithmetic::power2::lemma2_to64();
        }
        proof {
            lemma_pow2_adds(b1 as nat, d as nat);
        }
        assert((m1 as nat) * pw < pow2(b1 as nat) * pw) by (nonlinear_arith)
            requires
                m1 < pow2(b1 as nat),
                pw > 0,
        ;
        proof {
            lemma_pow2_mono(b2 as nat, 64);
            vstd::arithmetic::power2::lemma2_to64();
        }
        let scaled: u128 = m1 as u128 * pw as u128;
        assert(mag_scaled(m1 as nat, e1 as int, base) == m1 * pw);
        assert(mag_scaled(m2 as nat, e2 as int, base) == m2 * scale2);
        assert(m2 * scale2 == m2) by (nonlinear_arith)
            requires
                scale2 == 1,
        ;
        return scaled < m2 as u128;
    } else {
        let d: u32 = (e2 as i64 - e1 as i64) as u32;
        assert(base == e1 as int);
        assert(d as int == b1 as int - b2 as int);
        let pw = pow2_exec(d);
        assert(scale1 == 1) by {
            vstd::arithmetic::power2::lemma2_to64();
        }
        assert((m2 as nat) * pw < pow2(b2 as nat) * pw) by (nonlinear_arith)
            requires
                m2 < pow2(b2 as nat),
                pw > 0,
        ;
        proof {
            lemma_pow2_adds(b2 as nat, d as nat);
        }
        proof {
            lemma_pow2_mono(b1 as nat, 64);
            vstd::arithmetic::power2::lemma2_to64();
        }
        let scaled: u128 = m2 as u128 * pw as u128;
        assert(mag_scaled(m2 as nat, e2 as int, base) == m2 * pw);
        assert(mag_scaled(m1 as nat, e1 as int, base) == m1 * scale1);
        assert(m1 * scale1 == m1) by (nonlinear_arith)
            requires
                scale1 == 1,
        ;
        return (m1 as u128) < scaled;
    }
}

/// When `m1`'s top bit sits lower than `m2`'s, `m1 * 2^e1 < m2 * 2^e2`.
proof fn lemma_top_bit_order(m1: nat, e1: int, b1: nat, m2: nat, e2: int, b2: nat, base: int)
    requires
        base <= e1,
        base <= e2,
        b1 >= 1,
        b2 >= 1,
        pow2((b1 - 1) as nat) <= m1 < pow2(b1),
        pow2((b2 - 1) as nat) <= m2 < pow2(b2),
    ensures
        b1 + e1 < b2 + e2 ==> mag_scaled(m1, e1, base) < mag_scaled(m2, e2, base),
{
    if b1 + e1 < b2 + e2 {
        let q1 = (e1 - base) as nat;
        let q2 = (e2 - base) as nat;
        lemma_pow2_pos(q1);
        lemma_pow2_pos(q2);
        // m1 * 2^q1 < 2^(b1 + q1) <= 2^(b2 - 1 + q2) <= m2 * 2^q2
        assert(m1 * pow2(q1) < pow2(b1) * pow2(q1)) by (nonlinear_arith)
            requires
                m1 < pow2(b1),
                pow2(q1) > 0,
        ;
        lemma_pow2_adds(b1, q1);
        lemma_pow2_adds((b2 - 1) as nat, q2);
        lemma_pow2_mono(b1 + q1, (b2 - 1 + q2) as nat);
        assert(pow2((b2 - 1) as nat) * pow2(q2) <= m2 * pow2(q2)) by (nonlinear_arith)
            requires
                pow2((b2 - 1) as nat) <= m2,
                pow2(q2) > 0,
        ;
    }
}

/// An integer magnitude rounded to the nearest double, ties to even.
fn round_magnitude(v: u64) -> (r: (u64, i32))
    ensures
        r.0 as nat == round_to_double(v as nat).0,
        r.1 as int == round_to_double(v as nat).1,
{
    if v == 0 {
        assert(bits(0) == 0);
        return (0, 0);
    }
    let b = bit_length(v);
    if b <= 53 {
        return (v, 0);
    }
    let k: u32 = b - 53;
    let pw = pow2_exec(k);
    let half = pow2_exec(k - 1);
    proof {
        lemma_pow2_pos(k as nat);
        lemma_pow2_mono(1, k as nat);
        vstd::arithmetic::power2::lemma2_to64();
    }
    let q = v / pw;
    let r = v % pw;
    proof {
        assert(q * pw <= v) by (nonlinear_arith)
            requires
                q == v / pw,
                pw > 0,
        ;
        assert(q * 2 <= v) by (nonlinear_arith)
            requires
                q * pw <= v,
                pw >= 2,
        ;
    }
    if r > half || (r == half && q % 2 == 1) {
        (q + 1, k as i32)
    } else {
        (q, k as i32)
    }
}

/// Sign, mantissa and binary exponent of a number coerced to a double.
fn parts(n: &JsonNumber) -> (r: (bool, u64, i32))
    requires
        n@.wf(),
    ensures
        r.0 == n@.is_negative(),
        r.1 as nat == n@.f64_mantissa(),
        r.2 as int == n@.f64_exp(),
{
    match n {
        JsonNumber::PosInt(v) => {
            let (m, e) = round_magnitude(*v);
            (false, m, e)
        },
        JsonNumber::NegInt(v) => {
            let mag = (0i128 - *v as i128) as u64;
            let (m, e) = round_magnitude(mag);
            (true, m, e)
        },
        JsonNumber::Float(f) => (f.negative, f.mantissa, f.exponent),
    }
}

/// Strict numeric order of two numbers coerced to doubles.
pub fn num_less(a: &JsonNumber, b: &JsonNumber) -> (r: bool)
    requires
        a@.wf(),
        b@.wf(),
    ensures
        r == a@.less(b@),
{
    let (na, ma, ea) = parts(a);
    let (nb, mb, eb) = parts(b);
    let ghost base = min_int(ea as int, eb as int);
    let ghost pa = pow2((ea - base) as nat);
    let ghost pb = pow2((eb - base) as nat);
    proof {
        lemma_pow2_pos((ea - base) as nat);
        lemma_pow2_pos((eb - base) as nat);
        assert(ma * pa >= 0 && mb * pb >= 0) by (nonlinear_arith)
            requires
                pa > 0,
                pb > 0,
        ;
        assert(ma > 0 ==> ma * pa > 0) by (nonlinear_arith)
            requires
                pa > 0,
        ;
        assert(mb > 0 ==> mb * pb > 0) by (nonlinear_arith)
            requires
                pb > 0,
        ;
        assert(ma == 0 ==> ma * pa == 0) by (nonlinear_arith);
        assert(mb == 0 ==> mb * pb == 0) by (nonlinear_arith);
    }
    if na && !nb {
        // A non-positive value is below a non-negative one unless both are zero.
        !(ma == 0 && mb == 0)
    } else if !na && nb {
        false
    } else if !na {
        mag_less(ma, ea, mb, eb)
    } else {
        assert(min_int(eb as int, ea as int) == base);
        mag_less(mb, eb, ma, ea)
    }
}

} // verus!
