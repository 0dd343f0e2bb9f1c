//! Half-precision and bfloat16 formats by their bits. A single-precision value is
//! its `u32` pattern, a half-precision value its `u16` pattern.
use vstd::arithmetic::power2::{lemma_pow2_adds, lemma_pow2_pos, lemma_pow2_unfold, pow2};
use vstd::prelude::*;

verus! {

/// Pattern of a quiet single-precision NaN.
pub const SINGLE_NAN: u32 = 0x7FC0_0000;

/// Pattern of the single-precision infinity.
pub const SINGLE_INFINITY: u32 = 0x7F80_0000;

/// Pattern of the half-precision infinity.
pub const HALF_INFINITY: u16 = 0x7C00;

/// Magnitude of a half in units of its smallest subnormal, for the pattern without
/// the sign. The pattern of infinity counts as the next power of two, where the
/// finite halves would go on.
pub open spec fn half_steps(q: nat) -> nat {
    let e = q / 1024;
    let m = q % 1024;
    if e == 0 {
        m
    } else {
        (1024 + m) * pow2((e - 1) as nat)
    }
}

/// Magnitude of a finite single in units of its smallest subnormal, for the pattern
/// without the sign.
pub open spec fn single_steps(a: nat) -> nat {
    let e = a / 0x80_0000;
    let m = a % 0x80_0000;
    if e == 0 {
        m
    } else {
        (0x80_0000 + m) * pow2((e - 1) as nat)
    }
}

/// Units of the smallest single subnormal in one unit of the smallest half subnormal.
pub open spec fn step_ratio() -> nat {
    pow2(125)
}

/// How often a subnormal significand has to be doubled to become normal.
pub open spec fn doublings(m: nat) -> nat
    decreases 2048 - m,
{
    if m == 0 || m >= 1024 {
        0
    } else {
        1 + doublings(2 * m)
    }
}

/// The single-precision pattern of a half: the same number with the same sign; the
/// one quiet NaN for any NaN.
pub open spec fn widened_half(h: u16) -> u32 {
    let sign: int = if h >= 0x8000 {
        0x8000_0000
    } else {
        0
    };
    let q = h as nat % 0x8000;
    let e = q / 1024;
    let m = q % 1024;
    if e == 31 {
        if m == 0 {
            (sign + SINGLE_INFINITY) as u32
        } else {
            SINGLE_NAN
        }
    } else if q == 0 {
        sign as u32
    } else if e == 0 {
        let k = doublings(m);
        (sign + (113 - k) * 0x80_0000 + (m * pow2(k) - 1024) * 8192) as u32
    } else {
        (sign + (e + 112) * 0x80_0000 + m * 8192) as u32
    }
}

/// Rounding a magnitude, in single-precision steps, to the half pattern `q`: to the
/// nearest, a tie to the even pattern, and past the largest half to infinity.
pub open spec fn rounds_to_half(x: nat, q: nat) -> bool {
    &&& q <= HALF_INFINITY
    &&& q > 0 ==> {
        let low = (half_steps((q - 1) as nat) + half_steps(q)) * step_ratio();
        2 * x >= low && (2 * x == low ==> q % 2 == 0)
    }
    &&& q < HALF_INFINITY ==> {
        let high = (half_steps(q) + half_steps(q + 1)) * step_ratio();
        2 * x <= high && (2 * x == high ==> q % 2 == 0)
    }
}

/// `h` is the half of the single-precision pattern `bits`: the sign kept, an infinity
/// and a NaN kept as such, a finite value rounded to the nearest half.
pub open spec fn narrows_to_half(bits: u32, h: u16) -> bool {
    let a = bits as nat % 0x8000_0000;
    &&& (h >= 0x8000) == (bits >= 0x8000_0000)
    &&& if a > SINGLE_INFINITY {
        h % 0x8000 == 0x7E00
    } else if a == SINGLE_INFINITY {
        h % 0x8000 == HALF_INFINITY
    } else {
        rounds_to_half(single_steps(a), (h % 0x8000) as nat)
    }
}

/// The bfloat16 neighbour of a single-precision pattern, widened again: the nearest
/// multiple of 65536, a tie to the even one; infinities and NaNs are kept.
pub open spec fn is_nearest_bf16(bits: u32, r: u32) -> bool {
    if (bits as int / 0x80_0000) % 256 == 255 {
        r == bits
    } else {
        &&& r % 65536 == 0
        &&& -32768 <= r - bits <= 32768
        &&& (r - bits == 32768 || bits - r == 32768) ==> (r / 65536) % 2 == 0
    }
}

proof fn lemma_half_step_grows(q: nat)
    requires
        q < 0x8000,
    ensures
        half_steps(q) < half_steps(q + 1),
        half_steps(q + 1) - half_steps(q) == (if q / 1024 == 0 {
            1
        } else {
            pow2((q / 1024 - 1) as nat) as int
        }),
{
    let e = q / 1024;
    let m = q % 1024;
    vstd::arithmetic::power2::lemma2_to64();
    if e > 0 {
        lemma_pow2_pos((e - 1) as nat);
    }
    if m < 1023 {
        assert((q + 1) / 1024 == e && (q + 1) % 1024 == m + 1);
        if e > 0 {
            assert(half_steps(q + 1) == (1024 + (m + 1)) * pow2((e - 1) as nat));
            assert((1024 + m + 1) * pow2((e - 1) as nat) == (1024 + m) * pow2((e - 1) as nat) + pow2(
                (e - 1) as nat,
            )) by (nonlinear_arith);
        }
    } else {
        assert((q + 1) / 1024 == e + 1 && (q + 1) % 1024 == 0);
        assert(half_steps(q + 1) == (1024 + 0) * pow2(e));
        if e > 0 {
            lemma_pow2_unfold(e);
            assert(1024 * (2 * pow2((e - 1) as nat)) == (1024 + 1023) * pow2((e - 1) as nat) + pow2(
                (e - 1) as nat,
            )) by (nonlinear_arith);
        }
    }
}

proof fn lemma_half_steps_monotone(a: nat, b: nat)
    requires
        a < b <= 0x8000,
    ensures
        half_steps(a) < half_steps(b),
    decreases b - a,
{
    lemma_half_step_grows((b - 1) as nat);
    if a < b - 1 {
        lemma_half_steps_monotone(a, (b - 1) as nat);
    }
}

/// A magnitude `rem` of `unit` parts above the half `q` rounds to `q` or its successor.
proof fn lemma_round_between(x: nat, q: nat, rem: nat, unit: nat, part: nat)
    requires
        q < HALF_INFINITY,
        rem < unit,
        part > 0,
        x == half_steps(q) * step_ratio() + rem * part,
        unit * part == (half_steps(q + 1) - half_steps(q)) * step_ratio(),
    ensures
        (2 * rem < unit || (2 * rem == unit && q % 2 == 0)) ==> rounds_to_half(x, q),
        !(2 * rem < unit || (2 * rem == unit && q % 2 == 0)) ==> rounds_to_half(x, q + 1),
{
    let s = step_ratio();
    lemma_pow2_pos(125);
    let here = half_steps(q);
    let next = half_steps(q + 1);
    lemma_half_step_grows(q);
    assert((next - here) * s == next * s - here * s) by (nonlinear_arith);
    assert((here + next) * s == here * s + next * s) by (nonlinear_arith);
    assert(2 * rem < unit ==> 2 * (rem * part) < unit * part) by (nonlinear_arith)
        requires
            part > 0,
    ;
    assert(2 * rem > unit ==> 2 * (rem * part) > unit * part) by (nonlinear_arith)
        requires
            part > 0,
    ;
    assert(2 * rem == unit ==> 2 * (rem * part) == unit * part) by (nonlinear_arith);
    assert(rem * part < unit * part) by (nonlinear_arith)
        requires
            part > 0,
            rem < unit,
    ;
    assert(rem * part >= 0) by (nonlinear_arith);
    if q > 0 {
        let before = half_steps((q - 1) as nat);
        lemma_half_step_grows((q - 1) as nat);
        assert((before + here) * s < 2 * (here * s)) by (nonlinear_arith)
            requires
                before < here,
                s > 0,
        ;
    }
    if q + 1 < HALF_INFINITY {
        let after = half_steps(q + 2);
        lemma_half_step_grows(q + 1);
        assert((next + after) * s > 2 * (next * s)) by (nonlinear_arith)
            requires
                after > next,
                s > 0,
        ;
    }
}

/// Only one pattern is the rounding of a magnitude.
pub proof fn lemma_half_rounding_unique(x: nat, p: nat, q: nat)
    requires
        rounds_to_half(x, p),
        rounds_to_half(x, q),
    ensures
        p == q,
{
    if p < q {
        lemma_rounding_ordered(x, p, q);
    }
    if q < p {
        lemma_rounding_ordered(x, q, p);
    }
}

proof fn lemma_rounding_ordered(x: nat, p: nat, q: nat)
    requires
        rounds_to_half(x, p),
        p < q,
    ensures
        !rounds_to_half(x, q),
{
    if q <= HALF_INFINITY {
        lemma_midpoints_ordered(x, p, q);
    }
}

proof fn lemma_midpoints_ordered(x: nat, p: nat, q: nat)
    requires
        rounds_to_half(x, p),
        p < q <= HALF_INFINITY,
    ensures
        !rounds_to_half(x, q),
{
    let s = step_ratio();
    lemma_pow2_pos(125);
    let high = (half_steps(p) + half_steps(p + 1)) * s;
    let low = (half_steps((q - 1) as nat) + half_steps(q)) * s;
    if q == p + 1 {
        assert(low == high);
    } else {
        lemma_half_steps_monotone(p, (q - 1) as nat);
        lemma_half_steps_monotone(p + 1, q);
        assert(low > high) by (nonlinear_arith)
            requires
                low == (half_steps((q - 1) as nat) + half_steps(q)) * s,
                high == (half_steps(p) + half_steps(p + 1)) * s,
                half_steps(p) < half_steps((q - 1) as nat),
                half_steps(p + 1) < half_steps(q),
                s > 0,
        ;
    }
}

proof fn lemma_doublings(m: nat)
    requires
        0 < m < 1024,
    ensures
        1 <= doublings(m) <= 10,
        1024 <= m * pow2(doublings(m)) < 2048,
{
    vstd::arithmetic::power2::lemma2_to64();
    assert(m * pow2(10) >= 1024) by (nonlinear_arith)
        requires
            m >= 1,
            pow2(10) == 1024,
    ;
    lemma_doublings_from(m, 10);
}

proof fn lemma_doublings_from(m: nat, bound: nat)
    requires
        0 < m < 2048,
        m < 1024 ==> m * pow2(bound) >= 1024,
        bound <= 10,
    ensures
        m < 1024 ==> 1 <= doublings(m) <= bound,
        doublings(m) <= bound,
        m < 1024 ==> 1024 <= m * pow2(doublings(m)) < 2048,
        m >= 1024 ==> doublings(m) == 0,
    decreases bound,
{
    vstd::arithmetic::power2::lemma2_to64();
    if m < 1024 {
        if bound == 0 {
            assert(m * pow2(0) == m) by (nonlinear_arith)
                requires
                    pow2(0) == 1,
            ;
        } else {
            lemma_pow2_unfold(bound);
            let b = (bound - 1) as nat;
            assert(m * (2 * pow2(b)) == (2 * m) * pow2(b)) by (nonlinear_arith);
            lemma_doublings_from(2 * m, b);
            let k = doublings(2 * m);
            lemma_pow2_unfold(k + 1);
            assert(m * (2 * pow2(k)) == (2 * m) * pow2(k)) by (nonlinear_arith);
            if 2 * m >= 1024 {
                assert((2 * m) * pow2(0) == 2 * m) by (nonlinear_arith)
                    requires
                        pow2(0) == 1,
                ;
            }
        }
    }
}

/// Widening a half is exact: the same sign and, for a finite half, the same number.
pub proof fn law_widening_is_exact(h: u16)
    ensures
        (h % 0x8000 < HALF_INFINITY) ==> {
            let w = widened_half(h);
            &&& (w >= 0x8000_0000) == (h >= 0x8000)
            &&& w as nat % 0x8000_0000 < SINGLE_INFINITY
            &&& single_steps(w as nat % 0x8000_0000) == half_steps((h % 0x8000) as nat)
                * step_ratio()
        },
{
    if h % 0x8000 < HALF_INFINITY {
        let q = h as nat % 0x8000;
        let e = q / 1024;
        let m = q % 1024;
        vstd::arithmetic::power2::lemma2_to64();
        if q == 0 {
            assert(single_steps(0) == 0);
            assert(0 * step_ratio() == 0) by (nonlinear_arith);
        } else if e == 0 {
            lemma_doublings(m);
            let k = doublings(m);
            let a = ((113 - k) * 0x80_0000 + (m * pow2(k) - 1024) * 8192) as nat;
            assert(a / 0x80_0000 == 113 - k && a % 0x80_0000 == (m * pow2(k) - 1024) * 8192);
            lemma_pow2_adds(k, 13);
            lemma_pow2_adds((k + 13) as nat, (112 - k) as nat);
            let p = pow2(k);
            let r = pow2((112 - k) as nat);
            assert(pow2(13) == 8192);
            assert((m * p * 8192) * r == m * ((p * 8192) * r)) by (nonlinear_arith);
            assert(single_steps(a) == m * step_ratio());
        } else {
            let a = ((e + 112) * 0x80_0000 + m * 8192) as nat;
            assert(a / 0x80_0000 == e + 112 && a % 0x80_0000 == m * 8192);
            lemma_pow2_adds(13, (e + 111) as nat);
            lemma_pow2_adds((e - 1) as nat, 125);
            let r = pow2((e + 111) as nat);
            let t = pow2((e - 1) as nat);
            assert(pow2(13) == 8192);
            assert((0x80_0000 + m * 8192) * r == (1024 + m) * (8192 * r)) by (nonlinear_arith);
            assert((1024 + m) * (t * pow2(125)) == ((1024 + m) * t) * pow2(125))
                by (nonlinear_arith);
            assert(single_steps(a) == half_steps(q) * step_ratio());
        }
    }
}

/// Narrowing undoes widening: every finite half comes back from its single-precision
/// form, whichever half the narrowing picks.
pub proof fn law_narrowing_undoes_widening(h: u16, back: u16)
    requires
        h % 0x8000 < HALF_INFINITY,
        narrows_to_half(widened_half(h), back),
    ensures
        back == h,
{
    law_widening_is_exact(h);
    let q = (h % 0x8000) as nat;
    let s = step_ratio();
    lemma_pow2_pos(125);
    let x = half_steps(q) * s;
    if q > 0 {
        lemma_half_step_grows((q - 1) as nat);
        assert((half_steps((q - 1) as nat) + half_steps(q)) * s < 2 * x) by (nonlinear_arith)
            requires
                half_steps((q - 1) as nat) < half_steps(q),
                s > 0,
                x == half_steps(q) * s,
        ;
    }
    lemma_half_step_grows(q);
    assert((half_steps(q) + half_steps(q + 1)) * s > 2 * x) by (nonlinear_arith)
        requires
            half_steps(q) < half_steps(q + 1),
            s > 0,
            x == half_steps(q) * s,
    ;
    assert(rounds_to_half(x, q));
    lemma_half_rounding_unique(x, q, (back % 0x8000) as nat);
}

/// One half, widened to single precision.
pub fn half_to_f32(h: u16) -> (r: u32)
    ensures
        r == widened_half(h),
{
    let sign: u32 = if h >= 0x8000 {
        0x8000_0000
    } else {
        0
    };
    let q: u32 = (h % 0x8000) as u32;
    let e: u32 = q / 1024;
    let m: u32 = q % 1024;
    if e == 31 {
        if m == 0 {
            sign + SINGLE_INFINITY
        } else {
            SINGLE_NAN
        }
    } else if q == 0 {
        sign
    } else if e == 0 {
        let mut whole: u32 = m;
        let mut k: u32 = 0;
        proof {
            lemma_doublings(m as nat);
            vstd::arithmetic::power2::lemma2_to64();
        }
        assert(m * pow2(0) == m) by (nonlinear_arith)
            requires
                pow2(0) == 1,
        ;
        while whole < 1024
            invariant
                0 < whole < 2048,
                0 < m < 1024,
                doublings(m as nat) == k + doublings(whole as nat),
                whole == m * pow2(k as nat),
                k <= doublings(m as nat) <= 10,
            decreases 2048 - whole,
        {
            proof {
                lemma_pow2_unfold((k + 1) as nat);
                let p = pow2(k as nat);
                assert(m * (2 * p) == 2 * (m * p)) by (nonlinear_arith);
                assert(doublings(whole as nat) >= 1);
            }
            whole = whole * 2;
            k = k + 1;
        }
        assert(doublings(whole as nat) == 0);
        sign + (113 - k) * 0x80_0000 + (whole - 1024) * 8192
    } else {
        sign + (e + 112) * 0x80_0000 + m * 8192
    }
}

/// Round a subnormal result: `mant` shifted down by `shift` bits.
fn round_shifted(mant: u32, shift: u32) -> (r: u32)
    requires
        mant < 0x100_0000,
        14 <= shift <= 24,
    ensures
        ({
            let unit = pow2(shift as nat);
            let q = mant as nat / unit;
            let rem = mant as nat % unit;
            r == (if 2 * rem < unit || (2 * rem == unit && q % 2 == 0) {
                q
            } else {
                q + 1
            })
        }),
        r <= 1024,
{
    let mut unit: u32 = 1;
    let mut done: u32 = 0;
    proof {
        vstd::arithmetic::power2::lemma2_to64();
    }
    while done < shift
        invariant
            done <= shift,
            shift <= 24,
            unit == pow2(done as nat),
            unit <= 0x100_0000,
            done < 24 ==> unit <= 0x80_0000,
        decreases shift - done,
    {
        proof {
            vstd::arithmetic::power2::lemma2_to64();
            lemma_pow2_unfold((done + 1) as nat);
            if done + 1 < 23 {
                vstd::arithmetic::power2::lemma_pow2_strictly_increases((done + 1) as nat, 23);
            }
            vstd::arithmetic::power2::lemma2_to64_rest();
        }
        unit = unit * 2;
        done = done + 1;
    }
    let q: u32 = mant / unit;
    let rem: u32 = mant % unit;
    proof {
        vstd::arithmetic::power2::lemma2_to64();
        if shift > 14 {
            vstd::arithmetic::power2::lemma_pow2_strictly_increases(14, shift as nat);
        }
        assert(unit >= 16384);
        assert(q <= 1023) by (nonlinear_arith)
            requires
                q == mant / unit,
                mant < 0x100_0000,
                unit >= 16384,
        ;
    }
    if 2 * rem < unit || (2 * rem == unit && q % 2 == 0) {
        q
    } else {
        q + 1
    }
}

/// Round a finite magnitude to a half pattern.
fn narrow_magnitude(abs: u32) -> (q: u16)
    requires
        abs < SINGLE_INFINITY,
    ensures
        rounds_to_half(single_steps(abs as nat), q as nat),
{
    let field: u32 = abs / 0x80_0000;
    let mant: u32 = abs % 0x80_0000;
    if field >= 143 {
        proof {
            lemma_large_is_infinite(abs as nat);
        }
        return HALF_INFINITY;
    }
    if field < 102 {
        proof {
            lemma_small_is_zero(abs as nat);
        }
        return 0;
    }
    if field <= 112 {
        let q: u32 = round_shifted(mant + 0x80_0000, 126 - field);
        proof {
            lemma_subnormal_rounds(abs as nat, q as nat);
        }
        return q as u16;
    }
    let base: u32 = (field - 112) * 1024 + mant / 8192;
    let rem: u32 = mant % 8192;
    proof {
        lemma_normal_rounds(abs as nat);
    }
    if 2 * rem < 8192 || (2 * rem == 8192 && base % 2 == 0) {
        base as u16
    } else {
        (base + 1) as u16
    }
}

/// One single, narrowed to a half: to the nearest, ties to even.
pub fn f32_to_f16_bits(bits: u32) -> (h: u16)
    ensures
        narrows_to_half(bits, h),
{
    let sign: u16 = if bits >= 0x8000_0000 {
        0x8000
    } else {
        0
    };
    let abs: u32 = bits % 0x8000_0000;
    if abs > SINGLE_INFINITY {
        return sign + 0x7E00;
    }
    if abs == SINGLE_INFINITY {
        return sign + HALF_INFINITY;
    }
    let q: u16 = narrow_magnitude(abs);
    let h: u16 = sign + q;
    assert(h % 0x8000 == q);
    h
}

proof fn lemma_large_is_infinite(a: nat)
    requires
        a < SINGLE_INFINITY,
        a / 0x80_0000 >= 143,
    ensures
        rounds_to_half(single_steps(a), HALF_INFINITY as nat),
{
    let e = a / 0x80_0000;
    let m = a % 0x80_0000;
    let s = step_ratio();
    vstd::arithmetic::power2::lemma2_to64();
    lemma_pow2_pos(125);
    let top = half_steps(0x7C00);
    assert(top == 1024 * pow2(30));
    lemma_half_step_grows(0x7BFF);
    lemma_pow2_adds(10, 30);
    lemma_pow2_adds(40, 125);
    assert(top * s == pow2(165));
    lemma_pow2_adds(23, 142);
    if e > 143 {
        vstd::arithmetic::power2::lemma_pow2_strictly_increases(142, (e - 1) as nat);
    }
    assert(single_steps(a) >= pow2(165)) by (nonlinear_arith)
        requires
            single_steps(a) == (0x80_0000 + m) * pow2((e - 1) as nat),
            pow2((e - 1) as nat) >= pow2(142),
            pow2(165) == 0x80_0000 * pow2(142),
            m >= 0,
            pow2(142) >= 0,
    ;
    let low = (half_steps(0x7BFF) + top) * s;
    assert(low < 2 * (top * s)) by (nonlinear_arith)
        requires
            low == (half_steps(0x7BFF) + top) * s,
            half_steps(0x7BFF) < top,
            s > 0,
    ;
}

proof fn lemma_small_is_zero(a: nat)
    requires
        a / 0x80_0000 < 102,
    ensures
        rounds_to_half(single_steps(a), 0),
{
    let e = a / 0x80_0000;
    let m = a % 0x80_0000;
    vstd::arithmetic::power2::lemma2_to64();
    lemma_pow2_adds(24, 100);
    lemma_pow2_unfold(125);
    lemma_pow2_pos(100);
    assert(pow2(24) == 0x100_0000) by {
        vstd::arithmetic::power2::lemma2_to64();
    }
    assert(single_steps(a) < pow2(124)) by {
        if e == 0 {
            assert(0x100_0000 * pow2(100) >= 0x100_0000) by (nonlinear_arith)
                requires
                    pow2(100) >= 1,
            ;
        } else {
            if e < 101 {
                vstd::arithmetic::power2::lemma_pow2_strictly_increases((e - 1) as nat, 100);
            }
            assert((0x80_0000 + m) * pow2((e - 1) as nat) < 0x100_0000 * pow2(100))
                by (nonlinear_arith)
                requires
                    m < 0x80_0000,
                    pow2((e - 1) as nat) <= pow2(100),
                    pow2(100) >= 1,
            ;
        }
    }
    assert(half_steps(0) == 0 && half_steps(1) == 1);
    assert((0 + 1) * step_ratio() == step_ratio()) by (nonlinear_arith);
}

proof fn lemma_subnormal_rounds(a: nat, r: nat)
    requires
        102 <= a / 0x80_0000 <= 112,
        ({
            let unit = pow2((126 - a / 0x80_0000) as nat);
            let mant = 0x80_0000 + a % 0x80_0000;
            let q = mant / unit;
            let rem = mant % unit;
            r == (if 2 * rem < unit || (2 * rem == unit && q % 2 == 0) {
                q
            } else {
                q + 1
            })
        }),
    ensures
        rounds_to_half(single_steps(a), r),
{
    let e = a / 0x80_0000;
    let mant = 0x80_0000 + a % 0x80_0000;
    let shift = (126 - e) as nat;
    let unit = pow2(shift);
    let part = pow2((e - 1) as nat);
    lemma_pow2_pos(shift);
    lemma_pow2_pos((e - 1) as nat);
    lemma_pow2_adds(shift, (e - 1) as nat);
    assert(unit * part == step_ratio());
    let q = mant / unit;
    let rem = mant % unit;
    vstd::arithmetic::power2::lemma2_to64();
    if shift > 14 {
        vstd::arithmetic::power2::lemma_pow2_strictly_increases(14, shift);
    }
    vstd::arithmetic::div_mod::lemma_fundamental_div_mod(mant as int, unit as int);
    assert(q <= 1023) by (nonlinear_arith)
        requires
            q == mant / unit,
            mant < 0x100_0000,
            unit >= 16384,
    ;
    assert(rem < unit);
    assert(half_steps(q) == q);
    lemma_half_step_grows(q);
    assert(q / 1024 == 0);
    assert((unit * q + rem) * part == q * (unit * part) + rem * part) by (nonlinear_arith);
    assert(single_steps(a) == q * step_ratio() + rem * part);
    assert((half_steps(q + 1) - half_steps(q)) * step_ratio() == step_ratio()) by (nonlinear_arith)
        requires
            half_steps(q + 1) - half_steps(q) == 1,
    ;
    lemma_round_between(single_steps(a), q, rem, unit, part);
}

proof fn lemma_normal_rounds(a: nat)
    requires
        113 <= a / 0x80_0000 < 143,
    ensures
        ({
            let m = a % 0x80_0000;
            let base = ((a / 0x80_0000 - 112) * 1024 + m / 8192) as nat;
            let rem = m % 8192;
            &&& base < HALF_INFINITY
            &&& (2 * rem < 8192 || (2 * rem == 8192 && base % 2 == 0)) ==> rounds_to_half(
                single_steps(a),
                base,
            )
            &&& !(2 * rem < 8192 || (2 * rem == 8192 && base % 2 == 0)) ==> rounds_to_half(
                single_steps(a),
                base + 1,
            )
        }),
{
    let field = a / 0x80_0000;
    let m = a % 0x80_0000;
    let e = (field - 112) as nat;
    let top = m / 8192;
    let rem = m % 8192;
    let base = (e * 1024 + top) as nat;
    assert(top < 1024);
    assert(base / 1024 == e && base % 1024 == top);
    assert(base <= 0x7BFF);
    let part = pow2((field - 1) as nat);
    let t = pow2((e - 1) as nat);
    lemma_pow2_pos((field - 1) as nat);
    vstd::arithmetic::power2::lemma2_to64();
    assert(pow2(13) == 8192);
    lemma_pow2_adds(13, (field - 1) as nat);
    lemma_pow2_adds((e - 1) as nat, 125);
    assert(8192 * part == t * step_ratio());
    assert(half_steps(base) == (1024 + top) * t);
    assert((0x80_0000 + m) == (1024 + top) * 8192 + rem);
    assert(((1024 + top) * 8192 + rem) * part == (1024 + top) * (8192 * part) + rem * part)
        by (nonlinear_arith);
    assert((1024 + top) * (t * step_ratio()) == ((1024 + top) * t) * step_ratio())
        by (nonlinear_arith);
    assert(single_steps(a) == half_steps(base) * step_ratio() + rem * part);
    lemma_half_step_grows(base);
    assert((half_steps(base + 1) - half_steps(base)) * step_ratio() == t * step_ratio());
    lemma_round_between(single_steps(a), base, rem, 8192, part);
}

/// Round a single to bfloat16 precision, ties to even.
pub fn round_bf16_f32(bits: u32) -> (r: u32)
    ensures
        is_nearest_bf16(bits, r),
{
    if (bits / 0x80_0000) % 256 == 255 {
        return bits;
    }
    let high: u32 = bits / 65536;
    let rem: u32 = bits % 65536;
    assert(high < 65535) by {
        if high == 65535 {
            assert(bits >= 0xFFFF_0000);
        }
    }
    if rem > 32768 || (rem == 32768 && high % 2 == 1) {
        (high + 1) * 65536
    } else {
        high * 65536
    }
}

/// Rounding to bfloat16 leaves a bfloat16 value as it is.
pub proof fn law_bf16_rounding_is_stable(bits: u32, r: u32, again: u32)
    requires
        is_nearest_bf16(bits, r),
        is_nearest_bf16(r, again),
    ensures
        again == r,
{
}

} // verus!
