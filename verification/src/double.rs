//! Double-precision values by their bits: the few questions that a configuration
//! asks of a number, answered in integer arithmetic.
use vstd::arithmetic::div_mod::{lemma_div_denominator, lemma_div_is_ordered_by_denominator};
use vstd::arithmetic::power2::{lemma_pow2_pos, lemma_pow2_unfold, pow2};
use vstd::prelude::*;

verus! {

/// Bits of the double 1.
pub const ONE_BITS: u64 = 0x3FF0_0000_0000_0000;

/// Bits of the double one quarter.
pub const QUARTER_BITS: u64 = 0x3FD0_0000_0000_0000;

/// Bits of the double one sixteenth.
pub const SIXTEENTH_BITS: u64 = 0x3FB0_0000_0000_0000;

/// Two to the 52nd: the weight of the implicit bit of a normal double.
pub const IMPLICIT: u64 = 0x10_0000_0000_0000;

/// Two to the 53rd: one more than the largest significand.
pub const SIGNIFICANDS: u64 = 0x20_0000_0000_0000;

/// The sign bit is set.
pub open spec fn is_negative(bits: u64) -> bool {
    bits >= 0x8000_0000_0000_0000
}

/// The exponent field.
pub open spec fn exponent_field(bits: u64) -> int {
    (bits as int / IMPLICIT as int) % 2048
}

/// The integer significand, implicit bit included for a normal double.
pub open spec fn significand(bits: u64) -> int {
    if exponent_field(bits) == 0 {
        bits as int % IMPLICIT as int
    } else {
        bits as int % IMPLICIT as int + IMPLICIT as int
    }
}

/// How many halvings separate the integer significand of a double below one from
/// its magnitude.
pub open spec fn halvings(bits: u64) -> int {
    if exponent_field(bits) == 0 {
        1074
    } else {
        1075 - exponent_field(bits)
    }
}

/// A double that is not a NaN is below 1.
pub open spec fn is_below_one(bits: u64) -> bool {
    is_negative(bits) || bits < ONE_BITS
}

/// A double is finite and above 0.
pub open spec fn is_positive_finite(bits: u64) -> bool {
    0 < bits < 0x7FF0_0000_0000_0000
}

/// How often `x` has to be halved to fit a 53-bit significand.
pub open spec fn excess_bits(x: nat) -> nat
    decreases x,
{
    if x < SIGNIFICANDS {
        0
    } else {
        1 + excess_bits(x / 2)
    }
}

/// `x` rounded to 53 significant bits, ties to even.
pub open spec fn nearest_double(x: nat) -> nat {
    let unit = pow2(excess_bits(x));
    let q = x / unit;
    let r = x % unit;
    if 2 * r > unit || (2 * r == unit && q % 2 == 1) {
        (q + 1) * unit
    } else {
        q * unit
    }
}

/// The integer part of the double product of `count` and a double below one, as a
/// float-to-integer cast yields it: a negative product gives 0.
pub open spec fn scaled_floor(count: usize, bits: u64) -> usize {
    if is_negative(bits) {
        0
    } else {
        let product = nearest_double(
            (nearest_double(count as nat) * significand(bits)) as nat,
        );
        let floor = product as int / pow2(halvings(bits) as nat) as int;
        if floor > usize::MAX {
            usize::MAX
        } else {
            floor as usize
        }
    }
}

/// Whether a double that is not a NaN is below 1.
pub fn below_one(bits: u64) -> (r: bool)
    ensures
        r == is_below_one(bits),
{
    bits >= 0x8000_0000_0000_0000 || bits < ONE_BITS
}

/// Whether a double is finite and above 0.
pub fn positive_finite(bits: u64) -> (r: bool)
    ensures
        r == is_positive_finite(bits),
{
    0 < bits && bits < 0x7FF0_0000_0000_0000
}

fn round_to_double(x: u128) -> (r: u128)
    requires
        x < 0x0080_0000_0000_0000_0000_0000_0000_0000,
    ensures
        r == nearest_double(x as nat),
        r <= x + x,
{
    let mut head: u128 = x;
    let mut unit: u128 = 1;
    let ghost mut steps: nat = 0;
    proof {
        vstd::arithmetic::power2::lemma2_to64();
    }
    while head >= SIGNIFICANDS as u128
        invariant
            x < 0x0080_0000_0000_0000_0000_0000_0000_0000,
            unit == pow2(steps),
            unit >= 1,
            unit <= x || unit == 1,
            head == x / unit,
            unit * head <= x,
            excess_bits(x as nat) == steps + excess_bits(head as nat),
        decreases head,
    {
        proof {
            lemma_pow2_unfold((steps + 1) as nat);
            lemma_div_denominator(x as int, unit as int, 2);
            assert(unit * head <= x && head >= 2 ==> unit * 2 <= x) by (nonlinear_arith);
            let half = (head / 2) as int;
            assert(2 * half <= head);
            assert(unit * 2 * half <= unit * head) by (nonlinear_arith)
                requires
                    2 * half <= head,
            ;
            steps = steps + 1;
        }
        head = head / 2;
        unit = unit * 2;
    }
    proof {
        vstd::arithmetic::div_mod::lemma_fundamental_div_mod(x as int, unit as int);
    }
    let rest: u128 = x % unit;
    proof {
        assert(unit * head + rest == x);
        assert(unit * (head + 1) == unit * head + unit) by (nonlinear_arith);
        assert((head + 1) * unit == unit * (head + 1)) by (nonlinear_arith);
        assert(head * unit == unit * head) by (nonlinear_arith);
        assert(x as nat / pow2(steps) == head);
        assert(x as nat % pow2(steps) == rest);
    }
    if 2 * rest > unit || (2 * rest == unit && head % 2 == 1) {
        (head + 1) * unit
    } else {
        head * unit
    }
}

proof fn lemma_halve_again(x: int, done: nat)
    requires
        x >= 0,
    ensures
        (x / pow2(done) as int) / 2 == x / pow2((done + 1) as nat) as int,
{
    lemma_pow2_unfold((done + 1) as nat);
    lemma_pow2_pos(done);
    lemma_div_denominator(x, pow2(done) as int, 2);
}

/// `x` halved `times` times, rounded down.
fn shift_down(x: u128, times: u32) -> (r: u128)
    ensures
        r == x as int / pow2(times as nat) as int,
{
    let mut rest: u128 = x;
    let mut done: u32 = 0;
    proof {
        vstd::arithmetic::power2::lemma2_to64();
    }
    while done < times && rest > 0
        invariant
            done <= times,
            rest == x as int / pow2(done as nat) as int,
        decreases times - done,
    {
        proof {
            lemma_halve_again(x as int, done as nat);
        }
        rest = rest / 2;
        done += 1;
    }
    proof {
        if done < times {
            vstd::arithmetic::power2::lemma_pow2_strictly_increases(done as nat, times as nat);
            lemma_pow2_pos(done as nat);
            lemma_div_is_ordered_by_denominator(
                x as int,
                pow2(done as nat) as int,
                pow2(times as nat) as int,
            );
            lemma_pow2_pos(times as nat);
            vstd::arithmetic::div_mod::lemma_div_pos_is_pos(x as int, pow2(times as nat) as int);
        }
    }
    rest
}

/// The integer part of the double product of `count` and a double below one.
pub fn scale_count(count: usize, bits: u64) -> (r: usize)
    requires
        is_below_one(bits),
    ensures
        r == scaled_floor(count, bits),
{
    if bits >= 0x8000_0000_0000_0000 {
        return 0;
    }
    let field: u64 = (bits / IMPLICIT) % 2048;
    let low: u64 = bits % IMPLICIT;
    let whole: u64 = if field == 0 {
        low
    } else {
        low + IMPLICIT
    };
    assert(field <= 1022) by {
        assert(bits / IMPLICIT < 1023);
    }
    let times: u32 = if field == 0 {
        1074
    } else {
        (1075 - field) as u32
    };
    let rounded: u128 = round_to_double(count as u128);
    assert(rounded * whole < 0x0080_0000_0000_0000_0000_0000_0000_0000) by (nonlinear_arith)
        requires
            rounded <= 0x2_0000_0000_0000_0000,
            whole < 0x20_0000_0000_0000,
    ;
    let product: u128 = round_to_double(rounded * whole as u128);
    let floor: u128 = shift_down(product, times);
    if floor > usize::MAX as u128 {
        usize::MAX
    } else {
        floor as usize
    }
}

} // verus!
