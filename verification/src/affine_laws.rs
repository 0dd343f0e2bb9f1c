//! What dequantization does, said of whole buffers: which byte, which scale and which bias
//! every element comes from.
use vstd::arithmetic::div_mod::{
    lemma_fundamental_div_mod, lemma_fundamental_div_mod_converse,
};
use vstd::arithmetic::power::pow;
use vstd::prelude::*;

use crate::affine::{
    affine_error, groups, is_dequantized, is_dequantized_bf16, is_dequantized_stack,
    is_rounded_result, lanes, quantized_at, row_band, slab, slice_error, stack_error, widened,
    AffineView, FloatFormat,
};
use crate::halves::widened_half;

verus! {

/// The sizes of a weight agree.
pub open spec fn is_accepted(v: AffineView) -> bool {
    affine_error(
        v.packed.len(),
        v.scales.len(),
        v.biases.len(),
        v.out,
        v.in_packed,
        v.bits,
        v.group_size,
    ) is None
}

/// The value number `k` in a buffer of packed values: the byte itself at 8 bits, the low
/// half of a byte before its high half at 4 bits.
pub open spec fn packed_value(packed: Seq<u8>, bits: usize, k: int) -> int {
    if bits == 8 {
        packed[k] as int
    } else if k % 2 == 0 {
        packed[k / 2] as int % 16
    } else {
        packed[k / 2] as int / 16
    }
}

/// Cutting `k` by rows of `n` parts of `d` and then within the row is cutting it by `d`.
proof fn lemma_nested_cut(k: int, w: int, d: int, n: int)
    requires
        k >= 0,
        d > 0,
        n > 0,
        w == n * d,
    ensures
        w > 0,
        (k / w) * n + (k % w) / d == k / d,
        (k % w) % d == k % d,
{
    assert(w > 0) by (nonlinear_arith)
        requires
            w == n * d,
            n > 0,
            d > 0,
    ;
    let o = k / w;
    let i = k % w;
    lemma_fundamental_div_mod(k, w);
    lemma_fundamental_div_mod(i, d);
    let q = i / d;
    let r = i % d;
    assert(k == (o * n + q) * d + r) by (nonlinear_arith)
        requires
            k == w * o + i,
            i == d * q + r,
            w == n * d,
    ;
    lemma_fundamental_div_mod_converse(k, d, o * n + q, r);
}

proof fn lemma_byte_at(low: int, byte: int, rest: int, unit: int)
    requires
        0 <= low < unit,
        0 <= byte < 256,
        rest >= 0,
    ensures
        ({
            let word = low + unit * (byte + 256 * rest);
            &&& (word / unit) % 256 == byte
            &&& (word / unit) % 16 == byte % 16
            &&& (word / (unit * 16)) % 16 == byte / 16
        }),
{
    let word = low + unit * (byte + 256 * rest);
    assert(word == (byte + 256 * rest) * unit + low) by (nonlinear_arith)
        requires
            word == low + unit * (byte + 256 * rest),
    ;
    lemma_fundamental_div_mod_converse(word, unit, byte + 256 * rest, low);
    assert(word >= 0) by (nonlinear_arith)
        requires
            word == low + unit * (byte + 256 * rest),
            low >= 0,
            unit > 0,
            byte >= 0,
            rest >= 0,
    ;
    vstd::arithmetic::div_mod::lemma_div_denominator(word, unit, 16);
}

proof fn lemma_byte_of_word(b0: int, b1: int, b2: int, b3: int, bits: usize, lane: int)
    requires
        0 <= b0 < 256,
        0 <= b1 < 256,
        0 <= b2 < 256,
        0 <= b3 < 256,
        bits == 4 || bits == 8,
        0 <= lane < 32int / bits as int,
    ensures
        ({
            let word = b0 + 256 * b1 + 65536 * b2 + 16777216 * b3;
            let at = lane * bits as int / 8;
            let byte = if at == 0 {
                b0
            } else if at == 1 {
                b1
            } else if at == 2 {
                b2
            } else {
                b3
            };
            let value = (word / pow(if bits == 4 {
                16
            } else {
                256
            }, lane as nat)) % (if bits == 4 {
                16
            } else {
                256int
            });
            value == (if bits == 8 {
                byte
            } else if lane % 2 == 0 {
                byte % 16
            } else {
                byte / 16
            })
        }),
{
    let word = b0 + 256 * b1 + 65536 * b2 + 16777216 * b3;
    lemma_byte_at(0, b0, b1 + 256 * b2 + 65536 * b3, 1);
    lemma_byte_at(b0, b1, b2 + 256 * b3, 256);
    lemma_byte_at(b0 + 256 * b1, b2, b3, 65536);
    lemma_byte_at(b0 + 256 * b1 + 65536 * b2, b3, 0, 16777216);
    if bits == 8 {
        assert(pow(256, 0) == 1 && pow(256, 1) == 256 && pow(256, 2) == 65536 && pow(256, 3)
            == 16777216) by {
            reveal_with_fuel(pow, 5);
        }
        assert(lane * bits as int / 8 == lane);
    } else {
        assert(pow(16, 0) == 1 && pow(16, 1) == 16 && pow(16, 2) == 256 && pow(16, 3) == 4096
            && pow(16, 4) == 65536 && pow(16, 5) == 1048576 && pow(16, 6) == 16777216 && pow(16, 7)
            == 268435456) by {
            reveal_with_fuel(pow, 9);
        }
        assert(lane * bits as int / 8 == lane / 2);
    }
}

/// The three operands of element `k`: the packed value number `k`, and the scale and the
/// bias number `k / group_size`.
proof fn lemma_operands(v: AffineView, k: int)
    requires
        is_accepted(v),
        0 <= k < v.out * v.width(),
    ensures
        v.operands(k).0 == packed_value(v.packed, v.bits, k),
        v.operands(k).1 == v.scales[k / v.group_size as int],
        v.operands(k).2 == v.biases[k / v.group_size as int],
        0 <= k / (v.group_size as int) < v.scales.len(),
        0 <= k * v.bits / 8 < v.packed.len(),
{
    let w = v.width();
    let l = lanes(v.bits);
    let g = v.group_size as int;
    let n = groups(v.in_packed, v.bits, v.group_size);
    lemma_fundamental_div_mod(w, g);
    assert(w == n * g) by (nonlinear_arith)
        requires
            w == g * n,
    ;
    assert(w > 0 && n > 0 && v.in_packed > 0) by (nonlinear_arith)
        requires
            0 <= k < v.out * w,
            w == n * g,
            w == v.in_packed * l,
            g > 0,
            l > 0,
            v.out >= 0,
            v.in_packed >= 0,
    ;
    lemma_nested_cut(k, w, g, n);
    lemma_nested_cut(k, w, l, v.in_packed as int);
    let word = k / l;
    let lane = k % l;
    lemma_fundamental_div_mod(k, l);
    assert(0 <= word < v.out * v.in_packed) by (nonlinear_arith)
        requires
            k == l * word + lane,
            0 <= lane < l,
            0 <= k < v.out * w,
            w == v.in_packed * l,
            l > 0,
    ;
    assert(v.packed.len() == 4 * (v.out * v.in_packed)) by (nonlinear_arith)
        requires
            v.packed.len() == v.out * v.in_packed * 4,
    ;
    let b = v.packed;
    lemma_byte_of_word(
        b[4 * word] as int,
        b[4 * word + 1] as int,
        b[4 * word + 2] as int,
        b[4 * word + 3] as int,
        v.bits,
        lane,
    );
    assert(quantized_at(v.packed, v.in_packed, v.bits, k / w, k % w) == packed_value(
        v.packed,
        v.bits,
        k,
    )) by {
        assert((k / w) * v.in_packed + (k % w) / l == word);
        if v.bits == 8 {
            assert(4 * word + lane == k);
        } else {
            assert(8 * word + lane == k);
            assert(k / 2 == 4 * word + lane / 2);
            assert(k % 2 == lane % 2);
        }
    }
    lemma_fundamental_div_mod(k, g);
    let at = k / g;
    assert(0 <= at < v.out * n) by (nonlinear_arith)
        requires
            k == g * at + k % g,
            0 <= k % g < g,
            0 <= k < v.out * w,
            w == n * g,
            g > 0,
    ;
    assert(v.scales.len() == v.out * n);
}

/// Dequantization is flat: element `k` of an accepted weight is made of the packed value
/// number `k` and of the scale and the bias number `k / group_size`. All packed bits and
/// all scales and biases are used.
pub proof fn law_dequantization_is_flat<F: Fn(u32, u32, u32) -> u32>(
    mul_add: F,
    v: AffineView,
    w: Seq<u32>,
)
    requires
        is_accepted(v),
        is_dequantized(mul_add, v, w),
    ensures
        w.len() * v.bits == 8 * v.packed.len(),
        w.len() == v.scales.len() * v.group_size,
        v.biases.len() == v.scales.len(),
        forall|k: int|
            #![trigger w[k]]
            0 <= k < w.len() ==> call_ensures(
                mul_add,
                (
                    packed_value(v.packed, v.bits, k) as u32,
                    v.scales[k / v.group_size as int],
                    v.biases[k / v.group_size as int],
                ),
                w[k],
            ),
{
    lemma_totals(v);
    assert forall|k: int|
        #![trigger w[k]]
        0 <= k < w.len() implies call_ensures(
        mul_add,
        (
            packed_value(v.packed, v.bits, k) as u32,
            v.scales[k / v.group_size as int],
            v.biases[k / v.group_size as int],
        ),
        w[k],
    ) by {
        lemma_operands(v, k);
        assert(call_ensures(mul_add, v.operands(k), w[k]));
    }
}

/// Rounded dequantization is flat in the same way.
pub proof fn law_rounded_dequantization_is_flat<F: Fn(u32, u32, u32) -> u32>(
    mul_add: F,
    v: AffineView,
    w: Seq<u32>,
)
    requires
        is_accepted(v),
        is_dequantized_bf16(mul_add, v, w),
    ensures
        w.len() * v.bits == 8 * v.packed.len(),
        w.len() == v.scales.len() * v.group_size,
        forall|k: int|
            #![trigger w[k]]
            0 <= k < w.len() ==> is_rounded_result(
                mul_add,
                (
                    packed_value(v.packed, v.bits, k) as u32,
                    v.scales[k / v.group_size as int],
                    v.biases[k / v.group_size as int],
                ),
                w[k],
            ),
{
    lemma_totals(v);
    assert forall|k: int|
        #![trigger w[k]]
        0 <= k < w.len() implies is_rounded_result(
        mul_add,
        (
            packed_value(v.packed, v.bits, k) as u32,
            v.scales[k / v.group_size as int],
            v.biases[k / v.group_size as int],
        ),
        w[k],
    ) by {
        lemma_operands(v, k);
        assert(is_rounded_result(mul_add, v.operands(k), w[k]));
    }
}

proof fn lemma_totals(v: AffineView)
    requires
        is_accepted(v),
    ensures
        v.out * v.width() * v.bits == 8 * v.packed.len(),
        v.out * v.width() == v.scales.len() * v.group_size,
        v.biases.len() == v.scales.len(),
{
    let w = v.width();
    let g = v.group_size as int;
    let n = groups(v.in_packed, v.bits, v.group_size);
    lemma_fundamental_div_mod(w, g);
    assert(v.out * w == v.out * n * g) by (nonlinear_arith)
        requires
            w == g * n,
    ;
    assert(v.out * w * v.bits == 8 * (v.out * v.in_packed * 4)) by (nonlinear_arith)
        requires
            w == v.in_packed * lanes(v.bits),
            lanes(v.bits) * v.bits == 32,
    ;
}

/// Rows `a..b` of a weight: the buffers cut at the row bounds.
pub open spec fn weight_rows(v: AffineView, a: usize, b: usize) -> AffineView {
    let bytes = v.packed.len() as int / v.out as int;
    let metas = v.scales.len() as int / v.out as int;
    AffineView {
        packed: v.packed.subrange(a * bytes, b * bytes),
        scales: v.scales.subrange(a * metas, b * metas),
        biases: v.biases.subrange(a * metas, b * metas),
        out: (b - a) as usize,
        ..v
    }
}

/// Rows stand alone: dequantizing rows `a..b` of the buffers gives exactly rows `a..b` of
/// the whole result.
pub proof fn law_rows_stand_alone<F: Fn(u32, u32, u32) -> u32>(
    mul_add: F,
    v: AffineView,
    w: Seq<u32>,
    a: usize,
    b: usize,
)
    requires
        is_accepted(v),
        is_dequantized(mul_add, v, w),
        a <= b <= v.out,
        v.out > 0,
    ensures
        is_accepted(weight_rows(v, a, b)),
        is_dequantized(mul_add, weight_rows(v, a, b), row_band(w, v.out, a, b)),
{
    let width = v.width();
    let g = v.group_size as int;
    let n = groups(v.in_packed, v.bits, v.group_size);
    let out = v.out as int;
    let bytes = v.packed.len() as int / out;
    let metas = v.scales.len() as int / out;
    let part = weight_rows(v, a, b);
    lemma_totals(v);
    assert(v.packed.len() == out * (v.in_packed * 4)) by (nonlinear_arith)
        requires
            v.packed.len() == v.out * v.in_packed * 4,
            out == v.out,
    ;
    lemma_exact(out, v.in_packed * 4);
    lemma_exact(out, n);
    lemma_exact(out, width);
    assert(bytes == v.in_packed * 4 && metas == n && w.len() as int / out == width);
    assert(n >= 0 && width >= 0) by {
        vstd::arithmetic::div_mod::lemma_div_pos_is_pos(width, g);
    }
    lemma_band(a as int, b as int, out, bytes);
    lemma_band(a as int, b as int, out, metas);
    lemma_band(a as int, b as int, out, width);
    assert((b - a) * (v.in_packed * 4) == (b - a) * v.in_packed * 4) by (nonlinear_arith);
    assert(is_accepted(part));
    let band = row_band(w, v.out, a, b);
    assert forall|k: int|
        #![trigger band[k]]
        0 <= k < band.len() implies call_ensures(mul_add, part.operands(k), band[k]) by {
        let whole = a * width + k;
        assert(band[k] == w[whole]);
        lemma_operands(v, whole);
        lemma_operands(part, k);
        lemma_fundamental_div_mod(width, g);
        assert(whole == (a * n) * g + k) by (nonlinear_arith)
            requires
                whole == a * width + k,
                width == g * n,
        ;
        vstd::arithmetic::div_mod::lemma_hoist_over_denominator(k, a * n, g as nat);
        assert(whole / g == a * n + k / g);
        if v.bits == 8 {
            assert(a * width == a * bytes);
        } else {
            assert(a * width == 2 * (a * bytes)) by (nonlinear_arith)
                requires
                    width == v.in_packed * 8,
                    bytes == v.in_packed * 4,
            ;
            assert(whole / 2 == a * bytes + k / 2 && whole % 2 == k % 2);
        }
        assert(part.operands(k) == v.operands(whole));
        assert(call_ensures(mul_add, v.operands(whole), w[whole]));
    }
}

proof fn lemma_exact(d: int, q: int)
    requires
        d > 0,
    ensures
        (d * q) / d == q,
{
    vstd::arithmetic::div_mod::lemma_div_multiples_vanish(q, d);
    assert(d * q == q * d) by (nonlinear_arith);
}

proof fn lemma_band(a: int, b: int, out: int, width: int)
    requires
        0 <= a <= b <= out,
        width >= 0,
    ensures
        0 <= a * width <= b * width <= out * width,
        b * width - a * width == (b - a) * width,
{
    assert(0 <= a * width) by (nonlinear_arith)
        requires
            a >= 0,
            width >= 0,
    ;
    assert(a * width <= b * width) by (nonlinear_arith)
        requires
            a <= b,
            width >= 0,
    ;
    assert(b * width <= out * width) by (nonlinear_arith)
        requires
            b <= out,
            width >= 0,
    ;
    assert(b * width - a * width == (b - a) * width) by (nonlinear_arith);
}

proof fn lemma_slab(e: int, experts: int, stride: int)
    requires
        0 <= e < experts,
        stride >= 0,
    ensures
        0 <= e * stride,
        e * stride + stride <= experts * stride,
{
    assert(0 <= e * stride) by (nonlinear_arith)
        requires
            e >= 0,
            stride >= 0,
    ;
    assert(e * stride + stride <= experts * stride) by (nonlinear_arith)
        requires
            e + 1 <= experts,
            stride >= 0,
    ;
}

/// The weight with another scale number `at`.
pub open spec fn with_scale(v: AffineView, at: int, scale: u32) -> AffineView {
    AffineView { scales: v.scales.update(at, scale), ..v }
}

/// A scale has its own block: changing the scale of row `o`, group `g` changes the operands
/// of no element outside row `o` and of no element of another group, and every element of
/// the block uses it.
pub proof fn law_scale_has_its_block(v: AffineView, o: int, g: int, scale: u32)
    requires
        is_accepted(v),
        0 <= o < v.out,
        0 <= g < v.scales.len() as int / v.out as int,
    ensures
        ({
            let n = v.scales.len() as int / v.out as int;
            let changed = with_scale(v, o * n + g, scale);
            let first = (o * n + g) * v.group_size;
            &&& first == o * v.width() + g * v.group_size
            &&& forall|k: int|
                0 <= k < v.out * v.width() && !(first <= k < first + v.group_size)
                    ==> #[trigger] changed.operands(k) == v.operands(k)
            &&& 0 <= first && first + v.group_size <= v.out * v.width()
            &&& forall|k: int|
                first <= k < first + v.group_size ==> (#[trigger] changed.operands(k)).1 == scale
        }),
{
    let n = v.scales.len() as int / v.out as int;
    let size = v.group_size as int;
    let at = o * n + g;
    let first = at * size;
    let changed = with_scale(v, at, scale);
    lemma_exact(v.out as int, groups(v.in_packed, v.bits, v.group_size));
    lemma_totals(v);
    lemma_fundamental_div_mod(v.width(), size);
    assert(0 <= at < v.scales.len()) by (nonlinear_arith)
        requires
            0 <= o < v.out,
            0 <= g < n,
            at == o * n + g,
            v.scales.len() == v.out * n,
    ;
    assert(first == o * v.width() + g * size) by (nonlinear_arith)
        requires
            first == (o * n + g) * size,
            v.width() == size * n,
    ;
    assert(is_accepted(changed));
    assert forall|k: int|
        0 <= k < v.out * v.width() && !(first <= k < first
            + v.group_size) implies #[trigger] changed.operands(k) == v.operands(k) by {
        lemma_operands(v, k);
        lemma_operands(changed, k);
        lemma_fundamental_div_mod(k, size);
        let c = k / size;
        if c == at {
            assert(first <= k < first + size) by (nonlinear_arith)
                requires
                    first == at * size,
                    k == size * c + k % size,
                    0 <= k % size < size,
                    c == at,
            ;
        }
    }
    assert(0 <= first && first + size <= v.scales.len() * size) by (nonlinear_arith)
        requires
            first == at * size,
            0 <= at,
            at + 1 <= v.scales.len(),
            size > 0,
    ;
    assert forall|k: int| first <= k < first + v.group_size implies (#[trigger] changed.operands(
        k,
    )).1 == scale by {
        lemma_fundamental_div_mod_converse(k, size, at, k - first);
        lemma_operands(changed, k);
    }
}

/// A stack of experts is dequantized like one tall weight: element `k` is made of the packed
/// value number `k` and of the scale and the bias number `k / group_size` of the whole
/// buffers.
pub proof fn law_stack_is_one_tall_weight<F: Fn(u32, u32, u32) -> u32>(
    mul_add: F,
    packed: Seq<u8>,
    scales: Seq<u8>,
    biases: Seq<u8>,
    format: FloatFormat,
    experts: usize,
    out: usize,
    in_packed: usize,
    bits: usize,
    group_size: usize,
    w: Seq<u32>,
    k: int,
)
    requires
        format != FloatFormat::Float32,
        stack_error(
            packed.len(),
            scales.len(),
            biases.len(),
            experts,
            out,
            in_packed,
            bits,
            group_size,
        ) is None,
        is_dequantized_stack(
            mul_add,
            packed,
            scales,
            biases,
            format,
            experts as int,
            out,
            in_packed,
            bits,
            group_size,
            w,
        ),
        0 <= k < w.len(),
    ensures
        w.len() * bits == 8 * packed.len(),
        2 * w.len() == scales.len() * group_size,
        call_ensures(
            mul_add,
            (
                packed_value(packed, bits, k) as u32,
                widened(format, scales)[k / group_size as int],
                widened(format, biases)[k / group_size as int],
            ),
            w[k],
        ),
{
    let width = in_packed * lanes(bits);
    let stride = out * width;
    let n = groups(in_packed, bits, group_size);
    let g = group_size as int;
    let packed_stride = out * in_packed * 4;
    let short_stride = out * n * 2;
    assert(stride > 0) by (nonlinear_arith)
        requires
            0 <= k < experts * stride,
            experts >= 0,
    ;
    lemma_fundamental_div_mod(width, g);
    assert(stride == (out * n) * g) by (nonlinear_arith)
        requires
            stride == out * width,
            width == g * n,
    ;
    assert(stride * bits == 8 * packed_stride) by (nonlinear_arith)
        requires
            stride == out * (in_packed * lanes(bits)),
            packed_stride == out * in_packed * 4,
            lanes(bits) * bits == 32,
    ;
    assert((experts * stride) * bits == 8 * (experts * packed_stride)) by (nonlinear_arith)
        requires
            stride * bits == 8 * packed_stride,
    ;
    assert(2 * (experts * stride) == (experts * short_stride) * g) by (nonlinear_arith)
        requires
            stride == (out * n) * g,
            short_stride == out * n * 2,
    ;
    let e = k / stride;
    let i = k % stride;
    lemma_fundamental_div_mod(k, stride);
    assert(0 <= e < experts) by (nonlinear_arith)
        requires
            k == stride * e + i,
            0 <= i < stride,
            0 <= k < experts * stride,
    ;
    lemma_slab(e, experts as int, stride);
    lemma_slab(e, experts as int, packed_stride);
    assert(n >= 0) by {
        vstd::arithmetic::div_mod::lemma_div_pos_is_pos(width, g);
    }
    assert(short_stride >= 0) by (nonlinear_arith)
        requires
            short_stride == out * n * 2,
            n >= 0,
    ;
    lemma_slab(e, experts as int, short_stride);
    let v = crate::affine::expert_view(
        packed,
        scales,
        biases,
        format,
        out,
        in_packed,
        bits,
        group_size,
        e,
    );
    let part = slab(w, stride, e);
    assert(is_dequantized(mul_add, v, part));
    let short = out * n;
    assert(short_stride == 2 * short);
    assert(slab(scales, short_stride, e).len() == 2 * short);
    assert(slab(biases, short_stride, e).len() == 2 * short);
    assert((2 * short) / 2 == short);
    assert(v.scales.len() == short && v.biases.len() == short);
    assert(v.packed.len() == packed_stride);
    assert(is_accepted(v));
    lemma_operands(v, i);
    assert(part[i] == w[k]) by (nonlinear_arith)
        requires
            part == w.subrange(e * stride, e * stride + stride),
            0 <= i < stride,
            k == stride * e + i,
            0 <= e * stride,
            e * stride + stride <= w.len(),
    {
        assert(part[i] == w[e * stride + i]);
    }
    assert(k == (e * (out * n)) * g + i) by (nonlinear_arith)
        requires
            k == stride * e + i,
            stride == (out * n) * g,
    ;
    vstd::arithmetic::div_mod::lemma_hoist_over_denominator(i, e * (out * n), g as nat);
    let at = i / g;
    let whole = k / g;
    assert(whole == e * (out * n) + at);
    assert(e * short_stride == 2 * (e * (out * n))) by (nonlinear_arith)
        requires
            short_stride == out * n * 2,
    ;
    assert(2 * whole == e * short_stride + 2 * at);
    assert(widened(format, scales)[whole] == v.scales[at]);
    assert(widened(format, biases)[whole] == v.biases[at]);
    if bits == 8 {
        assert(stride == packed_stride);
        assert(k == e * packed_stride + i) by (nonlinear_arith)
            requires
                k == stride * e + i,
                stride == packed_stride,
        ;
    } else {
        assert(k == 2 * (e * packed_stride) + i) by (nonlinear_arith)
            requires
                k == stride * e + i,
                stride == 2 * packed_stride,
        ;
        assert(k / 2 == e * packed_stride + i / 2 && k % 2 == i % 2);
    }
    assert(packed_value(packed, bits, k) == packed_value(v.packed, bits, i));
    assert(call_ensures(mul_add, v.operands(i), part[i]));
}

/// Buffers are read byte by byte, low bytes first: a bfloat16 holds the upper half of its
/// single, a half is widened from its two bytes, a single is its four bytes.
pub proof fn law_widening_reads_low_bytes_first(bytes: Seq<u8>, i: int)
    ensures
        0 <= i && 2 * i + 1 < bytes.len() ==> {
            let low = bytes[2 * i] as int;
            let high = bytes[2 * i + 1] as int;
            let brain = widened(FloatFormat::BFloat16, bytes)[i];
            &&& brain % 65536 == 0
            &&& (brain as int / 65536) % 256 == low
            &&& brain as int / 16777216 == high
            &&& widened(FloatFormat::Float16, bytes)[i] == widened_half((high * 256 + low) as u16)
        },
        0 <= i && 4 * i + 3 < bytes.len() ==> {
            let single = widened(FloatFormat::Float32, bytes)[i] as int;
            &&& single % 256 == bytes[4 * i]
            &&& (single / 256) % 256 == bytes[4 * i + 1]
            &&& (single / 65536) % 256 == bytes[4 * i + 2]
            &&& single / 16777216 == bytes[4 * i + 3]
        },
        2 * widened(FloatFormat::BFloat16, bytes).len() <= bytes.len()
            <= 2 * widened(FloatFormat::BFloat16, bytes).len() + 1,
        2 * widened(FloatFormat::Float16, bytes).len() <= bytes.len()
            <= 2 * widened(FloatFormat::Float16, bytes).len() + 1,
        4 * widened(FloatFormat::Float32, bytes).len() <= bytes.len()
            <= 4 * widened(FloatFormat::Float32, bytes).len() + 3,
{
    if 0 <= i && 2 * i + 1 < bytes.len() {
        let (low, high) = (bytes[2 * i] as int, bytes[2 * i + 1] as int);
        lemma_bytes_of_word(0, 0, low, high);
        let brain = widened(FloatFormat::BFloat16, bytes)[i];
        assert(brain as int == 65536 * low + 16777216 * high);
        assert(widened(FloatFormat::Float16, bytes)[i] == widened_half((high * 256 + low) as u16));
    }
    if 0 <= i && 4 * i + 3 < bytes.len() {
        let (a, b) = (bytes[4 * i] as int, bytes[4 * i + 1] as int);
        let (c, d) = (bytes[4 * i + 2] as int, bytes[4 * i + 3] as int);
        lemma_bytes_of_word(a, b, c, d);
        let single = widened(FloatFormat::Float32, bytes)[i] as int;
        assert(single == a + 256 * b + 65536 * c + 16777216 * d);
    }
}

/// The bytes of a word.
proof fn lemma_bytes_of_word(a: int, b: int, c: int, d: int)
    requires
        0 <= a < 256,
        0 <= b < 256,
        0 <= c < 256,
        0 <= d < 256,
    ensures
        ({
            let word = a + 256 * b + 65536 * c + 16777216 * d;
            &&& 0 <= word < 0x1_0000_0000
            &&& word % 256 == a
            &&& (word / 256) % 256 == b
            &&& (word / 65536) % 256 == c
            &&& word / 16777216 == d
            &&& a == 0 && b == 0 ==> word % 65536 == 0
        }),
{
    let word = a + 256 * b + 65536 * c + 16777216 * d;
    assert(word / 256 == b + 256 * c + 65536 * d);
    assert(word / 65536 == c + 256 * d);
}

/// Row slicing keeps places: entry `j` of row `r` of the whole buffer is entry `j` of row
/// `r - start` of the slice.
pub proof fn law_sliced_rows_keep_their_entries(
    buf: Seq<u32>,
    out: usize,
    start: usize,
    end: usize,
    width: int,
    r: int,
    j: int,
)
    requires
        slice_error(buf.len(), out, start, end) is None,
        out * width == buf.len(),
        start <= r < end,
        0 <= j < width,
    ensures
        row_band(buf, out, start, end).len() == (end - start) * width,
        row_band(buf, out, start, end)[(r - start) * width + j] == buf[r * width + j],
{
    lemma_exact(out as int, width);
    lemma_band(start as int, end as int, out as int, width);
    assert((r - start) * width + start * width == r * width) by (nonlinear_arith);
    assert(0 <= (r - start) * width + j < (end - start) * width) by (nonlinear_arith)
        requires
            start <= r < end,
            0 <= j < width,
    ;
}

/// A weight is accepted exactly when 4 or 8 bits divide its words, whole groups fill its
/// rows, every row has its words, and every group has its scale and its bias.
pub proof fn law_accepted_sizes(v: AffineView)
    ensures
        is_accepted(v) <==> {
            &&& v.bits == 4 || v.bits == 8
            &&& v.group_size > 0
            &&& exists|n: int| {
                &&& 0 <= n
                &&& #[trigger] (n * v.group_size) * v.bits == 32 * v.in_packed
                &&& v.scales.len() == v.out * n
                &&& v.biases.len() == v.out * n
            }
            &&& v.packed.len() == 4 * (v.out * v.in_packed)
        },
{
    let w = v.width();
    let g = v.group_size as int;
    assert(v.out * v.in_packed * 4 == 4 * (v.out * v.in_packed)) by (nonlinear_arith);
    if is_accepted(v) {
        let n = groups(v.in_packed, v.bits, v.group_size);
        lemma_fundamental_div_mod(w, g);
        vstd::arithmetic::div_mod::lemma_div_pos_is_pos(w, g);
        assert(w == n * g) by (nonlinear_arith)
            requires
                w == g * n,
        ;
        assert((n * v.group_size) * v.bits == 32 * v.in_packed) by (nonlinear_arith)
            requires
                n * g == v.in_packed * lanes(v.bits),
                lanes(v.bits) * v.bits == 32,
                g == v.group_size,
        ;
    }
    if (v.bits == 4 || v.bits == 8) && v.group_size > 0 && v.packed.len() == 4 * (v.out
        * v.in_packed) && (exists|n: int| {
        &&& 0 <= n
        &&& #[trigger] (n * v.group_size) * v.bits == 32 * v.in_packed
        &&& v.scales.len() == v.out * n
        &&& v.biases.len() == v.out * n
    }) {
        let n = choose|n: int| {
            &&& 0 <= n
            &&& #[trigger] (n * v.group_size) * v.bits == 32 * v.in_packed
            &&& v.scales.len() == v.out * n
            &&& v.biases.len() == v.out * n
        };
        assert(w == n * g) by (nonlinear_arith)
            requires
                (n * g) * v.bits == 32 * v.in_packed,
                w == v.in_packed * lanes(v.bits),
                lanes(v.bits) * v.bits == 32,
                v.bits == 4 || v.bits == 8,
        ;
        lemma_fundamental_div_mod_converse(w, g, n, 0);
    }
}

} // verus!
