//! What holds of loaded weights: formats are as wide as their elements, shapes count the
//! values, and each weight keeps its values, its bytes or its band of rows.
use vstd::arithmetic::power2::{lemma_pow2_pos, lemma_pow2_unfold, pow2};
use vstd::prelude::*;

use crate::affine::{format_width, lanes, slice_error, widened};
use crate::affine_laws::law_sliced_rows_keep_their_entries;
use crate::double::{excess_bits, nearest_double, SIGNIFICANDS};
use crate::loader::{
    companion, format_of, is_placed, is_raw, pair_format, place_error, raw_error,
    widen_problem, widened_len, widened_shape, LoadContext, LoadedWeight, WeightBuf, WDT_F16,
    WDT_F32, WDT_U32,
};
use crate::shards::itemsize_of;
use crate::tensors::TensorView;
use crate::text::has_suffix;
use crate::weight_specs::{QuantPart, WeightSpecView};

verus! {

/// A float format is as wide as the elements of the type that it is read from, and every
/// float type is read.
pub proof fn law_formats_are_as_wide_as_their_elements(dtype: Seq<char>, data: Seq<u8>)
    ensures
        format_of(dtype) matches Some(format) ==> itemsize_of(dtype) == Some(
            format_width(format) as u64,
        ),
        format_of(dtype) matches Some(format) ==> {
            let n = widened(format, data).len() * format_width(format);
            n <= data.len() < n + format_width(format)
        },
        dtype == "BF16"@ || dtype == "F16"@ || dtype == "F32"@ ==> format_of(dtype) is Some,
        format_of("BF16"@) != format_of("F16"@),
{
    reveal_strlit("F64");
    reveal_strlit("I64");
    reveal_strlit("U64");
    reveal_strlit("F32");
    reveal_strlit("I32");
    reveal_strlit("U32");
    reveal_strlit("BF16");
    reveal_strlit("F16");
    reveal_strlit("I16");
    reveal_strlit("U16");
    assert("F32"@[1] == '3' && "F64"@[1] == '6' && "F16"@[1] == '1');
    assert("F32"@[0] == 'F' && "I64"@[0] == 'I' && "U64"@[0] == 'U' && "I32"@[0] == 'I');
    assert("U32"@[0] == 'U' && "I16"@[0] == 'I' && "U16"@[0] == 'U');
    assert("BF16"@.len() == 4 && "F16"@.len() == 3);
    if let Some(format) = format_of(dtype) {
        let k = data.len() as int;
        assert(widened(format, data).len() == k / format_width(format));
        assert(k / 4 * 4 <= k < k / 4 * 4 + 4 && k / 2 * 2 <= k < k / 2 * 2 + 2);
    }
}

/// Scales and biases are read by one format, that of both of them; singles only in a Molmo2
/// checkpoint.
pub proof fn law_scales_and_biases_share_a_format(
    scales: Seq<char>,
    biases: Seq<char>,
    molmo2: bool,
)
    ensures
        pair_format(scales, biases, molmo2) matches Some(format) ==> format_of(scales) == Some(
            format,
        ) && format_of(biases) == Some(format),
        scales != biases ==> pair_format(scales, biases, molmo2) is None,
        pair_format("F16"@, "F16"@, molmo2) is Some,
        pair_format("BF16"@, "BF16"@, molmo2) is Some,
        pair_format("F32"@, "F32"@, molmo2) is Some <==> molmo2,
{
    reveal_strlit("F16");
    reveal_strlit("BF16");
    reveal_strlit("F32");
    assert("F16"@[1] == '1' && "F32"@[1] == '3');
    assert("BF16"@.len() == 4 && "F16"@.len() == 3 && "F32"@.len() == 3);
}

/// Scales and biases stand beside the weight under its name.
pub proof fn law_companions_stand_beside_the_weight(stem: Seq<char>, ending: Seq<char>)
    ensures
        companion(stem + ".weight"@, ending) == stem + ending,
{
    let name = stem + ".weight"@;
    assert(name.subrange(name.len() - ".weight"@.len(), name.len() as int) =~= ".weight"@);
    assert(has_suffix(name, ".weight"@));
    assert(name.subrange(0, name.len() - ".weight"@.len()) =~= stem);
}

/// The shape of a widened tensor counts its values: all dimensions but the last stay, and the
/// last one counts every value of a packed word.
pub proof fn law_widened_shapes_count_the_values(
    tensors: Map<Seq<char>, TensorView>,
    name: Seq<char>,
    ctx: LoadContext,
)
    requires
        tensors[name].dtype == "U32"@,
        ctx.quantization matches Some(q) && (q.bits == 4 || q.bits == 8),
        tensors[name].shape.len() == 2 || tensors[name].shape.len() == 3,
        tensors[name].shape.last() * 8 <= usize::MAX,
    ensures
        ({
            let from = tensors[name].shape;
            let to = widened_shape(tensors[name], ctx);
            let q = ctx.quantization.unwrap();
            &&& to.len() == from.len()
            &&& to.last() * q.bits == from.last() * 32
            &&& to[0] == from[0]
            &&& from.len() == 3 ==> to[1] == from[1]
            &&& from.len() == 2 ==> widened_len(tensors, name, ctx) == to[0] * to[1]
            &&& from.len() == 3 ==> widened_len(tensors, name, ctx) == to[0] * (to[1] * to[2])
        }),
{
    let from = tensors[name].shape;
    let q = ctx.quantization.unwrap();
    assert(32int / 4 == 8 && 32int / 8 == 4);
    assert(lanes(q.bits) == 32int / q.bits as int);
    let (a, b) = (from[0] as int, from.last() as int);
    assert(0 <= a * (b * lanes(q.bits))) by (nonlinear_arith)
        requires
            0 <= a,
            0 <= b,
            lanes(q.bits) >= 0,
    ;
    if from.len() == 3 {
        let c = from[1] as int;
        assert(0 <= a * (c * (b * lanes(q.bits)))) by (nonlinear_arith)
            requires
                0 <= a,
                0 <= b,
                0 <= c,
                lanes(q.bits) >= 0,
        ;
    }
}

/// A float tensor keeps its shape.
pub proof fn law_float_tensors_keep_their_shape(t: TensorView, ctx: LoadContext)
    requires
        t.dtype != "U32"@,
    ensures
        widened_shape(t, ctx) == t.shape,
{
}

/// A packed part goes up as its bytes; the words are of one element type and scales and
/// biases of another.
pub proof fn law_packed_parts_keep_their_bytes(
    name: Seq<char>,
    part: QuantPart,
    t: TensorView,
    w: LoadedWeight,
)
    requires
        raw_error(name, part, t) is None,
        is_raw(part, t, w),
    ensures
        w.buf matches WeightBuf::Raw(bytes) && bytes@ == t.data,
        part == QuantPart::Packed ==> t.dtype == "U32"@ && w.dtype == WDT_U32,
        part != QuantPart::Packed ==> t.dtype == "F16"@ && w.dtype == WDT_F16,
        t.shape.len() == 2 && w.rank == 2,
        w.dims@[0] == t.shape[0] && w.dims@[1] == t.shape[1],
        w.dims@[2] == 0 && w.dims@[3] == 0,
        WDT_F32 != WDT_F16 && WDT_F16 != WDT_U32 && WDT_F32 != WDT_U32,
{
}

/// A weight that is not split keeps its values and its shape, in half precision exactly where
/// it is a projection and projections stay so.
pub proof fn law_whole_weights_keep_their_values(
    spec: WeightSpecView,
    resident_f16: bool,
    data: Seq<u32>,
    shape: Seq<usize>,
    w: LoadedWeight,
)
    requires
        is_placed(spec, resident_f16, data, shape, w),
        spec is Whole || spec is Proj,
        shape.len() <= 4,
    ensures
        w.rank == shape.len(),
        forall|k: int| 0 <= k < shape.len() ==> (#[trigger] w.dims@[k]) as int == shape[k],
        w.buf is F16 <==> spec is Proj && resident_f16,
        w.dtype == WDT_F16 <==> spec is Proj && resident_f16,
        w.buf matches WeightBuf::F32(values) ==> values@ == data,
{
}

/// A fused weight gives the rows of its band, each whole and in order.
pub proof fn law_banded_weights_keep_their_rows(
    spec: WeightSpecView,
    start: int,
    end: int,
    name: Seq<char>,
    data: Seq<u32>,
    shape: Seq<usize>,
    w: LoadedWeight,
    r: int,
    j: int,
)
    requires
        spec matches WeightSpecView::Rows { start: a, end: b, .. } && a == start && b == end,
        place_error(name, spec, data.len(), shape) is None,
        is_placed(spec, false, data, shape, w),
        0 <= start <= r < end <= usize::MAX,
        data.len() == shape[0] * shape[1],
        0 <= j < shape[1],
    ensures
        w.dims@[0] == end - start && w.dims@[1] == shape[1],
        w.buf matches WeightBuf::F32(rows) && rows@.len() == (end - start) * shape[1]
            && rows@[(r - start) * shape[1] + j] == data[r * shape[1] + j],
{
    assert(slice_error(data.len(), shape[0], start as usize, end as usize) is None);
    law_sliced_rows_keep_their_entries(
        data,
        shape[0],
        start as usize,
        end as usize,
        shape[1] as int,
        r,
        j,
    );
}

/// A packed tensor is refused where the model states no quantization, and so is one without
/// its scales or its biases.
pub proof fn law_packed_tensors_need_their_companions(
    tensors: Map<Seq<char>, TensorView>,
    shard: Seq<char>,
    name: Seq<char>,
    stem: Seq<char>,
    ctx: LoadContext,
)
    requires
        tensors[stem + ".weight"@].dtype == "U32"@,
    ensures
        ctx.quantization is None || !tensors.contains_key(stem + ".scales"@)
            || !tensors.contains_key(stem + ".biases"@) ==> widen_problem(
            tensors,
            shard,
            name,
            stem + ".weight"@,
            ctx,
        ) is Some,
{
    law_companions_stand_beside_the_weight(stem, ".scales"@);
    law_companions_stand_beside_the_weight(stem, ".biases"@);
}

proof fn lemma_excess(x: nat)
    ensures
        x / pow2(excess_bits(x)) < SIGNIFICANDS,
        x < SIGNIFICANDS ==> excess_bits(x) == 0,
    decreases x,
{
    if x < SIGNIFICANDS {
        vstd::arithmetic::power2::lemma2_to64();
        assert(x / 1 == x);
    } else {
        lemma_excess(x / 2);
        let k = excess_bits(x / 2);
        lemma_pow2_pos(k);
        lemma_pow2_unfold(k + 1);
        let p = pow2(k);
        assert(pow2(excess_bits(x)) == 2 * p);
        vstd::arithmetic::div_mod::lemma_div_denominator(x as int, 2, p as int);
        assert((x / 2) / p == x / (2 * p));
    }
}

/// Rounding to a double keeps numbers of 53 bits; others go to the nearest multiple of the
/// last bit that fits, and to the even one where two are as near.
pub proof fn law_rounding_is_to_the_nearest(x: nat)
    ensures
        ({
            let y = nearest_double(x);
            let unit = pow2(excess_bits(x));
            &&& x < SIGNIFICANDS ==> y == x
            &&& x / unit < SIGNIFICANDS
            &&& exists|q: nat| y == #[trigger] (q * unit)
            &&& 2 * (y - x) <= unit && 2 * (x - y) <= unit
            &&& 2 * (y - x) == unit || 2 * (x - y) == unit ==> exists|q: nat|
                q % 2 == 0 && y == #[trigger] (q * unit)
        }),
{
    let y = nearest_double(x);
    let unit = pow2(excess_bits(x));
    lemma_excess(x);
    lemma_pow2_pos(excess_bits(x));
    let (q, r) = (x / unit, x % unit);
    vstd::arithmetic::div_mod::lemma_fundamental_div_mod(x as int, unit as int);
    vstd::arithmetic::div_mod::lemma_mod_bound(x as int, unit as int);
    assert(unit * q == q * unit) by (nonlinear_arith);
    assert((q + 1) * unit == q * unit + unit) by (nonlinear_arith);
    if x < SIGNIFICANDS {
        vstd::arithmetic::power2::lemma2_to64();
        assert(unit == 1);
        assert(q * 1 == q && (q + 1) * 1 == q + 1);
    }
    let up = (q + 1) as nat;
    assert(y == q * unit || y == up * unit);
}

} // verus!
