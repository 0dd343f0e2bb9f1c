//! Turning checkpoint tensors into the weights that a graph takes.
use vstd::prelude::*;

use crate::affine::{
    affine_error, affine_fits, affine_view, dequantize_affine, dequantize_affine_bf16_fused,
    dequantize_affine_f32, dequantize_affine_stacked, is_dequantized, is_dequantized_bf16,
    is_dequantized_stack, is_total, lanes, row_band, short_format, slice_error, slice_rows,
    stack_error, stack_fits, pack_f16, widen, widened, FloatFormat,
};
use crate::config::QuantConfig;
use crate::halves::narrows_to_half;
use crate::problem::{
    first_problem, overflow_if, refusal, refuse_if, refused, Problem, ProblemView,
};
use crate::tensors::{
    find_tensor, not_found, not_found_text, tensors_in, TensorEntry, TensorView,
};
use crate::text::{dec, ends_with, has_suffix, size_text, text_eq};
use crate::weight_specs::{stem_of, stem_text, QuantPart, WeightSpec, WeightSpecView};

verus! {

/// The element type code of a single-precision weight.
pub const WDT_F32: i32 = 0;

/// The element type code of a half-precision weight.
pub const WDT_F16: i32 = 1;

/// The element type code of a packed weight.
pub const WDT_U32: i32 = 2;

/// A weight ready for upload.
#[derive(Debug, Clone, PartialEq, Eq)]
pub enum WeightBuf {
    F32(Vec<u32>),
    F16(Vec<u16>),
    Raw(Vec<u8>),
}

/// A weight with its element type code and its shape; unused dimensions are 0.
#[derive(Debug, Clone, PartialEq, Eq)]
pub struct LoadedWeight {
    pub buf: WeightBuf,
    pub dtype: i32,
    pub rank: i32,
    pub dims: [i64; 4],
}

/// What the conversion of a checkpoint's tensors depends on.
#[derive(Debug, Clone, Copy, PartialEq, Eq)]
pub struct LoadContext {
    /// The model is a Gemma3n model.
    pub gemma3n: bool,
    /// The checkpoint has Molmo2 names.
    pub molmo2: bool,
    pub quantization: Option<QuantConfig>,
    /// Projections stay in half precision.
    pub resident_f16: bool,
}

/// A number does not fit the C interface's 64-bit integer.
pub open spec fn wide_error(value: int, name: Seq<char>) -> Option<Seq<char>> {
    if value > i64::MAX {
        Some(name + "="@ + dec(value as nat) + " does not fit the IREE C ABI i64"@)
    } else {
        None
    }
}

/// A size as the C interface's 64-bit integer.
pub fn checked_ffi_i64(value: usize, name: &str) -> (r: Result<i64, String>)
    ensures
        match r {
            Ok(n) => wide_error(value as int, name@) is None && n == value,
            Err(message) => wide_error(value as int, name@) == Some(message@),
        },
{
    if value as u64 > i64::MAX as u64 {
        Err(
            name.to_owned().concat("=").concat(&size_text(value)).concat(
                " does not fit the IREE C ABI i64",
            ),
        )
    } else {
        Ok(value as i64)
    }
}

/// A number does not fit the C interface's integer.
pub open spec fn narrow_error(value: int, name: Seq<char>) -> Option<Seq<char>> {
    if value > i32::MAX {
        Some(name + "="@ + dec(value as nat) + " does not fit the IREE C ABI c_int"@)
    } else {
        None
    }
}

/// A size as the C interface's integer.
pub fn checked_ffi_int(value: usize, name: &str) -> (r: Result<i32, String>)
    ensures
        match r {
            Ok(n) => narrow_error(value as int, name@) is None && n == value,
            Err(message) => narrow_error(value as int, name@) == Some(message@),
        },
{
    if value > i32::MAX as usize {
        Err(
            name.to_owned().concat("=").concat(&size_text(value)).concat(
                " does not fit the IREE C ABI c_int",
            ),
        )
    } else {
        Ok(value as i32)
    }
}

/// The label of a dimension in messages.
pub open spec fn dim_label(name: Seq<char>, k: nat) -> Seq<char> {
    "weight "@ + name + " dim "@ + dec(k)
}

fn dim_label_text(name: &str, k: usize) -> (r: String)
    ensures
        r@ == dim_label(name@, k as nat),
{
    "weight ".to_owned().concat(name).concat(" dim ").concat(&size_text(k))
}

/// The first complaint about the dimensions of a shape from `from` on.
pub open spec fn dims_error(name: Seq<char>, shape: Seq<usize>, from: int) -> Option<Seq<char>>
    decreases shape.len() - from,
{
    if from < 0 || from >= shape.len() {
        None
    } else if wide_error(shape[from] as int, dim_label(name, from as nat)) is Some {
        wide_error(shape[from] as int, dim_label(name, from as nat))
    } else {
        dims_error(name, shape, from + 1)
    }
}

/// The dimensions hold the shape, padded with zeros.
pub open spec fn are_dims(shape: Seq<usize>, dims: Seq<i64>) -> bool {
    &&& dims.len() == 4
    &&& forall|k: int|
        0 <= k < 4 ==> (#[trigger] dims[k]) as int == (if k < shape.len() {
            shape[k] as int
        } else {
            0
        })
}

fn read_dims(name: &str, shape: &Vec<usize>) -> (r: Result<[i64; 4], String>)
    requires
        shape@.len() <= 4,
    ensures
        match r {
            Ok(dims) => dims_error(name@, shape@, 0) is None && are_dims(shape@, dims@),
            Err(message) => dims_error(name@, shape@, 0) == Some(message@),
        },
{
    let mut dims: [i64; 4] = [0, 0, 0, 0];
    let mut k: usize = 0;
    while k < shape.len()
        invariant
            k <= shape.len() <= 4,
            dims_error(name@, shape@, 0) == dims_error(name@, shape@, k as int),
            forall|j: int|
                0 <= j < 4 ==> (#[trigger] dims@[j]) as int == (if j < k {
                    shape@[j] as int
                } else {
                    0
                }),
        decreases shape.len() - k,
    {
        match checked_ffi_i64(shape[k], dim_label_text(name, k).as_str()) {
            Ok(n) => {
                dims[k] = n;
            },
            Err(message) => return Err(message),
        }
        k += 1;
    }
    Ok(dims)
}

/// The element type that a packed part has to have.
pub open spec fn part_dtype(part: QuantPart) -> Seq<char> {
    match part {
        QuantPart::Packed => "U32"@,
        _ => "F16"@,
    }
}

/// Complaint about a packed part.
pub open spec fn raw_error(name: Seq<char>, part: QuantPart, t: TensorView) -> Option<Seq<char>> {
    if t.dtype != part_dtype(part) {
        Some(
            "quant part "@ + name + " dtype "@ + t.dtype + ", expected "@ + part_dtype(part),
        )
    } else if t.shape.len() != 2 {
        Some("quant part "@ + name + " is rank "@ + dec(t.shape.len()) + " (expected 2)"@)
    } else {
        dims_error(name, t.shape, 0)
    }
}

/// The upload of a packed part: its bytes as they are.
pub open spec fn is_raw(part: QuantPart, t: TensorView, w: LoadedWeight) -> bool {
    &&& w.buf matches WeightBuf::Raw(bytes) && bytes@ == t.data
    &&& w.dtype == (if part == QuantPart::Packed {
        WDT_U32
    } else {
        WDT_F16
    })
    &&& w.rank == 2
    &&& are_dims(t.shape, w.dims@)
}

fn load_raw(name: &str, part: QuantPart, t: TensorEntry<'_>) -> (r: Result<LoadedWeight, String>)
    ensures
        match r {
            Ok(w) => raw_error(name@, part, t@) is None && is_raw(part, t@, w),
            Err(message) => raw_error(name@, part, t@) == Some(message@),
        },
{
    let (code, expected): (i32, &str) = match part {
        QuantPart::Packed => (WDT_U32, "U32"),
        _ => (WDT_F16, "F16"),
    };
    if !text_eq(t.dtype.as_str(), expected) {
        return Err(
            "quant part ".to_owned().concat(name).concat(" dtype ").concat(
                t.dtype.as_str(),
            ).concat(", expected ").concat(expected),
        );
    }
    if t.shape.len() != 2 {
        return Err(
            "quant part ".to_owned().concat(name).concat(" is rank ").concat(
                &size_text(t.shape.len()),
            ).concat(" (expected 2)"),
        );
    }
    let dims = match read_dims(name, &t.shape) {
        Ok(dims) => dims,
        Err(message) => return Err(message),
    };
    Ok(
        LoadedWeight {
            buf: WeightBuf::Raw(vstd::slice::slice_to_vec(t.data)),
            dtype: code,
            rank: 2,
            dims,
        },
    )
}

/// The float format that a dtype names.
pub open spec fn format_of(dtype: Seq<char>) -> Option<FloatFormat> {
    if dtype == "BF16"@ {
        Some(FloatFormat::BFloat16)
    } else if dtype == "F16"@ {
        Some(FloatFormat::Float16)
    } else if dtype == "F32"@ {
        Some(FloatFormat::Float32)
    } else {
        None
    }
}

pub(crate) fn read_format(dtype: &str) -> (r: Option<FloatFormat>)
    ensures
        r == format_of(dtype@),
{
    if text_eq(dtype, "BF16") {
        Some(FloatFormat::BFloat16)
    } else if text_eq(dtype, "F16") {
        Some(FloatFormat::Float16)
    } else if text_eq(dtype, "F32") {
        Some(FloatFormat::Float32)
    } else {
        None
    }
}

/// Complaint about a float tensor.
pub open spec fn float_error(name: Seq<char>, t: TensorView) -> Option<Seq<char>> {
    if format_of(t.dtype) is None {
        Some(
            "weight "@ + name + " dtype "@ + t.dtype
                + ", expected BF16/F16/F32 or MLX-quantized U32"@,
        )
    } else if t.shape.len() > 4 {
        Some("weight "@ + name + " rank "@ + dec(t.shape.len()) + " > 4"@)
    } else {
        None
    }
}

/// The names of the scales and biases of a quantized weight.
pub open spec fn companion(checkpoint_name: Seq<char>, ending: Seq<char>) -> Seq<char> {
    stem_of(checkpoint_name) + ending
}

/// The format of scales and biases: a matching 16-bit pair, or singles in a Molmo2
/// checkpoint.
pub open spec fn pair_format(scales: Seq<char>, biases: Seq<char>, molmo2: bool) -> Option<
    FloatFormat,
> {
    if scales == biases && (scales == "F16"@ || scales == "BF16"@ || (scales == "F32"@ && molmo2)) {
        format_of(scales)
    } else {
        None
    }
}

/// The problem with a quantized weight up to the format of its scales and biases.
pub open spec fn quant_problem(
    tensors: Map<Seq<char>, TensorView>,
    shard: Seq<char>,
    name: Seq<char>,
    checkpoint_name: Seq<char>,
    ctx: LoadContext,
) -> Option<ProblemView> {
    let s = companion(checkpoint_name, ".scales"@);
    let b = companion(checkpoint_name, ".biases"@);
    first_problem(
        refuse_if(
            ctx.quantization is None,
            "weight "@ + name
                + " is U32 (quantized) but config.json has no `quantization`"@,
        ),
        first_problem(
            refuse_if(
                !has_suffix(checkpoint_name, ".weight"@),
                "quantized weight "@ + checkpoint_name + " does not end in `.weight`"@,
            ),
            first_problem(
                refuse_if(
                    !tensors.contains_key(s),
                    s + " (for "@ + name + ") in "@ + shard + ": "@ + not_found(s),
                ),
                first_problem(
                    refuse_if(
                        !tensors.contains_key(b),
                        b + " (for "@ + name + ") in "@ + shard + ": "@ + not_found(b),
                    ),
                    refuse_if(
                        pair_format(tensors[s].dtype, tensors[b].dtype, ctx.molmo2) is None,
                        stem_of(checkpoint_name) + " scales/biases dtype "@ + tensors[s].dtype
                            + "/"@ + tensors[b].dtype
                            + ", expected a matching F16/BF16 pair or Molmo2 F32 pair"@,
                    ),
                ),
            ),
        ),
    )
}

/// The widened row of a packed one is more than a size counts; values of no bits fill a
/// word without end.
pub open spec fn lanes_overflow(in_packed: usize, bits: usize) -> bool {
    bits == 0 || in_packed * (32int / bits as int) > usize::MAX
}

/// Prefix a complaint.
pub open spec fn prefixed(prefix: Seq<char>, error: Option<Seq<char>>) -> Option<Seq<char>> {
    match error {
        Some(message) => Some(prefix + message),
        None => None,
    }
}

/// The problem with a two-dimensional quantized weight.
pub open spec fn matrix_problem(
    name: Seq<char>,
    stem: Seq<char>,
    ctx: LoadContext,
    t: TensorView,
    format: FloatFormat,
    scales: nat,
    biases: nat,
) -> Option<ProblemView> {
    let q = ctx.quantization.unwrap();
    first_problem(
        overflow_if(
            lanes_overflow(t.shape[1], q.bits) || !affine_fits(t.shape[0], t.shape[1], q.bits),
        ),
        first_problem(
            refuse_if(
                ctx.gemma3n && format != FloatFormat::BFloat16,
                stem
                    + " uses F16 affine scales/biases, but Gemma3n requires BF16 affine metadata"@,
            ),
            refusal(
                prefixed(
                    "dequantize "@ + name + ": "@,
                    affine_error(
                        t.data.len(),
                        scales,
                        biases,
                        t.shape[0],
                        t.shape[1],
                        q.bits,
                        q.group_size,
                    ),
                ),
            ),
        ),
    )
}

/// The problem with a stack of quantized experts.
pub open spec fn expert_problem(
    name: Seq<char>,
    ctx: LoadContext,
    t: TensorView,
    scales: nat,
    biases: nat,
) -> Option<ProblemView> {
    let q = ctx.quantization.unwrap();
    first_problem(
        overflow_if(
            lanes_overflow(t.shape[2], q.bits) || !stack_fits(
                t.shape[0],
                t.shape[1],
                t.shape[2],
                q.bits,
            ),
        ),
        refusal(
            prefixed(
                "dequantize stacked "@ + name + ": "@,
                stack_error(
                    t.data.len(),
                    scales,
                    biases,
                    t.shape[0],
                    t.shape[1],
                    t.shape[2],
                    q.bits,
                    q.group_size,
                ),
            ),
        ),
    )
}

/// The problem with widening a tensor to single precision.
pub open spec fn widen_problem(
    tensors: Map<Seq<char>, TensorView>,
    shard: Seq<char>,
    name: Seq<char>,
    checkpoint_name: Seq<char>,
    ctx: LoadContext,
) -> Option<ProblemView> {
    let t = tensors[checkpoint_name];
    let s = tensors[companion(checkpoint_name, ".scales"@)];
    let b = tensors[companion(checkpoint_name, ".biases"@)];
    let format = pair_format(s.dtype, b.dtype, ctx.molmo2).unwrap();
    if t.dtype == "U32"@ {
        first_problem(
            quant_problem(tensors, shard, name, checkpoint_name, ctx),
            if t.shape.len() == 2 {
                matrix_problem(
                    name,
                    stem_of(checkpoint_name),
                    ctx,
                    t,
                    format,
                    widened(format, s.data).len(),
                    widened(format, b.data).len(),
                )
            } else if t.shape.len() == 3 {
                expert_problem(name, ctx, t, s.data.len(), b.data.len())
            } else {
                Some(
                    ProblemView::Refused(
                        "quantized weight "@ + name + " rank "@ + dec(t.shape.len())
                            + " not in {2, 3}"@,
                    ),
                )
            },
        )
    } else {
        refusal(float_error(name, t))
    }
}

/// The shape of a widened tensor: packed columns count all their lanes.
pub open spec fn widened_shape(t: TensorView, ctx: LoadContext) -> Seq<usize> {
    if t.dtype == "U32"@ {
        let per_word = 32int / ctx.quantization.unwrap().bits as int;
        t.shape.update(
            t.shape.len() - 1,
            (t.shape[t.shape.len() - 1] * per_word) as usize,
        )
    } else {
        t.shape
    }
}

/// `data` is a tensor widened to single precision: a float tensor element by element, a
/// quantized one dequantized. `mul_add` computes `q * scale + bias`.
pub open spec fn is_widened<F: Fn(u32, u32, u32) -> u32>(
    mul_add: F,
    tensors: Map<Seq<char>, TensorView>,
    checkpoint_name: Seq<char>,
    ctx: LoadContext,
    data: Seq<u32>,
) -> bool {
    let t = tensors[checkpoint_name];
    let s = tensors[companion(checkpoint_name, ".scales"@)];
    let b = tensors[companion(checkpoint_name, ".biases"@)];
    let format = pair_format(s.dtype, b.dtype, ctx.molmo2).unwrap();
    let q = ctx.quantization.unwrap();
    if t.dtype != "U32"@ {
        data == widened(format_of(t.dtype).unwrap(), t.data)
    } else if t.shape.len() == 2 {
        let v = affine_view(
            t.data,
            s.data,
            b.data,
            format,
            t.shape[0],
            t.shape[1],
            q.bits,
            q.group_size,
        );
        if ctx.gemma3n {
            is_dequantized_bf16(mul_add, v, data)
        } else {
            is_dequantized(mul_add, v, data)
        }
    } else {
        is_dequantized_stack(
            mul_add,
            t.data,
            s.data,
            b.data,
            short_format(format == FloatFormat::BFloat16),
            t.shape[0] as int,
            t.shape[1],
            t.shape[2],
            q.bits,
            q.group_size,
            data,
        )
    }
}

fn count_matrix(out: usize, in_packed: usize, bits: usize) -> (r: Option<usize>)
    ensures
        match r {
            Some(width) => !lanes_overflow(in_packed, bits) && affine_fits(out, in_packed, bits)
                && width == in_packed * (32int / bits as int),
            None => lanes_overflow(in_packed, bits) || !affine_fits(out, in_packed, bits),
        },
{
    if bits == 0 {
        return None;
    }
    let per_word: usize = 32 / bits;
    let width: usize = match in_packed.checked_mul(per_word) {
        Some(n) => n,
        None => return None,
    };
    if bits == 4 || bits == 8 {
        let words: usize = match out.checked_mul(in_packed) {
            Some(n) => n,
            None => {
                assert(out * in_packed * 4 > usize::MAX);
                return None;
            },
        };
        if words.checked_mul(4).is_none() {
            return None;
        }
        if out.checked_mul(width).is_none() {
            assert(width == in_packed * lanes(bits));
            return None;
        }
    }
    Some(width)
}

fn count_stack(experts: usize, out: usize, in_packed: usize, bits: usize) -> (r: Option<usize>)
    ensures
        match r {
            Some(width) => !lanes_overflow(in_packed, bits) && stack_fits(
                experts,
                out,
                in_packed,
                bits,
            ) && width == in_packed * (32int / bits as int),
            None => lanes_overflow(in_packed, bits) || !stack_fits(experts, out, in_packed, bits),
        },
{
    let width: usize = match count_matrix(out, in_packed, bits) {
        Some(n) => n,
        None => return None,
    };
    if bits == 4 || bits == 8 {
        assert(width == in_packed * lanes(bits));
        let bytes: usize = out * in_packed * 4;
        if experts.checked_mul(bytes).is_none() {
            return None;
        }
        let short: usize = match (out * width).checked_mul(2) {
            Some(n) => n,
            None => {
                assert(out * (in_packed * lanes(bits)) * 2 > usize::MAX);
                return None;
            },
        };
        if experts.checked_mul(short).is_none() {
            return None;
        }
    }
    Some(width)
}

fn prefix_problem<T>(prefix: &str, name: &str, message: String) -> (r: Result<T, Problem>)
    ensures
        r matches Err(p) && p@ == ProblemView::Refused(prefix@ + name@ + ": "@ + message@),
{
    refused(prefix.to_owned().concat(name).concat(": ").concat(message.as_str()))
}

fn widen_matrix<F: Fn(u32, u32, u32) -> u32>(
    name: &str,
    stem: &str,
    ctx: &LoadContext,
    t: &TensorEntry<'_>,
    scales: &[u8],
    biases: &[u8],
    format: FloatFormat,
    mul_add: &F,
) -> (r: Result<(Vec<u32>, Vec<usize>), Problem>)
    requires
        t@.shape.len() == 2,
        t@.dtype == "U32"@,
        ctx.quantization is Some,
        is_total(*mul_add),
    ensures
        ({
            let q = ctx.quantization.unwrap();
            let problem = matrix_problem(
                name@,
                stem@,
                *ctx,
                t@,
                format,
                widened(format, scales@).len(),
                widened(format, biases@).len(),
            );
            let v = affine_view(
                t@.data,
                scales@,
                biases@,
                format,
                t@.shape[0],
                t@.shape[1],
                q.bits,
                q.group_size,
            );
            match r {
                Ok(w) => {
                    &&& problem is None
                    &&& w.1@ == widened_shape(t@, *ctx)
                    &&& ctx.gemma3n ==> is_dequantized_bf16(*mul_add, v, w.0@)
                    &&& !ctx.gemma3n ==> is_dequantized(*mul_add, v, w.0@)
                },
                Err(p) => problem == Some(p@),
            }
        }),
{
    let q = ctx.quantization.unwrap();
    let out: usize = t.shape[0];
    let in_packed: usize = t.shape[1];
    let width: usize = match count_matrix(out, in_packed, q.bits) {
        Some(n) => n,
        None => return Err(Problem::Overflow),
    };
    let mut shape: Vec<usize> = Vec::new();
    shape.push(out);
    shape.push(width);
    assert(shape@ =~= widened_shape(t@, *ctx));
    if ctx.gemma3n {
        if format != FloatFormat::BFloat16 {
            return refused(
                stem.to_owned().concat(
                    " uses F16 affine scales/biases, but Gemma3n requires BF16 affine metadata",
                ),
            );
        }
        return match dequantize_affine_bf16_fused(
            t.data,
            scales,
            biases,
            out,
            in_packed,
            q.bits,
            q.group_size,
            mul_add,
        ) {
            Ok(data) => Ok((data, shape)),
            Err(message) => prefix_problem("dequantize ", name, message),
        };
    }
    let done = match format {
        FloatFormat::Float32 => dequantize_affine_f32(
            t.data,
            scales,
            biases,
            out,
            in_packed,
            q.bits,
            q.group_size,
            mul_add,
        ),
        _ => dequantize_affine(
            t.data,
            scales,
            biases,
            out,
            in_packed,
            q.bits,
            q.group_size,
            format == FloatFormat::BFloat16,
            mul_add,
        ),
    };
    match done {
        Ok(data) => Ok((data, shape)),
        Err(message) => prefix_problem("dequantize ", name, message),
    }
}

fn widen_experts<F: Fn(u32, u32, u32) -> u32>(
    name: &str,
    ctx: &LoadContext,
    t: &TensorEntry<'_>,
    scales: &[u8],
    biases: &[u8],
    bf16: bool,
    mul_add: &F,
) -> (r: Result<(Vec<u32>, Vec<usize>), Problem>)
    requires
        t@.shape.len() == 3,
        t@.dtype == "U32"@,
        ctx.quantization is Some,
        is_total(*mul_add),
    ensures
        ({
            let q = ctx.quantization.unwrap();
            let problem = expert_problem(name@, *ctx, t@, scales@.len(), biases@.len());
            match r {
                Ok(w) => {
                    &&& problem is None
                    &&& w.1@ == widened_shape(t@, *ctx)
                    &&& is_dequantized_stack(
                        *mul_add,
                        t@.data,
                        scales@,
                        biases@,
                        short_format(bf16),
                        t@.shape[0] as int,
                        t@.shape[1],
                        t@.shape[2],
                        q.bits,
                        q.group_size,
                        w.0@,
                    )
                },
                Err(p) => problem == Some(p@),
            }
        }),
{
    let q = ctx.quantization.unwrap();
    let experts: usize = t.shape[0];
    let out: usize = t.shape[1];
    let in_packed: usize = t.shape[2];
    let width: usize = match count_stack(experts, out, in_packed, q.bits) {
        Some(n) => n,
        None => return Err(Problem::Overflow),
    };
    let mut shape: Vec<usize> = Vec::new();
    shape.push(experts);
    shape.push(out);
    shape.push(width);
    assert(shape@ =~= widened_shape(t@, *ctx));
    match dequantize_affine_stacked(
        t.data,
        scales,
        biases,
        experts,
        out,
        in_packed,
        q.bits,
        q.group_size,
        bf16,
        mul_add,
    ) {
        Ok(data) => Ok((data, shape)),
        Err(message) => prefix_problem("dequantize stacked ", name, message),
    }
}

fn missing_companion<T>(companion: &str, name: &str, shard: &str) -> (r: Result<T, Problem>)
    ensures
        r matches Err(p) && p@ == ProblemView::Refused(
            companion@ + " (for "@ + name@ + ") in "@ + shard@ + ": "@ + not_found(companion@),
        ),
{
    refused(
        companion.to_owned().concat(" (for ").concat(name).concat(") in ").concat(shard).concat(
            ": ",
        ).concat(&not_found_text(companion)),
    )
}

/// Widen a tensor of an opened file to single precision.
fn widen_tensor<F: Fn(u32, u32, u32) -> u32>(
    file: &safetensors::SafeTensors<'_>,
    shard: &str,
    name: &str,
    checkpoint_name: &str,
    ctx: &LoadContext,
    t: TensorEntry<'_>,
    mul_add: &F,
) -> (r: Result<(Vec<u32>, Vec<usize>), Problem>)
    requires
        tensors_in(*file).contains_key(checkpoint_name@),
        t@ == tensors_in(*file)[checkpoint_name@],
        is_total(*mul_add),
    ensures
        ({
            let tensors = tensors_in(*file);
            let problem = widen_problem(tensors, shard@, name@, checkpoint_name@, *ctx);
            match r {
                Ok(w) => {
                    &&& problem is None
                    &&& is_widened(*mul_add, tensors, checkpoint_name@, *ctx, w.0@)
                    &&& w.1@ == widened_shape(t@, *ctx)
                },
                Err(p) => problem == Some(p@),
            }
        }),
{
    if !text_eq(t.dtype.as_str(), "U32") {
        let format = match read_format(t.dtype.as_str()) {
            Some(format) => format,
            None => return refused(
                "weight ".to_owned().concat(name).concat(" dtype ").concat(
                    t.dtype.as_str(),
                ).concat(", expected BF16/F16/F32 or MLX-quantized U32"),
            ),
        };
        if t.shape.len() > 4 {
            return refused(
                "weight ".to_owned().concat(name).concat(" rank ").concat(
                    &size_text(t.shape.len()),
                ).concat(" > 4"),
            );
        }
        return Ok((widen(format, t.data), t.shape));
    }
    if ctx.quantization.is_none() {
        return refused(
            "weight ".to_owned().concat(name).concat(
                " is U32 (quantized) but config.json has no `quantization`",
            ),
        );
    }
    if !ends_with(checkpoint_name, ".weight") {
        return refused(
            "quantized weight ".to_owned().concat(checkpoint_name).concat(
                " does not end in `.weight`",
            ),
        );
    }
    let stem = stem_text(checkpoint_name);
    let scales_name = stem.clone().concat(".scales");
    let biases_name = stem.clone().concat(".biases");
    let scales = match find_tensor(file, scales_name.as_str()) {
        Some(tensor) => tensor,
        None => return missing_companion(scales_name.as_str(), name, shard),
    };
    let biases = match find_tensor(file, biases_name.as_str()) {
        Some(tensor) => tensor,
        None => return missing_companion(biases_name.as_str(), name, shard),
    };
    let same = text_eq(scales.dtype.as_str(), biases.dtype.as_str());
    let accepted = text_eq(scales.dtype.as_str(), "F16") || text_eq(scales.dtype.as_str(), "BF16")
        || (text_eq(scales.dtype.as_str(), "F32") && ctx.molmo2);
    let format = match read_format(scales.dtype.as_str()) {
        Some(format) if same && accepted => format,
        _ => return refused(
            stem.concat(" scales/biases dtype ").concat(scales.dtype.as_str()).concat(
                "/",
            ).concat(biases.dtype.as_str()).concat(
                ", expected a matching F16/BF16 pair or Molmo2 F32 pair",
            ),
        ),
    };
    if t.shape.len() == 2 {
        widen_matrix(
            name,
            stem.as_str(),
            ctx,
            &t,
            scales.data,
            biases.data,
            format,
            mul_add,
        )
    } else if t.shape.len() == 3 {
        widen_experts(
            name,
            ctx,
            &t,
            scales.data,
            biases.data,
            format == FloatFormat::BFloat16,
            mul_add,
        )
    } else {
        refused(
            "quantized weight ".to_owned().concat(name).concat(" rank ").concat(
                &size_text(t.shape.len()),
            ).concat(" not in {2, 3}"),
        )
    }
}

/// Complaint about putting a widened tensor of `len` values in its place.
pub open spec fn place_error(
    name: Seq<char>,
    spec: WeightSpecView,
    len: nat,
    shape: Seq<usize>,
) -> Option<Seq<char>> {
    match spec {
        WeightSpecView::Rows { start, end, .. } => if shape.len() != 2 {
            Some("row-slice weight "@ + name + " is rank "@ + dec(shape.len()) + " (expected 2)"@)
        } else if slice_error(len, shape[0], start as usize, end as usize) is Some {
            prefixed(
                "row-slice "@ + name + ": "@,
                slice_error(len, shape[0], start as usize, end as usize),
            )
        } else if wide_error(end - start, "weight "@ + name + " sliced rows"@) is Some {
            wide_error(end - start, "weight "@ + name + " sliced rows"@)
        } else {
            wide_error(shape[1] as int, dim_label(name, 1))
        },
        _ => dims_error(name, shape, 0),
    }
}

/// `w` is a widened tensor in its place: the whole of it, in half precision where a
/// projection stays so, or a band of its rows.
pub open spec fn is_placed(
    spec: WeightSpecView,
    resident_f16: bool,
    data: Seq<u32>,
    shape: Seq<usize>,
    w: LoadedWeight,
) -> bool {
    match spec {
        WeightSpecView::Rows { start, end, .. } => {
            &&& w.buf matches WeightBuf::F32(rows) && rows@ == row_band(
                data,
                shape[0],
                start as usize,
                end as usize,
            )
            &&& w.dtype == WDT_F32 && w.rank == 2
            &&& are_dims(seq![(end - start) as usize, shape[1]], w.dims@)
        },
        _ => {
            &&& w.rank == shape.len()
            &&& are_dims(shape, w.dims@)
            &&& if spec is Proj && resident_f16 {
                &&& w.dtype == WDT_F16
                &&& w.buf matches WeightBuf::F16(half)
                &&& half@.len() == data.len()
                &&& forall|i: int|
                    0 <= i < data.len() ==> narrows_to_half(data[i], #[trigger] half@[i])
            } else {
                w.dtype == WDT_F32 && (w.buf matches WeightBuf::F32(whole) && whole@ == data)
            }
        },
    }
}

fn place_rows(
    name: &str,
    start: usize,
    end: usize,
    data: &Vec<u32>,
    shape: &Vec<usize>,
    Ghost(spec): Ghost<WeightSpecView>,
    Ghost(resident_f16): Ghost<bool>,
) -> (r: Result<LoadedWeight, Problem>)
    requires
        spec matches WeightSpecView::Rows { start: a, end: b, .. } && a == start && b == end,
    ensures
        match r {
            Ok(w) => place_error(name@, spec, data@.len(), shape@) is None && is_placed(
                spec,
                resident_f16,
                data@,
                shape@,
                w,
            ),
            Err(p) => refusal(place_error(name@, spec, data@.len(), shape@)) == Some(p@),
        },
{
    if shape.len() != 2 {
        return refused(
            "row-slice weight ".to_owned().concat(name).concat(" is rank ").concat(
                &size_text(shape.len()),
            ).concat(" (expected 2)"),
        );
    }
    let rows = match slice_rows(data.as_slice(), shape[0], start, end) {
        Ok(rows) => rows,
        Err(message) => return prefix_problem("row-slice ", name, message),
    };
    let label = "weight ".to_owned().concat(name).concat(" sliced rows");
    let height = match checked_ffi_i64(end - start, label.as_str()) {
        Ok(n) => n,
        Err(message) => return refused(message),
    };
    let width = match checked_ffi_i64(shape[1], dim_label_text(name, 1).as_str()) {
        Ok(n) => n,
        Err(message) => return refused(message),
    };
    let dims: [i64; 4] = [height, width, 0, 0];
    assert(are_dims(seq![(end - start) as usize, shape@[1]], dims@));
    Ok(LoadedWeight { buf: WeightBuf::F32(rows), dtype: WDT_F32, rank: 2, dims })
}

fn place_whole(
    name: &str,
    proj: bool,
    resident_f16: bool,
    data: Vec<u32>,
    shape: &Vec<usize>,
    Ghost(spec): Ghost<WeightSpecView>,
) -> (r: Result<LoadedWeight, Problem>)
    requires
        shape@.len() <= 4,
        spec is Whole || spec is Proj,
        proj == spec is Proj,
    ensures
        match r {
            Ok(w) => place_error(name@, spec, data@.len(), shape@) is None && is_placed(
                spec,
                resident_f16,
                data@,
                shape@,
                w,
            ),
            Err(p) => refusal(place_error(name@, spec, data@.len(), shape@)) == Some(p@),
        },
{
    let dims = match read_dims(name, shape) {
        Ok(dims) => dims,
        Err(message) => return refused(message),
    };
    let rank: i32 = shape.len() as i32;
    if proj && resident_f16 {
        let half = pack_f16(data.as_slice());
        Ok(LoadedWeight { buf: WeightBuf::F16(half), dtype: WDT_F16, rank, dims })
    } else {
        Ok(LoadedWeight { buf: WeightBuf::F32(data), dtype: WDT_F32, rank, dims })
    }
}

/// The weight of an argument is made of a tensor of an opened file: a packed part as it
/// is, anything else widened and put in its place.
pub open spec fn is_loaded<F: Fn(u32, u32, u32) -> u32>(
    mul_add: F,
    tensors: Map<Seq<char>, TensorView>,
    spec: WeightSpecView,
    checkpoint_name: Seq<char>,
    ctx: LoadContext,
    w: LoadedWeight,
) -> bool {
    let t = tensors[checkpoint_name];
    match spec {
        WeightSpecView::QuantRaw { part, .. } => is_raw(part, t, w),
        _ => exists|data: Seq<u32>| #[trigger]
            is_widened(mul_add, tensors, checkpoint_name, ctx, data) && is_placed(
                spec,
                ctx.resident_f16,
                data,
                widened_shape(t, ctx),
                w,
            ),
    }
}

/// The problem with the weight of an argument; `len` is the number of widened values.
pub open spec fn load_problem(
    tensors: Map<Seq<char>, TensorView>,
    shard: Seq<char>,
    spec: WeightSpecView,
    checkpoint_name: Seq<char>,
    ctx: LoadContext,
    len: nat,
) -> Option<ProblemView> {
    let t = tensors[checkpoint_name];
    match spec {
        WeightSpecView::QuantRaw { name, part } => refusal(raw_error(name, part, t)),
        _ => first_problem(
            widen_problem(tensors, shard, spec.tensor(), checkpoint_name, ctx),
            refusal(place_error(spec.tensor(), spec, len, widened_shape(t, ctx))),
        ),
    }
}

/// Number of values of a widened tensor.
pub open spec fn widened_len(
    tensors: Map<Seq<char>, TensorView>,
    checkpoint_name: Seq<char>,
    ctx: LoadContext,
) -> nat {
    let t = tensors[checkpoint_name];
    let bits = ctx.quantization.unwrap().bits;
    if t.dtype != "U32"@ {
        widened(format_of(t.dtype).unwrap(), t.data).len()
    } else if t.shape.len() == 2 {
        (t.shape[0] * (t.shape[1] * lanes(bits))) as nat
    } else {
        (t.shape[0] * (t.shape[1] * (t.shape[2] * lanes(bits)))) as nat
    }
}

/// Load the weight of one argument from an opened file. `mul_add` computes
/// `q * scale + bias` in single precision.
pub fn load_weight<F: Fn(u32, u32, u32) -> u32>(
    file: &safetensors::SafeTensors<'_>,
    shard: &str,
    spec: &WeightSpec,
    checkpoint_name: &str,
    ctx: &LoadContext,
    mul_add: &F,
) -> (r: Result<LoadedWeight, Problem>)
    requires
        tensors_in(*file).contains_key(checkpoint_name@),
        is_total(*mul_add),
    ensures
        ({
            let tensors = tensors_in(*file);
            let problem = load_problem(
                tensors,
                shard@,
                spec@,
                checkpoint_name@,
                *ctx,
                widened_len(tensors, checkpoint_name@, *ctx),
            );
            match r {
                Ok(w) => problem is None && is_loaded(
                    *mul_add,
                    tensors,
                    spec@,
                    checkpoint_name@,
                    *ctx,
                    w,
                ),
                Err(p) => problem == Some(p@),
            }
        }),
{
    let t = match find_tensor(file, checkpoint_name) {
        Some(tensor) => tensor,
        None => return refused(not_found_text(checkpoint_name)),
    };
    let ghost tensors = tensors_in(*file);
    let ghost tv = t@;
    if let WeightSpec::QuantRaw { name, part } = spec {
        return match load_raw(name.as_str(), *part, t) {
            Ok(w) => Ok(w),
            Err(message) => refused(message),
        };
    }
    let name = spec.tensor_name();
    let (data, shape) = match widen_tensor(file, shard, name, checkpoint_name, ctx, t, mul_add) {
        Ok(w) => w,
        Err(problem) => return Err(problem),
    };
    let ghost values = data@;
    assert(data@.len() == widened_len(tensors, checkpoint_name@, *ctx));
    assert(is_widened(*mul_add, tensors, checkpoint_name@, *ctx, values));
    match spec {
        WeightSpec::Rows { start, end, .. } => place_rows(
            name,
            *start,
            *end,
            &data,
            &shape,
            Ghost(spec@),
            Ghost(ctx.resident_f16),
        ),
        WeightSpec::Proj(_) => place_whole(
            name,
            true,
            ctx.resident_f16,
            data,
            &shape,
            Ghost(spec@),
        ),
        _ => place_whole(name, false, ctx.resident_f16, data, &shape, Ghost(spec@)),
    }
}

} // verus!
