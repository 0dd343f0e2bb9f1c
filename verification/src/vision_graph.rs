//! The graph of Molmo2's vision tower: a transformer over flattened patches, pooling by
//! signed indices, and a gated projector.
use vstd::prelude::*;

use crate::graph::{
    argument, constant_of, each, is_part, map_each, meaning, node, Builder, Elem, Expr, OpKind,
    Source, TensorType, Val,
};
use crate::molmo2_config::Molmo2VisionConfig;

verus! {

pub const ZERO: u32 = 0;

pub const HALF: u32 = 0x3f00_0000;

pub const ONE: u32 = 0x3f80_0000;

/// The cubic coefficient of the tanh approximation of GELU, 0.044715.
pub const GELU_CUBIC: u32 = 0x3d37_2713;

/// The square root of 2 / pi.
pub const GELU_SCALE: u32 = 0x3f4c_422a;

pub const NEGATIVE_INFINITY: u32 = 0xff80_0000;

/// The score of a masked entry, -1e30.
pub const MASKED: u32 = 0xf149_f2ca;

/// The numbers of a graph that are computed in single precision, by their bits.
#[derive(Debug, Clone, Copy, PartialEq, Eq)]
pub struct VisionConstants {
    /// The hidden width.
    pub hidden: u32,
    /// The norm epsilon.
    pub epsilon: u32,
    /// The inverse root of the head width.
    pub attention_scale: u32,
    /// The inverse root of the pooling head width.
    pub pool_scale: u32,
    /// The number of entries of a pooling group.
    pub pool_size: u32,
}

/// The dimensions 0 to `n` - 1.
pub open spec fn iota(n: int) -> Seq<usize> {
    Seq::new(n as nat, |i: int| i as usize)
}

/// Spread a value over a shape.
pub open spec fn spread(x: Expr, dims: Seq<usize>, shape: Seq<usize>) -> Expr {
    node(OpKind::Broadcast, dims, shape, Elem::Single, Some(x), None, None)
}

/// Spread a scalar over a shape.
pub open spec fn filled(bits: u32, shape: Seq<usize>) -> Expr {
    spread(constant_of(bits, Elem::Single), Seq::empty(), shape)
}

/// Combine the values along a dimension, from a start value on.
pub open spec fn folded(kind: OpKind, x: Expr, axis: int, start: Expr) -> Expr {
    node(
        kind,
        seq![axis as usize],
        x.shape().remove(axis),
        Elem::Single,
        Some(x),
        Some(start),
        None,
    )
}

/// Combine the values along a dimension, from a number on.
pub open spec fn reduced(kind: OpKind, x: Expr, axis: int, init: u32) -> Expr {
    folded(kind, x, axis, constant_of(init, Elem::Single))
}

pub open spec fn reshaped(x: Expr, shape: Seq<usize>) -> Expr {
    node(OpKind::Reshape, Seq::empty(), shape, Elem::Single, Some(x), None, None)
}

/// The shape with dimensions in another order.
pub open spec fn permuted(shape: Seq<usize>, order: Seq<usize>) -> Seq<usize> {
    Seq::new(order.len(), |i: int| shape[order[i] as int])
}

/// Swap the two middle dimensions of four.
pub open spec fn swapped(x: Expr) -> Expr {
    let order = seq![0usize, 2, 1, 3];
    node(
        OpKind::Transpose,
        order,
        permuted(x.shape(), order),
        Elem::Single,
        Some(x),
        None,
        None,
    )
}

/// Contract dimension `i` of `x` with dimension `j` of `y` behind `batch` shared ones.
pub open spec fn contracted(
    x: Expr,
    y: Expr,
    batch: usize,
    i: usize,
    j: usize,
    shape: Seq<usize>,
) -> Expr {
    node(OpKind::Dot, seq![batch, i, j], shape, Elem::Single, Some(x), Some(y), None)
}

/// `x` times the transposed weight, without a bias.
pub open spec fn product_with(x: Expr, w: Expr) -> Expr {
    contracted(
        x,
        w,
        0,
        (x.rank() - 1) as usize,
        1,
        x.shape().drop_last().push(w.shape()[0]),
    )
}

/// A linear map with a bias.
pub open spec fn affine(x: Expr, w: Expr, b: Expr) -> Expr {
    let y = product_with(x, w);
    each(OpKind::Sum, y, spread(b, seq![(y.rank() - 1) as usize], y.shape()))
}

/// `x` over its last dimension, less its mean.
pub open spec fn centered(x: Expr, width: u32) -> Expr {
    let axis = x.rank() - 1;
    let mean = each(
        OpKind::Quotient,
        reduced(OpKind::ReduceSum, x, axis, ZERO),
        filled(width, x.shape().drop_last()),
    );
    each(OpKind::Difference, x, spread(mean, iota(axis), x.shape()))
}

/// One over the deviation of `x` over its last dimension.
pub open spec fn inverse_deviation(x: Expr, width: u32, epsilon: u32) -> Expr {
    let axis = x.rank() - 1;
    let c = centered(x, width);
    let variance = each(
        OpKind::Quotient,
        reduced(OpKind::ReduceSum, each(OpKind::Product, c, c), axis, ZERO),
        filled(width, x.shape().drop_last()),
    );
    map_each(
        OpKind::InverseRoot,
        each(OpKind::Sum, variance, filled(epsilon, x.shape().drop_last())),
    )
}

/// Layer normalization with weight and bias.
pub open spec fn normalized(x: Expr, w: Expr, b: Expr, width: u32, epsilon: u32) -> Expr {
    let axis = x.rank() - 1;
    let scaled = each(
        OpKind::Product,
        centered(x, width),
        spread(inverse_deviation(x, width, epsilon), iota(axis), x.shape()),
    );
    each(
        OpKind::Sum,
        each(OpKind::Product, scaled, spread(w, seq![axis as usize], x.shape())),
        spread(b, seq![axis as usize], x.shape()),
    )
}

/// The tanh approximation of GELU.
pub open spec fn gelu(x: Expr) -> Expr {
    let cube = each(OpKind::Product, each(OpKind::Product, x, x), x);
    let inner = each(
        OpKind::Sum,
        x,
        each(OpKind::Product, filled(GELU_CUBIC, x.shape()), cube),
    );
    let tanh = map_each(
        OpKind::Tanh,
        each(OpKind::Product, filled(GELU_SCALE, x.shape()), inner),
    );
    each(
        OpKind::Product,
        each(OpKind::Product, x, filled(HALF, x.shape())),
        each(OpKind::Sum, filled(ONE, x.shape()), tanh),
    )
}

/// `x` times its logistic function.
pub open spec fn swish(x: Expr) -> Expr {
    let negative = map_each(OpKind::Exponential, map_each(OpKind::Negate, x));
    each(OpKind::Quotient, x, each(OpKind::Sum, filled(ONE, x.shape()), negative))
}

/// Softmax over the last dimension.
pub open spec fn softmax(x: Expr) -> Expr {
    let axis = x.rank() - 1;
    let maximum = reduced(OpKind::ReduceMaximum, x, axis, NEGATIVE_INFINITY);
    let powers = map_each(
        OpKind::Exponential,
        each(OpKind::Difference, x, spread(maximum, iota(axis), x.shape())),
    );
    let total = reduced(OpKind::ReduceSum, powers, axis, ZERO);
    each(OpKind::Quotient, powers, spread(total, iota(axis), x.shape()))
}

fn iota_list(n: usize) -> (r: Vec<usize>)
    ensures
        r@ == iota(n as int),
{
    let mut out: Vec<usize> = Vec::new();
    let mut i: usize = 0;
    while i < n
        invariant
            i <= n,
            out@ == iota(i as int),
        decreases n - i,
    {
        out.push(i);
        i += 1;
        assert(out@ =~= iota(i as int));
    }
    out
}

fn shape_without(shape: &[usize], axis: usize) -> (r: Vec<usize>)
    requires
        axis < shape@.len(),
    ensures
        r@ == shape@.remove(axis as int),
{
    let mut out: Vec<usize> = Vec::new();
    let mut i: usize = 0;
    while i < shape.len()
        invariant
            i <= shape@.len(),
            axis < shape@.len(),
            i <= axis ==> out@ == shape@.subrange(0, i as int),
            i > axis ==> out@ == shape@.subrange(0, i as int).remove(axis as int),
        decreases shape@.len() - i,
    {
        let ghost before = out@;
        assert(shape@.subrange(0, i + 1) =~= shape@.subrange(0, i as int).push(shape@[i as int]));
        if i != axis {
            out.push(shape[i]);
        }
        proof {
            if i == axis {
                assert(out@ =~= shape@.subrange(0, i + 1).remove(axis as int));
            } else if i > axis {
                assert(out@ =~= shape@.subrange(0, i + 1).remove(axis as int));
            } else {
                assert(out@ =~= shape@.subrange(0, i + 1));
            }
        }
        i += 1;
    }
    assert(shape@.subrange(0, i as int) =~= shape@);
    out
}

/// A function of a value that adds operations to a program and keeps what was known.
pub open spec fn extends(before: Builder, after: Builder) -> bool {
    before.wf() && after.wf() && after.keeps(before)
}

fn emit_spread(b: &mut Builder, x: &Val, dims: &[usize], shape: &[usize]) -> (r: Val)
    requires
        old(b).wf(),
        old(b).knows(*x),
    ensures
        extends(*old(b), *final(b)),
        final(b).knows(r),
        final(b).consumes(*old(b), set![x.source], r),
        r.tree@ == spread(x.tree@, dims@, shape@),
{
    b.apply(OpKind::Broadcast, dims, shape, Elem::Single, x, None, None)
}

fn emit_filled(b: &mut Builder, bits: u32, shape: &[usize]) -> (r: Val)
    requires
        old(b).wf(),
    ensures
        extends(*old(b), *final(b)),
        final(b).knows(r),
        final(b).consumes(*old(b), Set::empty(), r),
        r.tree@ == filled(bits, shape@),
{
    let value = b.constant(bits);
    let none: [usize; 0] = [];
    assert(none@ =~= Seq::<usize>::empty());
    emit_spread(b, &value, &none, shape)
}

fn emit_folded(b: &mut Builder, kind: OpKind, x: &Val, axis: usize, start: &Val) -> (r: Val)
    requires
        old(b).wf(),
        old(b).knows(*x),
        old(b).knows(*start),
        axis < x.tree@.rank(),
    ensures
        extends(*old(b), *final(b)),
        final(b).knows(r),
        final(b).consumes(*old(b), set![x.source, start.source], r),
        r.tree@ == folded(kind, x.tree@, axis as int, start.tree@),
{
    reveal(Builder::knows);
    let shape = shape_without(x.shape.as_slice(), axis);
    let list: [usize; 1] = [axis];
    assert(list@ =~= seq![axis]);
    b.apply(kind, &list, shape.as_slice(), Elem::Single, x, Some(start), None)
}

fn emit_reshaped(b: &mut Builder, x: &Val, shape: &[usize]) -> (r: Val)
    requires
        old(b).wf(),
        old(b).knows(*x),
    ensures
        extends(*old(b), *final(b)),
        final(b).knows(r),
        final(b).consumes(*old(b), set![x.source], r),
        r.tree@ == reshaped(x.tree@, shape@),
{
    let none: [usize; 0] = [];
    assert(none@ =~= Seq::<usize>::empty());
    b.apply(OpKind::Reshape, &none, shape, Elem::Single, x, None, None)
}

fn emit_swapped(b: &mut Builder, x: &Val) -> (r: Val)
    requires
        old(b).wf(),
        old(b).knows(*x),
        x.tree@.rank() == 4,
    ensures
        extends(*old(b), *final(b)),
        final(b).knows(r),
        final(b).consumes(*old(b), set![x.source], r),
        r.tree@ == swapped(x.tree@),
{
    reveal(Builder::knows);
    let order: [usize; 4] = [0, 2, 1, 3];
    assert(order@ =~= seq![0usize, 2, 1, 3]);
    let shape: [usize; 4] = [x.shape[0], x.shape[2], x.shape[1], x.shape[3]];
    assert(shape@ =~= permuted(x.tree@.shape(), seq![0usize, 2, 1, 3]));
    b.apply(OpKind::Transpose, &order, &shape, Elem::Single, x, None, None)
}

fn emit_contracted(
    b: &mut Builder,
    x: &Val,
    y: &Val,
    batch: usize,
    i: usize,
    j: usize,
    shape: &[usize],
) -> (r: Val)
    requires
        old(b).wf(),
        old(b).knows(*x),
        old(b).knows(*y),
    ensures
        extends(*old(b), *final(b)),
        final(b).knows(r),
        final(b).consumes(*old(b), set![x.source, y.source], r),
        r.tree@ == contracted(x.tree@, y.tree@, batch, i, j, shape@),
{
    let list: [usize; 3] = [batch, i, j];
    assert(list@ =~= seq![batch, i, j]);
    b.apply(OpKind::Dot, &list, shape, Elem::Single, x, Some(y), None)
}

fn linear_plain(b: &mut Builder, x: &Val, w: &Val) -> (r: Val)
    requires
        old(b).wf(),
        old(b).knows(*x),
        old(b).knows(*w),
        x.tree@.rank() >= 1,
        w.tree@.rank() >= 1,
    ensures
        extends(*old(b), *final(b)),
        final(b).knows(r),
        final(b).consumes(*old(b), set![x.source, w.source], r),
        r.tree@ == product_with(x.tree@, w.tree@),
{
    reveal(Builder::knows);
    let rank: usize = x.shape.len();
    let mut shape = shape_without(x.shape.as_slice(), rank - 1);
    assert(shape@ =~= x.tree@.shape().drop_last());
    shape.push(w.shape[0]);
    emit_contracted(b, x, w, 0, rank - 1, 1, shape.as_slice())
}

fn linear(b: &mut Builder, x: &Val, w: &Val, bias: &Val) -> (r: Val)
    requires
        old(b).wf(),
        old(b).knows(*x),
        old(b).knows(*w),
        old(b).knows(*bias),
        x.tree@.rank() >= 1,
        w.tree@.rank() >= 1,
    ensures
        extends(*old(b), *final(b)),
        final(b).knows(r),
        final(b).consumes(*old(b), set![x.source, w.source, bias.source], r),
        r.tree@ == affine(x.tree@, w.tree@, bias.tree@),
{
    let y = linear_plain(b, x, w);
    assert(y.shape@ == y.tree@.shape()) by {
        reveal(Builder::knows);
    }
    let last: usize = y.shape.len() - 1;
    let dims: [usize; 1] = [last];
    assert(dims@ =~= seq![last]);
    let spread_bias = emit_spread(b, bias, &dims, y.shape.as_slice());
    b.each(OpKind::Sum, &y, &spread_bias)
}

fn emit_centered(b: &mut Builder, x: &Val, zero: &Val, count: &Val, width: u32) -> (r: Val)
    requires
        old(b).wf(),
        old(b).knows(*x),
        old(b).knows(*zero),
        old(b).knows(*count),
        x.tree@.rank() >= 1,
        zero.tree@ == constant_of(ZERO, Elem::Single),
        count.tree@ == filled(width, x.tree@.shape().drop_last()),
    ensures
        extends(*old(b), *final(b)),
        final(b).knows(r),
        final(b).consumes(*old(b), set![x.source, zero.source, count.source], r),
        r.tree@ == centered(x.tree@, width),
{
    assert(x.shape@ == x.tree@.shape()) by {
        reveal(Builder::knows);
    }
    let axis: usize = x.shape.len() - 1;
    let total = emit_folded(b, OpKind::ReduceSum, x, axis, zero);
    let mean = b.each(OpKind::Quotient, &total, count);
    let dims = iota_list(axis);
    let spread_mean = emit_spread(b, &mean, dims.as_slice(), x.shape.as_slice());
    b.each(OpKind::Difference, x, &spread_mean)
}

fn emit_inverse_deviation(
    b: &mut Builder,
    x: &Val,
    c: &Val,
    zero: &Val,
    count: &Val,
    width: u32,
    epsilon: u32,
) -> (r: Val)
    requires
        old(b).wf(),
        old(b).knows(*x),
        old(b).knows(*c),
        old(b).knows(*zero),
        old(b).knows(*count),
        x.tree@.rank() >= 1,
        c.tree@ == centered(x.tree@, width),
        zero.tree@ == constant_of(ZERO, Elem::Single),
        count.tree@ == filled(width, x.tree@.shape().drop_last()),
    ensures
        extends(*old(b), *final(b)),
        final(b).knows(r),
        final(b).consumes(*old(b), set![c.source, zero.source, count.source], r),
        r.tree@ == inverse_deviation(x.tree@, width, epsilon),
{
    assert(x.shape@ == x.tree@.shape()) by {
        reveal(Builder::knows);
    }
    let axis: usize = x.shape.len() - 1;
    let leading = shape_without(x.shape.as_slice(), axis);
    assert(leading@ =~= x.tree@.shape().drop_last());
    let squared = b.each(OpKind::Product, c, c);
    let total = emit_folded(b, OpKind::ReduceSum, &squared, axis, zero);
    let variance = b.each(OpKind::Quotient, &total, count);
    let guard = emit_filled(b, epsilon, leading.as_slice());
    let guarded = b.each(OpKind::Sum, &variance, &guard);
    b.map_each(OpKind::InverseRoot, &guarded)
}

fn layer_norm(b: &mut Builder, x: &Val, w: &Val, bias: &Val, width: u32, epsilon: u32) -> (r: Val)
    requires
        old(b).wf(),
        old(b).knows(*x),
        old(b).knows(*w),
        old(b).knows(*bias),
        x.tree@.rank() >= 1,
    ensures
        extends(*old(b), *final(b)),
        final(b).knows(r),
        final(b).consumes(*old(b), set![x.source, w.source, bias.source], r),
        r.tree@ == normalized(x.tree@, w.tree@, bias.tree@, width, epsilon),
{
    assert(x.shape@ == x.tree@.shape()) by {
        reveal(Builder::knows);
    }
    let axis: usize = x.shape.len() - 1;
    let leading = shape_without(x.shape.as_slice(), axis);
    assert(leading@ =~= x.tree@.shape().drop_last());
    let zero = b.constant(ZERO);
    let count = emit_filled(b, width, leading.as_slice());
    let c = emit_centered(b, x, &zero, &count, width);
    let inverse = emit_inverse_deviation(b, x, &c, &zero, &count, width, epsilon);
    let dims = iota_list(axis);
    let spread_inverse = emit_spread(b, &inverse, dims.as_slice(), x.shape.as_slice());
    let scaled = b.each(OpKind::Product, &c, &spread_inverse);
    let last: [usize; 1] = [axis];
    assert(last@ =~= seq![axis]);
    let spread_weight = emit_spread(b, w, &last, x.shape.as_slice());
    let spread_bias = emit_spread(b, bias, &last, x.shape.as_slice());
    let weighted = b.each(OpKind::Product, &scaled, &spread_weight);
    b.each(OpKind::Sum, &weighted, &spread_bias)
}

fn tanh_gelu(b: &mut Builder, x: &Val) -> (r: Val)
    requires
        old(b).wf(),
        old(b).knows(*x),
    ensures
        extends(*old(b), *final(b)),
        final(b).knows(r),
        final(b).consumes(*old(b), set![x.source], r),
        r.tree@ == gelu(x.tree@),
{
    assert(x.shape@ == x.tree@.shape()) by {
        reveal(Builder::knows);
    }
    let shape = x.shape.as_slice();
    let half = emit_filled(b, HALF, shape);
    let one = emit_filled(b, ONE, shape);
    let coefficient = emit_filled(b, GELU_CUBIC, shape);
    let scale = emit_filled(b, GELU_SCALE, shape);
    let squared = b.each(OpKind::Product, x, x);
    let cubed = b.each(OpKind::Product, &squared, x);
    let nonlinear = b.each(OpKind::Product, &coefficient, &cubed);
    let inner = b.each(OpKind::Sum, x, &nonlinear);
    let scaled = b.each(OpKind::Product, &scale, &inner);
    let tanh = b.map_each(OpKind::Tanh, &scaled);
    let cdf = b.each(OpKind::Sum, &one, &tanh);
    let half_value = b.each(OpKind::Product, x, &half);
    b.each(OpKind::Product, &half_value, &cdf)
}

fn silu(b: &mut Builder, x: &Val) -> (r: Val)
    requires
        old(b).wf(),
        old(b).knows(*x),
    ensures
        extends(*old(b), *final(b)),
        final(b).knows(r),
        final(b).consumes(*old(b), set![x.source], r),
        r.tree@ == swish(x.tree@),
{
    assert(x.shape@ == x.tree@.shape()) by {
        reveal(Builder::knows);
    }
    let one = emit_filled(b, ONE, x.shape.as_slice());
    let negative = b.map_each(OpKind::Negate, x);
    let exponential = b.map_each(OpKind::Exponential, &negative);
    let denominator = b.each(OpKind::Sum, &one, &exponential);
    b.each(OpKind::Quotient, x, &denominator)
}

fn softmax_last(b: &mut Builder, scores: &Val) -> (r: Val)
    requires
        old(b).wf(),
        old(b).knows(*scores),
        scores.tree@.rank() >= 1,
    ensures
        extends(*old(b), *final(b)),
        final(b).knows(r),
        final(b).consumes(*old(b), set![scores.source], r),
        r.tree@ == softmax(scores.tree@),
{
    assert(scores.shape@ == scores.tree@.shape()) by {
        reveal(Builder::knows);
    }
    let axis: usize = scores.shape.len() - 1;
    let dims = iota_list(axis);
    let lowest = b.constant(NEGATIVE_INFINITY);
    let maximum = emit_folded(b, OpKind::ReduceMaximum, scores, axis, &lowest);
    let spread_maximum = emit_spread(b, &maximum, dims.as_slice(), scores.shape.as_slice());
    let shifted = b.each(OpKind::Difference, scores, &spread_maximum);
    let powers = b.map_each(OpKind::Exponential, &shifted);
    let zero = b.constant(ZERO);
    let total = emit_folded(b, OpKind::ReduceSum, &powers, axis, &zero);
    let spread_total = emit_spread(b, &total, dims.as_slice(), scores.shape.as_slice());
    b.each(OpKind::Quotient, &powers, &spread_total)
}

/// The place of the first occurrence of a layer from `from` on.
pub open spec fn slot_of(selected: Seq<usize>, layer: usize, from: int) -> Option<int>
    decreases selected.len() - from,
{
    if from < 0 || from >= selected.len() {
        None
    } else if selected[from] == layer {
        Some(from)
    } else {
        slot_of(selected, layer, from + 1)
    }
}

/// The place of a layer among the selected ones, in the order of the adapter.
pub fn selected_slot(selected_layers: &[usize], layer: usize) -> (r: Option<usize>)
    ensures
        match r {
            Some(slot) => slot_of(selected_layers@, layer, 0) == Some(slot as int) && slot
                < selected_layers@.len() && selected_layers@[slot as int] == layer,
            None => slot_of(selected_layers@, layer, 0) is None && forall|i: int|
                0 <= i < selected_layers@.len() ==> #[trigger] selected_layers@[i] != layer,
        },
{
    let mut i: usize = 0;
    while i < selected_layers.len()
        invariant
            i <= selected_layers@.len(),
            slot_of(selected_layers@, layer, 0) == slot_of(selected_layers@, layer, i as int),
            forall|j: int| 0 <= j < i ==> #[trigger] selected_layers@[j] != layer,
        decreases selected_layers@.len() - i,
    {
        if selected_layers[i] == layer {
            return Some(i);
        }
        i += 1;
    }
    None
}

/// A projection split into heads, heads in front of positions.
pub open spec fn in_heads(x: Expr, n: usize, len: usize, heads: usize, dim: usize) -> Expr {
    swapped(reshaped(x, seq![n, len, heads, dim]))
}

/// Scaled scores of queries against keys.
pub open spec fn scores_of(q: Expr, k: Expr, shape: Seq<usize>, scale: u32) -> Expr {
    each(OpKind::Product, contracted(q, k, 2, 3, 3, shape), filled(scale, shape))
}

/// Values weighed by probabilities, heads joined, and projected.
pub open spec fn mixed(
    p: Expr,
    v: Expr,
    heads_shape: Seq<usize>,
    joined: Seq<usize>,
    w: Expr,
    b: Expr,
) -> Expr {
    affine(reshaped(swapped(contracted(p, v, 2, 3, 2, heads_shape)), joined), w, b)
}

/// Self-attention of the patches of each crop; the projections are the arguments from
/// `base` on.
pub open spec fn self_attended(
    x: Expr,
    args: Seq<TensorType>,
    base: int,
    c: Molmo2VisionConfig,
    k: VisionConstants,
) -> Expr {
    let n = c.static_crops;
    let len = c.patches_per_crop;
    let q = in_heads(
        affine(x, argument(args, base), argument(args, base + 1)),
        n,
        len,
        c.heads,
        c.head_dim,
    );
    let key = in_heads(
        affine(x, argument(args, base + 2), argument(args, base + 3)),
        n,
        len,
        c.heads,
        c.head_dim,
    );
    let v = in_heads(
        affine(x, argument(args, base + 4), argument(args, base + 5)),
        n,
        len,
        c.heads,
        c.head_dim,
    );
    let scores = scores_of(q, key, seq![n, c.heads, len, len], k.attention_scale);
    mixed(
        softmax(scores),
        v,
        seq![n, c.heads, len, c.head_dim],
        seq![n, len, c.hidden],
        argument(args, base + 6),
        argument(args, base + 7),
    )
}

/// The hidden states behind the first ViT layer's input: projected patches with their
/// positions. The patches are the first argument behind the weights.
pub open spec fn embedded(args: Seq<TensorType>, c: Molmo2VisionConfig, patches: int) -> Expr {
    each(
        OpKind::Sum,
        affine(argument(args, patches), argument(args, 0), argument(args, 1)),
        spread(
            argument(args, 2),
            seq![1usize, 2],
            seq![c.static_crops, c.patches_per_crop, c.hidden],
        ),
    )
}

/// The first weight of a ViT layer.
pub open spec fn layer_base(layer: int) -> int {
    3 + 16 * layer
}

/// One ViT layer: attention and feed-forward, each on the normalized states and added to
/// them.
pub open spec fn layer_of(
    h: Expr,
    args: Seq<TensorType>,
    base: int,
    c: Molmo2VisionConfig,
    k: VisionConstants,
) -> Expr {
    let attention = self_attended(
        normalized(h, argument(args, base + 8), argument(args, base + 9), k.hidden, k.epsilon),
        args,
        base,
        c,
        k,
    );
    let residual = each(OpKind::Sum, h, attention);
    let inner = gelu(
        affine(
            normalized(
                residual,
                argument(args, base + 10),
                argument(args, base + 11),
                k.hidden,
                k.epsilon,
            ),
            argument(args, base + 12),
            argument(args, base + 13),
        ),
    );
    each(
        OpKind::Sum,
        residual,
        affine(inner, argument(args, base + 14), argument(args, base + 15)),
    )
}

/// The hidden states behind `n` layers.
pub open spec fn hidden_behind(
    args: Seq<TensorType>,
    c: Molmo2VisionConfig,
    k: VisionConstants,
    patches: int,
    n: nat,
) -> Expr
    decreases n,
{
    if n == 0 {
        embedded(args, c, patches)
    } else {
        layer_of(
            hidden_behind(args, c, k, patches, (n - 1) as nat),
            args,
            layer_base(n - 1),
            c,
            k,
        )
    }
}

/// The states behind the first `n` selected layers, side by side in the order of the
/// adapter.
pub open spec fn selected_states(
    args: Seq<TensorType>,
    c: Molmo2VisionConfig,
    k: VisionConstants,
    patches: int,
    n: nat,
) -> Expr
    decreases n,
{
    let last = hidden_behind(
        args,
        c,
        k,
        patches,
        (c.selected_layers@[n - 1] + 1) as nat,
    );
    if n <= 1 {
        last
    } else {
        node(
            OpKind::Concatenate,
            seq![2usize],
            seq![c.static_crops, c.patches_per_crop, (c.hidden * n) as usize],
            Elem::Single,
            Some(selected_states(args, c, k, patches, (n - 1) as nat)),
            Some(last),
            None,
        )
    }
}

/// The patch features: one row per patch of every crop.
pub open spec fn features_of(
    args: Seq<TensorType>,
    c: Molmo2VisionConfig,
    k: VisionConstants,
    patches: int,
) -> Expr {
    reshaped(
        selected_states(args, c, k, patches, c.selected_layers@.len()),
        seq![
            (c.static_crops * c.patches_per_crop) as usize,
            (c.hidden * c.selected_layers@.len()) as usize,
        ],
    )
}

/// Zeros for every pooling entry.
pub open spec fn entry_zeros(c: Molmo2VisionConfig) -> Expr {
    node(
        OpKind::Broadcast,
        Seq::empty(),
        seq![c.static_pool_groups, c.pool_size],
        Elem::Integer,
        Some(constant_of(0, Elem::Integer)),
        None,
        None,
    )
}

/// Which pooling entries are valid: those that are not negative.
pub open spec fn valid_entries(signed: Expr, c: Molmo2VisionConfig) -> Expr {
    node(
        OpKind::AtLeast,
        Seq::empty(),
        seq![c.static_pool_groups, c.pool_size],
        Elem::Truth,
        Some(signed),
        Some(entry_zeros(c)),
        None,
    )
}

/// 1 for a valid entry, 0 for any other.
pub open spec fn entry_weights(signed: Expr, c: Molmo2VisionConfig) -> Expr {
    node(
        OpKind::ToSingle,
        Seq::empty(),
        seq![c.static_pool_groups, c.pool_size],
        Elem::Single,
        Some(valid_entries(signed, c)),
        None,
        None,
    )
}

/// The width of the selected layers together.
pub open spec fn feature_width(c: Molmo2VisionConfig) -> usize {
    (c.hidden * c.selected_layers@.len()) as usize
}

/// The features of the pooling entries: negative indices read row 0 and are set to zero.
pub open spec fn gathered_of(features: Expr, signed: Expr, c: Molmo2VisionConfig) -> Expr {
    let groups = c.static_pool_groups;
    let size = c.pool_size;
    let safe = node(
        OpKind::Reshape,
        Seq::empty(),
        seq![groups, size, 1usize],
        Elem::Integer,
        Some(
            node(
                OpKind::Maximum,
                Seq::empty(),
                seq![groups, size],
                Elem::Integer,
                Some(signed),
                Some(entry_zeros(c)),
                None,
            ),
        ),
        None,
        None,
    );
    let rows = node(
        OpKind::GatherRows,
        Seq::empty(),
        seq![groups, size, feature_width(c)],
        Elem::Single,
        Some(features),
        Some(safe),
        None,
    );
    each(
        OpKind::Product,
        rows,
        spread(
            entry_weights(signed, c),
            seq![0usize, 1],
            seq![groups, size, feature_width(c)],
        ),
    )
}

/// The mean of each group: over its valid entries where pooling is masked, else over all
/// entries.
pub open spec fn pool_query(
    gathered: Expr,
    signed: Expr,
    c: Molmo2VisionConfig,
    k: VisionConstants,
) -> Expr {
    let groups = c.static_pool_groups;
    let counts = reduced(OpKind::ReduceSum, entry_weights(signed, c), 1, ZERO);
    let denominator = if c.pooling_attention_mask {
        each(OpKind::Maximum, counts, filled(ONE, seq![groups]))
    } else {
        filled(k.pool_size, seq![groups])
    };
    each(
        OpKind::Quotient,
        reduced(OpKind::ReduceSum, gathered, 1, ZERO),
        spread(denominator, seq![0usize], seq![groups, feature_width(c)]),
    )
}

/// Scores of the pooling attention; masked entries get the masked score.
pub open spec fn pool_scores(
    q: Expr,
    key: Expr,
    signed: Expr,
    c: Molmo2VisionConfig,
    k: VisionConstants,
) -> Expr {
    let shape = seq![c.static_pool_groups, c.pool_heads, 1usize, c.pool_size];
    let scores = scores_of(q, key, shape, k.pool_scale);
    if c.pooling_attention_mask {
        node(
            OpKind::Select,
            Seq::empty(),
            shape,
            Elem::Single,
            Some(
                node(
                    OpKind::Broadcast,
                    seq![0usize, 3],
                    shape,
                    Elem::Truth,
                    Some(valid_entries(signed, c)),
                    None,
                    None,
                ),
            ),
            Some(scores),
            Some(filled(MASKED, shape)),
        )
    } else {
        scores
    }
}

/// Pooling of the patch features by attention of each group's mean over its entries.
pub open spec fn pooled_of(
    features: Expr,
    signed: Expr,
    args: Seq<TensorType>,
    base: int,
    c: Molmo2VisionConfig,
    k: VisionConstants,
) -> Expr {
    let groups = c.static_pool_groups;
    let gathered = gathered_of(features, signed, c);
    let q = in_heads(
        affine(
            pool_query(gathered, signed, c, k),
            argument(args, base),
            argument(args, base + 1),
        ),
        groups,
        1,
        c.pool_heads,
        c.pool_head_dim,
    );
    let key = in_heads(
        affine(gathered, argument(args, base + 2), argument(args, base + 3)),
        groups,
        c.pool_size,
        c.pool_heads,
        c.pool_head_dim,
    );
    let v = in_heads(
        affine(gathered, argument(args, base + 4), argument(args, base + 5)),
        groups,
        c.pool_size,
        c.pool_heads,
        c.pool_head_dim,
    );
    mixed(
        softmax(pool_scores(q, key, signed, c, k)),
        v,
        seq![groups, c.pool_heads, 1usize, c.pool_head_dim],
        seq![groups, c.pool_hidden],
        argument(args, base + 6),
        argument(args, base + 7),
    )
}

/// The gated projector on pooled features.
pub open spec fn projected_of(pooled: Expr, args: Seq<TensorType>, base: int) -> Expr {
    product_with(
        each(
            OpKind::Product,
            swish(product_with(pooled, argument(args, base))),
            product_with(pooled, argument(args, base + 2)),
        ),
        argument(args, base + 1),
    )
}

/// The output of the vision tower. Arguments are the weights, the patches and the signed
/// pooling indices.
pub open spec fn vision_output(
    args: Seq<TensorType>,
    c: Molmo2VisionConfig,
    k: VisionConstants,
) -> Expr {
    let pool = layer_base(c.emitted_layers as int);
    let patches = pool + 11;
    let pooled = pooled_of(
        features_of(args, c, k, patches),
        argument(args, patches + 1),
        args,
        pool,
        c,
        k,
    );
    projected_of(pooled, args, pool + 8)
}

/// Every argument has a dimension.
pub open spec fn ranked(args: Seq<TensorType>) -> bool {
    forall|i: int| 0 <= i < args.len() ==> (#[trigger] args[i]).shape@.len() >= 1
}

fn emit_in_heads(
    b: &mut Builder,
    x: &Val,
    weight: usize,
    n: usize,
    len: usize,
    heads: usize,
    dim: usize,
) -> (r: Val)
    requires
        old(b).wf(),
        old(b).knows(*x),
        ranked(old(b).args@),
        weight + 1 < old(b).args.len(),
        x.tree@.rank() >= 1,
    ensures
        extends(*old(b), *final(b)),
        final(b).knows(r),
        final(b).consumes(*old(b), set![x.source], r),
        r.tree@ == in_heads(
            affine(
                x.tree@,
                argument(old(b).args@, weight as int),
                argument(old(b).args@, weight + 1),
            ),
            n,
            len,
            heads,
            dim,
        ),
{
    let w = b.arg(weight);
    let bias = b.arg(weight + 1);
    assert(w.tree@.rank() >= 1);
    let y = linear(b, x, &w, &bias);
    let shape: [usize; 4] = [n, len, heads, dim];
    assert(shape@ =~= seq![n, len, heads, dim]);
    let split = emit_reshaped(b, &y, &shape);
    emit_swapped(b, &split)
}

fn emit_scores(b: &mut Builder, q: &Val, k: &Val, shape: &[usize], scale: u32) -> (r: Val)
    requires
        old(b).wf(),
        old(b).knows(*q),
        old(b).knows(*k),
    ensures
        extends(*old(b), *final(b)),
        final(b).knows(r),
        final(b).consumes(*old(b), set![q.source, k.source], r),
        r.tree@ == scores_of(q.tree@, k.tree@, shape@, scale),
{
    let raw = emit_contracted(b, q, k, 2, 3, 3, shape);
    let factor = emit_filled(b, scale, shape);
    b.each(OpKind::Product, &raw, &factor)
}

fn emit_mixed(
    b: &mut Builder,
    p: &Val,
    v: &Val,
    heads_shape: &[usize],
    joined: &[usize],
    weight: usize,
) -> (r: Val)
    requires
        old(b).wf(),
        old(b).knows(*p),
        old(b).knows(*v),
        ranked(old(b).args@),
        weight + 1 < old(b).args.len(),
        heads_shape@.len() == 4,
        joined@.len() >= 1,
    ensures
        extends(*old(b), *final(b)),
        final(b).knows(r),
        final(b).consumes(*old(b), set![p.source, v.source], r),
        r.tree@ == mixed(
            p.tree@,
            v.tree@,
            heads_shape@,
            joined@,
            argument(old(b).args@, weight as int),
            argument(old(b).args@, weight + 1),
        ),
{
    let w = b.arg(weight);
    let bias = b.arg(weight + 1);
    assert(w.tree@.rank() >= 1);
    let context = emit_contracted(b, p, v, 2, 3, 2, heads_shape);
    let turned = emit_swapped(b, &context);
    let flat = emit_reshaped(b, &turned, joined);
    linear(b, &flat, &w, &bias)
}

fn self_attention(
    b: &mut Builder,
    x: &Val,
    base: usize,
    c: &Molmo2VisionConfig,
    k: &VisionConstants,
) -> (r: Val)
    requires
        old(b).wf(),
        old(b).knows(*x),
        ranked(old(b).args@),
        base + 8 <= old(b).args@.len(),
        x.tree@.rank() >= 1,
    ensures
        extends(*old(b), *final(b)),
        final(b).knows(r),
        final(b).consumes(*old(b), set![x.source], r),
        r.tree@ == self_attended(x.tree@, old(b).args@, base as int, *c, *k),
{
    let n: usize = c.static_crops;
    let len: usize = c.patches_per_crop;
    let ghost before = b.args@;
    assert(b.args.len() == before.len());
    let q = emit_in_heads(b, x, base, n, len, c.heads, c.head_dim);
    let key = emit_in_heads(b, x, base + 2, n, len, c.heads, c.head_dim);
    let v = emit_in_heads(b, x, base + 4, n, len, c.heads, c.head_dim);
    let score_shape: [usize; 4] = [n, c.heads, len, len];
    assert(score_shape@ =~= seq![n, c.heads, len, len]);
    let scores = emit_scores(b, &q, &key, &score_shape, k.attention_scale);
    let probabilities = softmax_last(b, &scores);
    let heads_shape: [usize; 4] = [n, c.heads, len, c.head_dim];
    assert(heads_shape@ =~= seq![n, c.heads, len, c.head_dim]);
    let joined: [usize; 3] = [n, len, c.hidden];
    assert(joined@ =~= seq![n, len, c.hidden]);
    emit_mixed(b, &probabilities, &v, &heads_shape, &joined, base + 6)
}

fn emit_layer(
    b: &mut Builder,
    h: &Val,
    base: usize,
    c: &Molmo2VisionConfig,
    k: &VisionConstants,
) -> (r: Val)
    requires
        old(b).wf(),
        old(b).knows(*h),
        ranked(old(b).args@),
        base + 16 <= old(b).args@.len(),
        h.tree@.rank() >= 1,
    ensures
        extends(*old(b), *final(b)),
        final(b).knows(r),
        final(b).consumes(*old(b), set![h.source], r),
        r.tree@ == layer_of(h.tree@, old(b).args@, base as int, *c, *k),
{
    let ghost args = b.args@;
    assert(b.args.len() == args.len());
    let norm_weight = b.arg(base + 8);
    let norm_bias = b.arg(base + 9);
    let quiet = layer_norm(b, h, &norm_weight, &norm_bias, k.hidden, k.epsilon);
    let attention = self_attention(b, &quiet, base, c, k);
    let residual = b.each(OpKind::Sum, h, &attention);
    let ffn_weight = b.arg(base + 10);
    let ffn_bias = b.arg(base + 11);
    let second = layer_norm(b, &residual, &ffn_weight, &ffn_bias, k.hidden, k.epsilon);
    let w1 = b.arg(base + 12);
    let b1 = b.arg(base + 13);
    let w2 = b.arg(base + 14);
    let b2 = b.arg(base + 15);
    assert(w1.tree@.rank() >= 1 && w2.tree@.rank() >= 1);
    let wide = linear(b, &second, &w1, &b1);
    let active = tanh_gelu(b, &wide);
    let narrow = linear(b, &active, &w2, &b2);
    b.each(OpKind::Sum, &residual, &narrow)
}

/// The zeros, the valid entries and their weights.
fn emit_entries(b: &mut Builder, signed: &Val, c: &Molmo2VisionConfig) -> (r: (Val, Val, Val))
    requires
        old(b).wf(),
        old(b).knows(*signed),
    ensures
        extends(*old(b), *final(b)),
        final(b).knows(r.0),
        final(b).knows(r.1),
        final(b).knows(r.2),
        final(b).consumes(*old(b), set![signed.source], r.2),
        r.0.tree@ == entry_zeros(*c),
        r.1.tree@ == valid_entries(signed.tree@, *c),
        r.2.tree@ == entry_weights(signed.tree@, *c),
{
    let none: [usize; 0] = [];
    assert(none@ =~= Seq::<usize>::empty());
    let shape: [usize; 2] = [c.static_pool_groups, c.pool_size];
    assert(shape@ =~= seq![c.static_pool_groups, c.pool_size]);
    let zero = b.integer_zero();
    let zeros = b.apply(OpKind::Broadcast, &none, &shape, Elem::Integer, &zero, None, None);
    let valid = b.apply(OpKind::AtLeast, &none, &shape, Elem::Truth, signed, Some(&zeros), None);
    let weights = b.apply(OpKind::ToSingle, &none, &shape, Elem::Single, &valid, None, None);
    (zeros, valid, weights)
}

fn emit_gathered(
    b: &mut Builder,
    features: &Val,
    signed: &Val,
    zeros: &Val,
    weights: &Val,
    c: &Molmo2VisionConfig,
) -> (r: Val)
    requires
        old(b).wf(),
        old(b).knows(*features),
        old(b).knows(*signed),
        old(b).knows(*zeros),
        old(b).knows(*weights),
        zeros.tree@ == entry_zeros(*c),
        weights.tree@ == entry_weights(signed.tree@, *c),
        c.width_fits(),
    ensures
        extends(*old(b), *final(b)),
        final(b).knows(r),
        final(b).consumes(*old(b), set![features.source, signed.source, zeros.source, weights.source], r),
        r.tree@ == gathered_of(features.tree@, signed.tree@, *c),
{
    let groups: usize = c.static_pool_groups;
    let size: usize = c.pool_size;
    let width: usize = c.selected_width();
    let none: [usize; 0] = [];
    assert(none@ =~= Seq::<usize>::empty());
    let shape: [usize; 2] = [groups, size];
    assert(shape@ =~= seq![groups, size]);
    let clamped = b.apply(
        OpKind::Maximum,
        &none,
        &shape,
        Elem::Integer,
        signed,
        Some(zeros),
        None,
    );
    let column: [usize; 3] = [groups, size, 1];
    assert(column@ =~= seq![groups, size, 1usize]);
    let safe = b.apply(OpKind::Reshape, &none, &column, Elem::Integer, &clamped, None, None);
    let wide: [usize; 3] = [groups, size, width];
    assert(wide@ =~= seq![groups, size, width]);
    let rows = b.apply(
        OpKind::GatherRows,
        &none,
        &wide,
        Elem::Single,
        features,
        Some(&safe),
        None,
    );
    let dims: [usize; 2] = [0, 1];
    assert(dims@ =~= seq![0usize, 1]);
    let mask = emit_spread(b, weights, &dims, &wide);
    b.each(OpKind::Product, &rows, &mask)
}

fn emit_pool_query(
    b: &mut Builder,
    gathered: &Val,
    signed: &Val,
    weights: &Val,
    c: &Molmo2VisionConfig,
    k: &VisionConstants,
) -> (r: Val)
    requires
        old(b).wf(),
        old(b).knows(*gathered),
        old(b).knows(*signed),
        old(b).knows(*weights),
        weights.tree@ == entry_weights(signed.tree@, *c),
        gathered.tree@.rank() == 3,
        c.width_fits(),
    ensures
        extends(*old(b), *final(b)),
        final(b).knows(r),
        final(b).consumes(*old(b), set![gathered.source], r),
        r.tree@ == pool_query(gathered.tree@, signed.tree@, *c, *k),
        r.tree@.rank() == 2,
{
    let groups: usize = c.static_pool_groups;
    let width: usize = c.selected_width();
    let zero = b.constant(ZERO);
    let sums = emit_folded(b, OpKind::ReduceSum, gathered, 1, &zero);
    let one_shape: [usize; 1] = [groups];
    assert(one_shape@ =~= seq![groups]);
    let denominator = if c.pooling_attention_mask {
        let counts = emit_folded(b, OpKind::ReduceSum, weights, 1, &zero);
        let ones = emit_filled(b, ONE, &one_shape);
        b.each(OpKind::Maximum, &counts, &ones)
    } else {
        emit_filled(b, k.pool_size, &one_shape)
    };
    let dims: [usize; 1] = [0];
    assert(dims@ =~= seq![0usize]);
    let shape: [usize; 2] = [groups, width];
    assert(shape@ =~= seq![groups, width]);
    let divisor = emit_spread(b, &denominator, &dims, &shape);
    b.each(OpKind::Quotient, &sums, &divisor)
}

fn emit_pool_scores(
    b: &mut Builder,
    q: &Val,
    key: &Val,
    signed: &Val,
    valid: &Val,
    c: &Molmo2VisionConfig,
    k: &VisionConstants,
) -> (r: Val)
    requires
        old(b).wf(),
        old(b).knows(*q),
        old(b).knows(*key),
        old(b).knows(*signed),
        old(b).knows(*valid),
        valid.tree@ == valid_entries(signed.tree@, *c),
    ensures
        extends(*old(b), *final(b)),
        final(b).knows(r),
        final(b).consumes(*old(b), set![q.source, key.source], r),
        r.tree@ == pool_scores(q.tree@, key.tree@, signed.tree@, *c, *k),
        r.tree@.rank() == 4,
{
    let shape: [usize; 4] = [c.static_pool_groups, c.pool_heads, 1, c.pool_size];
    assert(shape@ =~= seq![c.static_pool_groups, c.pool_heads, 1usize, c.pool_size]);
    let scores = emit_scores(b, q, key, &shape, k.pool_scale);
    if c.pooling_attention_mask {
        let none: [usize; 0] = [];
        assert(none@ =~= Seq::<usize>::empty());
        let dims: [usize; 2] = [0, 3];
        assert(dims@ =~= seq![0usize, 3]);
        let mask = b.apply(OpKind::Broadcast, &dims, &shape, Elem::Truth, valid, None, None);
        let masked = emit_filled(b, MASKED, &shape);
        b.apply(
            OpKind::Select,
            &none,
            &shape,
            Elem::Single,
            &mask,
            Some(&scores),
            Some(&masked),
        )
    } else {
        scores
    }
}

fn indexed_pool(
    b: &mut Builder,
    features: &Val,
    signed: &Val,
    base: usize,
    c: &Molmo2VisionConfig,
    k: &VisionConstants,
) -> (r: Val)
    requires
        old(b).wf(),
        old(b).knows(*features),
        old(b).knows(*signed),
        ranked(old(b).args@),
        base + 8 <= old(b).args.len(),
        c.width_fits(),
    ensures
        extends(*old(b), *final(b)),
        final(b).knows(r),
        final(b).consumes(*old(b), set![features.source, signed.source], r),
        r.tree@ == pooled_of(features.tree@, signed.tree@, old(b).args@, base as int, *c, *k),
        r.tree@.rank() == 2,
{
    let ghost args = b.args@;
    assert(b.args.len() == args.len());
    let groups: usize = c.static_pool_groups;
    let (zeros, valid, weights) = emit_entries(b, signed, c);
    let gathered = emit_gathered(b, features, signed, &zeros, &weights, c);
    assert(gathered.tree@.rank() == 3);
    let query = emit_pool_query(b, &gathered, signed, &weights, c, k);
    let q = emit_in_heads(b, &query, base, groups, 1, c.pool_heads, c.pool_head_dim);
    let key = emit_in_heads(
        b,
        &gathered,
        base + 2,
        groups,
        c.pool_size,
        c.pool_heads,
        c.pool_head_dim,
    );
    let v = emit_in_heads(
        b,
        &gathered,
        base + 4,
        groups,
        c.pool_size,
        c.pool_heads,
        c.pool_head_dim,
    );
    let scores = emit_pool_scores(b, &q, &key, signed, &valid, c, k);
    let probabilities = softmax_last(b, &scores);
    let heads_shape: [usize; 4] = [groups, c.pool_heads, 1, c.pool_head_dim];
    assert(heads_shape@ =~= seq![groups, c.pool_heads, 1usize, c.pool_head_dim]);
    let joined: [usize; 2] = [groups, c.pool_hidden];
    assert(joined@ =~= seq![groups, c.pool_hidden]);
    emit_mixed(b, &probabilities, &v, &heads_shape, &joined, base + 6)
}

fn emit_projected(b: &mut Builder, pooled: &Val, base: usize) -> (r: Val)
    requires
        old(b).wf(),
        old(b).knows(*pooled),
        ranked(old(b).args@),
        base + 3 <= old(b).args.len(),
        pooled.tree@.rank() >= 1,
    ensures
        extends(*old(b), *final(b)),
        final(b).knows(r),
        final(b).consumes(*old(b), set![pooled.source], r),
        r.tree@ == projected_of(pooled.tree@, old(b).args@, base as int),
{
    let ghost args = b.args@;
    assert(b.args.len() == args.len());
    let w1 = b.arg(base);
    let w2 = b.arg(base + 1);
    let w3 = b.arg(base + 2);
    assert(w1.tree@.rank() >= 1 && w2.tree@.rank() >= 1 && w3.tree@.rank() >= 1);
    let gate = linear_plain(b, pooled, &w1);
    let open = silu(b, &gate);
    let up = linear_plain(b, pooled, &w3);
    let gated = b.each(OpKind::Product, &open, &up);
    linear_plain(b, &gated, &w2)
}

proof fn lemma_hidden_shape(
    args: Seq<TensorType>,
    c: Molmo2VisionConfig,
    k: VisionConstants,
    patches: int,
    n: nat,
)
    requires
        args[patches].shape@.len() == 3,
    ensures
        hidden_behind(args, c, k, patches, n).rank() == 3,
    decreases n,
{
    if n > 0 {
        lemma_hidden_shape(args, c, k, patches, (n - 1) as nat);
    }
}

/// The layers that the adapter selects are distinct layers of the tower, the last one
/// among them.
pub open spec fn selects_layers(c: Molmo2VisionConfig) -> bool {
    &&& c.selected_layers@.len() > 0
    &&& forall|i: int|
        0 <= i < c.selected_layers@.len() ==> #[trigger] c.selected_layers@[i] < c.emitted_layers
    &&& forall|i: int, j: int|
        0 <= i < j < c.selected_layers@.len() ==> c.selected_layers@[i] != c.selected_layers@[j]
    &&& exists|i: int|
        0 <= i < c.selected_layers@.len() && #[trigger] c.selected_layers@[i] == c.emitted_layers
            - 1
}

/// A slot holds the result of operation `k`.
spec fn slot_is(slots: Seq<Option<Val>>, i: int, k: usize) -> bool {
    slots[i] matches Some(v) && v.source == Source::Op(k)
}

/// One of the first `n` slots holds the result of operation `k`.
spec fn in_slots(slots: Seq<Option<Val>>, n: int, k: usize) -> bool {
    exists|i: int| 0 <= i < n && #[trigger] slot_is(slots, i, k)
}

/// A slot holds the states behind its layer once that layer is emitted.
spec fn slot_filled(
    b: Builder,
    c: Molmo2VisionConfig,
    k: VisionConstants,
    patches: int,
    slots: Seq<Option<Val>>,
    i: int,
) -> bool {
    slots[i] matches Some(v) && b.knows(v) && v.tree@ == hidden_behind(
        b.args@,
        c,
        k,
        patches,
        (c.selected_layers@[i] + 1) as nat,
    )
}

/// The states behind each selected layer, in the order of the adapter.
fn emit_selected(
    b: &mut Builder,
    c: &Molmo2VisionConfig,
    k: &VisionConstants,
    patches: usize,
) -> (r: Vec<Option<Val>>)
    requires
        old(b).wf(),
        ranked(old(b).args@),
        patches < old(b).args.len(),
        layer_base(c.emitted_layers as int) <= patches,
        old(b).args@[patches as int].shape@.len() == 3,
        selects_layers(*c),
    ensures
        extends(*old(b), *final(b)),
        old(b).ops@.len() == 0 ==> forall|k: usize| #[trigger]
            final(b).is_unused(k) ==> in_slots(r@, r@.len() as int, k),
        r@.len() == c.selected_layers@.len(),
        forall|i: int|
            0 <= i < r@.len() ==> #[trigger] slot_filled(
                *final(b),
                *c,
                *k,
                patches as int,
                r@,
                i,
            ),
{
    let ghost before = *b;
    let ghost args = b.args@;
    let count: usize = c.selected_layers.len();
    let mut slots: Vec<Option<Val>> = Vec::new();
    let mut i: usize = 0;
    while i < count
        invariant
            i <= count,
            slots@.len() == i,
        decreases count - i,
    {
        slots.push(None);
        i += 1;
    }
    let input = b.arg(patches);
    let w = b.arg(0);
    let bias = b.arg(1);
    let places = b.arg(2);
    assert(w.tree@.rank() >= 1);
    let projected = linear(b, &input, &w, &bias);
    let dims: [usize; 2] = [1, 2];
    assert(dims@ =~= seq![1usize, 2]);
    let shape: [usize; 3] = [c.static_crops, c.patches_per_crop, c.hidden];
    assert(shape@ =~= seq![c.static_crops, c.patches_per_crop, c.hidden]);
    let position = emit_spread(b, &places, &dims, &shape);
    let mut hidden = b.each(OpKind::Sum, &projected, &position);
    assert(hidden.tree@ == hidden_behind(args, *c, *k, patches as int, 0));
    let mut layer: usize = 0;
    while layer < c.emitted_layers
        invariant
            layer <= c.emitted_layers,
            extends(before, *b),
            b.args@ == args,
            ranked(args),
            patches < b.args.len(),
            layer_base(c.emitted_layers as int) <= patches,
            args[patches as int].shape@.len() == 3,
            selects_layers(*c),
            b.knows(hidden),
            before.ops@.len() == 0 ==> forall|k: usize| #[trigger]
                b.is_unused(k) ==> hidden.source == Source::Op(k),
            forall|i: int|
                0 <= i < slots@.len() && #[trigger] c.selected_layers@[i] == layer - 1 ==> (
                slots@[i] matches Some(v) && v.source == hidden.source),
            hidden.tree@ == hidden_behind(args, *c, *k, patches as int, layer as nat),
            slots@.len() == c.selected_layers@.len(),
            forall|i: int|
                0 <= i < slots@.len() && c.selected_layers@[i] < layer ==> #[trigger] slot_filled(
                    *b,
                    *c,
                    *k,
                    patches as int,
                    slots@,
                    i,
                ),
        decreases c.emitted_layers - layer,
    {
        proof {
            lemma_hidden_shape(args, *c, *k, patches as int, layer as nat);
        }
        let base: usize = 3 + 16 * layer;
        let ghost earlier = *b;
        let next = emit_layer(b, &hidden, base, c, k);
        assert(next.tree@ == hidden_behind(args, *c, *k, patches as int, (layer + 1) as nat));
        assert forall|i: int|
            0 <= i < slots@.len() && c.selected_layers@[i] < layer implies #[trigger] slot_filled(
            *b,
            *c,
            *k,
            patches as int,
            slots@,
            i,
        ) by {
            assert(slot_filled(earlier, *c, *k, patches as int, slots@, i));
        }
        hidden = next;
        let ghost filled = slots@;
        if let Some(slot) = selected_slot(c.selected_layers.as_slice(), layer) {
            slots.set(slot, Some(hidden.again()));
            assert forall|i: int|
                0 <= i < slots@.len() && c.selected_layers@[i] < layer
                    + 1 implies #[trigger] slot_filled(
                *b,
                *c,
                *k,
                patches as int,
                slots@,
                i,
            ) by {
                reveal(Builder::knows);
                if i != slot {
                    assert(c.selected_layers@[i] != c.selected_layers@[slot as int]);
                    assert(slot_filled(*b, *c, *k, patches as int, filled, i));
                }
            }
        } else {
            assert forall|i: int|
                0 <= i < slots@.len() && c.selected_layers@[i] < layer
                    + 1 implies #[trigger] slot_filled(
                *b,
                *c,
                *k,
                patches as int,
                slots@,
                i,
            ) by {
                assert(c.selected_layers@[i] != layer);
            }
        }
        layer += 1;
    }
    proof {
        let last = choose|i: int|
            0 <= i < c.selected_layers@.len() && #[trigger] c.selected_layers@[i]
                == c.emitted_layers - 1;
        if before.ops@.len() == 0 {
            assert forall|k: usize| #[trigger] b.is_unused(k) implies in_slots(
                slots@,
                slots@.len() as int,
                k,
            ) by {
                assert(slot_is(slots@, last, k));
            }
        }
    }
    slots
}

/// Join the states behind the selected layers.
fn emit_features(
    b: &mut Builder,
    c: &Molmo2VisionConfig,
    k: &VisionConstants,
    patches: usize,
    slots: &Vec<Option<Val>>,
) -> (r: Val)
    requires
        old(b).wf(),
        slots@.len() == c.selected_layers@.len(),
        selects_layers(*c),
        c.width_fits(),
        c.static_crops * c.patches_per_crop <= usize::MAX,
        forall|i: int|
            0 <= i < slots@.len() ==> #[trigger] slot_filled(
                *old(b),
                *c,
                *k,
                patches as int,
                slots@,
                i,
            ),
    ensures
        extends(*old(b), *final(b)),
        final(b).knows(r),
        forall|k: usize| #[trigger]
            final(b).is_unused(k) ==> r.source == Source::Op(k) || (old(b).is_unused(k)
                && !in_slots(slots@, slots@.len() as int, k)),
        r.tree@ == features_of(old(b).args@, *c, *k, patches as int),
{
    let ghost before = *b;
    let ghost args = b.args@;
    assert(slot_filled(*b, *c, *k, patches as int, slots@, 0));
    let mut joined = slots[0].as_ref().unwrap().again();
    assert(b.knows(joined)) by {
        reveal(Builder::knows);
    }
    proof {
        assert forall|k: usize| #[trigger] b.is_unused(k) implies joined.source == Source::Op(k) || (
        before.is_unused(k) && !in_slots(slots@, 1, k)) by {
            if in_slots(slots@, 1, k) {
                assert(slot_is(slots@, 0, k));
            }
        }
    }
    let mut i: usize = 1;
    while i < slots.len()
        invariant
            1 <= i <= slots@.len(),
            slots@.len() == c.selected_layers@.len(),
            c.width_fits(),
            extends(before, *b),
            b.args@ == args,
            b.knows(joined),
            forall|k: usize| #[trigger]
                b.is_unused(k) ==> joined.source == Source::Op(k) || (before.is_unused(k)
                    && !in_slots(slots@, i as int, k)),
            joined.tree@ == selected_states(args, *c, *k, patches as int, i as nat),
            forall|j: int|
                0 <= j < slots@.len() ==> #[trigger] slot_filled(
                    before,
                    *c,
                    *k,
                    patches as int,
                    slots@,
                    j,
                ),
            before.args@ == args,
        decreases slots@.len() - i,
    {
        assert(slot_filled(before, *c, *k, patches as int, slots@, i as int));
        let feature = slots[i].as_ref().unwrap();
        assert(b.knows(*feature));
        let list: [usize; 1] = [2];
        assert(list@ =~= seq![2usize]);
        assert(c.hidden * (i + 1) <= c.hidden * slots@.len()) by (nonlinear_arith)
            requires
                i + 1 <= slots@.len(),
                c.hidden >= 0,
        ;
        let ghost earlier = *b;
        let width: usize = c.hidden * (i + 1);
        let shape: [usize; 3] = [c.static_crops, c.patches_per_crop, width];
        assert(shape@ =~= seq![c.static_crops, c.patches_per_crop, width]);
        joined = b.apply(
            OpKind::Concatenate,
            &list,
            &shape,
            Elem::Single,
            &joined,
            Some(feature),
            None,
        );
        assert forall|k: usize| #[trigger] b.is_unused(k) implies joined.source == Source::Op(k) || (
        before.is_unused(k) && !in_slots(slots@, i + 1, k)) by {
            if joined.source != Source::Op(k) {
                assert(earlier.is_unused(k));
                if in_slots(slots@, i + 1, k) {
                    let j = choose|j: int| 0 <= j < i + 1 && #[trigger] slot_is(slots@, j, k);
                    if j < i {
                        assert(in_slots(slots@, i as int, k));
                    }
                }
            }
        }
        i += 1;
    }
    let width: usize = c.selected_width();
    let shape: [usize; 2] = [c.static_crops * c.patches_per_crop, width];
    assert(shape@ =~= seq![(c.static_crops * c.patches_per_crop) as usize, width]);
    emit_reshaped(b, &joined, &shape)
}

/// Build the program of the vision tower. It has no operation that is not a part of the
/// output.
pub fn build_vision(args: Vec<TensorType>, c: &Molmo2VisionConfig, k: &VisionConstants) -> (r: (
    Builder,
    Val,
))
    requires
        ranked(args@),
        args.len() == layer_base(c.emitted_layers as int) + 13,
        args@[args@.len() - 2].shape@.len() == 3,
        selects_layers(*c),
        c.width_fits(),
        c.static_crops * c.patches_per_crop <= usize::MAX,
    ensures
        r.0.wf(),
        r.0.args == args,
        r.0.knows(r.1),
        r.1.tree@ == vision_output(args@, *c, *k),
        forall|j: int|
            0 <= j < r.0.ops@.len() ==> is_part(
                #[trigger] meaning(r.0.ops@, r.0.args@, Source::Op(j as usize)),
                r.1.tree@,
            ),
{
    let n: usize = args.len();
    let ghost types = args@;
    let mut b = Builder::new(args);
    let slots = emit_selected(&mut b, c, k, n - 2);
    let features = emit_features(&mut b, c, k, n - 2, &slots);
    let signed = b.arg(n - 1);
    let pooled = indexed_pool(&mut b, &features, &signed, n - 13, c, k);
    let projected = emit_projected(&mut b, &pooled, n - 5);
    let total: usize = b.ops.len();
    proof {
        assert forall|j: int| 0 <= j < total implies is_part(
            #[trigger] meaning(b.ops@, b.args@, Source::Op(j as usize)),
            projected.tree@,
        ) by {
            b.lemma_all_parts(projected, j as usize);
        }
    }
    (b, projected)
}

} // verus!
