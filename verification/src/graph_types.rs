//! Types of tensor programs: which operations fit their operands, and that the program of
//! the vision tower does.
use vstd::prelude::*;

use crate::graph::{
    argument, boxed, constant_of, each, is_part, lemma_part_of_part, map_each, meaning, node,
    Builder, Elem, Expr, OpKind, Source, TensorType, Val,
};
use crate::graph_text::are_argument_types;
use crate::molmo2_config::{
    adapter_weights, embedding_weights, tower_weights, vit_layer_weights, vit_weights,
    Molmo2VisionConfig, VisionWeightView,
};
use crate::vision_graph::{
    affine, centered, contracted, entry_weights, entry_zeros, feature_width, features_of, filled,
    gathered_of, gelu, hidden_behind, in_heads, inverse_deviation, iota, layer_base, layer_of,
    mixed, normalized, permuted, pool_query, pool_scores, pooled_of, product_with, projected_of,
    reduced, reshaped, scores_of, selected_states, selects_layers, self_attended, softmax, spread,
    swapped, swish, valid_entries, vision_output, VisionConstants,
};

verus! {

/// The type of a tensor.
pub ghost struct Typ {
    pub shape: Seq<usize>,
    pub elem: Elem,
}

/// The type of an expression.
pub open spec fn type_of(e: Expr) -> Typ {
    match e {
        Expr::Arg { shape, elem, .. } => Typ { shape, elem },
        Expr::Node { shape, elem, .. } => Typ { shape, elem },
    }
}

/// The type of an operand.
pub open spec fn operand_type(e: Option<Box<Expr>>) -> Option<Typ> {
    match e {
        Some(x) => Some(type_of(*x)),
        None => None,
    }
}

/// The number of elements of a shape.
pub open spec fn volume(shape: Seq<usize>) -> nat
    decreases shape.len(),
{
    if shape.len() == 0 {
        1
    } else {
        volume(shape.drop_last()) * shape.last() as nat
    }
}

/// A shape goes to these dimensions of a larger one, in order.
pub open spec fn spreads(from: Seq<usize>, dims: Seq<usize>, to: Seq<usize>) -> bool {
    &&& dims.len() == from.len()
    &&& forall|i: int|
        0 <= i < dims.len() ==> #[trigger] dims[i] < to.len() && to[dims[i] as int] == from[i]
    &&& forall|i: int, j: int| 0 <= i < j < dims.len() ==> dims[i] < dims[j]
}

/// A list names every dimension once.
pub open spec fn is_order(list: Seq<usize>, rank: nat) -> bool {
    &&& list.len() == rank
    &&& forall|i: int| 0 <= i < list.len() ==> #[trigger] list[i] < rank
    &&& forall|i: int, j: int| 0 <= i < j < list.len() ==> list[i] != list[j]
}

/// The shape of a contraction of dimension `i` of `x` with dimension `j` of `y` behind
/// `batch` shared dimensions.
pub open spec fn contracts(
    x: Seq<usize>,
    y: Seq<usize>,
    batch: int,
    i: int,
    j: int,
    out: Seq<usize>,
) -> bool {
    &&& 0 <= batch <= i < x.len()
    &&& batch <= j < y.len()
    &&& x[i] == y[j]
    &&& forall|d: int| 0 <= d < batch ==> x[d] == y[d]
    &&& out == x.remove(i) + y.remove(j).subrange(batch, y.len() - 1)
}

/// Two shapes that differ in one dimension, and their join along it.
pub open spec fn joins(x: Seq<usize>, y: Seq<usize>, axis: int, out: Seq<usize>) -> bool {
    &&& 0 <= axis < x.len()
    &&& x.len() == y.len() && x.len() == out.len()
    &&& forall|d: int| 0 <= d < x.len() && d != axis ==> x[d] == y[d] && x[d] == #[trigger] out[d]
    &&& out[axis] == x[axis] + y[axis]
}

/// An operation fits operands of these types and gives a result of this type.
pub open spec fn fits(
    kind: OpKind,
    list: Seq<usize>,
    out: Typ,
    a: Option<Typ>,
    b: Option<Typ>,
    c: Option<Typ>,
) -> bool {
    match kind {
        OpKind::Constant => a is None && b is None && c is None && out.shape.len() == 0,
        OpKind::Sum | OpKind::Difference | OpKind::Product | OpKind::Quotient | OpKind::Maximum => a
            == Some(out) && b == Some(out) && c is None && out.elem != Elem::Truth,
        OpKind::InverseRoot | OpKind::Tanh | OpKind::Negate | OpKind::Exponential => a == Some(
            out,
        ) && b is None && c is None && out.elem == Elem::Single,
        OpKind::Broadcast => a matches Some(x) && x.elem == out.elem && spreads(
            x.shape,
            list,
            out.shape,
        ) && b is None && c is None,
        OpKind::Reshape => a matches Some(x) && x.elem == out.elem && volume(x.shape) == volume(
            out.shape,
        ) && b is None && c is None,
        OpKind::Transpose => a matches Some(x) && x.elem == out.elem && is_order(
            list,
            x.shape.len(),
        ) && out.shape == permuted(x.shape, list) && b is None && c is None,
        OpKind::Dot => a matches Some(x) && (b matches Some(y) && x.elem == Elem::Single && y.elem
            == Elem::Single && out.elem == Elem::Single && list.len() == 3 && contracts(
            x.shape,
            y.shape,
            list[0] as int,
            list[1] as int,
            list[2] as int,
            out.shape,
        )) && c is None,
        OpKind::ReduceSum | OpKind::ReduceMaximum => a matches Some(x) && x.elem == out.elem && b
            == Some(Typ { shape: Seq::empty(), elem: x.elem }) && list.len() == 1 && list[0]
            < x.shape.len() && out.shape == x.shape.remove(list[0] as int) && c is None,
        OpKind::AtLeast => a == Some(Typ { shape: out.shape, elem: Elem::Integer }) && b == a
            && out.elem == Elem::Truth && c is None,
        OpKind::ToSingle => a == Some(Typ { shape: out.shape, elem: Elem::Truth }) && out.elem
            == Elem::Single && b is None && c is None,
        OpKind::GatherRows => a matches Some(x) && (b matches Some(rows) && x.shape.len() == 2
            && x.elem == out.elem && rows.elem == Elem::Integer && rows.shape.len() >= 1
            && rows.shape.last() == 1 && out.shape == rows.shape.drop_last().push(x.shape[1])) && c
            is None,
        OpKind::Select => a == Some(Typ { shape: out.shape, elem: Elem::Truth }) && b == Some(out)
            && c == Some(out),
        OpKind::Concatenate => a matches Some(x) && (b matches Some(y) && x.elem == out.elem
            && y.elem == out.elem && list.len() == 1 && joins(
            x.shape,
            y.shape,
            list[0] as int,
            out.shape,
        )) && c is None,
    }
}

/// Every operation of an expression fits its operands.
#[verifier::opaque]
pub open spec fn well_typed(e: Expr) -> bool
    decreases e,
{
    match e {
        Expr::Arg { .. } => true,
        Expr::Node { kind, list, shape, elem, a, b, c, .. } => {
            &&& a matches Some(x) ==> well_typed(*x)
            &&& b matches Some(x) ==> well_typed(*x)
            &&& c matches Some(x) ==> well_typed(*x)
            &&& fits(
                kind,
                list,
                Typ { shape, elem },
                operand_type(a),
                operand_type(b),
                operand_type(c),
            )
        },
    }
}

/// A well-typed expression of a type.
pub open spec fn typed(e: Expr, shape: Seq<usize>, elem: Elem) -> bool {
    well_typed(e) && type_of(e) == (Typ { shape, elem })
}

/// A well-typed expression of singles.
pub open spec fn singles(e: Expr, shape: Seq<usize>) -> bool {
    typed(e, shape, Elem::Single)
}

proof fn lemma_node(
    kind: OpKind,
    list: Seq<usize>,
    shape: Seq<usize>,
    elem: Elem,
    a: Option<Expr>,
    b: Option<Expr>,
    c: Option<Expr>,
)
    requires
        a matches Some(x) ==> well_typed(x),
        b matches Some(x) ==> well_typed(x),
        c matches Some(x) ==> well_typed(x),
        fits(
            kind,
            list,
            Typ { shape, elem },
            operand_type(boxed(a)),
            operand_type(boxed(b)),
            operand_type(boxed(c)),
        ),
    ensures
        typed(node(kind, list, shape, elem, a, b, c), shape, elem),
{
    reveal(well_typed);
}

proof fn lemma_argument(args: Seq<TensorType>, i: int)
    ensures
        typed(argument(args, i), args[i].shape@, args[i].elem),
{
    reveal(well_typed);
}

proof fn lemma_constant(bits: u32, elem: Elem)
    ensures
        typed(constant_of(bits, elem), Seq::empty(), elem),
{
    reveal(well_typed);
}

proof fn lemma_spread(x: Expr, from: Seq<usize>, dims: Seq<usize>, to: Seq<usize>)
    requires
        singles(x, from),
        spreads(from, dims, to),
    ensures
        singles(spread(x, dims, to), to),
{
    lemma_node(OpKind::Broadcast, dims, to, Elem::Single, Some(x), None, None);
}

proof fn lemma_filled(bits: u32, shape: Seq<usize>)
    ensures
        singles(filled(bits, shape), shape),
{
    lemma_constant(bits, Elem::Single);
    lemma_spread(constant_of(bits, Elem::Single), Seq::empty(), Seq::empty(), shape);
}

/// An operation on two singles.
pub open spec fn is_binary(kind: OpKind) -> bool {
    kind == OpKind::Sum || kind == OpKind::Difference || kind == OpKind::Product || kind
        == OpKind::Quotient || kind == OpKind::Maximum
}

/// A function of a single.
pub open spec fn is_unary(kind: OpKind) -> bool {
    kind == OpKind::InverseRoot || kind == OpKind::Tanh || kind == OpKind::Negate || kind
        == OpKind::Exponential
}

proof fn lemma_each(kind: OpKind, a: Expr, b: Expr, shape: Seq<usize>)
    requires
        is_binary(kind),
        singles(a, shape),
        singles(b, shape),
    ensures
        singles(each(kind, a, b), shape),
{
    lemma_node(kind, Seq::empty(), shape, Elem::Single, Some(a), Some(b), None);
}

proof fn lemma_map_each(kind: OpKind, a: Expr, shape: Seq<usize>)
    requires
        is_unary(kind),
        singles(a, shape),
    ensures
        singles(map_each(kind, a), shape),
{
    lemma_node(kind, Seq::empty(), shape, Elem::Single, Some(a), None, None);
}

proof fn lemma_reduced(kind: OpKind, x: Expr, shape: Seq<usize>, axis: int, init: u32)
    requires
        kind == OpKind::ReduceSum || kind == OpKind::ReduceMaximum,
        singles(x, shape),
        0 <= axis < shape.len() <= 4,
    ensures
        singles(reduced(kind, x, axis, init), shape.remove(axis)),
{
    lemma_constant(init, Elem::Single);
    lemma_node(
        kind,
        seq![axis as usize],
        shape.remove(axis),
        Elem::Single,
        Some(x),
        Some(constant_of(init, Elem::Single)),
        None,
    );
}

proof fn lemma_reshaped(x: Expr, from: Seq<usize>, to: Seq<usize>)
    requires
        singles(x, from),
        volume(from) == volume(to),
    ensures
        singles(reshaped(x, to), to),
{
    lemma_node(OpKind::Reshape, Seq::empty(), to, Elem::Single, Some(x), None, None);
}

proof fn lemma_swapped(x: Expr, s: Seq<usize>)
    requires
        singles(x, s),
        s.len() == 4,
    ensures
        singles(swapped(x), seq![s[0], s[2], s[1], s[3]]),
{
    let order = seq![0usize, 2, 1, 3];
    assert(is_order(order, 4));
    assert(permuted(s, order) =~= seq![s[0], s[2], s[1], s[3]]);
    lemma_node(
        OpKind::Transpose,
        order,
        permuted(s, order),
        Elem::Single,
        Some(x),
        None,
        None,
    );
}

proof fn lemma_contracted(
    x: Expr,
    y: Expr,
    xs: Seq<usize>,
    ys: Seq<usize>,
    batch: usize,
    i: usize,
    j: usize,
    shape: Seq<usize>,
)
    requires
        singles(x, xs),
        singles(y, ys),
        contracts(xs, ys, batch as int, i as int, j as int, shape),
    ensures
        singles(contracted(x, y, batch, i, j, shape), shape),
{
    lemma_node(
        OpKind::Dot,
        seq![batch, i, j],
        shape,
        Elem::Single,
        Some(x),
        Some(y),
        None,
    );
}

proof fn lemma_product_with(x: Expr, w: Expr, xs: Seq<usize>, rows: usize, columns: usize)
    requires
        singles(x, xs),
        1 <= xs.len() <= 4,
        xs.last() == columns,
        singles(w, seq![rows, columns]),
    ensures
        singles(product_with(x, w), xs.drop_last().push(rows)),
{
    let out = xs.drop_last().push(rows);
    let ws = seq![rows, columns];
    assert(out =~= xs.remove(xs.len() - 1) + ws.remove(1).subrange(0, 1));
    lemma_contracted(x, w, xs, ws, 0, (xs.len() - 1) as usize, 1, out);
}

proof fn lemma_affine(x: Expr, w: Expr, b: Expr, xs: Seq<usize>, rows: usize, columns: usize)
    requires
        singles(x, xs),
        1 <= xs.len() <= 4,
        xs.last() == columns,
        singles(w, seq![rows, columns]),
        singles(b, seq![rows]),
    ensures
        singles(affine(x, w, b), xs.drop_last().push(rows)),
{
    let out = xs.drop_last().push(rows);
    lemma_product_with(x, w, xs, rows, columns);
    let y = product_with(x, w);
    let last = seq![(y.rank() - 1) as usize];
    assert(spreads(seq![rows], last, out));
    lemma_spread(b, seq![rows], last, out);
    lemma_each(OpKind::Sum, y, spread(b, last, out), out);
}

proof fn lemma_leading(s: Seq<usize>)
    requires
        1 <= s.len() <= 4,
    ensures
        s.remove(s.len() - 1) == s.drop_last(),
        spreads(s.drop_last(), iota(s.len() - 1), s),
        spreads(seq![s.last()], seq![(s.len() - 1) as usize], s),
{
    assert(s.remove(s.len() - 1) =~= s.drop_last());
}

proof fn lemma_centered(x: Expr, s: Seq<usize>, width: u32)
    requires
        singles(x, s),
        1 <= s.len() <= 4,
    ensures
        singles(centered(x, width), s),
{
    lemma_leading(s);
    let axis = s.len() - 1;
    let lead = s.drop_last();
    lemma_reduced(OpKind::ReduceSum, x, s, axis, crate::vision_graph::ZERO);
    lemma_filled(width, lead);
    let total = reduced(OpKind::ReduceSum, x, axis, crate::vision_graph::ZERO);
    lemma_each(OpKind::Quotient, total, filled(width, lead), lead);
    let mean = each(OpKind::Quotient, total, filled(width, lead));
    lemma_spread(mean, lead, iota(axis), s);
    lemma_each(OpKind::Difference, x, spread(mean, iota(axis), s), s);
}

proof fn lemma_normalized(x: Expr, w: Expr, b: Expr, s: Seq<usize>, width: u32, epsilon: u32)
    requires
        singles(x, s),
        1 <= s.len() <= 4,
        singles(w, seq![s.last()]),
        singles(b, seq![s.last()]),
    ensures
        singles(normalized(x, w, b, width, epsilon), s),
{
    lemma_leading(s);
    let axis = s.len() - 1;
    let lead = s.drop_last();
    let zero = crate::vision_graph::ZERO;
    lemma_centered(x, s, width);
    let c = centered(x, width);
    lemma_each(OpKind::Product, c, c, s);
    let squared = each(OpKind::Product, c, c);
    lemma_reduced(OpKind::ReduceSum, squared, s, axis, zero);
    lemma_filled(width, lead);
    lemma_filled(epsilon, lead);
    let total = reduced(OpKind::ReduceSum, squared, axis, zero);
    lemma_each(OpKind::Quotient, total, filled(width, lead), lead);
    let variance = each(OpKind::Quotient, total, filled(width, lead));
    lemma_each(OpKind::Sum, variance, filled(epsilon, lead), lead);
    let guarded = each(OpKind::Sum, variance, filled(epsilon, lead));
    lemma_map_each(OpKind::InverseRoot, guarded, lead);
    let inverse = inverse_deviation(x, width, epsilon);
    assert(inverse == map_each(OpKind::InverseRoot, guarded));
    lemma_spread(inverse, lead, iota(axis), s);
    lemma_each(OpKind::Product, c, spread(inverse, iota(axis), s), s);
    let scaled = each(OpKind::Product, c, spread(inverse, iota(axis), s));
    let last = seq![axis as usize];
    lemma_spread(w, seq![s.last()], last, s);
    lemma_spread(b, seq![s.last()], last, s);
    lemma_each(OpKind::Product, scaled, spread(w, last, s), s);
    lemma_each(
        OpKind::Sum,
        each(OpKind::Product, scaled, spread(w, last, s)),
        spread(b, last, s),
        s,
    );
}

proof fn lemma_gelu(x: Expr, s: Seq<usize>)
    requires
        singles(x, s),
    ensures
        singles(gelu(x), s),
{
    let cubic = filled(crate::vision_graph::GELU_CUBIC, s);
    let scale = filled(crate::vision_graph::GELU_SCALE, s);
    let half = filled(crate::vision_graph::HALF, s);
    let one = filled(crate::vision_graph::ONE, s);
    lemma_filled(crate::vision_graph::GELU_CUBIC, s);
    lemma_filled(crate::vision_graph::GELU_SCALE, s);
    lemma_filled(crate::vision_graph::HALF, s);
    lemma_filled(crate::vision_graph::ONE, s);
    lemma_each(OpKind::Product, x, x, s);
    let square = each(OpKind::Product, x, x);
    lemma_each(OpKind::Product, square, x, s);
    let cube = each(OpKind::Product, square, x);
    lemma_each(OpKind::Product, cubic, cube, s);
    let weighed = each(OpKind::Product, cubic, cube);
    lemma_each(OpKind::Sum, x, weighed, s);
    let inner = each(OpKind::Sum, x, weighed);
    lemma_each(OpKind::Product, scale, inner, s);
    let scaled = each(OpKind::Product, scale, inner);
    lemma_map_each(OpKind::Tanh, scaled, s);
    let tanh = map_each(OpKind::Tanh, scaled);
    lemma_each(OpKind::Sum, one, tanh, s);
    lemma_each(OpKind::Product, x, half, s);
    lemma_each(
        OpKind::Product,
        each(OpKind::Product, x, half),
        each(OpKind::Sum, one, tanh),
        s,
    );
}

proof fn lemma_swish(x: Expr, s: Seq<usize>)
    requires
        singles(x, s),
    ensures
        singles(swish(x), s),
{
    let one = filled(crate::vision_graph::ONE, s);
    lemma_filled(crate::vision_graph::ONE, s);
    lemma_map_each(OpKind::Negate, x, s);
    let minus = map_each(OpKind::Negate, x);
    lemma_map_each(OpKind::Exponential, minus, s);
    let power = map_each(OpKind::Exponential, minus);
    lemma_each(OpKind::Sum, one, power, s);
    lemma_each(OpKind::Quotient, x, each(OpKind::Sum, one, power), s);
}

proof fn lemma_softmax(x: Expr, s: Seq<usize>)
    requires
        singles(x, s),
        1 <= s.len() <= 4,
    ensures
        singles(softmax(x), s),
{
    lemma_leading(s);
    let axis = s.len() - 1;
    let lead = s.drop_last();
    let floor = crate::vision_graph::NEGATIVE_INFINITY;
    let zero = crate::vision_graph::ZERO;
    lemma_reduced(OpKind::ReduceMaximum, x, s, axis, floor);
    let maximum = reduced(OpKind::ReduceMaximum, x, axis, floor);
    lemma_spread(maximum, lead, iota(axis), s);
    let shifted = each(OpKind::Difference, x, spread(maximum, iota(axis), s));
    lemma_each(OpKind::Difference, x, spread(maximum, iota(axis), s), s);
    lemma_map_each(OpKind::Exponential, shifted, s);
    let powers = map_each(OpKind::Exponential, shifted);
    lemma_reduced(OpKind::ReduceSum, powers, s, axis, zero);
    let total = reduced(OpKind::ReduceSum, powers, axis, zero);
    lemma_spread(total, lead, iota(axis), s);
    lemma_each(OpKind::Quotient, powers, spread(total, iota(axis), s), s);
}

proof fn lemma_volume_split(a: usize, b: usize, h: usize, d: usize, w: usize)
    requires
        h * d == w,
    ensures
        volume(seq![a, b, w]) == volume(seq![a, b, h, d]),
        volume(seq![a, w]) == volume(seq![a, 1usize, h, d]),
        volume(seq![a, b]) == volume(seq![a, b, 1usize]),
{
    reveal_with_fuel(volume, 5);
    let four = seq![a, b, h, d];
    assert(four.drop_last() =~= seq![a, b, h]);
    assert(seq![a, b, h].drop_last() =~= seq![a, b]);
    assert(seq![a, b, w].drop_last() =~= seq![a, b]);
    assert(seq![a, b, 1usize].drop_last() =~= seq![a, b]);
    let ones = seq![a, 1usize, h, d];
    assert(ones.drop_last() =~= seq![a, 1usize, h]);
    assert(seq![a, 1usize, h].drop_last() =~= seq![a, 1usize]);
    assert(seq![a, 1usize].drop_last() =~= seq![a]);
    assert(seq![a, w].drop_last() =~= seq![a]);
    assert(seq![a, b].drop_last() =~= seq![a]);
    assert(seq![a].drop_last() =~= Seq::<usize>::empty());
    let n = volume(seq![a, b]);
    let m = volume(seq![a]);
    vstd::arithmetic::mul::lemma_mul_is_associative(n as int, h as int, d as int);
    vstd::arithmetic::mul::lemma_mul_is_associative(m as int, h as int, d as int);
    assert(volume(seq![a, b, 1usize]) == n * 1nat) by {
        assert(seq![a, b, 1usize].last() == 1);
    }
    assert(volume(seq![a, 1usize]) == m * 1nat) by {
        assert(seq![a, 1usize].last() == 1);
    }
    assert(volume(seq![a, 1usize, h]) == m * (h as nat));
    assert(volume(ones) == m * (h as nat) * (d as nat));
    assert(volume(seq![a, w]) == m * (w as nat));
}

proof fn lemma_volume_rows(a: usize, b: usize, rows: usize, w: usize)
    requires
        a * b == rows,
    ensures
        volume(seq![a, b, w]) == volume(seq![rows, w]),
{
    reveal_with_fuel(volume, 4);
    assert(seq![a, b, w].drop_last() =~= seq![a, b]);
    assert(seq![a, b].drop_last() =~= seq![a]);
    assert(seq![a].drop_last() =~= Seq::<usize>::empty());
    assert(seq![rows, w].drop_last() =~= seq![rows]);
    assert(seq![rows].drop_last() =~= Seq::<usize>::empty());
    assert(volume(seq![a]) == 1nat * (a as nat));
    assert(volume(seq![rows]) == 1nat * (rows as nat));
    assert(volume(seq![a, b]) == volume(seq![a]) * (b as nat));
    assert(volume(seq![a, b]) == rows as nat);
    assert(volume(seq![a, b, w]) == volume(seq![a, b]) * (w as nat));
    assert(volume(seq![rows, w]) == volume(seq![rows]) * (w as nat));
}

proof fn lemma_in_heads(
    x: Expr,
    from: Seq<usize>,
    n: usize,
    len: usize,
    heads: usize,
    dim: usize,
)
    requires
        singles(x, from),
        volume(from) == volume(seq![n, len, heads, dim]),
    ensures
        singles(in_heads(x, n, len, heads, dim), seq![n, heads, len, dim]),
{
    let split = seq![n, len, heads, dim];
    lemma_reshaped(x, from, split);
    lemma_swapped(reshaped(x, split), split);
}

proof fn lemma_scores_of(
    q: Expr,
    k: Expr,
    n: usize,
    heads: usize,
    len: usize,
    keys: usize,
    dim: usize,
    scale: u32,
)
    requires
        singles(q, seq![n, heads, len, dim]),
        singles(k, seq![n, heads, keys, dim]),
    ensures
        singles(
            scores_of(q, k, seq![n, heads, len, keys], scale),
            seq![n, heads, len, keys],
        ),
{
    let qs = seq![n, heads, len, dim];
    let ks = seq![n, heads, keys, dim];
    let out = seq![n, heads, len, keys];
    assert(out =~= qs.remove(3) + ks.remove(3).subrange(2, 3));
    lemma_contracted(q, k, qs, ks, 2, 3, 3, out);
    lemma_filled(scale, out);
    lemma_each(OpKind::Product, contracted(q, k, 2, 3, 3, out), filled(scale, out), out);
}

proof fn lemma_mixed(
    p: Expr,
    v: Expr,
    n: usize,
    heads: usize,
    len: usize,
    keys: usize,
    dim: usize,
    joined: Seq<usize>,
    w: Expr,
    b: Expr,
    rows: usize,
)
    requires
        singles(p, seq![n, heads, len, keys]),
        singles(v, seq![n, heads, keys, dim]),
        1 <= joined.len() <= 4,
        volume(joined) == volume(seq![n, len, heads, dim]),
        singles(w, seq![rows, joined.last()]),
        singles(b, seq![rows]),
    ensures
        singles(
            mixed(p, v, seq![n, heads, len, dim], joined, w, b),
            joined.drop_last().push(rows),
        ),
{
    let ps = seq![n, heads, len, keys];
    let vs = seq![n, heads, keys, dim];
    let out = seq![n, heads, len, dim];
    assert(out =~= ps.remove(3) + vs.remove(2).subrange(2, 3));
    lemma_contracted(p, v, ps, vs, 2, 3, 2, out);
    let y = contracted(p, v, 2, 3, 2, out);
    lemma_swapped(y, out);
    lemma_reshaped(swapped(y), seq![n, len, heads, dim], joined);
    lemma_affine(reshaped(swapped(y), joined), w, b, joined, rows, joined.last());
}

/// The shape of the hidden states.
pub open spec fn hidden_shape(c: Molmo2VisionConfig) -> Seq<usize> {
    seq![c.static_crops, c.patches_per_crop, c.hidden]
}

/// Arguments from `base` on are a weight and its bias.
pub open spec fn holds_linear(
    args: Seq<TensorType>,
    base: int,
    rows: usize,
    columns: usize,
) -> bool {
    &&& singles(argument(args, base), seq![rows, columns])
    &&& singles(argument(args, base + 1), seq![rows])
}

/// Arguments from `base` on are a scale and a shift.
pub open spec fn holds_norm(args: Seq<TensorType>, base: int, width: usize) -> bool {
    &&& singles(argument(args, base), seq![width])
    &&& singles(argument(args, base + 1), seq![width])
}

/// Arguments from `base` on are the weights of a layer.
pub open spec fn holds_layer(args: Seq<TensorType>, base: int, c: Molmo2VisionConfig) -> bool {
    &&& holds_linear(args, base, c.hidden, c.hidden)
    &&& holds_linear(args, base + 2, c.hidden, c.hidden)
    &&& holds_linear(args, base + 4, c.hidden, c.hidden)
    &&& holds_linear(args, base + 6, c.hidden, c.hidden)
    &&& holds_norm(args, base + 8, c.hidden)
    &&& holds_norm(args, base + 10, c.hidden)
    &&& holds_linear(args, base + 12, c.intermediate, c.hidden)
    &&& holds_linear(args, base + 14, c.hidden, c.intermediate)
}

proof fn lemma_self_attended(
    x: Expr,
    args: Seq<TensorType>,
    base: int,
    c: Molmo2VisionConfig,
    k: VisionConstants,
)
    requires
        singles(x, hidden_shape(c)),
        holds_layer(args, base, c),
        c.heads * c.head_dim == c.hidden,
    ensures
        singles(self_attended(x, args, base, c, k), hidden_shape(c)),
{
    let n = c.static_crops;
    let len = c.patches_per_crop;
    let s = hidden_shape(c);
    assert(s.drop_last().push(c.hidden) =~= s);
    lemma_volume_split(n, len, c.heads, c.head_dim, c.hidden);
    let q0 = affine(x, argument(args, base), argument(args, base + 1));
    lemma_affine(x, argument(args, base), argument(args, base + 1), s, c.hidden, c.hidden);
    lemma_in_heads(q0, s, n, len, c.heads, c.head_dim);
    let k0 = affine(x, argument(args, base + 2), argument(args, base + 3));
    lemma_affine(x, argument(args, base + 2), argument(args, base + 3), s, c.hidden, c.hidden);
    lemma_in_heads(k0, s, n, len, c.heads, c.head_dim);
    let v0 = affine(x, argument(args, base + 4), argument(args, base + 5));
    lemma_affine(x, argument(args, base + 4), argument(args, base + 5), s, c.hidden, c.hidden);
    lemma_in_heads(v0, s, n, len, c.heads, c.head_dim);
    let q = in_heads(q0, n, len, c.heads, c.head_dim);
    let key = in_heads(k0, n, len, c.heads, c.head_dim);
    let v = in_heads(v0, n, len, c.heads, c.head_dim);
    lemma_scores_of(q, key, n, c.heads, len, len, c.head_dim, k.attention_scale);
    let scores = scores_of(q, key, seq![n, c.heads, len, len], k.attention_scale);
    lemma_softmax(scores, seq![n, c.heads, len, len]);
    lemma_mixed(
        softmax(scores),
        v,
        n,
        c.heads,
        len,
        len,
        c.head_dim,
        s,
        argument(args, base + 6),
        argument(args, base + 7),
        c.hidden,
    );
}

proof fn lemma_layer_of(
    h: Expr,
    args: Seq<TensorType>,
    base: int,
    c: Molmo2VisionConfig,
    k: VisionConstants,
)
    requires
        singles(h, hidden_shape(c)),
        holds_layer(args, base, c),
        c.heads * c.head_dim == c.hidden,
    ensures
        singles(layer_of(h, args, base, c, k), hidden_shape(c)),
{
    let s = hidden_shape(c);
    let wide = seq![c.static_crops, c.patches_per_crop, c.intermediate];
    assert(s.drop_last().push(c.intermediate) =~= wide);
    assert(wide.drop_last().push(c.hidden) =~= s);
    let n0 = normalized(h, argument(args, base + 8), argument(args, base + 9), k.hidden, k.epsilon);
    lemma_normalized(
        h,
        argument(args, base + 8),
        argument(args, base + 9),
        s,
        k.hidden,
        k.epsilon,
    );
    lemma_self_attended(n0, args, base, c, k);
    let attention = self_attended(n0, args, base, c, k);
    lemma_each(OpKind::Sum, h, attention, s);
    let residual = each(OpKind::Sum, h, attention);
    let n1 = normalized(
        residual,
        argument(args, base + 10),
        argument(args, base + 11),
        k.hidden,
        k.epsilon,
    );
    lemma_normalized(
        residual,
        argument(args, base + 10),
        argument(args, base + 11),
        s,
        k.hidden,
        k.epsilon,
    );
    let up = affine(n1, argument(args, base + 12), argument(args, base + 13));
    lemma_affine(
        n1,
        argument(args, base + 12),
        argument(args, base + 13),
        s,
        c.intermediate,
        c.hidden,
    );
    lemma_gelu(up, wide);
    lemma_affine(
        gelu(up),
        argument(args, base + 14),
        argument(args, base + 15),
        wide,
        c.hidden,
        c.intermediate,
    );
    lemma_each(
        OpKind::Sum,
        residual,
        affine(gelu(up), argument(args, base + 14), argument(args, base + 15)),
        s,
    );
}

/// Arguments from `base` on are the weights of the adapter.
pub open spec fn holds_adapter(args: Seq<TensorType>, base: int, c: Molmo2VisionConfig) -> bool {
    &&& holds_linear(args, base, c.pool_hidden, feature_width(c))
    &&& holds_linear(args, base + 2, c.pool_hidden, feature_width(c))
    &&& holds_linear(args, base + 4, c.pool_hidden, feature_width(c))
    &&& holds_linear(args, base + 6, c.pool_hidden, c.pool_hidden)
    &&& singles(argument(args, base + 8), seq![c.projector_intermediate, c.pool_hidden])
    &&& singles(argument(args, base + 9), seq![c.text_hidden, c.projector_intermediate])
    &&& singles(argument(args, base + 10), seq![c.projector_intermediate, c.pool_hidden])
}

pub proof fn lemma_vit_weights(c: Molmo2VisionConfig, n: nat, layer: int)
    requires
        0 <= layer < n,
    ensures
        vit_weights(c, n).len() == 16 * n,
        forall|j: int|
            0 <= j < 16 ==> #[trigger] vit_weights(c, n)[16 * layer + j] == vit_layer_weights(
                c,
                layer,
            )[j],
    decreases n,
{
    assert(vit_layer_weights(c, n - 1).len() == 16) by {
        reveal(vit_layer_weights);
    }
    if layer < n - 1 {
        lemma_vit_weights(c, (n - 1) as nat, layer);
    } else if n > 1 {
        lemma_vit_weights(c, (n - 1) as nat, 0);
    } else {
        assert(vit_weights(c, 0).len() == 0);
    }
}

proof fn lemma_two_arguments(
    args: Seq<TensorType>,
    base: int,
    shapes: Seq<VisionWeightView>,
    j: int,
)
    requires
        0 <= j < shapes.len() - 1,
        forall|i: int|
            0 <= i < shapes.len() ==> singles(
                #[trigger] argument(args, base + i),
                shapes[i].shape,
            ),
    ensures
        singles(argument(args, base + j), shapes[j].shape),
        singles(argument(args, base + j + 1), shapes[j + 1].shape),
{
    let next = j + 1;
    assert(singles(argument(args, base + next), shapes[next].shape));
    assert(base + j + 1 == base + next);
}

proof fn lemma_layer_arguments(c: Molmo2VisionConfig, args: Seq<TensorType>, layer: int)
    requires
        are_argument_types(c, args),
        0 <= layer < c.emitted_layers,
    ensures
        holds_layer(args, layer_base(layer), c),
{
    let base = layer_base(layer);
    let n = c.emitted_layers as nat;
    lemma_vit_weights(c, n, layer);
    let w = vit_layer_weights(c, layer);
    assert(embedding_weights(c).len() == 3);
    assert forall|j: int| 0 <= j < 16 implies singles(
        #[trigger] argument(args, base + j),
        w[j].shape,
    ) by {
        assert(tower_weights(c)[base + j] == vit_weights(c, n)[16 * layer + j]);
        lemma_argument(args, base + j);
    }
    reveal(vit_layer_weights);
    lemma_two_arguments(args, base, w, 0);
    lemma_two_arguments(args, base, w, 2);
    lemma_two_arguments(args, base, w, 4);
    lemma_two_arguments(args, base, w, 6);
    lemma_two_arguments(args, base, w, 8);
    lemma_two_arguments(args, base, w, 10);
    lemma_two_arguments(args, base, w, 12);
    lemma_two_arguments(args, base, w, 14);
}

proof fn lemma_outer_arguments(c: Molmo2VisionConfig, args: Seq<TensorType>)
    requires
        are_argument_types(c, args),
        c.emitted_layers > 0,
    ensures
        holds_linear(args, 0, c.hidden, c.patch_dim),
        singles(argument(args, 2), seq![c.position_count, c.hidden]),
        holds_adapter(args, layer_base(c.emitted_layers as int), c),
        singles(
            argument(args, layer_base(c.emitted_layers as int) + 11),
            seq![c.static_crops, c.patches_per_crop, c.patch_dim],
        ),
        typed(
            argument(args, layer_base(c.emitted_layers as int) + 12),
            seq![c.static_pool_groups, c.pool_size],
            Elem::Integer,
        ),
{
    let n = c.emitted_layers as nat;
    let base = layer_base(n as int);
    lemma_vit_weights(c, n, 0);
    let front = embedding_weights(c);
    assert forall|j: int| 0 <= j < 3 implies singles(
        #[trigger] argument(args, j),
        front[j].shape,
    ) by {
        assert(tower_weights(c)[j] == front[j]);
        lemma_argument(args, j);
    }
    assert(singles(argument(args, 0), front[0].shape));
    let w = adapter_weights(c);
    reveal(adapter_weights);
    assert(w.len() == 11);
    assert forall|j: int| 0 <= j < 11 implies singles(
        #[trigger] argument(args, base + j),
        w[j].shape,
    ) by {
        assert(tower_weights(c)[base + j] == w[j]);
        lemma_argument(args, base + j);
    }
    lemma_two_arguments(args, base, w, 0);
    lemma_two_arguments(args, base, w, 2);
    lemma_two_arguments(args, base, w, 4);
    lemma_two_arguments(args, base, w, 6);
    lemma_two_arguments(args, base, w, 8);
    lemma_two_arguments(args, base, w, 9);
    lemma_argument(args, base + 11);
    lemma_argument(args, base + 12);
}

proof fn lemma_hidden_behind(
    args: Seq<TensorType>,
    c: Molmo2VisionConfig,
    k: VisionConstants,
    n: nat,
)
    requires
        are_argument_types(c, args),
        1 <= c.emitted_layers,
        n <= c.emitted_layers,
        c.heads * c.head_dim == c.hidden,
        c.position_count == c.patches_per_crop,
    ensures
        singles(
            hidden_behind(args, c, k, layer_base(c.emitted_layers as int) + 11, n),
            hidden_shape(c),
        ),
    decreases n,
{
    let patches = layer_base(c.emitted_layers as int) + 11;
    let s = hidden_shape(c);
    if n == 0 {
        lemma_outer_arguments(c, args);
        let xs = seq![c.static_crops, c.patches_per_crop, c.patch_dim];
        let (x, w, b) = (argument(args, patches), argument(args, 0), argument(args, 1));
        assert(xs.drop_last().push(c.hidden) =~= s);
        lemma_affine(x, w, b, xs, c.hidden, c.patch_dim);
        let dims = seq![1usize, 2];
        assert(spreads(seq![c.position_count, c.hidden], dims, s));
        lemma_spread(argument(args, 2), seq![c.position_count, c.hidden], dims, s);
        lemma_each(OpKind::Sum, affine(x, w, b), spread(argument(args, 2), dims, s), s);
    } else {
        lemma_hidden_behind(args, c, k, (n - 1) as nat);
        lemma_layer_arguments(c, args, n - 1);
        lemma_layer_of(
            hidden_behind(args, c, k, patches, (n - 1) as nat),
            args,
            layer_base(n - 1),
            c,
            k,
        );
    }
}

proof fn lemma_selected_states(
    args: Seq<TensorType>,
    c: Molmo2VisionConfig,
    k: VisionConstants,
    n: nat,
)
    requires
        are_argument_types(c, args),
        selects_layers(c),
        c.width_fits(),
        c.heads * c.head_dim == c.hidden,
        c.position_count == c.patches_per_crop,
        1 <= n <= c.selected_layers@.len(),
    ensures
        singles(
            selected_states(args, c, k, layer_base(c.emitted_layers as int) + 11, n),
            seq![c.static_crops, c.patches_per_crop, (c.hidden * n) as usize],
        ),
    decreases n,
{
    let patches = layer_base(c.emitted_layers as int) + 11;
    let layer = c.selected_layers@[n - 1];
    assert(c.selected_layers@[n - 1] < c.emitted_layers);
    let depth = (layer + 1) as nat;
    lemma_hidden_behind(args, c, k, depth);
    let last = hidden_behind(args, c, k, patches, depth);
    let total = c.selected_layers@.len();
    assert(c.hidden * n <= c.hidden * total) by (nonlinear_arith)
        requires
            n <= total,
            c.hidden >= 0,
    ;
    if n > 1 {
        let m = (n - 1) as nat;
        lemma_selected_states(args, c, k, m);
        assert(c.hidden * n == c.hidden * m + c.hidden) by (nonlinear_arith)
            requires
                n == m + 1,
        ;
        assert(c.hidden * m >= 0) by (nonlinear_arith)
            requires
                c.hidden >= 0,
                m >= 0,
        ;
        let xs = seq![c.static_crops, c.patches_per_crop, (c.hidden * m) as usize];
        let out = seq![c.static_crops, c.patches_per_crop, (c.hidden * n) as usize];
        assert(joins(xs, hidden_shape(c), 2, out));
        lemma_node(
            OpKind::Concatenate,
            seq![2usize],
            out,
            Elem::Single,
            Some(selected_states(args, c, k, patches, m)),
            Some(last),
            None,
        );
    } else {
        assert(c.hidden * n == c.hidden) by (nonlinear_arith)
            requires
                n == 1,
        ;
    }
}

proof fn lemma_features(args: Seq<TensorType>, c: Molmo2VisionConfig, k: VisionConstants)
    requires
        are_argument_types(c, args),
        selects_layers(c),
        c.width_fits(),
        c.heads * c.head_dim == c.hidden,
        c.position_count == c.patches_per_crop,
        c.static_crops * c.patches_per_crop <= usize::MAX,
    ensures
        singles(
            features_of(args, c, k, layer_base(c.emitted_layers as int) + 11),
            seq![(c.static_crops * c.patches_per_crop) as usize, feature_width(c)],
        ),
{
    let patches = layer_base(c.emitted_layers as int) + 11;
    let n = c.selected_layers@.len();
    lemma_selected_states(args, c, k, n);
    assert(c.static_crops * c.patches_per_crop >= 0) by (nonlinear_arith)
        requires
            c.static_crops >= 0,
            c.patches_per_crop >= 0,
    ;
    let rows = (c.static_crops * c.patches_per_crop) as usize;
    lemma_volume_rows(c.static_crops, c.patches_per_crop, rows, feature_width(c));
    lemma_reshaped(
        selected_states(args, c, k, patches, n),
        seq![c.static_crops, c.patches_per_crop, feature_width(c)],
        seq![rows, feature_width(c)],
    );
}

proof fn lemma_entries(signed: Expr, c: Molmo2VisionConfig)
    requires
        typed(signed, seq![c.static_pool_groups, c.pool_size], Elem::Integer),
    ensures
        typed(entry_zeros(c), seq![c.static_pool_groups, c.pool_size], Elem::Integer),
        typed(valid_entries(signed, c), seq![c.static_pool_groups, c.pool_size], Elem::Truth),
        singles(entry_weights(signed, c), seq![c.static_pool_groups, c.pool_size]),
{
    let s = seq![c.static_pool_groups, c.pool_size];
    let none = Seq::<usize>::empty();
    lemma_constant(0, Elem::Integer);
    let zero = constant_of(0, Elem::Integer);
    lemma_node(OpKind::Broadcast, none, s, Elem::Integer, Some(zero), None, None);
    lemma_node(
        OpKind::AtLeast,
        none,
        s,
        Elem::Truth,
        Some(signed),
        Some(entry_zeros(c)),
        None,
    );
    lemma_node(
        OpKind::ToSingle,
        none,
        s,
        Elem::Single,
        Some(valid_entries(signed, c)),
        None,
        None,
    );
}

proof fn lemma_gathered(features: Expr, rows: usize, signed: Expr, c: Molmo2VisionConfig)
    requires
        singles(features, seq![rows, feature_width(c)]),
        typed(signed, seq![c.static_pool_groups, c.pool_size], Elem::Integer),
    ensures
        singles(
            gathered_of(features, signed, c),
            seq![c.static_pool_groups, c.pool_size, feature_width(c)],
        ),
{
    let groups = c.static_pool_groups;
    let size = c.pool_size;
    let s = seq![groups, size];
    let column = seq![groups, size, 1usize];
    let out = seq![groups, size, feature_width(c)];
    let none = Seq::<usize>::empty();
    lemma_entries(signed, c);
    lemma_node(
        OpKind::Maximum,
        none,
        s,
        Elem::Integer,
        Some(signed),
        Some(entry_zeros(c)),
        None,
    );
    let raised = node(
        OpKind::Maximum,
        none,
        s,
        Elem::Integer,
        Some(signed),
        Some(entry_zeros(c)),
        None,
    );
    lemma_volume_split(groups, size, 0, 0, 0);
    lemma_node(OpKind::Reshape, none, column, Elem::Integer, Some(raised), None, None);
    let safe = node(OpKind::Reshape, none, column, Elem::Integer, Some(raised), None, None);
    assert(out =~= column.drop_last().push(feature_width(c)));
    lemma_node(OpKind::GatherRows, none, out, Elem::Single, Some(features), Some(safe), None);
    let taken = node(
        OpKind::GatherRows,
        none,
        out,
        Elem::Single,
        Some(features),
        Some(safe),
        None,
    );
    let dims = seq![0usize, 1];
    assert(spreads(s, dims, out));
    lemma_spread(entry_weights(signed, c), s, dims, out);
    lemma_each(OpKind::Product, taken, spread(entry_weights(signed, c), dims, out), out);
}

proof fn lemma_pool_query(
    gathered: Expr,
    signed: Expr,
    c: Molmo2VisionConfig,
    k: VisionConstants,
)
    requires
        singles(gathered, seq![c.static_pool_groups, c.pool_size, feature_width(c)]),
        typed(signed, seq![c.static_pool_groups, c.pool_size], Elem::Integer),
    ensures
        singles(
            pool_query(gathered, signed, c, k),
            seq![c.static_pool_groups, feature_width(c)],
        ),
{
    let zero = crate::vision_graph::ZERO;
    let groups = c.static_pool_groups;
    let s = seq![groups, c.pool_size];
    let all = seq![groups, c.pool_size, feature_width(c)];
    let row = seq![groups];
    let out = seq![groups, feature_width(c)];
    lemma_entries(signed, c);
    lemma_reduced(OpKind::ReduceSum, entry_weights(signed, c), s, 1, zero);
    assert(s.remove(1) =~= row);
    let counts = reduced(OpKind::ReduceSum, entry_weights(signed, c), 1, zero);
    lemma_filled(crate::vision_graph::ONE, row);
    lemma_filled(k.pool_size, row);
    lemma_each(OpKind::Maximum, counts, filled(crate::vision_graph::ONE, row), row);
    let denominator = if c.pooling_attention_mask {
        each(OpKind::Maximum, counts, filled(crate::vision_graph::ONE, row))
    } else {
        filled(k.pool_size, row)
    };
    lemma_reduced(OpKind::ReduceSum, gathered, all, 1, zero);
    assert(all.remove(1) =~= out);
    let dims = seq![0usize];
    assert(spreads(row, dims, out));
    lemma_spread(denominator, row, dims, out);
    lemma_each(
        OpKind::Quotient,
        reduced(OpKind::ReduceSum, gathered, 1, zero),
        spread(denominator, dims, out),
        out,
    );
}

proof fn lemma_pool_scores(
    q: Expr,
    key: Expr,
    signed: Expr,
    c: Molmo2VisionConfig,
    k: VisionConstants,
)
    requires
        singles(q, seq![c.static_pool_groups, c.pool_heads, 1usize, c.pool_head_dim]),
        singles(key, seq![c.static_pool_groups, c.pool_heads, c.pool_size, c.pool_head_dim]),
        typed(signed, seq![c.static_pool_groups, c.pool_size], Elem::Integer),
    ensures
        singles(
            pool_scores(q, key, signed, c, k),
            seq![c.static_pool_groups, c.pool_heads, 1usize, c.pool_size],
        ),
{
    let shape = seq![c.static_pool_groups, c.pool_heads, 1usize, c.pool_size];
    let s = seq![c.static_pool_groups, c.pool_size];
    lemma_scores_of(
        q,
        key,
        c.static_pool_groups,
        c.pool_heads,
        1,
        c.pool_size,
        c.pool_head_dim,
        k.pool_scale,
    );
    let scores = scores_of(q, key, shape, k.pool_scale);
    lemma_entries(signed, c);
    let valid = valid_entries(signed, c);
    let dims = seq![0usize, 3];
    assert(spreads(s, dims, shape));
    lemma_node(OpKind::Broadcast, dims, shape, Elem::Truth, Some(valid), None, None);
    let mask = node(OpKind::Broadcast, dims, shape, Elem::Truth, Some(valid), None, None);
    let floor = filled(crate::vision_graph::MASKED, shape);
    lemma_filled(crate::vision_graph::MASKED, shape);
    lemma_node(
        OpKind::Select,
        Seq::empty(),
        shape,
        Elem::Single,
        Some(mask),
        Some(scores),
        Some(floor),
    );
}

proof fn lemma_pooled(
    features: Expr,
    rows: usize,
    signed: Expr,
    args: Seq<TensorType>,
    base: int,
    c: Molmo2VisionConfig,
    k: VisionConstants,
)
    requires
        singles(features, seq![rows, feature_width(c)]),
        typed(signed, seq![c.static_pool_groups, c.pool_size], Elem::Integer),
        holds_adapter(args, base, c),
        c.pool_heads * c.pool_head_dim == c.pool_hidden,
    ensures
        singles(
            pooled_of(features, signed, args, base, c, k),
            seq![c.static_pool_groups, c.pool_hidden],
        ),
{
    let groups = c.static_pool_groups;
    let size = c.pool_size;
    let (heads, dim) = (c.pool_heads, c.pool_head_dim);
    let width = feature_width(c);
    let gathered = gathered_of(features, signed, c);
    lemma_gathered(features, rows, signed, c);
    lemma_pool_query(gathered, signed, c, k);
    lemma_volume_split(groups, size, heads, dim, c.pool_hidden);
    let all = seq![groups, size, width];
    let one = seq![groups, width];
    let all_out = seq![groups, size, c.pool_hidden];
    let one_out = seq![groups, c.pool_hidden];
    assert(all.drop_last().push(c.pool_hidden) =~= all_out);
    assert(one.drop_last().push(c.pool_hidden) =~= one_out);
    assert(one_out.drop_last().push(c.pool_hidden) =~= one_out);
    let query = pool_query(gathered, signed, c, k);
    let q0 = affine(query, argument(args, base), argument(args, base + 1));
    lemma_affine(query, argument(args, base), argument(args, base + 1), one, c.pool_hidden, width);
    lemma_in_heads(q0, one_out, groups, 1, heads, dim);
    let k0 = affine(gathered, argument(args, base + 2), argument(args, base + 3));
    lemma_affine(
        gathered,
        argument(args, base + 2),
        argument(args, base + 3),
        all,
        c.pool_hidden,
        width,
    );
    lemma_in_heads(k0, all_out, groups, size, heads, dim);
    let v0 = affine(gathered, argument(args, base + 4), argument(args, base + 5));
    lemma_affine(
        gathered,
        argument(args, base + 4),
        argument(args, base + 5),
        all,
        c.pool_hidden,
        width,
    );
    lemma_in_heads(v0, all_out, groups, size, heads, dim);
    let q = in_heads(q0, groups, 1, heads, dim);
    let key = in_heads(k0, groups, size, heads, dim);
    let v = in_heads(v0, groups, size, heads, dim);
    lemma_pool_scores(q, key, signed, c, k);
    let scores = pool_scores(q, key, signed, c, k);
    lemma_softmax(scores, seq![groups, heads, 1usize, size]);
    lemma_mixed(
        softmax(scores),
        v,
        groups,
        heads,
        1,
        size,
        dim,
        one_out,
        argument(args, base + 6),
        argument(args, base + 7),
        c.pool_hidden,
    );
}

proof fn lemma_projected(pooled: Expr, args: Seq<TensorType>, base: int, c: Molmo2VisionConfig)
    requires
        singles(pooled, seq![c.static_pool_groups, c.pool_hidden]),
        singles(argument(args, base), seq![c.projector_intermediate, c.pool_hidden]),
        singles(argument(args, base + 1), seq![c.text_hidden, c.projector_intermediate]),
        singles(argument(args, base + 2), seq![c.projector_intermediate, c.pool_hidden]),
    ensures
        singles(projected_of(pooled, args, base), seq![c.static_pool_groups, c.text_hidden]),
{
    let s = seq![c.static_pool_groups, c.pool_hidden];
    let wide = seq![c.static_pool_groups, c.projector_intermediate];
    let out = seq![c.static_pool_groups, c.text_hidden];
    assert(s.drop_last().push(c.projector_intermediate) =~= wide);
    assert(wide.drop_last().push(c.text_hidden) =~= out);
    let (w1, w2, w3) = (argument(args, base), argument(args, base + 1), argument(args, base + 2));
    lemma_product_with(pooled, w1, s, c.projector_intermediate, c.pool_hidden);
    lemma_product_with(pooled, w3, s, c.projector_intermediate, c.pool_hidden);
    lemma_swish(product_with(pooled, w1), wide);
    let gated = each(
        OpKind::Product,
        swish(product_with(pooled, w1)),
        product_with(pooled, w3),
    );
    lemma_each(
        OpKind::Product,
        swish(product_with(pooled, w1)),
        product_with(pooled, w3),
        wide,
    );
    lemma_product_with(gated, w2, wide, c.text_hidden, c.projector_intermediate);
}

/// The program of the vision tower is well typed: on arguments of the types that it
/// declares, every operation fits its operands, and the output holds one text-wide row of
/// singles per pooling group.
pub proof fn law_vision_program_is_well_typed(
    args: Seq<TensorType>,
    c: Molmo2VisionConfig,
    k: VisionConstants,
)
    requires
        are_argument_types(c, args),
        selects_layers(c),
        c.width_fits(),
        c.heads * c.head_dim == c.hidden,
        c.pool_heads * c.pool_head_dim == c.pool_hidden,
        c.position_count == c.patches_per_crop,
        c.static_crops * c.patches_per_crop <= usize::MAX,
    ensures
        typed(
            vision_output(args, c, k),
            seq![c.static_pool_groups, c.text_hidden],
            Elem::Single,
        ),
{
    let pool = layer_base(c.emitted_layers as int);
    let patches = pool + 11;
    assert(c.selected_layers@[0] < c.emitted_layers);
    lemma_outer_arguments(c, args);
    lemma_features(args, c, k);
    let features = features_of(args, c, k, patches);
    let signed = argument(args, patches + 1);
    let rows = (c.static_crops * c.patches_per_crop) as usize;
    lemma_pooled(features, rows, signed, args, pool, c, k);
    lemma_projected(pooled_of(features, signed, args, pool, c, k), args, pool + 8, c);
}

/// A part of a well-typed expression is well typed.
pub proof fn lemma_part_is_well_typed(e: Expr, whole: Expr)
    requires
        well_typed(whole),
        is_part(e, whole),
    ensures
        well_typed(e),
    decreases whole,
{
    reveal(well_typed);
    if e != whole {
        match whole {
            Expr::Arg { .. } => {},
            Expr::Node { a, b, c, .. } => {
                if a is Some && is_part(e, *a.unwrap()) {
                    lemma_part_is_well_typed(e, *a.unwrap());
                } else if b is Some && is_part(e, *b.unwrap()) {
                    lemma_part_is_well_typed(e, *b.unwrap());
                } else {
                    lemma_part_is_well_typed(e, *c.unwrap());
                }
            },
        }
    }
}

/// Every operation of the vision program fits its operands: each is a part of the output,
/// which is well typed.
pub proof fn law_every_operation_is_well_typed(
    b: Builder,
    v: Val,
    c: Molmo2VisionConfig,
    k: VisionConstants,
    j: int,
)
    requires
        are_argument_types(c, b.args@),
        selects_layers(c),
        c.width_fits(),
        c.heads * c.head_dim == c.hidden,
        c.pool_heads * c.pool_head_dim == c.pool_hidden,
        c.position_count == c.patches_per_crop,
        c.static_crops * c.patches_per_crop <= usize::MAX,
        v.tree@ == vision_output(b.args@, c, k),
        is_part(meaning(b.ops@, b.args@, Source::Op(j as usize)), v.tree@),
    ensures
        well_typed(meaning(b.ops@, b.args@, Source::Op(j as usize))),
{
    law_vision_program_is_well_typed(b.args@, c, k);
    lemma_part_is_well_typed(meaning(b.ops@, b.args@, Source::Op(j as usize)), v.tree@);
}

/// No operation of an expression is of this kind.
pub open spec fn lacks(e: Expr, kind: OpKind) -> bool
    decreases e,
{
    match e {
        Expr::Arg { .. } => true,
        Expr::Node { kind: own, a, b, c, .. } => {
            &&& own != kind
            &&& a matches Some(x) ==> lacks(*x, kind)
            &&& b matches Some(x) ==> lacks(*x, kind)
            &&& c matches Some(x) ==> lacks(*x, kind)
        },
    }
}

/// An expression is an operation of this kind.
pub open spec fn is_kind(e: Expr, kind: OpKind) -> bool {
    e matches Expr::Node { kind: own, .. } && own == kind
}

proof fn lemma_parts_lack(e: Expr, whole: Expr, kind: OpKind)
    requires
        lacks(whole, kind),
        is_part(e, whole),
    ensures
        !is_kind(e, kind),
    decreases whole,
{
    if e != whole {
        match whole {
            Expr::Arg { .. } => {},
            Expr::Node { a, b, c, .. } => {
                if a is Some && is_part(e, *a.unwrap()) {
                    lemma_parts_lack(e, *a.unwrap(), kind);
                } else if b is Some && is_part(e, *b.unwrap()) {
                    lemma_parts_lack(e, *b.unwrap(), kind);
                } else {
                    lemma_parts_lack(e, *c.unwrap(), kind);
                }
            },
        }
    }
}

proof fn lemma_affine_lacks(x: Expr, w: Expr, b: Expr)
    requires
        lacks(x, OpKind::Select),
        lacks(w, OpKind::Select),
        lacks(b, OpKind::Select),
    ensures
        lacks(product_with(x, w), OpKind::Select),
        lacks(affine(x, w, b), OpKind::Select),
{
    reveal_with_fuel(lacks, 4);
}

proof fn lemma_normalized_lacks(x: Expr, w: Expr, b: Expr, width: u32, epsilon: u32)
    requires
        lacks(x, OpKind::Select),
        lacks(w, OpKind::Select),
        lacks(b, OpKind::Select),
    ensures
        lacks(normalized(x, w, b, width, epsilon), OpKind::Select),
{
    reveal_with_fuel(lacks, 5);
    assert(lacks(centered(x, width), OpKind::Select));
    assert(lacks(inverse_deviation(x, width, epsilon), OpKind::Select));
}

proof fn lemma_gelu_lacks(x: Expr)
    requires
        lacks(x, OpKind::Select),
    ensures
        lacks(gelu(x), OpKind::Select),
        lacks(swish(x), OpKind::Select),
{
    reveal_with_fuel(lacks, 9);
}

proof fn lemma_softmax_lacks(x: Expr)
    requires
        lacks(x, OpKind::Select),
    ensures
        lacks(softmax(x), OpKind::Select),
{
    reveal_with_fuel(lacks, 9);
}

proof fn lemma_attention_lacks(
    q: Expr,
    k: Expr,
    shape: Seq<usize>,
    scale: u32,
    n: usize,
    len: usize,
    heads: usize,
    dim: usize,
)
    requires
        lacks(q, OpKind::Select),
        lacks(k, OpKind::Select),
    ensures
        lacks(in_heads(q, n, len, heads, dim), OpKind::Select),
        lacks(scores_of(q, k, shape, scale), OpKind::Select),
{
    reveal_with_fuel(lacks, 4);
}

proof fn lemma_mixed_lacks(
    p: Expr,
    v: Expr,
    heads_shape: Seq<usize>,
    joined: Seq<usize>,
    w: Expr,
    b: Expr,
)
    requires
        lacks(p, OpKind::Select),
        lacks(v, OpKind::Select),
        lacks(w, OpKind::Select),
        lacks(b, OpKind::Select),
    ensures
        lacks(mixed(p, v, heads_shape, joined, w, b), OpKind::Select),
{
    let flat = reshaped(swapped(contracted(p, v, 2, 3, 2, heads_shape)), joined);
    assert(lacks(flat, OpKind::Select)) by {
        reveal_with_fuel(lacks, 4);
    }
    lemma_affine_lacks(flat, w, b);
}

proof fn lemma_layer_lacks(
    h: Expr,
    args: Seq<TensorType>,
    base: int,
    c: Molmo2VisionConfig,
    k: VisionConstants,
)
    requires
        lacks(h, OpKind::Select),
    ensures
        lacks(layer_of(h, args, base, c, k), OpKind::Select),
{
    let n = c.static_crops;
    let len = c.patches_per_crop;
    let (heads, dim) = (c.heads, c.head_dim);
    let (w8, w9) = (argument(args, base + 8), argument(args, base + 9));
    let x = normalized(h, w8, w9, k.hidden, k.epsilon);
    lemma_normalized_lacks(h, w8, w9, k.hidden, k.epsilon);
    let q0 = affine(x, argument(args, base), argument(args, base + 1));
    let k0 = affine(x, argument(args, base + 2), argument(args, base + 3));
    let v0 = affine(x, argument(args, base + 4), argument(args, base + 5));
    lemma_affine_lacks(x, argument(args, base), argument(args, base + 1));
    lemma_affine_lacks(x, argument(args, base + 2), argument(args, base + 3));
    lemma_affine_lacks(x, argument(args, base + 4), argument(args, base + 5));
    let shape = seq![n, heads, len, len];
    lemma_attention_lacks(q0, q0, shape, 0, n, len, heads, dim);
    lemma_attention_lacks(k0, k0, shape, 0, n, len, heads, dim);
    lemma_attention_lacks(v0, v0, shape, 0, n, len, heads, dim);
    let q = in_heads(q0, n, len, heads, dim);
    let key = in_heads(k0, n, len, heads, dim);
    let v = in_heads(v0, n, len, heads, dim);
    lemma_attention_lacks(q, key, shape, k.attention_scale, n, len, heads, dim);
    let scores = scores_of(q, key, shape, k.attention_scale);
    lemma_softmax_lacks(scores);
    lemma_mixed_lacks(
        softmax(scores),
        v,
        seq![n, heads, len, dim],
        seq![n, len, c.hidden],
        argument(args, base + 6),
        argument(args, base + 7),
    );
    let attention = self_attended(x, args, base, c, k);
    assert(lacks(attention, OpKind::Select));
    let residual = each(OpKind::Sum, h, attention);
    assert(lacks(residual, OpKind::Select));
    let (w10, w11) = (argument(args, base + 10), argument(args, base + 11));
    lemma_normalized_lacks(residual, w10, w11, k.hidden, k.epsilon);
    let y = normalized(residual, w10, w11, k.hidden, k.epsilon);
    lemma_affine_lacks(y, argument(args, base + 12), argument(args, base + 13));
    let up = affine(y, argument(args, base + 12), argument(args, base + 13));
    lemma_gelu_lacks(up);
    lemma_affine_lacks(gelu(up), argument(args, base + 14), argument(args, base + 15));
    let down = affine(gelu(up), argument(args, base + 14), argument(args, base + 15));
    assert(layer_of(h, args, base, c, k) == each(OpKind::Sum, residual, down));
    assert(lacks(each(OpKind::Sum, residual, down), OpKind::Select));
}

proof fn lemma_hidden_lacks(
    args: Seq<TensorType>,
    c: Molmo2VisionConfig,
    k: VisionConstants,
    patches: int,
    n: nat,
)
    ensures
        lacks(hidden_behind(args, c, k, patches, n), OpKind::Select),
    decreases n,
{
    if n == 0 {
        let (x, w, b) = (argument(args, patches), argument(args, 0), argument(args, 1));
        lemma_affine_lacks(x, w, b);
        reveal_with_fuel(lacks, 3);
    } else {
        lemma_hidden_lacks(args, c, k, patches, (n - 1) as nat);
        lemma_layer_lacks(
            hidden_behind(args, c, k, patches, (n - 1) as nat),
            args,
            layer_base(n - 1),
            c,
            k,
        );
    }
}

proof fn lemma_selected_lacks(
    args: Seq<TensorType>,
    c: Molmo2VisionConfig,
    k: VisionConstants,
    patches: int,
    n: nat,
)
    ensures
        lacks(selected_states(args, c, k, patches, n), OpKind::Select),
    decreases n,
{
    lemma_hidden_lacks(args, c, k, patches, (c.selected_layers@[n - 1] + 1) as nat);
    if n > 1 {
        lemma_selected_lacks(args, c, k, patches, (n - 1) as nat);
    }
}

/// The scores of the pooling attention within the output.
pub open spec fn output_scores(
    args: Seq<TensorType>,
    c: Molmo2VisionConfig,
    k: VisionConstants,
) -> Expr {
    let pool = layer_base(c.emitted_layers as int);
    let patches = pool + 11;
    let signed = argument(args, patches + 1);
    let gathered = gathered_of(features_of(args, c, k, patches), signed, c);
    let q = in_heads(
        affine(
            pool_query(gathered, signed, c, k),
            argument(args, pool),
            argument(args, pool + 1),
        ),
        c.static_pool_groups,
        1,
        c.pool_heads,
        c.pool_head_dim,
    );
    let key = in_heads(
        affine(gathered, argument(args, pool + 2), argument(args, pool + 3)),
        c.static_pool_groups,
        c.pool_size,
        c.pool_heads,
        c.pool_head_dim,
    );
    pool_scores(q, key, signed, c, k)
}

proof fn lemma_softmax_part(x: Expr)
    ensures
        is_part(x, softmax(x)),
{
    reveal_with_fuel(is_part, 5);
}

proof fn lemma_mixed_part(
    p: Expr,
    v: Expr,
    heads_shape: Seq<usize>,
    joined: Seq<usize>,
    w: Expr,
    b: Expr,
)
    ensures
        is_part(p, mixed(p, v, heads_shape, joined, w, b)),
{
    reveal_with_fuel(is_part, 6);
}

proof fn lemma_projected_part(pooled: Expr, args: Seq<TensorType>, base: int)
    ensures
        is_part(pooled, projected_of(pooled, args, base)),
{
    reveal_with_fuel(is_part, 6);
}

proof fn lemma_unmasked_lacks(args: Seq<TensorType>, c: Molmo2VisionConfig, k: VisionConstants)
    requires
        !c.pooling_attention_mask,
    ensures
        lacks(vision_output(args, c, k), OpKind::Select),
{
    let pool = layer_base(c.emitted_layers as int);
    let patches = pool + 11;
    let signed = argument(args, patches + 1);
    let features = features_of(args, c, k, patches);
    let groups = c.static_pool_groups;
    let (heads, dim) = (c.pool_heads, c.pool_head_dim);
    lemma_selected_lacks(args, c, k, patches, c.selected_layers@.len());
    assert(lacks(features, OpKind::Select));
    let gathered = gathered_of(features, signed, c);
    assert(lacks(entry_weights(signed, c), OpKind::Select)) by {
        reveal_with_fuel(lacks, 6);
    }
    assert(lacks(gathered, OpKind::Select)) by {
        reveal_with_fuel(lacks, 7);
    }
    let query = pool_query(gathered, signed, c, k);
    assert(lacks(query, OpKind::Select)) by {
        reveal_with_fuel(lacks, 5);
    }
    let q0 = affine(query, argument(args, pool), argument(args, pool + 1));
    let k0 = affine(gathered, argument(args, pool + 2), argument(args, pool + 3));
    let v0 = affine(gathered, argument(args, pool + 4), argument(args, pool + 5));
    lemma_affine_lacks(query, argument(args, pool), argument(args, pool + 1));
    lemma_affine_lacks(gathered, argument(args, pool + 2), argument(args, pool + 3));
    lemma_affine_lacks(gathered, argument(args, pool + 4), argument(args, pool + 5));
    let shape = seq![groups, heads, 1usize, c.pool_size];
    lemma_attention_lacks(q0, q0, shape, 0, groups, 1, heads, dim);
    lemma_attention_lacks(k0, k0, shape, 0, groups, c.pool_size, heads, dim);
    lemma_attention_lacks(v0, v0, shape, 0, groups, c.pool_size, heads, dim);
    let q = in_heads(q0, groups, 1, heads, dim);
    let key = in_heads(k0, groups, c.pool_size, heads, dim);
    let v = in_heads(v0, groups, c.pool_size, heads, dim);
    lemma_attention_lacks(q, key, shape, k.pool_scale, groups, 1, heads, dim);
    let scores = pool_scores(q, key, signed, c, k);
    lemma_softmax_lacks(scores);
    lemma_mixed_lacks(
        softmax(scores),
        v,
        seq![groups, heads, 1usize, dim],
        seq![groups, c.pool_hidden],
        argument(args, pool + 6),
        argument(args, pool + 7),
    );
    let pooled = pooled_of(features, signed, args, pool, c, k);
    let base = pool + 8;
    let (w1, w2, w3) = (argument(args, base), argument(args, base + 1), argument(args, base + 2));
    lemma_affine_lacks(pooled, w1, w1);
    lemma_affine_lacks(pooled, w3, w3);
    lemma_gelu_lacks(product_with(pooled, w1));
    let gated = each(OpKind::Product, swish(product_with(pooled, w1)), product_with(pooled, w3));
    lemma_affine_lacks(gated, w2, w2);
}

/// The output of the vision tower selects between values exactly where pooling is masked:
/// without the mask no part of it is a selection, with the mask the scores of the pooling
/// attention are one.
pub proof fn law_selects_only_under_the_mask(
    args: Seq<TensorType>,
    c: Molmo2VisionConfig,
    k: VisionConstants,
)
    ensures
        !c.pooling_attention_mask ==> forall|e: Expr| #[trigger]
            is_part(e, vision_output(args, c, k)) ==> !is_kind(e, OpKind::Select),
        c.pooling_attention_mask ==> is_part(output_scores(args, c, k), vision_output(args, c, k))
            && is_kind(output_scores(args, c, k), OpKind::Select),
{
    let output = vision_output(args, c, k);
    if c.pooling_attention_mask {
        let pool = layer_base(c.emitted_layers as int);
        let patches = pool + 11;
        let signed = argument(args, patches + 1);
        let features = features_of(args, c, k, patches);
        let gathered = gathered_of(features, signed, c);
        let scores = output_scores(args, c, k);
        let v = in_heads(
            affine(gathered, argument(args, pool + 4), argument(args, pool + 5)),
            c.static_pool_groups,
            c.pool_size,
            c.pool_heads,
            c.pool_head_dim,
        );
        let heads_shape = seq![c.static_pool_groups, c.pool_heads, 1usize, c.pool_head_dim];
        let joined = seq![c.static_pool_groups, c.pool_hidden];
        let (w, b) = (argument(args, pool + 6), argument(args, pool + 7));
        let pooled = pooled_of(features, signed, args, pool, c, k);
        assert(pooled == mixed(softmax(scores), v, heads_shape, joined, w, b));
        lemma_softmax_part(scores);
        lemma_mixed_part(softmax(scores), v, heads_shape, joined, w, b);
        lemma_projected_part(pooled, args, pool + 8);
        lemma_part_of_part(scores, softmax(scores), pooled);
        lemma_part_of_part(scores, pooled, output);
    } else {
        lemma_unmasked_lacks(args, c, k);
        assert forall|e: Expr| #[trigger] is_part(e, output) implies !is_kind(
            e,
            OpKind::Select,
        ) by {
            lemma_parts_lack(e, output, OpKind::Select);
        }
    }
}

/// An expression has an operation of this kind.
pub open spec fn has_kind(whole: Expr, kind: OpKind) -> bool {
    exists|e: Expr| #[trigger] is_part(e, whole) && is_kind(e, kind)
}

/// The output of the vision tower tests pooling entries for their sign, raises negative ones
/// to zero and gathers rows, with and without the mask.
pub proof fn law_entries_are_tested_raised_and_gathered(
    args: Seq<TensorType>,
    c: Molmo2VisionConfig,
    k: VisionConstants,
)
    ensures
        has_kind(vision_output(args, c, k), OpKind::AtLeast),
        has_kind(vision_output(args, c, k), OpKind::Maximum),
        has_kind(vision_output(args, c, k), OpKind::GatherRows),
{
    let output = vision_output(args, c, k);
    let pool = layer_base(c.emitted_layers as int);
    let patches = pool + 11;
    let signed = argument(args, patches + 1);
    let features = features_of(args, c, k, patches);
    let gathered = gathered_of(features, signed, c);
    let (w4, w5) = (argument(args, pool + 4), argument(args, pool + 5));
    let v0 = affine(gathered, w4, w5);
    let v = in_heads(v0, c.static_pool_groups, c.pool_size, c.pool_heads, c.pool_head_dim);
    let p = softmax(output_scores(args, c, k));
    let heads_shape = seq![c.static_pool_groups, c.pool_heads, 1usize, c.pool_head_dim];
    let joined = seq![c.static_pool_groups, c.pool_hidden];
    let (w, b) = (argument(args, pool + 6), argument(args, pool + 7));
    let pooled = pooled_of(features, signed, args, pool, c, k);
    assert(pooled == mixed(p, v, heads_shape, joined, w, b));
    assert(is_part(gathered, v0)) by {
        reveal_with_fuel(is_part, 4);
    }
    assert(is_part(v0, v)) by {
        reveal_with_fuel(is_part, 4);
    }
    assert(is_part(v, pooled)) by {
        reveal_with_fuel(is_part, 6);
    }
    lemma_projected_part(pooled, args, pool + 8);
    lemma_part_of_part(gathered, v0, v);
    lemma_part_of_part(gathered, v, pooled);
    lemma_part_of_part(gathered, pooled, output);
    let valid = valid_entries(signed, c);
    assert(is_part(valid, gathered)) by {
        reveal_with_fuel(is_part, 5);
    }
    lemma_part_of_part(valid, gathered, output);
    assert(is_kind(valid, OpKind::AtLeast));
    let rows = *gathered->a.unwrap();
    assert(is_part(rows, gathered)) by {
        reveal_with_fuel(is_part, 3);
    }
    lemma_part_of_part(rows, gathered, output);
    assert(is_kind(rows, OpKind::GatherRows));
    let safe = *rows->b.unwrap();
    let raised = *safe->a.unwrap();
    assert(is_part(raised, rows)) by {
        reveal_with_fuel(is_part, 4);
    }
    lemma_part_of_part(raised, rows, output);
    assert(is_kind(raised, OpKind::Maximum));
}

} // verus!
