//! What the vision tower computes, over the reals: attention, layers, features, pooling and
//! the projector as formulas in the entries of their inputs.
use vstd::prelude::*;

use crate::graph::{
    argument, boxed, constant_of, each, node, Elem, Expr, OpKind, TensorType,
};
use crate::graph_types::{
    hidden_shape, holds_adapter, holds_layer, holds_linear, lemma_vit_weights,
};
use crate::graph_values::{
    attended, integer, integer_operand, is_exponential, larger, law_heads_are_bands,
    law_linear_map, law_scores, law_small_constants, law_swish_is_silu, lemma_attended,
    lemma_each, lemma_entry_push, lemma_entry_two, lemma_filled, lemma_joined, lemma_place_push,
    lemma_place_two, lemma_product, lemma_reshaped, lemma_spread, lemma_summed,
    lemma_total_same, operand, place, single_value, spread_from, sum_along, total, value,
    with_last, Reading,
};
use crate::molmo2_config::{
    adapter_weights, embedding_weights, tower_weights, vit_layer_weights, vit_weights,
    Molmo2VisionConfig,
};
use crate::text::dec;
use crate::vision_graph::{
    affine, contracted, embedded, entry_weights, entry_zeros, feature_width, features_of, filled,
    gathered_of, gelu, hidden_behind, in_heads, layer_base, layer_of, normalized, pool_query,
    pool_scores, pooled_of, product_with, projected_of, reduced, reshaped, scores_of,
    selected_states, self_attended, softmax, spread, swapped, swish, valid_entries,
    vision_output, VisionConstants, MASKED, ONE, ZERO,
};

verus! {

/// A linear map of an input with known entries.
proof fn lemma_joined_output(
    z: Expr,
    w: Expr,
    b: Expr,
    r: Reading,
    at: Seq<int>,
    f: spec_fn(int) -> real,
)
    requires
        1 <= z.rank() <= usize::MAX,
        w.rank() == 2,
        at.len() == z.rank(),
        forall|j: int|
            0 <= j < z.shape().last() ==> value(z, r, with_last(at, j)) == #[trigger] f(j),
    ensures
        value(affine(z, w, b), r, at) == total(
            z.shape().last() as int,
            |j: int| f(j) * value(w, r, seq![at.last(), j]),
        ) + value(b, r, seq![at.last()]),
{
    law_linear_map(z, w, b, r, at);
    let n = z.shape().last() as int;
    let g = |i: int| value(z, r, with_last(at, i)) * value(w, r, seq![at.last(), i]);
    let h = |j: int| f(j) * value(w, r, seq![at.last(), j]);
    assert forall|j: int| 0 <= j < n implies #[trigger] g(j) == h(j) by {
        assert(value(z, r, with_last(at, j)) == f(j));
    }
    lemma_total_same(n, g, h);
}

/// The score of patch `t` for patch `i` in head `h`: the product of query and key over the
/// entries of the head, scaled.
pub open spec fn patch_score(
    q: Expr,
    key: Expr,
    dim: usize,
    scale: real,
    r: Reading,
    b: int,
    i: int,
    h: int,
    t: int,
) -> real {
    total(
        dim as int,
        |d: int|
            value(q, r, seq![b, i, h * dim + d]) * value(key, r, seq![b, t, h * dim + d]),
    ) * scale
}

/// Attention of the patches of a crop: every entry is a linear map of the heads, each of
/// which weighs the values of its head by the softmax of its scores. Queries, keys and values
/// are linear maps of the input, and crops stay apart.
pub proof fn law_self_attention(
    x: Expr,
    args: Seq<TensorType>,
    base: int,
    c: Molmo2VisionConfig,
    k: VisionConstants,
    r: Reading,
    b: int,
    i: int,
    o: int,
)
    requires
        x.shape() == hidden_shape(c),
        holds_layer(args, base, c),
        c.heads * c.head_dim == c.hidden,
        is_exponential(r.exp),
        0 <= b < c.static_crops,
        0 <= i < c.patches_per_crop,
    ensures
        ({
            let q = affine(x, argument(args, base), argument(args, base + 1));
            let key = affine(x, argument(args, base + 2), argument(args, base + 3));
            let v = affine(x, argument(args, base + 4), argument(args, base + 5));
            let scale = single_value(k.attention_scale);
            let score = |h: int, t: int| patch_score(q, key, c.head_dim, scale, r, b, i, h, t);
            let len = c.patches_per_crop as int;
            value(self_attended(x, args, base, c, k), r, seq![b, i, o]) == total(
                c.hidden as int,
                |j: int|
                    attended(score, v, c.head_dim, len, r, b, j) * value(
                        argument(args, base + 6),
                        r,
                        seq![o, j],
                    ),
            ) + value(argument(args, base + 7), r, seq![o])
        }),
{
    let (n, len) = (c.static_crops, c.patches_per_crop);
    let (heads, dim) = (c.heads, c.head_dim);
    let q = affine(x, argument(args, base), argument(args, base + 1));
    let key = affine(x, argument(args, base + 2), argument(args, base + 3));
    let v = affine(x, argument(args, base + 4), argument(args, base + 5));
    assert(q.shape() =~= seq![n, len, c.hidden]);
    assert(key.shape() =~= seq![n, len, c.hidden]);
    assert(v.shape() =~= seq![n, len, c.hidden]);
    let scale = single_value(k.attention_scale);
    let score = |h: int, t: int| patch_score(q, key, dim, scale, r, b, i, h, t);
    let qh = in_heads(q, n, len, heads, dim);
    let kh = in_heads(key, n, len, heads, dim);
    let vh = in_heads(v, n, len, heads, dim);
    let shape = seq![n, heads, len, len];
    let s = scores_of(qh, kh, shape, k.attention_scale);
    assert(qh.shape() =~= seq![n, heads, len, dim]);
    assert forall|h: int, t: int| 0 <= h < heads && 0 <= t < len implies value(
        s,
        r,
        seq![b, h, i, t],
    ) == #[trigger] score(h, t) by {
        law_scores(qh, kh, shape, k.attention_scale, r, b, h, i, t);
        let f = |d: int| value(qh, r, seq![b, h, i, d]) * value(kh, r, seq![b, h, t, d]);
        let g = |d: int|
            value(q, r, seq![b, i, h * dim + d]) * value(key, r, seq![b, t, h * dim + d]);
        assert forall|d: int| 0 <= d < dim implies #[trigger] f(d) == g(d) by {
            law_heads_are_bands(q, n, len, heads, dim, c.hidden, r, b, i, h, d);
            law_heads_are_bands(key, n, len, heads, dim, c.hidden, r, b, t, h, d);
        }
        lemma_total_same(dim as int, f, g);
    }
    let y = contracted(softmax(s), vh, 2, 3, 2, seq![n, heads, len, dim]);
    let z = reshaped(swapped(y), seq![n, len, c.hidden]);
    let at = seq![b, i, o];
    let f = |j: int| attended(score, v, dim, len as int, r, b, j);
    assert(s.shape() == shape);
    assert forall|j: int| 0 <= j < z.shape().last() implies value(z, r, with_last(at, j))
        == #[trigger] f(j) by {
        assert(with_last(at, j) =~= seq![b, i, j]);
        lemma_joined(y, n, len, heads, dim, c.hidden, r, b, i, j);
        lemma_attended(s, v, n, heads, len, len, dim, c.hidden, r, b, i, j, score);
    }
    let (wo, bo) = (argument(args, base + 6), argument(args, base + 7));
    lemma_joined_output(z, wo, bo, r, at, f);
    lemma_total_same(
        c.hidden as int,
        |j: int| f(j) * value(wo, r, seq![at.last(), j]),
        |j: int|
            attended(score, v, dim, len as int, r, b, j) * value(wo, r, seq![o, j]),
    );
    assert(self_attended(x, args, base, c, k) == affine(z, wo, bo));
}

proof fn lemma_total_zero(n: int, f: spec_fn(int) -> real)
    requires
        forall|i: int| 0 <= i < n ==> #[trigger] f(i) == 0real,
    ensures
        total(n, f) == 0real,
    decreases n,
{
    if n > 0 {
        lemma_total_zero(n - 1, f);
        assert(f(n - 1) == 0real);
    }
}

/// A layer adds attention over the normalized states to the states, and to their sum a
/// feed-forward of the normalized sum.
pub proof fn law_layer_adds_to_the_states(
    h: Expr,
    args: Seq<TensorType>,
    base: int,
    c: Molmo2VisionConfig,
    k: VisionConstants,
    r: Reading,
    at: Seq<int>,
)
    ensures
        ({
            let arg = |i: int| argument(args, base + i);
            let attention = self_attended(
                normalized(h, arg(8), arg(9), k.hidden, k.epsilon),
                args,
                base,
                c,
                k,
            );
            let sum = each(OpKind::Sum, h, attention);
            let inner = affine(
                normalized(sum, arg(10), arg(11), k.hidden, k.epsilon),
                arg(12),
                arg(13),
            );
            &&& value(sum, r, at) == value(h, r, at) + value(attention, r, at)
            &&& value(layer_of(h, args, base, c, k), r, at) == value(h, r, at) + value(
                attention,
                r,
                at,
            ) + value(affine(gelu(inner), arg(14), arg(15)), r, at)
        }),
{
    let arg = |i: int| argument(args, base + i);
    let attention = self_attended(
        normalized(h, arg(8), arg(9), k.hidden, k.epsilon),
        args,
        base,
        c,
        k,
    );
    let sum = each(OpKind::Sum, h, attention);
    let inner = affine(
        normalized(sum, arg(10), arg(11), k.hidden, k.epsilon),
        arg(12),
        arg(13),
    );
    lemma_each(h, attention, r, at);
    lemma_each(sum, affine(gelu(inner), arg(14), arg(15)), r, at);
}

/// An argument of a linear map is zero everywhere.
pub open spec fn is_zero(e: Expr, r: Reading) -> bool {
    forall|at: Seq<int>| #[trigger] value(e, r, at) == 0real
}

/// A layer whose output projections are zero leaves the states as they are.
pub proof fn law_silent_layer_keeps_the_states(
    h: Expr,
    args: Seq<TensorType>,
    base: int,
    c: Molmo2VisionConfig,
    k: VisionConstants,
    r: Reading,
    b: int,
    i: int,
    o: int,
)
    requires
        h.shape() == hidden_shape(c),
        holds_layer(args, base, c),
        c.heads * c.head_dim == c.hidden,
        is_exponential(r.exp),
        0 <= b < c.static_crops,
        0 <= i < c.patches_per_crop,
        is_zero(argument(args, base + 6), r),
        is_zero(argument(args, base + 7), r),
        is_zero(argument(args, base + 14), r),
        is_zero(argument(args, base + 15), r),
    ensures
        value(layer_of(h, args, base, c, k), r, seq![b, i, o]) == value(h, r, seq![b, i, o]),
{
    let at = seq![b, i, o];
    let arg = |j: int| argument(args, base + j);
    let x = normalized(h, arg(8), arg(9), k.hidden, k.epsilon);
    let attention = self_attended(x, args, base, c, k);
    let sum = each(OpKind::Sum, h, attention);
    let inner = affine(
        normalized(sum, arg(10), arg(11), k.hidden, k.epsilon),
        arg(12),
        arg(13),
    );
    law_layer_adds_to_the_states(h, args, base, c, k, r, at);
    law_self_attention(x, args, base, c, k, r, b, i, o);
    let q = affine(x, argument(args, base), argument(args, base + 1));
    let key = affine(x, argument(args, base + 2), argument(args, base + 3));
    let v = affine(x, argument(args, base + 4), argument(args, base + 5));
    let scale = single_value(k.attention_scale);
    let score = |h: int, t: int| patch_score(q, key, c.head_dim, scale, r, b, i, h, t);
    let len = c.patches_per_crop as int;
    let f = |j: int|
        attended(score, v, c.head_dim, len, r, b, j) * value(
            argument(args, base + 6),
            r,
            seq![o, j],
        );
    assert forall|j: int| 0 <= j < c.hidden implies #[trigger] f(j) == 0real by {
        let a = attended(score, v, c.head_dim, len, r, b, j);
        assert(a * 0real == 0real) by (nonlinear_arith);
    }
    lemma_total_zero(c.hidden as int, f);
    let z = gelu(inner);
    assert(z.rank() == 3);
    law_linear_map(z, arg(14), arg(15), r, at);
    let g = |j: int| value(z, r, with_last(at, j)) * value(arg(14), r, seq![at.last(), j]);
    assert forall|j: int| 0 <= j < z.shape().last() implies #[trigger] g(j) == 0real by {
        let a = value(z, r, with_last(at, j));
        assert(a * 0real == 0real) by (nonlinear_arith);
    }
    lemma_total_zero(z.shape().last() as int, g);
}

/// A patch enters as a linear map of its pixels plus the embedding of its position, the same
/// one in every crop.
pub proof fn law_patches_are_embedded_by_position(
    args: Seq<TensorType>,
    c: Molmo2VisionConfig,
    patches: int,
    r: Reading,
    b: int,
    i: int,
    o: int,
)
    requires
        holds_linear(args, 0, c.hidden, c.patch_dim),
        argument(args, patches).shape() == seq![
            c.static_crops,
            c.patches_per_crop,
            c.patch_dim,
        ],
    ensures
        value(embedded(args, c, patches), r, seq![b, i, o]) == total(
            c.patch_dim as int,
            |j: int|
                value(argument(args, patches), r, seq![b, i, j]) * value(
                    argument(args, 0),
                    r,
                    seq![o, j],
                ),
        ) + value(argument(args, 1), r, seq![o]) + value(argument(args, 2), r, seq![i, o]),
{
    let at = seq![b, i, o];
    let x = argument(args, patches);
    let (w, bias) = (argument(args, 0), argument(args, 1));
    let shape = seq![c.static_crops, c.patches_per_crop, c.hidden];
    law_linear_map(x, w, bias, r, at);
    let f = |j: int| value(x, r, with_last(at, j)) * value(w, r, seq![at.last(), j]);
    let g = |j: int| value(x, r, seq![b, i, j]) * value(w, r, seq![o, j]);
    assert forall|j: int| 0 <= j < c.patch_dim implies #[trigger] f(j) == g(j) by {
        assert(with_last(at, j) =~= seq![b, i, j]);
    }
    lemma_total_same(c.patch_dim as int, f, g);
    lemma_spread(argument(args, 2), seq![1usize, 2], shape, r, at);
    assert(spread_from(seq![1usize, 2], at) =~= seq![i, o]);
    lemma_each(affine(x, w, bias), spread(argument(args, 2), seq![1usize, 2], shape), r, at);
}

proof fn lemma_hidden_shape(
    args: Seq<TensorType>,
    c: Molmo2VisionConfig,
    k: VisionConstants,
    patches: int,
    n: nat,
)
    requires
        holds_linear(args, 0, c.hidden, c.patch_dim),
        argument(args, patches).shape() == seq![
            c.static_crops,
            c.patches_per_crop,
            c.patch_dim,
        ],
    ensures
        hidden_behind(args, c, k, patches, n).shape() == hidden_shape(c),
    decreases n,
{
    if n > 0 {
        lemma_hidden_shape(args, c, k, patches, (n - 1) as nat);
    } else {
        assert(embedded(args, c, patches).shape() =~= hidden_shape(c));
    }
}

/// Selected states stand side by side: band `s` of a patch holds its state behind the layer
/// that is selected in place `s`.
proof fn lemma_selected_bands(
    args: Seq<TensorType>,
    c: Molmo2VisionConfig,
    k: VisionConstants,
    patches: int,
    n: nat,
    r: Reading,
    b: int,
    i: int,
    s: int,
    o: int,
)
    requires
        holds_linear(args, 0, c.hidden, c.patch_dim),
        argument(args, patches).shape() == seq![
            c.static_crops,
            c.patches_per_crop,
            c.patch_dim,
        ],
        1 <= n <= c.selected_layers@.len(),
        c.hidden * n <= usize::MAX,
        0 <= s < n,
        0 <= o < c.hidden,
    ensures
        selected_states(args, c, k, patches, n).shape() == seq![
            c.static_crops,
            c.patches_per_crop,
            (c.hidden * n) as usize,
        ],
        value(selected_states(args, c, k, patches, n), r, seq![b, i, s * c.hidden + o]) == value(
            hidden_behind(args, c, k, patches, (c.selected_layers@[s] + 1) as nat),
            r,
            seq![b, i, o],
        ),
    decreases n,
{
    let last = hidden_behind(args, c, k, patches, (c.selected_layers@[n - 1] + 1) as nat);
    lemma_hidden_shape(args, c, k, patches, (c.selected_layers@[n - 1] + 1) as nat);
    let all = selected_states(args, c, k, patches, n);
    if n == 1 {
        assert(all == last);
        assert(all.shape() =~= seq![
            c.static_crops,
            c.patches_per_crop,
            (c.hidden * n) as usize,
        ]);
        assert(s * c.hidden + o == o) by (nonlinear_arith)
            requires
                s == 0,
        ;
    } else {
        let m = (n - 1) as nat;
        let before = selected_states(args, c, k, patches, m);
        assert(c.hidden * m <= c.hidden * n) by (nonlinear_arith)
            requires
                m <= n,
        ;
        let at = seq![b, i, s * c.hidden + o];
        if s < m {
            lemma_selected_bands(args, c, k, patches, m, r, b, i, s, o);
            assert(s * c.hidden + o < c.hidden * m) by (nonlinear_arith)
                requires
                    0 <= o < c.hidden,
                    0 <= s < m,
            ;
            assert(operand(boxed(Some(before)), r, at) == value(before, r, at));
        } else {
            lemma_selected_bands(args, c, k, patches, m, r, b, i, 0, o);
            assert(s * c.hidden + o == c.hidden * m + o) by (nonlinear_arith)
                requires
                    s == m,
            ;
            let to = at.update(2, at[2] - (c.hidden * m) as usize as int);
            assert(to =~= seq![b, i, o]);
            assert(operand(boxed(Some(last)), r, to) == value(last, r, to));
        }
    }
}

/// The features of patch `i` of crop `b` are row `b * patches + i`; its band `s` holds the
/// state of the patch behind the layer that is selected in place `s`.
pub proof fn law_features_stand_in_bands(
    args: Seq<TensorType>,
    c: Molmo2VisionConfig,
    k: VisionConstants,
    patches: int,
    r: Reading,
    b: int,
    i: int,
    s: int,
    o: int,
)
    requires
        holds_linear(args, 0, c.hidden, c.patch_dim),
        argument(args, patches).shape() == seq![
            c.static_crops,
            c.patches_per_crop,
            c.patch_dim,
        ],
        c.hidden * c.selected_layers@.len() <= usize::MAX,
        c.static_crops * c.patches_per_crop <= usize::MAX,
        0 <= b < c.static_crops,
        0 <= i < c.patches_per_crop,
        0 <= s < c.selected_layers@.len(),
        0 <= o < c.hidden,
    ensures
        value(
            features_of(args, c, k, patches),
            r,
            seq![b * c.patches_per_crop + i, s * c.hidden + o],
        ) == value(
            hidden_behind(args, c, k, patches, (c.selected_layers@[s] + 1) as nat),
            r,
            seq![b, i, o],
        ),
{
    let n = c.selected_layers@.len();
    let len = c.patches_per_crop;
    let w = (c.hidden * n) as usize;
    let x = selected_states(args, c, k, patches, n);
    let (row, col) = (b * len + i, s * c.hidden + o);
    lemma_selected_bands(args, c, k, patches, n, r, b, i, s, o);
    assert(0 <= col < w) by (nonlinear_arith)
        requires
            0 <= s < n,
            0 <= o < c.hidden,
            col == s * c.hidden + o,
            w == c.hidden * n,
    ;
    let rows = (c.static_crops * len) as usize;
    lemma_reshaped(x, seq![rows, w], r, seq![row, col]);
    lemma_place_two(rows, w, row, col);
    lemma_entry_two(c.static_crops, len, b, i);
    lemma_entry_push(seq![c.static_crops, len], w, row, col);
    assert(seq![c.static_crops, len, w] =~= seq![c.static_crops, len].push(w));
    assert(seq![b, i].push(col) =~= seq![b, i, col]);
}

/// The features of a pooling entry are those of the row it names, and zero where it names
/// none.
pub proof fn law_entries_read_their_rows(
    features: Expr,
    signed: Expr,
    c: Molmo2VisionConfig,
    r: Reading,
    g: int,
    e: int,
    f: int,
)
    requires
        signed.shape() == seq![c.static_pool_groups, c.pool_size],
        0 <= g < c.static_pool_groups,
        0 <= e < c.pool_size,
    ensures
        ({
            let index = integer(signed, r, seq![g, e]);
            value(gathered_of(features, signed, c), r, seq![g, e, f]) == if index >= 0 {
                value(features, r, seq![index, f])
            } else {
                0real
            }
        }),
{
    let groups = c.static_pool_groups;
    let size = c.pool_size;
    let at = seq![g, e, f];
    let index = integer(signed, r, seq![g, e]);
    let raised = node(
        OpKind::Maximum,
        Seq::empty(),
        seq![groups, size],
        Elem::Integer,
        Some(signed),
        Some(entry_zeros(c)),
        None,
    );
    let safe = node(
        OpKind::Reshape,
        Seq::empty(),
        seq![groups, size, 1usize],
        Elem::Integer,
        Some(raised),
        None,
        None,
    );
    let rows = node(
        OpKind::GatherRows,
        Seq::empty(),
        seq![groups, size, feature_width(c)],
        Elem::Single,
        Some(features),
        Some(safe),
        None,
    );
    lemma_zeros(c, r, seq![g, e]);
    lemma_valid(signed, c, r, seq![g, e]);
    // The raised index, with a dimension of one behind it.
    lemma_place_two(groups, size, g, e);
    lemma_entry_two(groups, size, g, e);
    lemma_place_push(seq![groups, size], 1, seq![g, e], 0);
    assert(seq![groups, size, 1usize] =~= seq![groups, size].push(1usize));
    assert(seq![g, e, 0] =~= seq![g, e].push(0));
    let largest = if index >= 0 {
        index
    } else {
        0
    };
    assert(integer_operand(boxed(Some(signed)), r, seq![g, e]) == index);
    assert(integer(raised, r, seq![g, e]) == largest);
    assert(integer_operand(boxed(Some(raised)), r, seq![g, e]) == largest);
    assert(integer(safe, r, seq![g, e, 0]) == largest);
    assert(at.subrange(0, 2).push(0) =~= seq![g, e, 0]);
    assert(integer_operand(boxed(Some(safe)), r, seq![g, e, 0]) == largest);
    let from = seq![largest, f];
    assert(operand(boxed(Some(features)), r, from) == value(features, r, from));
    assert(value(rows, r, at) == value(features, r, from));
    let shape = seq![groups, size, feature_width(c)];
    let weight = spread(entry_weights(signed, c), seq![0usize, 1], shape);
    lemma_spread(entry_weights(signed, c), seq![0usize, 1], shape, r, at);
    assert(spread_from(seq![0usize, 1], at) =~= seq![g, e]);
    lemma_each(rows, weight, r, at);
    let v = value(rows, r, at);
    assert(v * 1real == v && v * 0real == 0real) by (nonlinear_arith);
}

/// Zeros are zero.
proof fn lemma_zeros(c: Molmo2VisionConfig, r: Reading, at: Seq<int>)
    ensures
        integer(entry_zeros(c), r, at) == 0,
        integer_operand(boxed(Some(entry_zeros(c))), r, at) == 0,
{
    let zero = constant_of(0, Elem::Integer);
    let from = spread_from(Seq::empty(), at);
    assert(integer(zero, r, from) == 0);
    assert(integer_operand(boxed(Some(zero)), r, from) == 0);
}

/// An entry is valid where its index is not negative.
proof fn lemma_valid(signed: Expr, c: Molmo2VisionConfig, r: Reading, at: Seq<int>)
    ensures
        ({
            let weight = if integer(signed, r, at) >= 0 {
                1real
            } else {
                0real
            };
            value(valid_entries(signed, c), r, at) == weight && value(
                entry_weights(signed, c),
                r,
                at,
            ) == weight
        }),
{
    lemma_zeros(c, r, at);
    let index = integer(signed, r, at);
    assert(integer_operand(boxed(Some(signed)), r, at) == index);
    let valid = valid_entries(signed, c);
    assert(value(valid, r, at) == operand(boxed(Some(valid)), r, at));
}

/// A sum along the middle one of three dimensions.
proof fn lemma_sum_middle(x: Expr, r: Reading, g: int, f: int, n: int)
    ensures
        sum_along(boxed(Some(x)), r, seq![g, f], 1, n) == total(
            n,
            |e: int| value(x, r, seq![g, e, f]),
        ),
    decreases n,
{
    if n > 0 {
        lemma_sum_middle(x, r, g, f, n - 1);
        let at = seq![g, n - 1, f];
        assert(seq![g, f].insert(1, n - 1) =~= at);
        assert(operand(boxed(Some(x)), r, at) == value(x, r, at));
    }
}

/// 1 for an entry that names a row, else 0.
pub open spec fn entry_counts(signed: Expr, r: Reading, g: int, e: int) -> real {
    if integer(signed, r, seq![g, e]) >= 0 {
        1real
    } else {
        0real
    }
}

/// The query of a group is the mean of its entries: under the mask over those that name a
/// row, and never over less than one; else over all of them.
pub proof fn law_query_is_the_mean(
    gathered: Expr,
    signed: Expr,
    c: Molmo2VisionConfig,
    k: VisionConstants,
    r: Reading,
    g: int,
    f: int,
)
    requires
        gathered.shape() == seq![c.static_pool_groups, c.pool_size, feature_width(c)],
    ensures
        ({
            let size = c.pool_size as int;
            let count = total(size, |e: int| entry_counts(signed, r, g, e));
            let divisor = if c.pooling_attention_mask {
                larger(count, 1real)
            } else {
                single_value(k.pool_size)
            };
            value(pool_query(gathered, signed, c, k), r, seq![g, f]) == total(
                size,
                |e: int| value(gathered, r, seq![g, e, f]),
            ) / divisor
        }),
{
    let groups = c.static_pool_groups;
    let size = c.pool_size as int;
    let at = seq![g, f];
    let weights = entry_weights(signed, c);
    let counts = reduced(OpKind::ReduceSum, weights, 1, ZERO);
    let ones = filled(ONE, seq![groups]);
    let denominator = if c.pooling_attention_mask {
        each(OpKind::Maximum, counts, ones)
    } else {
        filled(k.pool_size, seq![groups])
    };
    let shape = seq![groups, feature_width(c)];
    let sum = reduced(OpKind::ReduceSum, gathered, 1, ZERO);
    let divisor = spread(denominator, seq![0usize], shape);
    law_small_constants();
    assert(value(constant_of(ZERO, Elem::Single), r, Seq::empty()) == 0real);
    let start = boxed(Some(constant_of(ZERO, Elem::Single)));
    assert(operand(start, r, Seq::empty()) == 0real);
    lemma_sum_middle(gathered, r, g, f, size);
    assert(value(sum, r, at) == total(size, |e: int| value(gathered, r, seq![g, e, f])));
    lemma_summed(weights, r, seq![g]);
    let h1 = |t: int| value(weights, r, seq![g].push(t));
    let h2 = |e: int| entry_counts(signed, r, g, e);
    assert forall|t: int| 0 <= t < size implies #[trigger] h1(t) == h2(t) by {
        assert(seq![g].push(t) =~= seq![g, t]);
        lemma_valid(signed, c, r, seq![g, t]);
    }
    lemma_total_same(size, h1, h2);
    lemma_filled(ONE, seq![groups], r, seq![g]);
    lemma_filled(k.pool_size, seq![groups], r, seq![g]);
    lemma_each(counts, ones, r, seq![g]);
    lemma_spread(denominator, seq![0usize], shape, r, at);
    assert(spread_from(seq![0usize], at) =~= seq![g]);
    lemma_each(sum, divisor, r, at);
}

/// The score of entry `t` of a group for its query in head `h`; under the mask, an entry that
/// names no row has the masked score.
pub open spec fn entry_score(
    q: Expr,
    key: Expr,
    signed: Expr,
    c: Molmo2VisionConfig,
    scale: real,
    r: Reading,
    g: int,
    h: int,
    t: int,
) -> real {
    let dim = c.pool_head_dim;
    if c.pooling_attention_mask && integer(signed, r, seq![g, t]) < 0 {
        single_value(MASKED)
    } else {
        total(
            dim as int,
            |d: int|
                value(q, r, seq![g, h * dim + d]) * value(key, r, seq![g, t, h * dim + d]),
        ) * scale
    }
}

/// The scores of the pooling attention, one by one.
proof fn lemma_entry_score(
    q: Expr,
    key: Expr,
    signed: Expr,
    c: Molmo2VisionConfig,
    k: VisionConstants,
    r: Reading,
    g: int,
    h: int,
    t: int,
)
    requires
        q.shape() == seq![c.static_pool_groups, c.pool_hidden],
        key.shape() == seq![c.static_pool_groups, c.pool_size, c.pool_hidden],
        c.pool_heads * c.pool_head_dim == c.pool_hidden,
        0 <= g < c.static_pool_groups,
        0 <= h < c.pool_heads,
        0 <= t < c.pool_size,
    ensures
        ({
            let (groups, heads, dim) = (c.static_pool_groups, c.pool_heads, c.pool_head_dim);
            let qh = in_heads(q, groups, 1, heads, dim);
            let kh = in_heads(key, groups, c.pool_size, heads, dim);
            value(pool_scores(qh, kh, signed, c, k), r, seq![g, h, 0, t]) == entry_score(
                q,
                key,
                signed,
                c,
                single_value(k.pool_scale),
                r,
                g,
                h,
                t,
            )
        }),
{
    let (groups, heads, dim) = (c.static_pool_groups, c.pool_heads, c.pool_head_dim);
    let w = c.pool_hidden;
    let qh = in_heads(q, groups, 1, heads, dim);
    let kh = in_heads(key, groups, c.pool_size, heads, dim);
    let shape = seq![groups, heads, 1usize, c.pool_size];
    let at = seq![g, h, 0, t];
    let plain = scores_of(qh, kh, shape, k.pool_scale);
    assert(qh.shape() =~= seq![groups, heads, 1usize, dim]);
    law_scores(qh, kh, shape, k.pool_scale, r, g, h, 0, t);
    let f1 = |d: int| value(qh, r, seq![g, h, 0, d]) * value(kh, r, seq![g, h, t, d]);
    let f2 = |d: int| value(q, r, seq![g, h * dim + d]) * value(key, r, seq![g, t, h * dim + d]);
    assert forall|d: int| 0 <= d < dim implies #[trigger] f1(d) == f2(d) by {
        law_heads_are_bands(q, groups, 1, heads, dim, w, r, g, 0, h, d);
        law_heads_are_bands(key, groups, c.pool_size, heads, dim, w, r, g, t, h, d);
    }
    lemma_total_same(dim as int, f1, f2);
    if c.pooling_attention_mask {
        let valid = valid_entries(signed, c);
        let mask = node(
            OpKind::Broadcast,
            seq![0usize, 3],
            shape,
            Elem::Truth,
            Some(valid),
            None,
            None,
        );
        lemma_valid(signed, c, r, seq![g, t]);
        assert(spread_from(seq![0usize, 3], at) =~= seq![g, t]);
        assert(operand(boxed(Some(valid)), r, seq![g, t]) == value(valid, r, seq![g, t]));
        assert(value(mask, r, at) == value(valid, r, seq![g, t]));
        lemma_filled(MASKED, shape, r, at);
        assert(operand(boxed(Some(mask)), r, at) == value(mask, r, at));
        assert(operand(boxed(Some(plain)), r, at) == value(plain, r, at));
        let masked = filled(MASKED, shape);
        assert(operand(boxed(Some(masked)), r, at) == value(masked, r, at));
    }
}

/// Pooling of a group: attention of the mean of its entries over the entries, and a linear
/// map of the heads. The query is a linear map of the mean, keys and values of the entries.
pub proof fn law_pooling_attends_to_the_entries(
    features: Expr,
    signed: Expr,
    args: Seq<TensorType>,
    base: int,
    c: Molmo2VisionConfig,
    k: VisionConstants,
    r: Reading,
    g: int,
    o: int,
)
    requires
        holds_adapter(args, base, c),
        c.pool_heads * c.pool_head_dim == c.pool_hidden,
        c.pool_size > 0,
        is_exponential(r.exp),
        0 <= g < c.static_pool_groups,
    ensures
        ({
            let entries = gathered_of(features, signed, c);
            let mean = pool_query(entries, signed, c, k);
            let q = affine(mean, argument(args, base), argument(args, base + 1));
            let key = affine(entries, argument(args, base + 2), argument(args, base + 3));
            let v = affine(entries, argument(args, base + 4), argument(args, base + 5));
            let scale = single_value(k.pool_scale);
            let score = |h: int, t: int| entry_score(q, key, signed, c, scale, r, g, h, t);
            value(pooled_of(features, signed, args, base, c, k), r, seq![g, o]) == total(
                c.pool_hidden as int,
                |j: int|
                    attended(score, v, c.pool_head_dim, c.pool_size as int, r, g, j) * value(
                        argument(args, base + 6),
                        r,
                        seq![o, j],
                    ),
            ) + value(argument(args, base + 7), r, seq![o])
        }),
{
    let (groups, size) = (c.static_pool_groups, c.pool_size);
    let (heads, dim, w) = (c.pool_heads, c.pool_head_dim, c.pool_hidden);
    let entries = gathered_of(features, signed, c);
    let mean = pool_query(entries, signed, c, k);
    let q = affine(mean, argument(args, base), argument(args, base + 1));
    let key = affine(entries, argument(args, base + 2), argument(args, base + 3));
    let v = affine(entries, argument(args, base + 4), argument(args, base + 5));
    assert(entries.shape() =~= seq![groups, size, feature_width(c)]);
    assert(mean.shape() =~= seq![groups, feature_width(c)]);
    assert(q.shape() =~= seq![groups, w]);
    assert(key.shape() =~= seq![groups, size, w]);
    assert(v.shape() =~= seq![groups, size, w]);
    let scale = single_value(k.pool_scale);
    let score = |h: int, t: int| entry_score(q, key, signed, c, scale, r, g, h, t);
    let qh = in_heads(q, groups, 1, heads, dim);
    let kh = in_heads(key, groups, size, heads, dim);
    let vh = in_heads(v, groups, size, heads, dim);
    let s = pool_scores(qh, kh, signed, c, k);
    assert(s.shape() =~= seq![groups, heads, 1usize, size]);
    assert forall|h: int, t: int| 0 <= h < heads && 0 <= t < size implies value(
        s,
        r,
        seq![g, h, 0, t],
    ) == #[trigger] score(h, t) by {
        lemma_entry_score(q, key, signed, c, k, r, g, h, t);
    }
    let y = contracted(softmax(s), vh, 2, 3, 2, seq![groups, heads, 1usize, dim]);
    let z = reshaped(swapped(y), seq![groups, w]);
    let at = seq![g, o];
    let f = |j: int| attended(score, v, dim, size as int, r, g, j);
    assert forall|j: int| 0 <= j < z.shape().last() implies value(z, r, with_last(at, j))
        == #[trigger] f(j) by {
        assert(with_last(at, j) =~= seq![g, j]);
        lemma_joined(y, groups, 1, heads, dim, w, r, g, 0, j);
        lemma_attended(s, v, groups, heads, 1, size, dim, w, r, g, 0, j, score);
    }
    let (wo, bo) = (argument(args, base + 6), argument(args, base + 7));
    lemma_joined_output(z, wo, bo, r, at, f);
    lemma_total_same(
        w as int,
        |j: int| f(j) * value(wo, r, seq![at.last(), j]),
        |j: int| attended(score, v, dim, size as int, r, g, j) * value(wo, r, seq![o, j]),
    );
    assert(pooled_of(features, signed, args, base, c, k) == affine(z, wo, bo));
}

/// A row of the input times a row of a weight.
pub open spec fn row_product(x: Expr, w: Expr, n: int, r: Reading, g: int, j: int) -> real {
    total(n, |i: int| value(x, r, seq![g, i]) * value(w, r, seq![j, i]))
}

proof fn lemma_row_product(x: Expr, w: Expr, r: Reading, g: int, j: int)
    requires
        x.rank() == 2,
    ensures
        value(product_with(x, w), r, seq![g, j]) == row_product(
            x,
            w,
            x.shape()[1] as int,
            r,
            g,
            j,
        ),
{
    let at = seq![g, j];
    let n = x.shape()[1] as int;
    lemma_product(x, w, r, at);
    let f1 = |i: int| value(x, r, with_last(at, i)) * value(w, r, seq![at.last(), i]);
    let f2 = |i: int| value(x, r, seq![g, i]) * value(w, r, seq![j, i]);
    assert forall|i: int| 0 <= i < n implies #[trigger] f1(i) == f2(i) by {
        assert(with_last(at, i) =~= seq![g, i]);
    }
    lemma_total_same(n, f1, f2);
}

/// The projector: for every inner entry, the first weight gives a number that is multiplied
/// by its logistic function and by what the third weight gives; the second weight maps these
/// products.
pub proof fn law_projector_is_gated(
    pooled: Expr,
    args: Seq<TensorType>,
    base: int,
    r: Reading,
    g: int,
    o: int,
)
    requires
        pooled.rank() == 2,
        argument(args, base).rank() == 2,
    ensures
        ({
            let n = pooled.shape()[1] as int;
            let gate = |j: int| row_product(pooled, argument(args, base), n, r, g, j);
            let up = |j: int| row_product(pooled, argument(args, base + 2), n, r, g, j);
            value(projected_of(pooled, args, base), r, seq![g, o]) == total(
                argument(args, base).shape()[0] as int,
                |j: int|
                    gate(j) / (1real + (r.exp)(-gate(j))) * up(j) * value(
                        argument(args, base + 1),
                        r,
                        seq![o, j],
                    ),
            )
        }),
{
    let n = pooled.shape()[1] as int;
    let (w1, w2, w3) = (argument(args, base), argument(args, base + 1), argument(args, base + 2));
    let gate = |j: int| row_product(pooled, w1, n, r, g, j);
    let up = |j: int| row_product(pooled, w3, n, r, g, j);
    let a = product_with(pooled, w1);
    let b = product_with(pooled, w3);
    let x = each(OpKind::Product, swish(a), b);
    let m = w1.shape()[0] as int;
    lemma_row_product(x, w2, r, g, o);
    let f1 = |j: int| value(x, r, seq![g, j]) * value(w2, r, seq![o, j]);
    let f2 = |j: int|
        gate(j) / (1real + (r.exp)(-gate(j))) * up(j) * value(w2, r, seq![o, j]);
    assert forall|j: int| 0 <= j < m implies #[trigger] f1(j) == f2(j) by {
        lemma_row_product(pooled, w1, r, g, j);
        lemma_row_product(pooled, w3, r, g, j);
        law_swish_is_silu(a, r, seq![g, j]);
        lemma_each(swish(a), b, r, seq![g, j]);
    }
    lemma_total_same(m, f1, f2);
}

/// The weights of a layer stand in the order in which its formulas read them: queries, keys,
/// values and output of the attention, the two norms, and the two maps of the feed-forward
/// part, each a weight and its bias.
pub proof fn law_layer_arguments_by_name(c: Molmo2VisionConfig, layer: int)
    requires
        0 <= layer < c.emitted_layers,
    ensures
        ({
            let name = |j: int| tower_weights(c)[layer_base(layer) + j].name;
            let stem = "vision_tower.image_vit.transformer."@ + dec(layer as nat);
            &&& name(0) == stem + ".attention.wq.weight"@
            &&& name(1) == stem + ".attention.wq.bias"@
            &&& name(2) == stem + ".attention.wk.weight"@
            &&& name(3) == stem + ".attention.wk.bias"@
            &&& name(4) == stem + ".attention.wv.weight"@
            &&& name(5) == stem + ".attention.wv.bias"@
            &&& name(6) == stem + ".attention.wo.weight"@
            &&& name(7) == stem + ".attention.wo.bias"@
            &&& name(8) == stem + ".attention_norm.weight"@
            &&& name(9) == stem + ".attention_norm.bias"@
            &&& name(10) == stem + ".ffn_norm.weight"@
            &&& name(11) == stem + ".ffn_norm.bias"@
            &&& name(12) == stem + ".feed_forward.w1.weight"@
            &&& name(13) == stem + ".feed_forward.w1.bias"@
            &&& name(14) == stem + ".feed_forward.w2.weight"@
            &&& name(15) == stem + ".feed_forward.w2.bias"@
        }),
{
    let n = c.emitted_layers as nat;
    let base = layer_base(layer);
    let stem = "vision_tower.image_vit.transformer."@ + dec(layer as nat);
    let w = vit_layer_weights(c, layer);
    lemma_vit_weights(c, n, layer);
    assert(embedding_weights(c).len() == 3);
    assert forall|j: int| 0 <= j < 16 implies #[trigger] tower_weights(c)[base + j] == w[j] by {
        assert(tower_weights(c)[base + j] == vit_weights(c, n)[16 * layer + j]);
    }
    reveal(vit_layer_weights);
    lemma_suffixes();
    assert(w[0].name =~= stem + ".attention.wq.weight"@) by {
        reveal_strlit(".attention.wq");
        reveal_strlit(".attention.wq.weight");
    }
    assert(w[1].name =~= stem + ".attention.wq.bias"@) by {
        reveal_strlit(".attention.wq");
        reveal_strlit(".attention.wq.bias");
    }
    assert(w[2].name =~= stem + ".attention.wk.weight"@) by {
        reveal_strlit(".attention.wk");
        reveal_strlit(".attention.wk.weight");
    }
    assert(w[3].name =~= stem + ".attention.wk.bias"@) by {
        reveal_strlit(".attention.wk");
        reveal_strlit(".attention.wk.bias");
    }
    assert(w[4].name =~= stem + ".attention.wv.weight"@) by {
        reveal_strlit(".attention.wv");
        reveal_strlit(".attention.wv.weight");
    }
    assert(w[5].name =~= stem + ".attention.wv.bias"@) by {
        reveal_strlit(".attention.wv");
        reveal_strlit(".attention.wv.bias");
    }
    assert(w[6].name =~= stem + ".attention.wo.weight"@) by {
        reveal_strlit(".attention.wo");
        reveal_strlit(".attention.wo.weight");
    }
    assert(w[7].name =~= stem + ".attention.wo.bias"@) by {
        reveal_strlit(".attention.wo");
        reveal_strlit(".attention.wo.bias");
    }
    assert(w[8].name =~= stem + ".attention_norm.weight"@) by {
        reveal_strlit(".attention_norm");
        reveal_strlit(".attention_norm.weight");
    }
    assert(w[9].name =~= stem + ".attention_norm.bias"@) by {
        reveal_strlit(".attention_norm");
        reveal_strlit(".attention_norm.bias");
    }
    assert(w[10].name =~= stem + ".ffn_norm.weight"@) by {
        reveal_strlit(".ffn_norm");
        reveal_strlit(".ffn_norm.weight");
    }
    assert(w[11].name =~= stem + ".ffn_norm.bias"@) by {
        reveal_strlit(".ffn_norm");
        reveal_strlit(".ffn_norm.bias");
    }
    assert(w[12].name =~= stem + ".feed_forward.w1.weight"@) by {
        reveal_strlit(".feed_forward.w1");
        reveal_strlit(".feed_forward.w1.weight");
    }
    assert(w[13].name =~= stem + ".feed_forward.w1.bias"@) by {
        reveal_strlit(".feed_forward.w1");
        reveal_strlit(".feed_forward.w1.bias");
    }
    assert(w[14].name =~= stem + ".feed_forward.w2.weight"@) by {
        reveal_strlit(".feed_forward.w2");
        reveal_strlit(".feed_forward.w2.weight");
    }
    assert(w[15].name =~= stem + ".feed_forward.w2.bias"@) by {
        reveal_strlit(".feed_forward.w2");
        reveal_strlit(".feed_forward.w2.bias");
    }
}

proof fn lemma_suffixes()
    ensures
        ".weight"@ == seq!['.', 'w', 'e', 'i', 'g', 'h', 't'],
        ".bias"@ == seq!['.', 'b', 'i', 'a', 's'],
{
    reveal_strlit(".weight");
    reveal_strlit(".bias");
    assert(".weight"@ =~= seq!['.', 'w', 'e', 'i', 'g', 'h', 't']);
    assert(".bias"@ =~= seq!['.', 'b', 'i', 'a', 's']);
}

/// In front of the layers stand the patch embedding and the positions; behind them stand the
/// pooling attention and the projector, and behind those the patches and the pooling indices.
pub proof fn law_outer_arguments_by_name(c: Molmo2VisionConfig)
    ensures
        ({
            let name = |j: int| tower_weights(c)[j].name;
            let back = layer_base(c.emitted_layers as int);
            &&& tower_weights(c).len() == back + 11
            &&& name(0) == "vision_tower.image_vit.patch_embedding.weight"@
            &&& name(1) == "vision_tower.image_vit.patch_embedding.bias"@
            &&& name(2) == "vision_tower.image_vit.positional_embedding"@
            &&& name(back) == "vision_tower.image_pooling_2d.wq.weight"@
            &&& name(back + 1) == "vision_tower.image_pooling_2d.wq.bias"@
            &&& name(back + 2) == "vision_tower.image_pooling_2d.wk.weight"@
            &&& name(back + 3) == "vision_tower.image_pooling_2d.wk.bias"@
            &&& name(back + 4) == "vision_tower.image_pooling_2d.wv.weight"@
            &&& name(back + 5) == "vision_tower.image_pooling_2d.wv.bias"@
            &&& name(back + 6) == "vision_tower.image_pooling_2d.wo.weight"@
            &&& name(back + 7) == "vision_tower.image_pooling_2d.wo.bias"@
            &&& name(back + 8) == "vision_tower.image_projector.w1.weight"@
            &&& name(back + 9) == "vision_tower.image_projector.w2.weight"@
            &&& name(back + 10) == "vision_tower.image_projector.w3.weight"@
        }),
{
    let n = c.emitted_layers as nat;
    let back = layer_base(n as int);
    let front = embedding_weights(c);
    let w = adapter_weights(c);
    if n > 0 {
        lemma_vit_weights(c, n, 0);
    } else {
        assert(vit_weights(c, 0).len() == 0);
    }
    assert(front.len() == 3);
    assert(w.len() == 11) by {
        reveal(adapter_weights);
    }
    assert forall|j: int| 0 <= j < 3 implies #[trigger] tower_weights(c)[j] == front[j] by {}
    assert forall|j: int| 0 <= j < 11 implies #[trigger] tower_weights(c)[back + j] == w[j] by {}
    assert(tower_weights(c)[back + 0] == w[0]);
    lemma_suffixes();
    reveal(adapter_weights);
    assert(front[0].name =~= "vision_tower.image_vit.patch_embedding.weight"@) by {
        reveal_strlit("vision_tower.image_vit.");
        reveal_strlit("patch_embedding");
        reveal_strlit("vision_tower.image_vit.patch_embedding.weight");
    }
    assert(front[1].name =~= "vision_tower.image_vit.patch_embedding.bias"@) by {
        reveal_strlit("vision_tower.image_vit.");
        reveal_strlit("patch_embedding");
        reveal_strlit("vision_tower.image_vit.patch_embedding.bias");
    }
    assert(w[0].name =~= "vision_tower.image_pooling_2d.wq.weight"@) by {
        reveal_strlit("vision_tower.image_pooling_2d.");
        reveal_strlit("wq");
        reveal_strlit("vision_tower.image_pooling_2d.wq.weight");
    }
    assert(w[1].name =~= "vision_tower.image_pooling_2d.wq.bias"@) by {
        reveal_strlit("vision_tower.image_pooling_2d.");
        reveal_strlit("wq");
        reveal_strlit("vision_tower.image_pooling_2d.wq.bias");
    }
    assert(w[2].name =~= "vision_tower.image_pooling_2d.wk.weight"@) by {
        reveal_strlit("vision_tower.image_pooling_2d.");
        reveal_strlit("wk");
        reveal_strlit("vision_tower.image_pooling_2d.wk.weight");
    }
    assert(w[3].name =~= "vision_tower.image_pooling_2d.wk.bias"@) by {
        reveal_strlit("vision_tower.image_pooling_2d.");
        reveal_strlit("wk");
        reveal_strlit("vision_tower.image_pooling_2d.wk.bias");
    }
    assert(w[4].name =~= "vision_tower.image_pooling_2d.wv.weight"@) by {
        reveal_strlit("vision_tower.image_pooling_2d.");
        reveal_strlit("wv");
        reveal_strlit("vision_tower.image_pooling_2d.wv.weight");
    }
    assert(w[5].name =~= "vision_tower.image_pooling_2d.wv.bias"@) by {
        reveal_strlit("vision_tower.image_pooling_2d.");
        reveal_strlit("wv");
        reveal_strlit("vision_tower.image_pooling_2d.wv.bias");
    }
    assert(w[6].name =~= "vision_tower.image_pooling_2d.wo.weight"@) by {
        reveal_strlit("vision_tower.image_pooling_2d.");
        reveal_strlit("wo");
        reveal_strlit("vision_tower.image_pooling_2d.wo.weight");
    }
    assert(w[7].name =~= "vision_tower.image_pooling_2d.wo.bias"@) by {
        reveal_strlit("vision_tower.image_pooling_2d.");
        reveal_strlit("wo");
        reveal_strlit("vision_tower.image_pooling_2d.wo.bias");
    }
}

/// The output of the tower: the projector on the pooled features, with the patches and the
/// pooling indices as the two arguments behind the weights.
pub proof fn law_output_reads_behind_the_weights(
    args: Seq<TensorType>,
    c: Molmo2VisionConfig,
    k: VisionConstants,
)
    ensures
        ({
            let n = tower_weights(c).len() as int;
            let features = features_of(args, c, k, n);
            let pooled = pooled_of(features, argument(args, n + 1), args, n - 11, c, k);
            vision_output(args, c, k) == projected_of(pooled, args, n - 3)
        }),
{
    law_outer_arguments_by_name(c);
}

/// Each layer reads the states behind the one before and its own weights.
pub proof fn law_layers_follow_each_other(
    args: Seq<TensorType>,
    c: Molmo2VisionConfig,
    k: VisionConstants,
    patches: int,
    layer: nat,
)
    ensures
        hidden_behind(args, c, k, patches, 0) == embedded(args, c, patches),
        hidden_behind(args, c, k, patches, layer + 1) == layer_of(
            hidden_behind(args, c, k, patches, layer),
            args,
            layer_base(layer as int),
            c,
            k,
        ),
{
}

} // verus!
