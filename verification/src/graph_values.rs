//! What tensor programs compute, over the reals: the value of every entry of an expression,
//! and that the parts programs are made of are the functions they are named after.
use vstd::arithmetic::div_mod::{lemma_fundamental_div_mod, lemma_fundamental_div_mod_converse};
use vstd::arithmetic::power2::{lemma2_to64, lemma_pow2_adds, lemma_pow2_pos, pow2};
use vstd::prelude::*;

use crate::graph::{boxed, constant_of, each, map_each, Elem, Expr, OpKind};
use crate::halves::single_steps;
use crate::vision_graph::{
    affine, centered, contracted, filled, gelu, in_heads, inverse_deviation, iota, normalized,
    product_with, reduced, reshaped, scores_of, softmax, spread, swapped, swish, GELU_CUBIC,
    GELU_SCALE, HALF, MASKED, NEGATIVE_INFINITY, ONE, ZERO,
};

verus! {

/// What a program is read with: the entries of its arguments, and the functions that its
/// operations name.
pub ghost struct Reading {
    /// Entries of the arguments that hold singles.
    pub singles: spec_fn(nat, Seq<int>) -> real,
    /// Entries of the arguments that hold integers.
    pub integers: spec_fn(nat, Seq<int>) -> int,
    pub exp: spec_fn(real) -> real,
    pub tanh: spec_fn(real) -> real,
    /// One over the square root.
    pub inverse_root: spec_fn(real) -> real,
}

/// The number that the bits of a finite single stand for.
pub open spec fn single_value(bits: u32) -> real {
    let magnitude = single_steps(bits as nat % 0x8000_0000) as real / pow2(149) as real;
    if bits >= 0x8000_0000 {
        -magnitude
    } else {
        magnitude
    }
}

/// `f(0)` to `f(n - 1)` added up.
pub open spec fn total(n: int, f: spec_fn(int) -> real) -> real
    decreases n,
{
    if n <= 0 {
        0real
    } else {
        total(n - 1, f) + f(n - 1)
    }
}

/// The larger of two numbers.
pub open spec fn larger(a: real, b: real) -> real {
    if a >= b {
        a
    } else {
        b
    }
}

/// The largest of `f(0)` to `f(n - 1)`.
pub open spec fn largest(n: int, f: spec_fn(int) -> real) -> real
    decreases n,
{
    if n <= 1 {
        f(0)
    } else {
        larger(largest(n - 1, f), f(n - 1))
    }
}

/// The place of an entry in row-major order.
pub open spec fn place(shape: Seq<usize>, at: Seq<int>) -> int
    decreases shape.len(),
{
    if shape.len() == 0 {
        0
    } else {
        place(shape.drop_last(), at.drop_last()) * shape.last() + at.last()
    }
}

/// The entry at a place of row-major order.
pub open spec fn entry_at(shape: Seq<usize>, k: int) -> Seq<int>
    decreases shape.len(),
{
    if shape.len() == 0 {
        Seq::empty()
    } else {
        entry_at(shape.drop_last(), k / shape.last() as int).push(k % shape.last() as int)
    }
}

/// The shape of an operand.
pub open spec fn shape_of(e: Option<Box<Expr>>) -> Seq<usize> {
    match e {
        Some(x) => x.shape(),
        None => Seq::empty(),
    }
}

/// The position of a dimension in an order of dimensions.
pub open spec fn position_of(order: Seq<usize>, d: int, from: int) -> int
    decreases order.len() - from,
{
    if from < 0 || from >= order.len() || order[from] == d {
        from
    } else {
        position_of(order, d, from + 1)
    }
}

/// An entry of an operand of integers.
pub open spec fn integer_operand(o: Option<Box<Expr>>, r: Reading, at: Seq<int>) -> int
    decreases o,
{
    match o {
        Some(x) => integer(*x, r, at),
        None => 0,
    }
}

/// An entry of an expression of integers.
pub open spec fn integer(e: Expr, r: Reading, at: Seq<int>) -> int
    decreases e,
{
    match e {
        Expr::Arg { index, .. } => (r.integers)(index, at),
        Expr::Node { kind, bits, list, shape, a, b, .. } => match kind {
            OpKind::Constant => if bits >= 0x8000_0000 {
                bits - 0x1_0000_0000
            } else {
                bits as int
            },
            OpKind::Maximum => {
                let (x, y) = (integer_operand(a, r, at), integer_operand(b, r, at));
                if x >= y {
                    x
                } else {
                    y
                }
            },
            OpKind::Broadcast => integer_operand(a, r, spread_from(list, at)),
            OpKind::Reshape => integer_operand(a, r, entry_at(shape_of(a), place(shape, at))),
            _ => 0,
        },
    }
}

/// The entry of an operand that stands at an entry of the shape it is spread over.
pub open spec fn spread_from(dims: Seq<usize>, at: Seq<int>) -> Seq<int> {
    Seq::new(dims.len(), |i: int| at[dims[i] as int])
}

/// The entry of an operand that stands at an entry of the reordered shape.
pub open spec fn moved_from(order: Seq<usize>, at: Seq<int>) -> Seq<int> {
    Seq::new(order.len(), |d: int| at[position_of(order, d, 0)])
}

/// An entry of an operand.
pub open spec fn operand(o: Option<Box<Expr>>, r: Reading, at: Seq<int>) -> real
    decreases o, 0int, 0int,
{
    match o {
        Some(x) => value(*x, r, at),
        None => 0real,
    }
}

/// The first `n` entries along a dimension added up.
pub open spec fn sum_along(
    o: Option<Box<Expr>>,
    r: Reading,
    at: Seq<int>,
    axis: int,
    n: int,
) -> real
    decreases o, 1int, n,
{
    if n <= 0 {
        0real
    } else {
        sum_along(o, r, at, axis, n - 1) + operand(o, r, at.insert(axis, n - 1))
    }
}

/// The largest of the first `n` entries along a dimension.
pub open spec fn most_along(
    o: Option<Box<Expr>>,
    r: Reading,
    at: Seq<int>,
    axis: int,
    n: int,
) -> real
    decreases o, 1int, n,
{
    if n <= 1 {
        operand(o, r, at.insert(axis, 0))
    } else {
        larger(most_along(o, r, at, axis, n - 1), operand(o, r, at.insert(axis, n - 1)))
    }
}

/// The first `n` products of entries of both operands along a dimension of each, added up.
pub open spec fn products_along(
    e: Expr,
    r: Reading,
    left: Seq<int>,
    i: int,
    right: Seq<int>,
    j: int,
    n: int,
) -> real
    decreases e, 0int, n,
{
    match e {
        Expr::Arg { .. } => 0real,
        Expr::Node { a, b, .. } => if n <= 0 {
            0real
        } else {
            products_along(e, r, left, i, right, j, n - 1) + operand(
                a,
                r,
                left.insert(i, n - 1),
            ) * operand(b, r, right.insert(j, n - 1))
        },
    }
}

/// An entry of an expression of singles or of truth values, which are 1 and 0.
pub open spec fn value(e: Expr, r: Reading, at: Seq<int>) -> real
    decreases e, 1int, 0int,
{
    match e {
        Expr::Arg { index, .. } => (r.singles)(index, at),
        Expr::Node { kind, bits, list, shape, a, b, c, .. } => match kind {
            OpKind::Constant => single_value(bits),
            OpKind::Sum => operand(a, r, at) + operand(b, r, at),
            OpKind::Difference => operand(a, r, at) - operand(b, r, at),
            OpKind::Product => operand(a, r, at) * operand(b, r, at),
            OpKind::Quotient => operand(a, r, at) / operand(b, r, at),
            OpKind::Maximum => larger(operand(a, r, at), operand(b, r, at)),
            OpKind::InverseRoot => (r.inverse_root)(operand(a, r, at)),
            OpKind::Tanh => (r.tanh)(operand(a, r, at)),
            OpKind::Negate => -operand(a, r, at),
            OpKind::Exponential => (r.exp)(operand(a, r, at)),
            OpKind::Broadcast => operand(a, r, spread_from(list, at)),
            OpKind::Reshape => operand(a, r, entry_at(shape_of(a), place(shape, at))),
            OpKind::Transpose => operand(a, r, moved_from(list, at)),
            OpKind::Dot => {
                // The leading dimensions are shared, then come the other dimensions of the
                // first operand, then those of the second.
                let batch = list[0] as int;
                let (i, j) = (list[1] as int, list[2] as int);
                let rank = shape_of(a).len() as int;
                products_along(
                    e,
                    r,
                    at.subrange(0, rank - 1),
                    i,
                    at.subrange(0, batch) + at.subrange(rank - 1, at.len() as int),
                    j,
                    shape_of(a)[i] as int,
                )
            },
            OpKind::ReduceSum => operand(b, r, Seq::empty()) + sum_along(
                a,
                r,
                at,
                list[0] as int,
                shape_of(a)[list[0] as int] as int,
            ),
            OpKind::ReduceMaximum => {
                let most = most_along(
                    a,
                    r,
                    at,
                    list[0] as int,
                    shape_of(a)[list[0] as int] as int,
                );
                // Minus infinity is below every number.
                if b == boxed(Some(constant_of(NEGATIVE_INFINITY, Elem::Single))) {
                    most
                } else {
                    larger(operand(b, r, Seq::empty()), most)
                }
            },
            OpKind::AtLeast => if integer_operand(a, r, at) >= integer_operand(b, r, at) {
                1real
            } else {
                0real
            },
            OpKind::ToSingle => operand(a, r, at),
            OpKind::GatherRows => {
                let n = at.len() - 1;
                operand(a, r, seq![integer_operand(b, r, at.subrange(0, n).push(0)), at[n]])
            },
            OpKind::Select => if operand(a, r, at) == 1real {
                operand(b, r, at)
            } else {
                operand(c, r, at)
            },
            OpKind::Concatenate => {
                let axis = list[0] as int;
                let split = shape_of(a)[axis] as int;
                if at[axis] < split {
                    operand(a, r, at)
                } else {
                    operand(b, r, at.update(axis, at[axis] - split))
                }
            },
        },
    }
}

/// The constants zero, one half and one are these numbers.
pub proof fn law_small_constants()
    ensures
        single_value(ZERO) == 0real,
        single_value(HALF) == 1real / 2real,
        single_value(ONE) == 1real,
{
    lemma_pow2_pos(149);
    lemma2_to64();
    lemma_pow2_adds(23, 126);
    lemma_pow2_adds(23, 125);
    lemma_pow2_adds(1, 148);
    assert(single_steps(0) == 0);
    assert(single_steps(0x3f80_0000) == 0x80_0000 * pow2(126));
    assert(single_steps(0x3f00_0000) == 0x80_0000 * pow2(125));
    let p = pow2(149) as real;
    let q = pow2(148) as real;
    assert(p == 2real * q);
    assert(0real / p == 0real && p / p == 1real && q / p == 1real / 2real) by (nonlinear_arith)
        requires
            p == 2real * q,
            p > 0real,
    ;
}

pub proof fn lemma_total_same(n: int, f: spec_fn(int) -> real, g: spec_fn(int) -> real)
    requires
        forall|i: int| 0 <= i < n ==> #[trigger] f(i) == g(i),
    ensures
        total(n, f) == total(n, g),
    decreases n,
{
    if n > 0 {
        lemma_total_same(n - 1, f, g);
        assert(f(n - 1) == g(n - 1));
    }
}

/// Operations on entries at the same place.
pub proof fn lemma_each(a: Expr, b: Expr, r: Reading, at: Seq<int>)
    ensures
        value(each(OpKind::Sum, a, b), r, at) == value(a, r, at) + value(b, r, at),
        value(each(OpKind::Difference, a, b), r, at) == value(a, r, at) - value(b, r, at),
        value(each(OpKind::Product, a, b), r, at) == value(a, r, at) * value(b, r, at),
        value(each(OpKind::Quotient, a, b), r, at) == value(a, r, at) / value(b, r, at),
        value(each(OpKind::Maximum, a, b), r, at) == larger(value(a, r, at), value(b, r, at)),
{
}

/// Functions of the entry at the same place.
pub proof fn lemma_map_each(a: Expr, r: Reading, at: Seq<int>)
    ensures
        value(map_each(OpKind::Exponential, a), r, at) == (r.exp)(value(a, r, at)),
        value(map_each(OpKind::Tanh, a), r, at) == (r.tanh)(value(a, r, at)),
        value(map_each(OpKind::InverseRoot, a), r, at) == (r.inverse_root)(value(a, r, at)),
        value(map_each(OpKind::Negate, a), r, at) == -value(a, r, at),
{
}

pub proof fn lemma_spread(x: Expr, dims: Seq<usize>, shape: Seq<usize>, r: Reading, at: Seq<int>)
    ensures
        value(spread(x, dims, shape), r, at) == value(x, r, spread_from(dims, at)),
{
}

pub proof fn lemma_filled(bits: u32, shape: Seq<usize>, r: Reading, at: Seq<int>)
    ensures
        value(filled(bits, shape), r, at) == single_value(bits),
{
    let none = Seq::<usize>::empty();
    lemma_spread(constant_of(bits, Elem::Single), none, shape, r, at);
}

/// The activation of the projector is the product of a number and its logistic function.
pub proof fn law_swish_is_silu(x: Expr, r: Reading, at: Seq<int>)
    ensures
        ({
            let v = value(x, r, at);
            value(swish(x), r, at) == v / (1real + (r.exp)(-v))
        }),
{
    let one = filled(ONE, x.shape());
    let minus = map_each(OpKind::Negate, x);
    let power = map_each(OpKind::Exponential, minus);
    law_small_constants();
    lemma_filled(ONE, x.shape(), r, at);
    lemma_map_each(x, r, at);
    lemma_map_each(minus, r, at);
    lemma_each(one, power, r, at);
    lemma_each(x, each(OpKind::Sum, one, power), r, at);
}

/// The activation of the projector passes positive numbers and stops negative ones: it lies
/// between half of a positive number and the number, and between half of a negative number
/// and zero.
pub proof fn law_swish_passes_positive_numbers(x: Expr, r: Reading, at: Seq<int>)
    requires
        (r.exp)(0real) == 1real,
        forall|a: real| 0real < #[trigger] (r.exp)(a),
        forall|a: real, b: real| a < b ==> #[trigger] (r.exp)(a) < #[trigger] (r.exp)(b),
    ensures
        ({
            let v = value(x, r, at);
            let y = value(swish(x), r, at);
            &&& 0real < v ==> v / 2real < y < v
            &&& v < 0real ==> v / 2real < y < 0real
        }),
{
    let v = value(x, r, at);
    let y = value(swish(x), r, at);
    let e = (r.exp)(-v);
    law_swish_is_silu(x, r, at);
    assert(0real < e && (0real < v ==> e < (r.exp)(0real)) && (v < 0real ==> (r.exp)(0real) < e));
    assert(0real < v ==> v / 2real < y < v) by (nonlinear_arith)
        requires
            y == v / (1real + e),
            0real < e,
            0real < v ==> e < 1real,
    ;
    assert(v < 0real ==> v / 2real < y < 0real) by (nonlinear_arith)
        requires
            y == v / (1real + e),
            0real < e,
            v < 0real ==> 1real < e,
    ;
}

/// The activation of the feed-forward part is the tanh form of GELU.
pub proof fn law_activation_is_gelu(x: Expr, r: Reading, at: Seq<int>)
    ensures
        ({
            let v = value(x, r, at);
            let inner = v + single_value(GELU_CUBIC) * (v * v * v);
            value(gelu(x), r, at) == v * (1real / 2real) * (1real + (r.tanh)(
                single_value(GELU_SCALE) * inner,
            ))
        }),
{
    let s = x.shape();
    let cube = each(OpKind::Product, each(OpKind::Product, x, x), x);
    let term = each(OpKind::Product, filled(GELU_CUBIC, s), cube);
    let inner = each(OpKind::Sum, x, term);
    let scaled = each(OpKind::Product, filled(GELU_SCALE, s), inner);
    let tanh = map_each(OpKind::Tanh, scaled);
    law_small_constants();
    lemma_filled(GELU_CUBIC, s, r, at);
    lemma_filled(GELU_SCALE, s, r, at);
    lemma_filled(HALF, s, r, at);
    lemma_filled(ONE, s, r, at);
    lemma_each(x, x, r, at);
    lemma_each(each(OpKind::Product, x, x), x, r, at);
    lemma_each(filled(GELU_CUBIC, s), cube, r, at);
    lemma_each(x, term, r, at);
    lemma_each(filled(GELU_SCALE, s), inner, r, at);
    lemma_map_each(scaled, r, at);
    lemma_each(filled(ONE, s), tanh, r, at);
    lemma_each(x, filled(HALF, s), r, at);
    lemma_each(
        each(OpKind::Product, x, filled(HALF, s)),
        each(OpKind::Sum, filled(ONE, s), tanh),
        r,
        at,
    );
}

/// The constants of GELU are the singles next to 0.044715 and to the square root of 2 / pi,
/// and a masked score is far below any other.
pub proof fn law_other_constants()
    ensures
        -2real < (single_value(GELU_CUBIC) - 44715real / 1000000real) * 1000000000real < 2real,
        -3real < (single_value(GELU_SCALE) - 7978845608real / 10000000000real) * 100000000real
            < 3real,
        single_value(MASKED) < -(999999real * 1000000000000real * 1000000000000real),
        -(1000001real * 1000000000000real * 1000000000000real) < single_value(MASKED),
{
    lemma_pow2_pos(149);
    lemma2_to64();
    lemma_pow2_adds(121, 28);
    lemma_pow2_adds(125, 24);
    lemma_pow2_adds(149, 76);
    lemma_pow2_adds(64, 12);
    lemma_pow2_pos(121);
    lemma_pow2_pos(125);
    assert(single_steps(0x3d37_2713) == 12003091 * pow2(121));
    assert(single_steps(0x3f4c_422a) == 13386282 * pow2(125));
    assert(single_steps(0x7149_f2ca) == 13234890 * pow2(225));
    assert(MASKED as nat % 0x8000_0000 == 0x7149_f2ca);
    let a = pow2(121) as real;
    let b = pow2(125) as real;
    let c = pow2(149) as real;
    assert(c == a * 268435456real && c == b * 16777216real);
    let t = 75557863725914323419136int;
    assert(pow2(76) == t);
    assert(pow2(225) as real == c * 75557863725914323419136real) by {
        assert(pow2(225) == pow2(149) * t);
        let n = pow2(149) as int;
        assert((n * t) as real == n as real * t as real) by (nonlinear_arith);
    }
    assert((12003091real * a) / c == 12003091real / 268435456real) by (nonlinear_arith)
        requires
            c == a * 268435456real,
            a > 0real,
    ;
    assert((13386282real * b) / c == 13386282real / 16777216real) by (nonlinear_arith)
        requires
            c == b * 16777216real,
            b > 0real,
    ;
    assert((13234890real * (c * 75557863725914323419136real)) / c == 13234890real
        * 75557863725914323419136real) by (nonlinear_arith)
        requires
            c > 0real,
    ;
}

/// The entry that differs from another only in the last place.
pub open spec fn with_last(at: Seq<int>, t: int) -> Seq<int> {
    at.drop_last().push(t)
}

/// Sums and maxima along the last dimension, entry by entry.
pub proof fn lemma_along(x: Expr, r: Reading, at: Seq<int>, n: int)
    ensures
        sum_along(boxed(Some(x)), r, at, at.len() as int, n) == total(
            n,
            |t: int| value(x, r, at.push(t)),
        ),
        most_along(boxed(Some(x)), r, at, at.len() as int, n) == largest(
            n,
            |t: int| value(x, r, at.push(t)),
        ),
    decreases n,
{
    if n > 1 {
        lemma_along(x, r, at, n - 1);
    }
    assert(at.insert(at.len() as int, n - 1) =~= at.push(n - 1));
    assert(at.insert(at.len() as int, 0) =~= at.push(0));
    if n == 1 {
        lemma_along(x, r, at, 0);
    }
    assert(operand(boxed(Some(x)), r, at.push(n - 1)) == value(x, r, at.push(n - 1)));
    assert(operand(boxed(Some(x)), r, at.push(0)) == value(x, r, at.push(0)));
}

/// A sum along the last dimension.
pub proof fn lemma_summed(x: Expr, r: Reading, at: Seq<int>)
    requires
        x.rank() >= 1,
        x.rank() <= usize::MAX,
        at.len() == x.rank() - 1,
    ensures
        value(reduced(OpKind::ReduceSum, x, x.rank() - 1, ZERO), r, at) == total(
            x.shape().last() as int,
            |t: int| value(x, r, at.push(t)),
        ),
{
    law_small_constants();
    assert(value(constant_of(ZERO, Elem::Single), r, Seq::empty()) == 0real);
    lemma_along(x, r, at, x.shape().last() as int);
}

/// The largest value along the last dimension.
proof fn lemma_maximum(x: Expr, r: Reading, at: Seq<int>)
    requires
        x.rank() >= 1,
        x.rank() <= usize::MAX,
        at.len() == x.rank() - 1,
    ensures
        value(reduced(OpKind::ReduceMaximum, x, x.rank() - 1, NEGATIVE_INFINITY), r, at)
            == largest(x.shape().last() as int, |t: int| value(x, r, at.push(t))),
{
    lemma_along(x, r, at, x.shape().last() as int);
}

/// Products of two operands along a dimension of each, entry by entry.
proof fn lemma_products(
    x: Expr,
    y: Expr,
    e: Expr,
    r: Reading,
    left: Seq<int>,
    i: int,
    right: Seq<int>,
    j: int,
    n: int,
)
    requires
        e matches Expr::Node { a, b, .. } && a == boxed(Some(x)) && b == boxed(Some(y)),
    ensures
        products_along(e, r, left, i, right, j, n) == total(
            n,
            |t: int| value(x, r, left.insert(i, t)) * value(y, r, right.insert(j, t)),
        ),
    decreases n,
{
    if n > 0 {
        lemma_products(x, y, e, r, left, i, right, j, n - 1);
        let (p, q) = (left.insert(i, n - 1), right.insert(j, n - 1));
        assert(operand(boxed(Some(x)), r, p) == value(x, r, p));
        assert(operand(boxed(Some(y)), r, q) == value(y, r, q));
    }
}

/// An entry of a linear map is the product of a row of the input and a row of the weight,
/// plus the bias of that row.
pub proof fn law_linear_map(x: Expr, w: Expr, b: Expr, r: Reading, at: Seq<int>)
    requires
        x.rank() >= 1,
        x.rank() <= usize::MAX,
        w.rank() == 2,
        at.len() == x.rank(),
    ensures
        value(affine(x, w, b), r, at) == total(
            x.shape().last() as int,
            |i: int| value(x, r, with_last(at, i)) * value(w, r, seq![at.last(), i]),
        ) + value(b, r, seq![at.last()]),
{
    let y = product_with(x, w);
    let last = (y.rank() - 1) as usize;
    lemma_product(x, w, r, at);
    let bias = spread(b, seq![last], y.shape());
    lemma_spread(b, seq![last], y.shape(), r, at);
    assert(y.rank() == x.rank());
    assert(spread_from(seq![last], at) =~= seq![at.last()]);
    lemma_each(y, bias, r, at);
}

/// An entry of a product with a weight.
pub proof fn lemma_product(x: Expr, w: Expr, r: Reading, at: Seq<int>)
    requires
        x.rank() >= 1,
        x.rank() <= usize::MAX,
        at.len() == x.rank(),
    ensures
        value(product_with(x, w), r, at) == total(
            x.shape().last() as int,
            |i: int| value(x, r, with_last(at, i)) * value(w, r, seq![at.last(), i]),
        ),
{
    let n = x.rank();
    let len = x.shape().last() as int;
    let left = at.subrange(0, n - 1);
    let right = at.subrange(0, 0) + at.subrange(n - 1, n);
    lemma_products(x, w, product_with(x, w), r, left, n - 1, right, 1, len);
    let f = |t: int| value(x, r, with_last(at, t)) * value(w, r, seq![at.last(), t]);
    let g = |t: int| value(x, r, left.insert(n - 1, t)) * value(w, r, right.insert(1, t));
    assert forall|t: int| 0 <= t < len implies #[trigger] f(t) == g(t) by {
        assert(left.insert(n - 1, t) =~= with_last(at, t));
        assert(right.insert(1, t) =~= seq![at.last(), t]);
    }
    lemma_total_same(len, f, g);
}

/// A value of the leading dimensions, spread over the last.
proof fn lemma_spread_last(x: Expr, shape: Seq<usize>, r: Reading, at: Seq<int>)
    requires
        1 <= at.len() <= usize::MAX,
    ensures
        value(spread(x, iota(at.len() - 1), shape), r, at) == value(x, r, at.drop_last()),
{
    lemma_spread(x, iota(at.len() - 1), shape, r, at);
    assert(spread_from(iota(at.len() - 1), at) =~= at.drop_last());
}

/// The mean of the entries along the last dimension.
pub open spec fn mean_of(x: Expr, width: real, r: Reading, at: Seq<int>) -> real {
    total(x.shape().last() as int, |t: int| value(x, r, with_last(at, t))) / width
}

/// The mean square of the distances from the mean along the last dimension.
pub open spec fn variance_of(x: Expr, width: real, r: Reading, at: Seq<int>) -> real {
    let mean = mean_of(x, width, r, at);
    total(
        x.shape().last() as int,
        |t: int|
            (value(x, r, with_last(at, t)) - mean) * (value(x, r, with_last(at, t)) - mean),
    ) / width
}

proof fn lemma_centered(x: Expr, width: u32, r: Reading, at: Seq<int>)
    requires
        1 <= x.rank() <= usize::MAX,
        at.len() == x.rank(),
    ensures
        value(centered(x, width), r, at) == value(x, r, at) - mean_of(
            x,
            single_value(width),
            r,
            at,
        ),
        centered(x, width).shape() == x.shape(),
{
    let axis = x.rank() - 1;
    let sum = reduced(OpKind::ReduceSum, x, axis, ZERO);
    let count = filled(width, x.shape().drop_last());
    let mean = each(OpKind::Quotient, sum, count);
    lemma_summed(x, r, at.drop_last());
    lemma_filled(width, x.shape().drop_last(), r, at.drop_last());
    lemma_each(sum, count, r, at.drop_last());
    lemma_spread_last(mean, x.shape(), r, at);
    lemma_each(x, spread(mean, iota(axis), x.shape()), r, at);
    lemma_total_same(
        x.shape().last() as int,
        |t: int| value(x, r, at.drop_last().push(t)),
        |t: int| value(x, r, with_last(at, t)),
    );
}

proof fn lemma_variance(x: Expr, width: u32, r: Reading, at: Seq<int>)
    requires
        1 <= x.rank() <= usize::MAX,
        at.len() == x.rank(),
    ensures
        ({
            let c = centered(x, width);
            let squares = each(OpKind::Product, c, c);
            let axis = x.rank() - 1;
            value(
                each(
                    OpKind::Quotient,
                    reduced(OpKind::ReduceSum, squares, axis, ZERO),
                    filled(width, x.shape().drop_last()),
                ),
                r,
                at.drop_last(),
            ) == variance_of(x, single_value(width), r, at)
        }),
{
    let c = centered(x, width);
    let squares = each(OpKind::Product, c, c);
    let axis = x.rank() - 1;
    let short = at.drop_last();
    let w = single_value(width);
    let mean = mean_of(x, w, r, at);
    let count = filled(width, x.shape().drop_last());
    lemma_centered(x, width, r, at);
    lemma_summed(squares, r, short);
    lemma_filled(width, x.shape().drop_last(), r, short);
    lemma_each(reduced(OpKind::ReduceSum, squares, axis, ZERO), count, r, short);
    let f = |t: int| value(squares, r, short.push(t));
    let g = |t: int|
        (value(x, r, with_last(at, t)) - mean) * (value(x, r, with_last(at, t)) - mean);
    assert forall|t: int| 0 <= t < x.shape().last() implies #[trigger] f(t) == g(t) by {
        let p = with_last(at, t);
        lemma_each(c, c, r, p);
        lemma_centered(x, width, r, p);
        assert(p.drop_last() =~= short);
        lemma_total_same(
            x.shape().last() as int,
            |u: int| value(x, r, with_last(p, u)),
            |u: int| value(x, r, with_last(at, u)),
        );
    }
    lemma_total_same(x.shape().last() as int, f, g);
}

/// A layer norm takes the mean from an entry, divides by the root of the variance and the
/// epsilon, and scales and shifts by the weight and the bias of the place.
pub proof fn law_layer_norm(
    x: Expr,
    w: Expr,
    b: Expr,
    width: u32,
    epsilon: u32,
    r: Reading,
    at: Seq<int>,
)
    requires
        1 <= x.rank() <= usize::MAX,
        at.len() == x.rank(),
    ensures
        ({
            let n = single_value(width);
            let place = seq![at.last()];
            value(normalized(x, w, b, width, epsilon), r, at) == (value(x, r, at) - mean_of(
                x,
                n,
                r,
                at,
            )) * (r.inverse_root)(variance_of(x, n, r, at) + single_value(epsilon)) * value(
                w,
                r,
                place,
            ) + value(b, r, place)
        }),
{
    let axis = x.rank() - 1;
    let s = x.shape();
    let short = at.drop_last();
    let c = centered(x, width);
    let count = filled(width, s.drop_last());
    let squares = each(OpKind::Product, c, c);
    let variance = each(OpKind::Quotient, reduced(OpKind::ReduceSum, squares, axis, ZERO), count);
    let guard = filled(epsilon, s.drop_last());
    let inverse = inverse_deviation(x, width, epsilon);
    let scaled = each(OpKind::Product, c, spread(inverse, iota(axis), s));
    let last = seq![axis as usize];
    let weight = spread(w, last, s);
    let weighted = each(OpKind::Product, scaled, weight);
    lemma_centered(x, width, r, at);
    lemma_variance(x, width, r, at);
    lemma_filled(epsilon, s.drop_last(), r, short);
    lemma_each(variance, guard, r, short);
    lemma_map_each(each(OpKind::Sum, variance, guard), r, short);
    lemma_spread_last(inverse, s, r, at);
    lemma_each(c, spread(inverse, iota(axis), s), r, at);
    assert(spread_from(last, at) =~= seq![at.last()]);
    lemma_spread(w, last, s, r, at);
    lemma_spread(b, last, s, r, at);
    lemma_each(scaled, weight, r, at);
    lemma_each(weighted, spread(b, last, s), r, at);
}

/// A function that turns sums into products and is positive, as the exponential is.
pub open spec fn is_exponential(f: spec_fn(real) -> real) -> bool {
    &&& forall|a: real| 0real < #[trigger] f(a)
    &&& forall|a: real, b: real| #[trigger] f(a + b) == f(a) * f(b)
}

proof fn lemma_total_scales(n: int, f: spec_fn(int) -> real, g: spec_fn(int) -> real, k: real)
    requires
        forall|i: int| 0 <= i < n ==> #[trigger] f(i) == g(i) * k,
    ensures
        total(n, f) == total(n, g) * k,
    decreases n,
{
    if n > 0 {
        lemma_total_scales(n - 1, f, g, k);
        let (a, b) = (total(n - 1, g), g(n - 1));
        assert(f(n - 1) == b * k);
        assert((a + b) * k == a * k + b * k) by (nonlinear_arith);
    } else {
        assert(0real * k == 0real) by (nonlinear_arith);
    }
}

proof fn lemma_total_positive(n: int, f: spec_fn(int) -> real)
    requires
        forall|i: int| 0 <= i < n ==> 0real < #[trigger] f(i),
    ensures
        n > 0 ==> 0real < total(n, f),
        0real <= total(n, f),
    decreases n,
{
    if n > 0 {
        lemma_total_positive(n - 1, f);
        assert(0real < f(n - 1));
    }
}

/// The shifted powers of a softmax.
proof fn lemma_powers(x: Expr, r: Reading, at: Seq<int>)
    requires
        1 <= x.rank() <= usize::MAX,
        at.len() == x.rank(),
    ensures
        ({
            let n = x.shape().last() as int;
            let m = largest(n, |t: int| value(x, r, with_last(at, t)));
            let f = |t: int| (r.exp)(value(x, r, with_last(at, t)) - m);
            value(softmax(x), r, at) == (r.exp)(value(x, r, at) - m) / total(n, f)
        }),
{
    let axis = x.rank() - 1;
    let s = x.shape();
    let n = s.last() as int;
    let short = at.drop_last();
    let top = reduced(OpKind::ReduceMaximum, x, axis, NEGATIVE_INFINITY);
    let shifted = each(OpKind::Difference, x, spread(top, iota(axis), s));
    let powers = map_each(OpKind::Exponential, shifted);
    let sum = reduced(OpKind::ReduceSum, powers, axis, ZERO);
    let h = |t: int| value(x, r, with_last(at, t));
    let h2 = |t: int| value(x, r, short.push(t));
    let m = largest(n, h);
    lemma_maximum(x, r, short);
    lemma_largest_same(n, h, h2);
    lemma_spread_last(top, s, r, at);
    lemma_each(x, spread(top, iota(axis), s), r, at);
    lemma_map_each(shifted, r, at);
    lemma_summed(powers, r, short);
    lemma_spread_last(sum, s, r, at);
    lemma_each(powers, spread(sum, iota(axis), s), r, at);
    let f = |t: int| (r.exp)(value(x, r, with_last(at, t)) - m);
    let g = |t: int| value(powers, r, short.push(t));
    assert forall|t: int| 0 <= t < n implies #[trigger] g(t) == f(t) by {
        let p = with_last(at, t);
        assert(p.drop_last() =~= short);
        lemma_spread_last(top, s, r, p);
        lemma_each(x, spread(top, iota(axis), s), r, p);
        lemma_map_each(shifted, r, p);
    }
    lemma_total_same(n, g, f);
}

proof fn lemma_largest_same(n: int, f: spec_fn(int) -> real, g: spec_fn(int) -> real)
    requires
        forall|i: int| #[trigger] f(i) == g(i),
    ensures
        largest(n, f) == largest(n, g),
    decreases n,
{
    assert(f(0) == g(0));
    if n > 1 {
        lemma_largest_same(n - 1, f, g);
        assert(f(n - 1) == g(n - 1));
    }
}

/// The weight of an entry among those of the last dimension: its exponential over the sum of
/// all.
pub open spec fn weight_among(n: int, f: spec_fn(int) -> real, r: Reading, v: real) -> real {
    (r.exp)(v) / total(n, |t: int| (r.exp)(f(t)))
}

/// A softmax gives every entry its exponential over the sum of the exponentials along the
/// last dimension; subtracting the largest changes nothing.
pub proof fn law_softmax(x: Expr, r: Reading, at: Seq<int>)
    requires
        1 <= x.rank() <= usize::MAX,
        at.len() == x.rank(),
        x.shape().last() > 0,
        is_exponential(r.exp),
    ensures
        value(softmax(x), r, at) == weight_among(
            x.shape().last() as int,
            |t: int| value(x, r, with_last(at, t)),
            r,
            value(x, r, at),
        ),
        0real < value(softmax(x), r, at),
{
    let n = x.shape().last() as int;
    let h = |t: int| value(x, r, with_last(at, t));
    let m = largest(n, h);
    let v = value(x, r, at);
    let f = |t: int| (r.exp)(value(x, r, with_last(at, t)) - m);
    let g = |t: int| (r.exp)(h(t));
    let k = (r.exp)(m);
    lemma_powers(x, r, at);
    assert forall|t: int| 0 <= t < n implies #[trigger] g(t) == f(t) * k by {
        let a = value(x, r, with_last(at, t));
        assert((r.exp)((a - m) + m) == (r.exp)(a - m) * (r.exp)(m));
        assert((a - m) + m == a);
    }
    lemma_total_scales(n, g, f, k);
    lemma_total_positive(n, f);
    assert((r.exp)((v - m) + m) == (r.exp)(v - m) * k);
    assert((v - m) + m == v);
    let (a, b) = ((r.exp)(v - m), total(n, f));
    assert(0real < a && 0real < k);
    assert(a / b == (a * k) / (b * k) && 0real < a / b) by (nonlinear_arith)
        requires
            0real < a,
            0real < b,
            0real < k,
    ;
}

/// The place behind one more dimension.
pub proof fn lemma_place_push(shape: Seq<usize>, n: usize, at: Seq<int>, i: int)
    ensures
        place(shape.push(n), at.push(i)) == place(shape, at) * n + i,
{
    assert(shape.push(n).drop_last() =~= shape);
    assert(at.push(i).drop_last() =~= at);
}

/// The entry behind one more dimension.
pub proof fn lemma_entry_push(shape: Seq<usize>, n: usize, k: int, i: int)
    requires
        0 <= i < n,
    ensures
        entry_at(shape.push(n), k * n + i) == entry_at(shape, k).push(i),
{
    assert(shape.push(n).drop_last() =~= shape);
    lemma_fundamental_div_mod_converse(k * n + i, n as int, k, i);
}

pub proof fn lemma_place_two(n: usize, l: usize, a: int, b: int)
    ensures
        place(seq![n, l], seq![a, b]) == a * l + b,
{
    let none = Seq::<usize>::empty();
    let nowhere = Seq::<int>::empty();
    lemma_place_push(none, n, nowhere, a);
    lemma_place_push(none.push(n), l, nowhere.push(a), b);
    assert(place(none, nowhere) == 0);
    assert(seq![n, l] =~= none.push(n).push(l));
    assert(seq![a, b] =~= nowhere.push(a).push(b));
}

pub proof fn lemma_entry_two(n: usize, l: usize, a: int, b: int)
    requires
        0 <= a < n,
        0 <= b < l,
    ensures
        entry_at(seq![n, l], a * l + b) == seq![a, b],
{
    let none = Seq::<usize>::empty();
    lemma_entry_push(none, n, 0, a);
    lemma_entry_push(none.push(n), l, a, b);
    assert(entry_at(none, 0) == Seq::<int>::empty());
    assert(seq![n, l] =~= none.push(n).push(l));
    assert(seq![a, b] =~= Seq::<int>::empty().push(a).push(b));
}

/// Splitting the last dimension of a table in row-major order.
proof fn lemma_split(
    n: usize,
    len: usize,
    heads: usize,
    dim: usize,
    w: usize,
    b: int,
    p: int,
    h: int,
    d: int,
)
    requires
        w == heads * dim,
        0 <= b < n,
        0 <= p < len,
        0 <= h < heads,
        0 <= d < dim,
    ensures
        entry_at(seq![n, len, w], place(seq![n, len, heads, dim], seq![b, p, h, d])) == seq![
            b,
            p,
            h * dim + d,
        ],
        entry_at(seq![n, len, heads, dim], place(seq![n, len, w], seq![b, p, h * dim + d]))
            == seq![b, p, h, d],
{
    let two = seq![n, len];
    let at = seq![b, p];
    let k = b * len + p;
    let j = h * dim + d;
    lemma_place_two(n, len, b, p);
    lemma_entry_two(n, len, b, p);
    assert(seq![n, len, w] =~= two.push(w));
    assert(seq![n, len, heads, dim] =~= two.push(heads).push(dim));
    assert(seq![b, p, h, d] =~= at.push(h).push(d));
    assert(seq![b, p, j] =~= at.push(j));
    lemma_place_push(two, heads, at, h);
    lemma_place_push(two.push(heads), dim, at.push(h), d);
    lemma_place_push(two, w, at, j);
    assert((k * heads + h) * dim + d == k * w + j && 0 <= j < w) by (nonlinear_arith)
        requires
            w == heads * dim,
            j == h * dim + d,
            0 <= h < heads,
            0 <= d < dim,
    ;
    lemma_entry_push(two, w, k, j);
    lemma_entry_push(two, heads, k, h);
    lemma_entry_push(two.push(heads), dim, k * heads + h, d);
}

/// Splitting the rows of a table, each at a single position.
proof fn lemma_split_row(n: usize, heads: usize, dim: usize, w: usize, b: int, h: int, d: int)
    requires
        w == heads * dim,
        0 <= b < n,
        0 <= h < heads,
        0 <= d < dim,
    ensures
        entry_at(seq![n, w], place(seq![n, 1usize, heads, dim], seq![b, 0, h, d])) == seq![
            b,
            h * dim + d,
        ],
        entry_at(seq![n, 1usize, heads, dim], place(seq![n, w], seq![b, h * dim + d])) == seq![
            b,
            0,
            h,
            d,
        ],
{
    let two = seq![n, 1usize];
    let at = seq![b, 0];
    let j = h * dim + d;
    lemma_place_two(n, w, b, j);
    lemma_place_two(n, 1, b, 0);
    lemma_entry_two(n, 1, b, 0);
    assert(seq![n, 1usize, heads, dim] =~= two.push(heads).push(dim));
    assert(seq![b, 0, h, d] =~= at.push(h).push(d));
    lemma_place_push(two, heads, at, h);
    lemma_place_push(two.push(heads), dim, at.push(h), d);
    assert((b * heads + h) * dim + d == b * w + j && 0 <= j < w) by (nonlinear_arith)
        requires
            w == heads * dim,
            j == h * dim + d,
            0 <= h < heads,
            0 <= d < dim,
    ;
    lemma_entry_two(n, w, b, j);
    lemma_entry_push(two, heads, b, h);
    lemma_entry_push(two.push(heads), dim, b * heads + h, d);
}

pub proof fn lemma_reshaped(x: Expr, shape: Seq<usize>, r: Reading, at: Seq<int>)
    ensures
        value(reshaped(x, shape), r, at) == value(x, r, entry_at(x.shape(), place(shape, at))),
{
    let from = entry_at(x.shape(), place(shape, at));
    assert(operand(boxed(Some(x)), r, from) == value(x, r, from));
}

proof fn lemma_swapped(x: Expr, r: Reading, a: int, b: int, c: int, d: int)
    ensures
        value(swapped(x), r, seq![a, b, c, d]) == value(x, r, seq![a, c, b, d]),
{
    let order = seq![0usize, 2, 1, 3];
    let at = seq![a, b, c, d];
    reveal_with_fuel(position_of, 5);
    assert(position_of(order, 0, 0) == 0);
    assert(position_of(order, 1, 0) == 2);
    assert(position_of(order, 2, 0) == 1);
    assert(position_of(order, 3, 0) == 3);
    assert(moved_from(order, at) =~= seq![a, c, b, d]);
    assert(operand(boxed(Some(x)), r, moved_from(order, at)) == value(x, r, seq![a, c, b, d]));
}

/// Head `h` of a projection holds the `dim` entries from `h * dim` on, and positions stay
/// apart.
pub proof fn law_heads_are_bands(
    x: Expr,
    n: usize,
    len: usize,
    heads: usize,
    dim: usize,
    w: usize,
    r: Reading,
    b: int,
    p: int,
    h: int,
    d: int,
)
    requires
        w == heads * dim,
        0 <= b < n,
        0 <= p < len,
        0 <= h < heads,
        0 <= d < dim,
    ensures
        x.shape() == seq![n, len, w] ==> value(
            in_heads(x, n, len, heads, dim),
            r,
            seq![b, h, p, d],
        ) == value(x, r, seq![b, p, h * dim + d]),
        len == 1 && x.shape() == seq![n, w] ==> value(
            in_heads(x, n, len, heads, dim),
            r,
            seq![b, h, p, d],
        ) == value(x, r, seq![b, h * dim + d]),
{
    let y = reshaped(x, seq![n, len, heads, dim]);
    let at = seq![b, p, h, d];
    lemma_swapped(y, r, b, h, p, d);
    lemma_reshaped(x, seq![n, len, heads, dim], r, at);
    lemma_split(n, len, heads, dim, w, b, p, h, d);
    lemma_split_row(n, heads, dim, w, b, h, d);
}

/// The score of a key for a query is their product over the head, scaled.
pub proof fn law_scores(
    q: Expr,
    k: Expr,
    shape: Seq<usize>,
    scale: u32,
    r: Reading,
    b: int,
    h: int,
    i: int,
    t: int,
)
    requires
        q.rank() == 4,
    ensures
        value(scores_of(q, k, shape, scale), r, seq![b, h, i, t]) == total(
            q.shape()[3] as int,
            |d: int| value(q, r, seq![b, h, i, d]) * value(k, r, seq![b, h, t, d]),
        ) * single_value(scale),
{
    let at = seq![b, h, i, t];
    let e = contracted(q, k, 2, 3, 3, shape);
    let n = q.shape()[3] as int;
    let left = at.subrange(0, 3);
    let right = at.subrange(0, 2) + at.subrange(3, 4);
    lemma_products(q, k, e, r, left, 3, right, 3, n);
    lemma_filled(scale, shape, r, at);
    lemma_each(e, filled(scale, shape), r, at);
    let f = |d: int| value(q, r, left.insert(3, d)) * value(k, r, right.insert(3, d));
    let g = |d: int| value(q, r, seq![b, h, i, d]) * value(k, r, seq![b, h, t, d]);
    assert forall|d: int| 0 <= d < n implies #[trigger] f(d) == g(d) by {
        assert(left.insert(3, d) =~= seq![b, h, i, d]);
        assert(right.insert(3, d) =~= seq![b, h, t, d]);
    }
    lemma_total_same(n, f, g);
}

/// Values weighed by probabilities.
proof fn lemma_weighed(
    p: Expr,
    v: Expr,
    shape: Seq<usize>,
    r: Reading,
    b: int,
    h: int,
    i: int,
    d: int,
)
    requires
        p.rank() == 4,
    ensures
        value(contracted(p, v, 2, 3, 2, shape), r, seq![b, h, i, d]) == total(
            p.shape()[3] as int,
            |t: int| value(p, r, seq![b, h, i, t]) * value(v, r, seq![b, h, t, d]),
        ),
{
    let at = seq![b, h, i, d];
    let e = contracted(p, v, 2, 3, 2, shape);
    let n = p.shape()[3] as int;
    let left = at.subrange(0, 3);
    let right = at.subrange(0, 2) + at.subrange(3, 4);
    lemma_products(p, v, e, r, left, 3, right, 2, n);
    let f = |t: int| value(p, r, left.insert(3, t)) * value(v, r, right.insert(2, t));
    let g = |t: int| value(p, r, seq![b, h, i, t]) * value(v, r, seq![b, h, t, d]);
    assert forall|t: int| 0 <= t < n implies #[trigger] f(t) == g(t) by {
        assert(left.insert(3, t) =~= seq![b, h, i, t]);
        assert(right.insert(2, t) =~= seq![b, h, t, d]);
    }
    lemma_total_same(n, f, g);
}

/// Entry `j` of joined heads is entry `j % dim` of head `j / dim`.
pub proof fn lemma_joined(
    y: Expr,
    n: usize,
    len: usize,
    heads: usize,
    dim: usize,
    w: usize,
    r: Reading,
    b: int,
    i: int,
    j: int,
)
    requires
        y.shape() == seq![n, heads, len, dim],
        w == heads * dim,
        0 <= b < n,
        0 <= i < len,
        0 <= j < w,
    ensures
        dim > 0,
        0 <= j / (dim as int) < heads,
        0 <= j % (dim as int) < dim,
        j / dim as int * dim + j % dim as int == j,
        value(reshaped(swapped(y), seq![n, len, w]), r, seq![b, i, j]) == value(
            y,
            r,
            seq![b, j / dim as int, i, j % dim as int],
        ),
        len == 1 ==> value(reshaped(swapped(y), seq![n, w]), r, seq![b, j]) == value(
            y,
            r,
            seq![b, j / dim as int, 0, j % dim as int],
        ),
{
    assert(dim > 0) by (nonlinear_arith)
        requires
            w == heads * dim,
            0 <= j < w,
    ;
    let (h, d) = (j / dim as int, j % dim as int);
    lemma_fundamental_div_mod(j, dim as int);
    assert(h * dim + d == j && 0 <= d < dim) by (nonlinear_arith)
        requires
            j == dim * h + d,
            d == j % dim as int,
            dim > 0,
    ;
    assert(0 <= h < heads) by (nonlinear_arith)
        requires
            h * dim + d == j,
            0 <= d < dim,
            0 <= j < w,
            w == heads * dim,
    ;
    assert(swapped(y).shape() =~= seq![n, len, heads, dim]);
    lemma_split(n, len, heads, dim, w, b, i, h, d);
    lemma_reshaped(swapped(y), seq![n, len, w], r, seq![b, i, j]);
    lemma_swapped(y, r, b, i, h, d);
    if len == 1 {
        lemma_split_row(n, heads, dim, w, b, h, d);
        lemma_reshaped(swapped(y), seq![n, w], r, seq![b, j]);
    }
}

/// What a head gives for a query at an entry `j` of the joined heads: the values of its head
/// weighed by the softmax of the scores.
pub open spec fn attended(
    score: spec_fn(int, int) -> real,
    v: Expr,
    dim: usize,
    len: int,
    r: Reading,
    b: int,
    j: int,
) -> real {
    let h = j / dim as int;
    total(
        len,
        |t: int|
            weight_among(len, |u: int| score(h, u), r, score(h, t)) * value(
                v,
                r,
                seq![b, t, j],
            ),
    )
}

/// Heads joined behind the softmax of scores.
pub proof fn lemma_attended(
    s: Expr,
    v: Expr,
    n: usize,
    heads: usize,
    rows: usize,
    len: usize,
    dim: usize,
    w: usize,
    r: Reading,
    b: int,
    i: int,
    j: int,
    score: spec_fn(int, int) -> real,
)
    requires
        s.shape() == seq![n, heads, rows, len],
        v.shape() == seq![n, len, w],
        w == heads * dim,
        0 <= b < n,
        0 <= i < rows,
        0 <= j < w,
        len > 0,
        is_exponential(r.exp),
        forall|h: int, t: int|
            0 <= h < heads && 0 <= t < len ==> value(s, r, seq![b, h, i, t]) == #[trigger] score(
                h,
                t,
            ),
    ensures
        ({
            let y = contracted(
                softmax(s),
                in_heads(v, n, len, heads, dim),
                2,
                3,
                2,
                seq![n, heads, rows, dim],
            );
            &&& dim > 0
            &&& value(y, r, seq![b, j / dim as int, i, j % dim as int]) == attended(
                score,
                v,
                dim,
                len as int,
                r,
                b,
                j,
            )
        }),
{
    let shape = seq![n, heads, rows, dim];
    let p = softmax(s);
    let vh = in_heads(v, n, len, heads, dim);
    let y = contracted(p, vh, 2, 3, 2, shape);
    lemma_joined(y, n, rows, heads, dim, w, r, b, i, j);
    let (h, d) = (j / dim as int, j % dim as int);
    assert(p.shape() == s.shape());
    lemma_weighed(p, vh, shape, r, b, h, i, d);
    let row = |u: int| score(h, u);
    let f = |t: int| value(p, r, seq![b, h, i, t]) * value(vh, r, seq![b, h, t, d]);
    let g = |t: int|
        weight_among(len as int, |u: int| score(h, u), r, score(h, t)) * value(
            v,
            r,
            seq![b, t, j],
        );
    assert forall|t: int| 0 <= t < len implies #[trigger] f(t) == g(t) by {
        let at = seq![b, h, i, t];
        law_softmax(s, r, at);
        assert(value(s, r, at) == score(h, t));
        let a1 = |u: int| (r.exp)((|z: int| value(s, r, with_last(at, z)))(u));
        let a2 = |u: int| (r.exp)(row(u));
        assert forall|u: int| 0 <= u < len implies #[trigger] a1(u) == a2(u) by {
            assert(with_last(at, u) =~= seq![b, h, i, u]);
            assert(value(s, r, seq![b, h, i, u]) == score(h, u));
        }
        lemma_total_same(len as int, a1, a2);
        law_heads_are_bands(v, n, len, heads, dim, w, r, b, t, h, d);
    }
    lemma_total_same(len as int, f, g);
}

} // verus!
