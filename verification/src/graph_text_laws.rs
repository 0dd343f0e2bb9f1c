//! What the text of a program says: every line names the operation and its operands in order
//! and ends with the type of its result.
use vstd::prelude::*;

use crate::graph::{Elem, Op, OpKind, Source, TensorType};
use crate::graph_text::{
    dims_form, elem_name, op_form, operand_name, source_name, type_form,
};
use crate::text::{dec, has_prefix, has_suffix, hex, list_form};
use crate::text_laws::{hex_value, is_digit, law_decimal_reads_back, law_hexadecimal_reads_back};

verus! {

proof fn lemma_front(p: Seq<char>, q: Seq<char>)
    ensures
        has_prefix(p + q, p),
        has_suffix(p + q, q),
{
    assert((p + q).subrange(0, p.len() as int) =~= p);
    assert((p + q).subrange(p.len() as int, (p + q).len() as int) =~= q);
}

/// Longer text keeps its beginning.
proof fn lemma_prefix_stays(p: Seq<char>)
    ensures
        has_prefix(p, p),
        forall|s: Seq<char>, q: Seq<char>|
            has_prefix(s, p) ==> #[trigger] has_prefix(s + q, p),
{
    assert(p.subrange(0, p.len() as int) =~= p);
    assert forall|s: Seq<char>, q: Seq<char>| has_prefix(s, p) implies #[trigger] has_prefix(
        s + q,
        p,
    ) by {
        assert((s + q).subrange(0, p.len() as int) =~= s.subrange(0, p.len() as int));
    }
}

/// Operations on two operands name them in order: the first is what the second is added to,
/// taken from, multiplied with, divided by or compared with.
pub proof fn law_binary_operations_name_both_operands(
    ops: Seq<Op>,
    args: Seq<TensorType>,
    op: Op,
)
    ensures
        ({
            let (a, b) = (operand_name(op.a), operand_name(op.b));
            let line = op_form(ops, args, op);
            &&& op.kind == OpKind::Sum ==> has_prefix(line, "stablehlo.add "@ + a + ", "@ + b)
            &&& op.kind == OpKind::Difference ==> has_prefix(line, "stablehlo.subtract "@ + a + ", "@ + b)
            &&& op.kind == OpKind::Product ==> has_prefix(line, "stablehlo.multiply "@ + a + ", "@ + b)
            &&& op.kind == OpKind::Quotient ==> has_prefix(line, "stablehlo.divide "@ + a + ", "@ + b)
            &&& op.kind == OpKind::Maximum ==> has_prefix(line, "stablehlo.maximum "@ + a + ", "@ + b)
            &&& op.kind == OpKind::AtLeast ==> has_prefix(line, "stablehlo.compare GE, "@ + a + ", "@ + b)
            &&& op.kind == OpKind::Dot ==> has_prefix(line, "stablehlo.dot_general "@ + a + ", "@ + b)
            &&& op.kind == OpKind::Concatenate ==> has_prefix(line, "stablehlo.concatenate "@ + a + ", "@ + b)
        }),
{
    let (a, b) = (operand_name(op.a), operand_name(op.b));
    if op.kind == OpKind::Sum {
        lemma_prefix_stays("stablehlo.add "@ + a + ", "@ + b);
    }
    if op.kind == OpKind::Difference {
        lemma_prefix_stays("stablehlo.subtract "@ + a + ", "@ + b);
    }
    if op.kind == OpKind::Product {
        lemma_prefix_stays("stablehlo.multiply "@ + a + ", "@ + b);
    }
    if op.kind == OpKind::Quotient {
        lemma_prefix_stays("stablehlo.divide "@ + a + ", "@ + b);
    }
    if op.kind == OpKind::Maximum {
        lemma_prefix_stays("stablehlo.maximum "@ + a + ", "@ + b);
    }
    if op.kind == OpKind::AtLeast {
        lemma_prefix_stays("stablehlo.compare GE, "@ + a + ", "@ + b);
    }
    if op.kind == OpKind::Dot {
        lemma_prefix_stays("stablehlo.dot_general "@ + a + ", "@ + b);
    }
    if op.kind == OpKind::Concatenate {
        lemma_prefix_stays("stablehlo.concatenate "@ + a + ", "@ + b);
    }
}

/// Operations on one operand name it behind the operation.
pub proof fn law_unary_operations_name_their_operand(
    ops: Seq<Op>,
    args: Seq<TensorType>,
    op: Op,
)
    ensures
        ({
            let a = operand_name(op.a);
            let line = op_form(ops, args, op);
            &&& op.kind == OpKind::InverseRoot ==> has_prefix(line, "stablehlo.rsqrt "@ + a)
            &&& op.kind == OpKind::Tanh ==> has_prefix(line, "stablehlo.tanh "@ + a)
            &&& op.kind == OpKind::Negate ==> has_prefix(line, "stablehlo.negate "@ + a)
            &&& op.kind == OpKind::Exponential ==> has_prefix(line, "stablehlo.exponential "@ + a)
            &&& op.kind == OpKind::Reshape ==> has_prefix(line, "stablehlo.reshape "@ + a)
            &&& op.kind == OpKind::ToSingle ==> has_prefix(line, "stablehlo.convert "@ + a)
            &&& op.kind == OpKind::Broadcast ==> has_prefix(
                line,
                "stablehlo.broadcast_in_dim "@ + a + ", dims = "@ + list_form(op.list@),
            )
            &&& op.kind == OpKind::Transpose ==> has_prefix(
                line,
                "stablehlo.transpose "@ + a + ", dims = "@ + list_form(op.list@),
            )
        }),
{
    let a = operand_name(op.a);
    if op.kind == OpKind::InverseRoot {
        lemma_prefix_stays("stablehlo.rsqrt "@ + a);
    }
    if op.kind == OpKind::Tanh {
        lemma_prefix_stays("stablehlo.tanh "@ + a);
    }
    if op.kind == OpKind::Negate {
        lemma_prefix_stays("stablehlo.negate "@ + a);
    }
    if op.kind == OpKind::Exponential {
        lemma_prefix_stays("stablehlo.exponential "@ + a);
    }
    if op.kind == OpKind::Reshape {
        lemma_prefix_stays("stablehlo.reshape "@ + a);
    }
    if op.kind == OpKind::ToSingle {
        lemma_prefix_stays("stablehlo.convert "@ + a);
    }
    if op.kind == OpKind::Broadcast {
        lemma_prefix_stays("stablehlo.broadcast_in_dim "@ + a + ", dims = "@ + list_form(op.list@));
    }
    if op.kind == OpKind::Transpose {
        lemma_prefix_stays("stablehlo.transpose "@ + a + ", dims = "@ + list_form(op.list@));
    }
}

/// Reductions name the operand, the start value and the operation that they apply; a choice
/// names its condition, then what it gives where that holds, then the other; a gather names
/// the rows and then the indices.
pub proof fn law_other_operations_name_their_operands(
    ops: Seq<Op>,
    args: Seq<TensorType>,
    op: Op,
)
    ensures
        ({
            let (a, b, c) = (operand_name(op.a), operand_name(op.b), operand_name(op.c));
            let line = op_form(ops, args, op);
            &&& op.kind == OpKind::ReduceSum ==> has_prefix(
                line,
                "stablehlo.reduce("@ + a + " init: "@ + b
                    + ") applies stablehlo.add across dimensions = "@ + list_form(op.list@),
            )
            &&& op.kind == OpKind::ReduceMaximum ==> has_prefix(
                line,
                "stablehlo.reduce("@ + a + " init: "@ + b
                    + ") applies stablehlo.maximum across dimensions = "@ + list_form(op.list@),
            )
            &&& op.kind == OpKind::Select ==> has_prefix(
                line,
                "stablehlo.select "@ + a + ", "@ + b + ", "@ + c,
            )
            &&& op.kind == OpKind::GatherRows ==> has_prefix(
                line,
                "\"stablehlo.gather\"("@ + a + ", "@ + b,
            )
        }),
{
    let (a, b, c) = (operand_name(op.a), operand_name(op.b), operand_name(op.c));
    if op.kind == OpKind::ReduceSum {
        lemma_prefix_stays(
            "stablehlo.reduce("@ + a + " init: "@ + b
                + ") applies stablehlo.add across dimensions = "@ + list_form(op.list@),
        );
    }
    if op.kind == OpKind::ReduceMaximum {
        lemma_prefix_stays(
            "stablehlo.reduce("@ + a + " init: "@ + b
                + ") applies stablehlo.maximum across dimensions = "@ + list_form(op.list@),
        );
    }
    if op.kind == OpKind::Select {
        lemma_prefix_stays("stablehlo.select "@ + a + ", "@ + b + ", "@ + c);
    }
    if op.kind == OpKind::GatherRows {
        lemma_prefix_stays("\"stablehlo.gather\"("@ + a + ", "@ + b);
    }
}

/// Every line ends with the type of its result.
pub proof fn law_lines_end_with_the_type(ops: Seq<Op>, args: Seq<TensorType>, op: Op)
    ensures
        has_suffix(op_form(ops, args, op), type_form(op.shape@, op.elem)),
{
    let t = type_form(op.shape@, op.elem);
    assert forall|x: Seq<char>| #[trigger] has_suffix(x + t, t) by {
        lemma_front(x, t);
    }
}

/// A single is written by its bits, eight hexadecimal digits that read back.
pub proof fn law_constants_keep_their_bits(ops: Seq<Op>, args: Seq<TensorType>, op: Op)
    requires
        op.kind == OpKind::Constant,
        op.elem == Elem::Single,
    ensures
        ({
            let digits = hex(op.bits as nat, 8);
            &&& hex_value(digits) == op.bits
            &&& has_prefix(
                op_form(ops, args, op),
                "stablehlo.constant dense<"@ + ("0x"@ + digits) + ">"@,
            )
        }),
{
    let digits = hex(op.bits as nat, 8);
    assert(vstd::arithmetic::power::pow(16, 8) == 0x1_0000_0000) by {
        reveal_with_fuel(vstd::arithmetic::power::pow, 9);
    }
    law_hexadecimal_reads_back(op.bits as nat, 8);
    let head = "stablehlo.constant dense<"@ + ("0x"@ + digits) + ">"@;
    let rest = " : "@ + type_form(op.shape@, op.elem);
    reveal_strlit("> : ");
    reveal_strlit(">");
    reveal_strlit(" : ");
    assert("> : "@ =~= ">"@ + " : "@);
    assert(op_form(ops, args, op) =~= head + rest);
    lemma_front(head, rest);
}

/// Tensor types list their dimensions in order, each behind the ones before it, and then the
/// element type.
pub proof fn law_types_list_dimensions_in_order(shape: Seq<usize>, n: usize, elem: Elem)
    ensures
        type_form(shape.push(n), elem) == "tensor<"@ + dims_form(shape, shape.len()) + dec(
            n as nat,
        ) + "x"@ + elem_name(elem) + ">"@,
        type_form(Seq::empty(), elem) == "tensor<"@ + elem_name(elem) + ">"@,
        elem_name(Elem::Single) != elem_name(Elem::Integer),
        elem_name(Elem::Single) != elem_name(Elem::Truth),
        elem_name(Elem::Integer) != elem_name(Elem::Truth),
{
    reveal_strlit("");
    reveal_strlit("f32");
    reveal_strlit("i32");
    reveal_strlit("i1");
    lemma_dims_prefix(shape, n, shape.len());
    assert("f32"@[0] != "i32"@[0] && "f32"@[0] != "i1"@[0] && "i32"@[1] != "i1"@[1]);
    let dims = dims_form(shape, shape.len());
    assert(type_form(shape.push(n), elem) =~= "tensor<"@ + dims + dec(n as nat) + "x"@
        + elem_name(elem) + ">"@);
    assert(type_form(Seq::empty(), elem) =~= "tensor<"@ + elem_name(elem) + ">"@);
}

proof fn lemma_dims_prefix(shape: Seq<usize>, n: usize, k: nat)
    requires
        k <= shape.len(),
    ensures
        dims_form(shape.push(n), k) == dims_form(shape, k),
    decreases k,
{
    if k > 0 {
        lemma_dims_prefix(shape, n, (k - 1) as nat);
    }
}

/// Arguments and results have different names, and each its own.
pub proof fn law_sources_have_their_own_names(a: Source, b: Source)
    requires
        source_name(a) == source_name(b),
    ensures
        a == b,
{
    reveal_strlit("%arg");
    reveal_strlit("%");
    let (x, y) = (source_name(a), source_name(b));
    let number = |s: Source|
        match s {
            Source::Arg(i) => i as nat,
            Source::Op(k) => k as nat,
        };
    law_decimal_reads_back(number(a));
    law_decimal_reads_back(number(b));
    assert(is_digit(dec(number(a))[0]));
    assert(is_digit(dec(number(b))[0]));
    match (a, b) {
        (Source::Arg(_), Source::Arg(_)) => {
            assert(x.subrange(4, x.len() as int) =~= dec(number(a)));
            assert(y.subrange(4, y.len() as int) =~= dec(number(b)));
        },
        (Source::Op(_), Source::Op(_)) => {
            assert(x.subrange(1, x.len() as int) =~= dec(number(a)));
            assert(y.subrange(1, y.len() as int) =~= dec(number(b)));
        },
        (Source::Arg(_), Source::Op(_)) => {
            assert(x[1] == 'a' && y[1] == dec(number(b))[0]);
        },
        (Source::Op(_), Source::Arg(_)) => {
            assert(y[1] == 'a' && x[1] == dec(number(a))[0]);
        },
    }
}

} // verus!
