//! The StableHLO text of a tensor program.
use vstd::prelude::*;

use crate::graph::{
    exists_in, is_part, meaning, Builder, Elem, Op, OpKind, Source, TensorType, Val,
};
use crate::molmo2_config::{
    adapter_weights, tower_weights, vit_layer_weights, vit_weights, weight_views,
    Molmo2VisionConfig,
};
use crate::text::{dec, dec_text, hex, hex_text, list_form, list_text, size_text, texts};
use crate::vision_graph::{
    build_vision, iota, layer_base, ranked, selects_layers, vision_output, VisionConstants,
};

verus! {

/// The name of an element type.
pub open spec fn elem_name(elem: Elem) -> Seq<char> {
    match elem {
        Elem::Single => "f32"@,
        Elem::Integer => "i32"@,
        Elem::Truth => "i1"@,
    }
}

fn elem_text(elem: Elem) -> (r: &'static str)
    ensures
        r@ == elem_name(elem),
{
    match elem {
        Elem::Single => "f32",
        Elem::Integer => "i32",
        Elem::Truth => "i1",
    }
}

/// The first `n` dimensions, each with an `x` behind it.
pub open spec fn dims_form(shape: Seq<usize>, n: nat) -> Seq<char>
    decreases n,
{
    if n == 0 {
        ""@
    } else {
        dims_form(shape, (n - 1) as nat) + dec(shape[n - 1] as nat) + "x"@
    }
}

/// A tensor type.
pub open spec fn type_form(shape: Seq<usize>, elem: Elem) -> Seq<char> {
    "tensor<"@ + dims_form(shape, shape.len()) + elem_name(elem) + ">"@
}

/// A tensor type.
pub fn type_text(shape: &[usize], elem: Elem) -> (r: String)
    ensures
        r@ == type_form(shape@, elem),
{
    let mut dims: String = "".to_owned();
    let mut i: usize = 0;
    while i < shape.len()
        invariant
            i <= shape@.len(),
            dims@ == dims_form(shape@, i as nat),
        decreases shape@.len() - i,
    {
        dims = dims.concat(&size_text(shape[i])).concat("x");
        i += 1;
    }
    "tensor<".to_owned().concat(&dims).concat(elem_text(elem)).concat(">")
}

/// The name of a result or an argument.
pub open spec fn source_name(s: Source) -> Seq<char> {
    match s {
        Source::Arg(i) => "%arg"@ + dec(i as nat),
        Source::Op(k) => "%"@ + dec(k as nat),
    }
}

fn source_text(s: Source) -> (r: String)
    ensures
        r@ == source_name(s),
{
    match s {
        Source::Arg(i) => "%arg".to_owned().concat(&size_text(i)),
        Source::Op(k) => "%".to_owned().concat(&size_text(k)),
    }
}

/// The name of an operand; empty where there is none.
pub open spec fn operand_name(s: Option<Source>) -> Seq<char> {
    match s {
        Some(s) => source_name(s),
        None => ""@,
    }
}

fn operand_text(s: Option<Source>) -> (r: String)
    ensures
        r@ == operand_name(s),
{
    match s {
        Some(s) => source_text(s),
        None => "".to_owned(),
    }
}

/// The type of an operand; empty where there is none.
pub open spec fn operand_type(ops: Seq<Op>, args: Seq<TensorType>, s: Option<Source>) -> Seq<char> {
    match s {
        Some(Source::Arg(i)) => type_form(args[i as int].shape@, args[i as int].elem),
        Some(Source::Op(k)) => type_form(ops[k as int].shape@, ops[k as int].elem),
        None => ""@,
    }
}

/// The dimension that a gather takes its slices along the rows from.
pub open spec fn row_width(shape: Seq<usize>) -> nat {
    if shape.len() == 0 {
        0
    } else {
        shape.last() as nat
    }
}

/// What stands between the equals sign and the line's end.
pub open spec fn op_form(ops: Seq<Op>, args: Seq<TensorType>, op: Op) -> Seq<char> {
    let a = operand_name(op.a);
    let b = operand_name(op.b);
    let c = operand_name(op.c);
    let ta = operand_type(ops, args, op.a);
    let tb = operand_type(ops, args, op.b);
    let t = type_form(op.shape@, op.elem);
    match op.kind {
        OpKind::Constant => "stablehlo.constant dense<"@ + (if op.elem == Elem::Single {
            "0x"@ + hex(op.bits as nat, 8)
        } else {
            dec(op.bits as nat)
        }) + "> : "@ + t,
        OpKind::Sum => "stablehlo.add "@ + a + ", "@ + b + " : "@ + t,
        OpKind::Difference => "stablehlo.subtract "@ + a + ", "@ + b + " : "@ + t,
        OpKind::Product => "stablehlo.multiply "@ + a + ", "@ + b + " : "@ + t,
        OpKind::Quotient => "stablehlo.divide "@ + a + ", "@ + b + " : "@ + t,
        OpKind::Maximum => "stablehlo.maximum "@ + a + ", "@ + b + " : "@ + t,
        OpKind::InverseRoot => "stablehlo.rsqrt "@ + a + " : "@ + t,
        OpKind::Tanh => "stablehlo.tanh "@ + a + " : "@ + t,
        OpKind::Negate => "stablehlo.negate "@ + a + " : "@ + t,
        OpKind::Exponential => "stablehlo.exponential "@ + a + " : "@ + t,
        OpKind::Broadcast => "stablehlo.broadcast_in_dim "@ + a + ", dims = "@ + list_form(
            op.list@,
        ) + " : ("@ + ta + ") -> "@ + t,
        OpKind::Reshape => "stablehlo.reshape "@ + a + " : ("@ + ta + ") -> "@ + t,
        OpKind::Transpose => "stablehlo.transpose "@ + a + ", dims = "@ + list_form(op.list@)
            + " : ("@ + ta + ") -> "@ + t,
        OpKind::Dot => "stablehlo.dot_general "@ + a + ", "@ + b + dot_form(op.list@) + " : ("@ + ta
            + ", "@ + tb + ") -> "@ + t,
        OpKind::ReduceSum => "stablehlo.reduce("@ + a + " init: "@ + b
            + ") applies stablehlo.add across dimensions = "@ + list_form(op.list@) + " : ("@ + ta
            + ", "@ + tb + ") -> "@ + t,
        OpKind::ReduceMaximum => "stablehlo.reduce("@ + a + " init: "@ + b
            + ") applies stablehlo.maximum across dimensions = "@ + list_form(op.list@) + " : ("@
            + ta + ", "@ + tb + ") -> "@ + t,
        OpKind::AtLeast => "stablehlo.compare GE, "@ + a + ", "@ + b + ", SIGNED : ("@ + ta + ", "@
            + tb + ") -> "@ + t,
        OpKind::ToSingle => "stablehlo.convert "@ + a + " : ("@ + ta + ") -> "@ + t,
        OpKind::GatherRows => "\"stablehlo.gather\"("@ + a + ", "@ + b
            + ") <{dimension_numbers = #stablehlo.gather<offset_dims = [2], collapsed_slice_dims = [0], start_index_map = [0], index_vector_dim = 2>, slice_sizes = array<i64: 1, "@
            + dec(row_width(op.shape@)) + ">, indices_are_sorted = false}> : ("@ + ta + ", "@ + tb
            + ") -> "@ + t,
        OpKind::Select => "stablehlo.select "@ + a + ", "@ + b + ", "@ + c + " : "@ + ta + ", "@
            + t,
        OpKind::Concatenate => "stablehlo.concatenate "@ + a + ", "@ + b + ", dim = "@ + dec(
            entry(op.list@, 0) as nat,
        ) + " : ("@ + ta + ", "@ + tb + ") -> "@ + t,
    }
}

/// An entry of a list; 0 behind its end.
pub open spec fn entry(list: Seq<usize>, i: int) -> usize {
    if 0 <= i < list.len() {
        list[i]
    } else {
        0
    }
}

/// The dimensions of a contraction.
pub open spec fn dot_form(list: Seq<usize>) -> Seq<char> {
    let batch = list_form(iota(entry(list, 0) as int));
    ", batching_dims = "@ + batch + " x "@ + batch + ", contracting_dims = ["@ + dec(
        entry(list, 1) as nat,
    ) + "] x ["@ + dec(entry(list, 2) as nat) + "]"@
}

fn read_entry(list: &Vec<usize>, i: usize) -> (r: usize)
    ensures
        r == entry(list@, i as int),
{
    if i < list.len() {
        list[i]
    } else {
        0
    }
}

fn dot_text(list: &Vec<usize>) -> (r: String)
    ensures
        r@ == dot_form(list@),
{
    let count: usize = read_entry(list, 0);
    let mut dims: Vec<usize> = Vec::new();
    let mut i: usize = 0;
    while i < count
        invariant
            i <= count,
            dims@ == iota(i as int),
        decreases count - i,
    {
        dims.push(i);
        i += 1;
        assert(dims@ =~= iota(i as int));
    }
    let batch = list_text(dims.as_slice());
    ", batching_dims = ".to_owned().concat(&batch).concat(" x ").concat(&batch).concat(
        ", contracting_dims = [",
    ).concat(&size_text(read_entry(list, 1))).concat("] x [").concat(
        &size_text(read_entry(list, 2)),
    ).concat("]")
}

fn operand_type_text(b: &Builder, s: Option<Source>) -> (r: String)
    requires
        exists_in(b.ops@.len(), b.args@.len(), s),
    ensures
        r@ == operand_type(b.ops@, b.args@, s),
{
    match s {
        Some(Source::Arg(i)) => type_text(b.args[i].shape.as_slice(), b.args[i].elem),
        Some(Source::Op(k)) => type_text(b.ops[k].shape.as_slice(), b.ops[k].elem),
        None => "".to_owned(),
    }
}

fn binary_text(name: &str, op: &Op) -> (r: String)
    ensures
        r@ == name@ + operand_name(op.a) + ", "@ + operand_name(op.b) + " : "@ + type_form(
            op.shape@,
            op.elem,
        ),
{
    name.to_owned().concat(&operand_text(op.a)).concat(", ").concat(&operand_text(op.b)).concat(
        " : ",
    ).concat(&type_text(op.shape.as_slice(), op.elem))
}

fn unary_text(name: &str, op: &Op) -> (r: String)
    ensures
        r@ == name@ + operand_name(op.a) + " : "@ + type_form(op.shape@, op.elem),
{
    name.to_owned().concat(&operand_text(op.a)).concat(" : ").concat(
        &type_text(op.shape.as_slice(), op.elem),
    )
}

fn reduce_text(b: &Builder, middle: &str, op: &Op) -> (r: String)
    requires
        exists_in(b.ops@.len(), b.args@.len(), op.a),
        exists_in(b.ops@.len(), b.args@.len(), op.b),
    ensures
        r@ == "stablehlo.reduce("@ + operand_name(op.a) + " init: "@ + operand_name(op.b) + middle@
            + list_form(op.list@) + " : ("@ + operand_type(b.ops@, b.args@, op.a) + ", "@
            + operand_type(b.ops@, b.args@, op.b) + ") -> "@ + type_form(op.shape@, op.elem),
{
    "stablehlo.reduce(".to_owned().concat(&operand_text(op.a)).concat(" init: ").concat(
        &operand_text(op.b),
    ).concat(middle).concat(&list_text(op.list.as_slice())).concat(" : (").concat(
        &operand_type_text(b, op.a),
    ).concat(", ").concat(&operand_type_text(b, op.b)).concat(") -> ").concat(
        &type_text(op.shape.as_slice(), op.elem),
    )
}

fn op_text(b: &Builder, op: &Op) -> (r: String)
    requires
        exists_in(b.ops@.len(), b.args@.len(), op.a),
        exists_in(b.ops@.len(), b.args@.len(), op.b),
        exists_in(b.ops@.len(), b.args@.len(), op.c),
    ensures
        r@ == op_form(b.ops@, b.args@, *op),
{
    let x = operand_text(op.a);
    let y = operand_text(op.b);
    let tx = operand_type_text(b, op.a);
    let ty = operand_type_text(b, op.b);
    let t = type_text(op.shape.as_slice(), op.elem);
    match op.kind {
        OpKind::Constant => {
            let value = if op.elem == Elem::Single {
                "0x".to_owned().concat(&hex_text(op.bits as u64, 8))
            } else {
                dec_text(op.bits as u64)
            };
            "stablehlo.constant dense<".to_owned().concat(&value).concat("> : ").concat(&t)
        },
        OpKind::Sum => binary_text("stablehlo.add ", op),
        OpKind::Difference => binary_text("stablehlo.subtract ", op),
        OpKind::Product => binary_text("stablehlo.multiply ", op),
        OpKind::Quotient => binary_text("stablehlo.divide ", op),
        OpKind::Maximum => binary_text("stablehlo.maximum ", op),
        OpKind::InverseRoot => unary_text("stablehlo.rsqrt ", op),
        OpKind::Tanh => unary_text("stablehlo.tanh ", op),
        OpKind::Negate => unary_text("stablehlo.negate ", op),
        OpKind::Exponential => unary_text("stablehlo.exponential ", op),
        OpKind::Broadcast => "stablehlo.broadcast_in_dim ".to_owned().concat(&x).concat(
            ", dims = ",
        ).concat(&list_text(op.list.as_slice())).concat(" : (").concat(&tx).concat(") -> ").concat(
            &t,
        ),
        OpKind::Reshape => "stablehlo.reshape ".to_owned().concat(&x).concat(" : (").concat(
            &tx,
        ).concat(") -> ").concat(&t),
        OpKind::Transpose => "stablehlo.transpose ".to_owned().concat(&x).concat(
            ", dims = ",
        ).concat(&list_text(op.list.as_slice())).concat(" : (").concat(&tx).concat(") -> ").concat(
            &t,
        ),
        OpKind::Dot => "stablehlo.dot_general ".to_owned().concat(&x).concat(", ").concat(
            &y,
        ).concat(&dot_text(&op.list)).concat(" : (").concat(&tx).concat(", ").concat(&ty).concat(
            ") -> ",
        ).concat(&t),
        OpKind::ReduceSum => reduce_text(
            b,
            ") applies stablehlo.add across dimensions = ",
            op,
        ),
        OpKind::ReduceMaximum => reduce_text(
            b,
            ") applies stablehlo.maximum across dimensions = ",
            op,
        ),
        OpKind::AtLeast => "stablehlo.compare GE, ".to_owned().concat(&x).concat(", ").concat(
            &y,
        ).concat(", SIGNED : (").concat(&tx).concat(", ").concat(&ty).concat(") -> ").concat(&t),
        OpKind::ToSingle => "stablehlo.convert ".to_owned().concat(&x).concat(" : (").concat(
            &tx,
        ).concat(") -> ").concat(&t),
        OpKind::GatherRows => {
            let width: usize = if op.shape.len() == 0 {
                0
            } else {
                op.shape[op.shape.len() - 1]
            };
            "\"stablehlo.gather\"(".to_owned().concat(&x).concat(", ").concat(&y).concat(
                ") <{dimension_numbers = #stablehlo.gather<offset_dims = [2], collapsed_slice_dims = [0], start_index_map = [0], index_vector_dim = 2>, slice_sizes = array<i64: 1, ",
            ).concat(&size_text(width)).concat(">, indices_are_sorted = false}> : (").concat(
                &tx,
            ).concat(", ").concat(&ty).concat(") -> ").concat(&t)
        },
        OpKind::Select => "stablehlo.select ".to_owned().concat(&x).concat(", ").concat(&y).concat(
            ", ",
        ).concat(&operand_text(op.c)).concat(" : ").concat(&tx).concat(", ").concat(&t),
        OpKind::Concatenate => "stablehlo.concatenate ".to_owned().concat(&x).concat(", ").concat(
            &y,
        ).concat(", dim = ").concat(&size_text(read_entry(&op.list, 0))).concat(" : (").concat(
            &tx,
        ).concat(", ").concat(&ty).concat(") -> ").concat(&t),
    }
}

/// The lines of the first `n` operations.
pub open spec fn body_form(ops: Seq<Op>, args: Seq<TensorType>, n: nat) -> Seq<char>
    decreases n,
{
    if n == 0 {
        ""@
    } else {
        body_form(ops, args, (n - 1) as nat) + "    %"@ + dec((n - 1) as nat) + " = "@ + op_form(
            ops,
            args,
            ops[n - 1],
        ) + "\n"@
    }
}

fn body_text(b: &Builder) -> (r: String)
    requires
        b.wf(),
    ensures
        r@ == body_form(b.ops@, b.args@, b.ops@.len()),
{
    let mut out: String = "".to_owned();
    let mut k: usize = 0;
    while k < b.ops.len()
        invariant
            k <= b.ops@.len(),
            b.wf(),
            out@ == body_form(b.ops@, b.args@, k as nat),
        decreases b.ops@.len() - k,
    {
        let op = &b.ops[k];
        let line = op_text(b, op);
        out = out.concat("    %").concat(&size_text(k)).concat(" = ").concat(&line).concat("\n");
        k += 1;
    }
    out
}

/// The declarations of the first `n` arguments.
pub open spec fn signature_form(
    names: Seq<Seq<char>>,
    args: Seq<TensorType>,
    n: nat,
) -> Seq<char>
    decreases n,
{
    if n == 0 {
        ""@
    } else {
        (if n == 1 {
            ""@
        } else {
            signature_form(names, args, (n - 1) as nat) + ", "@
        }) + "%arg"@ + dec((n - 1) as nat) + ": "@ + type_form(
            args[n - 1].shape@,
            args[n - 1].elem,
        ) + " loc(\""@ + names[n - 1] + "\")"@
    }
}

fn signature_text(names: &Vec<String>, args: &Vec<TensorType>) -> (r: String)
    requires
        names@.len() == args@.len(),
    ensures
        r@ == signature_form(texts(names@), args@, args@.len()),
{
    let ghost all = texts(names@);
    let mut out: String = "".to_owned();
    let mut i: usize = 0;
    while i < args.len()
        invariant
            i <= args@.len(),
            names@.len() == args@.len(),
            all == texts(names@),
            out@ == signature_form(all, args@, i as nat),
        decreases args@.len() - i,
    {
        assert(all[i as int] == names@[i as int]@);
        let front = if i == 0 {
            "".to_owned()
        } else {
            out.concat(", ")
        };
        out = front.concat("%arg").concat(&size_text(i)).concat(": ").concat(
            &type_text(args[i].shape.as_slice(), args[i].elem),
        ).concat(" loc(\"").concat(names[i].as_str()).concat("\")");
        i += 1;
    }
    out
}

/// The text of a program with one result.
pub open spec fn module_form(
    names: Seq<Seq<char>>,
    ops: Seq<Op>,
    args: Seq<TensorType>,
    result: Source,
    shape: Seq<usize>,
) -> Seq<char> {
    let t = type_form(shape, Elem::Single);
    "module @molmo2_vision {\n  func.func public @main("@ + signature_form(
        names,
        args,
        args.len(),
    ) + ") -> "@ + t + " {\n"@ + body_form(ops, args, ops.len()) + "    return "@ + source_name(
        result,
    ) + " : "@ + t + "\n  }\n}\n"@
}

/// The names of the arguments: the weights, the patches and the signed indices.
pub open spec fn argument_names(c: Molmo2VisionConfig) -> Seq<Seq<char>> {
    let weights = tower_weights(c);
    Seq::new(weights.len(), |i: int| weights[i].name).push("molmo2.patches"@).push(
        "molmo2.image_token_pooling.signed"@,
    )
}

/// The types of the arguments.
pub open spec fn are_argument_types(c: Molmo2VisionConfig, args: Seq<TensorType>) -> bool {
    let weights = tower_weights(c);
    &&& args.len() == weights.len() + 2
    &&& forall|i: int|
        0 <= i < weights.len() ==> (#[trigger] args[i]).shape@ == weights[i].shape && args[i].elem
            == Elem::Single
    &&& args[weights.len() as int].shape@ == seq![c.static_crops, c.patches_per_crop, c.patch_dim]
    &&& args[weights.len() as int].elem == Elem::Single
    &&& args[weights.len() as int + 1].shape@ == seq![c.static_pool_groups, c.pool_size]
    &&& args[weights.len() as int + 1].elem == Elem::Integer
}

/// The weights of a tower are those of its layers and 14 more, each with a dimension.
proof fn lemma_tower_weights(c: Molmo2VisionConfig)
    ensures
        tower_weights(c).len() == layer_base(c.emitted_layers as int) + 11,
        forall|i: int|
            0 <= i < tower_weights(c).len() ==> (#[trigger] tower_weights(c)[i]).shape.len() >= 1,
{
    reveal(adapter_weights);
    lemma_vit_weights(c, c.emitted_layers as nat);
}

proof fn lemma_vit_weights(c: Molmo2VisionConfig, n: nat)
    ensures
        vit_weights(c, n).len() == 16 * n,
        forall|i: int|
            0 <= i < vit_weights(c, n).len() ==> (#[trigger] vit_weights(c, n)[i]).shape.len() >= 1,
    decreases n,
{
    if n > 0 {
        lemma_vit_weights(c, (n - 1) as nat);
        reveal(vit_layer_weights);
        let layer = vit_layer_weights(c, n - 1);
        assert(layer.len() == 16);
        assert forall|i: int| 0 <= i < vit_weights(c, n).len() implies (#[trigger] vit_weights(
            c,
            n,
        )[i]).shape.len() >= 1 by {
            let front = vit_weights(c, (n - 1) as nat);
            if i < front.len() {
                assert(vit_weights(c, n)[i] == front[i]);
            } else {
                assert(vit_weights(c, n)[i] == layer[i - front.len()]);
            }
        }
    }
}

/// The graph of the vision tower as text. The numbers that are computed in single
/// precision come in `k`. Selected layers are distinct layers of the tower, the last one
/// among them. Every operation of the text is a part of the output.
pub fn emit_molmo2_vision(c: &Molmo2VisionConfig, k: &VisionConstants) -> (r: String)
    requires
        selects_layers(*c),
        c.width_fits(),
        c.static_crops * c.patches_per_crop <= usize::MAX,
    ensures
        exists|b: Builder, v: Val|
            {
                &&& #[trigger] b.knows(v)
                &&& b.wf()
                &&& are_argument_types(*c, b.args@)
                &&& v.tree@ == vision_output(b.args@, *c, *k)
                &&& forall|j: int|
                    0 <= j < b.ops@.len() ==> is_part(
                        #[trigger] meaning(b.ops@, b.args@, Source::Op(j as usize)),
                        v.tree@,
                    )
                &&& r@ == module_form(argument_names(*c), b.ops@, b.args@, v.source, v.shape@)
            },
{
    let specs = c.weight_specs();
    let mut names: Vec<String> = Vec::new();
    let mut args: Vec<TensorType> = Vec::new();
    let ghost weights = tower_weights(*c);
    let mut i: usize = 0;
    assert(weight_views(specs@).len() == specs@.len());
    while i < specs.len()
        invariant
            i <= specs@.len(),
            weights == weight_views(specs@),
            names@.len() == i,
            args@.len() == i,
            forall|j: int|
                0 <= j < i ==> (#[trigger] args@[j]).shape@ == weights[j].shape && args@[j].elem
                    == Elem::Single,
            forall|j: int| 0 <= j < i ==> (#[trigger] names@[j])@ == weights[j].name,
        decreases specs@.len() - i,
    {
        assert(weights[i as int] == specs@[i as int]@);
        names.push(specs[i].name.clone());
        args.push(
            TensorType {
                shape: vstd::slice::slice_to_vec(specs[i].shape.as_slice()),
                elem: Elem::Single,
            },
        );
        i += 1;
    }
    names.push("molmo2.patches".to_owned());
    let patches: [usize; 3] = [c.static_crops, c.patches_per_crop, c.patch_dim];
    assert(patches@ =~= seq![c.static_crops, c.patches_per_crop, c.patch_dim]);
    args.push(TensorType { shape: vstd::slice::slice_to_vec(&patches), elem: Elem::Single });
    names.push("molmo2.image_token_pooling.signed".to_owned());
    let signed: [usize; 2] = [c.static_pool_groups, c.pool_size];
    assert(signed@ =~= seq![c.static_pool_groups, c.pool_size]);
    args.push(TensorType { shape: vstd::slice::slice_to_vec(&signed), elem: Elem::Integer });
    let ghost types = args@;
    proof {
        lemma_tower_weights(*c);
        assert(are_argument_types(*c, types));
        assert(ranked(types)) by {
            assert forall|j: int| 0 <= j < types.len() implies (#[trigger] types[j]).shape@.len()
                >= 1 by {
                if j < weights.len() {
                    assert(types[j].shape@ == weights[j].shape);
                }
            }
        }
        assert(texts(names@) =~= argument_names(*c));
    }
    let (b, v) = build_vision(args, c, k);
    assert(v.shape@ == v.tree@.shape()) by {
        reveal(Builder::knows);
    }
    let t = type_text(v.shape.as_slice(), Elem::Single);
    let text = "module @molmo2_vision {\n  func.func public @main(".to_owned().concat(
        &signature_text(&names, &b.args),
    ).concat(") -> ").concat(&t).concat(" {\n").concat(&body_text(&b)).concat(
        "    return ",
    ).concat(&source_text(v.source)).concat(" : ").concat(&t).concat("\n  }\n}\n");
    assert(b.knows(v));
    text
}

} // verus!
