//! The order of a model's weights, said name by name: which tensors a layer reads under
//! which condition, and what the layouts call them.
use vstd::prelude::*;

use crate::config::{Config, NormStyle, WeightScheme};
use crate::text::{dec, has_suffix};
use crate::weight_names::names_of;
use crate::weight_specs::{
    adapter_specs, attention_specs, base_name, bias_specs, expert_specs, extra_specs, ffn_specs,
    head_specs, layer_prefix, layer_specs, layers_specs, model_specs, norm_specs, proj_specs,
    stem_of, up_specs, QuantPart, WeightSpecView,
};

verus! {

/// The entries of a table whose condition holds, in order.
pub open spec fn listed(table: Seq<(bool, WeightSpecView)>) -> Seq<WeightSpecView>
    decreases table.len(),
{
    if table.len() == 0 {
        Seq::empty()
    } else if table.last().0 {
        listed(table.drop_last()).push(table.last().1)
    } else {
        listed(table.drop_last())
    }
}

proof fn lemma_listed_push(table: Seq<(bool, WeightSpecView)>, entry: (bool, WeightSpecView))
    ensures
        listed(table.push(entry)) == (if entry.0 {
            listed(table).push(entry.1)
        } else {
            listed(table)
        }),
{
    assert(table.push(entry).drop_last() =~= table);
}

proof fn lemma_listed_two(a: (bool, WeightSpecView), b: (bool, WeightSpecView))
    ensures
        listed(seq![a, b]) == (if a.0 {
            seq![a.1]
        } else {
            Seq::empty()
        }) + (if b.0 {
            seq![b.1]
        } else {
            Seq::empty()
        }),
{
    let none = Seq::<(bool, WeightSpecView)>::empty();
    lemma_listed_push(none, a);
    lemma_listed_push(none.push(a), b);
    assert(seq![a, b] =~= none.push(a).push(b));
}

/// A tensor that is read whole.
pub open spec fn whole(prefix: Seq<char>, name: Seq<char>) -> WeightSpecView {
    WeightSpecView::Whole(prefix + name)
}

/// A projection, or the base of one that adapters wrap.
pub open spec fn projection(lora: bool, prefix: Seq<char>, name: Seq<char>) -> WeightSpecView {
    WeightSpecView::Proj(base_name(lora, prefix + name))
}

/// A dense MLP is read as its down, gate and up projections, with the two layer norms before
/// the up projection; fused gates and ups are the halves of one tensor, and a layer of
/// experts has none of them.
pub proof fn law_mlp_reads_in_order(c: Config, p: Seq<char>, moe: bool)
    ensures
        ({
            let s = names_of(c.weight_scheme);
            let lora = c.phi4_lora is Some;
            let molmo2 = c.weight_scheme == WeightScheme::Molmo2;
            let fused = base_name(
                lora,
                p + (if molmo2 {
                    "mlp.ff_proj.weight"@
                } else {
                    "mlp.gate_up_proj.weight"@
                }),
            );
            let first = WeightSpecView::Rows { name: fused, start: 0, end: c.inter as int };
            let second = WeightSpecView::Rows {
                name: fused,
                start: c.inter as int,
                end: 2 * c.inter,
            };
            let gate = if !c.fused_gate_up {
                projection(lora, p, s.gate@)
            } else if molmo2 {
                second
            } else {
                first
            };
            let up = if c.fused_gate_up {
                if molmo2 {
                    first
                } else {
                    second
                }
            } else if c.dense_mlp {
                whole(p, "mlp.c_fc.weight"@)
            } else {
                projection(lora, p, s.up@)
            };
            let down = if c.dense_mlp {
                projection(lora, p, "mlp.c_proj.weight"@)
            } else {
                projection(lora, p, s.down@)
            };
            &&& ffn_specs(c, false, p, moe) == listed(
                seq![(!moe, down), (!moe && !c.dense_mlp, gate)],
            )
            &&& norm_specs(c, p) == listed(
                seq![
                    (c.norm_style != NormStyle::OlmoPost, whole(p, s.input_layernorm@)),
                    (!c.parallel_block, whole(p, s.post_attention_layernorm@)),
                ],
            )
            &&& up_specs(c, false, p, moe) == listed(seq![(!moe, up), (false, up)])
        }),
{
    reveal(ffn_specs);
    reveal(norm_specs);
    reveal(up_specs);
    let s = names_of(c.weight_scheme);
    let lora = c.phi4_lora is Some;
    let molmo2 = c.weight_scheme == WeightScheme::Molmo2;
    let fused = base_name(
        lora,
        p + (if molmo2 {
            "mlp.ff_proj.weight"@
        } else {
            "mlp.gate_up_proj.weight"@
        }),
    );
    let first = WeightSpecView::Rows { name: fused, start: 0, end: c.inter as int };
    let second = WeightSpecView::Rows { name: fused, start: c.inter as int, end: 2 * c.inter };
    let gate = if !c.fused_gate_up {
        projection(lora, p, s.gate@)
    } else if molmo2 {
        second
    } else {
        first
    };
    let up = if c.fused_gate_up {
        if molmo2 {
            first
        } else {
            second
        }
    } else if c.dense_mlp {
        whole(p, "mlp.c_fc.weight"@)
    } else {
        projection(lora, p, s.up@)
    };
    let down = if c.dense_mlp {
        projection(lora, p, "mlp.c_proj.weight"@)
    } else {
        projection(lora, p, s.down@)
    };
    lemma_listed_two((!moe, down), (!moe && !c.dense_mlp, gate));
    lemma_listed_two(
        (c.norm_style != NormStyle::OlmoPost, whole(p, s.input_layernorm@)),
        (!c.parallel_block, whole(p, s.post_attention_layernorm@)),
    );
    lemma_listed_two((!moe, up), (false, up));
    assert(ffn_specs(c, false, p, moe) =~= listed(
        seq![(!moe, down), (!moe && !c.dense_mlp, gate)],
    ));
    assert(norm_specs(c, p) =~= listed(
        seq![
            (c.norm_style != NormStyle::OlmoPost, whole(p, s.input_layernorm@)),
            (!c.parallel_block, whole(p, s.post_attention_layernorm@)),
        ],
    ));
    assert(up_specs(c, false, p, moe) =~= listed(seq![(!moe, up), (false, up)]));
}

/// The attention reads key, output, query and value, in this order; in a fused tensor the
/// query's rows come first, then the key's, then the value's.
pub proof fn law_attention_reads_in_order(c: Config, p: Seq<char>)
    ensures
        ({
            let s = names_of(c.weight_scheme);
            let lora = c.phi4_lora is Some;
            let a = attention_specs(c, false, p);
            let fused = base_name(
                lora,
                p + (if c.weight_scheme == WeightScheme::Molmo2 {
                    "self_attn.att_proj.weight"@
                } else {
                    "self_attn.qkv_proj.weight"@
                }),
            );
            let q = c.n_q * c.head_dim;
            let kv = c.n_kv * c.head_dim;
            &&& a.len() == 4
            &&& a[1] == projection(lora, p, s.o_proj@)
            &&& !c.fused_qkv ==> a[0] == projection(lora, p, s.k_proj@)
            &&& !c.fused_qkv ==> a[2] == projection(lora, p, s.q_proj@)
            &&& !c.fused_qkv ==> a[3] == projection(lora, p, s.v_proj@)
            &&& c.fused_qkv ==> a[2] == WeightSpecView::Rows { name: fused, start: 0, end: q }
            &&& c.fused_qkv ==> a[0] == WeightSpecView::Rows { name: fused, start: q, end: q + kv }
            &&& c.fused_qkv ==> a[3] == WeightSpecView::Rows {
                name: fused,
                start: q + kv,
                end: q + kv + kv,
            }
        }),
{
    reveal(attention_specs);
}

/// A layer with q/k/v biases lists those three biases, key, query and value, consecutively
/// and in this order, then the norms of query and key, then the norms around the MLP; a
/// layer without them lists none.
pub proof fn law_biases_and_norms_read_in_order(c: Config, p: Seq<char>)
    ensures
        ({
            let s = names_of(c.weight_scheme);
            let e = extra_specs(c, p);
            let biases: int = if c.qkv_bias {
                3
            } else {
                0
            };
            let norms: int = if c.qk_norm is Some {
                2
            } else {
                0
            };
            let before: int = if c.norm_style == NormStyle::GemmaFf {
                1
            } else {
                0
            };
            let after: int = if c.norm_style == NormStyle::Plain {
                0
            } else {
                1
            };
            &&& e.len() == biases + norms + before + after
            &&& c.qkv_bias ==> e[0] == whole(p, s.k_bias@)
            &&& c.qkv_bias ==> e[1] == whole(p, s.q_bias@)
            &&& c.qkv_bias ==> e[2] == whole(p, s.v_bias@)
            &&& c.qk_norm is Some ==> e[biases] == whole(p, s.q_norm@)
            &&& c.qk_norm is Some ==> e[biases + 1] == whole(p, s.k_norm@)
            &&& c.norm_style == NormStyle::GemmaFf ==> e[biases + norms] == whole(
                p,
                s.pre_ff_norm@,
            )
            &&& c.norm_style != NormStyle::Plain ==> e.last() == whole(p, s.post_ff_norm@)
        }),
{
    reveal(extra_specs);
}

/// Norms with a bias list it for each norm that the layer has, the attention output lists
/// its bias, and the MLP lists one for each of its projections: down, gate where there is
/// one, and up.
pub proof fn law_optional_biases_read_in_order(c: Config, p: Seq<char>)
    ensures
        ({
            let e = bias_specs(c, p);
            let norms: int = if !c.norm_bias {
                0
            } else if c.parallel_block {
                1
            } else {
                2
            };
            let output: int = if c.attn_o_bias {
                1
            } else {
                0
            };
            let mlp: int = if !c.mlp_bias {
                0
            } else if c.dense_mlp {
                2
            } else {
                3
            };
            let m = norms + output;
            &&& e.len() == norms + output + mlp
            &&& c.norm_bias ==> e[0] == whole(p, "input_layernorm.bias"@)
            &&& c.norm_bias && !c.parallel_block ==> e[1] == whole(
                p,
                "post_attention_layernorm.bias"@,
            )
            &&& c.attn_o_bias ==> e[norms] == whole(p, "self_attn.o_proj.bias"@)
            &&& c.mlp_bias && c.dense_mlp ==> e[m] == whole(p, "mlp.c_proj.bias"@)
            &&& c.mlp_bias && c.dense_mlp ==> e[m + 1] == whole(p, "mlp.c_fc.bias"@)
            &&& c.mlp_bias && !c.dense_mlp ==> e[m] == whole(p, "mlp.down_proj.bias"@)
            &&& c.mlp_bias && !c.dense_mlp ==> e[m + 1] == whole(p, "mlp.gate_proj.bias"@)
            &&& c.mlp_bias && !c.dense_mlp ==> e[m + 2] == whole(p, "mlp.up_proj.bias"@)
        }),
{
    reveal(bias_specs);
}

/// A layer of experts lists the router, then gate, up and down of the stacked experts, then
/// those of the shared expert and its gate, where there are any; any other layer lists none.
pub proof fn law_experts_read_in_order(c: Config, p: Seq<char>, moe: bool)
    requires
        moe ==> c.moe is Some,
    ensures
        ({
            let e = expert_specs(c, p, moe);
            let m = c.moe.unwrap();
            let q = p + m.weight_prefix@;
            &&& !moe ==> e.len() == 0
            &&& moe && m.shared is None ==> e.len() == 4
            &&& moe && (m.shared matches Some(x) && !x.gated) ==> e.len() == 7
            &&& moe && (m.shared matches Some(x) && x.gated) ==> e.len() == 8
            &&& moe ==> e[0] == whole(q, ".gate.weight"@)
            &&& moe ==> e[1] == whole(q, ".switch_mlp.gate_proj.weight"@)
            &&& moe ==> e[2] == whole(q, ".switch_mlp.up_proj.weight"@)
            &&& moe ==> e[3] == whole(q, ".switch_mlp.down_proj.weight"@)
            &&& moe && m.shared is Some ==> e[4] == whole(q, ".shared_expert.gate_proj.weight"@)
            &&& moe && m.shared is Some ==> e[5] == whole(q, ".shared_expert.up_proj.weight"@)
            &&& moe && m.shared is Some ==> e[6] == whole(q, ".shared_expert.down_proj.weight"@)
            &&& moe && (m.shared matches Some(x) && x.gated) ==> e[7] == whole(
                q,
                ".shared_expert_gate.weight"@,
            )
        }),
{
    reveal(expert_specs);
}

/// The projection number `k` that has adapters.
pub open spec fn adapted(k: int) -> Seq<char> {
    if k == 0 {
        "self_attn.qkv_proj"@
    } else if k == 1 {
        "self_attn.o_proj"@
    } else if k == 2 {
        "mlp.gate_up_proj"@
    } else {
        "mlp.down_proj"@
    }
}

/// Each of the four projections of a layer with adapters lists the speech adapter before the
/// vision adapter, and of each its first matrix before its second.
pub proof fn law_adapters_read_in_order(c: Config, p: Seq<char>, k: int)
    requires
        0 <= k < 4,
    ensures
        ({
            let e = adapter_specs(c, p);
            let stem = p + adapted(k);
            &&& c.phi4_lora is None ==> e.len() == 0
            &&& c.phi4_lora is Some ==> {
                &&& e.len() == 16
                &&& e[4 * k] == WeightSpecView::Proj(stem + ".lora_A."@ + "speech"@ + ".weight"@)
                &&& e[4 * k + 1] == WeightSpecView::Proj(
                    stem + ".lora_B."@ + "speech"@ + ".weight"@,
                )
                &&& e[4 * k + 2] == WeightSpecView::Proj(
                    stem + ".lora_A."@ + "vision"@ + ".weight"@,
                )
                &&& e[4 * k + 3] == WeightSpecView::Proj(
                    stem + ".lora_B."@ + "vision"@ + ".weight"@,
                )
            }
        }),
{
    reveal(adapter_specs);
    assert(k == 0 || k == 1 || k == 2 || k == 3);
}

/// A layer reads its MLP around its norms, then the attention, the q/k/v biases and further
/// norms, the optional biases, the experts and the adapters; nothing else.
pub proof fn law_layer_reads_its_parts_in_order(c: Config, quant: bool, i: int)
    ensures
        ({
            let p = names_of(c.weight_scheme).layer_stem@ + dec(i as nat) + "."@;
            let moe = c.moe matches Some(m) && i >= m.first_k_dense;
            let parts = seq![
                ffn_specs(c, quant, p, moe),
                norm_specs(c, p),
                up_specs(c, quant, p, moe),
                attention_specs(c, quant, p),
                extra_specs(c, p),
                bias_specs(c, p),
                expert_specs(c, p, moe),
                adapter_specs(c, p),
            ];
            layer_specs(c, quant, i) == parts.flatten()
        }),
{
    reveal(layer_specs);
    let p = layer_prefix(c, i);
    let moe = c.moe_layer(i);
    let parts = seq![
        ffn_specs(c, quant, p, moe),
        norm_specs(c, p),
        up_specs(c, quant, p, moe),
        attention_specs(c, quant, p),
        extra_specs(c, p),
        bias_specs(c, p),
        expert_specs(c, p, moe),
        adapter_specs(c, p),
    ];
    lemma_flatten_eight(
        parts[0],
        parts[1],
        parts[2],
        parts[3],
        parts[4],
        parts[5],
        parts[6],
        parts[7],
    );
}

proof fn lemma_flatten_first(s: Seq<Seq<WeightSpecView>>)
    requires
        s.len() > 0,
    ensures
        s.flatten() == s[0] + s.drop_first().flatten(),
{
}

proof fn lemma_flatten_eight(
    a: Seq<WeightSpecView>,
    b: Seq<WeightSpecView>,
    c: Seq<WeightSpecView>,
    d: Seq<WeightSpecView>,
    e: Seq<WeightSpecView>,
    f: Seq<WeightSpecView>,
    g: Seq<WeightSpecView>,
    h: Seq<WeightSpecView>,
)
    ensures
        seq![a, b, c, d, e, f, g, h].flatten() == a + b + c + d + e + f + g + h,
{
    let s0 = seq![a, b, c, d, e, f, g, h];
    let s1 = s0.drop_first();
    let s2 = s1.drop_first();
    let s3 = s2.drop_first();
    let s4 = s3.drop_first();
    let s5 = s4.drop_first();
    let s6 = s5.drop_first();
    let s7 = s6.drop_first();
    let s8 = s7.drop_first();
    lemma_flatten_first(s0);
    lemma_flatten_first(s1);
    lemma_flatten_first(s2);
    lemma_flatten_first(s3);
    lemma_flatten_first(s4);
    lemma_flatten_first(s5);
    lemma_flatten_first(s6);
    lemma_flatten_first(s7);
    assert(s8.flatten() =~= Seq::<WeightSpecView>::empty());
    assert(s0.flatten() =~= a + b + c + d + e + f + g + h);
}

/// A model reads the embedding, the final norm, its bias where norms have one and the head
/// where it is not tied, and behind them its layers from the first to the last.
pub proof fn law_model_reads_layer_by_layer(c: Config, quant: bool, n: nat)
    ensures
        ({
            let s = names_of(c.weight_scheme);
            let head = head_specs(c);
            let bias: int = if c.norm_bias {
                1
            } else {
                0
            };
            &&& head.len() == 2 + bias + if c.tie_word_embeddings {
                0int
            } else {
                1
            }
            &&& head[0] == WeightSpecView::Whole(s.embed@)
            &&& head[1] == WeightSpecView::Whole(s.final_norm@)
            &&& c.norm_bias ==> head[2] == WeightSpecView::Whole("model.norm.bias"@)
            &&& !c.tie_word_embeddings ==> head[2 + bias] == WeightSpecView::Whole(s.lm_head@)
        }),
        model_specs(c, quant) == head_specs(c) + layers_specs(c, quant, c.n_layers as nat),
        layers_specs(c, quant, 0) == Seq::<WeightSpecView>::empty(),
        layers_specs(c, quant, n + 1) == layers_specs(c, quant, n) + layer_specs(
            c,
            quant,
            n as int,
        ),
{
}

/// A packed projection is its tensor and two companions of the same stem; an adapter wraps
/// the base of a projection under a name of its own.
pub proof fn law_companions_share_the_stem(stem: Seq<char>)
    ensures
        proj_specs(stem + ".weight"@, true) == seq![
            WeightSpecView::QuantRaw { name: stem + ".weight"@, part: QuantPart::Packed },
            WeightSpecView::QuantRaw { name: stem + ".scales"@, part: QuantPart::Scales },
            WeightSpecView::QuantRaw { name: stem + ".biases"@, part: QuantPart::Biases },
        ],
        proj_specs(stem + ".weight"@, false) == seq![WeightSpecView::Proj(stem + ".weight"@)],
        base_name(true, stem + ".weight"@) == stem + ".base_layer.weight"@,
        base_name(false, stem) == stem,
        !has_suffix(stem, ".weight"@) ==> base_name(true, stem) == stem,
{
    let name = stem + ".weight"@;
    assert(name.subrange(stem.len() as int, name.len() as int) =~= ".weight"@);
    assert(stem_of(name) =~= stem);
}

/// The list with every projection replaced by its three packed parts.
pub open spec fn packed_form(s: Seq<WeightSpecView>) -> Seq<WeightSpecView>
    decreases s.len(),
{
    if s.len() == 0 {
        Seq::empty()
    } else {
        packed_form(s.drop_last()) + match s.last() {
            WeightSpecView::Proj(name) => seq![
                WeightSpecView::QuantRaw { name, part: QuantPart::Packed },
                WeightSpecView::QuantRaw {
                    name: stem_of(name) + ".scales"@,
                    part: QuantPart::Scales,
                },
                WeightSpecView::QuantRaw {
                    name: stem_of(name) + ".biases"@,
                    part: QuantPart::Biases,
                },
            ],
            other => seq![other],
        }
    }
}

proof fn lemma_packed_join(a: Seq<WeightSpecView>, b: Seq<WeightSpecView>)
    ensures
        packed_form(a + b) == packed_form(a) + packed_form(b),
    decreases b.len(),
{
    if b.len() == 0 {
        assert(a + b =~= a);
        assert(packed_form(a) =~= packed_form(a) + packed_form(b));
    } else {
        lemma_packed_join(a, b.drop_last());
        assert((a + b).drop_last() =~= a + b.drop_last());
        assert((a + b).last() == b.last());
        assert(packed_form(a + b) =~= packed_form(a) + packed_form(b));
    }
}

proof fn lemma_packed_projection(name: Seq<char>)
    ensures
        packed_form(proj_specs(name, false)) == proj_specs(name, true),
{
    let one = proj_specs(name, false);
    assert(one.drop_last() =~= Seq::<WeightSpecView>::empty());
    assert(one.last() == WeightSpecView::Proj(name));
    assert(packed_form(one.drop_last()) =~= Seq::<WeightSpecView>::empty());
    assert(packed_form(one) =~= proj_specs(name, true));
}

proof fn lemma_packed_wholes(s: Seq<WeightSpecView>)
    requires
        forall|i: int| 0 <= i < s.len() ==> #[trigger] s[i] is Whole,
    ensures
        packed_form(s) == s,
    decreases s.len(),
{
    if s.len() > 0 {
        lemma_packed_wholes(s.drop_last());
        assert(s[s.len() - 1] is Whole);
        assert(s =~= s.drop_last() + seq![s.last()]);
    } else {
        assert(packed_form(s) =~= s);
    }
}

/// On the packed path a layer reads what it reads otherwise, with each projection in its
/// three parts.
pub proof fn law_packed_layer_is_the_layer_in_parts(c: Config, i: int)
    requires
        c.packs_quant(),
        c.phi4_lora is None,
    ensures
        layer_specs(c, true, i) == packed_form(layer_specs(c, false, i)),
{
    reveal(layer_specs);
    let p = layer_prefix(c, i);
    let moe = c.moe_layer(i);
    let s = names_of(c.weight_scheme);
    let f = ffn_specs(c, false, p, moe);
    let n = norm_specs(c, p);
    let u = up_specs(c, false, p, moe);
    let a = attention_specs(c, false, p);
    let e = extra_specs(c, p);
    let b = bias_specs(c, p);
    let x = expert_specs(c, p, moe);
    let d = adapter_specs(c, p);
    assert(packed_form(f) == ffn_specs(c, true, p, moe)) by {
        reveal(ffn_specs);
        lemma_packed_projection(p + s.down@);
        lemma_packed_projection(p + s.gate@);
        lemma_packed_join(proj_specs(p + s.down@, false), proj_specs(p + s.gate@, false));
    }
    assert(packed_form(u) == up_specs(c, true, p, moe)) by {
        reveal(up_specs);
        lemma_packed_projection(p + s.up@);
    }
    assert(packed_form(a) == attention_specs(c, true, p)) by {
        reveal(attention_specs);
        let (k, o) = (proj_specs(p + s.k_proj@, false), proj_specs(p + s.o_proj@, false));
        let (q, v) = (proj_specs(p + s.q_proj@, false), proj_specs(p + s.v_proj@, false));
        lemma_packed_projection(p + s.k_proj@);
        lemma_packed_projection(p + s.o_proj@);
        lemma_packed_projection(p + s.q_proj@);
        lemma_packed_projection(p + s.v_proj@);
        lemma_packed_join(k, o);
        lemma_packed_join(k + o, q);
        lemma_packed_join(k + o + q, v);
    }
    assert(packed_form(n) == n) by {
        reveal(norm_specs);
        lemma_packed_wholes(n);
    }
    assert(packed_form(e) == e) by {
        reveal(extra_specs);
        lemma_packed_wholes(e);
    }
    assert(packed_form(b) == b) by {
        reveal(bias_specs);
        lemma_packed_wholes(b);
    }
    assert(packed_form(x) == x) by {
        reveal(expert_specs);
        lemma_packed_wholes(x);
    }
    assert(packed_form(d) == d) by {
        reveal(adapter_specs);
        lemma_packed_wholes(d);
    }
    lemma_packed_join(f, n);
    lemma_packed_join(f + n, u);
    lemma_packed_join(f + n + u, a);
    lemma_packed_join(f + n + u + a, e);
    lemma_packed_join(f + n + u + a + e, b);
    lemma_packed_join(f + n + u + a + e + b, x);
    lemma_packed_join(f + n + u + a + e + b + x, d);
}

/// The names of the common layout.
pub proof fn law_common_names()
    ensures
        ({
            let s = names_of(WeightScheme::Llama);
            &&& s.embed@ == "model.embed_tokens.weight"@
            &&& s.final_norm@ == "model.norm.weight"@
            &&& s.lm_head@ == "lm_head.weight"@
            &&& s.layer_stem@ == "model.layers."@
            &&& s.down@ == "mlp.down_proj.weight"@
            &&& s.gate@ == "mlp.gate_proj.weight"@
            &&& s.up@ == "mlp.up_proj.weight"@
            &&& s.input_layernorm@ == "input_layernorm.weight"@
            &&& s.post_attention_layernorm@ == "post_attention_layernorm.weight"@
            &&& s.q_proj@ == "self_attn.q_proj.weight"@
            &&& s.k_proj@ == "self_attn.k_proj.weight"@
            &&& s.v_proj@ == "self_attn.v_proj.weight"@
            &&& s.o_proj@ == "self_attn.o_proj.weight"@
            &&& s.q_bias@ == "self_attn.q_proj.bias"@
            &&& s.k_bias@ == "self_attn.k_proj.bias"@
            &&& s.v_bias@ == "self_attn.v_proj.bias"@
            &&& s.q_norm@ == "self_attn.q_norm.weight"@
            &&& s.k_norm@ == "self_attn.k_norm.weight"@
            &&& s.pre_ff_norm@ == "pre_feedforward_layernorm.weight"@
            &&& s.post_ff_norm@ == "post_feedforward_layernorm.weight"@
        }),
{
}

/// The names of the layout under `transformer.h`.
pub proof fn law_exaone_names()
    ensures
        ({
            let s = names_of(WeightScheme::Exaone);
            &&& s.embed@ == "transformer.wte.weight"@
            &&& s.final_norm@ == "transformer.ln_f.weight"@
            &&& s.lm_head@ == "lm_head.weight"@
            &&& s.layer_stem@ == "transformer.h."@
            &&& s.down@ == "mlp.c_proj.weight"@
            &&& s.gate@ == "mlp.c_fc_0.weight"@
            &&& s.up@ == "mlp.c_fc_1.weight"@
            &&& s.input_layernorm@ == "ln_1.weight"@
            &&& s.post_attention_layernorm@ == "ln_2.weight"@
            &&& s.q_proj@ == "attn.attention.q_proj.weight"@
            &&& s.k_proj@ == "attn.attention.k_proj.weight"@
            &&& s.v_proj@ == "attn.attention.v_proj.weight"@
            &&& s.o_proj@ == "attn.attention.out_proj.weight"@
            &&& s.q_bias@ == "attn.attention.q_proj.bias"@
            &&& s.k_bias@ == "attn.attention.k_proj.bias"@
            &&& s.v_bias@ == "attn.attention.v_proj.bias"@
            &&& s.q_norm@ == "attn.attention.q_norm.weight"@
            &&& s.k_norm@ == "attn.attention.k_norm.weight"@
        }),
{
}

/// The names of the layout under `model.blocks`: one tensor for query, key and value, and
/// one for gate and up.
pub proof fn law_molmo2_names()
    ensures
        ({
            let s = names_of(WeightScheme::Molmo2);
            &&& s.embed@ == "model.wte.embedding"@
            &&& s.final_norm@ == "model.ln_f.weight"@
            &&& s.lm_head@ == "lm_head.weight"@
            &&& s.layer_stem@ == "model.blocks."@
            &&& s.down@ == "mlp.ff_out.weight"@
            &&& s.gate@ == "mlp.ff_proj.weight"@ && s.up@ == s.gate@
            &&& s.input_layernorm@ == "attn_norm.weight"@
            &&& s.post_attention_layernorm@ == "ff_norm.weight"@
            &&& s.q_proj@ == "self_attn.att_proj.weight"@
            &&& s.k_proj@ == s.q_proj@ && s.v_proj@ == s.q_proj@
            &&& s.o_proj@ == "self_attn.attn_out.weight"@
            &&& s.q_norm@ == "self_attn.q_norm.weight"@
            &&& s.k_norm@ == "self_attn.k_norm.weight"@
        }),
{
}

/// The common layer with q/k/v biases has three weights more than the one without.
pub proof fn law_biased_layer_has_three_more(c: Config, plain: Config, quant: bool, i: int)
    requires
        c.qkv_bias,
        plain == (Config { qkv_bias: false, ..c }),
    ensures
        layer_specs(c, quant, i).len() == layer_specs(plain, quant, i).len() + 3,
{
    reveal(layer_specs);
    let p = layer_prefix(c, i);
    let moe = c.moe_layer(i);
    assert(ffn_specs(c, quant, p, moe) == ffn_specs(plain, quant, p, moe)) by {
        reveal(ffn_specs);
    }
    assert(norm_specs(c, p) == norm_specs(plain, p)) by {
        reveal(norm_specs);
    }
    assert(up_specs(c, quant, p, moe) == up_specs(plain, quant, p, moe)) by {
        reveal(up_specs);
    }
    assert(attention_specs(c, quant, p) == attention_specs(plain, quant, p)) by {
        reveal(attention_specs);
    }
    assert(bias_specs(c, p) == bias_specs(plain, p)) by {
        reveal(bias_specs);
    }
    assert(expert_specs(c, p, moe) == expert_specs(plain, p, moe)) by {
        reveal(expert_specs);
    }
    assert(adapter_specs(c, p) == adapter_specs(plain, p)) by {
        reveal(adapter_specs);
    }
    law_biases_and_norms_read_in_order(c, p);
    law_biases_and_norms_read_in_order(plain, p);
}

} // verus!
