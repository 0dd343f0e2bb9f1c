//! Which checkpoint tensors a model reads, in the order of the graph's arguments.
use vstd::prelude::*;

use crate::config::{Config, NormStyle, WeightScheme};
use crate::text::{dec, ends_with, has_suffix, size_text};
use crate::weight_names::{names_of, scheme_names, SchemeNames};

verus! {

/// One part of an affine projection that is uploaded without dequantizing.
#[derive(Clone, Copy, Debug, PartialEq, Eq, Structural)]
pub enum QuantPart {
    Packed,
    Scales,
    Biases,
}

/// One weight that the loader reads.
#[derive(Clone, Debug, PartialEq, Eq)]
pub enum WeightSpec {
    /// A whole tensor, widened to single precision.
    Whole(String),
    /// A whole tensor of a linear projection, which may stay in half precision.
    Proj(String),
    /// Rows `start..end` of a fused tensor.
    Rows { name: String, start: usize, end: usize },
    /// One part of an affine projection, as raw bytes.
    QuantRaw { name: String, part: QuantPart },
}

/// The mathematical form of a [`WeightSpec`].
pub ghost enum WeightSpecView {
    Whole(Seq<char>),
    Proj(Seq<char>),
    Rows { name: Seq<char>, start: int, end: int },
    QuantRaw { name: Seq<char>, part: QuantPart },
}

impl View for WeightSpec {
    type V = WeightSpecView;

    open spec fn view(&self) -> WeightSpecView {
        match self {
            WeightSpec::Whole(name) => WeightSpecView::Whole(name@),
            WeightSpec::Proj(name) => WeightSpecView::Proj(name@),
            WeightSpec::Rows { name, start, end } => WeightSpecView::Rows {
                name: name@,
                start: *start as int,
                end: *end as int,
            },
            WeightSpec::QuantRaw { name, part } => WeightSpecView::QuantRaw {
                name: name@,
                part: *part,
            },
        }
    }
}

impl WeightSpecView {
    /// The checkpoint tensor that is read.
    pub open spec fn tensor(self) -> Seq<char> {
        match self {
            WeightSpecView::Whole(name) => name,
            WeightSpecView::Proj(name) => name,
            WeightSpecView::Rows { name, .. } => name,
            WeightSpecView::QuantRaw { name, .. } => name,
        }
    }
}

impl WeightSpec {
    /// The checkpoint tensor that is read.
    pub fn tensor_name<'a>(&'a self) -> (r: &'a str)
        ensures
            r@ == self@.tensor(),
    {
        match self {
            WeightSpec::Whole(name) => name.as_str(),
            WeightSpec::Proj(name) => name.as_str(),
            WeightSpec::Rows { name, .. } => name.as_str(),
            WeightSpec::QuantRaw { name, .. } => name.as_str(),
        }
    }
}

/// The views of a list of weights.
pub open spec fn spec_views(v: Seq<WeightSpec>) -> Seq<WeightSpecView> {
    v.map_values(|s: WeightSpec| s@)
}

/// A piece of a list, present under a condition.
pub open spec fn piece(present: bool, s: Seq<WeightSpecView>) -> Seq<WeightSpecView> {
    if present {
        s
    } else {
        Seq::empty()
    }
}

/// A tensor name without its `.weight` ending.
pub open spec fn stem_of(name: Seq<char>) -> Seq<char> {
    if has_suffix(name, ".weight"@) {
        name.subrange(0, name.len() - ".weight"@.len())
    } else {
        name
    }
}

/// The weights of one projection: its three affine parts on the packed path, else the
/// one tensor.
pub open spec fn proj_specs(name: Seq<char>, quant: bool) -> Seq<WeightSpecView> {
    if quant {
        seq![
            WeightSpecView::QuantRaw { name, part: QuantPart::Packed },
            WeightSpecView::QuantRaw {
                name: stem_of(name) + ".scales"@,
                part: QuantPart::Scales,
            },
            WeightSpecView::QuantRaw {
                name: stem_of(name) + ".biases"@,
                part: QuantPart::Biases,
            },
        ]
    } else {
        seq![WeightSpecView::Proj(name)]
    }
}

/// The immutable base of a projection: adapters wrap it in a checkpoint that has them.
pub open spec fn base_name(lora: bool, name: Seq<char>) -> Seq<char> {
    if lora && has_suffix(name, ".weight"@) {
        stem_of(name) + ".base_layer.weight"@
    } else {
        name
    }
}

pub(crate) fn stem_text(name: &str) -> (r: String)
    ensures
        r@ == stem_of(name@),
{
    if ends_with(name, ".weight") {
        let n: usize = name.unicode_len();
        let k: usize = ".weight".unicode_len();
        name.substring_char(0, n - k).to_owned()
    } else {
        name.to_owned()
    }
}

fn base_text(lora: bool, name: String) -> (r: String)
    ensures
        r@ == base_name(lora, name@),
{
    if lora && ends_with(name.as_str(), ".weight") {
        stem_text(name.as_str()).concat(".base_layer.weight")
    } else {
        name
    }
}

fn join(a: &str, b: &str) -> (r: String)
    ensures
        r@ == a@ + b@,
{
    a.to_owned().concat(b)
}

fn push_spec(out: &mut Vec<WeightSpec>, spec: WeightSpec)
    ensures
        spec_views(final(out)@) == spec_views(old(out)@) + seq![spec@],
{
    out.push(spec);
    assert(spec_views(out@) =~= spec_views(old(out)@) + seq![spec@]);
}

fn push_whole(out: &mut Vec<WeightSpec>, prefix: &str, name: &str)
    ensures
        spec_views(final(out)@) == spec_views(old(out)@) + seq![
            WeightSpecView::Whole(prefix@ + name@),
        ],
{
    push_spec(out, WeightSpec::Whole(join(prefix, name)));
}

/// The weights of one projection.
fn push_proj(out: &mut Vec<WeightSpec>, name: String, quant: bool)
    ensures
        spec_views(final(out)@) == spec_views(old(out)@) + proj_specs(name@, quant),
{
    let ghost before = spec_views(out@);
    let ghost whole = name@;
    if quant {
        let stem = stem_text(name.as_str());
        push_spec(out, WeightSpec::QuantRaw { name, part: QuantPart::Packed });
        push_spec(
            out,
            WeightSpec::QuantRaw { name: join(stem.as_str(), ".scales"), part: QuantPart::Scales },
        );
        push_spec(
            out,
            WeightSpec::QuantRaw { name: join(stem.as_str(), ".biases"), part: QuantPart::Biases },
        );
    } else {
        push_spec(out, WeightSpec::Proj(name));
    }
    assert(spec_views(out@) =~= before + proj_specs(whole, quant));
}

/// The fused gate/up tensor of a layer.
pub open spec fn gate_up_name(scheme: WeightScheme, prefix: Seq<char>) -> Seq<char> {
    if scheme == WeightScheme::Molmo2 {
        prefix + "mlp.ff_proj.weight"@
    } else {
        prefix + "mlp.gate_up_proj.weight"@
    }
}

/// Rows of the gating projection in the fused tensor: the first half, the second one with
/// Molmo2 names.
pub open spec fn gate_rows(scheme: WeightScheme, inter: usize) -> (int, int) {
    if scheme == WeightScheme::Molmo2 {
        (inter as int, 2 * inter)
    } else {
        (0, inter as int)
    }
}

/// The rows of the up projection in the fused tensor: the other half.
pub open spec fn up_rows(scheme: WeightScheme, inter: usize) -> (int, int) {
    if scheme == WeightScheme::Molmo2 {
        (0, inter as int)
    } else {
        (inter as int, 2 * inter)
    }
}

/// The fused q/k/v tensor of a layer.
pub open spec fn qkv_name(scheme: WeightScheme, prefix: Seq<char>) -> Seq<char> {
    if scheme == WeightScheme::Molmo2 {
        prefix + "self_attn.att_proj.weight"@
    } else {
        prefix + "self_attn.qkv_proj.weight"@
    }
}

/// The name and the two row ranges, gate first, of the fused gate/up tensor.
pub fn fused_gate_up(cfg: &Config, prefix: &str) -> (r: (String, (usize, usize), (usize, usize)))
    requires
        2 * cfg.inter <= usize::MAX,
    ensures
        r.0@ == gate_up_name(cfg.weight_scheme, prefix@),
        (r.1.0 as int, r.1.1 as int) == gate_rows(cfg.weight_scheme, cfg.inter),
        (r.2.0 as int, r.2.1 as int) == up_rows(cfg.weight_scheme, cfg.inter),
{
    if cfg.weight_scheme == WeightScheme::Molmo2 {
        (join(prefix, "mlp.ff_proj.weight"), (cfg.inter, 2 * cfg.inter), (0, cfg.inter))
    } else {
        (join(prefix, "mlp.gate_up_proj.weight"), (0, cfg.inter), (cfg.inter, 2 * cfg.inter))
    }
}

/// The name of the fused q/k/v tensor.
pub fn fused_qkv_name(cfg: &Config, prefix: &str) -> (r: String)
    ensures
        r@ == qkv_name(cfg.weight_scheme, prefix@),
{
    if cfg.weight_scheme == WeightScheme::Molmo2 {
        join(prefix, "self_attn.att_proj.weight")
    } else {
        join(prefix, "self_attn.qkv_proj.weight")
    }
}

/// The projections of the MLP that come before the layer norms: down, and gate where
/// there is one.
#[verifier::opaque]
pub open spec fn ffn_specs(c: Config, quant: bool, p: Seq<char>, moe: bool) -> Seq<WeightSpecView> {
    let lora = c.phi4_lora is Some;
    let down = if c.dense_mlp {
        p + "mlp.c_proj.weight"@
    } else {
        p + names_of(c.weight_scheme).down@
    };
    let rows = gate_rows(c.weight_scheme, c.inter);
    piece(!moe, proj_specs(base_name(lora, down), quant)) + piece(
        !c.dense_mlp && !moe,
        if c.fused_gate_up {
            seq![
                WeightSpecView::Rows {
                    name: base_name(lora, gate_up_name(c.weight_scheme, p)),
                    start: rows.0,
                    end: rows.1,
                },
            ]
        } else {
            proj_specs(base_name(lora, p + names_of(c.weight_scheme).gate@), quant)
        },
    )
}

/// The up projection of the MLP.
#[verifier::opaque]
pub open spec fn up_specs(c: Config, quant: bool, p: Seq<char>, moe: bool) -> Seq<WeightSpecView> {
    let lora = c.phi4_lora is Some;
    let rows = up_rows(c.weight_scheme, c.inter);
    piece(
        !moe,
        if c.fused_gate_up {
            seq![
                WeightSpecView::Rows {
                    name: base_name(lora, gate_up_name(c.weight_scheme, p)),
                    start: rows.0,
                    end: rows.1,
                },
            ]
        } else if c.dense_mlp {
            seq![WeightSpecView::Whole(p + "mlp.c_fc.weight"@)]
        } else {
            proj_specs(base_name(lora, p + names_of(c.weight_scheme).up@), quant)
        },
    )
}

/// The norms around the attention.
#[verifier::opaque]
pub open spec fn norm_specs(c: Config, p: Seq<char>) -> Seq<WeightSpecView> {
    let s = names_of(c.weight_scheme);
    piece(
        c.norm_style != NormStyle::OlmoPost,
        seq![WeightSpecView::Whole(p + s.input_layernorm@)],
    ) + piece(
        !c.parallel_block,
        seq![WeightSpecView::Whole(p + s.post_attention_layernorm@)],
    )
}

/// The attention projections: key, output, query, value.
#[verifier::opaque]
pub open spec fn attention_specs(c: Config, quant: bool, p: Seq<char>) -> Seq<WeightSpecView> {
    let s = names_of(c.weight_scheme);
    let lora = c.phi4_lora is Some;
    let nq = c.n_q * c.head_dim;
    let nkv = c.n_kv * c.head_dim;
    if c.fused_qkv {
        let name = base_name(lora, qkv_name(c.weight_scheme, p));
        seq![
            WeightSpecView::Rows { name, start: nq, end: nq + nkv },
            WeightSpecView::Proj(base_name(lora, p + s.o_proj@)),
            WeightSpecView::Rows { name, start: 0, end: nq },
            WeightSpecView::Rows { name, start: nq + nkv, end: nq + 2 * nkv },
        ]
    } else {
        proj_specs(base_name(lora, p + s.k_proj@), quant) + proj_specs(
            base_name(lora, p + s.o_proj@),
            quant,
        ) + proj_specs(base_name(lora, p + s.q_proj@), quant) + proj_specs(
            base_name(lora, p + s.v_proj@),
            quant,
        )
    }
}

/// The q/k/v biases, the q/k norms, and the norms around the MLP.
#[verifier::opaque]
pub open spec fn extra_specs(c: Config, p: Seq<char>) -> Seq<WeightSpecView> {
    let s = names_of(c.weight_scheme);
    piece(
        c.qkv_bias,
        seq![
            WeightSpecView::Whole(p + s.k_bias@),
            WeightSpecView::Whole(p + s.q_bias@),
            WeightSpecView::Whole(p + s.v_bias@),
        ],
    ) + piece(
        c.qk_norm is Some,
        seq![WeightSpecView::Whole(p + s.q_norm@), WeightSpecView::Whole(p + s.k_norm@)],
    ) + piece(
        c.norm_style == NormStyle::GemmaFf,
        seq![WeightSpecView::Whole(p + s.pre_ff_norm@)],
    ) + piece(
        c.norm_style != NormStyle::Plain,
        seq![WeightSpecView::Whole(p + s.post_ff_norm@)],
    )
}

/// The biases of the norms, of the attention output, and of the MLP.
#[verifier::opaque]
pub open spec fn bias_specs(c: Config, p: Seq<char>) -> Seq<WeightSpecView> {
    let down = if c.dense_mlp {
        p + "mlp.c_proj.bias"@
    } else {
        p + "mlp.down_proj.bias"@
    };
    let up = if c.dense_mlp {
        p + "mlp.c_fc.bias"@
    } else {
        p + "mlp.up_proj.bias"@
    };
    piece(c.norm_bias, seq![WeightSpecView::Whole(p + "input_layernorm.bias"@)]) + piece(
        c.norm_bias && !c.parallel_block,
        seq![WeightSpecView::Whole(p + "post_attention_layernorm.bias"@)],
    ) + piece(c.attn_o_bias, seq![WeightSpecView::Whole(p + "self_attn.o_proj.bias"@)]) + piece(
        c.mlp_bias,
        seq![WeightSpecView::Whole(down)],
    ) + piece(
        c.mlp_bias && !c.dense_mlp,
        seq![WeightSpecView::Whole(p + "mlp.gate_proj.bias"@)],
    ) + piece(c.mlp_bias, seq![WeightSpecView::Whole(up)])
}

/// The router, the stacked experts, and the shared expert.
#[verifier::opaque]
pub open spec fn expert_specs(c: Config, p: Seq<char>, moe: bool) -> Seq<WeightSpecView> {
    let m = c.moe.unwrap();
    let q = p + m.weight_prefix@;
    piece(
        moe,
        seq![
            WeightSpecView::Whole(q + ".gate.weight"@),
            WeightSpecView::Whole(q + ".switch_mlp.gate_proj.weight"@),
            WeightSpecView::Whole(q + ".switch_mlp.up_proj.weight"@),
            WeightSpecView::Whole(q + ".switch_mlp.down_proj.weight"@),
        ],
    ) + piece(
        moe && m.shared is Some,
        seq![
            WeightSpecView::Whole(q + ".shared_expert.gate_proj.weight"@),
            WeightSpecView::Whole(q + ".shared_expert.up_proj.weight"@),
            WeightSpecView::Whole(q + ".shared_expert.down_proj.weight"@),
        ],
    ) + piece(
        moe && m.shared is Some && m.shared.unwrap().gated,
        seq![WeightSpecView::Whole(q + ".shared_expert_gate.weight"@)],
    )
}

/// The two matrices of one adapter.
pub open spec fn lora_pair(stem: Seq<char>, adapter: Seq<char>) -> Seq<WeightSpecView> {
    seq![
        WeightSpecView::Proj(stem + ".lora_A."@ + adapter + ".weight"@),
        WeightSpecView::Proj(stem + ".lora_B."@ + adapter + ".weight"@),
    ]
}

/// The adapters of one projection.
pub open spec fn lora_specs(stem: Seq<char>) -> Seq<WeightSpecView> {
    lora_pair(stem, "speech"@) + lora_pair(stem, "vision"@)
}

/// The adapters of a layer.
#[verifier::opaque]
pub open spec fn adapter_specs(c: Config, p: Seq<char>) -> Seq<WeightSpecView> {
    piece(
        c.phi4_lora is Some,
        lora_specs(p + "self_attn.qkv_proj"@) + lora_specs(p + "self_attn.o_proj"@) + lora_specs(
            p + "mlp.gate_up_proj"@,
        ) + lora_specs(p + "mlp.down_proj"@),
    )
}

/// The name prefix of a layer.
pub open spec fn layer_prefix(c: Config, i: int) -> Seq<char> {
    names_of(c.weight_scheme).layer_stem@ + dec(i as nat) + "."@
}

/// The weights of one layer.
#[verifier::opaque]
pub open spec fn layer_specs(c: Config, quant: bool, i: int) -> Seq<WeightSpecView> {
    let p = layer_prefix(c, i);
    let moe = c.moe_layer(i);
    ffn_specs(c, quant, p, moe) + norm_specs(c, p) + up_specs(c, quant, p, moe) + attention_specs(
        c,
        quant,
        p,
    ) + extra_specs(c, p) + bias_specs(c, p) + expert_specs(c, p, moe) + adapter_specs(c, p)
}

/// The weights outside the layers.
pub open spec fn head_specs(c: Config) -> Seq<WeightSpecView> {
    let s = names_of(c.weight_scheme);
    seq![WeightSpecView::Whole(s.embed@), WeightSpecView::Whole(s.final_norm@)] + piece(
        c.norm_bias,
        seq![WeightSpecView::Whole("model.norm.bias"@)],
    ) + piece(!c.tie_word_embeddings, seq![WeightSpecView::Whole(s.lm_head@)])
}

/// The weights of the first `n` layers.
pub open spec fn layers_specs(c: Config, quant: bool, n: nat) -> Seq<WeightSpecView>
    decreases n,
{
    if n == 0 {
        Seq::empty()
    } else {
        layers_specs(c, quant, (n - 1) as nat) + layer_specs(c, quant, n - 1)
    }
}

/// All weights of a model, in the order of the graph's arguments.
pub open spec fn model_specs(c: Config, quant: bool) -> Seq<WeightSpecView> {
    head_specs(c) + layers_specs(c, quant, c.n_layers as nat)
}

/// The row bounds of the fused tensors are those that machine words can count.
pub open spec fn rows_fit(c: Config) -> bool {
    &&& c.n_q * c.head_dim <= usize::MAX
    &&& c.n_kv * c.head_dim <= usize::MAX
    &&& c.fused_qkv ==> c.n_q * c.head_dim + 2 * (c.n_kv * c.head_dim) <= usize::MAX
    &&& c.fused_gate_up ==> 2 * c.inter <= usize::MAX
}

fn push_ffn(out: &mut Vec<WeightSpec>, c: &Config, s: &SchemeNames, quant: bool, p: &str, moe: bool)
    requires
        rows_fit(*c),
        *s == names_of(c.weight_scheme),
    ensures
        spec_views(final(out)@) == spec_views(old(out)@) + ffn_specs(*c, quant, p@, moe),
{
    proof {
        reveal(ffn_specs);
    }
    let ghost before = spec_views(out@);
    let lora = c.phi4_lora.is_some();
    if !moe {
        let down = if c.dense_mlp {
            join(p, "mlp.c_proj.weight")
        } else {
            join(p, s.down)
        };
        push_proj(out, base_text(lora, down), quant);
        if !c.dense_mlp {
            if c.fused_gate_up {
                let (name, (start, end), _) = fused_gate_up(c, p);
                push_spec(out, WeightSpec::Rows { name: base_text(lora, name), start, end });
            } else {
                push_proj(out, base_text(lora, join(p, s.gate)), quant);
            }
        }
    }
    assert(spec_views(out@) =~= before + ffn_specs(*c, quant, p@, moe));
}

fn push_up(out: &mut Vec<WeightSpec>, c: &Config, s: &SchemeNames, quant: bool, p: &str, moe: bool)
    requires
        rows_fit(*c),
        *s == names_of(c.weight_scheme),
    ensures
        spec_views(final(out)@) == spec_views(old(out)@) + up_specs(*c, quant, p@, moe),
{
    proof {
        reveal(up_specs);
    }
    let ghost before = spec_views(out@);
    let lora = c.phi4_lora.is_some();
    if !moe {
        if c.fused_gate_up {
            let (name, _, (start, end)) = fused_gate_up(c, p);
            push_spec(out, WeightSpec::Rows { name: base_text(lora, name), start, end });
        } else if c.dense_mlp {
            push_whole(out, p, "mlp.c_fc.weight");
        } else {
            push_proj(out, base_text(lora, join(p, s.up)), quant);
        }
    }
    assert(spec_views(out@) =~= before + up_specs(*c, quant, p@, moe));
}

fn push_norms(out: &mut Vec<WeightSpec>, c: &Config, s: &SchemeNames, p: &str)
    requires
        *s == names_of(c.weight_scheme),
    ensures
        spec_views(final(out)@) == spec_views(old(out)@) + norm_specs(*c, p@),
{
    proof {
        reveal(norm_specs);
    }
    let ghost before = spec_views(out@);
    if c.has_input_norm() {
        push_whole(out, p, s.input_layernorm);
    }
    if !c.parallel_block {
        push_whole(out, p, s.post_attention_layernorm);
    }
    assert(spec_views(out@) =~= before + norm_specs(*c, p@));
}

fn push_attention(out: &mut Vec<WeightSpec>, c: &Config, s: &SchemeNames, quant: bool, p: &str)
    requires
        rows_fit(*c),
        *s == names_of(c.weight_scheme),
    ensures
        spec_views(final(out)@) == spec_views(old(out)@) + attention_specs(*c, quant, p@),
{
    proof {
        reveal(attention_specs);
    }
    let ghost before = spec_views(out@);
    let lora = c.phi4_lora.is_some();
    if c.fused_qkv {
        let nq: usize = c.n_q * c.head_dim;
        let nkv: usize = c.n_kv * c.head_dim;
        let name = base_text(lora, fused_qkv_name(c, p));
        push_spec(out, WeightSpec::Rows { name: name.clone(), start: nq, end: nq + nkv });
        push_spec(out, WeightSpec::Proj(base_text(lora, join(p, s.o_proj))));
        push_spec(out, WeightSpec::Rows { name: name.clone(), start: 0, end: nq });
        push_spec(out, WeightSpec::Rows { name, start: nq + nkv, end: nq + 2 * nkv });
    } else {
        push_proj(out, base_text(lora, join(p, s.k_proj)), quant);
        push_proj(out, base_text(lora, join(p, s.o_proj)), quant);
        push_proj(out, base_text(lora, join(p, s.q_proj)), quant);
        push_proj(out, base_text(lora, join(p, s.v_proj)), quant);
    }
    assert(spec_views(out@) =~= before + attention_specs(*c, quant, p@));
}

fn push_extras(out: &mut Vec<WeightSpec>, c: &Config, s: &SchemeNames, p: &str)
    requires
        *s == names_of(c.weight_scheme),
    ensures
        spec_views(final(out)@) == spec_views(old(out)@) + extra_specs(*c, p@),
{
    proof {
        reveal(extra_specs);
    }
    let ghost before = spec_views(out@);
    if c.qkv_bias {
        push_whole(out, p, s.k_bias);
        push_whole(out, p, s.q_bias);
        push_whole(out, p, s.v_bias);
    }
    if c.qk_norm.is_some() {
        push_whole(out, p, s.q_norm);
        push_whole(out, p, s.k_norm);
    }
    if c.has_pre_ff_norm() {
        push_whole(out, p, s.pre_ff_norm);
    }
    if c.has_post_ff_norm() {
        push_whole(out, p, s.post_ff_norm);
    }
    assert(spec_views(out@) =~= before + extra_specs(*c, p@));
}

fn push_biases(out: &mut Vec<WeightSpec>, c: &Config, p: &str)
    ensures
        spec_views(final(out)@) == spec_views(old(out)@) + bias_specs(*c, p@),
{
    proof {
        reveal(bias_specs);
    }
    let ghost before = spec_views(out@);
    if c.norm_bias {
        push_whole(out, p, "input_layernorm.bias");
        if !c.parallel_block {
            push_whole(out, p, "post_attention_layernorm.bias");
        }
    }
    if c.attn_o_bias {
        push_whole(out, p, "self_attn.o_proj.bias");
    }
    if c.mlp_bias {
        if c.dense_mlp {
            push_whole(out, p, "mlp.c_proj.bias");
            push_whole(out, p, "mlp.c_fc.bias");
        } else {
            push_whole(out, p, "mlp.down_proj.bias");
            push_whole(out, p, "mlp.gate_proj.bias");
            push_whole(out, p, "mlp.up_proj.bias");
        }
    }
    assert(spec_views(out@) =~= before + bias_specs(*c, p@));
}

fn push_experts(out: &mut Vec<WeightSpec>, c: &Config, p: &str, moe: bool)
    requires
        moe ==> c.moe is Some,
    ensures
        spec_views(final(out)@) == spec_views(old(out)@) + expert_specs(*c, p@, moe),
{
    proof {
        reveal(expert_specs);
    }
    let ghost before = spec_views(out@);
    if moe {
        let m = c.moe.unwrap();
        let q = join(p, m.weight_prefix);
        push_whole(out, q.as_str(), ".gate.weight");
        push_whole(out, q.as_str(), ".switch_mlp.gate_proj.weight");
        push_whole(out, q.as_str(), ".switch_mlp.up_proj.weight");
        push_whole(out, q.as_str(), ".switch_mlp.down_proj.weight");
        if let Some(shared) = m.shared {
            push_whole(out, q.as_str(), ".shared_expert.gate_proj.weight");
            push_whole(out, q.as_str(), ".shared_expert.up_proj.weight");
            push_whole(out, q.as_str(), ".shared_expert.down_proj.weight");
            if shared.gated {
                push_whole(out, q.as_str(), ".shared_expert_gate.weight");
            }
        }
    }
    assert(spec_views(out@) =~= before + expert_specs(*c, p@, moe));
}

/// The two matrices of one adapter.
fn push_phi4_lora_pair(out: &mut Vec<WeightSpec>, stem: &str, adapter: &str)
    ensures
        spec_views(final(out)@) == spec_views(old(out)@) + lora_pair(stem@, adapter@),
{
    let ghost before = spec_views(out@);
    push_spec(
        out,
        WeightSpec::Proj(stem.to_owned().concat(".lora_A.").concat(adapter).concat(".weight")),
    );
    push_spec(
        out,
        WeightSpec::Proj(stem.to_owned().concat(".lora_B.").concat(adapter).concat(".weight")),
    );
    assert(spec_views(out@) =~= before + lora_pair(stem@, adapter@));
}

fn push_lora(out: &mut Vec<WeightSpec>, p: &str, projection: &str)
    ensures
        spec_views(final(out)@) == spec_views(old(out)@) + lora_specs(p@ + projection@),
{
    let ghost before = spec_views(out@);
    let stem = join(p, projection);
    push_phi4_lora_pair(out, stem.as_str(), "speech");
    push_phi4_lora_pair(out, stem.as_str(), "vision");
    assert(spec_views(out@) =~= before + lora_specs(p@ + projection@));
}

fn push_adapters(out: &mut Vec<WeightSpec>, c: &Config, p: &str)
    ensures
        spec_views(final(out)@) == spec_views(old(out)@) + adapter_specs(*c, p@),
{
    proof {
        reveal(adapter_specs);
    }
    let ghost before = spec_views(out@);
    if c.phi4_lora.is_some() {
        push_lora(out, p, "self_attn.qkv_proj");
        push_lora(out, p, "self_attn.o_proj");
        push_lora(out, p, "mlp.gate_up_proj");
        push_lora(out, p, "mlp.down_proj");
    }
    assert(spec_views(out@) =~= before + adapter_specs(*c, p@));
}

fn push_layer(out: &mut Vec<WeightSpec>, c: &Config, s: &SchemeNames, quant: bool, i: usize)
    requires
        rows_fit(*c),
        *s == names_of(c.weight_scheme),
    ensures
        spec_views(final(out)@) == spec_views(old(out)@) + layer_specs(*c, quant, i as int),
{
    proof {
        reveal(layer_specs);
    }
    let ghost before = spec_views(out@);
    let prefix = s.layer_stem.to_owned().concat(&size_text(i)).concat(".");
    let p = prefix.as_str();
    let moe = c.is_moe_layer(i);
    push_ffn(out, c, s, quant, p, moe);
    push_norms(out, c, s, p);
    push_up(out, c, s, quant, p, moe);
    push_attention(out, c, s, quant, p);
    push_extras(out, c, s, p);
    push_biases(out, c, p);
    push_experts(out, c, p, moe);
    push_adapters(out, c, p);
    assert(spec_views(out@) =~= before + layer_specs(*c, quant, i as int));
}

/// The weights of a model, in the order of the graph's arguments. `quant` uploads the
/// projections as packed affine parts.
pub fn weight_specs_q(cfg: &Config, quant: bool) -> (r: Vec<WeightSpec>)
    requires
        rows_fit(*cfg),
    ensures
        spec_views(r@) == model_specs(*cfg, quant),
{
    let s = scheme_names(cfg.weight_scheme);
    let mut out: Vec<WeightSpec> = Vec::new();
    assert(spec_views(out@) =~= Seq::<WeightSpecView>::empty());
    push_spec(&mut out, WeightSpec::Whole(s.embed.to_owned()));
    push_spec(&mut out, WeightSpec::Whole(s.final_norm.to_owned()));
    if cfg.norm_bias {
        push_spec(&mut out, WeightSpec::Whole("model.norm.bias".to_owned()));
    }
    if !cfg.tie_word_embeddings {
        push_spec(&mut out, WeightSpec::Whole(s.lm_head.to_owned()));
    }
    assert(spec_views(out@) =~= head_specs(*cfg));
    let mut i: usize = 0;
    assert(spec_views(out@) =~= head_specs(*cfg) + layers_specs(*cfg, quant, 0));
    while i < cfg.n_layers
        invariant
            i <= cfg.n_layers,
            rows_fit(*cfg),
            s == names_of(cfg.weight_scheme),
            spec_views(out@) == head_specs(*cfg) + layers_specs(*cfg, quant, i as nat),
        decreases cfg.n_layers - i,
    {
        push_layer(&mut out, cfg, &s, quant, i);
        i += 1;
        assert(spec_views(out@) =~= head_specs(*cfg) + layers_specs(*cfg, quant, i as nat));
    }
    out
}

/// The weights of a model; packed affine parts where they were asked for and the
/// checkpoint has the layout for them.
pub fn weight_specs(cfg: &Config, packed_requested: bool) -> (r: Vec<WeightSpec>)
    requires
        rows_fit(*cfg),
    ensures
        spec_views(r@) == model_specs(*cfg, packed_requested && cfg.packs_quant()),
{
    weight_specs_q(cfg, packed_requested && cfg.supports_packed_quant())
}

/// Gate and up rows of a fused tensor are its two halves: they meet without a gap and
/// do not overlap.
pub proof fn law_fused_halves_partition(scheme: WeightScheme, inter: usize)
    ensures
        ({
            let g = gate_rows(scheme, inter);
            let u = up_rows(scheme, inter);
            &&& g.1 - g.0 == inter && u.1 - u.0 == inter
            &&& (g.0 == 0 && g.1 == u.0 && u.1 == 2 * inter) || (u.0 == 0 && u.1 == g.0 && g.1
                == 2 * inter)
        }),
{
}

/// Query, key and value rows of a fused tensor follow each other and cover it.
pub proof fn law_fused_qkv_rows_partition(c: Config, p: Seq<char>)
    requires
        c.fused_qkv,
    ensures
        ({
            let s = attention_specs(c, false, p);
            let k = s[0];
            let q = s[2];
            let v = s[3];
            &&& q->start == 0 && q->end == k->start && k->end == v->start
            &&& q->end == c.n_q * c.head_dim
            &&& v->end == c.n_q * c.head_dim + 2 * (c.n_kv * c.head_dim)
            &&& k->Rows_name == q->Rows_name && q->Rows_name == v->Rows_name
        }),
{
    reveal(attention_specs);
}

/// No packed part is read when the packed path is off.
pub open spec fn has_no_packed_part(s: Seq<WeightSpecView>) -> bool {
    forall|i: int| 0 <= i < s.len() ==> !(#[trigger] s[i] is QuantRaw)
}

proof fn lemma_no_packed_join(a: Seq<WeightSpecView>, b: Seq<WeightSpecView>)
    requires
        has_no_packed_part(a),
        has_no_packed_part(b),
    ensures
        has_no_packed_part(a + b),
{
}

proof fn lemma_layer_has_no_packed_part(c: Config, i: int)
    ensures
        has_no_packed_part(layer_specs(c, false, i)),
{
    reveal(layer_specs);
    let p = layer_prefix(c, i);
    let moe = c.moe_layer(i);
    assert(has_no_packed_part(ffn_specs(c, false, p, moe))) by {
        reveal(ffn_specs);
    }
    assert(has_no_packed_part(norm_specs(c, p))) by {
        reveal(norm_specs);
    }
    assert(has_no_packed_part(up_specs(c, false, p, moe))) by {
        reveal(up_specs);
    }
    assert(has_no_packed_part(attention_specs(c, false, p))) by {
        reveal(attention_specs);
    }
    assert(has_no_packed_part(extra_specs(c, p))) by {
        reveal(extra_specs);
    }
    assert(has_no_packed_part(bias_specs(c, p))) by {
        reveal(bias_specs);
    }
    assert(has_no_packed_part(expert_specs(c, p, moe))) by {
        reveal(expert_specs);
    }
    assert(has_no_packed_part(adapter_specs(c, p))) by {
        reveal(adapter_specs);
    }
}

/// Without the packed path a model reads no packed part.
pub proof fn law_unpacked_has_no_packed_part(c: Config, n: nat)
    ensures
        has_no_packed_part(layers_specs(c, false, n)),
        has_no_packed_part(model_specs(c, false)),
    decreases n,
{
    lemma_all_layers_unpacked(c, n);
    lemma_all_layers_unpacked(c, c.n_layers as nat);
    lemma_no_packed_join(head_specs(c), layers_specs(c, false, c.n_layers as nat));
}

proof fn lemma_all_layers_unpacked(c: Config, n: nat)
    ensures
        has_no_packed_part(layers_specs(c, false, n)),
    decreases n,
{
    if n > 0 {
        lemma_all_layers_unpacked(c, (n - 1) as nat);
        lemma_layer_has_no_packed_part(c, n - 1);
        lemma_no_packed_join(
            layers_specs(c, false, (n - 1) as nat),
            layer_specs(c, false, n - 1),
        );
    }
}

/// A packed projection is read in three adjacent parts of one stem.
pub proof fn law_packed_parts_are_adjacent(name: Seq<char>)
    ensures
        ({
            let s = proj_specs(name, true);
            &&& s.len() == 3
            &&& s[0]->part == QuantPart::Packed && s[0].tensor() == name
            &&& s[1]->part == QuantPart::Scales && s[1].tensor() == stem_of(name) + ".scales"@
            &&& s[2]->part == QuantPart::Biases && s[2].tensor() == stem_of(name) + ".biases"@
        }),
{
}

/// Number of weights of a dense layer in the common layout: seven projections and two
/// norms.
pub proof fn law_common_layer_has_nine_weights(c: Config, quant: bool, i: int)
    requires
        c.weight_scheme == WeightScheme::Llama,
        c.moe is None && c.phi4_lora is None && c.qk_norm is None,
        c.norm_style == NormStyle::Plain,
        !c.parallel_block && !c.dense_mlp && !c.fused_qkv && !c.fused_gate_up,
        !c.qkv_bias && !c.norm_bias && !c.attn_o_bias && !c.mlp_bias,
    ensures
        layer_specs(c, quant, i).len() == (if quant {
            23
        } else {
            9int
        }),
{
    reveal(layer_specs);
    reveal(ffn_specs);
    reveal(norm_specs);
    reveal(up_specs);
    reveal(attention_specs);
    reveal(extra_specs);
    reveal(bias_specs);
    reveal(expert_specs);
    reveal(adapter_specs);
}

} // verus!
