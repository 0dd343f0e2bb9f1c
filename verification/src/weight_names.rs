//! Tensor names of the supported checkpoint layouts.
use vstd::prelude::*;

use crate::config::WeightScheme;

verus! {

/// The names of one checkpoint layout. Layer names stand behind the layer stem and the
/// layer number.
#[derive(Clone, Copy, Debug, PartialEq, Eq)]
pub struct SchemeNames {
    pub embed: &'static str,
    pub final_norm: &'static str,
    pub lm_head: &'static str,
    pub layer_stem: &'static str,
    pub down: &'static str,
    pub gate: &'static str,
    pub up: &'static str,
    pub input_layernorm: &'static str,
    pub post_attention_layernorm: &'static str,
    pub k_proj: &'static str,
    pub o_proj: &'static str,
    pub q_proj: &'static str,
    pub v_proj: &'static str,
    pub k_bias: &'static str,
    pub q_bias: &'static str,
    pub v_bias: &'static str,
    pub q_norm: &'static str,
    pub k_norm: &'static str,
    pub pre_ff_norm: &'static str,
    pub post_ff_norm: &'static str,
}

/// The names of a layout.
pub open spec fn names_of(scheme: WeightScheme) -> SchemeNames {
    match scheme {
        WeightScheme::Llama => SchemeNames {
            embed: "model.embed_tokens.weight",
            final_norm: "model.norm.weight",
            lm_head: "lm_head.weight",
            layer_stem: "model.layers.",
            down: "mlp.down_proj.weight",
            gate: "mlp.gate_proj.weight",
            up: "mlp.up_proj.weight",
            input_layernorm: "input_layernorm.weight",
            post_attention_layernorm: "post_attention_layernorm.weight",
            k_proj: "self_attn.k_proj.weight",
            o_proj: "self_attn.o_proj.weight",
            q_proj: "self_attn.q_proj.weight",
            v_proj: "self_attn.v_proj.weight",
            k_bias: "self_attn.k_proj.bias",
            q_bias: "self_attn.q_proj.bias",
            v_bias: "self_attn.v_proj.bias",
            q_norm: "self_attn.q_norm.weight",
            k_norm: "self_attn.k_norm.weight",
            pre_ff_norm: "pre_feedforward_layernorm.weight",
            post_ff_norm: "post_feedforward_layernorm.weight",
        },
        WeightScheme::Exaone => SchemeNames {
            embed: "transformer.wte.weight",
            final_norm: "transformer.ln_f.weight",
            lm_head: "lm_head.weight",
            layer_stem: "transformer.h.",
            down: "mlp.c_proj.weight",
            gate: "mlp.c_fc_0.weight",
            up: "mlp.c_fc_1.weight",
            input_layernorm: "ln_1.weight",
            post_attention_layernorm: "ln_2.weight",
            k_proj: "attn.attention.k_proj.weight",
            o_proj: "attn.attention.out_proj.weight",
            q_proj: "attn.attention.q_proj.weight",
            v_proj: "attn.attention.v_proj.weight",
            k_bias: "attn.attention.k_proj.bias",
            q_bias: "attn.attention.q_proj.bias",
            v_bias: "attn.attention.v_proj.bias",
            q_norm: "attn.attention.q_norm.weight",
            k_norm: "attn.attention.k_norm.weight",
            pre_ff_norm: "pre_feedforward_layernorm.weight",
            post_ff_norm: "post_feedforward_layernorm.weight",
        },
        WeightScheme::Molmo2 => SchemeNames {
            embed: "model.wte.embedding",
            final_norm: "model.ln_f.weight",
            lm_head: "lm_head.weight",
            layer_stem: "model.blocks.",
            down: "mlp.ff_out.weight",
            gate: "mlp.ff_proj.weight",
            up: "mlp.ff_proj.weight",
            input_layernorm: "attn_norm.weight",
            post_attention_layernorm: "ff_norm.weight",
            k_proj: "self_attn.att_proj.weight",
            o_proj: "self_attn.attn_out.weight",
            q_proj: "self_attn.att_proj.weight",
            v_proj: "self_attn.att_proj.weight",
            k_bias: "self_attn.att_proj.bias",
            q_bias: "self_attn.att_proj.bias",
            v_bias: "self_attn.att_proj.bias",
            q_norm: "self_attn.q_norm.weight",
            k_norm: "self_attn.k_norm.weight",
            pre_ff_norm: "pre_feedforward_layernorm.weight",
            post_ff_norm: "post_feedforward_layernorm.weight",
        },
    }
}

/// The names of a layout.
pub fn scheme_names(scheme: WeightScheme) -> (r: SchemeNames)
    ensures
        r == names_of(scheme),
{
    match scheme {
        WeightScheme::Llama => SchemeNames {
            embed: "model.embed_tokens.weight",
            final_norm: "model.norm.weight",
            lm_head: "lm_head.weight",
            layer_stem: "model.layers.",
            down: "mlp.down_proj.weight",
            gate: "mlp.gate_proj.weight",
            up: "mlp.up_proj.weight",
            input_layernorm: "input_layernorm.weight",
            post_attention_layernorm: "post_attention_layernorm.weight",
            k_proj: "self_attn.k_proj.weight",
            o_proj: "self_attn.o_proj.weight",
            q_proj: "self_attn.q_proj.weight",
            v_proj: "self_attn.v_proj.weight",
            k_bias: "self_attn.k_proj.bias",
            q_bias: "self_attn.q_proj.bias",
            v_bias: "self_attn.v_proj.bias",
            q_norm: "self_attn.q_norm.weight",
            k_norm: "self_attn.k_norm.weight",
            pre_ff_norm: "pre_feedforward_layernorm.weight",
            post_ff_norm: "post_feedforward_layernorm.weight",
        },
        WeightScheme::Exaone => SchemeNames {
            embed: "transformer.wte.weight",
            final_norm: "transformer.ln_f.weight",
            lm_head: "lm_head.weight",
            layer_stem: "transformer.h.",
            down: "mlp.c_proj.weight",
            gate: "mlp.c_fc_0.weight",
            up: "mlp.c_fc_1.weight",
            input_layernorm: "ln_1.weight",
            post_attention_layernorm: "ln_2.weight",
            k_proj: "attn.attention.k_proj.weight",
            o_proj: "attn.attention.out_proj.weight",
            q_proj: "attn.attention.q_proj.weight",
            v_proj: "attn.attention.v_proj.weight",
            k_bias: "attn.attention.k_proj.bias",
            q_bias: "attn.attention.q_proj.bias",
            v_bias: "attn.attention.v_proj.bias",
            q_norm: "attn.attention.q_norm.weight",
            k_norm: "attn.attention.k_norm.weight",
            pre_ff_norm: "pre_feedforward_layernorm.weight",
            post_ff_norm: "post_feedforward_layernorm.weight",
        },
        WeightScheme::Molmo2 => SchemeNames {
            embed: "model.wte.embedding",
            final_norm: "model.ln_f.weight",
            lm_head: "lm_head.weight",
            layer_stem: "model.blocks.",
            down: "mlp.ff_out.weight",
            gate: "mlp.ff_proj.weight",
            up: "mlp.ff_proj.weight",
            input_layernorm: "attn_norm.weight",
            post_attention_layernorm: "ff_norm.weight",
            k_proj: "self_attn.att_proj.weight",
            o_proj: "self_attn.attn_out.weight",
            q_proj: "self_attn.att_proj.weight",
            v_proj: "self_attn.att_proj.weight",
            k_bias: "self_attn.att_proj.bias",
            q_bias: "self_attn.att_proj.bias",
            v_bias: "self_attn.att_proj.bias",
            q_norm: "self_attn.q_norm.weight",
            k_norm: "self_attn.k_norm.weight",
            pre_ff_norm: "pre_feedforward_layernorm.weight",
            post_ff_norm: "post_feedforward_layernorm.weight",
        },
    }
}

} // verus!
