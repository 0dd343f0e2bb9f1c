//! Reading [`Config`] from a model's `config.json`.
//!
//! Each part of the document has a specification of what it holds and of the
//! complaint it gives rise to; the parser reports the first complaint.
use vstd::prelude::*;

use crate::config::{
    deepstack_structure_error, first_error, Config, DeepStackConfig, MoeConfig, MropeConfig,
    MropeLayout, NormStyle, Phi4LoraConfig, QkNorm, QuantConfig, RopeScaling, Scalar,
    SharedExpertConfig, WeightScheme, DEFAULT_CONTEXT_CAPACITY,
};
use crate::config_laws::law_soft_caps_are_read_under_their_keys;
use crate::config_messages::{
    MSG_ACTIVATION_HEAD, MSG_COHERE_QK, MSG_DEEPSEEK, MSG_DEEPSTACK_ARRAY, MSG_DEEPSTACK_BUCKET,
    MSG_DEEPSTACK_ITEM, MSG_DEEPSTACK_PAIR, MSG_DOTS1, MSG_ERNIE, MSG_ERNIE_MOE, MSG_FAMILY_HEAD,
    MSG_FAMILY_TAIL, MSG_GLM4_MOE, MSG_GPT_OSS, MSG_LLAMA_BIAS, MSG_LONG_FACTOR,
    MSG_LONG_MAXIMUM, MSG_LONG_ORIGINAL, MSG_MINICPM3, MSG_MLP_BIAS, MSG_MROPE_ARRAY,
    MSG_MROPE_COUNT, MSG_MROPE_FAMILY, MSG_MROPE_OVERFLOW, MSG_MROPE_SECTION, MSG_NO_EPSILON,
    MSG_NO_LAYER_COUNT, MSG_NO_ORIGINAL_CONTEXT, MSG_OLMOE_CLIP, MSG_OUT_BIAS, MSG_PHIMOE,
    MSG_QWEN3_MOE, MSG_ROPE_HEAD, MSG_ROPE_TAIL, MSG_STABLELM_QK,
};
use crate::double::{
    below_one, is_below_one, is_positive_finite, positive_finite, scale_count, scaled_floor,
    ONE_BITS, QUARTER_BITS, SIXTEENTH_BITS,
};
use crate::json::{json_error_text, json_items, json_of_text, parse_json, Json, JsonView};
use crate::text::{
    debug_form, debug_option_form, debug_option_text, debug_text, dec, size_text, text_eq,
};

verus! {

/// `config.json` lacks an integer.
pub open spec fn missing_integer(key: Seq<char>) -> Seq<char> {
    "config.json missing integer `"@ + key + "`"@
}

/// Complaint about an integer member.
pub open spec fn size_error(v: JsonView, key: Seq<char>) -> Option<Seq<char>> {
    if v.get_size(key) is Some {
        None
    } else {
        Some(missing_integer(key))
    }
}

fn need_size(v: &Json, key: &str) -> (r: Result<usize, String>)
    ensures
        match r {
            Ok(n) => v@.get_size(key@) == Some(n) && size_error(v@, key@) is None,
            Err(message) => size_error(v@, key@) == Some(message@),
        },
{
    match v.get_size(key) {
        Some(n) => Ok(n),
        None => Err("config.json missing integer `".to_owned().concat(key).concat("`")),
    }
}

/// A member that is absent or null.
pub open spec fn absent(v: Option<JsonView>) -> bool {
    v is None || v == Some(JsonView::Null)
}

/// The architecture families that a `model_type` can name.
#[derive(Clone, Copy, Debug, PartialEq, Eq, Structural)]
pub enum Family {
    Llama,
    Minicpm,
    Qwen2,
    Qwen3,
    Gemma,
    Gemma2,
    Gemma3,
    Smollm3,
    Olmo2,
    Olmo3,
    OptionalBias,
    Exaone,
    Cohere,
    Cohere2,
    Phi3,
    Molmo2Text,
    Stablelm,
    Starcoder2,
    Granite,
    Minicpm3,
    Mixtral,
    Qwen2Moe,
    Qwen3Moe,
    Olmoe,
    Deepseek,
    Phimoe,
    Glm4Moe,
    Dots1,
    Ernie45,
    Ernie45Moe,
    GptOss,
    Unsupported,
}

/// The family that a `model_type` names; Molmo2's language model only inside a Molmo2
/// wrapper.
#[verifier::opaque]
pub open spec fn family_of(model_type: Option<Seq<char>>, molmo2: bool) -> Family {
    match model_type {
        None => Family::Unsupported,
        Some(t) => if t == "llama"@ {
            Family::Llama
        } else if t == "minicpm"@ {
            Family::Minicpm
        } else if t == "qwen2"@ || t == "qwen2_vl"@ {
            Family::Qwen2
        } else if t == "qwen3"@ {
            Family::Qwen3
        } else if t == "gemma"@ {
            Family::Gemma
        } else if t == "gemma2"@ {
            Family::Gemma2
        } else if t == "gemma3"@ || t == "gemma3_text"@ {
            Family::Gemma3
        } else if t == "smollm3"@ {
            Family::Smollm3
        } else if t == "olmo2"@ {
            Family::Olmo2
        } else if t == "olmo3"@ {
            Family::Olmo3
        } else if t == "seed_oss"@ || t == "mimo"@ || t == "internlm3"@ {
            Family::OptionalBias
        } else if t == "exaone"@ {
            Family::Exaone
        } else if t == "cohere"@ {
            Family::Cohere
        } else if t == "cohere2"@ {
            Family::Cohere2
        } else if t == "phi3"@ || t == "phi4mm"@ {
            Family::Phi3
        } else if t == "molmo2_text"@ && molmo2 {
            Family::Molmo2Text
        } else if t == "stablelm"@ {
            Family::Stablelm
        } else if t == "starcoder2"@ {
            Family::Starcoder2
        } else if t == "granite"@ {
            Family::Granite
        } else if t == "minicpm3"@ {
            Family::Minicpm3
        } else if t == "mixtral"@ {
            Family::Mixtral
        } else if t == "qwen2_moe"@ {
            Family::Qwen2Moe
        } else if t == "qwen3_moe"@ {
            Family::Qwen3Moe
        } else if t == "olmoe"@ {
            Family::Olmoe
        } else if t == "deepseek_v2"@ || t == "deepseek_v3"@ {
            Family::Deepseek
        } else if t == "phimoe"@ {
            Family::Phimoe
        } else if t == "glm4_moe"@ {
            Family::Glm4Moe
        } else if t == "dots1"@ {
            Family::Dots1
        } else if t == "ernie4_5"@ {
            Family::Ernie45
        } else if t == "ernie4_5_moe"@ {
            Family::Ernie45Moe
        } else if t == "gpt_oss"@ {
            Family::GptOss
        } else {
            Family::Unsupported
        },
    }
}

/// The text inside an optional reference.
pub open spec fn option_text(s: Option<&str>) -> Option<Seq<char>> {
    match s {
        Some(text) => Some(text@),
        None => None,
    }
}

fn read_family(model_type: Option<&str>, molmo2: bool) -> (r: Family)
    ensures
        r == family_of(option_text(model_type), molmo2),
{
    proof {
        reveal(family_of);
    }
    match model_type {
        None => Family::Unsupported,
        Some(t) => if text_eq(t, "llama") {
            Family::Llama
        } else if text_eq(t, "minicpm") {
            Family::Minicpm
        } else if text_eq(t, "qwen2") || text_eq(t, "qwen2_vl") {
            Family::Qwen2
        } else if text_eq(t, "qwen3") {
            Family::Qwen3
        } else if text_eq(t, "gemma") {
            Family::Gemma
        } else if text_eq(t, "gemma2") {
            Family::Gemma2
        } else if text_eq(t, "gemma3") || text_eq(t, "gemma3_text") {
            Family::Gemma3
        } else if text_eq(t, "smollm3") {
            Family::Smollm3
        } else if text_eq(t, "olmo2") {
            Family::Olmo2
        } else if text_eq(t, "olmo3") {
            Family::Olmo3
        } else if text_eq(t, "seed_oss") || text_eq(t, "mimo") || text_eq(t, "internlm3") {
            Family::OptionalBias
        } else if text_eq(t, "exaone") {
            Family::Exaone
        } else if text_eq(t, "cohere") {
            Family::Cohere
        } else if text_eq(t, "cohere2") {
            Family::Cohere2
        } else if text_eq(t, "phi3") || text_eq(t, "phi4mm") {
            Family::Phi3
        } else if text_eq(t, "molmo2_text") && molmo2 {
            Family::Molmo2Text
        } else if text_eq(t, "stablelm") {
            Family::Stablelm
        } else if text_eq(t, "starcoder2") {
            Family::Starcoder2
        } else if text_eq(t, "granite") {
            Family::Granite
        } else if text_eq(t, "minicpm3") {
            Family::Minicpm3
        } else if text_eq(t, "mixtral") {
            Family::Mixtral
        } else if text_eq(t, "qwen2_moe") {
            Family::Qwen2Moe
        } else if text_eq(t, "qwen3_moe") {
            Family::Qwen3Moe
        } else if text_eq(t, "olmoe") {
            Family::Olmoe
        } else if text_eq(t, "deepseek_v2") || text_eq(t, "deepseek_v3") {
            Family::Deepseek
        } else if text_eq(t, "phimoe") {
            Family::Phimoe
        } else if text_eq(t, "glm4_moe") {
            Family::Glm4Moe
        } else if text_eq(t, "dots1") {
            Family::Dots1
        } else if text_eq(t, "ernie4_5") {
            Family::Ernie45
        } else if text_eq(t, "ernie4_5_moe") {
            Family::Ernie45Moe
        } else if text_eq(t, "gpt_oss") {
            Family::GptOss
        } else {
            Family::Unsupported
        },
    }
}

/// The sizes that architecture variants are computed from.
#[derive(Clone, Copy, Debug, PartialEq, Eq)]
pub struct Dims {
    pub hidden: usize,
    pub n_layers: usize,
    pub head_dim: usize,
}

/// The architecture variants of a family.
#[derive(Clone, Copy, Debug, PartialEq, Eq)]
pub struct Arch {
    pub qkv_bias: bool,
    /// `tie_word_embeddings` where the document does not say.
    pub tie_default: bool,
    pub embed_scale: bool,
    pub norm_one_plus: bool,
    pub mlp_geglu: bool,
    pub norm_style: NormStyle,
    pub qk_norm: Option<QkNorm>,
    pub rope_local_base: Option<Scalar>,
    pub query_pre_attn_scalar: Option<Scalar>,
    pub attn_logit_softcap: Option<u64>,
    pub final_logit_softcap: Option<u64>,
    pub sliding_window: Option<usize>,
    pub sliding_pattern: usize,
    pub layernorm: bool,
    pub norm_bias: bool,
    pub parallel_block: bool,
    pub attn_o_bias: bool,
    pub mlp_bias: bool,
    pub dense_mlp: bool,
    pub rope_interleaved: bool,
    pub rotary_dim: Option<usize>,
    pub rope_on_sliding_only: bool,
    pub attention_multiplier: Option<u64>,
    pub embedding_multiplier: Option<u64>,
    pub residual_multiplier: Option<Scalar>,
    pub logit_mul: Option<Scalar>,
    pub logit_div: Option<Scalar>,
    pub fused_qkv: bool,
    pub fused_gate_up: bool,
}

/// The Llama baseline that families vary.
pub open spec fn base_arch() -> Arch {
    Arch {
        qkv_bias: false,
        tie_default: true,
        embed_scale: false,
        norm_one_plus: false,
        mlp_geglu: false,
        norm_style: NormStyle::Plain,
        qk_norm: None,
        rope_local_base: None,
        query_pre_attn_scalar: None,
        attn_logit_softcap: None,
        final_logit_softcap: None,
        sliding_window: None,
        sliding_pattern: 2,
        layernorm: false,
        norm_bias: false,
        parallel_block: false,
        attn_o_bias: false,
        mlp_bias: false,
        dense_mlp: false,
        rope_interleaved: false,
        rotary_dim: None,
        rope_on_sliding_only: false,
        attention_multiplier: None,
        embedding_multiplier: None,
        residual_multiplier: None,
        logit_mul: None,
        logit_div: None,
        fused_qkv: false,
        fused_gate_up: false,
    }
}

fn new_arch() -> (r: Arch)
    ensures
        r == base_arch(),
{
    Arch {
        qkv_bias: false,
        tie_default: true,
        embed_scale: false,
        norm_one_plus: false,
        mlp_geglu: false,
        norm_style: NormStyle::Plain,
        qk_norm: None,
        rope_local_base: None,
        query_pre_attn_scalar: None,
        attn_logit_softcap: None,
        final_logit_softcap: None,
        sliding_window: None,
        sliding_pattern: 2,
        layernorm: false,
        norm_bias: false,
        parallel_block: false,
        attn_o_bias: false,
        mlp_bias: false,
        dense_mlp: false,
        rope_interleaved: false,
        rotary_dim: None,
        rope_on_sliding_only: false,
        attention_multiplier: None,
        embedding_multiplier: None,
        residual_multiplier: None,
        logit_mul: None,
        logit_div: None,
        fused_qkv: false,
        fused_gate_up: false,
    }
}

/// A number member as a scalar.
pub open spec fn scalar_of(v: JsonView, key: Seq<char>) -> Option<Scalar> {
    match v.get_double(key) {
        Some(bits) => Some(Scalar::Double(bits)),
        None => None,
    }
}

/// A number member as a scalar, or a stated default.
pub open spec fn scalar_or(v: JsonView, key: Seq<char>, default: Scalar) -> Scalar {
    match v.get_double(key) {
        Some(bits) => Scalar::Double(bits),
        None => default,
    }
}

/// An integer member, or a stated default.
pub open spec fn size_or(v: JsonView, key: Seq<char>, default: usize) -> usize {
    match v.get_size(key) {
        Some(n) => n,
        None => default,
    }
}

/// A sliding period: at least 1.
pub open spec fn period_or(v: JsonView, default: usize) -> usize {
    let n = size_or(v, "sliding_window_pattern"@, default);
    if n == 0 {
        1
    } else {
        n
    }
}

/// The boolean member is there and true.
pub open spec fn is_true(v: JsonView, key: Seq<char>) -> bool {
    v.get_bool(key) == Some(true)
}

/// The rotated width of each head, where only a part rotates: the integer part of
/// `head_dim * partial_rotary_factor` for a factor below 1.
pub open spec fn partial_rotary(v: JsonView, head_dim: usize, default: u64) -> Option<usize> {
    let factor = match v.get_double("partial_rotary_factor"@) {
        Some(bits) => bits,
        None => default,
    };
    if is_below_one(factor) {
        Some(scaled_floor(head_dim, factor))
    } else {
        None
    }
}

fn read_partial_rotary(v: &Json, head_dim: usize, default: u64) -> (r: Option<usize>)
    ensures
        r == partial_rotary(v@, head_dim, default),
{
    let factor: u64 = match v.get_double("partial_rotary_factor") {
        Some(bits) => bits,
        None => default,
    };
    if below_one(factor) {
        Some(scale_count(head_dim, factor))
    } else {
        None
    }
}

fn read_scalar(v: &Json, key: &str) -> (r: Option<Scalar>)
    ensures
        r == scalar_of(v@, key@),
{
    match v.get_double(key) {
        Some(bits) => Some(Scalar::Double(bits)),
        None => None,
    }
}

fn read_scalar_or(v: &Json, key: &str, default: Scalar) -> (r: Scalar)
    ensures
        r == scalar_or(v@, key@, default),
{
    match v.get_double(key) {
        Some(bits) => Scalar::Double(bits),
        None => default,
    }
}

fn read_size_or(v: &Json, key: &str, default: usize) -> (r: usize)
    ensures
        r == size_or(v@, key@, default),
{
    match v.get_size(key) {
        Some(n) => n,
        None => default,
    }
}

fn read_period_or(v: &Json, default: usize) -> (r: usize)
    ensures
        r == period_or(v@, default),
{
    let n: usize = read_size_or(v, "sliding_window_pattern", default);
    if n == 0 {
        1
    } else {
        n
    }
}

fn read_true(v: &Json, key: &str) -> (r: bool)
    ensures
        r == is_true(v@, key@),
{
    match v.get_bool(key) {
        Some(b) => b,
        None => false,
    }
}

/// Per-head raw q/k norm.
pub open spec fn head_norm(one_plus: bool) -> Option<QkNorm> {
    Some(QkNorm { per_head: true, one_plus })
}

/// Flat raw q/k norm.
pub open spec fn flat_norm() -> Option<QkNorm> {
    Some(QkNorm { per_head: false, one_plus: false })
}

/// The variants that all Gemma generations share.
pub open spec fn gemma_arch() -> Arch {
    Arch { embed_scale: true, norm_one_plus: true, mlp_geglu: true, ..base_arch() }
}

/// The variants of Gemma2 that Gemma3 keeps: four norms, soft-caps, query scale, and a
/// sliding window.
pub open spec fn gemma2_arch(v: JsonView, d: Dims) -> Arch {
    Arch {
        norm_style: NormStyle::GemmaFf,
        sliding_window: Some(size_or(v, "sliding_window"@, 4096)),
        query_pre_attn_scalar: Some(
            scalar_or(v, "query_pre_attn_scalar"@, Scalar::Count(d.head_dim)),
        ),
        attn_logit_softcap: v.get_double("attn_logit_softcapping"@),
        final_logit_softcap: v.get_double("final_logit_softcapping"@),
        ..gemma_arch()
    }
}

/// The variants that both Cohere generations share.
pub open spec fn cohere_arch(v: JsonView) -> Arch {
    Arch {
        layernorm: true,
        parallel_block: true,
        rope_interleaved: true,
        qkv_bias: is_true(v, "attention_bias"@),
        attn_o_bias: is_true(v, "attention_bias"@),
        logit_mul: Some(scalar_or(v, "logit_scale"@, Scalar::Double(SIXTEENTH_BITS))),
        ..base_arch()
    }
}

/// The MiniCPM multipliers, which come with `scale_emb`, on top of an architecture.
pub open spec fn minicpm_arch(v: JsonView, d: Dims, base: Arch) -> Arch {
    match v.get_double("scale_emb"@) {
        None => base,
        Some(scale) => Arch {
            embedding_multiplier: Some(scale),
            residual_multiplier: match v.get_double("scale_depth"@) {
                Some(numerator) => Some(Scalar::OverSqrt { numerator, count: d.n_layers }),
                None => None,
            },
            logit_div: match v.get_double("dim_model_base"@) {
                Some(denominator) => Some(Scalar::CountOver { count: d.hidden, denominator }),
                None => None,
            },
            ..base
        },
    }
}

/// The architecture of a supported family.
#[verifier::opaque]
pub open spec fn arch_of(family: Family, v: JsonView, d: Dims) -> Arch {
    match family {
        Family::Llama => minicpm_arch(v, d, base_arch()),
        Family::Minicpm => minicpm_arch(v, d, Arch { tie_default: false, ..base_arch() }),
        Family::Qwen2 | Family::Qwen2Moe => Arch { qkv_bias: true, ..base_arch() },
        Family::Qwen3 | Family::Qwen3Moe => Arch { qk_norm: head_norm(false), ..base_arch() },
        Family::Gemma => gemma_arch(),
        Family::Gemma2 => gemma2_arch(v, d),
        Family::Gemma3 => Arch {
            qk_norm: head_norm(true),
            sliding_pattern: period_or(v, 6),
            rope_local_base: Some(
                scalar_or(v, "rope_local_base_freq"@, Scalar::Count(10000)),
            ),
            ..gemma2_arch(v, d)
        },
        Family::Olmo2 => Arch {
            norm_style: NormStyle::OlmoPost,
            qk_norm: flat_norm(),
            ..base_arch()
        },
        Family::Olmo3 => Arch {
            norm_style: NormStyle::OlmoPost,
            qk_norm: flat_norm(),
            sliding_window: v.get_size("sliding_window"@),
            sliding_pattern: if v.get_size("sliding_window"@) is Some {
                period_or(v, 4)
            } else {
                2
            },
            rope_local_base: scalar_of(v, "rope_local_base_freq"@),
            ..base_arch()
        },
        Family::OptionalBias => Arch {
            qkv_bias: is_true(v, "attention_bias"@) || is_true(v, "qkv_bias"@),
            ..base_arch()
        },
        Family::Cohere => cohere_arch(v),
        Family::Cohere2 => Arch {
            rope_on_sliding_only: true,
            sliding_window: Some(size_or(v, "sliding_window"@, 4096)),
            sliding_pattern: period_or(v, 4),
            ..cohere_arch(v)
        },
        Family::Phi3 => Arch {
            fused_qkv: true,
            fused_gate_up: true,
            tie_default: false,
            rotary_dim: partial_rotary(v, d.head_dim, ONE_BITS),
            ..base_arch()
        },
        Family::Molmo2Text => Arch {
            fused_qkv: true,
            fused_gate_up: true,
            tie_default: false,
            qk_norm: head_norm(false),
            ..base_arch()
        },
        Family::Stablelm => Arch {
            layernorm: true,
            norm_bias: true,
            tie_default: false,
            qkv_bias: is_true(v, "use_qkv_bias"@),
            rotary_dim: partial_rotary(v, d.head_dim, QUARTER_BITS),
            parallel_block: is_true(v, "use_parallel_residual"@),
            ..base_arch()
        },
        Family::Starcoder2 => {
            let bias = v.get_bool("use_bias"@) != Some(false);
            Arch {
                layernorm: true,
                norm_bias: true,
                dense_mlp: true,
                qkv_bias: bias,
                attn_o_bias: bias,
                mlp_bias: bias,
                ..base_arch()
            }
        },
        Family::Granite => Arch {
            qkv_bias: is_true(v, "attention_bias"@),
            attn_o_bias: is_true(v, "attention_bias"@),
            mlp_bias: is_true(v, "mlp_bias"@),
            attention_multiplier: v.get_double("attention_multiplier"@),
            embedding_multiplier: v.get_double("embedding_multiplier"@),
            residual_multiplier: scalar_of(v, "residual_multiplier"@),
            logit_div: scalar_of(v, "logits_scaling"@),
            ..base_arch()
        },
        Family::Olmoe => Arch { qk_norm: flat_norm(), ..base_arch() },
        _ => base_arch(),
    }
}

/// Why a family, or a variant that the document selects in it, is not supported.
#[verifier::opaque]
pub open spec fn family_error(
    family: Family,
    v: JsonView,
    model_type: Option<Seq<char>>,
) -> Option<Seq<char>> {
    match family {
        Family::Llama | Family::Minicpm => if is_true(v, "attention_bias"@) {
            Some(MSG_LLAMA_BIAS@)
        } else {
            None
        },
        Family::Cohere => if is_true(v, "use_qk_norm"@) {
            Some(MSG_COHERE_QK@)
        } else {
            None
        },
        Family::Stablelm => if is_true(v, "qk_layernorm"@) {
            Some(MSG_STABLELM_QK@)
        } else {
            None
        },
        Family::Olmoe => if v.get_double("clip_qkv"@) is Some {
            Some(MSG_OLMOE_CLIP@)
        } else {
            None
        },
        Family::Minicpm3 => Some(MSG_MINICPM3@),
        Family::Deepseek => Some(MSG_DEEPSEEK@),
        Family::Phimoe => Some(MSG_PHIMOE@),
        Family::Glm4Moe => Some(MSG_GLM4_MOE@),
        Family::Dots1 => Some(MSG_DOTS1@),
        Family::Ernie45Moe => Some(MSG_ERNIE_MOE@),
        Family::GptOss => Some(MSG_GPT_OSS@),
        Family::Unsupported | Family::Ernie45 => Some(
            MSG_FAMILY_HEAD@ + debug_option_form(model_type) + MSG_FAMILY_TAIL@,
        ),
        _ => None,
    }
}

fn check_family(family: Family, v: &Json, model_type: Option<&str>) -> (r: Result<(), String>)
    ensures
        crate::config::reports(r, family_error(family, v@, option_text(model_type))),
{
    proof {
        reveal(family_error);
    }
    match family {
        Family::Llama | Family::Minicpm => if read_true(v, "attention_bias") {
            Err(MSG_LLAMA_BIAS.to_owned())
        } else {
            Ok(())
        },
        Family::Cohere => if read_true(v, "use_qk_norm") {
            Err(MSG_COHERE_QK.to_owned())
        } else {
            Ok(())
        },
        Family::Stablelm => if read_true(v, "qk_layernorm") {
            Err(MSG_STABLELM_QK.to_owned())
        } else {
            Ok(())
        },
        Family::Olmoe => if v.get_double("clip_qkv").is_some() {
            Err(MSG_OLMOE_CLIP.to_owned())
        } else {
            Ok(())
        },
        Family::Minicpm3 => Err(MSG_MINICPM3.to_owned()),
        Family::Deepseek => Err(MSG_DEEPSEEK.to_owned()),
        Family::Phimoe => Err(MSG_PHIMOE.to_owned()),
        Family::Glm4Moe => Err(MSG_GLM4_MOE.to_owned()),
        Family::Dots1 => Err(MSG_DOTS1.to_owned()),
        Family::Ernie45Moe => Err(MSG_ERNIE_MOE.to_owned()),
        Family::GptOss => Err(MSG_GPT_OSS.to_owned()),
        Family::Unsupported | Family::Ernie45 => Err(
            MSG_FAMILY_HEAD.to_owned().concat(&debug_option_text(model_type)).concat(
                MSG_FAMILY_TAIL,
            ),
        ),
        _ => Ok(()),
    }
}

fn read_minicpm(v: &Json, d: Dims, base: Arch) -> (r: Arch)
    ensures
        r == minicpm_arch(v@, d, base),
{
    match v.get_double("scale_emb") {
        None => base,
        Some(scale) => {
            let mut a = base;
            a.embedding_multiplier = Some(scale);
            a.residual_multiplier = match v.get_double("scale_depth") {
                Some(numerator) => Some(Scalar::OverSqrt { numerator, count: d.n_layers }),
                None => None,
            };
            a.logit_div = match v.get_double("dim_model_base") {
                Some(denominator) => Some(Scalar::CountOver { count: d.hidden, denominator }),
                None => None,
            };
            a
        },
    }
}

fn read_arch(family: Family, v: &Json, d: Dims) -> (r: Arch)
    ensures
        r == arch_of(family, v@, d),
{
    proof {
        reveal(arch_of);
    }
    let mut a = new_arch();
    match family {
        Family::Llama => {
            a = read_minicpm(v, d, a);
        },
        Family::Minicpm => {
            a.tie_default = false;
            a = read_minicpm(v, d, a);
        },
        Family::Qwen2 | Family::Qwen2Moe => {
            a.qkv_bias = true;
        },
        Family::Qwen3 | Family::Qwen3Moe => {
            a.qk_norm = Some(QkNorm { per_head: true, one_plus: false });
        },
        Family::Gemma | Family::Gemma2 | Family::Gemma3 => {
            a.embed_scale = true;
            a.norm_one_plus = true;
            a.mlp_geglu = true;
            if family != Family::Gemma {
                a.norm_style = NormStyle::GemmaFf;
                a.sliding_window = Some(read_size_or(v, "sliding_window", 4096));
                a.query_pre_attn_scalar = Some(
                    read_scalar_or(v, "query_pre_attn_scalar", Scalar::Count(d.head_dim)),
                );
                a.attn_logit_softcap = v.get_double("attn_logit_softcapping");
                a.final_logit_softcap = v.get_double("final_logit_softcapping");
            }
            if family == Family::Gemma3 {
                a.qk_norm = Some(QkNorm { per_head: true, one_plus: true });
                a.sliding_pattern = read_period_or(v, 6);
                a.rope_local_base = Some(
                    read_scalar_or(v, "rope_local_base_freq", Scalar::Count(10000)),
                );
            }
        },
        Family::Olmo2 | Family::Olmo3 => {
            a.norm_style = NormStyle::OlmoPost;
            a.qk_norm = Some(QkNorm { per_head: false, one_plus: false });
            if family == Family::Olmo3 {
                a.sliding_window = v.get_size("sliding_window");
                if a.sliding_window.is_some() {
                    a.sliding_pattern = read_period_or(v, 4);
                }
                a.rope_local_base = read_scalar(v, "rope_local_base_freq");
            }
        },
        Family::OptionalBias => {
            a.qkv_bias = read_true(v, "attention_bias") || read_true(v, "qkv_bias");
        },
        Family::Cohere | Family::Cohere2 => {
            a.layernorm = true;
            a.parallel_block = true;
            a.rope_interleaved = true;
            let bias = read_true(v, "attention_bias");
            a.qkv_bias = bias;
            a.attn_o_bias = bias;
            a.logit_mul = Some(
                read_scalar_or(v, "logit_scale", Scalar::Double(SIXTEENTH_BITS)),
            );
            if family == Family::Cohere2 {
                a.rope_on_sliding_only = true;
                a.sliding_window = Some(read_size_or(v, "sliding_window", 4096));
                a.sliding_pattern = read_period_or(v, 4);
            }
        },
        Family::Phi3 => {
            a.fused_qkv = true;
            a.fused_gate_up = true;
            a.tie_default = false;
            a.rotary_dim = read_partial_rotary(v, d.head_dim, ONE_BITS);
        },
        Family::Molmo2Text => {
            a.fused_qkv = true;
            a.fused_gate_up = true;
            a.tie_default = false;
            a.qk_norm = Some(QkNorm { per_head: true, one_plus: false });
        },
        Family::Stablelm => {
            a.layernorm = true;
            a.norm_bias = true;
            a.tie_default = false;
            a.qkv_bias = read_true(v, "use_qkv_bias");
            a.rotary_dim = read_partial_rotary(v, d.head_dim, QUARTER_BITS);
            a.parallel_block = read_true(v, "use_parallel_residual");
        },
        Family::Starcoder2 => {
            a.layernorm = true;
            a.norm_bias = true;
            a.dense_mlp = true;
            let bias = match v.get_bool("use_bias") {
                Some(b) => b,
                None => true,
            };
            a.qkv_bias = bias;
            a.attn_o_bias = bias;
            a.mlp_bias = bias;
        },
        Family::Granite => {
            let bias = read_true(v, "attention_bias");
            a.qkv_bias = bias;
            a.attn_o_bias = bias;
            a.mlp_bias = read_true(v, "mlp_bias");
            a.attention_multiplier = v.get_double("attention_multiplier");
            a.embedding_multiplier = v.get_double("embedding_multiplier");
            a.residual_multiplier = read_scalar(v, "residual_multiplier");
            a.logit_div = read_scalar(v, "logits_scaling");
        },
        Family::Olmoe => {
            a.qk_norm = Some(QkNorm { per_head: false, one_plus: false });
        },
        _ => {},
    }
    a
}

/// The `model_type` of a document.
pub open spec fn model_type_of(v: JsonView) -> Option<Seq<char>> {
    v.get_text("model_type"@)
}

/// The document wraps a language model of its own.
pub open spec fn is_wrapper(root: JsonView) -> bool {
    let t = model_type_of(root);
    t == Some("llava"@) || t == Some("llava_next"@) || t == Some("molmo2"@)
}

/// Complaint about the wrapped language model.
pub open spec fn wrapper_error(root: JsonView) -> Option<Seq<char>> {
    if is_wrapper(root) && !(root.get("text_config"@) matches Some(JsonView::Object(_))) {
        Some(
            model_type_of(root).unwrap()
                + " config.json missing object `text_config` for the XLA text graph"@,
        )
    } else {
        None
    }
}

/// The part of the document that describes the language model.
pub open spec fn text_part(root: JsonView) -> JsonView {
    if is_wrapper(root) {
        root.get("text_config"@).unwrap()
    } else {
        root
    }
}

/// The quantization block: the language model's own, else the wrapper's.
pub open spec fn quant_part(root: JsonView) -> Option<JsonView> {
    match text_part(root).get("quantization"@) {
        Some(q) => Some(q),
        None => root.get("quantization"@),
    }
}

/// Complaint about a quantization block.
pub open spec fn quant_error(q: Option<JsonView>) -> Option<Seq<char>> {
    if absent(q) {
        None
    } else {
        first_error(quant_field_error(q.unwrap(), "bits"@), quant_field_error(
            q.unwrap(),
            "group_size"@,
        ))
    }
}

/// Complaint about one field of a quantization block.
pub open spec fn quant_field_error(q: JsonView, key: Seq<char>) -> Option<Seq<char>> {
    if q.get_size(key) is Some {
        None
    } else {
        Some("config.json quantization missing integer `"@ + key + "`"@)
    }
}

/// What a quantization block says.
pub open spec fn quant_of(q: Option<JsonView>) -> Option<QuantConfig> {
    if absent(q) {
        None
    } else {
        Some(
            QuantConfig {
                bits: q.unwrap().get_size("bits"@).unwrap(),
                group_size: q.unwrap().get_size("group_size"@).unwrap(),
            },
        )
    }
}

fn read_quant(q: Option<&Json>) -> (r: Result<Option<QuantConfig>, String>)
    ensures
        ({
            let qv = match q {
                Some(block) => Some(block@),
                None => None,
            };
            match r {
                Ok(quantization) => quant_error(qv) is None && quantization == quant_of(qv),
                Err(message) => quant_error(qv) == Some(message@),
            }
        }),
{
    match q {
        None => Ok(None),
        Some(block) => {
            if block.is_null() {
                return Ok(None);
            }
            match block.get_size("bits") {
                None => Err("config.json quantization missing integer `".to_owned().concat("bits").concat("`")),
                Some(bits) => match block.get_size("group_size") {
                    None => Err(
                        "config.json quantization missing integer `".to_owned().concat(
                            "group_size",
                        ).concat("`"),
                    ),
                    Some(group_size) => Ok(Some(QuantConfig { bits, group_size })),
                },
            }
        },
    }
}

/// The layer count, under either of its names.
pub open spec fn layer_count(v: JsonView) -> Option<usize> {
    match v.get_size("num_hidden_layers"@) {
        Some(n) => Some(n),
        None => v.get_size("num_layers"@),
    }
}

/// The width of a head: stated, else an equal share of the hidden width.
pub open spec fn head_dim_of(v: JsonView, hidden: usize, n_q: usize) -> usize {
    size_or(v, "head_dim"@, if n_q == 0 {
        hidden
    } else {
        hidden / n_q
    })
}

/// The norm epsilon under the first of its names that holds a number.
pub open spec fn epsilon_of(v: JsonView) -> Option<u64> {
    if v.get_double("rms_norm_eps"@) is Some {
        v.get_double("rms_norm_eps"@)
    } else if v.get_double("layer_norm_eps"@) is Some {
        v.get_double("layer_norm_eps"@)
    } else if v.get_double("layer_norm_epsilon"@) is Some {
        v.get_double("layer_norm_epsilon"@)
    } else {
        v.get_double("norm_epsilon"@)
    }
}

fn read_epsilon(v: &Json) -> (r: Option<u64>)
    ensures
        r == epsilon_of(v@),
{
    let rms = v.get_double("rms_norm_eps");
    if rms.is_some() {
        return rms;
    }
    let layer = v.get_double("layer_norm_eps");
    if layer.is_some() {
        return layer;
    }
    let epsilon = v.get_double("layer_norm_epsilon");
    if epsilon.is_some() {
        return epsilon;
    }
    v.get_double("norm_epsilon")
}

/// All values are unsigned integers.
pub open spec fn all_sizes(values: Seq<JsonView>) -> bool {
    forall|i: int| 0 <= i < values.len() ==> (#[trigger] values[i]).as_u64() is Some
}

/// The values as sizes.
pub open spec fn sizes_of(values: Seq<JsonView>) -> Seq<usize> {
    Seq::new(values.len(), |i: int| values[i].as_u64().unwrap() as usize)
}

/// Complaint about a DeepStack declaration.
#[verifier::opaque]
pub open spec fn deepstack_error(v: JsonView, n_layers: usize) -> Option<Seq<char>> {
    let layers = v.get("deepstack_language_layer_indices"@);
    let bucket = v.get("deepstack_max_visual_positions"@);
    if absent(layers) && absent(bucket) {
        None
    } else if absent(layers) || absent(bucket) {
        Some(MSG_DEEPSTACK_PAIR@)
    } else if layers.unwrap().as_array() is None {
        Some(MSG_DEEPSTACK_ARRAY@)
    } else if !all_sizes(layers.unwrap().as_array().unwrap()) {
        Some(MSG_DEEPSTACK_ITEM@)
    } else if bucket.unwrap().as_u64() is None {
        Some(MSG_DEEPSTACK_BUCKET@)
    } else {
        deepstack_structure_error(
            sizes_of(layers.unwrap().as_array().unwrap()),
            bucket.unwrap().as_u64().unwrap() as usize,
            n_layers,
        )
    }
}

/// The declaration that a document makes.
#[verifier::opaque]
pub open spec fn deepstack_is(v: JsonView, d: Option<DeepStackConfig>) -> bool {
    let layers = v.get("deepstack_language_layer_indices"@);
    let bucket = v.get("deepstack_max_visual_positions"@);
    match d {
        None => absent(layers) && absent(bucket),
        Some(config) => {
            &&& !absent(layers) && !absent(bucket)
            &&& config.target_layer_indices@ == sizes_of(layers.unwrap().as_array().unwrap())
            &&& config.max_visual_positions == bucket.unwrap().as_u64().unwrap() as usize
        },
    }
}

fn is_absent(v: Option<&Json>) -> (r: bool)
    ensures
        r == absent(
            match v {
                Some(j) => Some(j@),
                None => None,
            },
        ),
{
    match v {
        Some(j) => j.is_null(),
        None => true,
    }
}

fn read_sizes(values: &Vec<Json>) -> (r: Option<Vec<usize>>)
    ensures
        match r {
            Some(sizes) => all_sizes(json_items(values@)) && sizes@ == sizes_of(
                json_items(values@),
            ),
            None => !all_sizes(json_items(values@)),
        },
{
    let ghost views = json_items(values@);
    let mut sizes: Vec<usize> = Vec::new();
    let mut i: usize = 0;
    while i < values.len()
        invariant
            i <= values.len(),
            views == json_items(values@),
            sizes.len() == i,
            forall|j: int| 0 <= j < i ==> (#[trigger] views[j]).as_u64() is Some,
            forall|j: int|
                0 <= j < i ==> #[trigger] sizes@[j] == views[j].as_u64().unwrap() as usize,
        decreases values.len() - i,
    {
        match values[i].as_u64() {
            Some(n) => sizes.push(n as usize),
            None => {
                assert(views[i as int].as_u64() is None);
                return None;
            },
        }
        i += 1;
    }
    assert(sizes@ =~= sizes_of(views));
    Some(sizes)
}

fn read_deepstack(v: &Json, n_layers: usize) -> (r: Result<Option<DeepStackConfig>, String>)
    ensures
        match r {
            Ok(d) => deepstack_error(v@, n_layers) is None && deepstack_is(v@, d),
            Err(message) => deepstack_error(v@, n_layers) == Some(message@),
        },
{
    proof {
        reveal(deepstack_error);
        reveal(deepstack_is);
    }
    let layers = v.get("deepstack_language_layer_indices");
    let bucket = v.get("deepstack_max_visual_positions");
    if is_absent(layers) && is_absent(bucket) {
        return Ok(None);
    }
    if is_absent(layers) || is_absent(bucket) {
        return Err(MSG_DEEPSTACK_PAIR.to_owned());
    }
    match layers.unwrap().as_array() {
        None => Err(MSG_DEEPSTACK_ARRAY.to_owned()),
        Some(values) => match read_sizes(values) {
            None => Err(MSG_DEEPSTACK_ITEM.to_owned()),
            Some(target_layer_indices) => match bucket.unwrap().as_u64() {
                None => Err(MSG_DEEPSTACK_BUCKET.to_owned()),
                Some(positions) => {
                    let config = DeepStackConfig {
                        target_layer_indices,
                        max_visual_positions: positions as usize,
                    };
                    match config.validate_structure(n_layers) {
                        Ok(_) => Ok(Some(config)),
                        Err(message) => Err(message),
                    }
                },
            },
        },
    }
}

/// The NoPE mask of SmolLM3: one flag per listed layer, set unless the entry is 0.
pub open spec fn rope_flags(values: Seq<JsonView>) -> Seq<bool> {
    Seq::new(values.len(), |i: int| values[i].as_i64() != Some(0i64))
}

/// The rotating layers that a document selects: a mask only where it clears a layer.
#[verifier::opaque]
pub open spec fn rope_layers_are(family: Family, v: JsonView, mask: Option<Vec<bool>>) -> bool {
    let listed = v.get_array("no_rope_layers"@);
    let masks = family == Family::Smollm3 && listed is Some && rope_flags(
        listed.unwrap(),
    ).contains(false);
    match mask {
        Some(flags) => masks && flags@ == rope_flags(listed.unwrap()),
        None => !masks,
    }
}

fn read_rope_layers(family: Family, v: &Json) -> (r: Option<Vec<bool>>)
    ensures
        rope_layers_are(family, v@, r),
{
    proof {
        reveal(rope_layers_are);
    }
    if family != Family::Smollm3 {
        return None;
    }
    match v.get_array("no_rope_layers") {
        None => None,
        Some(values) => {
            let ghost wanted = rope_flags(json_items(values@));
            let mut flags: Vec<bool> = Vec::new();
            let mut clears = false;
            let mut i: usize = 0;
            while i < values.len()
                invariant
                    i <= values.len(),
                    wanted == rope_flags(json_items(values@)),
                    flags@ == wanted.subrange(0, i as int),
                    clears == flags@.contains(false),
                decreases values.len() - i,
            {
                let flag = match values[i].as_i64() {
                    Some(n) => n != 0,
                    None => true,
                };
                let ghost before = flags@;
                flags.push(flag);
                proof {
                    assert(json_items(values@)[i as int] == values@[i as int]@);
                    assert(flags@ =~= wanted.subrange(0, i + 1));
                    assert(flags@[i as int] == flag);
                    if before.contains(false) {
                        let k = choose|k: int| 0 <= k < before.len() && !before[k];
                        assert(!flags@[k]);
                    }
                    if flags@.contains(false) && flag {
                        let k = choose|k: int| 0 <= k < flags@.len() && !flags@[k];
                        assert(!before[k]);
                    }
                }
                clears = clears || !flag;
                i += 1;
            }
            assert(flags@ =~= wanted);
            if clears {
                Some(flags)
            } else {
                None
            }
        },
    }
}

/// The activation that a document names.
pub open spec fn activation_of(v: JsonView) -> Option<Seq<char>> {
    match v.get("hidden_act"@) {
        Some(a) => a.as_text(),
        None => v.get_text("activation_function"@),
    }
}

/// Complaint about a bias or an activation that the architecture has no form of.
#[verifier::opaque]
pub open spec fn variant_error(v: JsonView, a: Arch) -> Option<Seq<char>> {
    if is_true(v, "attention_out_bias"@) && !a.attn_o_bias {
        Some(MSG_OUT_BIAS@)
    } else if is_true(v, "mlp_bias"@) && !a.mlp_bias {
        Some(MSG_MLP_BIAS@)
    } else if !a.mlp_geglu && !a.dense_mlp && activation_of(v) is Some && activation_of(v)
        != Some("silu"@) {
        Some(
            MSG_ACTIVATION_HEAD@ + debug_form(activation_of(v).unwrap()) + " is unsupported"@,
        )
    } else {
        None
    }
}

fn check_variants(v: &Json, a: Arch) -> (r: Result<(), String>)
    ensures
        crate::config::reports(r, variant_error(v@, a)),
{
    proof {
        reveal(variant_error);
    }
    if read_true(v, "attention_out_bias") && !a.attn_o_bias {
        return Err(MSG_OUT_BIAS.to_owned());
    }
    if read_true(v, "mlp_bias") && !a.mlp_bias {
        return Err(MSG_MLP_BIAS.to_owned());
    }
    if !a.mlp_geglu && !a.dense_mlp {
        let named = match v.get("hidden_act") {
            Some(act) => act.as_text(),
            None => v.get_text("activation_function"),
        };
        if let Some(act) = named {
            if !text_eq(act, "silu") {
                return Err(
                    MSG_ACTIVATION_HEAD.to_owned().concat(&debug_text(act)).concat(
                        " is unsupported",
                    ),
                );
            }
        }
    }
    Ok(())
}

/// The RoPE type under either of its names.
pub open spec fn rope_type_of(scaling: JsonView) -> Option<Seq<char>> {
    match scaling.get("rope_type"@) {
        Some(t) => t.as_text(),
        None => scaling.get_text("type"@),
    }
}

/// The kinds of RoPE table that a scaling block can select.
#[derive(Clone, Copy, Debug, PartialEq, Eq, Structural)]
pub enum RopeKind {
    Plain,
    MissingSection,
    Llama3,
    LongRope,
    Other,
}

/// The kind that a scaling block selects. A block without a type but with M-RoPE
/// sections is plain.
pub open spec fn rope_kind(scaling: JsonView, phi4mm: bool) -> RopeKind {
    let t = rope_type_of(scaling);
    let sections = scaling.get("mrope_section"@) is Some;
    if t == Some("mrope"@) && !sections {
        RopeKind::MissingSection
    } else if t == Some("default"@) || t == Some("dynamic"@) || t == Some("mrope"@) || (t is None
        && sections) {
        RopeKind::Plain
    } else if t == Some("llama3"@) {
        RopeKind::Llama3
    } else if t == Some("longrope"@) && phi4mm {
        RopeKind::LongRope
    } else {
        RopeKind::Other
    }
}

fn read_rope_kind(scaling: &Json, phi4mm: bool) -> (r: (RopeKind, Option<&str>))
    ensures
        r.0 == rope_kind(scaling@, phi4mm),
        option_text(r.1) == rope_type_of(scaling@),
{
    let named = match scaling.get("rope_type") {
        Some(t) => t.as_text(),
        None => scaling.get_text("type"),
    };
    let sections = scaling.get("mrope_section").is_some();
    let kind = match named {
        None => if sections {
            RopeKind::Plain
        } else {
            RopeKind::Other
        },
        Some(t) => if text_eq(t, "mrope") && !sections {
            RopeKind::MissingSection
        } else if text_eq(t, "default") || text_eq(t, "dynamic") || text_eq(t, "mrope") {
            RopeKind::Plain
        } else if text_eq(t, "llama3") {
            RopeKind::Llama3
        } else if text_eq(t, "longrope") && phi4mm {
            RopeKind::LongRope
        } else {
            RopeKind::Other
        },
    };
    (kind, named)
}

/// Complaint about a number of a Llama3 block.
pub open spec fn scaling_number_error(scaling: JsonView, key: Seq<char>) -> Option<Seq<char>> {
    if scaling.get_double(key) is Some {
        None
    } else {
        Some("config.json rope_scaling missing number `"@ + key + "`"@)
    }
}

/// Complaint about a Llama3 block.
pub open spec fn llama3_error(scaling: JsonView) -> Option<Seq<char>> {
    first_error(
        if scaling.get_size("original_max_position_embeddings"@) is Some {
            None
        } else {
            Some(MSG_NO_ORIGINAL_CONTEXT@)
        },
        first_error(
            scaling_number_error(scaling, "factor"@),
            first_error(
                scaling_number_error(scaling, "low_freq_factor"@),
                scaling_number_error(scaling, "high_freq_factor"@),
            ),
        ),
    )
}

/// The first position at or behind `from` that holds no number.
pub open spec fn first_non_number(values: Seq<JsonView>, from: int) -> Option<int>
    decreases values.len() - from,
{
    if from < 0 || from >= values.len() {
        None
    } else if values[from].as_double() is None {
        Some(from)
    } else {
        first_non_number(values, from + 1)
    }
}

/// The numbers of a list, as bits of doubles.
pub open spec fn doubles_of(values: Seq<JsonView>) -> Seq<u64> {
    Seq::new(values.len(), |i: int| values[i].as_double().unwrap())
}

/// All are finite and above 0.
pub open spec fn all_positive_finite(s: Seq<u64>) -> bool {
    forall|i: int| 0 <= i < s.len() ==> is_positive_finite(#[trigger] s[i])
}

/// Complaint about a LongRoPE block, where `width` dimensions of each head rotate.
pub open spec fn longrope_error(v: JsonView, scaling: JsonView, width: usize) -> Option<
    Seq<char>,
> {
    let listed = scaling.get_array("long_factor"@);
    let original = v.get_size("original_max_position_embeddings"@);
    let maximum = v.get_size("max_position_embeddings"@);
    if listed is None {
        Some(MSG_LONG_FACTOR@)
    } else if first_non_number(listed.unwrap(), 0) is Some {
        Some(
            "Phi4MM rope_scaling.long_factor["@ + dec(
                first_non_number(listed.unwrap(), 0).unwrap() as nat,
            ) + "] must be finite"@,
        )
    } else if listed.unwrap().len() != width / 2 || !all_positive_finite(
        doubles_of(listed.unwrap()),
    ) {
        Some(
            "Phi4MM LongRoPE requires "@ + dec((width / 2) as nat)
                + " positive finite factors, got "@ + dec(listed.unwrap().len()),
        )
    } else if original is None {
        Some(MSG_LONG_ORIGINAL@)
    } else if maximum is None {
        Some(MSG_LONG_MAXIMUM@)
    } else if original.unwrap() <= 1 || maximum.unwrap() < original.unwrap() {
        Some(
            "invalid Phi4MM LongRoPE context bounds: original="@ + dec(original.unwrap() as nat)
                + ", maximum="@ + dec(maximum.unwrap() as nat),
        )
    } else {
        None
    }
}

/// Complaint about the scaling block.
#[verifier::opaque]
pub open spec fn rope_error(v: JsonView, phi4mm: bool, width: usize) -> Option<Seq<char>> {
    let block = v.get("rope_scaling"@);
    if absent(block) {
        None
    } else {
        let scaling = block.unwrap();
        match rope_kind(scaling, phi4mm) {
            RopeKind::Plain => None,
            RopeKind::MissingSection => Some(MSG_MROPE_SECTION@),
            RopeKind::Llama3 => llama3_error(scaling),
            RopeKind::LongRope => longrope_error(v, scaling, width),
            RopeKind::Other => Some(
                MSG_ROPE_HEAD@ + debug_option_form(rope_type_of(scaling)) + MSG_ROPE_TAIL@,
            ),
        }
    }
}

/// The RoPE table that a document selects.
#[verifier::opaque]
pub open spec fn rope_is(v: JsonView, phi4mm: bool, rope: RopeScaling) -> bool {
    let block = v.get("rope_scaling"@);
    let scaling = block.unwrap();
    if absent(block) || rope_kind(scaling, phi4mm) == RopeKind::Plain {
        rope is Plain
    } else {
        match rope {
            RopeScaling::Plain => false,
            RopeScaling::Llama3 { factor, low_freq_factor, high_freq_factor, orig_ctx } => {
                &&& rope_kind(scaling, phi4mm) == RopeKind::Llama3
                &&& scaling.get_double("factor"@) == Some(factor)
                &&& scaling.get_double("low_freq_factor"@) == Some(low_freq_factor)
                &&& scaling.get_double("high_freq_factor"@) == Some(high_freq_factor)
                &&& scaling.get_size("original_max_position_embeddings"@) == Some(orig_ctx)
            },
            RopeScaling::LongRope { factors, amplitude } => {
                &&& rope_kind(scaling, phi4mm) == RopeKind::LongRope
                &&& factors@ == doubles_of(scaling.get_array("long_factor"@).unwrap())
                &&& amplitude == Scalar::LongRopeAmplitude {
                    original: v.get_size("original_max_position_embeddings"@).unwrap(),
                    maximum: v.get_size("max_position_embeddings"@).unwrap(),
                }
            },
        }
    }
}

fn read_llama3(scaling: &Json) -> (r: Result<RopeScaling, String>)
    ensures
        match r {
            Ok(rope) => {
                &&& llama3_error(scaling@) is None
                &&& rope matches RopeScaling::Llama3 {
                    factor,
                    low_freq_factor,
                    high_freq_factor,
                    orig_ctx,
                }
                &&& scaling@.get_double("factor"@) == Some(factor)
                &&& scaling@.get_double("low_freq_factor"@) == Some(low_freq_factor)
                &&& scaling@.get_double("high_freq_factor"@) == Some(high_freq_factor)
                &&& scaling@.get_size("original_max_position_embeddings"@) == Some(orig_ctx)
            },
            Err(message) => llama3_error(scaling@) == Some(message@),
        },
{
    let orig_ctx = match scaling.get_size("original_max_position_embeddings") {
        Some(n) => n,
        None => return Err(MSG_NO_ORIGINAL_CONTEXT.to_owned()),
    };
    let factor = match read_scaling_number(scaling, "factor") {
        Ok(bits) => bits,
        Err(message) => return Err(message),
    };
    let low_freq_factor = match read_scaling_number(scaling, "low_freq_factor") {
        Ok(bits) => bits,
        Err(message) => return Err(message),
    };
    let high_freq_factor = match read_scaling_number(scaling, "high_freq_factor") {
        Ok(bits) => bits,
        Err(message) => return Err(message),
    };
    Ok(RopeScaling::Llama3 { factor, low_freq_factor, high_freq_factor, orig_ctx })
}

fn read_scaling_number(scaling: &Json, key: &str) -> (r: Result<u64, String>)
    ensures
        match r {
            Ok(bits) => scaling@.get_double(key@) == Some(bits) && scaling_number_error(
                scaling@,
                key@,
            ) is None,
            Err(message) => scaling_number_error(scaling@, key@) == Some(message@),
        },
{
    match scaling.get_double(key) {
        Some(bits) => Ok(bits),
        None => Err("config.json rope_scaling missing number `".to_owned().concat(key).concat("`")),
    }
}

fn read_doubles(values: &Vec<Json>) -> (r: Result<Vec<u64>, usize>)
    ensures
        match r {
            Ok(doubles) => first_non_number(json_items(values@), 0) is None && doubles@
                == doubles_of(json_items(values@)),
            Err(index) => first_non_number(json_items(values@), 0) == Some(index as int),
        },
{
    let ghost views = json_items(values@);
    let mut doubles: Vec<u64> = Vec::new();
    let mut i: usize = 0;
    while i < values.len()
        invariant
            i <= values.len(),
            views == json_items(values@),
            doubles.len() == i,
            first_non_number(views, 0) == first_non_number(views, i as int),
            forall|j: int| 0 <= j < i ==> #[trigger] doubles@[j] == views[j].as_double().unwrap(),
        decreases values.len() - i,
    {
        assert(views[i as int] == values@[i as int]@);
        match values[i].as_double() {
            Some(bits) => doubles.push(bits),
            None => return Err(i),
        }
        i += 1;
    }
    assert(doubles@ =~= doubles_of(views));
    Ok(doubles)
}

fn check_positive_finite(s: &Vec<u64>) -> (r: bool)
    ensures
        r == all_positive_finite(s@),
{
    let mut i: usize = 0;
    while i < s.len()
        invariant
            i <= s.len(),
            forall|j: int| 0 <= j < i ==> is_positive_finite(#[trigger] s@[j]),
        decreases s.len() - i,
    {
        if !positive_finite(s[i]) {
            return false;
        }
        i += 1;
    }
    true
}

fn read_longrope(v: &Json, scaling: &Json, width: usize) -> (r: Result<RopeScaling, String>)
    ensures
        match r {
            Ok(rope) => {
                &&& longrope_error(v@, scaling@, width) is None
                &&& rope matches RopeScaling::LongRope { factors, amplitude }
                &&& factors@ == doubles_of(scaling@.get_array("long_factor"@).unwrap())
                &&& amplitude == Scalar::LongRopeAmplitude {
                    original: v@.get_size("original_max_position_embeddings"@).unwrap(),
                    maximum: v@.get_size("max_position_embeddings"@).unwrap(),
                }
            },
            Err(message) => longrope_error(v@, scaling@, width) == Some(message@),
        },
{
    let values = match scaling.get_array("long_factor") {
        Some(values) => values,
        None => return Err(MSG_LONG_FACTOR.to_owned()),
    };
    let factors = match read_doubles(values) {
        Ok(factors) => factors,
        Err(index) => return Err(
            "Phi4MM rope_scaling.long_factor[".to_owned().concat(&size_text(index)).concat(
                "] must be finite",
            ),
        ),
    };
    if factors.len() != width / 2 || !check_positive_finite(&factors) {
        return Err(
            "Phi4MM LongRoPE requires ".to_owned().concat(&size_text(width / 2)).concat(
                " positive finite factors, got ",
            ).concat(&size_text(factors.len())),
        );
    }
    let original = match v.get_size("original_max_position_embeddings") {
        Some(n) => n,
        None => return Err(MSG_LONG_ORIGINAL.to_owned()),
    };
    let maximum = match v.get_size("max_position_embeddings") {
        Some(n) => n,
        None => return Err(MSG_LONG_MAXIMUM.to_owned()),
    };
    if original <= 1 || maximum < original {
        return Err(
            "invalid Phi4MM LongRoPE context bounds: original=".to_owned().concat(
                &size_text(original),
            ).concat(", maximum=").concat(&size_text(maximum)),
        );
    }
    Ok(RopeScaling::LongRope { factors, amplitude: Scalar::LongRopeAmplitude { original, maximum } })
}

fn read_rope(v: &Json, phi4mm: bool, width: usize) -> (r: Result<RopeScaling, String>)
    ensures
        match r {
            Ok(rope) => rope_error(v@, phi4mm, width) is None && rope_is(v@, phi4mm, rope),
            Err(message) => rope_error(v@, phi4mm, width) == Some(message@),
        },
{
    proof {
        reveal(rope_error);
        reveal(rope_is);
    }
    let block = v.get("rope_scaling");
    if is_absent(block) {
        return Ok(RopeScaling::Plain);
    }
    let scaling = block.unwrap();
    let (kind, named) = read_rope_kind(scaling, phi4mm);
    match kind {
        RopeKind::Plain => Ok(RopeScaling::Plain),
        RopeKind::MissingSection => Err(MSG_MROPE_SECTION.to_owned()),
        RopeKind::Llama3 => read_llama3(scaling),
        RopeKind::LongRope => read_longrope(v, scaling, width),
        RopeKind::Other => Err(
            MSG_ROPE_HEAD.to_owned().concat(&debug_option_text(named)).concat(MSG_ROPE_TAIL),
        ),
    }
}

/// The M-RoPE section list of a document.
pub open spec fn section_part(v: JsonView) -> Option<JsonView> {
    match v.get("rope_scaling"@) {
        Some(scaling) => scaling.get("mrope_section"@),
        None => None,
    }
}

/// Complaint about one axis of a section list.
pub open spec fn axis_error(values: Seq<JsonView>, axis: int) -> Option<Seq<char>> {
    let head = "config.json rope_scaling.mrope_section["@ + dec(axis as nat);
    match values[axis].as_u64() {
        None => Some(head + "] must be a positive integer"@),
        Some(width) => if width > usize::MAX {
            Some(head + "] does not fit usize"@)
        } else if width == 0 {
            Some(head + "] must be positive"@)
        } else {
            None
        },
    }
}

/// The three section widths.
pub open spec fn sections_of(values: Seq<JsonView>) -> Seq<usize> {
    seq![
        values[0].as_u64().unwrap() as usize,
        values[1].as_u64().unwrap() as usize,
        values[2].as_u64().unwrap() as usize,
    ]
}

/// The Qwen language backbones, which alone take M-RoPE sections.
pub open spec fn takes_sections(model_type: Option<Seq<char>>) -> bool {
    model_type == Some("qwen2"@) || model_type == Some("qwen2_vl"@) || model_type == Some(
        "qwen3"@,
    )
}

/// Complaint about section widths, where `width` dimensions of each head rotate.
pub open spec fn section_width_error(
    s: Seq<usize>,
    width: usize,
    model_type: Option<Seq<char>>,
) -> Option<Seq<char>> {
    let sum = s[0] + s[1] + s[2];
    if width == 0 || width % 2 != 0 {
        Some(
            "M-RoPE rotary width "@ + dec(width as nat) + " must be a positive even value"@,
        )
    } else if sum > usize::MAX {
        Some(MSG_MROPE_OVERFLOW@)
    } else if sum != width / 2 {
        Some(
            "M-RoPE T/H/W sections ["@ + dec(s[0] as nat) + ", "@ + dec(s[1] as nat) + ", "@ + dec(
                s[2] as nat,
            ) + "] sum to "@ + dec(sum as nat) + ", expected rotary_width/2 = "@ + dec(
                (width / 2) as nat,
            ),
        )
    } else if !takes_sections(model_type) {
        Some(MSG_MROPE_FAMILY@ + debug_option_form(model_type))
    } else {
        None
    }
}

/// Complaint about the M-RoPE sections.
#[verifier::opaque]
pub open spec fn mrope_error(
    v: JsonView,
    width: usize,
    model_type: Option<Seq<char>>,
) -> Option<Seq<char>> {
    match section_part(v) {
        None => None,
        Some(section) => match section.as_array() {
            None => Some(MSG_MROPE_ARRAY@),
            Some(values) => if values.len() != 3 {
                Some(MSG_MROPE_COUNT@ + dec(values.len()))
            } else {
                first_error(
                    axis_error(values, 0),
                    first_error(
                        axis_error(values, 1),
                        first_error(
                            axis_error(values, 2),
                            section_width_error(sections_of(values), width, model_type),
                        ),
                    ),
                )
            },
        },
    }
}

/// The M-RoPE configuration of a document.
#[verifier::opaque]
pub open spec fn mrope_is(
    v: JsonView,
    model_type: Option<Seq<char>>,
    mrope: Option<MropeConfig>,
) -> bool {
    match mrope {
        None => section_part(v) is None,
        Some(config) => {
            let stated = v.get("rope_scaling"@).unwrap().get_bool("mrope_interleaved"@);
            let interleaved = match stated {
                Some(b) => b,
                None => model_type == Some("qwen3"@),
            };
            &&& section_part(v) is Some
            &&& config.sections@ == sections_of(section_part(v).unwrap().as_array().unwrap())
            &&& config.layout == (if interleaved {
                MropeLayout::Interleaved
            } else {
                MropeLayout::Chunked
            })
        },
    }
}

fn read_axis(values: &Vec<Json>, axis: usize) -> (r: Result<usize, String>)
    requires
        axis < values.len(),
    ensures
        match r {
            Ok(width) => axis_error(json_items(values@), axis as int) is None && json_items(
                values@,
            )[axis as int].as_u64() == Some(width as u64),
            Err(message) => axis_error(json_items(values@), axis as int) == Some(message@),
        },
{
    assert(json_items(values@)[axis as int] == values@[axis as int]@);
    let head = "config.json rope_scaling.mrope_section[".to_owned().concat(&size_text(axis));
    match values[axis].as_u64() {
        None => Err(head.concat("] must be a positive integer")),
        Some(width) => if width > usize::MAX as u64 {
            Err(head.concat("] does not fit usize"))
        } else if width == 0 {
            Err(head.concat("] must be positive"))
        } else {
            Ok(width as usize)
        },
    }
}

fn is_text(s: Option<&str>, wanted: &str) -> (r: bool)
    ensures
        r == (option_text(s) == Some(wanted@)),
{
    match s {
        Some(text) => text_eq(text, wanted),
        None => false,
    }
}

fn check_section_widths(
    t: usize,
    h: usize,
    w: usize,
    width: usize,
    model_type: Option<&str>,
) -> (r: Result<(), String>)
    ensures
        crate::config::reports(
            r,
            section_width_error(seq![t, h, w], width, option_text(model_type)),
        ),
{
    if width == 0 || width % 2 != 0 {
        return Err(
            "M-RoPE rotary width ".to_owned().concat(&size_text(width)).concat(
                " must be a positive even value",
            ),
        );
    }
    let sum: usize = match t.checked_add(h) {
        None => return Err(MSG_MROPE_OVERFLOW.to_owned()),
        Some(partial) => match partial.checked_add(w) {
            None => return Err(MSG_MROPE_OVERFLOW.to_owned()),
            Some(sum) => sum,
        },
    };
    if sum != width / 2 {
        return Err(
            "M-RoPE T/H/W sections [".to_owned().concat(&size_text(t)).concat(", ").concat(
                &size_text(h),
            ).concat(", ").concat(&size_text(w)).concat("] sum to ").concat(
                &size_text(sum),
            ).concat(", expected rotary_width/2 = ").concat(&size_text(width / 2)),
        );
    }
    if !(is_text(model_type, "qwen2") || is_text(model_type, "qwen2_vl") || is_text(
        model_type,
        "qwen3",
    )) {
        return Err(MSG_MROPE_FAMILY.to_owned().concat(&debug_option_text(model_type)));
    }
    Ok(())
}

fn read_mrope(v: &Json, width: usize, model_type: Option<&str>) -> (r: Result<
    Option<MropeConfig>,
    String,
>)
    ensures
        match r {
            Ok(mrope) => mrope_error(v@, width, option_text(model_type)) is None && mrope_is(
                v@,
                option_text(model_type),
                mrope,
            ),
            Err(message) => mrope_error(v@, width, option_text(model_type)) == Some(message@),
        },
{
    proof {
        reveal(mrope_error);
        reveal(mrope_is);
    }
    let scaling = match v.get("rope_scaling") {
        None => return Ok(None),
        Some(scaling) => scaling,
    };
    let section = match scaling.get("mrope_section") {
        None => return Ok(None),
        Some(section) => section,
    };
    let values = match section.as_array() {
        None => return Err(MSG_MROPE_ARRAY.to_owned()),
        Some(values) => values,
    };
    if values.len() != 3 {
        return Err(MSG_MROPE_COUNT.to_owned().concat(&size_text(values.len())));
    }
    let t = match read_axis(values, 0) {
        Ok(n) => n,
        Err(message) => return Err(message),
    };
    let h = match read_axis(values, 1) {
        Ok(n) => n,
        Err(message) => return Err(message),
    };
    let w = match read_axis(values, 2) {
        Ok(n) => n,
        Err(message) => return Err(message),
    };
    assert(sections_of(json_items(values@)) =~= seq![t, h, w]);
    match check_section_widths(t, h, w, width, model_type) {
        Ok(_) => {},
        Err(message) => return Err(message),
    }
    let interleaved = match scaling.get_bool("mrope_interleaved") {
        Some(b) => b,
        None => is_text(model_type, "qwen3"),
    };
    let layout = if interleaved {
        MropeLayout::Interleaved
    } else {
        MropeLayout::Chunked
    };
    let sections: [usize; 3] = [t, h, w];
    assert(sections@ =~= seq![t, h, w]);
    Ok(Some(MropeConfig { sections, layout }))
}

/// The family routes its MLP over experts.
pub open spec fn routes_experts(family: Family) -> bool {
    family == Family::Mixtral || family == Family::Qwen2Moe || family == Family::Qwen3Moe
        || family == Family::Olmoe
}

/// The name under which a family states its expert count.
pub open spec fn expert_count_key(family: Family) -> Seq<char> {
    if family == Family::Mixtral {
        "num_local_experts"@
    } else {
        "num_experts"@
    }
}

/// The name under which a family states the width of an expert.
pub open spec fn expert_width_key(family: Family) -> Seq<char> {
    if family == Family::Mixtral || family == Family::Olmoe {
        "intermediate_size"@
    } else {
        "moe_intermediate_size"@
    }
}

/// Not every layer of the model is a mixture of experts.
pub open spec fn mixes_dense_layers(v: JsonView) -> bool {
    ||| size_or(v, "decoder_sparse_step"@, 1) != 1
    ||| v.get_array("mlp_only_layers"@) matches Some(layers) && layers.len() > 0
}

/// Complaint about the expert parameters.
#[verifier::opaque]
pub open spec fn moe_error(family: Family, v: JsonView) -> Option<Seq<char>> {
    if !routes_experts(family) {
        None
    } else if family == Family::Qwen3Moe && mixes_dense_layers(v) {
        Some(MSG_QWEN3_MOE@)
    } else {
        first_error(
            size_error(v, expert_count_key(family)),
            first_error(
                size_error(v, "num_experts_per_tok"@),
                first_error(
                    size_error(v, expert_width_key(family)),
                    if family == Family::Qwen2Moe {
                        size_error(v, "shared_expert_intermediate_size"@)
                    } else {
                        None
                    },
                ),
            ),
        )
    }
}

/// The expert parameters of a document. Mixtral always renormalizes the selected
/// probabilities; Qwen2-MoE alone has a shared expert, which is gated.
#[verifier::opaque]
pub open spec fn moe_is(family: Family, v: JsonView, moe: Option<MoeConfig>) -> bool {
    match moe {
        None => !routes_experts(family),
        Some(m) => {
            &&& routes_experts(family)
            &&& v.get_size(expert_count_key(family)) == Some(m.n_experts)
            &&& v.get_size("num_experts_per_tok"@) == Some(m.top_k)
            &&& v.get_size(expert_width_key(family)) == Some(m.intermediate)
            &&& m.norm_topk_prob == (family == Family::Mixtral || is_true(v, "norm_topk_prob"@))
            &&& m.routed_scaling_factor == ONE_BITS
            &&& m.first_k_dense == 0
            &&& m.weight_prefix@ == (if family == Family::Mixtral {
                "block_sparse_moe"@
            } else {
                "mlp"@
            })
            &&& match m.shared {
                None => family != Family::Qwen2Moe,
                Some(shared) => family == Family::Qwen2Moe && shared.gated && v.get_size(
                    "shared_expert_intermediate_size"@,
                ) == Some(shared.intermediate),
            }
        },
    }
}

fn read_moe(family: Family, v: &Json) -> (r: Result<Option<MoeConfig>, String>)
    ensures
        match r {
            Ok(moe) => moe_error(family, v@) is None && moe_is(family, v@, moe),
            Err(message) => moe_error(family, v@) == Some(message@),
        },
{
    proof {
        reveal(moe_error);
        reveal(moe_is);
    }
    let mixtral = family == Family::Mixtral;
    if !(mixtral || family == Family::Qwen2Moe || family == Family::Qwen3Moe || family
        == Family::Olmoe) {
        return Ok(None);
    }
    if family == Family::Qwen3Moe {
        let step: usize = read_size_or(v, "decoder_sparse_step", 1);
        let mlp_only = match v.get_array("mlp_only_layers") {
            Some(layers) => layers.len() > 0,
            None => false,
        };
        if step != 1 || mlp_only {
            return Err(MSG_QWEN3_MOE.to_owned());
        }
    }
    let count_key = if mixtral {
        "num_local_experts"
    } else {
        "num_experts"
    };
    let width_key = if mixtral || family == Family::Olmoe {
        "intermediate_size"
    } else {
        "moe_intermediate_size"
    };
    let n_experts = match need_size(v, count_key) {
        Ok(n) => n,
        Err(message) => return Err(message),
    };
    let top_k = match need_size(v, "num_experts_per_tok") {
        Ok(n) => n,
        Err(message) => return Err(message),
    };
    let intermediate = match need_size(v, width_key) {
        Ok(n) => n,
        Err(message) => return Err(message),
    };
    let shared = if family == Family::Qwen2Moe {
        match need_size(v, "shared_expert_intermediate_size") {
            Ok(width) => Some(SharedExpertConfig { intermediate: width, gated: true }),
            Err(message) => return Err(message),
        }
    } else {
        None
    };
    let weight_prefix: &'static str = if mixtral {
        "block_sparse_moe"
    } else {
        "mlp"
    };
    Ok(
        Some(
            MoeConfig {
                n_experts,
                top_k,
                intermediate,
                norm_topk_prob: mixtral || read_true(v, "norm_topk_prob"),
                routed_scaling_factor: ONE_BITS,
                shared,
                first_k_dense: 0,
                weight_prefix,
            },
        ),
    )
}

/// The rank of an adapter.
pub open spec fn lora_rank(lora: JsonView) -> Option<u64> {
    match lora.get_u64("r"@) {
        Some(n) => if 0 < n <= usize::MAX {
            Some(n)
        } else {
            None
        },
        None => None,
    }
}

/// The numerator of an adapter's scale.
pub open spec fn lora_alpha(lora: JsonView) -> Option<u64> {
    match lora.get_double("lora_alpha"@) {
        Some(bits) => if is_positive_finite(bits) {
            Some(bits)
        } else {
            None
        },
        None => None,
    }
}

/// Complaint about an adapter.
pub open spec fn lora_error(v: JsonView, name: Seq<char>) -> Option<Seq<char>> {
    if !(v.get(name) matches Some(JsonView::Object(_))) {
        Some("Phi4MM config missing object `"@ + name + "`"@)
    } else if lora_rank(v.get(name).unwrap()) is None {
        Some("Phi4MM `"@ + name + ".r` must be positive"@)
    } else if lora_alpha(v.get(name).unwrap()) is None {
        Some("Phi4MM `"@ + name + ".lora_alpha` must be positive and finite"@)
    } else {
        None
    }
}

/// An adapter's rank and its scale `lora_alpha / r`.
pub open spec fn lora_of(v: JsonView, name: Seq<char>) -> (usize, Scalar) {
    let lora = v.get(name).unwrap();
    let rank = lora_rank(lora).unwrap() as usize;
    (rank, Scalar::OverCount { numerator: lora_alpha(lora).unwrap(), count: rank })
}

/// The adapters of a Phi4MM document.
#[verifier::opaque]
pub open spec fn phi4_lora_of(v: JsonView, phi4mm: bool) -> Option<Phi4LoraConfig> {
    if phi4mm {
        let (speech_rank, speech_scale) = lora_of(v, "speech_lora"@);
        let (vision_rank, vision_scale) = lora_of(v, "vision_lora"@);
        Some(Phi4LoraConfig { speech_rank, speech_scale, vision_rank, vision_scale })
    } else {
        None
    }
}

/// Complaint about the adapters.
#[verifier::opaque]
pub open spec fn phi4_lora_error(v: JsonView, phi4mm: bool) -> Option<Seq<char>> {
    if phi4mm {
        first_error(lora_error(v, "speech_lora"@), lora_error(v, "vision_lora"@))
    } else {
        None
    }
}

fn read_lora(v: &Json, name: &str) -> (r: Result<(usize, Scalar), String>)
    ensures
        match r {
            Ok(lora) => lora_error(v@, name@) is None && lora == lora_of(v@, name@),
            Err(message) => lora_error(v@, name@) == Some(message@),
        },
{
    let missing = "Phi4MM config missing object `".to_owned().concat(name).concat("`");
    let lora = match v.get(name) {
        Some(lora) => lora,
        None => return Err(missing),
    };
    if lora.as_object().is_none() {
        return Err(missing);
    }
    let rank: u64 = match lora.get_u64("r") {
        Some(n) => n,
        None => 0,
    };
    if rank == 0 || rank > usize::MAX as u64 {
        return Err("Phi4MM `".to_owned().concat(name).concat(".r` must be positive"));
    }
    let alpha: u64 = match lora.get_double("lora_alpha") {
        Some(bits) => bits,
        None => 0,
    };
    if !positive_finite(alpha) {
        return Err(
            "Phi4MM `".to_owned().concat(name).concat(
                ".lora_alpha` must be positive and finite",
            ),
        );
    }
    Ok((rank as usize, Scalar::OverCount { numerator: alpha, count: rank as usize }))
}

fn read_phi4_lora(v: &Json, phi4mm: bool) -> (r: Result<Option<Phi4LoraConfig>, String>)
    ensures
        match r {
            Ok(lora) => phi4_lora_error(v@, phi4mm) is None && lora == phi4_lora_of(v@, phi4mm),
            Err(message) => phi4_lora_error(v@, phi4mm) == Some(message@),
        },
{
    proof {
        reveal(phi4_lora_error);
        reveal(phi4_lora_of);
    }
    if !phi4mm {
        return Ok(None);
    }
    let (speech_rank, speech_scale) = match read_lora(v, "speech_lora") {
        Ok(lora) => lora,
        Err(message) => return Err(message),
    };
    let (vision_rank, vision_scale) = match read_lora(v, "vision_lora") {
        Ok(lora) => lora,
        Err(message) => return Err(message),
    };
    Ok(Some(Phi4LoraConfig { speech_rank, speech_scale, vision_rank, vision_scale }))
}

/// The naming scheme of a checkpoint.
pub open spec fn scheme_of(family: Family) -> WeightScheme {
    match family {
        Family::Exaone => WeightScheme::Exaone,
        Family::Molmo2Text => WeightScheme::Molmo2,
        _ => WeightScheme::Llama,
    }
}

/// A document of Phi4MM.
pub open spec fn is_phi4mm(root: JsonView) -> bool {
    model_type_of(root) == Some("phi4mm"@)
}

/// The family of the language model in a document.
pub open spec fn document_family(root: JsonView) -> Family {
    family_of(model_type_of(text_part(root)), model_type_of(root) == Some("molmo2"@))
}

/// The sizes of the language model in a document.
pub open spec fn document_dims(root: JsonView) -> Dims {
    let v = text_part(root);
    let hidden = v.get_size("hidden_size"@).unwrap();
    Dims {
        hidden,
        n_layers: layer_count(v).unwrap(),
        head_dim: head_dim_of(v, hidden, v.get_size("num_attention_heads"@).unwrap()),
    }
}

/// The architecture of the language model in a document.
pub open spec fn document_arch(root: JsonView) -> Arch {
    arch_of(document_family(root), text_part(root), document_dims(root))
}

/// The rotated width of each head.
pub open spec fn document_width(root: JsonView) -> usize {
    match document_arch(root).rotary_dim {
        Some(n) => n,
        None => document_dims(root).head_dim,
    }
}

/// The first complaint about a document up to its sizes.
pub open spec fn shape_error(root: JsonView) -> Option<Seq<char>> {
    let v = text_part(root);
    first_error(
        wrapper_error(root),
        first_error(
            if document_family(root) == Family::Ernie45 {
                Some(MSG_ERNIE@)
            } else {
                None
            },
            first_error(
                quant_error(quant_part(root)),
                first_error(
                    size_error(v, "hidden_size"@),
                    first_error(
                        size_error(v, "num_attention_heads"@),
                        if layer_count(v) is None {
                            Some(MSG_NO_LAYER_COUNT@)
                        } else {
                            None
                        },
                    ),
                ),
            ),
        ),
    )
}

/// The first complaint about the architecture, once the sizes are known.
#[verifier::opaque]
pub open spec fn arch_error(
    v: JsonView,
    family: Family,
    model_type: Option<Seq<char>>,
    d: Dims,
) -> Option<Seq<char>> {
    first_error(
        deepstack_error(v, d.n_layers),
        first_error(
            if epsilon_of(v) is None {
                Some(MSG_NO_EPSILON@)
            } else {
                None
            },
            first_error(
                family_error(family, v, model_type),
                variant_error(v, arch_of(family, v, d)),
            ),
        ),
    )
}

/// The first complaint about the remaining blocks, where `width` dimensions of each
/// head rotate.
#[verifier::opaque]
pub open spec fn block_error(
    v: JsonView,
    family: Family,
    model_type: Option<Seq<char>>,
    phi4mm: bool,
    width: usize,
) -> Option<Seq<char>> {
    first_error(
        rope_error(v, phi4mm, width),
        first_error(
            mrope_error(v, width, model_type),
            first_error(
                moe_error(family, v),
                first_error(
                    phi4_lora_error(v, phi4mm),
                    first_error(size_block_error(v), width_error(width)),
                ),
            ),
        ),
    )
}

/// Complaint about the rotated width of each head: dimensions rotate in pairs.
pub open spec fn width_error(width: usize) -> Option<Seq<char>> {
    if width % 2 != 0 {
        Some("RoPE rotary width "@ + dec(width as nat) + " must be an even value"@)
    } else {
        None
    }
}

/// The first complaint about the sizes that every document states.
pub open spec fn size_block_error(v: JsonView) -> Option<Seq<char>> {
    first_error(
        size_error(v, "intermediate_size"@),
        first_error(
            size_error(v, "num_key_value_heads"@),
            first_error(
                if v.get_double("rope_theta"@) is Some {
                    None
                } else {
                    Some("config.json missing number `"@ + "rope_theta"@ + "`"@)
                },
                size_error(v, "vocab_size"@),
            ),
        ),
    )
}

/// The first complaint about a document; none when it describes a supported model.
pub open spec fn config_error(root: JsonView) -> Option<Seq<char>> {
    let v = text_part(root);
    let family = document_family(root);
    let model_type = model_type_of(v);
    first_error(
        shape_error(root),
        first_error(
            arch_error(v, family, model_type, document_dims(root)),
            block_error(v, family, model_type, is_phi4mm(root), document_width(root)),
        ),
    )
}

/// The architecture variants of a configuration.
pub open spec fn has_arch(c: Config, a: Arch) -> bool {
    &&& c.qkv_bias == a.qkv_bias
    &&& c.embed_scale == a.embed_scale
    &&& c.norm_one_plus == a.norm_one_plus
    &&& c.mlp_geglu == a.mlp_geglu
    &&& c.norm_style == a.norm_style
    &&& c.qk_norm == a.qk_norm
    &&& c.rope_local_base == a.rope_local_base
    &&& c.query_pre_attn_scalar == a.query_pre_attn_scalar
    &&& c.attn_logit_softcap == a.attn_logit_softcap
    &&& c.final_logit_softcap == a.final_logit_softcap
    &&& c.sliding_window == a.sliding_window
    &&& c.sliding_pattern == a.sliding_pattern
    &&& c.layernorm == a.layernorm
    &&& c.norm_bias == a.norm_bias
    &&& c.parallel_block == a.parallel_block
    &&& c.attn_o_bias == a.attn_o_bias
    &&& c.mlp_bias == a.mlp_bias
    &&& c.dense_mlp == a.dense_mlp
    &&& c.rope_interleaved == a.rope_interleaved
    &&& c.rotary_dim == a.rotary_dim
    &&& c.rope_on_sliding_only == a.rope_on_sliding_only
    &&& c.attention_multiplier == a.attention_multiplier
    &&& c.embedding_multiplier == a.embedding_multiplier
    &&& c.residual_multiplier == a.residual_multiplier
    &&& c.logit_mul == a.logit_mul
    &&& c.logit_div == a.logit_div
    &&& c.fused_qkv == a.fused_qkv
    &&& c.fused_gate_up == a.fused_gate_up
}

/// The configuration that a document describes.
pub open spec fn describes(root: JsonView, c: Config) -> bool {
    let v = text_part(root);
    let d = document_dims(root);
    let a = document_arch(root);
    &&& c.context_capacity == DEFAULT_CONTEXT_CAPACITY
    &&& c.hidden == d.hidden
    &&& c.n_layers == d.n_layers
    &&& c.head_dim == d.head_dim
    &&& v.get_size("num_attention_heads"@) == Some(c.n_q)
    &&& v.get_size("intermediate_size"@) == Some(c.inter)
    &&& v.get_size("num_key_value_heads"@) == Some(c.n_kv)
    &&& v.get_size("vocab_size"@) == Some(c.vocab)
    &&& v.get_double("rope_theta"@) == Some(c.rope_theta)
    &&& epsilon_of(v) == Some(c.eps)
    &&& has_arch(c, a)
    &&& c.rotated() % 2 == 0
    &&& c.tie_word_embeddings == (match v.get_bool("tie_word_embeddings"@) {
        Some(b) => b,
        None => a.tie_default,
    })
    &&& c.quantization == quant_of(quant_part(root))
    &&& c.weight_scheme == scheme_of(document_family(root))
    &&& c.phi4_lora == phi4_lora_of(v, is_phi4mm(root))
    &&& rope_is(v, is_phi4mm(root), c.rope)
    &&& rope_layers_are(document_family(root), v, c.use_rope_layers)
    &&& mrope_is(v, model_type_of(v), c.mrope)
    &&& deepstack_is(v, c.deepstack)
    &&& moe_is(document_family(root), v, c.moe)
}

/// The outcome of reading a configuration from a document.
pub open spec fn config_outcome(root: JsonView, r: Result<Config, String>) -> bool {
    match r {
        Ok(c) => config_error(root) is None && describes(root, c),
        Err(message) => config_error(root) == Some(message@),
    }
}

fn read_arch_part(
    v: &Json,
    family: Family,
    model_type: Option<&str>,
    d: Dims,
) -> (r: Result<(Option<DeepStackConfig>, u64, Arch), String>)
    ensures
        match r {
            Ok(part) => {
                &&& arch_error(v@, family, option_text(model_type), d) is None
                &&& deepstack_is(v@, part.0)
                &&& epsilon_of(v@) == Some(part.1)
                &&& part.2 == arch_of(family, v@, d)
            },
            Err(message) => arch_error(v@, family, option_text(model_type), d) == Some(message@),
        },
{
    proof {
        reveal(arch_error);
    }
    let deepstack = match read_deepstack(v, d.n_layers) {
        Ok(deepstack) => deepstack,
        Err(message) => return Err(message),
    };
    let eps = match read_epsilon(v) {
        Some(bits) => bits,
        None => return Err(MSG_NO_EPSILON.to_owned()),
    };
    match check_family(family, v, model_type) {
        Ok(_) => {},
        Err(message) => return Err(message),
    }
    let a = read_arch(family, v, d);
    match check_variants(v, a) {
        Ok(_) => {},
        Err(message) => return Err(message),
    }
    Ok((deepstack, eps, a))
}

struct Blocks {
    rope: RopeScaling,
    mrope: Option<MropeConfig>,
    moe: Option<MoeConfig>,
    phi4_lora: Option<Phi4LoraConfig>,
    inter: usize,
    n_kv: usize,
    rope_theta: u64,
    vocab: usize,
}

fn read_blocks(
    v: &Json,
    family: Family,
    model_type: Option<&str>,
    phi4mm: bool,
    width: usize,
) -> (r: Result<Blocks, String>)
    ensures
        ({
            let error = block_error(v@, family, option_text(model_type), phi4mm, width);
            match r {
                Ok(b) => {
                    &&& error is None
                    &&& width % 2 == 0
                    &&& rope_is(v@, phi4mm, b.rope)
                    &&& mrope_is(v@, option_text(model_type), b.mrope)
                    &&& moe_is(family, v@, b.moe)
                    &&& b.phi4_lora == phi4_lora_of(v@, phi4mm)
                    &&& v@.get_size("intermediate_size"@) == Some(b.inter)
                    &&& v@.get_size("num_key_value_heads"@) == Some(b.n_kv)
                    &&& v@.get_double("rope_theta"@) == Some(b.rope_theta)
                    &&& v@.get_size("vocab_size"@) == Some(b.vocab)
                },
                Err(message) => error == Some(message@),
            }
        }),
{
    proof {
        reveal(block_error);
    }
    let rope = match read_rope(v, phi4mm, width) {
        Ok(rope) => rope,
        Err(message) => return Err(message),
    };
    let mrope = match read_mrope(v, width, model_type) {
        Ok(mrope) => mrope,
        Err(message) => return Err(message),
    };
    let moe = match read_moe(family, v) {
        Ok(moe) => moe,
        Err(message) => return Err(message),
    };
    let phi4_lora = match read_phi4_lora(v, phi4mm) {
        Ok(lora) => lora,
        Err(message) => return Err(message),
    };
    let inter = match need_size(v, "intermediate_size") {
        Ok(n) => n,
        Err(message) => return Err(message),
    };
    let n_kv = match need_size(v, "num_key_value_heads") {
        Ok(n) => n,
        Err(message) => return Err(message),
    };
    let rope_theta = match v.get_double("rope_theta") {
        Some(bits) => bits,
        None => return Err(
            "config.json missing number `".to_owned().concat("rope_theta").concat("`"),
        ),
    };
    let vocab = match need_size(v, "vocab_size") {
        Ok(n) => n,
        Err(message) => return Err(message),
    };
    if width % 2 != 0 {
        return Err(
            "RoPE rotary width ".to_owned().concat(&size_text(width)).concat(
                " must be an even value",
            ),
        );
    }
    Ok(Blocks { rope, mrope, moe, phi4_lora, inter, n_kv, rope_theta, vocab })
}

impl Config {
    /// Build a configuration from a parsed `config.json`. A document that describes
    /// a model outside the supported families, or one of their unsupported variants,
    /// is refused with the first complaint about it.
    pub fn from_json_value(root: &Json) -> (r: Result<Self, String>)
        ensures
            config_outcome(root@, r),
            r matches Ok(c) ==> {
                let v = text_part(root@);
                let t = v.get_text("model_type"@);
                t == Some("gemma2"@) || t == Some("gemma3"@) || t == Some("gemma3_text"@) ==> {
                    &&& c.attn_logit_softcap == v.get_double("attn_logit_softcapping"@)
                    &&& c.final_logit_softcap == v.get_double("final_logit_softcapping"@)
                }
            },
    {
        let wrapper_type = root.get_text("model_type");
        let phi4mm = is_text(wrapper_type, "phi4mm");
        let molmo2 = is_text(wrapper_type, "molmo2");
        let wraps = is_text(wrapper_type, "llava") || is_text(wrapper_type, "llava_next")
            || molmo2;
        let v = if wraps {
            let missing = wrapper_type.unwrap().to_owned().concat(
                " config.json missing object `text_config` for the XLA text graph",
            );
            match root.get("text_config") {
                None => return Err(missing),
                Some(text) => {
                    if text.as_object().is_none() {
                        return Err(missing);
                    }
                    text
                },
            }
        } else {
            root
        };
        let model_type = v.get_text("model_type");
        let family = read_family(model_type, molmo2);
        if family == Family::Ernie45 {
            return Err(MSG_ERNIE.to_owned());
        }
        let block = match v.get("quantization") {
            Some(q) => Some(q),
            None => root.get("quantization"),
        };
        let quantization = match read_quant(block) {
            Ok(quantization) => quantization,
            Err(message) => return Err(message),
        };
        let hidden = match need_size(v, "hidden_size") {
            Ok(n) => n,
            Err(message) => return Err(message),
        };
        let n_q = match need_size(v, "num_attention_heads") {
            Ok(n) => n,
            Err(message) => return Err(message),
        };
        let share: usize = if n_q == 0 {
            hidden
        } else {
            hidden / n_q
        };
        let head_dim: usize = read_size_or(v, "head_dim", share);
        let n_layers = match v.get_size("num_hidden_layers") {
            Some(n) => n,
            None => match v.get_size("num_layers") {
                Some(n) => n,
                None => return Err(MSG_NO_LAYER_COUNT.to_owned()),
            },
        };
        let d = Dims { hidden, n_layers, head_dim };
        let r = Self::from_shaped(root, v, family, model_type, phi4mm, quantization, n_q, d);
        proof {
            if r is Ok {
                law_soft_caps_are_read_under_their_keys(root@, r->Ok_0);
            }
        }
        r
    }

    fn from_shaped(
        root: &Json,
        v: &Json,
        family: Family,
        model_type: Option<&str>,
        phi4mm: bool,
        quantization: Option<QuantConfig>,
        n_q: usize,
        d: Dims,
    ) -> (r: Result<Self, String>)
        requires
            shape_error(root@) is None,
            v@ == text_part(root@),
            family == document_family(root@),
            option_text(model_type) == model_type_of(v@),
            phi4mm == is_phi4mm(root@),
            quantization == quant_of(quant_part(root@)),
            v@.get_size("num_attention_heads"@) == Some(n_q),
            d == document_dims(root@),
        ensures
            config_outcome(root@, r),
    {
        let (deepstack, eps, a) = match read_arch_part(v, family, model_type, d) {
            Ok(part) => part,
            Err(message) => return Err(message),
        };
        let width: usize = match a.rotary_dim {
            Some(n) => n,
            None => d.head_dim,
        };
        assert(width == document_width(root@));
        let blocks = match read_blocks(v, family, model_type, phi4mm, width) {
            Ok(blocks) => blocks,
            Err(message) => return Err(message),
        };
        let use_rope_layers = read_rope_layers(family, v);
        let tie_word_embeddings = match v.get_bool("tie_word_embeddings") {
            Some(b) => b,
            None => a.tie_default,
        };
        let weight_scheme = match family {
            Family::Exaone => WeightScheme::Exaone,
            Family::Molmo2Text => WeightScheme::Molmo2,
            _ => WeightScheme::Llama,
        };
        Ok(
            Config {
                context_capacity: DEFAULT_CONTEXT_CAPACITY,
                hidden: d.hidden,
                inter: blocks.inter,
                n_layers: d.n_layers,
                n_q,
                n_kv: blocks.n_kv,
                head_dim: d.head_dim,
                eps,
                rope_theta: blocks.rope_theta,
                vocab: blocks.vocab,
                rope: blocks.rope,
                qkv_bias: a.qkv_bias,
                tie_word_embeddings,
                quantization,
                embed_scale: a.embed_scale,
                norm_one_plus: a.norm_one_plus,
                mlp_geglu: a.mlp_geglu,
                norm_style: a.norm_style,
                qk_norm: a.qk_norm,
                rope_local_base: a.rope_local_base,
                query_pre_attn_scalar: a.query_pre_attn_scalar,
                attn_logit_softcap: a.attn_logit_softcap,
                final_logit_softcap: a.final_logit_softcap,
                sliding_window: a.sliding_window,
                sliding_pattern: a.sliding_pattern,
                use_rope_layers,
                mrope: blocks.mrope,
                deepstack,
                moe: blocks.moe,
                weight_scheme,
                layernorm: a.layernorm,
                norm_bias: a.norm_bias,
                parallel_block: a.parallel_block,
                attn_o_bias: a.attn_o_bias,
                mlp_bias: a.mlp_bias,
                dense_mlp: a.dense_mlp,
                rope_interleaved: a.rope_interleaved,
                rotary_dim: a.rotary_dim,
                rope_on_sliding_only: a.rope_on_sliding_only,
                attention_multiplier: a.attention_multiplier,
                embedding_multiplier: a.embedding_multiplier,
                residual_multiplier: a.residual_multiplier,
                logit_mul: a.logit_mul,
                logit_div: a.logit_div,
                fused_qkv: a.fused_qkv,
                fused_gate_up: a.fused_gate_up,
                phi4_lora: blocks.phi4_lora,
            },
        )
    }

    /// Build a configuration from the text of a `config.json`.
    pub fn from_json_str(s: &str) -> (r: Result<Self, String>)
        ensures
            match json_of_text(s@) {
                None => r matches Err(message) && message@ == "parse config.json: "@
                    + json_error_text(s@),
                Some(root) => config_outcome(root, r),
            },
    {
        match parse_json(s) {
            Err(message) => Err("parse config.json: ".to_owned().concat(&message)),
            Ok(root) => Self::from_json_value(&root),
        }
    }
}

/// The rotated width of each head of an accepted model is even.
pub proof fn law_rotary_width_is_even(root: JsonView, c: Config)
    requires
        config_error(root) is None,
        describes(root, c),
    ensures
        c.rotated() == document_width(root),
        c.rotated() % 2 == 0,
{
}

/// The sections of an accepted M-RoPE configuration are positive and fill half of
/// the rotated width, which is even and positive.
pub proof fn law_sections_fill_half_the_width(root: JsonView, c: Config)
    requires
        config_error(root) is None,
        describes(root, c),
        c.mrope is Some,
    ensures
        ({
            let s = c.mrope.unwrap().sections@;
            let width = match c.rotary_dim {
                Some(n) => n,
                None => c.head_dim,
            };
            &&& s.len() == 3
            &&& s[0] > 0 && s[1] > 0 && s[2] > 0
            &&& 2 * (s[0] + s[1] + s[2]) == width
        }),
{
    reveal(arch_error);
    reveal(block_error);
    reveal(mrope_error);
    reveal(mrope_is);
}

/// The DeepStack declaration of an accepted document names at least one layer, in
/// ascending order, and only layers that the model has.
pub proof fn law_deepstack_layers_exist(root: JsonView, c: Config)
    requires
        config_error(root) is None,
        describes(root, c),
        c.deepstack is Some,
    ensures
        ({
            let layers = c.deepstack.unwrap().target_layer_indices@;
            &&& layers.len() > 0
            &&& crate::config::strictly_ascending(layers)
            &&& forall|i: int| 0 <= i < layers.len() ==> #[trigger] layers[i] < c.n_layers
            &&& c.deepstack.unwrap().max_visual_positions > 0
        }),
{
    reveal(arch_error);
    reveal(deepstack_error);
    reveal(deepstack_is);
    let layers = c.deepstack.unwrap().target_layer_indices@;
    assert(crate::config::first_outside(layers, c.n_layers, 0) is None);
    assert forall|i: int| 0 <= i < layers.len() implies #[trigger] layers[i] < c.n_layers by {
        lemma_none_outside(layers, c.n_layers, 0, i);
    }
}

proof fn lemma_none_outside(layers: Seq<usize>, n_layers: usize, from: int, i: int)
    requires
        0 <= from <= i < layers.len(),
        crate::config::first_outside(layers, n_layers, from) is None,
    ensures
        layers[i] < n_layers,
    decreases i - from,
{
    if from < i {
        lemma_none_outside(layers, n_layers, from + 1, i);
    }
}

/// An accepted mixture-of-experts model routes every layer, and any other model none.
pub proof fn law_experts_on_all_layers_or_none(root: JsonView, c: Config, li: int)
    requires
        config_error(root) is None,
        describes(root, c),
        li >= 0,
    ensures
        c.moe_layer(li) == routes_experts(document_family(root)),
{
    reveal(moe_is);
}

/// A checkpoint of an accepted document that holds q, k and v in one tensor holds gate
/// and up in one tensor too, and the other way round; such a checkpoint gets neither
/// packed nor half-precision resident weights.
pub proof fn law_fused_tensors_come_together(root: JsonView, c: Config)
    requires
        config_error(root) is None,
        describes(root, c),
    ensures
        c.fused_qkv == c.fused_gate_up,
        c.fused_qkv ==> !c.packs_quant() && !c.keeps_half(),
{
    reveal(arch_of);
}

/// LongRoPE tables have one positive finite factor for each rotated pair.
pub proof fn law_longrope_factors_cover_the_width(root: JsonView, c: Config)
    requires
        config_error(root) is None,
        describes(root, c),
        c.rope is LongRope,
    ensures
        ({
            let width = match c.rotary_dim {
                Some(n) => n,
                None => c.head_dim,
            };
            &&& c.rope->factors@.len() == width / 2
            &&& all_positive_finite(c.rope->factors@)
        }),
{
    reveal(arch_error);
    reveal(block_error);
    reveal(rope_error);
    reveal(rope_is);
}

} // verus!
