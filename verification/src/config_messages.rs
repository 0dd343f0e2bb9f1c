//! The fixed messages with which a configuration is refused.
use vstd::prelude::*;

verus! {

pub const MSG_ERNIE: &'static str =
    "the OpenXLA emitter uses half-split RoPE; ERNIE-4.5 (model_type \
                 ernie4_5) uses interleaved (GPT-J-style) RoPE, which is a follow-up \
                 (an interleaved-RoPE emit variant or a load-time q/k permutation)";

pub const MSG_NO_EPSILON: &'static str =
    "config.json missing a norm epsilon (rms_norm_eps / layer_norm_eps / \
                 layer_norm_epsilon / norm_epsilon)";

pub const MSG_NO_LAYER_COUNT: &'static str =
    "config.json missing integer among [\"num_hidden_layers\", \"num_layers\"]";

pub const MSG_DEEPSTACK_ARRAY: &'static str =
    "config.json deepstack_language_layer_indices must be an integer array";

pub const MSG_DEEPSTACK_ITEM: &'static str =
    "config.json deepstack_language_layer_indices must contain non-negative integers";

pub const MSG_DEEPSTACK_BUCKET: &'static str =
    "config.json deepstack_max_visual_positions must be a positive integer";

pub const MSG_DEEPSTACK_PAIR: &'static str =
    "config.json must declare DeepStack layer indices and max visual positions together";

pub const MSG_DEEPSTACK_EMPTY: &'static str =
    "DeepStack requires at least one target language layer";

pub const MSG_DEEPSTACK_ZERO: &'static str = "DeepStack max_visual_positions must be positive";

pub const MSG_DEEPSTACK_ORDER: &'static str =
    "DeepStack target language layers must be sorted and unique";

pub const MSG_LLAMA_BIAS: &'static str =
    "the OpenXLA emitter does not support a `llama` checkpoint with \
                         attention_bias = true (only the bias-bearing dense arches carry a \
                         q/k/v bias here)";

pub const MSG_COHERE_QK: &'static str =
    "the OpenXLA emitter does not yet support Cohere `use_qk_norm = true` \
                         (per-head q/k LayerNorm is a follow-up)";

pub const MSG_STABLELM_QK: &'static str =
    "the OpenXLA emitter does not yet support StableLM \
                         `qk_layernorm = true` (per-head q/k LayerNorm is a follow-up)";

pub const MSG_MINICPM3: &'static str =
    "the OpenXLA emitter does not yet support MiniCPM3: its MLA \
                     attention (q/kv LoRA latent projections with separate nope/rope \
                     head dims) and LongRoPE are a follow-up to this dense arch pack \
                     (issue #498)";

pub const MSG_OLMOE_CLIP: &'static str =
    "the OpenXLA emitter does not yet support OLMoE \
                                `clip_qkv` (q/k/v projection clamping); it is a \
                                follow-up (#501)";

pub const MSG_DEEPSEEK: &'static str =
    "DeepSeek-V2/V3 use multi-head latent attention (compressed \
                            q/kv LoRA latent projections with a decoupled RoPE head), \
                            which the shared attention core does not reproduce; the MoE \
                            routing is supported but the MLA attention is a follow-up \
                            (#501)";

pub const MSG_PHIMOE: &'static str =
    "PhiMoE (Phi-3.5-MoE) routes with sparsemixer (a two-step \
                            masked top-2 selection), not the softmax-before-top-k the \
                            shared MoE FFN primitive emits; it is a follow-up (#501)";

pub const MSG_GLM4_MOE: &'static str =
    "GLM-4.5-MoE routes with sigmoid expert scores, grouped \
                            (n_group / topk_group) top-k, and a routed score-correction \
                            bias, not the softmax-before-top-k the shared MoE FFN \
                            primitive emits; it is a follow-up (#501)";

pub const MSG_DOTS1: &'static str =
    "dots.llm1 routes with sigmoid expert scores, grouped top-k, \
                            and a score-correction bias (DeepSeek-style), not the \
                            softmax-before-top-k the shared MoE FFN primitive emits; it \
                            is a follow-up (#501)";

pub const MSG_ERNIE_MOE: &'static str =
    "ERNIE-4.5-MoE uses interleaved (GPT-J-style) RoPE, which \
                            the half-split RoPE emit would get wrong, plus a routed \
                            score-correction bias; it is a follow-up (#501)";

pub const MSG_GPT_OSS: &'static str =
    "gpt-oss uses attention sinks and a clamped, alpha-scaled \
                            gated-SwiGLU expert activation, neither in the shared \
                            attention core nor the MoE FFN primitive; it is a follow-up \
                            (#501)";

pub const MSG_FAMILY_HEAD: &'static str =
    "the OpenXLA emitter supports the dense architectures Llama, Qwen2, \
                     Qwen3, Gemma1/2/3, SmolLM3, OLMo2/3, Seed-OSS, MiMo, InternLM3, ExaOne, \
                     Cohere, Cohere2, Phi3, Phi4MM, Molmo2, StableLM, StarCoder2, Granite, and MiniCPM, plus \
                     the Mixtral, Qwen2-MoE, Qwen3-MoE, and OLMoE mixture-of-experts \
                     architectures; config.json model_type = ";

pub const MSG_FAMILY_TAIL: &'static str =
    " (other MoE / MLA / \
                     novel-activation variants are follow-ups)";

pub const MSG_OUT_BIAS: &'static str =
    "the OpenXLA emitter has no attention output (o_proj) bias for this \
                 architecture; config.json attention_out_bias = true is a follow-up";

pub const MSG_MLP_BIAS: &'static str =
    "the OpenXLA emitter has no MLP bias for this architecture; \
                 config.json mlp_bias = true is a follow-up";

pub const MSG_ACTIVATION_HEAD: &'static str =
    "the OpenXLA emitter emits a SwiGLU (silu) MLP for this architecture; \
                     config.json activation = ";

pub const MSG_MROPE_SECTION: &'static str =
    "config.json rope_scaling.rope_type = \"mrope\" requires \
                         rope_scaling.mrope_section";

pub const MSG_NO_ORIGINAL_CONTEXT: &'static str =
    "config.json rope_scaling missing \
                                 `original_max_position_embeddings`";

pub const MSG_LONG_FACTOR: &'static str = "Phi4MM LongRoPE requires rope_scaling.long_factor";

pub const MSG_LONG_ORIGINAL: &'static str =
    "Phi4MM LongRoPE requires original_max_position_embeddings";

pub const MSG_LONG_MAXIMUM: &'static str = "Phi4MM LongRoPE requires max_position_embeddings";

pub const MSG_ROPE_HEAD: &'static str =
    "the OpenXLA emitter supports plain / default / (in-context) dynamic \
                             RoPE and llama3 RoPE scaling; config.json rope_scaling.rope_type = ";

pub const MSG_ROPE_TAIL: &'static str = " (e.g. yarn is a follow-up)";

pub const MSG_MROPE_ARRAY: &'static str =
    "config.json rope_scaling.mrope_section must be an integer array";

pub const MSG_MROPE_COUNT: &'static str =
    "config.json rope_scaling.mrope_section must contain exactly 3 T/H/W axes, got ";

pub const MSG_MROPE_OVERFLOW: &'static str = "M-RoPE section sum overflowed";

pub const MSG_MROPE_FAMILY: &'static str =
    "M-RoPE sections are only supported by the Qwen2/Qwen3 language backbone, got model_type=";

pub const MSG_QWEN3_MOE: &'static str =
    "the OpenXLA emitter supports all-MoE Qwen3-MoE \
                                (decoder_sparse_step = 1, empty mlp_only_layers); an \
                                interleaved dense/MoE layer schedule is a follow-up \
                                (#501)";

} // verus!
