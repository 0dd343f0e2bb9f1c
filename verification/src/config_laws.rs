//! What a configuration takes from its document, said field by field: which document
//! member, or which model types, each field goes by.
use vstd::prelude::*;

use crate::config::{
    Config, MropeLayout, NormStyle, QkNorm, RopeScaling, Scalar, WeightScheme,
};
use crate::config_json::{
    arch_error, arch_of, block_error, config_error, deepstack_error, deepstack_is, describes,
    document_family, family_error, family_of, first_non_number, moe_error, moe_is, mrope_error, mrope_is,
    phi4_lora_error, phi4_lora_of, rope_error, rope_flags, rope_is, rope_layers_are, variant_error, Family,
};
use crate::double::scaled_floor;
use crate::json::JsonView;

verus! {

/// The part of a document that describes the language model: the text configuration of a
/// wrapper, else the document itself.
pub open spec fn language_part(root: JsonView) -> JsonView {
    let t = root.get_text("model_type"@);
    if t == Some("llava"@) || t == Some("llava_next"@) || t == Some("molmo2"@) {
        root.get("text_config"@).unwrap()
    } else {
        root
    }
}

/// The language model is of this type.
pub open spec fn of_type(root: JsonView, name: Seq<char>) -> bool {
    language_part(root).get_text("model_type"@) == Some(name)
}

/// The model types of each family.
proof fn lemma_family_types(t: Seq<char>, molmo2: bool)
    ensures
        (family_of(Some(t), molmo2) == Family::Llama) == (t == "llama"@),
        (family_of(Some(t), molmo2) == Family::Minicpm) == (t == "minicpm"@),
        (family_of(Some(t), molmo2) == Family::Qwen2) == (t == "qwen2"@ || t == "qwen2_vl"@),
        (family_of(Some(t), molmo2) == Family::Qwen3) == (t == "qwen3"@),
        (family_of(Some(t), molmo2) == Family::Gemma) == (t == "gemma"@),
        (family_of(Some(t), molmo2) == Family::Gemma2) == (t == "gemma2"@),
        (family_of(Some(t), molmo2) == Family::Gemma3) == (t == "gemma3"@ || t == "gemma3_text"@),
        (family_of(Some(t), molmo2) == Family::Smollm3) == (t == "smollm3"@),
        (family_of(Some(t), molmo2) == Family::Olmo2) == (t == "olmo2"@),
        (family_of(Some(t), molmo2) == Family::Olmo3) == (t == "olmo3"@),
        (family_of(Some(t), molmo2) == Family::OptionalBias) == (t == "seed_oss"@ || t == "mimo"@ || t == "internlm3"@),
        (family_of(Some(t), molmo2) == Family::Exaone) == (t == "exaone"@),
        (family_of(Some(t), molmo2) == Family::Cohere) == (t == "cohere"@),
        (family_of(Some(t), molmo2) == Family::Cohere2) == (t == "cohere2"@),
        (family_of(Some(t), molmo2) == Family::Phi3) == (t == "phi3"@ || t == "phi4mm"@),
        (family_of(Some(t), molmo2) == Family::Stablelm) == (t == "stablelm"@),
        (family_of(Some(t), molmo2) == Family::Starcoder2) == (t == "starcoder2"@),
        (family_of(Some(t), molmo2) == Family::Granite) == (t == "granite"@),
        (family_of(Some(t), molmo2) == Family::Mixtral) == (t == "mixtral"@),
        (family_of(Some(t), molmo2) == Family::Qwen2Moe) == (t == "qwen2_moe"@),
        (family_of(Some(t), molmo2) == Family::Qwen3Moe) == (t == "qwen3_moe"@),
        (family_of(Some(t), molmo2) == Family::Olmoe) == (t == "olmoe"@),
        (family_of(Some(t), molmo2) == Family::Molmo2Text) == (t == "molmo2_text"@ && molmo2),
{
    reveal(family_of);
    reveal_strlit("llama");
    reveal_strlit("minicpm");
    reveal_strlit("qwen2");
    reveal_strlit("qwen2_vl");
    reveal_strlit("qwen3");
    reveal_strlit("gemma");
    reveal_strlit("gemma2");
    reveal_strlit("gemma3");
    reveal_strlit("gemma3_text");
    reveal_strlit("smollm3");
    reveal_strlit("olmo2");
    reveal_strlit("olmo3");
    reveal_strlit("seed_oss");
    reveal_strlit("mimo");
    reveal_strlit("internlm3");
    reveal_strlit("exaone");
    reveal_strlit("cohere");
    reveal_strlit("cohere2");
    reveal_strlit("phi3");
    reveal_strlit("phi4mm");
    reveal_strlit("molmo2_text");
    reveal_strlit("stablelm");
    reveal_strlit("starcoder2");
    reveal_strlit("granite");
    reveal_strlit("minicpm3");
    reveal_strlit("mixtral");
    reveal_strlit("qwen2_moe");
    reveal_strlit("qwen3_moe");
    reveal_strlit("olmoe");
    assert("llama"@.len() == 5);
    assert("minicpm"@.len() == 7);
    assert("qwen2"@.len() == 5);
    assert("qwen2_vl"@.len() == 8);
    assert("qwen3"@.len() == 5);
    assert("gemma"@.len() == 5);
    assert("gemma2"@.len() == 6);
    assert("gemma3"@.len() == 6);
    assert("gemma3_text"@.len() == 11);
    assert("smollm3"@.len() == 7);
    assert("olmo2"@.len() == 5);
    assert("olmo3"@.len() == 5);
    assert("seed_oss"@.len() == 8);
    assert("mimo"@.len() == 4);
    assert("internlm3"@.len() == 9);
    assert("exaone"@.len() == 6);
    assert("cohere"@.len() == 6);
    assert("cohere2"@.len() == 7);
    assert("phi3"@.len() == 4);
    assert("phi4mm"@.len() == 6);
    assert("molmo2_text"@.len() == 11);
    assert("stablelm"@.len() == 8);
    assert("starcoder2"@.len() == 10);
    assert("granite"@.len() == 7);
    assert("minicpm3"@.len() == 8);
    assert("mixtral"@.len() == 7);
    assert("qwen2_moe"@.len() == 9);
    assert("qwen3_moe"@.len() == 9);
    assert("olmoe"@.len() == 5);
    assert("llama"@[0] == 'l');
    assert("qwen2"@[0] == 'q');
    assert("qwen3"@[0] == 'q');
    assert("gemma"@[0] == 'g');
    assert("olmo2"@[0] == 'o');
    assert("olmo3"@[0] == 'o');
    assert("olmoe"@[0] == 'o');
    assert("minicpm"@[0] == 'm');
    assert("smollm3"@[0] == 's');
    assert("cohere2"@[0] == 'c');
    assert("granite"@[0] == 'g');
    assert("minicpm"@[2] == 'n');
    assert("mixtral"@[2] == 'x');
    assert("qwen2"@[4] == '2');
    assert("qwen3"@[4] == '3');
    assert("qwen2_vl"@[0] == 'q');
    assert("seed_oss"@[0] == 's');
    assert("stablelm"@[0] == 's');
    assert("minicpm3"@[0] == 'm');
    assert("gemma2"@[5] == '2');
    assert("gemma3"@[5] == '3');
    assert("gemma2"@[0] == 'g');
    assert("exaone"@[0] == 'e');
    assert("cohere"@[0] == 'c');
    assert("phi4mm"@[0] == 'p');
    assert("gemma3"@[0] == 'g');
    assert("gemma3_text"@[0] == 'g');
    assert("molmo2_text"@[0] == 'm');
    assert("mixtral"@[0] == 'm');
    assert("olmo2"@[4] == '2');
    assert("olmo3"@[4] == '3');
    assert("olmoe"@[4] == 'e');
    assert("seed_oss"@[1] == 'e');
    assert("stablelm"@[1] == 't');
    assert("mimo"@[0] == 'm');
    assert("phi3"@[0] == 'p');
    assert("internlm3"@[0] == 'i');
    assert("qwen2_moe"@[0] == 'q');
    assert("qwen3_moe"@[0] == 'q');
    assert("qwen2_moe"@[4] == '2');
    assert("qwen3_moe"@[4] == '3');
}

/// An accepted document is of a supported type.
proof fn lemma_document_type(root: JsonView, c: Config)
    requires
        config_error(root) is None,
        describes(root, c),
    ensures
        ({
            let v = language_part(root);
            let t = v.get_text("model_type"@).unwrap();
            let molmo2 = root.get_text("model_type"@) == Some("molmo2"@);
            let family = document_family(root);
            &&& v.get_text("model_type"@) is Some
            &&& family == family_of(Some(t), molmo2)
            &&& t == "molmo2_text"@ ==> molmo2
            &&& family_error(family, v, Some(t)) is None
            &&& family != Family::Unsupported && family != Family::Minicpm3
            &&& family != Family::Deepseek && family != Family::Phimoe && family != Family::Glm4Moe
            &&& family != Family::Dots1 && family != Family::Ernie45
            &&& family != Family::Ernie45Moe && family != Family::GptOss
            &&& (family == Family::Llama) == (t == "llama"@)
            &&& (family == Family::Minicpm) == (t == "minicpm"@)
            &&& (family == Family::Qwen2) == (t == "qwen2"@ || t == "qwen2_vl"@)
            &&& (family == Family::Qwen3) == (t == "qwen3"@)
            &&& (family == Family::Gemma) == (t == "gemma"@)
            &&& (family == Family::Gemma2) == (t == "gemma2"@)
            &&& (family == Family::Gemma3) == (t == "gemma3"@ || t == "gemma3_text"@)
            &&& (family == Family::Smollm3) == (t == "smollm3"@)
            &&& (family == Family::Olmo2) == (t == "olmo2"@)
            &&& (family == Family::Olmo3) == (t == "olmo3"@)
            &&& (family == Family::OptionalBias) == (t == "seed_oss"@ || t == "mimo"@ || t == "internlm3"@)
            &&& (family == Family::Exaone) == (t == "exaone"@)
            &&& (family == Family::Cohere) == (t == "cohere"@)
            &&& (family == Family::Cohere2) == (t == "cohere2"@)
            &&& (family == Family::Phi3) == (t == "phi3"@ || t == "phi4mm"@)
            &&& (family == Family::Stablelm) == (t == "stablelm"@)
            &&& (family == Family::Starcoder2) == (t == "starcoder2"@)
            &&& (family == Family::Granite) == (t == "granite"@)
            &&& (family == Family::Mixtral) == (t == "mixtral"@)
            &&& (family == Family::Qwen2Moe) == (t == "qwen2_moe"@)
            &&& (family == Family::Qwen3Moe) == (t == "qwen3_moe"@)
            &&& (family == Family::Olmoe) == (t == "olmoe"@)
            &&& (family == Family::Molmo2Text) == (t == "molmo2_text"@)
        }),
{
    reveal(arch_error);
    reveal(family_error);
    let v = language_part(root);
    let molmo2 = root.get_text("model_type"@) == Some("molmo2"@);
    assert(family_of(None, molmo2) == Family::Unsupported) by {
        reveal(family_of);
    }
    if let Some(t) = v.get_text("model_type"@) {
        lemma_family_types(t, molmo2);
        if t == "molmo2_text"@ && !molmo2 {
            lemma_lone_molmo2();
        }
    }
}

/// Molmo2's language model is not supported on its own.
proof fn lemma_lone_molmo2()
    ensures
        family_of(Some("molmo2_text"@), false) == Family::Unsupported,
{
    reveal(family_of);
    reveal_strlit("llama");
    reveal_strlit("minicpm");
    reveal_strlit("qwen2");
    reveal_strlit("qwen2_vl");
    reveal_strlit("qwen3");
    reveal_strlit("gemma");
    reveal_strlit("gemma2");
    reveal_strlit("gemma3");
    reveal_strlit("gemma3_text");
    reveal_strlit("smollm3");
    reveal_strlit("olmo2");
    reveal_strlit("olmo3");
    reveal_strlit("seed_oss");
    reveal_strlit("mimo");
    reveal_strlit("internlm3");
    reveal_strlit("exaone");
    reveal_strlit("cohere");
    reveal_strlit("cohere2");
    reveal_strlit("phi3");
    reveal_strlit("phi4mm");
    reveal_strlit("molmo2_text");
    reveal_strlit("stablelm");
    reveal_strlit("starcoder2");
    reveal_strlit("granite");
    reveal_strlit("minicpm3");
    reveal_strlit("mixtral");
    reveal_strlit("qwen2_moe");
    reveal_strlit("qwen3_moe");
    reveal_strlit("olmoe");
    reveal_strlit("deepseek_v2");
    reveal_strlit("deepseek_v3");
    reveal_strlit("phimoe");
    reveal_strlit("glm4_moe");
    reveal_strlit("dots1");
    reveal_strlit("ernie4_5");
    reveal_strlit("ernie4_5_moe");
    reveal_strlit("gpt_oss");
    assert("llama"@.len() == 5);
    assert("minicpm"@.len() == 7);
    assert("qwen2"@.len() == 5);
    assert("qwen2_vl"@.len() == 8);
    assert("qwen3"@.len() == 5);
    assert("gemma"@.len() == 5);
    assert("gemma2"@.len() == 6);
    assert("gemma3"@.len() == 6);
    assert("gemma3_text"@[0] != "molmo2_text"@[0]);
    assert("smollm3"@.len() == 7);
    assert("olmo2"@.len() == 5);
    assert("olmo3"@.len() == 5);
    assert("seed_oss"@.len() == 8);
    assert("mimo"@.len() == 4);
    assert("internlm3"@.len() == 9);
    assert("exaone"@.len() == 6);
    assert("cohere"@.len() == 6);
    assert("cohere2"@.len() == 7);
    assert("phi3"@.len() == 4);
    assert("phi4mm"@.len() == 6);
    assert("stablelm"@.len() == 8);
    assert("starcoder2"@.len() == 10);
    assert("granite"@.len() == 7);
    assert("minicpm3"@.len() == 8);
    assert("mixtral"@.len() == 7);
    assert("qwen2_moe"@.len() == 9);
    assert("qwen3_moe"@.len() == 9);
    assert("olmoe"@.len() == 5);
    assert("deepseek_v2"@[0] != "molmo2_text"@[0]);
    assert("deepseek_v3"@[0] != "molmo2_text"@[0]);
    assert("phimoe"@.len() == 6);
    assert("glm4_moe"@.len() == 8);
    assert("dots1"@.len() == 5);
    assert("ernie4_5"@.len() == 8);
    assert("ernie4_5_moe"@.len() == 12);
    assert("gpt_oss"@.len() == 7);
    assert("molmo2_text"@.len() == 11);
}

/// No entry of a list without a first non-number is one.
proof fn lemma_all_numbers(values: Seq<JsonView>, from: int)
    requires
        0 <= from <= values.len(),
        first_non_number(values, from) is None,
    ensures
        forall|i: int| from <= i < values.len() ==> (#[trigger] values[i]).as_double() is Some,
    decreases values.len() - from,
{
    if from < values.len() {
        lemma_all_numbers(values, from + 1);
    }
}

/// The soft-caps of the Gemma generations with four norms are the numbers under their own
/// keys, attention and final logits each; no other model has one.
pub proof fn law_soft_caps_are_read_under_their_keys(root: JsonView, c: Config)
    requires
        config_error(root) is None,
        describes(root, c),
    ensures
        ({
            let v = language_part(root);
            &&& c.attn_logit_softcap == (if (of_type(root, "gemma2"@) || of_type(root, "gemma3"@) || of_type(root, "gemma3_text"@)) {
                v.get_double("attn_logit_softcapping"@)
            } else {
                None
            })
            &&& c.final_logit_softcap == (if (of_type(root, "gemma2"@) || of_type(root, "gemma3"@) || of_type(root, "gemma3_text"@)) {
                v.get_double("final_logit_softcapping"@)
            } else {
                None
            })
        }),
{
    lemma_document_type(root, c);
    reveal(arch_of);
}

/// Embedding scale, the norm with one added and the tanh GELU gate are what all Gemma
/// generations have, and no other model.
pub proof fn law_gemma_variants_go_together(root: JsonView, c: Config)
    requires
        config_error(root) is None,
        describes(root, c),
    ensures
        ({
            let v = language_part(root);
            &&& c.embed_scale == (of_type(root, "gemma"@) || of_type(root, "gemma2"@) || of_type(root, "gemma3"@) || of_type(root, "gemma3_text"@))
            &&& c.norm_one_plus == (of_type(root, "gemma"@) || of_type(root, "gemma2"@) || of_type(root, "gemma3"@) || of_type(root, "gemma3_text"@))
            &&& c.mlp_geglu == (of_type(root, "gemma"@) || of_type(root, "gemma2"@) || of_type(root, "gemma3"@) || of_type(root, "gemma3_text"@))
        }),
{
    lemma_document_type(root, c);
    reveal(arch_of);
}

/// Norm placement and query/key norms go by the model type.
pub proof fn law_norms_go_by_the_model_type(root: JsonView, c: Config)
    requires
        config_error(root) is None,
        describes(root, c),
    ensures
        ({
            let v = language_part(root);
            &&& (c.norm_style == NormStyle::GemmaFf) == (of_type(root, "gemma2"@) || of_type(root, "gemma3"@) || of_type(root, "gemma3_text"@))
            &&& (c.norm_style == NormStyle::OlmoPost) == (of_type(root, "olmo2"@) || of_type(root, "olmo3"@))
            &&& (c.qk_norm == Some(QkNorm { per_head: true, one_plus: true })) == (of_type(root, "gemma3"@) || of_type(root, "gemma3_text"@))
            &&& (c.qk_norm == Some(QkNorm { per_head: false, one_plus: false })) == (of_type(root, "olmo2"@) || of_type(root, "olmo3"@) || of_type(root, "olmoe"@))
            &&& (c.qk_norm == Some(QkNorm { per_head: true, one_plus: false })) == (of_type(root, "qwen3"@) || of_type(root, "qwen3_moe"@) || of_type(root, "molmo2_text"@))
            &&& (c.qk_norm is Some) == (of_type(root, "gemma3"@) || of_type(root, "gemma3_text"@) || of_type(root, "olmo2"@) || of_type(root, "olmo3"@) || of_type(root, "olmoe"@) || of_type(root, "qwen3"@) || of_type(root, "qwen3_moe"@) || of_type(root, "molmo2_text"@))
            &&& c.layernorm == (of_type(root, "cohere"@) || of_type(root, "cohere2"@) || of_type(root, "stablelm"@) || of_type(root, "starcoder2"@))
            &&& c.norm_bias == (of_type(root, "stablelm"@) || of_type(root, "starcoder2"@))
        }),
{
    lemma_document_type(root, c);
    reveal(arch_of);
}

/// The q/k/v bias, the output bias and the MLP bias are what the key of the model type says.
pub proof fn law_biases_are_read_under_their_keys(root: JsonView, c: Config)
    requires
        config_error(root) is None,
        describes(root, c),
    ensures
        ({
            let v = language_part(root);
            &&& c.qkv_bias == (if (of_type(root, "qwen2"@) || of_type(root, "qwen2_vl"@) || of_type(root, "qwen2_moe"@)) {
                true
            } else if (of_type(root, "seed_oss"@) || of_type(root, "mimo"@) || of_type(root, "internlm3"@)) {
                v.get_bool("attention_bias"@) == Some(true) || v.get_bool("qkv_bias"@) == Some(true)
            } else if (of_type(root, "cohere"@) || of_type(root, "cohere2"@) || of_type(root, "granite"@)) {
                v.get_bool("attention_bias"@) == Some(true)
            } else if (of_type(root, "stablelm"@)) {
                v.get_bool("use_qkv_bias"@) == Some(true)
            } else if (of_type(root, "starcoder2"@)) {
                v.get_bool("use_bias"@) != Some(false)
            } else {
                false
            })
            &&& c.attn_o_bias == (if (of_type(root, "cohere"@) || of_type(root, "cohere2"@) || of_type(root, "granite"@)) {
                v.get_bool("attention_bias"@) == Some(true)
            } else {
                (of_type(root, "starcoder2"@)) && v.get_bool("use_bias"@) != Some(false)
            })
            &&& c.mlp_bias == (if (of_type(root, "granite"@)) {
                v.get_bool("mlp_bias"@) == Some(true)
            } else {
                (of_type(root, "starcoder2"@)) && v.get_bool("use_bias"@) != Some(false)
            })
        }),
{
    lemma_document_type(root, c);
    reveal(arch_of);
}

/// The sliding window and its period are read under their keys, where the model type has
/// windows: a window of 4096 where none is stated, and a period of at least 1.
pub proof fn law_windows_are_read_under_their_keys(root: JsonView, c: Config)
    requires
        config_error(root) is None,
        describes(root, c),
    ensures
        ({
            let v = language_part(root);
            &&& c.sliding_window == (if (of_type(root, "gemma2"@) || of_type(root, "gemma3"@) || of_type(root, "gemma3_text"@) || of_type(root, "cohere2"@)) {
                Some(
                    match v.get_size("sliding_window"@) {
                        Some(n) => n,
                        None => 4096,
                    },
                )
            } else if (of_type(root, "olmo3"@)) {
                v.get_size("sliding_window"@)
            } else {
                None
            })
            &&& (of_type(root, "gemma3"@) || of_type(root, "gemma3_text"@)) && v.get_size("sliding_window_pattern"@) is None ==> c.sliding_pattern == 6
            &&& ((of_type(root, "cohere2"@)) || ((of_type(root, "olmo3"@)) && v.get_size("sliding_window"@) is Some)) && v.get_size(
                "sliding_window_pattern"@,
            ) is None ==> c.sliding_pattern == 4
            &&& ((of_type(root, "gemma3"@) || of_type(root, "gemma3_text"@) || of_type(root, "cohere2"@)) || ((of_type(root, "olmo3"@)) && v.get_size("sliding_window"@) is Some)) ==> (v.get_size(
                "sliding_window_pattern"@,
            ) matches Some(n) ==> c.sliding_pattern == (if n == 0 {
                1
            } else {
                n
            }))
            &&& !(of_type(root, "gemma3"@) || of_type(root, "gemma3_text"@) || of_type(root, "cohere2"@)) && !((of_type(root, "olmo3"@)) && v.get_size("sliding_window"@) is Some) ==> c.sliding_pattern == 2
            &&& c.rope_on_sliding_only == (of_type(root, "cohere2"@))
            &&& c.rope_local_base == (if (of_type(root, "gemma3"@) || of_type(root, "gemma3_text"@)) {
                Some(
                    match v.get_double("rope_local_base_freq"@) {
                        Some(bits) => Scalar::Double(bits),
                        None => Scalar::Count(10000),
                    },
                )
            } else if (of_type(root, "olmo3"@)) {
                match v.get_double("rope_local_base_freq"@) {
                    Some(bits) => Some(Scalar::Double(bits)),
                    None => None,
                }
            } else {
                None
            })
        }),
{
    lemma_document_type(root, c);
    reveal(arch_of);
}

/// The scalar multipliers are read under the keys of the model type, each its own.
pub proof fn law_multipliers_are_read_under_their_keys(root: JsonView, c: Config)
    requires
        config_error(root) is None,
        describes(root, c),
    ensures
        ({
            let v = language_part(root);
            &&& c.query_pre_attn_scalar == (if (of_type(root, "gemma2"@) || of_type(root, "gemma3"@) || of_type(root, "gemma3_text"@)) {
                Some(
                    match v.get_double("query_pre_attn_scalar"@) {
                        Some(bits) => Scalar::Double(bits),
                        None => Scalar::Count(c.head_dim),
                    },
                )
            } else {
                None
            })
            &&& c.attention_multiplier == (if (of_type(root, "granite"@)) {
                v.get_double("attention_multiplier"@)
            } else {
                None
            })
            &&& c.embedding_multiplier == (if (of_type(root, "granite"@)) {
                v.get_double("embedding_multiplier"@)
            } else if (of_type(root, "llama"@) || of_type(root, "minicpm"@)) {
                v.get_double("scale_emb"@)
            } else {
                None
            })
            &&& c.residual_multiplier == (if (of_type(root, "granite"@)) {
                match v.get_double("residual_multiplier"@) {
                    Some(bits) => Some(Scalar::Double(bits)),
                    None => None,
                }
            } else if (of_type(root, "llama"@) || of_type(root, "minicpm"@)) && v.get_double("scale_emb"@) is Some {
                match v.get_double("scale_depth"@) {
                    Some(numerator) => Some(Scalar::OverSqrt { numerator, count: c.n_layers }),
                    None => None,
                }
            } else {
                None
            })
            &&& c.logit_mul == (if (of_type(root, "cohere"@) || of_type(root, "cohere2"@)) {
                Some(
                    match v.get_double("logit_scale"@) {
                        Some(bits) => Scalar::Double(bits),
                        None => Scalar::Double(0x3fb0_0000_0000_0000u64),
                    },
                )
            } else {
                None
            })
            &&& c.logit_div == (if (of_type(root, "granite"@)) {
                match v.get_double("logits_scaling"@) {
                    Some(bits) => Some(Scalar::Double(bits)),
                    None => None,
                }
            } else if (of_type(root, "llama"@) || of_type(root, "minicpm"@)) && v.get_double("scale_emb"@) is Some {
                match v.get_double("dim_model_base"@) {
                    Some(denominator) => Some(
                        Scalar::CountOver { count: c.hidden, denominator },
                    ),
                    None => None,
                }
            } else {
                None
            })
        }),
{
    lemma_document_type(root, c);
    reveal(arch_of);
}

/// Block layout, fused tensors and tensor names go by the model type.
pub proof fn law_layouts_go_by_the_model_type(root: JsonView, c: Config)
    requires
        config_error(root) is None,
        describes(root, c),
    ensures
        ({
            let v = language_part(root);
            &&& c.parallel_block == ((of_type(root, "cohere"@) || of_type(root, "cohere2"@)) || ((of_type(root, "stablelm"@)) && v.get_bool("use_parallel_residual"@) == Some(true)))
            &&& c.rope_interleaved == (of_type(root, "cohere"@) || of_type(root, "cohere2"@))
            &&& c.dense_mlp == (of_type(root, "starcoder2"@))
            &&& c.fused_qkv == (of_type(root, "phi3"@) || of_type(root, "phi4mm"@) || of_type(root, "molmo2_text"@))
            &&& c.fused_gate_up == (of_type(root, "phi3"@) || of_type(root, "phi4mm"@) || of_type(root, "molmo2_text"@))
            &&& (c.weight_scheme == WeightScheme::Exaone) == (of_type(root, "exaone"@))
            &&& (c.weight_scheme == WeightScheme::Molmo2) == (of_type(root, "molmo2_text"@))
            &&& c.tie_word_embeddings == (match v.get_bool("tie_word_embeddings"@) {
                Some(b) => b,
                None => !(of_type(root, "minicpm"@) || of_type(root, "phi3"@) || of_type(root, "phi4mm"@) || of_type(root, "molmo2_text"@) || of_type(root, "stablelm"@)),
            })
            &&& c.rotary_dim is Some ==> (of_type(root, "phi3"@) || of_type(root, "phi4mm"@) || of_type(root, "stablelm"@))
        }),
{
    lemma_document_type(root, c);
    reveal(arch_of);
}

/// Every size is the number under its key; a head that is not stated is an equal share of
/// the hidden width, and the layer count and the epsilon are read under the first of their
/// names.
pub proof fn law_sizes_are_read_under_their_keys(root: JsonView, c: Config)
    requires
        config_error(root) is None,
        describes(root, c),
    ensures
        ({
            let v = language_part(root);
            &&& v.get_size("hidden_size"@) == Some(c.hidden)
            &&& v.get_size("intermediate_size"@) == Some(c.inter)
            &&& v.get_size("num_attention_heads"@) == Some(c.n_q)
            &&& v.get_size("num_key_value_heads"@) == Some(c.n_kv)
            &&& v.get_size("vocab_size"@) == Some(c.vocab)
            &&& v.get_double("rope_theta"@) == Some(c.rope_theta)
            &&& v.get_size("head_dim"@) is Some ==> v.get_size("head_dim"@) == Some(c.head_dim)
            &&& v.get_size("head_dim"@) is None && c.n_q > 0 ==> c.head_dim == c.hidden / c.n_q
            &&& v.get_size("head_dim"@) is None && c.n_q == 0 ==> c.head_dim == c.hidden
            &&& v.get_size("num_hidden_layers"@) is Some ==> v.get_size("num_hidden_layers"@) == Some(
                c.n_layers,
            )
            &&& v.get_size("num_hidden_layers"@) is None ==> v.get_size("num_layers"@) == Some(c.n_layers)
            &&& v.get_double("rms_norm_eps"@) is Some ==> v.get_double("rms_norm_eps"@) == Some(c.eps)
            &&& v.get_double("rms_norm_eps"@) is None && v.get_double("layer_norm_eps"@) is Some
                ==> v.get_double("layer_norm_eps"@) == Some(c.eps)
            &&& v.get_double("rms_norm_eps"@) is None && v.get_double("layer_norm_eps"@) is None
                && v.get_double("layer_norm_epsilon"@) is Some ==> v.get_double("layer_norm_epsilon"@)
                == Some(c.eps)
            &&& v.get_double("rms_norm_eps"@) is None && v.get_double("layer_norm_eps"@) is None
                && v.get_double("layer_norm_epsilon"@) is None ==> v.get_double("norm_epsilon"@)
                == Some(c.eps)
            &&& c.context_capacity == 256
        }),
{
    lemma_document_type(root, c);
    reveal(arch_of);
    reveal(arch_error);
}

/// The quantization is the block of the language model, else the one beside it: its bits and
/// its group size, each under its key.
pub proof fn law_quantization_is_read_under_its_keys(root: JsonView, c: Config)
    requires
        config_error(root) is None,
        describes(root, c),
    ensures
        ({
            let v = language_part(root);
            &&& ({
                let own = v.get("quantization"@);
                let block = if own is Some {
                    own
                } else {
                    root.get("quantization"@)
                };
                match c.quantization {
                    None => block is None || block == Some(JsonView::Null),
                    Some(q) => block matches Some(b) && b.get_size("bits"@) == Some(q.bits)
                        && b.get_size("group_size"@) == Some(q.group_size),
                }
            })
        }),
{
    lemma_document_type(root, c);
    reveal(arch_of);
}

/// A scaled RoPE table takes each number from its key: of the scaling block, and the context
/// bounds of a long table from the model.
pub proof fn law_rope_scaling_is_read_under_its_keys(root: JsonView, c: Config)
    requires
        config_error(root) is None,
        describes(root, c),
    ensures
        ({
            let v = language_part(root);
            &&& ({
                let block = v.get("rope_scaling"@);
                let scaling = block.unwrap();
                match c.rope {
                    RopeScaling::Plain => block is None || block == Some(JsonView::Null) || (
                    scaling.get_text("rope_type"@) != Some("llama3"@) && (scaling.get(
                        "rope_type"@,
                    ) is None ==> scaling.get_text("type"@) != Some("llama3"@))),
                    RopeScaling::Llama3 { factor, low_freq_factor, high_freq_factor, orig_ctx } => {
                        &&& block is Some
                        &&& scaling.get_double("factor"@) == Some(factor)
                        &&& scaling.get_double("low_freq_factor"@) == Some(low_freq_factor)
                        &&& scaling.get_double("high_freq_factor"@) == Some(high_freq_factor)
                        &&& scaling.get_size("original_max_position_embeddings"@) == Some(orig_ctx)
                    },
                    RopeScaling::LongRope { factors, amplitude } => {
                        &&& block is Some
                        &&& scaling.get_array("long_factor"@) matches Some(listed) && listed.len()
                            == factors@.len() && forall|i: int|
                            0 <= i < listed.len() ==> (#[trigger] listed[i]).as_double() == Some(
                                factors@[i],
                            )
                        &&& amplitude matches Scalar::LongRopeAmplitude { original, maximum }
                            && v.get_size("original_max_position_embeddings"@) == Some(original)
                            && v.get_size("max_position_embeddings"@) == Some(maximum)
                    },
                }
            })
        }),
{
    lemma_document_type(root, c);
    reveal(arch_of);
    reveal(block_error);
    reveal(rope_error);
    reveal(rope_is);
    reveal_strlit("llama3");
    reveal_strlit("default");
    reveal_strlit("dynamic");
    reveal_strlit("mrope");
    assert("llama3"@.len() == 6 && "default"@.len() == 7 && "dynamic"@.len() == 7 && "mrope"@.len()
        == 5);
    if c.rope is LongRope {
        let listed = language_part(root).get("rope_scaling"@).unwrap().get_array("long_factor"@).unwrap();
        lemma_all_numbers(listed, 0);
    }
}

/// The M-RoPE sections are the three numbers of the section list in their order; they are
/// interleaved where the block says so, else for Qwen3 alone.
pub proof fn law_sections_are_read_in_order(root: JsonView, c: Config)
    requires
        config_error(root) is None,
        describes(root, c),
    ensures
        ({
            let v = language_part(root);
            &&& ({
                let block = v.get("rope_scaling"@);
                let section = block.unwrap().get("mrope_section"@);
                match c.mrope {
                    None => block is None || section is None,
                    Some(m) => {
                        &&& block is Some
                        &&& section.unwrap() matches JsonView::Array(axes) && axes.len() == 3
                            && axes[0].as_u64() == Some(m.sections@[0] as u64) && axes[1].as_u64()
                            == Some(m.sections@[1] as u64) && axes[2].as_u64() == Some(
                            m.sections@[2] as u64,
                        )
                        &&& (m.layout == MropeLayout::Interleaved) == (match block.unwrap().get_bool(
                            "mrope_interleaved"@,
                        ) {
                            Some(b) => b,
                            None => of_type(root, "qwen3"@),
                        })
                    },
                }
            })
        }),
{
    lemma_document_type(root, c);
    reveal(arch_of);
    reveal(block_error);
    reveal(mrope_error);
    reveal(mrope_is);
}

/// The expert parameters are read under the keys of the model type.
pub proof fn law_experts_are_read_under_their_keys(root: JsonView, c: Config)
    requires
        config_error(root) is None,
        describes(root, c),
    ensures
        ({
            let v = language_part(root);
            &&& (c.moe is Some) == (of_type(root, "mixtral"@) || of_type(root, "qwen2_moe"@) || of_type(root, "qwen3_moe"@) || of_type(root, "olmoe"@))
            &&& c.moe matches Some(m) ==> {
                &&& v.get_size(
                    if of_type(root, "mixtral"@) {
                        "num_local_experts"@
                    } else {
                        "num_experts"@
                    },
                ) == Some(m.n_experts)
                &&& v.get_size("num_experts_per_tok"@) == Some(m.top_k)
                &&& v.get_size(
                    if (of_type(root, "mixtral"@) || of_type(root, "olmoe"@)) {
                        "intermediate_size"@
                    } else {
                        "moe_intermediate_size"@
                    },
                ) == Some(m.intermediate)
                &&& m.norm_topk_prob == (of_type(root, "mixtral"@) || v.get_bool(
                    "norm_topk_prob"@,
                ) == Some(true))
                &&& m.first_k_dense == 0
                &&& m.routed_scaling_factor == 0x3ff0_0000_0000_0000u64
                &&& m.weight_prefix@ == (if of_type(root, "mixtral"@) {
                    "block_sparse_moe"@
                } else {
                    "mlp"@
                })
                &&& (m.shared is Some) == of_type(root, "qwen2_moe"@)
                &&& m.shared matches Some(shared) ==> shared.gated && v.get_size(
                    "shared_expert_intermediate_size"@,
                ) == Some(shared.intermediate)
            }
        }),
{
    lemma_document_type(root, c);
    reveal(arch_of);
    reveal(moe_is);
}

/// The adapters of Phi4MM are read from their own blocks: speech and vision, rank and scale.
pub proof fn law_adapters_are_read_under_their_keys(root: JsonView, c: Config)
    requires
        config_error(root) is None,
        describes(root, c),
    ensures
        ({
            let v = language_part(root);
            &&& root.get_text("model_type"@) != Some("phi4mm"@) ==> c.phi4_lora is None
            &&& root.get_text("model_type"@) == Some("phi4mm"@) ==> (c.phi4_lora matches Some(l) && {
                let speech = v.get("speech_lora"@).unwrap();
                let vision = v.get("vision_lora"@).unwrap();
                &&& speech.get_u64("r"@) == Some(l.speech_rank as u64) && l.speech_rank > 0
                &&& vision.get_u64("r"@) == Some(l.vision_rank as u64) && l.vision_rank > 0
                &&& l.speech_scale matches Scalar::OverCount { numerator, count } && count
                    == l.speech_rank && speech.get_double("lora_alpha"@) == Some(numerator)
                &&& l.vision_scale matches Scalar::OverCount { numerator, count } && count
                    == l.vision_rank && vision.get_double("lora_alpha"@) == Some(numerator)
            })
        }),
{
    lemma_document_type(root, c);
    reveal(arch_of);
    reveal(block_error);
    reveal(phi4_lora_error);
    reveal(phi4_lora_of);
}

/// The layers that do not rotate are those that SmolLM3 lists with 0; the DeepStack layers and
/// their bucket are the numbers under their keys.
pub proof fn law_masks_and_deepstack_are_read_under_their_keys(root: JsonView, c: Config)
    requires
        config_error(root) is None,
        describes(root, c),
    ensures
        ({
            let v = language_part(root);
            &&& c.use_rope_layers matches Some(mask) ==> of_type(root, "smollm3"@) && (v.get_array(
                "no_rope_layers"@,
            ) matches Some(listed) && listed.len() == mask@.len() && forall|i: int|
                0 <= i < listed.len() ==> #[trigger] mask@[i] == (listed[i].as_i64() != Some(0i64)))
            &&& of_type(root, "smollm3"@) && c.use_rope_layers is None ==> (v.get_array("no_rope_layers"@) matches Some(
                listed,
            ) ==> forall|i: int|
                0 <= i < listed.len() ==> (#[trigger] listed[i]).as_i64() != Some(0i64))
            &&& c.deepstack matches Some(d) ==> {
                &&& v.get("deepstack_max_visual_positions"@) matches Some(n) && n.as_u64() matches Some(
                    m,
                ) && d.max_visual_positions == m as usize
                &&& v.get("deepstack_language_layer_indices"@) matches Some(l) && l.as_array() matches Some(
                    listed,
                ) && listed.len() == d.target_layer_indices@.len() && forall|i: int|
                    0 <= i < listed.len() ==> ((#[trigger] listed[i]).as_u64() matches Some(n)
                        && d.target_layer_indices@[i] == n as usize)
            }
        }),
{
    lemma_document_type(root, c);
    reveal(arch_of);
    reveal(arch_error);
    reveal(rope_layers_are);
    reveal(deepstack_error);
    reveal(deepstack_is);
    let listed = language_part(root).get_array("no_rope_layers"@);
    if of_type(root, "smollm3"@) && c.use_rope_layers is None && listed is Some {
        let flags = rope_flags(listed.unwrap());
        assert forall|i: int| 0 <= i < listed.unwrap().len() implies (#[trigger] listed.unwrap()[i]).as_i64()
            != Some(0i64) by {
            if listed.unwrap()[i].as_i64() == Some(0i64) {
                assert(!flags[i]);
                assert(flags.contains(false));
            }
        }
    }
}

/// Phi3 and StableLM rotate the integer part of the head width times the factor under its key,
/// where that factor is below 1; without the key Phi3 rotates all and StableLM a quarter.
pub proof fn law_partial_rotation_is_read_under_its_key(root: JsonView, c: Config)
    requires
        config_error(root) is None,
        describes(root, c),
    ensures
        ({
            let v = language_part(root);
            &&& ({
                let factor = match v.get_double("partial_rotary_factor"@) {
                    Some(bits) => bits,
                    None => if of_type(root, "stablelm"@) {
                        0x3fd0_0000_0000_0000u64
                    } else {
                        0x3ff0_0000_0000_0000u64
                    },
                };
                (of_type(root, "phi3"@) || of_type(root, "phi4mm"@) || of_type(root, "stablelm"@)) ==> c.rotary_dim == (if factor >= 0x8000_0000_0000_0000 || factor
                    < 0x3ff0_0000_0000_0000 {
                    Some(scaled_floor(c.head_dim, factor))
                } else {
                    None
                })
            })
        }),
{
    lemma_document_type(root, c);
    reveal(arch_of);
}

/// What an accepted document does not ask for: biases, norms, clamps, schedules and
/// activations that its model type has no graph for.
pub proof fn law_accepted_documents_are_supported(root: JsonView, c: Config)
    requires
        config_error(root) is None,
        describes(root, c),
    ensures
        ({
            let v = language_part(root);
            &&& (of_type(root, "llama"@) || of_type(root, "minicpm"@)) ==> v.get_bool("attention_bias"@) != Some(true)
            &&& of_type(root, "cohere"@) ==> v.get_bool("use_qk_norm"@) != Some(true)
            &&& of_type(root, "stablelm"@) ==> v.get_bool("qk_layernorm"@) != Some(true)
            &&& of_type(root, "olmoe"@) ==> v.get_double("clip_qkv"@) is None
            &&& of_type(root, "qwen3_moe"@) ==> (v.get_size("decoder_sparse_step"@) matches Some(n) ==> n
                == 1) && (v.get_array("mlp_only_layers"@) matches Some(l) ==> l.len() == 0)
            &&& v.get_bool("attention_out_bias"@) == Some(true) ==> c.attn_o_bias
            &&& v.get_bool("mlp_bias"@) == Some(true) ==> c.mlp_bias
            &&& !c.mlp_geglu && !c.dense_mlp ==> (v.get("hidden_act"@) matches Some(JsonView::Text(a)) ==> a
                == "silu"@)
            &&& !c.mlp_geglu && !c.dense_mlp && v.get("hidden_act"@) is None ==> (v.get_text(
                "activation_function"@,
            ) matches Some(a) ==> a == "silu"@)
        }),
{
    lemma_document_type(root, c);
    reveal(arch_of);
    reveal(arch_error);
    reveal(variant_error);
    reveal(family_error);
    reveal(block_error);
    reveal(moe_error);
}

} // verus!
