use mlxcel_xla::config::{
    validate_context_capacity_value, Config, DeepStackConfig, MropeConfig, MropeLayout, NormStyle,
    Phi4LoraConfig, QuantConfig, RopeScaling, Scalar, ScoreScale, WeightScheme,
};

fn double_of(scalar: Scalar) -> f64 {
    match scalar {
        Scalar::Double(bits) => f64::from_bits(bits),
        Scalar::Count(count) => count as f64,
        Scalar::OverSqrt { numerator, count } => f64::from_bits(numerator) / (count as f64).sqrt(),
        Scalar::CountOver { count, denominator } => count as f64 / f64::from_bits(denominator),
        Scalar::OverCount { numerator, count } => f64::from_bits(numerator) / count as f64,
        Scalar::LongRopeAmplitude { original, maximum } => {
            let (original, maximum) = (original as f64, maximum as f64);
            (1.0 + (maximum / original).ln() / original.ln()).sqrt()
        }
    }
}

#[test]
fn rejects_ernie4_5_interleaved_rope() {
    let j = r#"{"model_type":"ernie4_5","hidden_size":1024,"intermediate_size":3072,
        "num_hidden_layers":18,"num_attention_heads":16,"num_key_value_heads":2,
        "head_dim":128,"rms_norm_eps":1e-5,"rope_theta":500000,"vocab_size":103424,
        "tie_word_embeddings":true,"hidden_act":"silu","use_bias":false}"#;
    let err = Config::from_json_str(j).expect_err("ernie4_5 is deferred");
    assert!(
        err.contains("interleaved"),
        "names the interleaved-RoPE reason: {err}"
    );
}

#[test]
fn parses_seed_oss_as_qkv_bias_default_rope() {
    let j = r#"{"model_type":"seed_oss","hidden_size":5120,"intermediate_size":27648,
        "num_hidden_layers":64,"num_attention_heads":80,"num_key_value_heads":8,
        "head_dim":128,"rms_norm_eps":1e-6,"rope_theta":1e7,"vocab_size":155136,
        "tie_word_embeddings":false,"attention_bias":true,"attention_out_bias":false,
        "rope_scaling":{"rope_type":"default"},"hidden_act":"silu"}"#;
    let c = Config::from_json_str(j).expect("seed_oss parses");
    assert!(c.qkv_bias, "attention_bias=true -> q/k/v bias");
    assert_eq!(c.rope, RopeScaling::Plain, "rope_type default -> plain");
    assert!(!c.tie_word_embeddings, "seed_oss is untied");
}

#[test]
fn parses_mimo_qkv_bias_ignores_sliding_window() {
    let j = r#"{"model_type":"mimo","hidden_size":4096,"intermediate_size":11008,
        "num_hidden_layers":36,"num_attention_heads":32,"num_key_value_heads":8,
        "head_dim":128,"rms_norm_eps":1e-5,"rope_theta":640000,"vocab_size":151680,
        "tie_word_embeddings":false,"attention_bias":true,"sliding_window":32768,
        "use_sliding_window":true,"hidden_act":"silu"}"#;
    let c = Config::from_json_str(j).expect("mimo parses");
    assert!(c.qkv_bias);
    assert_eq!(c.rope, RopeScaling::Plain);
    assert_eq!(
        c.sliding_window, None,
        "non-gemma2 sliding_window is ignored"
    );
}

#[test]
fn parses_internlm3_dynamic_rope_as_plain() {
    let j = r#"{"model_type":"internlm3","hidden_size":4096,"intermediate_size":10240,
        "num_hidden_layers":48,"num_attention_heads":32,"num_key_value_heads":2,
        "head_dim":128,"rms_norm_eps":1e-5,"rope_theta":50000000,"vocab_size":128512,
        "tie_word_embeddings":false,"qkv_bias":false,
        "rope_scaling":{"rope_type":"dynamic","factor":6.0},"hidden_act":"silu"}"#;
    let c = Config::from_json_str(j).expect("internlm3 parses");
    assert_eq!(c.rope, RopeScaling::Plain, "dynamic -> plain (in-context)");
    assert!(!c.qkv_bias, "qkv_bias=false");
    assert!(!c.tie_word_embeddings);
    let biased = j.replace("\"qkv_bias\":false", "\"qkv_bias\":true");
    assert!(Config::from_json_str(&biased).unwrap().qkv_bias);
}

#[test]
fn parses_exaone_alt_fields_and_scheme() {
    let j = r#"{"model_type":"exaone","hidden_size":2560,"intermediate_size":7168,
        "num_layers":30,"num_attention_heads":32,"num_key_value_heads":8,"head_dim":80,
        "layer_norm_epsilon":1e-5,"rope_theta":1000000,"vocab_size":102400,
        "tie_word_embeddings":true,"activation_function":"silu",
        "rope_scaling":{"rope_type":"llama3","factor":8.0,"low_freq_factor":1.0,
        "high_freq_factor":4.0,"original_max_position_embeddings":8192}}"#;
    let c = Config::from_json_str(j).expect("exaone parses");
    assert_eq!(c.weight_scheme, WeightScheme::Exaone);
    assert_eq!(c.n_layers, 30, "num_layers -> n_layers");
    assert_eq!(c.eps, 1e-5f64.to_bits(), "layer_norm_epsilon -> eps");
    assert_eq!(c.head_dim, 80);
    assert!(c.tie_word_embeddings);
    assert!(matches!(c.rope, RopeScaling::Llama3 { factor, .. } if factor == 8.0f64.to_bits()));
}

#[test]
fn rejects_out_of_scope_dense_deltas() {
    let base = |extra: &str| {
        format!(
            r#"{{"model_type":"seed_oss","hidden_size":8,"intermediate_size":16,
            "num_hidden_layers":2,"num_attention_heads":2,"num_key_value_heads":1,
            "rms_norm_eps":1e-6,"rope_theta":1e4,"vocab_size":10{extra}}}"#
        )
    };
    assert!(
        Config::from_json_str(&base(",\"attention_out_bias\":true"))
            .unwrap_err()
            .contains("o_proj"),
        "o_proj bias rejected"
    );
    assert!(
        Config::from_json_str(&base(",\"mlp_bias\":true"))
            .unwrap_err()
            .contains("MLP bias"),
        "mlp bias rejected"
    );
    assert!(
        Config::from_json_str(&base(",\"hidden_act\":\"gelu\""))
            .unwrap_err()
            .contains("SwiGLU"),
        "non-silu activation rejected"
    );
    assert!(
        Config::from_json_str(&base(",\"rope_scaling\":{\"rope_type\":\"yarn\"}"))
            .unwrap_err()
            .contains("yarn"),
        "yarn rope rejected"
    );
    let glm = r#"{"model_type":"glm4_moe_lite","hidden_size":8,"intermediate_size":16,
        "num_hidden_layers":2,"num_attention_heads":2,"num_key_value_heads":1,
        "rms_norm_eps":1e-5,"rope_theta":1e4,"vocab_size":10}"#;
    assert!(
        Config::from_json_str(glm)
            .unwrap_err()
            .contains("model_type"),
        "unsupported model_type rejected"
    );
}

#[test]
fn parses_and_validates_explicit_mrope_sections() {
    let config = |model_type: &str, scaling: &str| {
        format!(
            r#"{{"model_type":"{model_type}","hidden_size":12,"intermediate_size":24,
            "num_hidden_layers":2,"num_attention_heads":2,"num_key_value_heads":1,
            "head_dim":6,"rms_norm_eps":1e-6,"rope_theta":1e6,"vocab_size":16,
            "tie_word_embeddings":true,"hidden_act":"silu",
            "rope_scaling":{{{scaling}}}}}"#
        )
    };
    let base = |model_type: &str, section: &str, extra: &str| {
        config(
            model_type,
            &format!(r#""rope_type":"mrope","mrope_section":{section}{extra}"#),
        )
    };

    let qwen2 =
        Config::from_json_str(&base("qwen2", "[1,1,1]", "")).expect("Qwen2 M-RoPE parses");
    assert_eq!(
        qwen2.mrope,
        Some(MropeConfig {
            sections: [1, 1, 1],
            layout: MropeLayout::Chunked,
        })
    );
    let qwen2_vl = Config::from_json_str(&base("qwen2_vl", "[1,1,1]", ""))
        .expect("Qwen2-VL root language config parses");
    assert_eq!(qwen2_vl.mrope, qwen2.mrope);
    assert!(qwen2_vl.qkv_bias);
    let qwen3 = Config::from_json_str(&base("qwen3", "[1,1,1]", "")).expect("Qwen3 parses");
    assert_eq!(
        qwen3.mrope.unwrap().layout,
        MropeLayout::Interleaved,
        "Qwen3 defaults to its interleaved layout"
    );
    let forced =
        Config::from_json_str(&base("qwen3", "[1,1,1]", ",\"mrope_interleaved\":false"))
            .expect("explicit layout override parses");
    assert_eq!(forced.mrope.unwrap().layout, MropeLayout::Chunked);

    let explicit_without_sections = config("qwen2", r#""rope_type":"mrope""#);
    let error = Config::from_json_str(&explicit_without_sections)
        .expect_err("explicit M-RoPE type without sections must fail");
    assert!(
        error.contains("requires rope_scaling.mrope_section"),
        "missing-section error identifies the required schema: {error}"
    );

    for (model_type, scaling, expected_layout) in [
        (
            "qwen2",
            r#""rope_type":"default","mrope_section":[1,1,1]"#,
            MropeLayout::Chunked,
        ),
        (
            "qwen3",
            r#""mrope_section":[1,1,1]"#,
            MropeLayout::Interleaved,
        ),
    ] {
        let parsed = Config::from_json_str(&config(model_type, scaling))
            .expect("M-RoPE sections are authoritative when rope type is default or omitted");
        assert_eq!(parsed.mrope.expect("M-RoPE config").layout, expected_layout);
    }

    for (json, needle) in [
        (base("qwen2", "[1,2]", ""), "exactly 3"),
        (base("qwen2", "[1,1,0]", ""), "positive"),
        (base("qwen2", "[1,1,2]", ""), "sum to"),
        (base("llama", "[1,1,1]", ""), "Qwen2/Qwen3"),
    ] {
        let error = Config::from_json_str(&json).expect_err("invalid M-RoPE must fail");
        assert!(
            error.contains(needle),
            "expected {needle:?} in validation error: {error}"
        );
    }
}

#[test]
fn llava_wrapper_uses_nested_qwen2_text_config() {
    let j = r#"{
        "model_type":"llava",
        "quantization":{"bits":4,"group_size":64},
        "vision_config":{"model_type":"siglip_vision_model"},
        "text_config":{
            "model_type":"qwen2","hidden_size":1024,"intermediate_size":2816,
            "num_hidden_layers":24,"num_attention_heads":16,"num_key_value_heads":16,
            "rms_norm_eps":1e-6,"rope_theta":1000000,"vocab_size":152000,
            "tie_word_embeddings":true
        }
    }"#;
    let config = Config::from_json_str(j).expect("nested LLaVA text config parses");
    assert_eq!(config.hidden, 1024);
    assert_eq!(config.n_layers, 24);
    assert!(config.qkv_bias);
    assert_eq!(
        config.quantization,
        Some(QuantConfig {
            bits: 4,
            group_size: 64
        })
    );
}

#[test]
fn phi4mm_pins_longrope_and_both_adapter_contracts() {
    let config = Config::from_json_str(
        r#"{
            "model_type":"phi4mm","hidden_size":8,"intermediate_size":16,
            "num_hidden_layers":2,"num_attention_heads":2,"num_key_value_heads":1,
            "head_dim":4,"partial_rotary_factor":1.0,"rms_norm_eps":1e-5,
            "rope_theta":10000.0,"vocab_size":32,"tie_word_embeddings":true,
            "max_position_embeddings":16,"original_max_position_embeddings":4,
            "hidden_act":"silu",
            "rope_scaling":{"type":"longrope","long_factor":[1.0,2.0]},
            "speech_lora":{"r":3,"lora_alpha":6},
            "vision_lora":{"r":2,"lora_alpha":5}
        }"#,
    )
    .expect("Phi4MM config");
    assert!(config.fused_qkv);
    assert!(config.fused_gate_up);
    let lora: Phi4LoraConfig = config.phi4_lora.unwrap();
    assert_eq!((lora.speech_rank, lora.vision_rank), (3, 2));
    assert_eq!((double_of(lora.speech_scale), double_of(lora.vision_scale)), (2.0, 2.5));
    let RopeScaling::LongRope { factors, amplitude } = config.rope else {
        panic!("Phi4MM must preserve LongRoPE");
    };
    assert_eq!(factors, vec![1.0f64.to_bits(), 2.0f64.to_bits()]);
    let expected = (1.0 + (4.0f64).ln() / (4.0f64).ln()).sqrt();
    assert!((double_of(amplitude) - expected).abs() < f64::EPSILON);
}

#[test]
fn phi4mm_rejects_incomplete_lora_and_longrope_shapes() {
    let base = r#"{
        "model_type":"phi4mm","hidden_size":8,"intermediate_size":16,
        "num_hidden_layers":2,"num_attention_heads":2,"num_key_value_heads":1,
        "head_dim":4,"partial_rotary_factor":1.0,"rms_norm_eps":1e-5,
        "rope_theta":10000.0,"vocab_size":32,
        "max_position_embeddings":16,"original_max_position_embeddings":4,
        "hidden_act":"silu",
        "rope_scaling":{"type":"longrope","long_factor":[1.0,2.0]},
        "speech_lora":{"r":3,"lora_alpha":6},
        "vision_lora":{"r":2,"lora_alpha":5}
    }"#;
    let missing = base.replace(
        r#""vision_lora":{"r":2,"lora_alpha":5}"#,
        r#""removed_vision_lora":null"#,
    );
    assert!(
        Config::from_json_str(&missing)
            .unwrap_err()
            .contains("vision_lora")
    );
    let wrong_factors = base.replace("[1.0,2.0]", "[1.0]");
    assert!(
        Config::from_json_str(&wrong_factors)
            .unwrap_err()
            .contains("requires 2")
    );
    let invalid_scale = base.replace(r#""lora_alpha":6"#, r#""lora_alpha":0"#);
    assert!(
        Config::from_json_str(&invalid_scale)
            .unwrap_err()
            .contains("positive and finite")
    );
}

#[test]
fn context_capacity_is_positive() {
    assert_eq!(validate_context_capacity_value(7), Ok(7));
    assert_eq!(
        validate_context_capacity_value(0).unwrap_err(),
        "context capacity must be positive"
    );
    let config = Config::llama_3_2_1b().with_context_capacity(64).unwrap();
    assert_eq!(config.context_capacity, 64);
    assert!(config.with_context_capacity(0).is_err());
}

#[test]
fn llama_defaults_share_queries_in_groups_of_four() {
    let config = Config::llama_3_2_1b();
    assert_eq!((config.hidden, config.n_layers, config.n_q, config.n_kv), (2048, 16, 32, 8));
    assert_eq!(config.group(), 4);
    assert_eq!(config.rotary_width(), 64);
    assert!(matches!(config.scale(), ScoreScale::InverseRootOfHead(64)));
    assert!(config.has_input_norm() && !config.has_post_attn_norm());
    assert!(!config.has_pre_ff_norm() && !config.has_post_ff_norm());
    assert!(!config.uses_mrope() && !config.is_moe_layer(0));
    assert!(config.layer_uses_rope(3) && !config.is_sliding_layer(3));
}

#[test]
fn gemma3_has_one_global_layer_per_period() {
    let mut config = Config::llama_3_2_1b();
    config.norm_style = NormStyle::GemmaFf;
    config.sliding_window = Some(512);
    config.sliding_pattern = 6;
    let global: Vec<usize> = (0..12).filter(|li| !config.is_sliding_layer(*li)).collect();
    assert_eq!(global, vec![5, 11]);
    assert!(config.has_post_attn_norm());
    assert!(config.has_pre_ff_norm() && config.has_post_ff_norm());
    config.sliding_window = None;
    assert!(!config.is_sliding_layer(0));
    assert!(!config.local_rope_layer(0));
}

#[test]
fn odd_rotary_widths_are_refused() {
    let document = |head: usize, rest: &str| {
        format!(
            r#"{{"hidden_size":12,"intermediate_size":8,"num_hidden_layers":1,
            "num_attention_heads":2,"num_key_value_heads":2,"head_dim":{head},
            "rms_norm_eps":1e-5,"layer_norm_eps":1e-5,"rope_theta":10000,"vocab_size":16{rest}}}"#
        )
    };
    let llama = r#","model_type":"llama""#;
    assert_eq!(Config::from_json_str(&document(6, llama)).unwrap().rotary_width(), 6);
    assert_eq!(
        Config::from_json_str(&document(3, llama)).unwrap_err(),
        "RoPE rotary width 3 must be an even value"
    );
    let partial = r#","model_type":"stablelm","partial_rotary_factor":0.5"#;
    assert_eq!(Config::from_json_str(&document(8, partial)).unwrap().rotary_width(), 4);
    assert!(Config::from_json_str(&document(6, partial)).unwrap_err().contains("width 3"));
}

#[test]
fn deepstack_layers_are_checked_against_the_model() {
    let stack = |layers: &[usize]| DeepStackConfig {
        target_layer_indices: layers.to_vec(),
        max_visual_positions: 4,
    };
    assert!(stack(&[0, 1, 2]).validate(3, 8).is_ok());
    assert!(stack(&[]).validate_structure(3).is_err());
    assert!(stack(&[3]).validate_structure(3).is_err());
    assert!(stack(&[1, 1]).validate_structure(3).is_err());
    assert!(stack(&[0]).validate_capacity(3).is_err());
}

#[test]
fn malformed_config_text_is_reported() {
    let error = Config::from_json_str("{").unwrap_err();
    assert!(error.starts_with("parse config.json: "), "{error}");
    assert_ne!(error, "parse config.json: {");
}
