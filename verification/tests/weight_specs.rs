use mlxcel_xla::config::{Config, Phi4LoraConfig, QkNorm, Scalar, WeightScheme};
use mlxcel_xla::weight_specs::{
    fused_gate_up, fused_qkv_name, weight_specs, weight_specs_q, QuantPart, WeightSpec,
};

fn phi4_config() -> Config {
    Config {
        hidden: 8,
        inter: 16,
        n_layers: 2,
        n_q: 2,
        n_kv: 1,
        head_dim: 4,
        rotary_dim: Some(4),
        vocab: 32,
        tie_word_embeddings: true,
        fused_qkv: true,
        fused_gate_up: true,
        phi4_lora: Some(Phi4LoraConfig {
            speech_rank: 3,
            speech_scale: Scalar::Double(2.0f64.to_bits()),
            vision_rank: 2,
            vision_scale: Scalar::Double(2.5f64.to_bits()),
        }),
        ..Config::llama_3_2_1b()
    }
}

#[test]
fn phi4mm_weight_schema_uses_base_layers_and_complete_adapter_pairs() {
    let config = phi4_config();
    let specs = weight_specs_q(&config, false);
    let names = specs
        .iter()
        .map(WeightSpec::tensor_name)
        .collect::<Vec<_>>();
    for layer in 0..config.n_layers {
        let prefix = format!("model.layers.{layer}");
        for projection in [
            "self_attn.qkv_proj",
            "self_attn.o_proj",
            "mlp.gate_up_proj",
            "mlp.down_proj",
        ] {
            let stem = format!("{prefix}.{projection}");
            assert!(
                names.contains(&format!("{stem}.base_layer.weight").as_str()),
                "missing immutable base projection {stem}"
            );
            for adapter in ["speech", "vision"] {
                assert!(names.contains(&format!("{stem}.lora_A.{adapter}.weight").as_str()));
                assert!(names.contains(&format!("{stem}.lora_B.{adapter}.weight").as_str()));
            }
        }
    }
    assert_eq!(
        names.iter().filter(|name| name.contains(".lora_")).count(),
        config.n_layers * 4 * 2 * 2,
        "four projections x two adapters x complete A/B pairs per layer"
    );
    assert!(
        names
            .iter()
            .filter(|name| {
                name.contains("qkv_proj")
                    || name.contains("o_proj")
                    || name.contains("gate_up_proj")
                    || name.contains("down_proj")
            })
            .all(|name| name.contains(".base_layer.") || name.contains(".lora_")),
        "Phi4MM must never resolve a mutable unwrapped projection"
    );
}

#[test]
fn molmo2_uses_olmo_names_and_reversed_fused_swiglu_halves() {
    let config = Config::from_json_str(
        r#"{
            "model_type":"molmo2",
            "quantization":{"bits":8,"group_size":64},
            "text_config":{
                "model_type":"molmo2_text","hidden_size":8,"intermediate_size":16,
                "num_hidden_layers":1,"num_attention_heads":2,"num_key_value_heads":1,
                "head_dim":4,"layer_norm_eps":1e-6,"rope_theta":5000000,
                "max_position_embeddings":32,"vocab_size":24,"hidden_act":"silu",
                "use_qk_norm":true
            }
        }"#,
    )
    .expect("Molmo2 nested text config");
    assert_eq!(config.weight_scheme, WeightScheme::Molmo2);
    assert!(config.fused_qkv && config.fused_gate_up);
    assert_eq!(
        config.qk_norm,
        Some(QkNorm {
            per_head: true,
            one_plus: false
        })
    );
    let specs = weight_specs_q(&config, false);
    assert_eq!(specs[0].tensor_name(), "model.wte.embedding");
    assert_eq!(specs[1].tensor_name(), "model.ln_f.weight");
    assert_eq!(specs[2].tensor_name(), "lm_head.weight");
    assert!(matches!(
        &specs[4],
        WeightSpec::Rows { name, start: 16, end: 32 }
            if name == "model.blocks.0.mlp.ff_proj.weight"
    ));
    assert!(matches!(
        &specs[7],
        WeightSpec::Rows { name, start: 0, end: 16 }
            if name == "model.blocks.0.mlp.ff_proj.weight"
    ));
    assert!(
        specs
            .iter()
            .any(|spec| spec.tensor_name() == "model.blocks.0.self_attn.att_proj.weight")
    );
    assert!(
        specs
            .iter()
            .any(|spec| spec.tensor_name() == "model.blocks.0.self_attn.q_norm.weight")
    );
}

#[test]
fn weight_specs_llama_projections_are_proj_norms_are_whole() {
    let c = Config::llama_3_2_1b();
    let specs = weight_specs(&c, false);
    for s in &specs {
        let n = s.tensor_name();
        match s {
            WeightSpec::Proj(_) => assert!(n.ends_with("_proj.weight"), "Proj {n}"),
            WeightSpec::Whole(_) => assert!(!n.ends_with("_proj.weight"), "Whole {n}"),
            other => panic!("unexpected spec {other:?}"),
        }
    }
    assert_eq!(specs.len(), 2 + 9 * c.n_layers);
    let names: Vec<&str> = specs.iter().map(WeightSpec::tensor_name).collect();
    assert_eq!(names[0], "model.embed_tokens.weight");
    assert_eq!(names[1], "model.norm.weight");
    assert_eq!(
        &names[2..11],
        &[
            "model.layers.0.mlp.down_proj.weight",
            "model.layers.0.mlp.gate_proj.weight",
            "model.layers.0.input_layernorm.weight",
            "model.layers.0.post_attention_layernorm.weight",
            "model.layers.0.mlp.up_proj.weight",
            "model.layers.0.self_attn.k_proj.weight",
            "model.layers.0.self_attn.o_proj.weight",
            "model.layers.0.self_attn.q_proj.weight",
            "model.layers.0.self_attn.v_proj.weight",
        ]
    );
}

#[test]
fn weight_specs_phi3_row_slices_the_fused_projections() {
    let json = r#"{"model_type":"phi3","hidden_size":32,"num_attention_heads":4,
        "num_key_value_heads":2,"intermediate_size":64,"num_hidden_layers":1,
        "rms_norm_eps":1e-5,"rope_theta":1e4,"vocab_size":48,"tie_word_embeddings":false}"#;
    let c = Config::from_json_str(json).expect("phi3 parses");
    let specs = weight_specs(&c, false);
    assert_eq!(specs[2], WeightSpec::Whole("lm_head.weight".to_string()));
    let gu = "model.layers.0.mlp.gate_up_proj.weight".to_string();
    assert!(specs.contains(&WeightSpec::Rows {
        name: gu.clone(),
        start: 0,
        end: 64
    }));
    assert!(specs.contains(&WeightSpec::Rows {
        name: gu,
        start: 64,
        end: 128
    }));
    let qkv = "model.layers.0.self_attn.qkv_proj.weight".to_string();
    assert!(specs.contains(&WeightSpec::Rows {
        name: qkv.clone(),
        start: 0,
        end: 32
    }));
    assert!(specs.contains(&WeightSpec::Rows {
        name: qkv.clone(),
        start: 32,
        end: 48
    }));
    assert!(specs.contains(&WeightSpec::Rows {
        name: qkv,
        start: 48,
        end: 64
    }));
    assert!(!specs.iter().any(|s| s.tensor_name().contains("q_proj")));
}

#[test]
fn weight_specs_starcoder2_dense_mlp_and_biases() {
    let json = r#"{"model_type":"starcoder2","hidden_size":32,"num_attention_heads":4,
        "num_key_value_heads":2,"intermediate_size":64,"num_hidden_layers":1,
        "norm_epsilon":1e-5,"rope_theta":1e4,"vocab_size":48,"use_bias":true}"#;
    let c = Config::from_json_str(json).expect("starcoder2 parses");
    let names: Vec<String> = weight_specs(&c, false)
        .iter()
        .map(|s| s.tensor_name().to_string())
        .collect();
    assert!(names.iter().any(|n| n.ends_with("mlp.c_fc.weight")));
    assert!(names.iter().any(|n| n.ends_with("mlp.c_proj.weight")));
    assert!(!names.iter().any(|n| n.ends_with("mlp.gate_proj.weight")));
    assert!(names.iter().any(|n| n == "model.norm.bias"));
    assert!(names.iter().any(|n| n.ends_with("input_layernorm.bias")));
    assert!(names.iter().any(|n| n.ends_with("self_attn.o_proj.bias")));
    assert!(names.iter().any(|n| n.ends_with("mlp.c_fc.bias")));
    assert!(names.iter().any(|n| n.ends_with("mlp.c_proj.bias")));
}

#[test]
fn weight_specs_cohere_is_tied_parallel_no_post_norm() {
    let json = r#"{"model_type":"cohere","hidden_size":32,"num_attention_heads":4,
        "num_key_value_heads":2,"intermediate_size":64,"num_hidden_layers":1,
        "layer_norm_eps":1e-5,"rope_theta":1e4,"vocab_size":48,"logit_scale":0.25}"#;
    let c = Config::from_json_str(json).expect("cohere parses");
    let names: Vec<String> = weight_specs(&c, false)
        .iter()
        .map(|s| s.tensor_name().to_string())
        .collect();
    assert!(!names.iter().any(|n| n == "lm_head.weight"), "tied");
    assert!(
        !names.iter().any(|n| n.contains("post_attention_layernorm")),
        "parallel"
    );
    assert!(
        !names.iter().any(|n| n == "model.norm.bias"),
        "no norm bias"
    );
    assert!(
        names.iter().any(|n| n.ends_with("mlp.gate_proj.weight")),
        "gated"
    );
}

#[test]
fn weight_specs_qwen3_moe_and_olmoe_name_the_expert_bank() {
    let qwen3 = r#"{"model_type":"qwen3_moe","hidden_size":8,"num_attention_heads":3,
        "num_key_value_heads":1,"head_dim":4,"intermediate_size":16,"moe_intermediate_size":12,
        "num_hidden_layers":1,"num_experts":4,"num_experts_per_tok":2,"norm_topk_prob":true,
        "rms_norm_eps":1e-6,"rope_theta":1e6,"vocab_size":10,"tie_word_embeddings":false}"#;
    let olmoe = r#"{"model_type":"olmoe","hidden_size":8,"num_attention_heads":2,
        "num_key_value_heads":1,"head_dim":4,"intermediate_size":12,"num_hidden_layers":1,
        "num_experts":4,"num_experts_per_tok":2,"norm_topk_prob":true,"rms_norm_eps":1e-6,
        "rope_theta":5e5,"vocab_size":10,"tie_word_embeddings":false}"#;
    for (name, json) in [("qwen3_moe", qwen3), ("olmoe", olmoe)] {
        let c = Config::from_json_str(json).unwrap_or_else(|e| panic!("{name}: {e}"));
        let names: Vec<String> = weight_specs(&c, false)
            .iter()
            .map(|s| s.tensor_name().to_string())
            .collect();
        let has = |n: &str| names.iter().any(|x| x == n);
        assert!(has("model.layers.0.mlp.gate.weight"), "{name}: router");
        assert!(
            has("model.layers.0.mlp.switch_mlp.gate_proj.weight")
                && has("model.layers.0.mlp.switch_mlp.up_proj.weight")
                && has("model.layers.0.mlp.switch_mlp.down_proj.weight"),
            "{name}: stacked switch_mlp experts"
        );
        assert!(
            has("model.layers.0.self_attn.q_norm.weight")
                && has("model.layers.0.self_attn.k_norm.weight"),
            "{name}: q/k norms"
        );
        assert!(
            !names.iter().any(|n| n.contains("shared_expert")),
            "{name}: no shared expert"
        );
        assert!(
            !has("model.layers.0.mlp.gate_proj.weight")
                && !has("model.layers.0.mlp.up_proj.weight")
                && !has("model.layers.0.mlp.down_proj.weight"),
            "{name}: no dense MLP tensor on a MoE layer"
        );
        assert!(
            !names.iter().any(|n| n.contains("q_proj.bias")),
            "{name}: no q/k/v bias"
        );
    }
}

#[test]
fn weight_specs_q_packed_expands_projections_to_triples() {
    let c = Config::llama_3_2_1b();
    let specs = weight_specs_q(&c, true);
    assert_eq!(
        specs[0],
        WeightSpec::Whole("model.embed_tokens.weight".into())
    );
    assert_eq!(specs[1], WeightSpec::Whole("model.norm.weight".into()));
    let packed = specs
        .iter()
        .filter(|s| {
            matches!(
                s,
                WeightSpec::QuantRaw {
                    part: QuantPart::Packed,
                    ..
                }
            )
        })
        .count();
    let scales = specs
        .iter()
        .filter(|s| {
            matches!(
                s,
                WeightSpec::QuantRaw {
                    part: QuantPart::Scales,
                    ..
                }
            )
        })
        .count();
    let biases = specs
        .iter()
        .filter(|s| {
            matches!(
                s,
                WeightSpec::QuantRaw {
                    part: QuantPart::Biases,
                    ..
                }
            )
        })
        .count();
    assert_eq!(packed, 7 * c.n_layers, "7 packed projections per layer");
    assert_eq!(scales, packed, "one scales part per packed weight");
    assert_eq!(biases, packed, "one biases part per packed weight");
    let i = specs
        .iter()
        .position(|s| matches!(s, WeightSpec::QuantRaw { name, part: QuantPart::Packed } if name.ends_with("q_proj.weight")))
        .expect("a packed q_proj part");
    assert!(
        matches!(&specs[i + 1], WeightSpec::QuantRaw { name, part: QuantPart::Scales } if name.ends_with("q_proj.scales"))
    );
    assert!(
        matches!(&specs[i + 2], WeightSpec::QuantRaw { name, part: QuantPart::Biases } if name.ends_with("q_proj.biases"))
    );
    assert!(
        weight_specs_q(&c, false)
            .iter()
            .all(|s| matches!(s, WeightSpec::Whole(_) | WeightSpec::Proj(_))),
        "unquantized layout has no packed parts"
    );
}

#[test]
fn fused_names_follow_the_scheme() {
    let mut config = Config::llama_3_2_1b();
    config.fused_gate_up = true;
    let inter = config.inter;
    let (name, gate, up) = fused_gate_up(&config, "model.layers.3.");
    assert_eq!(name, "model.layers.3.mlp.gate_up_proj.weight");
    assert_eq!((gate, up), ((0, inter), (inter, 2 * inter)));
    assert!(fused_qkv_name(&config, "model.layers.3.").contains("qkv_proj"));
}
