use mlxcel_xla::json::{parse_json, Json};
use mlxcel_xla::vlm::{
    bf16_conversion, finish_vlm_weights_common, inherit_qwen_text_quantization, inherit_qwen_vision_quantization,
    is_gemma3n_model, is_model_quantized, parse_vlm_config, qwen35_vlm_token_defaults,
    qwen_vl_token_ids, read_optional_model_json, remap_qwen3_vl_weights, require_object,
    required_vlm_subconfig, rewrite_qwen3_vl_weight_key,
    strip_language_model_prefix, transform_config, Bf16Conversion, QwenVisionTokenIds,
    VisionQuantization,
};
use mlxcel_xla::weight_map::{get_weight, has_weight, WeightMap};

#[test]
fn config_parts_are_required_by_name() {
    let config = parse_vlm_config(r#"{"vision_config": {"depth": 2}}"#, "VLM config").unwrap();
    assert!(
        parse_vlm_config("{", "VLM config").unwrap_err().starts_with("Failed to parse VLM config: ")
    );
    assert!(required_vlm_subconfig(&config, "vision_config").is_ok());
    assert_eq!(
        required_vlm_subconfig(&config, "text_config").unwrap_err(),
        "Missing text_config in config.json"
    );
    assert_eq!(require_object(&config, "config").unwrap().len(), 1);
    let number = parse_json("3").unwrap();
    assert_eq!(
        require_object(&number, "text_config").unwrap_err(),
        "Expected text_config to be a JSON object"
    );
    assert!(read_optional_model_json(Some("nonsense")).is_none());
    assert!(read_optional_model_json(None).is_none());
}

#[test]
fn quantization_is_found_in_the_configuration_or_the_weights() {
    let mut weights = WeightMap::new();
    weights.insert("a.weight".to_string(), 1);
    assert!(is_model_quantized(&weights, Some(r#"{"quantization": {"bits": 4}}"#)));
    assert!(is_model_quantized(&weights, Some(r#"{"text_config": {"quantization": {}}}"#)));
    assert!(!is_model_quantized(&weights, Some(r#"{"text_config": {}}"#)));
    assert!(!is_model_quantized(&weights, None));
    weights.insert("a.scales".to_string(), 1);
    assert!(is_model_quantized(&weights, None));
}

#[test]
fn gemma3n_models_are_recognized() {
    assert!(is_gemma3n_model(Some(r#"{"model_type": "gemma3n"}"#)));
    assert!(is_gemma3n_model(Some(r#"{"text_config": {"model_type": "gemma3n_text"}}"#)));
    assert!(!is_gemma3n_model(Some(r#"{"model_type": "gemma3n_text"}"#)));
    assert!(!is_gemma3n_model(None));
}

#[test]
fn only_unquantized_models_are_converted_on_apple_silicon() {
    assert_eq!(bf16_conversion(false, false, false), Bf16Conversion::Nothing);
    assert_eq!(bf16_conversion(true, true, false), Bf16Conversion::Nothing);
    assert_eq!(bf16_conversion(true, false, true), Bf16Conversion::ExceptLanguageMlp);
    assert_eq!(bf16_conversion(true, false, false), Bf16Conversion::Everything);
}

fn bump(weights: WeightMap<u32>, by: u32) -> WeightMap<u32> {
    let value = *get_weight(&weights, "a").unwrap();
    let mut out = WeightMap::new();
    out.insert("a".to_string(), value + by);
    out
}

#[test]
fn transforms_see_converted_weights_and_explicit_ones_come_first() {
    let one = || {
        let mut weights = WeightMap::new();
        weights.insert("a".to_string(), 0u32);
        weights
    };
    let convert = |weights: WeightMap<u32>, _: Bf16Conversion| bump(weights, 1);
    let transform = |by: u32| {
        move |weights: WeightMap<u32>, config: &Json| {
            if config.as_object().is_none() {
                return Err("no configuration".to_string());
            }
            let seen = *get_weight(&weights, "a").unwrap();
            Ok(bump(weights, by + 10 * seen))
        }
    };
    let run = |apple: bool, explicit: bool, allow: bool, config: &str| {
        finish_vlm_weights_common(
            one(),
            Some(config),
            apple,
            &convert,
            if explicit { Some(transform(100)) } else { None },
            Some(transform(200)),
            allow,
        )
        .map(|weights| *get_weight(&weights, "a").unwrap())
    };
    assert_eq!(run(false, false, false, "{}"), Ok(0));
    assert_eq!(run(true, false, false, "{}"), Ok(1));
    assert_eq!(run(true, false, false, r#"{"quantization": {}}"#), Ok(0));
    assert_eq!(run(true, true, true, "{}"), Ok(111));
    assert_eq!(run(false, false, true, "{}"), Ok(200));
    assert_eq!(run(false, true, false, "{").unwrap_err(), "no configuration");
    assert!(transform_config(Some("{")).as_object().is_none());
    assert!(transform_config(Some("{}")).as_object().is_some());
}

#[test]
fn missing_quantization_is_inherited() {
    let full = parse_json(r#"{"quantization": {"bits": 8}}"#).unwrap();
    let none = VisionQuantization { group_size: 0, bits: 0 };
    assert_eq!(
        inherit_qwen_vision_quantization(none, &full),
        VisionQuantization { group_size: 64, bits: 8 }
    );
    let own = VisionQuantization { group_size: 32, bits: 4 };
    assert_eq!(inherit_qwen_vision_quantization(own, &full), own);
    assert!(inherit_qwen_text_quantization(false, &full).is_some());
    assert!(inherit_qwen_text_quantization(true, &full).is_none());
}

#[test]
fn token_ids_fall_back_to_the_defaults() {
    let full = parse_json(r#"{"image_token_id": 5}"#).unwrap();
    assert_eq!(
        qwen_vl_token_ids(&full, qwen35_vlm_token_defaults()),
        QwenVisionTokenIds {
            image_token_id: 5,
            video_token_id: 248057,
            vision_start_token_id: 248045,
        }
    );
}

#[test]
fn qwen3_names_lose_their_wrappers() {
    let plain = |key: &str| rewrite_qwen3_vl_weight_key(key, false);
    assert_eq!(plain("model.language_model.layers.0.x"), "model.layers.0.x");
    assert_eq!(plain("model.visual.blocks.0.x"), "vision_tower.blocks.0.x");
    assert_eq!(plain("language_model.lm_head.weight"), "lm_head.weight");
    assert_eq!(plain("other"), "other");
    let expert = |key: &str| rewrite_qwen3_vl_weight_key(key, true);
    assert_eq!(
        expert("model.language_model.layers.0.mlp.experts.gate_up_proj"),
        "model.layers.0.mlp.switch_mlp.gate_up_proj.weight"
    );
    assert_eq!(
        expert("model.layers.0.mlp.experts.down_proj.scales"),
        "model.layers.0.mlp.switch_mlp.down_proj.scales"
    );
}

#[test]
fn renamed_maps_keep_their_weights() {
    let mut weights = WeightMap::new();
    weights.insert("language_model.a".to_string(), 1);
    weights.insert("b".to_string(), 2);
    let stripped = strip_language_model_prefix(weights);
    assert_eq!(get_weight(&stripped, "a"), Some(&1));
    assert_eq!(get_weight(&stripped, "b"), Some(&2));
    assert!(!has_weight(&stripped, "language_model.a"));

    let mut weights = WeightMap::new();
    weights.insert("model.visual.a".to_string(), 1);
    let remapped = remap_qwen3_vl_weights(weights, true);
    assert_eq!(get_weight(&remapped, "vision_tower.a"), Some(&1));
}
