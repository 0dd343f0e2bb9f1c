use mlxcel_xla::special_keys::{
    flatten_phi4mm_patch_embedding, molmo2_vit_execution_depth, resolve_molmo2_vit_layers,
    rewrite_molmo2_weight_key, rewrite_moondream2_weight_key, rewrite_moondream3_weight_key,
    rewrite_phi3_weight_key, rewrite_phi4_siglip_weight_key, rewrite_phi4mm_weight_key,
    should_transpose_phi3_patch_embedding,
};

#[test]
fn rewrite_moondream3_weight_key_strips_model_prefix_and_skips_region_branch() {
    assert_eq!(
        rewrite_moondream3_weight_key("model.text.wte"),
        Some("text.wte.weight".to_string())
    );
    assert_eq!(
        rewrite_moondream3_weight_key("model.text.blocks.4.attn.qkv.weight.packed"),
        Some("text.blocks.4.attn.qkv.weight.packed".to_string())
    );
    assert_eq!(
        rewrite_moondream3_weight_key("model.region.coord_encoder.weight"),
        None
    );
}

#[test]
fn rewrite_moondream2_weight_key_maps_unified_checkpoint_layout() {
    // Text tower: strip `model.`, add `.weight` to the tied embedding.
    assert_eq!(
        rewrite_moondream2_weight_key("model.text.wte"),
        Some("text.wte.weight".to_string())
    );
    assert_eq!(
        rewrite_moondream2_weight_key("model.text.blocks.0.ln.weight"),
        Some("text.blocks.0.ln.weight".to_string())
    );
    assert_eq!(
        rewrite_moondream2_weight_key("model.text.blocks.3.attn.qkv.weight"),
        Some("text.blocks.3.attn.qkv.weight".to_string())
    );
    assert_eq!(
        rewrite_moondream2_weight_key("model.text.post_ln.weight"),
        Some("text.post_ln.weight".to_string())
    );
    assert_eq!(
        rewrite_moondream2_weight_key("model.text.lm_head.bias"),
        Some("text.lm_head.bias".to_string())
    );

    // Vision tower: raw pos_emb keeps no `.weight`, blocks keep ln1/ln2.
    assert_eq!(
        rewrite_moondream2_weight_key("model.vision.patch_emb.weight"),
        Some("vision.patch_emb.weight".to_string())
    );
    assert_eq!(
        rewrite_moondream2_weight_key("model.vision.pos_emb"),
        Some("vision.pos_emb".to_string())
    );
    assert_eq!(
        rewrite_moondream2_weight_key("model.vision.blocks.0.ln1.weight"),
        Some("vision.blocks.0.ln1.weight".to_string())
    );
    assert_eq!(
        rewrite_moondream2_weight_key("model.vision.proj_mlp.fc1.weight"),
        Some("vision.proj_mlp.fc1.weight".to_string())
    );

    // Region head and position-id buffers are dropped; already-stripped keys
    // pass through unchanged.
    assert_eq!(
        rewrite_moondream2_weight_key("model.region.coord_encoder.weight"),
        None
    );
    assert_eq!(
        rewrite_moondream2_weight_key("model.text.position_ids"),
        None
    );
    assert_eq!(
        rewrite_moondream2_weight_key("vision.blocks.0.attn.qkv.weight"),
        Some("vision.blocks.0.attn.qkv.weight".to_string())
    );
}

fn real_moondream2_checkpoint_keys() -> Vec<String> {
    let mut keys = Vec::new();

    for layer in 0..24 {
        for suffix in [
            "attn.proj.bias",
            "attn.proj.weight",
            "attn.qkv.bias",
            "attn.qkv.weight",
            "ln.bias",
            "ln.weight",
            "mlp.fc1.bias",
            "mlp.fc1.weight",
            "mlp.fc2.bias",
            "mlp.fc2.weight",
        ] {
            keys.push(format!("model.text.blocks.{layer}.{suffix}"));
        }
    }
    for suffix in [
        "lm_head.bias",
        "lm_head.weight",
        "post_ln.bias",
        "post_ln.weight",
        "wte",
    ] {
        keys.push(format!("model.text.{suffix}"));
    }

    for layer in 0..27 {
        for suffix in [
            "attn.proj.bias",
            "attn.proj.weight",
            "attn.qkv.bias",
            "attn.qkv.weight",
            "ln1.bias",
            "ln1.weight",
            "ln2.bias",
            "ln2.weight",
            "mlp.fc1.bias",
            "mlp.fc1.weight",
            "mlp.fc2.bias",
            "mlp.fc2.weight",
        ] {
            keys.push(format!("model.vision.blocks.{layer}.{suffix}"));
        }
    }
    for suffix in [
        "patch_emb.bias",
        "patch_emb.weight",
        "pos_emb",
        "post_ln.bias",
        "post_ln.weight",
        "proj_mlp.fc1.bias",
        "proj_mlp.fc1.weight",
        "proj_mlp.fc2.bias",
        "proj_mlp.fc2.weight",
    ] {
        keys.push(format!("model.vision.{suffix}"));
    }

    for suffix in [
        "coord_decoder.fc1.bias",
        "coord_decoder.fc1.weight",
        "coord_decoder.fc2.bias",
        "coord_decoder.fc2.weight",
        "coord_encoder.bias",
        "coord_encoder.weight",
        "coord_features",
        "size_decoder.fc1.bias",
        "size_decoder.fc1.weight",
        "size_decoder.fc2.bias",
        "size_decoder.fc2.weight",
        "size_encoder.bias",
        "size_encoder.weight",
        "size_features",
    ] {
        keys.push(format!("model.region.{suffix}"));
    }

    assert_eq!(keys.len(), 592, "real checkpoint tensor count");
    keys
}

fn moondream2_loader_required_keys() -> std::collections::BTreeSet<String> {
    let mut keys = std::collections::BTreeSet::new();

    for layer in 0..24 {
        for suffix in [
            "ln.weight",
            "ln.bias",
            "attn.qkv.weight",
            "attn.qkv.bias",
            "attn.proj.weight",
            "attn.proj.bias",
            "mlp.fc1.weight",
            "mlp.fc1.bias",
            "mlp.fc2.weight",
            "mlp.fc2.bias",
        ] {
            keys.insert(format!("text.blocks.{layer}.{suffix}"));
        }
    }
    for key in [
        "text.wte.weight",
        "text.post_ln.weight",
        "text.post_ln.bias",
        "text.lm_head.weight",
        "text.lm_head.bias",
    ] {
        keys.insert(key.to_string());
    }

    for layer in 0..27 {
        for suffix in [
            "ln1.weight",
            "ln1.bias",
            "ln2.weight",
            "ln2.bias",
            "attn.qkv.weight",
            "attn.qkv.bias",
            "attn.proj.weight",
            "attn.proj.bias",
            "mlp.fc1.weight",
            "mlp.fc1.bias",
            "mlp.fc2.weight",
            "mlp.fc2.bias",
        ] {
            keys.insert(format!("vision.blocks.{layer}.{suffix}"));
        }
    }
    for key in [
        "vision.patch_emb.weight",
        "vision.patch_emb.bias",
        "vision.pos_emb",
        "vision.post_ln.weight",
        "vision.post_ln.bias",
        "vision.proj_mlp.fc1.weight",
        "vision.proj_mlp.fc1.bias",
        "vision.proj_mlp.fc2.weight",
        "vision.proj_mlp.fc2.bias",
    ] {
        keys.insert(key.to_string());
    }

    keys
}

#[test]
fn rewrite_moondream2_weight_key_covers_the_real_checkpoint_exactly() {
    let remapped: std::collections::BTreeSet<String> = real_moondream2_checkpoint_keys()
        .iter()
        .filter_map(|key| rewrite_moondream2_weight_key(key))
        .collect();

    let required = moondream2_loader_required_keys();

    let missing: Vec<_> = required.difference(&remapped).collect();
    assert!(
        missing.is_empty(),
        "loader-required keys not produced by the remap: {missing:?}"
    );

    let unused: Vec<_> = remapped.difference(&required).collect();
    assert!(
        unused.is_empty(),
        "remapped keys no loader consumes: {unused:?}"
    );

    assert_eq!(remapped.len(), 592 - 14, "region tensors must be dropped");
}

#[test]
fn rewrite_phi3_weight_key_skips_position_ids_and_maps_known_prefixes() {
    assert_eq!(
        rewrite_phi3_weight_key("model.embed_tokens.weight"),
        Some("model.embed_tokens.weight".to_string())
    );
    assert_eq!(
        rewrite_phi3_weight_key(
            "model.vision_embed_tokens.img_processor.vision_model.embeddings.patch_embedding.weight"
        ),
        Some("vision_tower.vision_model.embeddings.patch_embedding.weight".to_string())
    );
    assert_eq!(
        rewrite_phi3_weight_key("model.vision_embed_tokens.img_projection.0.weight"),
        Some("img_projection.0.weight".to_string())
    );
    assert_eq!(
        rewrite_phi3_weight_key("model.vision_embed_tokens.glb_GN"),
        Some("glb_GN".to_string())
    );
    assert_eq!(rewrite_phi3_weight_key("model.position_ids"), None);
}

#[test]
fn phi3_patch_embedding_transpose_detection_matches_layout_expectations() {
    assert!(!should_transpose_phi3_patch_embedding(&[1024, 14, 14, 3]));
    assert!(should_transpose_phi3_patch_embedding(&[14, 14, 3, 1024]));
    assert!(!should_transpose_phi3_patch_embedding(&[1024, 196]));
}

#[test]
fn flatten_phi4mm_patch_embedding_flattens_both_layouts_to_same_shape() {
    let flat = flatten_phi4mm_patch_embedding(&[1024, 3, 14, 14]);
    assert!(flat.transpose);
    assert_eq!(flat.shape, vec![1024, 3 * 14 * 14]);

    let flat = flatten_phi4mm_patch_embedding(&[1024, 14, 14, 3]);
    assert!(!flat.transpose);
    assert_eq!(flat.shape, vec![1024, 14 * 14 * 3]);

    let out = flatten_phi4mm_patch_embedding(&[1024, 196]);
    assert!(!out.transpose);
    assert_eq!(out.shape, vec![1024, 196]);
}

#[test]
fn rewrite_phi4_siglip_weight_key_keeps_text_keys_and_remaps_multimodal_prefixes() {
    assert_eq!(
        rewrite_phi4_siglip_weight_key("model.layers.0.self_attn.qkv_proj.weight"),
        Some("model.layers.0.self_attn.qkv_proj.weight".to_string())
    );
    assert_eq!(
        rewrite_phi4_siglip_weight_key(
            "model.vision_tower.vision_tower.vision_model.embeddings.patch_embedding.weight"
        ),
        Some(
            "vision_tower.vision_tower.vision_model.embeddings.patch_embedding.weight".to_string()
        )
    );
    assert_eq!(
        rewrite_phi4_siglip_weight_key("model.mm_projector.0.weight"),
        Some("mm_projector_linear1.weight".to_string())
    );
    assert_eq!(rewrite_phi4_siglip_weight_key("model.position_ids"), None);
}

#[test]
fn rewrite_phi4mm_weight_key_maps_multimodal_prefixes() {
    assert_eq!(
        rewrite_phi4mm_weight_key(
            "model.embed_tokens_extend.image_embed.img_processor.embeddings.patch_embedding.weight"
        ),
        Some(
            "vision_tower.vision_tower.vision_model.embeddings.patch_embedding.weight".to_string()
        )
    );
    assert_eq!(
        rewrite_phi4mm_weight_key("model.embed_tokens_extend.image_embed.img_projection.0.weight"),
        Some("mm_projector_linear1.weight".to_string())
    );
    assert_eq!(
        rewrite_phi4mm_weight_key("model.layers.0.self_attn.qkv_proj.base_layer.weight"),
        Some("model.layers.0.self_attn.qkv_proj.base_layer.weight".to_string())
    );
    assert_eq!(
        rewrite_phi4mm_weight_key(
            "model.embed_tokens_extend.audio_embed.audio_projection.speech.0.weight"
        ),
        Some("audio_embed.audio_projection.speech.0.weight".to_string())
    );
}

#[test]
fn molmo2_layer_resolution_uses_declared_depth_and_preserves_config_order() {
    let configured = [-3, 4, -9, 0];
    let resolved = resolve_molmo2_vit_layers(27, &configured).unwrap();
    assert_eq!(resolved, vec![24, 4, 18, 0]);
    assert_eq!(molmo2_vit_execution_depth(&resolved).unwrap(), 25);

    let mut reordered = configured;
    reordered.swap(0, 2);
    let reordered = resolve_molmo2_vit_layers(27, &reordered).unwrap();
    assert_eq!(reordered, vec![18, 4, 24, 0]);
    assert_ne!(resolved, reordered);

    assert!(resolve_molmo2_vit_layers(27, &[-28]).is_err());
    assert!(resolve_molmo2_vit_layers(27, &[27]).is_err());
    assert!(resolve_molmo2_vit_layers(27, &[]).is_err());
}

#[test]
fn rewrite_molmo2_weight_key_maps_text_vision_and_lm_head_prefixes() {
    assert_eq!(
        rewrite_molmo2_weight_key("model.transformer.layers.0.self_attn.q_proj.weight"),
        "language_model.model.layers.0.self_attn.q_proj.weight"
    );
    assert_eq!(
        rewrite_molmo2_weight_key(
            "model.vision_backbone.transformer.resblocks.0.attn.q_proj.weight"
        ),
        "vision_tower.transformer.0.attn.q_proj.weight"
    );
    assert_eq!(
        rewrite_molmo2_weight_key("lm_head.weight"),
        "language_model.lm_head.weight"
    );
}

#[test]
fn layer_resolution_names_the_offending_entry() {
    assert_eq!(
        resolve_molmo2_vit_layers(27, &[1, -28]).unwrap_err(),
        "Molmo2 vit_layers[1]=-28 resolves outside [0,27)"
    );
    assert_eq!(
        resolve_molmo2_vit_layers(27, &[]).unwrap_err(),
        "Molmo2 vit_layers must not be empty"
    );
    assert!(molmo2_vit_execution_depth(&[]).is_err());
}
