use mlxcel_xla::graph_text::{emit_molmo2_vision, type_text};
use mlxcel_xla::graph::Elem;
use mlxcel_xla::molmo2_config::{
    maximum_pool_groups, Molmo2VisionConfig, Molmo2VisionWeightSpec,
};
use mlxcel_xla::text::trimmed;
use mlxcel_xla::vision_graph::{selected_slot, VisionConstants};
use mlxcel_xla::vision_input::{finite, prepare_vision_input, Molmo2VisionInput};
use mlxcel_xla::vision_output::{
    decode_output, diagnostic_stage_specs, IreeMolmo2VisionDiagnosticProjector,
    IreeMolmo2VisionProjector, PROBE_ROW,
};
use mlxcel_xla::checkpoint::ShardFile;
use mlxcel_xla::vision_weights::{
    artifact_identity, generation_identity, hex_bytes, load_weights, model_shards, resolve_shards,
    sha256, VersionReport,
};

fn pinned_config(num_pos: usize, vit_layers: &str) -> String {
    format!(
        r#"{{
        "model_type": "molmo2",
        "image_patch_id": 151938,
        "vit_config": {{
            "hidden_size": 8, "intermediate_size": 16,
            "num_attention_heads": 2, "head_dim": 4,
            "num_hidden_layers": 27, "image_default_input_size": [28, 28],
            "image_patch_size": 14, "image_num_pos": {num_pos}, "layer_norm_eps": 1e-6
        }},
        "adapter_config": {{
            "hidden_size": 8, "intermediate_size": 12, "text_hidden_size": 10,
            "num_attention_heads": 2, "head_dim": 4, "vit_layers": {vit_layers},
            "pooling_attention_mask": true
        }}
    }}"#
    )
}

const PINNED_PROCESSOR: &str = r#"{
        "patch_size": 14, "max_crops": 8, "overlap_margins": [0, 0],
        "pooling_size": [2, 2], "size": {"height": 28, "width": 28}
    }"#;

fn pinned() -> Molmo2VisionConfig {
    Molmo2VisionConfig::from_json_strs(&pinned_config(4, "[-3, -9]"), PINNED_PROCESSOR).unwrap()
}

fn test_config(pooling_attention_mask: bool) -> Molmo2VisionConfig {
    Molmo2VisionConfig::from_json_strs(
        &format!(
            r#"{{
                "model_type":"molmo2","image_patch_id":151938,
                "vit_config":{{"hidden_size":8,"intermediate_size":16,"num_attention_heads":2,
                    "head_dim":4,"num_hidden_layers":2,"image_default_input_size":[28,28],
                    "image_patch_size":14,"image_num_pos":4,"layer_norm_eps":1e-6}},
                "adapter_config":{{"hidden_size":8,"intermediate_size":12,"text_hidden_size":10,
                    "num_attention_heads":2,"head_dim":4,"vit_layers":[0,1],
                    "pooling_attention_mask":{pooling_attention_mask}}}
            }}"#
        ),
        r#"{"patch_size":14,"max_crops":1,"overlap_margins":[0,0],
            "pooling_size":[2,2],"size":{"height":28,"width":28}}"#,
    )
    .unwrap()
}

fn constants(config: &Molmo2VisionConfig) -> VisionConstants {
    VisionConstants {
        hidden: (config.hidden as f32).to_bits(),
        epsilon: (f64::from_bits(config.layer_norm_eps) as f32).to_bits(),
        attention_scale: (config.head_dim as f32).powf(-0.5).to_bits(),
        pool_scale: (config.pool_head_dim as f32).powf(-0.5).to_bits(),
        pool_size: (config.pool_size as f32).to_bits(),
    }
}

#[test]
fn resolves_pinned_layers_and_static_bucket_identity() {
    let config = pinned();
    assert_eq!(config.layers, 25);
    assert_eq!(config.selected_layers, vec![22, 16]);
    assert_eq!(config.emitted_layers, 23);
    assert_eq!(config.static_crops, 9);
    assert_eq!(config.static_pool_groups, 9);
    assert!(config.fingerprint().contains("position=exact-default"));
    assert!(config.fingerprint().contains("selected=[22, 16]"));
    assert!(config.fingerprint().contains("pool-mask=true"));
}

#[test]
fn validates_runtime_crop_grid_relationship() {
    let config = pinned();
    assert!(config.valid_runtime_geometry(3, [1, 1, 1, 2]));
    assert!(config.valid_runtime_geometry(3, [1, 1, 2, 1]));
    assert!(!config.valid_runtime_geometry(4, [1, 1, 1, 2]));
}

#[test]
fn rejects_position_grid_and_selected_layer_drift() {
    assert!(
        Molmo2VisionConfig::from_json_strs(&pinned_config(5, "[-3, -9]"), PINNED_PROCESSOR)
            .unwrap_err()
            .contains("exact position")
    );
    assert!(
        Molmo2VisionConfig::from_json_strs(&pinned_config(4, "[-26]"), PINNED_PROCESSOR)
            .unwrap_err()
            .contains("outside")
    );
}

#[test]
fn malformed_documents_are_reported() {
    assert!(Molmo2VisionConfig::checked_from_json_strs("{", PINNED_PROCESSOR).unwrap().is_err());
    let error = Molmo2VisionConfig::from_json_strs("{}", PINNED_PROCESSOR).unwrap_err();
    assert!(!error.is_empty());
    let error = Molmo2VisionConfig::from_json_strs(
        &pinned_config(4, "[\"x\"]"),
        PINNED_PROCESSOR,
    )
    .unwrap_err();
    assert_eq!(error, "Molmo2 vit_layers[0] must be an integer");
}

#[test]
fn emitted_pooling_clamps_then_masks_and_keeps_additive_merge_outside_graph() {
    let config = test_config(true);
    let mlir = emit_molmo2_vision(&config, &constants(&config));
    assert!(mlir.contains("molmo2.image_token_pooling.signed"));
    assert!(mlir.contains("stablehlo.compare GE"));
    assert!(mlir.contains("stablehlo.maximum"));
    assert!(mlir.contains("\"stablehlo.gather\""));
    assert!(mlir.contains("stablehlo.select"));
    assert!(mlir.contains("vision_tower.image_vit.patch_embedding.weight"));
    assert!(mlir.contains("vision_tower.image_projector.w3.weight"));
    assert!(!mlir.contains("image_input_idx"));
}

#[test]
fn unmasked_pooling_uses_full_window_denominator() {
    let config = test_config(false);
    let mlir = emit_molmo2_vision(&config, &constants(&config));
    assert!(mlir.contains("stablehlo.constant dense<0x40800000> : tensor<f32>"));
    assert!(!mlir.contains("stablehlo.select"));
}

#[test]
fn emitted_program_returns_one_text_row_per_pooling_group() {
    let config = test_config(true);
    let mlir = emit_molmo2_vision(&config, &constants(&config));
    let shape = [config.static_pool_groups, config.text_hidden];
    let output = type_text(&shape, Elem::Single);
    assert!(mlir.contains(&format!(") -> {output} {{")));
    let last = mlir.lines().find(|line| line.trim_start().starts_with("return")).unwrap();
    assert!(last.ends_with(&output));
}

#[test]
fn selected_layers_keep_adapter_order_instead_of_encoder_order() {
    assert_eq!(selected_slot(&[22, 16], 22), Some(0));
    assert_eq!(selected_slot(&[22, 16], 16), Some(1));
    assert_eq!(selected_slot(&[22, 16], 21), None);
}

#[test]
fn tensor_types_list_their_dimensions() {
    assert_eq!(type_text(&[2, 3], Elem::Single), "tensor<2x3xf32>");
    assert_eq!(type_text(&[], Elem::Single), "tensor<f32>");
    assert_eq!(type_text(&[4], Elem::Integer), "tensor<4xi32>");
}

#[test]
fn output_decode_rejects_non_finite_values() {
    let mut bytes = 1.0f32.to_ne_bytes().to_vec();
    bytes.extend_from_slice(&f32::INFINITY.to_ne_bytes());
    let little = 1u16.to_ne_bytes()[0] == 1;
    assert!(decode_output(&bytes, little).unwrap_err().contains("flat index 1"));
}

#[test]
fn outputs_are_read_in_the_byte_order_of_the_machine() {
    assert_eq!(decode_output(&1.5f32.to_le_bytes(), true).unwrap(), vec![1.5f32.to_bits()]);
    assert_eq!(decode_output(&1.5f32.to_be_bytes(), false).unwrap(), vec![1.5f32.to_bits()]);
    assert!(decode_output(&[0, 0, 0], true).is_err());
}

#[test]
fn compiler_identity_changes_when_same_path_and_version_bytes_change() {
    let first = sha256(b"first");
    let second = sha256(b"second");
    assert_ne!(first, second);
    let flags = vec!["--flag"];
    let version = report(true, "v1\n");
    let one = generation_identity("/iree-compile", &version, Ok(b"first"), &flags, "module");
    let two = generation_identity("/iree-compile", &version, Ok(b"second"), &flags, "module");
    assert_ne!(one.unwrap(), two.unwrap());
}

fn report(succeeded: bool, stdout: &str) -> VersionReport {
    VersionReport { succeeded, stdout: stdout.to_string(), stderr: "no such flag".to_string() }
}

#[test]
fn compiler_versions_are_shown_without_white_space_around_them() {
    let flags = vec!["--flag"];
    let shown = generation_identity("/c", &report(true, " \tIREE 3.1\n\n"), Ok(b""), &flags, "m");
    assert!(shown.unwrap().contains(";version=IREE 3.1;flags=[\"--flag\"];mlir_sha256="));
    assert_eq!(trimmed("\u{2003}a b\u{3000}\r\n"), "a b");
    assert_eq!(trimmed(" \n"), "");
    assert_eq!(
        generation_identity("/c", &report(false, ""), Err("open".to_string()), &flags, "m"),
        Err("/c --version failed: no such flag".to_string())
    );
    assert_eq!(
        generation_identity("/c", &report(true, ""), Err("open /c".to_string()), &flags, "m"),
        Err("open /c".to_string())
    );
}

#[test]
fn pool_groups_count_the_largest_layout() {
    assert_eq!(maximum_pool_groups(1, 2, [0, 0]), Some(2));
    assert_eq!(maximum_pool_groups(8, 27, [4, 4]), Some(14 * 14 + 14 * 80));
    assert_eq!(maximum_pool_groups(0, 3, [1, 1]), Some(4));
    assert_eq!(maximum_pool_groups(12, 2, [1, 1]), Some(2));
    assert_eq!(maximum_pool_groups(20, 0x2_0000_0000, [0, 0]), None);
}

#[test]
fn digests_are_those_of_the_standard() {
    assert_eq!(
        sha256(b""),
        "e3b0c44298fc1c149afbf4c8996fb92427ae41e4649b934ca495991b7852b855"
    );
    assert_eq!(
        sha256(b"abc"),
        "ba7816bf8f01cfea414140de5dae2223b00361a396177a9cb410ff61f20015ad"
    );
    assert_eq!(hex_bytes(&[0x00, 0xab, 0x5c]), "00ab5c");
    let identity = artifact_identity("geometry", None, "abc");
    assert_eq!(
        identity,
        "geometry;checkpoint_schema_sha256=ba7816bf8f01cfea414140de5dae2223b00361a396177a9cb410ff61f20015ad"
    );
    assert!(artifact_identity("g", Some("probe"), "").contains(";diagnostics=probe;"));
}

#[test]
fn layer18_row_probes_precede_the_first_failing_selected_stage() {
    let mut config = test_config(true);
    config.layers = 25;
    config.emitted_layers = 25;
    config.selected_layers = vec![24, 18];
    config.static_crops = 1;
    config.patches_per_crop = PROBE_ROW + 1;
    config.position_count = config.patches_per_crop;

    let names = diagnostic_stage_specs(&config, 1, 1)
        .into_iter()
        .map(|spec| spec.name)
        .collect::<Vec<_>>();
    let first_probe = names
        .iter()
        .position(|name| name == "vit.probe.18.row.513.input")
        .expect("layer 18 input probe");
    let selected18 =
        names.iter().position(|name| name == "vit.selected.18").expect("selected layer 18");
    assert_eq!(
        &names[first_probe..selected18],
        &[
            "vit.probe.18.row.513.input",
            "vit.probe.18.row.513.attention_norm",
            "vit.probe.18.row.513.attention",
            "vit.probe.18.row.513.post_attention_residual",
            "vit.probe.18.row.513.ffn_norm",
            "vit.probe.18.row.513.mlp",
            "vit.probe.18.row.513.output",
        ],
        "all row-local producer boundaries must be compared before fail-fast reaches selected18"
    );
}

fn image<'a>(patches: &'a [u32], pooling: &'a [i32]) -> Molmo2VisionInput<'a> {
    Molmo2VisionInput {
        patches,
        patches_shape: [2, 4, 588],
        image_token_pooling: pooling,
        pooling_shape: [2, 4],
        image_grid: [1, 1, 1, 1],
        image_num_crops: 2,
        prompt_image_patch_count: 2,
    }
}

#[test]
fn images_are_padded_to_the_static_bucket() {
    let config = test_config(true);
    let patches = vec![1.0f32.to_bits(); 2 * 4 * 588];
    let pooling = [0, 1, -1, -1, 4, 5, 6, 7];
    let prepared = prepare_vision_input(&config, &image(&patches, &pooling)).unwrap();
    assert_eq!(prepared.active_groups, vec![0, 1]);
    assert_eq!(prepared.valid_pooling_counts, vec![2, 4]);
    assert_eq!((prepared.crops, prepared.groups), (2, 2));
    assert_eq!(prepared.padded_patches.len(), config.static_crops * 4 * 588);
    assert_eq!(&prepared.padded_signed_indices[..8], &pooling);
    assert!(prepared.padded_signed_indices[8..].iter().all(|index| *index == -1));
}

#[test]
fn images_that_do_not_fit_are_refused() {
    let config = test_config(true);
    let patches = vec![1.0f32.to_bits(); 2 * 4 * 588];
    let pooling = [0, 1, -1, -1, 4, 5, 6, 7];
    let mut short = image(&patches, &pooling);
    short.patches = &patches[1..];
    assert!(prepare_vision_input(&config, &short).is_err());
    let mut grid = image(&patches, &pooling);
    grid.image_grid = [1, 1, 2, 2];
    assert!(prepare_vision_input(&config, &grid).is_err());
    let mut prompt = image(&patches, &pooling);
    prompt.prompt_image_patch_count = 3;
    assert!(prepare_vision_input(&config, &prompt).unwrap_err().contains("active rows"));
    let mut infinite = patches.clone();
    infinite[3] = f32::INFINITY.to_bits();
    assert!(
        prepare_vision_input(&config, &image(&infinite, &pooling))
            .unwrap_err()
            .contains("flat index 3")
    );
    assert!(finite("values", &[f32::NAN.to_bits()]).is_err());
}

#[test]
fn projections_keep_the_active_rows() {
    let config = test_config(true);
    let width = config.text_hidden;
    let projector = IreeMolmo2VisionProjector::load(config.clone(), 7);
    assert_eq!(projector.artifact_fingerprint(), 7);
    assert_eq!((projector.image_patch_id(), projector.text_hidden_size()), (151938, 10));
    let patches = vec![1.0f32.to_bits(); 2 * 4 * 588];
    let pooling = [0, 1, -1, -1, 4, 5, 6, 7];
    let groups = config.static_pool_groups;
    let run = |_: &mlxcel_xla::vision_input::PreparedMolmo2VisionInput| {
        let mut bytes = Vec::new();
        for row in 0..groups {
            for _ in 0..width {
                bytes.extend_from_slice(&(row as f32).to_le_bytes());
            }
        }
        Ok(bytes)
    };
    let out = projector.project(&image(&patches, &pooling), true, &run).unwrap();
    assert_eq!(out.shape, [2, 10]);
    assert_eq!(out.values[..10], vec![0.0f32.to_bits(); 10][..]);
    assert_eq!(out.values[10..], vec![1.0f32.to_bits(); 10][..]);
    assert_eq!(out.signed_pooling_indices, pooling);
    assert_eq!(out.upload_bytes, 4 * (2 * 4 * 588 + 4 * groups));
    assert_eq!(out.transfer_bytes, 4 * groups * width);

    let unreached = |_: &mlxcel_xla::vision_input::PreparedMolmo2VisionInput| -> Result<
        Vec<u8>,
        String,
    > { panic!("module run") };
    assert!(projector.project(&image(&patches[1..], &pooling), true, &unreached).is_err());

    let failing = |_: &mlxcel_xla::vision_input::PreparedMolmo2VisionInput| {
        Err("status 3".to_string())
    };
    assert!(projector.project(&image(&patches, &pooling), true, &failing).is_err());
}

#[test]
fn diagnostic_projections_read_every_stage() {
    let config = test_config(true);
    let projector = IreeMolmo2VisionDiagnosticProjector::load(config);
    assert_eq!((projector.image_patch_id(), projector.text_hidden_size()), (151938, 10));
    let patches = vec![1.0f32.to_bits(); 2 * 4 * 588];
    let pooling = [0, 1, -1, -1, 4, 5, 6, 7];
    let run = |_: &mlxcel_xla::vision_input::PreparedMolmo2VisionInput,
               specs: &Vec<mlxcel_xla::vision_output::Molmo2DiagnosticStageSpec>| {
        Ok(specs
            .iter()
            .map(|spec| vec![0u8; 4 * spec.static_shape.iter().product::<usize>()])
            .collect())
    };
    let out = projector.project(&image(&patches, &pooling), true, &run).unwrap();
    assert_eq!(out.projected_shape, [2, 10]);
    assert_eq!(out.active_groups, vec![0, 1]);
    assert_eq!(out.projected_values.len(), 20);
    assert_eq!(out.upload_bytes, 4 * (2 * 4 * 588 + 8));
    assert_eq!(
        out.transfer_bytes,
        diagnostic_stage_specs(&test_config(true), 2, 2)
            .iter()
            .map(|spec| 4 * spec.static_shape.iter().product::<usize>())
            .sum::<usize>()
    );
    assert!(out.stages.iter().all(|stage| stage.values.len()
        == stage.shape.iter().product::<usize>()));
}

fn shard(tensors: &[(&str, &str, &[usize], &[u8])]) -> Vec<u8> {
    let mut header = String::from("{");
    let mut data = Vec::new();
    for (i, (name, dtype, shape, bytes)) in tensors.iter().enumerate() {
        let start = data.len();
        data.extend_from_slice(bytes);
        if i > 0 {
            header.push(',');
        }
        header.push_str(&format!(
            r#""{name}":{{"dtype":"{dtype}","shape":{shape:?},"data_offsets":[{start},{}]}}"#,
            data.len()
        ));
    }
    header.push('}');
    let mut out = (header.len() as u64).to_le_bytes().to_vec();
    out.extend_from_slice(header.as_bytes());
    out.extend_from_slice(&data);
    out
}

fn spec(name: &str, shape: &[usize]) -> Molmo2VisionWeightSpec {
    Molmo2VisionWeightSpec { name: name.to_string(), shape: shape.to_vec() }
}

#[test]
fn vision_weights_are_found_widened_and_described() {
    let one = shard(&[("a", "F32", &[2], &[0, 0, 128, 63, 0, 0, 0, 64])]);
    let two = shard(&[("b", "BF16", &[1, 1], &[0x80, 0x3f])]);
    let files = vec![
        ShardFile { path: "/m/1.safetensors".to_string(), bytes: Ok(&one) },
        ShardFile { path: "/m/2.safetensors".to_string(), bytes: Ok(&two) },
    ];
    let specs = vec![spec("b", &[1, 1]), spec("a", &[2])];
    let paths = resolve_shards(&files, &specs).unwrap();
    assert_eq!(paths, vec!["/m/2.safetensors", "/m/1.safetensors"]);
    let (weights, schema) = load_weights(&files, &paths, &specs).unwrap();
    assert_eq!(weights[0].values, vec![1.0f32.to_bits()]);
    assert_eq!(weights[1].values, vec![1.0f32.to_bits(), 2.0f32.to_bits()]);
    assert!(!schema.is_empty());

    assert!(resolve_shards(&files, &vec![spec("c", &[1])]).is_err());
    let wrong = vec![spec("b", &[2]), spec("a", &[2])];
    assert!(load_weights(&files, &paths, &wrong).is_err());
}

#[test]
fn unreadable_shards_are_reported() {
    let files = vec![ShardFile { path: "/m/1".to_string(), bytes: Err("denied".to_string()) }];
    assert!(resolve_shards(&files, &vec![spec("a", &[1])]).unwrap_err().contains("denied"));
    let garbage = [1u8, 2, 3];
    let files = vec![ShardFile { path: "/m/1".to_string(), bytes: Ok(&garbage) }];
    assert!(resolve_shards(&files, &vec![spec("a", &[1])]).is_err());
}

fn file_of(header: &str) -> Vec<u8> {
    let mut bytes = (header.len() as u64).to_le_bytes().to_vec();
    bytes.extend_from_slice(header.as_bytes());
    bytes
}

#[test]
fn headers_beyond_the_machine_are_refused() {
    let size: u64 = u64::MAX / 8;
    let objects: Vec<String> = (0..8u64)
        .map(|i| {
            format!(
                r#""t{i}":{{"dtype":"U8","shape":[{size}],"data_offsets":[{},{}]}}"#,
                i * size,
                (i + 1) * size
            )
        })
        .collect();
    let lists: Vec<String> = (0..8u64)
        .map(|i| format!(r#""t{i}":["U8",[{size}],[{},{}]]"#, i * size, (i + 1) * size))
        .collect();
    for tensors in [objects, lists] {
        let bytes = file_of(&format!("{{{}}}", tensors.join(",")));
        let files = vec![ShardFile { path: "/m/1".to_string(), bytes: Ok(&bytes) }];
        let error = resolve_shards(&files, &vec![spec("t0", &[1])]).unwrap_err();
        assert_eq!(error, "parse /m/1: incomplete metadata, file not fully covered");
    }
}

#[test]
fn model_shards_are_the_sorted_safetensors() {
    let listing = vec!["b.safetensors".to_string(), "x.json".to_string(), "a.safetensors".to_string()];
    assert_eq!(model_shards("/m", &listing).unwrap(), vec!["a.safetensors", "b.safetensors"]);
    assert_eq!(
        model_shards("/m", &Vec::new()).unwrap_err(),
        "no safetensors checkpoint shards found in /m"
    );
}

#[test]
fn the_weight_list_covers_the_emitted_layers() {
    let config = test_config(true);
    let specs = config.weight_specs();
    assert!(specs.iter().any(|s| s.name == "vision_tower.image_vit.patch_embedding.weight"));
    assert!(specs.iter().any(|s| s.name == "vision_tower.image_projector.w3.weight"));
    assert_eq!(config.selected_width(), 16);
}
