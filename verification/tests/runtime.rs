use std::cell::RefCell;

use mlxcel_xla::config::{Config, DeepStackConfig, MropeConfig, MropeLayout, QuantConfig};
use mlxcel_xla::engine::{
    finish_call, Gemma3nDensePle, Gemma3nDiagnosticLayout, IreeLlama, PreparedDeepStack,
    PreparedIreePrefill, PreparedPositions, TokenPrompt,
};
use mlxcel_xla::loader::{checked_ffi_i64, checked_ffi_int};
use mlxcel_xla::ragged::{validate_slot, IreeRaggedLlama};
use mlxcel_xla::runtime::{
    bundle_fingerprint, bundle_flags, compiled_graph_paths, deepstack_target_layers,
    effective_precision, gemma3n_native_qmv_eligibility, runtime_ffi_dimensions, target_flags,
    validate_adapter_modes, Gemma3nRuntime, Gemma3nWeightSpec, Precision, PreparedPositionMode,
    RuntimeConfig, XlaTensorDesc,
};
use mlxcel_xla::weight_specs::WeightSpec;

const Q4_GROUP64: Option<QuantConfig> = Some(QuantConfig { bits: 4, group_size: 64 });

fn tiny_gemma3n() -> Gemma3nRuntime {
    Gemma3nRuntime {
        context_capacity: 4,
        hidden: 8,
        vocab: 12,
        n_layers: 2,
        quantization: None,
        dense_ple_shape: [4, 2, 2],
        weights: vec![
            Gemma3nWeightSpec::Tensor("model.language_model.norm.weight".to_string()),
            Gemma3nWeightSpec::Projection(
                "model.language_model.layers.0.self_attn.q_proj.weight".to_string(),
            ),
        ],
    }
}

fn tiny_gemma3n_runtime() -> RuntimeConfig {
    RuntimeConfig::Gemma3n(tiny_gemma3n())
}

fn tiny_config() -> Config {
    Config { context_capacity: 4, hidden: 2, vocab: 3, ..Config::llama_3_2_1b() }
}

fn tiny_dense() -> RuntimeConfig {
    RuntimeConfig::Dense(tiny_config())
}

fn stacked() -> RuntimeConfig {
    RuntimeConfig::Dense(Config {
        deepstack: Some(DeepStackConfig {
            target_layer_indices: vec![0, 2],
            max_visual_positions: 2,
        }),
        ..tiny_config()
    })
}

fn mrope() -> RuntimeConfig {
    RuntimeConfig::Dense(Config {
        mrope: Some(MropeConfig { sections: [1, 1, 1], layout: MropeLayout::Chunked }),
        ..tiny_config()
    })
}

fn prompt() -> PreparedIreePrefill {
    PreparedIreePrefill {
        embeddings: vec![0; 8],
        positions: PreparedPositions {
            mode: PreparedPositionMode::OneD,
            values: vec![0, 1, 2, 3],
            rope_delta: 0,
        },
        attention_bias: vec![0; 16],
        hidden_size: 2,
        context_capacity: 4,
        effective_len: 3,
        adapter_mode: 0,
    }
}

#[test]
fn cuda_q4_requires_native_qmv_and_exact_group_contract() {
    assert!(gemma3n_native_qmv_eligibility("cuda", Q4_GROUP64, true).unwrap());
    assert!(
        gemma3n_native_qmv_eligibility("cuda", Q4_GROUP64, false)
            .unwrap_err()
            .contains("refusing the numerically different dot fallback")
    );
    assert!(
        gemma3n_native_qmv_eligibility("cuda", Some(QuantConfig { bits: 4, group_size: 32 }), true)
            .unwrap_err()
            .contains("group_size=64")
    );
}

#[test]
fn only_cuda_q4_selects_native_qmv() {
    assert!(!gemma3n_native_qmv_eligibility("local-task", Q4_GROUP64, true).unwrap());
    assert!(
        !gemma3n_native_qmv_eligibility(
            "cuda",
            Some(QuantConfig { bits: 8, group_size: 64 }),
            true
        )
        .unwrap()
    );
    assert!(!gemma3n_native_qmv_eligibility("cuda", None, true).unwrap());
}

#[test]
fn other_widths_have_no_native_qmv() {
    let odd = Some(QuantConfig { bits: 3, group_size: 64 });
    assert_eq!(
        gemma3n_native_qmv_eligibility("cuda", odd, true).unwrap_err(),
        "Gemma3n CUDA native QMV supports 4-bit checkpoints; got 3 bits"
    );
}

#[test]
fn gemma3n_runtime_precision_is_fixed_bf16_and_rejects_metal() {
    let cfg = tiny_gemma3n_runtime();
    let resolved = || Ok(Precision::F32);
    assert_eq!(effective_precision("cuda", &cfg, resolved()).unwrap(), Precision::Bf16);
    assert_eq!(effective_precision("local-task", &cfg, resolved()).unwrap(), Precision::Bf16);
    assert!(effective_precision("metal", &cfg, resolved()).unwrap_err().contains("BF16"));
    assert_eq!(effective_precision("metal", &tiny_dense(), resolved()).unwrap(), Precision::F32);
}

#[test]
fn runtime_ffi_preflight_rejects_oversized_config_and_weight_count() {
    let mut config = tiny_gemma3n();
    config.hidden = i32::MAX as usize + 1;
    let error = runtime_ffi_dimensions(&RuntimeConfig::Gemma3n(config), 1).unwrap_err();
    assert!(error.contains("hidden_size"));
    assert!(error.contains("does not fit"));

    let cfg = tiny_gemma3n_runtime();
    let error = runtime_ffi_dimensions(&cfg, i32::MAX as usize + 1).unwrap_err();
    assert!(error.contains("n_weights"));
    assert!(error.contains("does not fit"));
}

#[test]
fn dimensions_are_those_of_the_configuration() {
    let d = runtime_ffi_dimensions(&tiny_gemma3n_runtime(), 7).unwrap();
    assert_eq!((d.n_weights, d.context_capacity, d.hidden, d.model_layers), (7, 4, 8, 2));
    assert_eq!((d.dense_ple_layers, d.dense_ple_hidden), (2, 2));
    assert_eq!((d.deepstack_layers, d.deepstack_visual), (0, 0));
    let d = runtime_ffi_dimensions(&stacked(), 1).unwrap();
    assert_eq!((d.deepstack_layers, d.deepstack_visual), (2, 2));
    assert_eq!(deepstack_target_layers(&stacked()).unwrap(), vec![0, 2]);
    assert!(deepstack_target_layers(&tiny_dense()).unwrap().is_empty());
}

#[test]
fn gemma3n_weights_are_tensors_and_projections() {
    let specs = tiny_gemma3n_runtime().weight_specs(true);
    assert_eq!(
        specs,
        vec![
            WeightSpec::Whole("model.language_model.norm.weight".to_string()),
            WeightSpec::Proj("model.language_model.layers.0.self_attn.q_proj.weight".to_string()),
        ]
    );
}

#[test]
fn runtime_configurations_are_read_by_model_type() {
    let text = r#"{"model_type": "gemma3n"}"#;
    let cfg = RuntimeConfig::from_json("c.json", text, 4, Ok(tiny_gemma3n())).unwrap();
    assert_eq!((cfg.hidden(), cfg.vocab(), cfg.n_layers()), (8, 12, 2));
    assert_eq!(cfg.context_capacity(), 4);
    assert_eq!(cfg.dense_ple_shape(), Some([4, 2, 2]));
    let wider = RuntimeConfig::from_json("c.json", text, 16, Ok(tiny_gemma3n())).unwrap();
    assert_eq!((wider.context_capacity(), wider.hidden(), wider.n_layers()), (16, 8, 2));
    assert!(cfg.quantization().is_none() && cfg.deepstack().is_none());
    assert!(!cfg.has_adapter_modes() && !cfg.supports_f16_resident());
    assert_eq!(cfg.position_mode(), PreparedPositionMode::OneD);
    assert_eq!(mrope().position_mode(), PreparedPositionMode::Mrope3D);
    let error = RuntimeConfig::from_json("c.json", "{", 4, Ok(tiny_gemma3n())).unwrap_err();
    assert!(error.starts_with("parse c.json: "));
    let error =
        RuntimeConfig::from_json("c.json", text, 4, Err("no layers".to_string())).unwrap_err();
    assert!(error.contains("no layers"));
}

#[test]
fn tensor_descriptors_check_their_element_count() {
    let d = XlaTensorDesc::of_singles(6, &[2, 3]).unwrap();
    assert_eq!((d.byte_length, d.rank, d.dims), (24, 2, [2, 3, 0, 0]));
    assert_ne!(d.dtype, XlaTensorDesc::of_integers(6, &[2, 3]).unwrap().dtype);
    assert!(XlaTensorDesc::of_singles(5, &[2, 3]).is_err());
    assert!(XlaTensorDesc::of_singles(1, &[1, 1, 1, 1, 1]).is_err());
    assert!(XlaTensorDesc::new(0, 4, 0, &[usize::MAX, 2]).is_err());
}

#[test]
fn adapter_modes_are_language_speech_and_vision() {
    assert!(validate_adapter_modes(&[0, 1, 2], true).is_ok());
    assert!(validate_adapter_modes(&[0, 3], true).is_err());
    assert!(validate_adapter_modes(&[-1], true).is_err());
    assert!(validate_adapter_modes(&[0, 0], false).is_ok());
    assert!(validate_adapter_modes(&[1], false).is_err());
}

#[test]
fn numbers_that_do_not_fit_the_interface_are_named() {
    assert_eq!(checked_ffi_int(7, "n"), Ok(7));
    assert_eq!(
        checked_ffi_int(2147483648, "n").unwrap_err(),
        "n=2147483648 does not fit the IREE C ABI c_int"
    );
    assert_eq!(checked_ffi_i64(7, "n"), Ok(7));
    assert_eq!(
        checked_ffi_i64(usize::MAX, "n").unwrap_err(),
        "n=18446744073709551615 does not fit the IREE C ABI i64"
    );
}

#[test]
fn compiler_flags_follow_the_device() {
    assert_eq!(target_flags("cuda").unwrap(), vec!["--iree-hal-target-device=cuda"]);
    assert!(target_flags("tpu").is_err());
    let flags = bundle_flags("cuda", true).unwrap();
    assert_eq!(flags.last(), Some(&"--iree-cuda-target=sm_80"));
    assert_eq!(bundle_flags("metal", false).unwrap(), target_flags("metal").unwrap());
}

#[test]
fn graph_files_carry_the_capacity_and_the_key() {
    let (mlir, vmfb) = compiled_graph_paths("prefill", 64, 0xabc);
    assert_eq!(mlir, "prefill-c64-0000000000000abc.mlir");
    assert_eq!(vmfb, "prefill-c64-0000000000000abc.vmfb");
    assert_eq!(bundle_fingerprint(0), 1);
    assert_eq!(bundle_fingerprint(9), 9);
}

#[test]
fn native_statuses_become_messages() {
    assert_eq!(finish_call("entry", 0, 5), Ok(5));
    assert_eq!(finish_call("entry", -3, 5).unwrap_err(), "entry failed (status -3)");
}

#[test]
fn token_prompts_are_padded_to_the_capacity() {
    let mut engine = IreeLlama::load(tiny_dense(), 1).unwrap();
    assert_eq!(engine.context_capacity(), 4);
    let seen: RefCell<Vec<i32>> = RefCell::new(Vec::new());
    let run = |mode: i32, p: &TokenPrompt| {
        assert_eq!((mode, p.capacity, p.real_len), (0, 4, 2));
        *seen.borrow_mut() = p.tokens.clone();
        (0, 42)
    };
    let positions = || Ok(vec![0, 1, 2, 3]);
    assert_eq!(engine.prefill_first(&[7, 8], positions(), &run), Ok(42));
    assert_eq!(seen.borrow()[..2], [7, 8]);
    assert_eq!(seen.borrow().len(), 4);
    assert!(engine.prefill_seed(&[7, 8], positions(), &run).is_ok());
    assert!(engine.prefill_first(&[], positions(), &run).is_err());
    assert!(
        engine.prefill_first(&[1, 2, 3, 4, 5], positions(), &run).unwrap_err().contains("exceeds")
    );
    assert!(engine.prefill_first(&[7, 8], Err("bad".to_string()), &run).is_err());
    let failing = |_: i32, _: &TokenPrompt| (7, 0);
    assert!(
        engine.prefill_first(&[7, 8], positions(), &failing).unwrap_err().contains("status 7")
    );
}

#[test]
fn prepared_prompts_are_checked_before_the_native_call() {
    let mut engine = IreeLlama::load(tiny_dense(), 1).unwrap();
    let run = |d: &mlxcel_xla::engine::PromptDescriptors, _: &PreparedIreePrefill, n: i32| {
        assert_eq!(d.embeddings.dims, [4, 2, 0, 0]);
        (0, n)
    };
    assert_eq!(engine.prefill_prepared_first(&Ok(prompt()), &run), Ok(3));
    assert!(engine.prefill_prepared_first(&Err("bad".to_string()), &run).is_err());
    let mut short = prompt();
    short.embeddings.pop();
    assert!(engine.prefill_prepared_first(&Ok(short), &run).is_err());
    let mut adapted = prompt();
    adapted.adapter_mode = 1;
    assert!(engine.prefill_prepared_first(&Ok(adapted), &run).is_err());
    let mut gemma = IreeLlama::load(tiny_gemma3n_runtime(), 1).unwrap();
    assert!(
        gemma
            .prefill_prepared_first(&Ok(prompt()), &run)
            .unwrap_err()
            .contains("embeddings-plus-dense-PLE")
    );
}

fn additions() -> PreparedDeepStack {
    PreparedDeepStack {
        visual_positions: vec![0, 1],
        layer_features: vec![0; 8],
        layer_indices: vec![0, 2],
        hidden_size: 2,
        max_layer_count: 2,
        max_visual_count: 2,
        actual_layer_count: 2,
        actual_visual_count: 1,
    }
}

#[test]
fn deepstack_prompts_need_a_deepstack_bundle() {
    let run = |_: &mlxcel_xla::engine::PromptDescriptors,
               _: &PreparedIreePrefill,
               d: &mlxcel_xla::engine::DeepStackDescriptors,
               _: &PreparedDeepStack| {
        assert_eq!(d.layer_features.dims, [2, 2, 2, 0]);
        (0, 9)
    };
    let mut engine = IreeLlama::load(stacked(), 1).unwrap();
    assert_eq!(
        engine.prefill_deepstack_prepared_first(&Ok(prompt()), &Ok(additions()), &run),
        Ok(9)
    );
    let mut plain = IreeLlama::load(tiny_dense(), 1).unwrap();
    assert!(
        plain
            .prefill_deepstack_prepared_first(&Ok(prompt()), &Ok(additions()), &run)
            .unwrap_err()
            .contains("without that capability")
    );
}

#[test]
fn dense_embeddings_need_a_gemma3n_bundle_and_its_shape() {
    let ple = |shape: [usize; 3]| Gemma3nDensePle { shape, values: vec![0; 16] };
    let run = |_: &mlxcel_xla::engine::PromptDescriptors,
               _: &PreparedIreePrefill,
               d: &XlaTensorDesc,
               _: &Gemma3nDensePle| (0, d.rank);
    let wide = || PreparedIreePrefill {
        embeddings: vec![0; 32],
        hidden_size: 8,
        ..prompt()
    };
    let mut engine = IreeLlama::load(tiny_gemma3n_runtime(), 1).unwrap();
    assert_eq!(engine.prefill_gemma3n_prepared_first(&Ok(wide()), &ple([4, 2, 2]), &run), Ok(3));
    assert!(
        engine.prefill_gemma3n_prepared_first(&Ok(wide()), &ple([2, 4, 2]), &run).is_err()
    );
    let mut dense = IreeLlama::load(tiny_dense(), 1).unwrap();
    assert!(
        dense.prefill_gemma3n_prepared_first(&Ok(prompt()), &ple([4, 2, 2]), &run).is_err()
    );
    let batch = IreeRaggedLlama::load(tiny_gemma3n_runtime(), 1, 4).unwrap();
    assert!(batch.validate_gemma3n_dense_ple(&ple([4, 2, 2])).is_ok());
    assert!(batch.validate_gemma3n_dense_ple(&ple([4, 2, 3])).is_err());
}

#[test]
fn decoding_stays_inside_the_context() {
    let engine = IreeLlama::load(tiny_dense(), 1).unwrap();
    let run = |_: PreparedPositionMode, _: i32, token: i32, position: i32, len: i32| {
        assert_eq!((position, len), (3, 3));
        (0, token + 1)
    };
    let unasked = |_: i32, _: i32| -> Result<i32, String> { panic!("no coordinate is needed") };
    assert_eq!(engine.decode(5, 3, &unasked, &run), Ok(6));
    assert!(engine.decode(5, 4, &unasked, &run).is_err());
    assert!(engine.decode(5, -1, &unasked, &run).is_err());
}

#[test]
fn decode_coordinates_follow_the_delta_of_the_last_prompt() {
    let mut engine = IreeLlama::load(tiny_dense(), 1).unwrap();
    engine.position_mode = PreparedPositionMode::Mrope3D;
    assert_eq!(engine.rope_delta, 0);
    let seed = |_: &mlxcel_xla::engine::PromptDescriptors, _: &PreparedIreePrefill, _: i32| (0, 9);
    let mut spread = prompt();
    spread.positions.rope_delta = -2;
    assert_eq!(engine.prefill_prepared_first(&Ok(spread), &seed), Ok(9));
    assert_eq!(engine.rope_delta, -2);
    let coordinate = |delta: i32, len: i32| -> Result<i32, String> { Ok(len + delta) };
    let step = |mode: PreparedPositionMode, _: i32, token: i32, position: i32, len: i32| {
        assert_eq!((mode, position, len), (PreparedPositionMode::Mrope3D, 1, 3));
        (0, token + 1)
    };
    assert_eq!(engine.decode(5, 3, &coordinate, &step), Ok(6));
    let refused = |_: i32, _: i32| -> Result<i32, String> { Err("no coordinate".to_string()) };
    assert_eq!(engine.decode(5, 3, &refused, &step), Err("no coordinate".to_string()));
    let failing =
        |_: &mlxcel_xla::engine::PromptDescriptors, _: &PreparedIreePrefill, _: i32| (1, 0);
    assert!(engine.prefill_prepared_first(&Ok(prompt()), &failing).is_err());
    assert_eq!(engine.rope_delta, -2);
    let tokens = |_: i32, _: &TokenPrompt| (0, 1);
    engine.prefill_seed(&[7], Ok(vec![0, 1, 2, 3]), &tokens).unwrap();
    assert_eq!(engine.rope_delta, 0);
}

#[test]
fn refused_prompts_reach_no_native_entry() {
    let mut engine = IreeLlama::load(tiny_dense(), 1).unwrap();
    let run = |_: i32, _: &TokenPrompt| -> (i32, i32) { panic!("native prefill") };
    let positions = || Ok(vec![0, 1, 2, 3]);
    assert!(engine.prefill_first(&[], positions(), &run).is_err());
    assert!(engine.prefill_first(&[1; 5], positions(), &run).is_err());
    assert!(engine.prefill_seed(&[1; 5], positions(), &run).is_err());
    assert!(engine.prefill_seed(&[1], Err("none".to_string()), &run).is_err());
}

#[test]
fn slots_are_below_the_slot_count() {
    assert!(validate_slot(1, 2).is_ok());
    assert!(validate_slot(2, 2).is_err());
    assert!(IreeRaggedLlama::load(tiny_dense(), 1, i32::MAX as usize + 1).is_err());
}

#[test]
fn batched_engines_seed_and_decode_rows() {
    let engine = IreeRaggedLlama::load(tiny_dense(), 1, 4).unwrap();
    assert_eq!((engine.b_max(), engine.vocab(), engine.context_capacity()), (4, 3, 4));
    assert_eq!((engine.hidden_size(), engine.model_layers()), (2, 16));
    assert_eq!(engine.position_mode(), PreparedPositionMode::OneD);
    let seed = |slot: i32, p: &TokenPrompt, vocab: i32| {
        assert_eq!((slot, p.real_len, vocab), (1, 2, 3));
        (0, vec![1, 2, 3])
    };
    let positions = || Ok(vec![0, 1, 2, 3]);
    assert_eq!(engine.prefill_slot_logits(1, &[7, 8], positions(), &seed), Ok(vec![1, 2, 3]));
    assert!(engine.prefill_slot_logits(4, &[7, 8], positions(), &seed).is_err());
    assert!(engine.prefill_slot_logits(1, &[], positions(), &seed).is_err());

    let step = |_: i32, modes: &[i32], tokens: &[i32], pos: &[i32], lens: &[i32], _: i32| {
        assert_eq!(modes, [0; 4]);
        assert_eq!((tokens, pos, lens), (&[5, 6, 0, 0][..], &[2, 0, 0, 0][..], &[2, 0, 0, 0][..]));
        (0, vec![0; 12])
    };
    let (tokens, lens) = ([5, 6, 0, 0], [2, 0, 0, 0]);
    assert_eq!(engine.decode_ragged_logits(&tokens, &lens, &lens, &step), Ok(vec![0; 12]));
    assert!(engine.decode_ragged_logits(&[5], &[2], &[2], &step).is_err());
    assert!(
        engine
            .decode_ragged_logits_with_modes(&[0, 1, 0, 0], &tokens, &lens, &lens, &step)
            .is_err()
    );
    assert!(
        engine.decode_ragged_mrope_logits(&tokens, &[[0; 3]; 4], &lens, &step).is_err()
    );
    let reset = |b: i32| {
        assert_eq!(b, 4);
        0
    };
    assert!(engine.reset_slots_for_diagnostics(&reset).is_ok());
}

#[test]
fn batched_mrope_positions_are_laid_out_row_by_row() {
    let engine = IreeRaggedLlama::load(mrope(), 1, 4).unwrap();
    let seen: RefCell<Vec<i32>> = RefCell::new(Vec::new());
    let step = |_: i32, _: &[i32], _: &[i32], pos: &[i32], _: &[i32], _: i32| {
        *seen.borrow_mut() = pos.to_vec();
        (0, vec![0; 6])
    };
    let positions = [[1, 2, 3], [4, 5, 6], [0; 3], [0; 3]];
    let (tokens, lens) = ([5, 6, 0, 0], [2, 0, 0, 0]);
    assert!(
        engine
            .decode_ragged_mrope_logits_with_modes(&[0; 4], &tokens, &positions, &lens, &step)
            .is_ok()
    );
    assert_eq!(*seen.borrow(), [1, 2, 3, 4, 5, 6, 0, 0, 0, 0, 0, 0]);
    assert!(engine.decode_ragged_logits(&tokens, &lens, &lens, &step).is_err());
}

#[test]
fn batched_prepared_prompts_return_logits_and_captures() {
    let engine = IreeRaggedLlama::load(tiny_dense(), 1, 4).unwrap();
    let run = |_: i32,
               _: &mlxcel_xla::engine::PromptDescriptors,
               _: &PreparedIreePrefill,
               v: i32| (0, vec![v as u32; 3]);
    assert_eq!(engine.prefill_prepared_slot_logits(0, &prompt(), &run), Ok(vec![3; 3]));
    let capture = |_: i32,
                   _: &mlxcel_xla::engine::PromptDescriptors,
                   _: &PreparedIreePrefill,
                   v: i32,
                   w: i32| (0, (vec![0; v as usize], vec![0; w as usize]));
    assert!(engine.prefill_prepared_slot_diagnostics(0, &prompt(), 5, &capture).is_ok());
    assert!(engine.prefill_prepared_slot_diagnostics(0, &prompt(), 0, &capture).is_err());
    assert!(engine.prepare_deepstack().is_err());
    assert!(engine.diagnostic_layout().is_err());

    let deep = IreeRaggedLlama::load(stacked(), 1, 4).unwrap();
    assert_eq!(deep.prepare_deepstack().unwrap().max_visual_positions, 2);
    let run = |_: i32,
               _: &mlxcel_xla::engine::PromptDescriptors,
               _: &PreparedIreePrefill,
               _: &mlxcel_xla::engine::DeepStackDescriptors,
               _: &PreparedDeepStack,
               v: i32| (0, vec![0; v as usize]);
    assert!(
        deep.prefill_deepstack_prepared_slot_logits(1, &prompt(), &additions(), &run).is_ok()
    );
}

#[test]
fn diagnostic_bundles_are_for_gemma3n() {
    let layout = |complaint: Option<String>| Gemma3nDiagnosticLayout { total_len: 6, complaint };
    let engine =
        IreeRaggedLlama::load_with_diagnostics(tiny_gemma3n_runtime(), 1, 4, layout(None)).unwrap();
    assert_eq!(engine.diagnostic_layout().unwrap().total_len, 6);
    let run = |_: i32, _: &TokenPrompt, n: i32| (0, vec![0; n as usize]);
    let positions = || Ok(vec![0, 1, 2, 3]);
    assert_eq!(engine.prefill_diagnostics_slot(0, &[1], positions(), &run), Ok(vec![0; 6]));
    assert!(
        IreeRaggedLlama::load_with_diagnostics(tiny_dense(), 1, 4, layout(None))
            .unwrap_err()
            .contains("Gemma3n")
    );
    assert!(
        IreeRaggedLlama::load_with_all_layer_diagnostics(
            tiny_gemma3n_runtime(),
            1,
            4,
            layout(Some("gap".to_string()))
        )
        .is_err()
    );
    let plain = IreeRaggedLlama::load(tiny_dense(), 1, 4).unwrap();
    assert!(
        plain
            .prefill_diagnostics_slot(0, &[1], positions(), &run)
            .unwrap_err()
            .contains("no diagnostic module")
    );
}
