use mlxcel_xla::bundle::{
    bundle_modules, check_compiler, check_dist_compiler, compile_arguments, context_arguments,
    diagnostics_tag, fingerprint_parts, finish_compile, finish_create, iree_compile_bin, iree_dist,
    keeps_projections_half, module_tag, plan_bundle, BundleChecks, BundleGraphs, CompilerChoice,
    CompilerSources, FingerprintPart, ModuleKind,
};
use mlxcel_xla::config::{Config, DeepStackConfig, QuantConfig};
use mlxcel_xla::runtime::{Gemma3nRuntime, Precision, RuntimeConfig};

fn sources() -> CompilerSources {
    CompilerSources {
        compiler: None,
        built_compiler: None,
        cuda: false,
        dist: None,
        built_dist: None,
    }
}

fn gemma3n(quantization: Option<QuantConfig>) -> RuntimeConfig {
    RuntimeConfig::Gemma3n(Gemma3nRuntime {
        context_capacity: 4,
        hidden: 8,
        vocab: 12,
        n_layers: 2,
        quantization,
        dense_ple_shape: [4, 2, 2],
        weights: Vec::new(),
    })
}

fn checks() -> BundleChecks {
    BundleChecks {
        precision: Ok(Precision::F16),
        qmv_available: true,
        dispatches: Ok(()),
        packed: Ok(()),
    }
}

fn dense() -> RuntimeConfig {
    RuntimeConfig::Dense(Config::llama_3_2_1b())
}

fn stacked() -> RuntimeConfig {
    RuntimeConfig::Dense(Config {
        deepstack: Some(DeepStackConfig {
            target_layer_indices: vec![0, 2],
            max_visual_positions: 2,
        }),
        ..Config::llama_3_2_1b()
    })
}

fn graphs(decode: &str) -> BundleGraphs {
    BundleGraphs {
        prefill: "p".to_string(),
        prefill_embeddings: "e".to_string(),
        prefill_deepstack: None,
        decode: decode.to_string(),
    }
}

#[test]
fn the_environment_names_the_compiler_first() {
    let path = |text: &str| Some(text.to_string());
    let named = CompilerSources { compiler: path("/a"), built_compiler: path("/b"), ..sources() };
    assert!(matches!(iree_compile_bin(named), Ok(CompilerChoice::Named(p)) if p == "/a"));
    let built = CompilerSources { built_compiler: path("/b"), cuda: true, ..sources() };
    assert!(matches!(iree_compile_bin(built), Ok(CompilerChoice::Named(p)) if p == "/b"));
    let dist = CompilerSources { dist: path("/d"), built_dist: path("/e"), ..sources() };
    assert!(matches!(iree_compile_bin(dist), Ok(CompilerChoice::OfDist(p)) if p == "/d"));
    assert_eq!(iree_dist(None, path("/e")), Ok("/e".to_string()));
    assert!(iree_compile_bin(sources()).unwrap_err().contains("IREE_DIST is not set"));
    let cuda = CompilerSources { cuda: true, dist: path("/d"), ..sources() };
    assert!(iree_compile_bin(cuda).unwrap_err().contains("cuda-capable iree-compile"));
}

#[test]
fn missing_compilers_and_failed_runs_are_reported() {
    assert!(check_compiler("/c", true).is_ok());
    assert_eq!(check_compiler("/c", false).unwrap_err(), "iree-compile not found at /c");
    assert!(check_dist_compiler("/c", true).is_ok());
    assert!(check_dist_compiler("/c", false).unwrap_err().contains("set IREE_DIST"));
    assert!(finish_compile("decode", true, "").is_ok());
    assert_eq!(
        finish_compile("decode", false, "bad").unwrap_err(),
        "iree-compile failed for decode: bad"
    );
    assert!(finish_create(true).is_ok());
    assert!(finish_create(false).unwrap_err().contains("xla_llama_create failed"));
}

#[test]
fn compiler_arguments_keep_their_order() {
    assert_eq!(
        compile_arguments(&vec!["--a", "--b"], "g.mlir", "g.vmfb"),
        vec!["--iree-input-type=stablehlo", "--a", "--b", "g.mlir", "-o", "g.vmfb"]
    );
}

#[test]
fn graphs_are_tagged_by_engine() {
    assert_eq!(module_tag(ModuleKind::Decode, None), "decode");
    assert_eq!(module_tag(ModuleKind::Decode, Some(8)), "decode_ragged_logits_b8");
    assert_eq!(module_tag(ModuleKind::PrefillDeepStack, None), "prefill_embeddings_deepstack");
    assert_eq!(module_tag(ModuleKind::Prefill, Some(4)), "prefill_logits");
    assert_eq!(diagnostics_tag(true), "prefill_all_layer_diagnostics");
    assert_eq!(diagnostics_tag(false), "prefill_diagnostics");
    assert_eq!(bundle_modules(&dense()).len(), 3);
    assert_eq!(bundle_modules(&stacked())[2], ModuleKind::PrefillDeepStack);
}

#[test]
fn plans_fix_precision_product_and_flags() {
    let plan = plan_bundle("metal", &dense(), checks()).unwrap();
    assert_eq!((plan.precision, plan.native_qmv), (Precision::F16, false));
    let q4 = Some(QuantConfig { bits: 4, group_size: 64 });
    let plan = plan_bundle("cuda", &gemma3n(q4), checks()).unwrap();
    assert_eq!((plan.precision, plan.native_qmv), (Precision::Bf16, true));
    assert_eq!(plan.flags, vec!["--iree-hal-target-device=cuda", "--iree-cuda-target=sm_80"]);
    assert!(plan_bundle("metal", &gemma3n(None), checks()).unwrap_err().contains("Metal"));
    assert!(plan_bundle("tpu", &dense(), checks()).unwrap_err().contains("unsupported"));
    let refuse = |text: &str| Err(text.to_string());
    let mut no_packed = checks();
    no_packed.packed = refuse("packed");
    assert_eq!(plan_bundle("cuda", &dense(), no_packed).unwrap_err(), "packed");
    let mut no_dispatch = checks();
    no_dispatch.dispatches = refuse("dispatch");
    assert_eq!(plan_bundle("cuda", &gemma3n(q4), no_dispatch).unwrap_err(), "dispatch");
    let mut no_precision = checks();
    no_precision.precision = Err("precision".to_string());
    assert_eq!(plan_bundle("cuda", &dense(), no_precision).unwrap_err(), "precision");
}

#[test]
fn fingerprints_cover_graphs_precision_and_product() {
    let one = fingerprint_parts("m", "w", Precision::F32, None, graphs("d"));
    assert_eq!(one.len(), 8);
    assert_eq!(one[3], FingerprintPart::Text("F32".to_string()));
    assert_eq!(one[6], FingerprintPart::Optional(None));
    assert_ne!(one, fingerprint_parts("m", "w", Precision::F16, None, graphs("d")));
    assert_ne!(one, fingerprint_parts("m", "w", Precision::F32, Some("qmv"), graphs("d")));
    assert_ne!(one, fingerprint_parts("m", "w", Precision::F32, None, graphs("x")));
}

#[test]
fn contexts_get_the_model_sizes() {
    let arguments = context_arguments(&stacked(), 3).unwrap();
    assert_eq!(arguments.deepstack_layers, vec![0, 2]);
    assert_eq!(arguments.dimensions.n_weights, 3);
    assert!(!arguments.has_dense_ple && !arguments.has_adapter_modes);
    assert!(context_arguments(&gemma3n(None), 1).unwrap().has_dense_ple);
    assert!(context_arguments(&dense(), usize::MAX).is_err());
    assert!(keeps_projections_half(Precision::F16, &dense()));
    assert!(!keeps_projections_half(Precision::F32, &dense()));
    assert!(!keeps_projections_half(Precision::F16, &gemma3n(None)));
}
