//! The compiled modules of an engine: which compiler runs, what it is asked to compile, and
//! what the compatibility fingerprint of the result covers.
use vstd::prelude::*;

use crate::config::first_error;
use crate::runtime::{
    are_dimensions, bundle_flags, deepstack_target_layers, device_message, dimensions_error,
    effective_precision, flag_texts, flags_of,
    gemma3n_native_qmv_eligibility, layers_error, qmv_error, runtime_ffi_dimensions, Precision,
    RuntimeConfig, RuntimeFfiDimensions, MSG_NO_METAL,
};
use crate::text::{dec, size_text, texts};

verus! {

/// The fingerprint's schema of a bundle.
pub const BUNDLE_SCHEMA: &'static str = "mlxcel-xla-runtime-bundle-v2-explicit-position-mode";

pub const MSG_NO_DIST: &'static str =
    "IREE_DIST is not set and no dist path was baked at build time";

pub const MSG_NO_COMPILER: &'static str =
    "the cuda build needs a cuda-capable iree-compile: set MLXCEL_XLA_IREE_COMPILE to one matching the source runtime version (e.g. the pip iree-compile)";

pub const MSG_CREATE: &'static str =
    "xla_llama_create failed (IREE runtime; see stderr for the status)";

/// What the environment and the build say of the compiler.
#[derive(Debug)]
pub struct CompilerSources {
    /// `MLXCEL_XLA_IREE_COMPILE` of the environment.
    pub compiler: Option<String>,
    /// `MLXCEL_XLA_IREE_COMPILE` of the build.
    pub built_compiler: Option<String>,
    /// A CUDA build, which has no distribution.
    pub cuda: bool,
    /// `IREE_DIST` of the environment.
    pub dist: Option<String>,
    /// `MLXCEL_XLA_IREE_DIST` of the build.
    pub built_dist: Option<String>,
}

/// The compiler to run.
#[derive(Debug)]
pub enum CompilerChoice {
    /// One that was named.
    Named(String),
    /// `bin/iree-compile` of this distribution, which has to be there.
    OfDist(String),
}

/// A distribution: that of the environment, else that of the build.
pub fn iree_dist(dist: Option<String>, built_dist: Option<String>) -> (r: Result<String, String>)
    ensures
        match r {
            Ok(path) => dist == Some(path) || (dist is None && built_dist == Some(path)),
            Err(message) => dist is None && built_dist is None && message@ == MSG_NO_DIST@,
        },
{
    match dist {
        Some(path) => Ok(path),
        None => match built_dist {
            Some(path) => Ok(path),
            None => Err(MSG_NO_DIST.to_owned()),
        },
    }
}

/// The compiler: one named by the environment, else one named by the build, else that of a
/// distribution.
pub fn iree_compile_bin(sources: CompilerSources) -> (r: Result<CompilerChoice, String>)
    ensures
        match r {
            Ok(CompilerChoice::Named(path)) => sources.compiler == Some(path) || (
            sources.compiler is None && sources.built_compiler == Some(path)),
            Ok(CompilerChoice::OfDist(path)) => {
                &&& sources.compiler is None && sources.built_compiler is None && !sources.cuda
                &&& sources.dist == Some(path) || (sources.dist is None && sources.built_dist
                    == Some(path))
            },
            Err(message) => {
                &&& sources.compiler is None && sources.built_compiler is None
                &&& sources.cuda ==> message@ == MSG_NO_COMPILER@
                &&& !sources.cuda ==> sources.dist is None && sources.built_dist is None
                    && message@ == MSG_NO_DIST@
            },
        },
{
    match sources.compiler {
        Some(path) => Ok(CompilerChoice::Named(path)),
        None => match sources.built_compiler {
            Some(path) => Ok(CompilerChoice::Named(path)),
            None => if sources.cuda {
                Err(MSG_NO_COMPILER.to_owned())
            } else {
                match iree_dist(sources.dist, sources.built_dist) {
                    Ok(path) => Ok(CompilerChoice::OfDist(path)),
                    Err(message) => Err(message),
                }
            },
        },
    }
}

/// The compiler of a distribution has to exist.
pub fn check_dist_compiler(path: &str, exists: bool) -> (r: Result<(), String>)
    ensures
        match r {
            Ok(_) => exists,
            Err(message) => !exists && message@ == "iree-compile not found at "@ + path@
                + " (set IREE_DIST to a valid dist)"@,
        },
{
    if exists {
        Ok(())
    } else {
        Err(
            "iree-compile not found at ".to_owned().concat(path).concat(
                " (set IREE_DIST to a valid dist)",
            ),
        )
    }
}

/// A compiler has to exist before a graph is compiled.
pub fn check_compiler(path: &str, exists: bool) -> (r: Result<(), String>)
    ensures
        match r {
            Ok(_) => exists,
            Err(message) => !exists && message@ == "iree-compile not found at "@ + path@,
        },
{
    if exists {
        Ok(())
    } else {
        Err("iree-compile not found at ".to_owned().concat(path))
    }
}

/// The arguments of a compiler run.
pub open spec fn arguments_of(flags: Seq<Seq<char>>, mlir: Seq<char>, output: Seq<char>) -> Seq<
    Seq<char>,
> {
    seq!["--iree-input-type=stablehlo"@] + flags + seq![mlir, "-o"@, output]
}

/// The texts of flags.
pub open spec fn flags_form(flags: Seq<&str>) -> Seq<Seq<char>> {
    Seq::new(flags.len(), |i: int| flags[i]@)
}

/// The arguments with which the compiler lowers a graph file to a module file.
pub fn compile_arguments(flags: &Vec<&str>, mlir: &str, output: &str) -> (r: Vec<String>)
    ensures
        texts(r@) == arguments_of(flags_form(flags@), mlir@, output@),
{
    let mut out: Vec<String> = Vec::new();
    out.push("--iree-input-type=stablehlo".to_owned());
    let mut i: usize = 0;
    assert(texts(out@) =~= seq!["--iree-input-type=stablehlo"@] + flags_form(flags@).subrange(
        0,
        0,
    ));
    while i < flags.len()
        invariant
            i <= flags@.len(),
            texts(out@) == seq!["--iree-input-type=stablehlo"@] + flags_form(flags@).subrange(
                0,
                i as int,
            ),
        decreases flags@.len() - i,
    {
        let ghost before = texts(out@);
        out.push(flags[i].to_owned());
        assert(texts(out@) =~= before.push(flags@[i as int]@));
        i += 1;
        assert(texts(out@) =~= seq!["--iree-input-type=stablehlo"@] + flags_form(
            flags@,
        ).subrange(0, i as int));
    }
    let ghost before = texts(out@);
    out.push(mlir.to_owned());
    out.push("-o".to_owned());
    out.push(output.to_owned());
    assert(texts(out@) =~= before + seq![mlir@, "-o"@, output@]);
    assert(texts(out@) =~= arguments_of(flags_form(flags@), mlir@, output@));
    out
}

/// The outcome of a compiler run for a graph.
pub fn finish_compile(tag: &str, success: bool, stderr: &str) -> (r: Result<(), String>)
    ensures
        match r {
            Ok(_) => success,
            Err(message) => !success && message@ == "iree-compile failed for "@ + tag@ + ": "@
                + stderr@,
        },
{
    if success {
        Ok(())
    } else {
        Err("iree-compile failed for ".to_owned().concat(tag).concat(": ").concat(stderr))
    }
}

/// The graphs of a bundle.
#[derive(Debug, Clone, Copy, PartialEq, Eq, Structural)]
pub enum ModuleKind {
    Prefill,
    PrefillEmbeddings,
    PrefillDeepStack,
    Decode,
}

/// The cache tag of a graph. A batched bundle returns logits, and its decode graph is made
/// for a slot count.
pub open spec fn tag_of(kind: ModuleKind, slots: Option<usize>) -> Seq<char> {
    match (kind, slots) {
        (ModuleKind::Prefill, None) => "prefill"@,
        (ModuleKind::PrefillEmbeddings, None) => "prefill_embeddings"@,
        (ModuleKind::PrefillDeepStack, None) => "prefill_embeddings_deepstack"@,
        (ModuleKind::Decode, None) => "decode"@,
        (ModuleKind::Prefill, Some(_)) => "prefill_logits"@,
        (ModuleKind::PrefillEmbeddings, Some(_)) => "prefill_embeddings_logits"@,
        (ModuleKind::PrefillDeepStack, Some(_)) => "prefill_embeddings_deepstack_logits"@,
        (ModuleKind::Decode, Some(b_max)) => "decode_ragged_logits_b"@ + dec(b_max as nat),
    }
}

/// The cache tag of a graph.
pub fn module_tag(kind: ModuleKind, slots: Option<usize>) -> (r: String)
    ensures
        r@ == tag_of(kind, slots),
{
    match slots {
        None => match kind {
            ModuleKind::Prefill => "prefill".to_owned(),
            ModuleKind::PrefillEmbeddings => "prefill_embeddings".to_owned(),
            ModuleKind::PrefillDeepStack => "prefill_embeddings_deepstack".to_owned(),
            ModuleKind::Decode => "decode".to_owned(),
        },
        Some(b_max) => match kind {
            ModuleKind::Prefill => "prefill_logits".to_owned(),
            ModuleKind::PrefillEmbeddings => "prefill_embeddings_logits".to_owned(),
            ModuleKind::PrefillDeepStack => "prefill_embeddings_deepstack_logits".to_owned(),
            ModuleKind::Decode => "decode_ragged_logits_b".to_owned().concat(&size_text(b_max)),
        },
    }
}

/// The graphs of a model, in the order in which they are compiled: a DeepStack graph only
/// where the model declares DeepStack.
pub open spec fn modules_of(cfg: RuntimeConfig) -> Seq<ModuleKind> {
    if cfg.stack() is Some {
        seq![
            ModuleKind::Prefill,
            ModuleKind::PrefillEmbeddings,
            ModuleKind::PrefillDeepStack,
            ModuleKind::Decode,
        ]
    } else {
        seq![ModuleKind::Prefill, ModuleKind::PrefillEmbeddings, ModuleKind::Decode]
    }
}

/// The graphs of a model, in the order in which they are compiled.
pub fn bundle_modules(cfg: &RuntimeConfig) -> (r: Vec<ModuleKind>)
    ensures
        r@ == modules_of(*cfg),
{
    let mut out: Vec<ModuleKind> = Vec::new();
    out.push(ModuleKind::Prefill);
    out.push(ModuleKind::PrefillEmbeddings);
    if cfg.deepstack().is_some() {
        out.push(ModuleKind::PrefillDeepStack);
    }
    out.push(ModuleKind::Decode);
    assert(out@ =~= modules_of(*cfg));
    out
}

/// The tag of the graph that captures a prompt's stages.
pub fn diagnostics_tag(all_layers: bool) -> (r: &'static str)
    ensures
        r@ == (if all_layers {
            "prefill_all_layer_diagnostics"@
        } else {
            "prefill_diagnostics"@
        }),
{
    if all_layers {
        "prefill_all_layer_diagnostics"
    } else {
        "prefill_diagnostics"
    }
}

/// How a model is compiled for a device.
#[derive(Debug)]
pub struct BundlePlan {
    pub precision: Precision,
    /// The native packed product runs.
    pub native_qmv: bool,
    pub flags: Vec<&'static str>,
}

/// What only the emitter and the build know.
#[derive(Debug)]
pub struct BundleChecks {
    /// The precision that a dense model resolves to on the device.
    pub precision: Result<Precision, String>,
    /// The build has the native packed product.
    pub qmv_available: bool,
    /// The shapes of a Gemma3n model fit the native packed product.
    pub dispatches: Result<(), String>,
    /// The device runs the packed weights of a dense model.
    pub packed: Result<(), String>,
}

/// The complaint of a check.
pub open spec fn complaint<T>(r: Result<T, String>) -> Option<Seq<char>> {
    match r {
        Ok(_) => None,
        Err(message) => Some(message@),
    }
}

/// A Gemma3n model on CUDA with 4-bit weights runs the native packed product.
pub open spec fn runs_native(device: Seq<char>, cfg: RuntimeConfig) -> bool {
    cfg matches RuntimeConfig::Gemma3n(g) && device == "cuda"@ && (g.quantization matches Some(q)
        && q.bits == 4)
}

/// The first complaint about compiling a model for a device, before the device's flags.
pub open spec fn plan_error(device: Seq<char>, cfg: RuntimeConfig, checks: BundleChecks) -> Option<
    Seq<char>,
> {
    match cfg {
        RuntimeConfig::Dense(_) => first_error(
            complaint(checks.precision),
            complaint(checks.packed),
        ),
        RuntimeConfig::Gemma3n(g) => if device == "metal"@ {
            Some(MSG_NO_METAL@)
        } else {
            first_error(
                qmv_error(device, g.quantization, checks.qmv_available),
                if runs_native(device, cfg) {
                    complaint(checks.dispatches)
                } else {
                    None
                },
            )
        },
    }
}

/// Whether and how a model is compiled for a device: the precision, the native packed
/// product, and the compiler's flags.
pub fn plan_bundle(device: &str, cfg: &RuntimeConfig, checks: BundleChecks) -> (r: Result<
    BundlePlan,
    String,
>)
    ensures
        match r {
            Ok(plan) => {
                &&& plan_error(device@, *cfg, checks) is None
                &&& plan.native_qmv == runs_native(device@, *cfg)
                &&& cfg is Dense ==> checks.precision == Ok::<Precision, String>(plan.precision)
                &&& cfg is Gemma3n ==> plan.precision == Precision::Bf16
                &&& flags_of(device@) matches Some(base)
                    && flag_texts(plan.flags@) == (if plan.native_qmv {
                    base.push("--iree-cuda-target=sm_80"@)
                } else {
                    base
                })
            },
            Err(message) => plan_error(device@, *cfg, checks) == Some(message@) || (plan_error(
                device@,
                *cfg,
                checks,
            ) is None && flags_of(device@) is None && message@
                == device_message(device@)),
        },
{
    let ghost resolved = checks.precision;
    let precision = match effective_precision(device, cfg, checks.precision) {
        Ok(precision) => precision,
        Err(message) => {
            assert(cfg is Dense ==> complaint(resolved) == Some(message@));
            return Err(message);
        },
    };
    let mut native_qmv = false;
    match cfg {
        RuntimeConfig::Dense(_) => {
            match checks.packed {
                Ok(_) => {},
                Err(message) => return Err(message),
            }
        },
        RuntimeConfig::Gemma3n(g) => {
            native_qmv =
            match gemma3n_native_qmv_eligibility(device, g.quantization, checks.qmv_available) {
                Ok(native) => native,
                Err(message) => return Err(message),
            };
            if native_qmv {
                match checks.dispatches {
                    Ok(_) => {},
                    Err(message) => return Err(message),
                }
            }
        },
    }
    match bundle_flags(device, native_qmv) {
        Ok(flags) => Ok(BundlePlan { precision, native_qmv, flags }),
        Err(message) => Err(message),
    }
}

/// The name of a precision.
pub open spec fn precision_form(precision: Precision) -> Seq<char> {
    match precision {
        Precision::F32 => "F32"@,
        Precision::F16 => "F16"@,
        Precision::Bf16 => "Bf16"@,
    }
}

fn precision_text(precision: Precision) -> (r: &'static str)
    ensures
        r@ == precision_form(precision),
{
    match precision {
        Precision::F32 => "F32",
        Precision::F16 => "F16",
        Precision::Bf16 => "Bf16",
    }
}

/// One item that a fingerprint covers.
#[derive(Debug, Clone, PartialEq, Eq)]
pub enum FingerprintPart {
    Text(String),
    /// A text that a bundle may lack.
    Optional(Option<String>),
}

/// The mathematical form of a [`FingerprintPart`].
pub ghost enum PartView {
    Text(Seq<char>),
    Optional(Option<Seq<char>>),
}

impl View for FingerprintPart {
    type V = PartView;

    open spec fn view(&self) -> PartView {
        match self {
            FingerprintPart::Text(text) => PartView::Text(text@),
            FingerprintPart::Optional(None) => PartView::Optional(None),
            FingerprintPart::Optional(Some(text)) => PartView::Optional(Some(text@)),
        }
    }
}

/// The forms of parts.
pub open spec fn part_views(parts: Seq<FingerprintPart>) -> Seq<PartView> {
    Seq::new(parts.len(), |i: int| parts[i]@)
}

/// The graphs of a bundle by their texts.
#[derive(Debug)]
pub struct BundleGraphs {
    pub prefill: String,
    pub prefill_embeddings: String,
    pub prefill_deepstack: Option<String>,
    pub decode: String,
}

/// What a fingerprint covers, in order: the schema, the model, its weights, the precision,
/// the native packed product where it runs, and the four graphs.
pub open spec fn parts_of(
    model: Seq<char>,
    weights: Seq<char>,
    precision: Precision,
    native: Option<Seq<char>>,
    graphs: BundleGraphs,
) -> Seq<PartView> {
    let head = seq![
        PartView::Text(BUNDLE_SCHEMA@),
        PartView::Text(model),
        PartView::Text(weights),
        PartView::Text(precision_form(precision)),
    ];
    let middle = match native {
        Some(identity) => seq![PartView::Text(identity)],
        None => Seq::empty(),
    };
    head + middle + seq![
        PartView::Text(graphs.prefill@),
        PartView::Text(graphs.prefill_embeddings@),
        PartView::Optional(
            match graphs.prefill_deepstack {
                Some(text) => Some(text@),
                None => None,
            },
        ),
        PartView::Text(graphs.decode@),
    ]
}

/// The items that the compatibility fingerprint of a bundle covers.
pub fn fingerprint_parts(
    model: &str,
    weights: &str,
    precision: Precision,
    native: Option<&str>,
    graphs: BundleGraphs,
) -> (r: Vec<FingerprintPart>)
    ensures
        part_views(r@) == parts_of(
            model@,
            weights@,
            precision,
            match native {
                Some(identity) => Some(identity@),
                None => None,
            },
            graphs,
        ),
{
    let ghost identity = match native {
        Some(identity) => Some(identity@),
        None => None,
    };
    let ghost whole = parts_of(model@, weights@, precision, identity, graphs);
    let mut out: Vec<FingerprintPart> = Vec::new();
    out.push(FingerprintPart::Text(BUNDLE_SCHEMA.to_owned()));
    out.push(FingerprintPart::Text(model.to_owned()));
    out.push(FingerprintPart::Text(weights.to_owned()));
    out.push(FingerprintPart::Text(precision_text(precision).to_owned()));
    if let Some(identity) = native {
        out.push(FingerprintPart::Text(identity.to_owned()));
    }
    out.push(FingerprintPart::Text(graphs.prefill));
    out.push(FingerprintPart::Text(graphs.prefill_embeddings));
    out.push(FingerprintPart::Optional(graphs.prefill_deepstack));
    out.push(FingerprintPart::Text(graphs.decode));
    assert(part_views(out@) =~= whole);
    out
}

/// Two bundles whose fingerprints cover the same items are compiled from the same graphs, at
/// the same precision and with the same native product, for the same model and weights.
pub proof fn law_fingerprint_binds_the_bundle(
    a_model: Seq<char>,
    a_weights: Seq<char>,
    a_precision: Precision,
    a_native: Option<Seq<char>>,
    a: BundleGraphs,
    b_model: Seq<char>,
    b_weights: Seq<char>,
    b_precision: Precision,
    b_native: Option<Seq<char>>,
    b: BundleGraphs,
)
    requires
        parts_of(a_model, a_weights, a_precision, a_native, a) == parts_of(
            b_model,
            b_weights,
            b_precision,
            b_native,
            b,
        ),
    ensures
        a_model == b_model,
        a_weights == b_weights,
        a_precision == b_precision,
        a_native == b_native,
        a.prefill@ == b.prefill@,
        a.prefill_embeddings@ == b.prefill_embeddings@,
        a.prefill_deepstack is Some == b.prefill_deepstack is Some,
        a.prefill_deepstack is Some ==> a.prefill_deepstack.unwrap()@
            == b.prefill_deepstack.unwrap()@,
        a.decode@ == b.decode@,
{
    let p = parts_of(a_model, a_weights, a_precision, a_native, a);
    let q = parts_of(b_model, b_weights, b_precision, b_native, b);
    let k: int = if a_native is Some {
        5
    } else {
        4
    };
    assert(p.len() == k + 4 && q.len() == (if b_native is Some {
        9int
    } else {
        8int
    }));
    if a_native is Some {
        assert(p[4] == PartView::Text(a_native.unwrap()) && q[4] == PartView::Text(
            b_native.unwrap(),
        ));
    }
    assert(p[1] == PartView::Text(a_model) && q[1] == PartView::Text(b_model));
    assert(p[2] == PartView::Text(a_weights) && q[2] == PartView::Text(b_weights));
    assert(p[3] == PartView::Text(precision_form(a_precision)) && q[3] == PartView::Text(
        precision_form(b_precision),
    ));
    assert(p[k] == PartView::Text(a.prefill@) && q[k] == PartView::Text(b.prefill@));
    assert(p[k + 1] == PartView::Text(a.prefill_embeddings@) && q[k + 1] == PartView::Text(
        b.prefill_embeddings@,
    ));
    assert(p[k + 2] is Optional && q[k + 2] is Optional);
    assert(p[k + 3] == PartView::Text(a.decode@) && q[k + 3] == PartView::Text(b.decode@));
    reveal_strlit("F32");
    reveal_strlit("F16");
    reveal_strlit("Bf16");
    assert(precision_form(a_precision) == precision_form(b_precision));
    assert("F32"@[1] == '3' && "F16"@[1] == '1');
    assert("Bf16"@.len() == 4 && "F32"@.len() == 3 && "F16"@.len() == 3);
}

/// Projections stay in half precision on a device that computes in it, where the model's
/// graph takes them so.
pub fn keeps_projections_half(resolved: Precision, cfg: &RuntimeConfig) -> (r: bool)
    ensures
        r == (resolved == Precision::F16 && (cfg matches RuntimeConfig::Dense(c)
            && c.keeps_half())),
{
    match resolved {
        Precision::F16 => cfg.supports_f16_resident(),
        _ => false,
    }
}

/// What a context is created with, behind the modules and the weights.
#[derive(Debug)]
pub struct ContextArguments {
    pub dimensions: RuntimeFfiDimensions,
    pub has_dense_ple: bool,
    pub deepstack_layers: Vec<i32>,
    pub has_adapter_modes: bool,
}

/// The arguments of a context for a model with so many weights.
pub fn context_arguments(cfg: &RuntimeConfig, n_weights: usize) -> (r: Result<
    ContextArguments,
    String,
>)
    ensures
        ({
            let layers = match cfg.stack() {
                Some(d) => d.target_layer_indices@,
                None => Seq::empty(),
            };
            let error = first_error(dimensions_error(*cfg, n_weights), layers_error(layers, 0));
            match r {
                Ok(c) => {
                    &&& error is None
                    &&& are_dimensions(*cfg, n_weights, c.dimensions)
                    &&& c.has_dense_ple == cfg.ple_shape() is Some
                    &&& c.has_adapter_modes == cfg.adapts()
                    &&& c.deepstack_layers@.len() == layers.len()
                    &&& forall|i: int|
                        0 <= i < layers.len() ==> #[trigger] c.deepstack_layers@[i] == layers[i]
                },
                Err(message) => error == Some(message@),
            }
        }),
{
    let dimensions = match runtime_ffi_dimensions(cfg, n_weights) {
        Ok(dimensions) => dimensions,
        Err(message) => return Err(message),
    };
    let deepstack_layers = match deepstack_target_layers(cfg) {
        Ok(layers) => layers,
        Err(message) => return Err(message),
    };
    Ok(
        ContextArguments {
            dimensions,
            has_dense_ple: cfg.dense_ple_shape().is_some(),
            deepstack_layers,
            has_adapter_modes: cfg.has_adapter_modes(),
        },
    )
}

/// The outcome of creating a context.
pub fn finish_create(created: bool) -> (r: Result<(), String>)
    ensures
        match r {
            Ok(_) => created,
            Err(message) => !created && message@ == MSG_CREATE@,
        },
{
    if created {
        Ok(())
    } else {
        Err(MSG_CREATE.to_owned())
    }
}

} // verus!
