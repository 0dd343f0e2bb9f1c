//! What holds of compiled models: descriptors count their bytes, sizes reach the C interface
//! unchanged, and cached graphs do not share a name.
use vstd::arithmetic::power::pow;
use vstd::prelude::*;

use crate::bundle::{arguments_of, modules_of, tag_of, ModuleKind};
use crate::config::{Config, QuantConfig};
use crate::loader::narrow_error;
use crate::runtime::{
    are_dimensions, count_overflows, descriptor_error, dimension_error, dimensions_error,
    flags_of, graph_stem, is_descriptor, modes_error, product, qmv_error, Gemma3nRuntime,
    PreparedPositionMode, RuntimeConfig, RuntimeFfiDimensions, XlaTensorDesc,
};
use crate::text::{dec, has_prefix, hex};
use crate::text_laws::{
    hex_value, law_decimal_reads_back, law_decimal_tells_numbers_apart,
    law_hexadecimal_reads_back,
};

verus! {

proof fn lemma_product_front(a: Seq<usize>, b: Seq<usize>, n: nat)
    requires
        n <= a.len(),
    ensures
        product(a + b, n) == product(a, n),
    decreases n,
{
    if n > 0 {
        lemma_product_front(a, b, (n - 1) as nat);
    }
}

/// Element counts multiply: a tensor of two groups of dimensions has the elements of the one
/// for each of the other.
pub proof fn law_element_counts_multiply(a: Seq<usize>, b: Seq<usize>, n: nat)
    requires
        n <= b.len(),
    ensures
        product(a + b, a.len() + n) == product(a, a.len()) * product(b, n),
        product(seq![], 0) == 1,
        b.len() > 0 ==> product(seq![b[0]], 1) == b[0],
    decreases n,
{
    if b.len() > 0 {
        let one = b[0] as nat;
        assert(product(seq![b[0]], 0) == 1);
        assert(product(seq![b[0]], 1) == product(seq![b[0]], 0) * one);
        assert(1 * one == one) by (nonlinear_arith);
    }
    if n == 0 {
        lemma_product_front(a, b, a.len());
        assert(product(b, 0) == 1);
    } else {
        law_element_counts_multiply(a, b, (n - 1) as nat);
        let last = b[n - 1] as nat;
        assert((a + b)[a.len() + n - 1] == b[n - 1]);
        assert(product(a + b, a.len() + n) == product(a + b, (a.len() + n - 1) as nat) * last);
        let (x, y) = (product(a, a.len()), product(b, (n - 1) as nat));
        assert((x * y) * last == x * (y * last)) by (nonlinear_arith);
    }
}

proof fn lemma_wide(shape: Seq<usize>, from: int)
    requires
        0 <= from,
    ensures
        dimension_error(shape, from) is None <==> forall|i: int|
            from <= i < shape.len() ==> #[trigger] shape[i] <= i64::MAX,
    decreases shape.len() - from,
{
    if from < shape.len() && shape[from] <= i64::MAX {
        lemma_wide(shape, from + 1);
    }
}

/// A tensor is described exactly when it has at most four dimensions, each of them one that
/// the interface counts, and as many elements as they multiply to; the descriptor then holds
/// the bytes of all elements and the dimensions in order.
pub proof fn law_descriptors_count_their_bytes(
    d: XlaTensorDesc,
    elements: usize,
    size: usize,
    dtype: i32,
    shape: Seq<usize>,
)
    ensures
        descriptor_error(elements, size, shape) is None <==> {
            &&& shape.len() <= 4
            &&& !count_overflows(shape)
            &&& elements == product(shape, shape.len())
            &&& elements * size <= usize::MAX
            &&& forall|i: int| 0 <= i < shape.len() ==> #[trigger] shape[i] <= i64::MAX
        },
        descriptor_error(elements, size, shape) is None && is_descriptor(
            d,
            elements,
            size,
            dtype,
            shape,
        ) ==> {
            &&& d.byte_length == product(shape, shape.len()) * size
            &&& d.rank == shape.len()
            &&& d.dtype == dtype
            &&& forall|k: int| 0 <= k < shape.len() ==> #[trigger] d.dims@[k] == shape[k]
            &&& forall|k: int| shape.len() <= k < 4 ==> #[trigger] d.dims@[k] == 0
        },
{
    lemma_wide(shape, 0);
}

/// Adapter modes are accepted exactly when each is one of three, and the first of them where
/// the bundle has no adapters.
pub proof fn law_accepted_modes(modes: Seq<i32>, supported: bool, from: int)
    requires
        0 <= from,
    ensures
        modes_error(modes, supported, from) is None <==> forall|i: int|
            from <= i < modes.len() ==> {
                &&& 0 <= #[trigger] modes[i] < 3
                &&& supported || modes[i] == 0
            },
    decreases modes.len() - from,
{
    if from < modes.len() && 0 <= modes[from] < 3 && (supported || modes[from] == 0) {
        law_accepted_modes(modes, supported, from + 1);
    }
}

/// The sizes of a dense model reach the interface unchanged; it has no per-layer embeddings.
pub proof fn law_dense_sizes_are_handed_on(
    c: Config,
    n_weights: usize,
    d: RuntimeFfiDimensions,
)
    requires
        are_dimensions(RuntimeConfig::Dense(c), n_weights, d),
    ensures
        d.n_weights == n_weights,
        d.context_capacity == c.context_capacity,
        d.hidden == c.hidden,
        d.model_layers == c.n_layers,
        d.dense_ple_layers == 0 && d.dense_ple_hidden == 0,
        c.deepstack is None ==> d.deepstack_layers == 0 && d.deepstack_visual == 0,
        c.deepstack matches Some(s) ==> d.deepstack_layers == s.target_layer_indices@.len()
            && d.deepstack_visual == s.max_visual_positions,
{
}

/// The sizes of a Gemma3n model reach the interface unchanged; it has no DeepStack.
pub proof fn law_gemma3n_sizes_are_handed_on(
    g: Gemma3nRuntime,
    n_weights: usize,
    d: RuntimeFfiDimensions,
)
    requires
        are_dimensions(RuntimeConfig::Gemma3n(g), n_weights, d),
    ensures
        d.n_weights == n_weights,
        d.context_capacity == g.context_capacity,
        d.hidden == g.hidden,
        d.model_layers == g.n_layers,
        d.dense_ple_layers == g.dense_ple_shape@[1],
        d.dense_ple_hidden == g.dense_ple_shape@[2],
        d.deepstack_layers == 0 && d.deepstack_visual == 0,
{
}

/// Sizes are refused exactly when one of them is more than the interface counts.
pub proof fn law_sizes_are_refused_by_width(c: Config, n_weights: usize)
    ensures
        dimensions_error(RuntimeConfig::Dense(c), n_weights) is None <==> {
            &&& n_weights <= i32::MAX
            &&& c.vocab <= i32::MAX
            &&& c.context_capacity <= i32::MAX
            &&& c.hidden <= i32::MAX
            &&& c.n_layers <= i32::MAX
            &&& c.deepstack matches Some(s) ==> s.target_layer_indices@.len() <= i32::MAX
                && s.max_visual_positions <= i32::MAX
        },
        forall|n: int, what: Seq<char>|
            0 <= n ==> (#[trigger] narrow_error(n, what) is None <==> n <= i32::MAX),
{
}

/// Positions have three axes exactly where the model rotates by three.
pub proof fn law_positions_follow_the_rotation(c: Config, g: Gemma3nRuntime)
    ensures
        RuntimeConfig::Dense(c).positions() == PreparedPositionMode::Mrope3D <==> c.mrope is Some,
        RuntimeConfig::Gemma3n(g).positions() == PreparedPositionMode::OneD,
{
}

/// The weights of a model stay packed only on request, and a model that cannot keep them
/// packed has the same weights either way.
pub proof fn law_packing_needs_a_request(c: Config, g: Gemma3nRuntime)
    ensures
        !c.packs_quant() ==> RuntimeConfig::Dense(c).specs(true) == RuntimeConfig::Dense(c).specs(
            false,
        ),
        RuntimeConfig::Gemma3n(g).specs(true) == RuntimeConfig::Gemma3n(g).specs(false),
        RuntimeConfig::Gemma3n(g).specs(true).len() == g.weights@.len(),
{
}

/// Away from CUDA, without a quantization or with eight bits, nothing is asked of a Gemma3n
/// model; with any other width on CUDA it needs four bits, groups of 64 and the native
/// product.
pub proof fn law_native_product_needs_four_bits(
    device: Seq<char>,
    quantization: Option<QuantConfig>,
    available: bool,
)
    ensures
        qmv_error(device, quantization, available) is None <==> {
            ||| device != "cuda"@
            ||| quantization is None
            ||| quantization matches Some(q) && q.bits == 8
            ||| quantization matches Some(q) && q.bits == 4 && q.group_size == 64 && available
        },
{
}

/// A target exists for CUDA, for Metal and for local devices, and for no other; the first
/// flag names it.
pub proof fn law_targets_name_their_device(device: Seq<char>)
    ensures
        flags_of(device) is Some <==> device == "cuda"@ || device == "metal"@ || has_prefix(
            device,
            "local"@,
        ),
        flags_of(device) matches Some(flags) ==> flags.len() > 0 && (flags[0]
            == "--iree-hal-target-device="@ + device || has_prefix(device, "local"@)),
        flags_of(device) matches Some(flags) ==> has_prefix(device, "local"@) ==> flags.len() == 2
            && flags[0] == "--iree-hal-target-device="@ + "local"@,
{
    reveal_strlit("cuda");
    reveal_strlit("metal");
    reveal_strlit("local");
    reveal_strlit("--iree-hal-target-device=");
    reveal_strlit("--iree-hal-target-device=cuda");
    reveal_strlit("--iree-hal-target-device=metal");
    reveal_strlit("--iree-hal-target-device=local");
    assert("--iree-hal-target-device=cuda"@ =~= "--iree-hal-target-device="@ + "cuda"@);
    assert("--iree-hal-target-device=metal"@ =~= "--iree-hal-target-device="@ + "metal"@);
    assert("--iree-hal-target-device=local"@ =~= "--iree-hal-target-device="@ + "local"@);
    if has_prefix(device, "local"@) {
        assert(device.subrange(0, 5)[0] == 'l');
        assert(device[0] == 'l');
        assert("cuda"@[0] == 'c' && "metal"@[0] == 'm');
    }
}

proof fn lemma_hex_apart(a: nat, b: nat)
    requires
        a < 0x1_0000_0000_0000_0000,
        b < 0x1_0000_0000_0000_0000,
        hex(a, 16) == hex(b, 16),
    ensures
        a == b,
{
    assert(pow(16, 16) == 0x1_0000_0000_0000_0000) by {
        reveal_with_fuel(pow, 17);
    }
    law_hexadecimal_reads_back(a, 16);
    law_hexadecimal_reads_back(b, 16);
    assert(hex_value(hex(a, 16)) == hex_value(hex(b, 16)));
}

/// Two graphs of one tag share a name only where both their capacities and their keys are the
/// same.
pub proof fn law_cached_graphs_have_their_own_names(
    tag: Seq<char>,
    c1: nat,
    k1: nat,
    c2: nat,
    k2: nat,
)
    requires
        k1 < 0x1_0000_0000_0000_0000,
        k2 < 0x1_0000_0000_0000_0000,
        graph_stem(tag, c1, k1) == graph_stem(tag, c2, k2),
    ensures
        c1 == c2,
        k1 == k2,
{
    let (s, t) = (graph_stem(tag, c1, k1), graph_stem(tag, c2, k2));
    law_hexadecimal_reads_back(k1, 16);
    law_hexadecimal_reads_back(k2, 16);
    let n = s.len() as int;
    assert(s.subrange(n - 16, n) =~= hex(k1, 16));
    assert(t.subrange(n - 16, n) =~= hex(k2, 16));
    lemma_hex_apart(k1, k2);
    reveal_strlit("-c");
    reveal_strlit("-");
    let from = tag.len() + 2;
    assert(s.subrange(from as int, n - 17) =~= dec(c1));
    assert(t.subrange(from as int, n - 17) =~= dec(c2));
    law_decimal_tells_numbers_apart(c1, c2);
}

/// The first character and the length of a tag.
proof fn lemma_tag(kind: ModuleKind, slots: Option<usize>)
    ensures
        ({
            let tag = tag_of(kind, slots);
            &&& kind == ModuleKind::Decode ==> tag[0] == 'd' && (slots is Some <==> tag.len() > 6)
            &&& kind != ModuleKind::Decode ==> tag[0] == 'p' && tag.len() == (match kind {
                ModuleKind::Prefill => 7int,
                ModuleKind::PrefillEmbeddings => 18,
                _ => 28,
            }) + if slots is Some {
                7int
            } else {
                0
            }
        }),
{
    reveal_strlit("prefill");
    reveal_strlit("prefill_embeddings");
    reveal_strlit("prefill_embeddings_deepstack");
    reveal_strlit("decode");
    reveal_strlit("prefill_logits");
    reveal_strlit("prefill_embeddings_logits");
    reveal_strlit("prefill_embeddings_deepstack_logits");
    reveal_strlit("decode_ragged_logits_b");
    if let Some(n) = slots {
        law_decimal_reads_back(n as nat);
    }
}

/// Graphs of different kinds, of one sequence and of many, and decode graphs of different
/// slot counts have different tags.
pub proof fn law_tags_tell_graphs_apart(
    a: ModuleKind,
    s: Option<usize>,
    b: ModuleKind,
    t: Option<usize>,
)
    requires
        tag_of(a, s) == tag_of(b, t),
    ensures
        a == b,
        s is Some <==> t is Some,
        a == ModuleKind::Decode ==> s == t,
{
    reveal_strlit("decode_ragged_logits_b");
    lemma_tag(a, s);
    lemma_tag(b, t);
    let (x, y) = (tag_of(a, s), tag_of(b, t));
    if a == ModuleKind::Decode && s is Some && t is Some {
        let (m, n) = (s.unwrap() as nat, t.unwrap() as nat);
        assert(x.subrange(22, x.len() as int) =~= dec(m));
        assert(y.subrange(22, y.len() as int) =~= dec(n));
        law_decimal_tells_numbers_apart(m, n);
    }
}

/// A bundle begins with the prefill graphs and ends with the decode graph; it has a DeepStack
/// graph exactly where the model declares DeepStack, and no graph twice.
pub proof fn law_bundles_hold_each_graph_once(cfg: RuntimeConfig)
    ensures
        modules_of(cfg)[0] == ModuleKind::Prefill,
        modules_of(cfg)[1] == ModuleKind::PrefillEmbeddings,
        modules_of(cfg).last() == ModuleKind::Decode,
        modules_of(cfg).contains(ModuleKind::PrefillDeepStack) <==> cfg.stack() is Some,
        modules_of(cfg).no_duplicates(),
{
    let m = modules_of(cfg);
    if cfg.stack() is Some {
        assert(m[2] == ModuleKind::PrefillDeepStack);
    }
}

/// The compiler reads StableHLO first, then the flags in their order, the graph and the
/// output.
pub proof fn law_compiler_arguments_keep_the_flags(
    flags: Seq<Seq<char>>,
    mlir: Seq<char>,
    output: Seq<char>,
    i: int,
)
    requires
        0 <= i < flags.len(),
    ensures
        ({
            let all = arguments_of(flags, mlir, output);
            &&& all.len() == flags.len() + 4
            &&& all[0] == "--iree-input-type=stablehlo"@
            &&& all[i + 1] == flags[i]
            &&& all[flags.len() as int + 1] == mlir
            &&& all[flags.len() as int + 2] == "-o"@
            &&& all.last() == output
        }),
{
}

} // verus!
