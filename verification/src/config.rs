//! The architecture configuration of a language model, read from `config.json`.
use vstd::prelude::*;

use crate::config_messages::{
    MSG_DEEPSTACK_EMPTY, MSG_DEEPSTACK_ORDER, MSG_DEEPSTACK_ZERO,
};
use crate::double::ONE_BITS;
use crate::text::{dec, size_text};

verus! {

/// The sequence capacity a configuration has until another is selected.
pub const DEFAULT_CONTEXT_CAPACITY: usize = 256;

/// Bits of the double 1e-5.
pub const EPS_1E5_BITS: u64 = 0x3EE4_F8B5_88E3_68F1;

/// Bits of the doubles 4, 32 and 500000.
pub const FOUR_BITS: u64 = 0x4010_0000_0000_0000;

pub const THIRTY_TWO_BITS: u64 = 0x4040_0000_0000_0000;

pub const HALF_MILLION_BITS: u64 = 0x411E_8480_0000_0000;

pub const MSG_ZERO_CAPACITY: &'static str = "context capacity must be positive";

/// A real number of the configuration, kept as the inputs it is computed from. A
/// `u64` is the bits of a double.
#[derive(Clone, Copy, Debug, PartialEq, Eq)]
pub enum Scalar {
    /// The double itself.
    Double(u64),
    /// An integer converted to a double.
    Count(usize),
    /// `numerator / sqrt(count)`.
    OverSqrt { numerator: u64, count: usize },
    /// `count / denominator`.
    CountOver { count: usize, denominator: u64 },
    /// `numerator / count`.
    OverCount { numerator: u64, count: usize },
    /// `sqrt(1 + ln(maximum / original) / ln(original))`.
    LongRopeAmplitude { original: usize, maximum: usize },
}

/// How the RoPE inverse-frequency table is computed. Factors are bits of doubles.
#[derive(Clone, Debug, PartialEq)]
pub enum RopeScaling {
    /// Plain RoPE: `inv_freq[i] = 1 / theta^(2i/head_dim)`.
    Plain,
    /// Llama3 RoPE scaling.
    Llama3 { factor: u64, low_freq_factor: u64, high_freq_factor: u64, orig_ctx: usize },
    /// SuScaled LongRoPE: the long-factor table and the amplitude correction that
    /// follows from the maximum and the original context.
    LongRope { factors: Vec<u64>, amplitude: Scalar },
}

/// Request-time LoRA adapters of a Phi4MM checkpoint.
#[derive(Clone, Copy, Debug, PartialEq, Eq)]
pub struct Phi4LoraConfig {
    pub speech_rank: usize,
    pub speech_scale: Scalar,
    pub vision_rank: usize,
    pub vision_scale: Scalar,
}

/// Per-layer norm placement.
#[derive(Clone, Copy, Debug, PartialEq, Eq, Structural)]
pub enum NormStyle {
    /// Pre-norm: `input_layernorm` before attention, `post_attention_layernorm`
    /// before the MLP.
    Plain,
    /// Pre-norm wrapped by post-norms, four norms per layer (Gemma2, Gemma3).
    GemmaFf,
    /// Reordered norm: each sublayer's output is normalized before its residual add
    /// (OLMo2, OLMo3).
    OlmoPost,
}

/// Normalization of the projected query and key before RoPE.
#[derive(Clone, Copy, Debug, PartialEq, Eq, Structural)]
pub struct QkNorm {
    /// Normalize each head over `head_dim`, not the whole projection.
    pub per_head: bool,
    /// Use the `(1 + weight)` RMSNorm.
    pub one_plus: bool,
}

/// How the temporal, height and width frequencies are assigned to the rotary
/// columns.
#[derive(Clone, Copy, Debug, PartialEq, Eq, Hash, Structural)]
pub enum MropeLayout {
    /// Contiguous sections.
    Chunked,
    /// Step-3 axis selection.
    Interleaved,
}

/// Three-axis multimodal RoPE.
#[derive(Clone, Debug, PartialEq, Eq, Hash)]
pub struct MropeConfig {
    /// Section widths over the half-rotary dimension, ordered T/H/W.
    pub sections: [usize; 3],
    pub layout: MropeLayout,
}

/// The checkpoint's tensor-naming scheme.
#[derive(Clone, Copy, Debug, PartialEq, Eq, Structural)]
pub enum WeightScheme {
    /// The common names, `model.layers.{i}.self_attn.q_proj.weight` and so on.
    Llama,
    /// GPT-2-style names under `transformer.h.{i}`.
    Exaone,
    /// OLMo-style names under `model.blocks.{i}`.
    Molmo2,
}

impl Default for WeightScheme {
    fn default() -> (r: Self)
        ensures
            r == WeightScheme::Llama,
    {
        WeightScheme::Llama
    }
}

/// Affine weight quantization: packed integers of `bits` bits, one scale and one
/// bias for each `group_size` input columns.
#[derive(Clone, Copy, Debug, PartialEq, Eq, Structural)]
pub struct QuantConfig {
    pub bits: usize,
    pub group_size: usize,
}

/// The always-on branch of a mixture-of-experts layer.
#[derive(Clone, Copy, Debug, PartialEq, Eq, Structural)]
pub struct SharedExpertConfig {
    pub intermediate: usize,
    /// Multiply the branch by `sigmoid(x @ Wg^T)`.
    pub gated: bool,
}

/// Mixture-of-experts parameters.
#[derive(Clone, Copy, Debug, PartialEq, Eq)]
pub struct MoeConfig {
    pub n_experts: usize,
    /// Experts selected per token.
    pub top_k: usize,
    pub intermediate: usize,
    /// Renormalize the selected routing probabilities.
    pub norm_topk_prob: bool,
    /// Scale of the routed combine weights, bits of a double.
    pub routed_scaling_factor: u64,
    pub shared: Option<SharedExpertConfig>,
    /// Layers below this index keep a dense MLP.
    pub first_k_dense: usize,
    /// The checkpoint's name of the layer's expert block.
    pub weight_prefix: &'static str,
}

/// Residual additions behind selected language layers during prefill.
#[derive(Clone, Debug, PartialEq, Eq, Hash)]
pub struct DeepStackConfig {
    pub target_layer_indices: Vec<usize>,
    pub max_visual_positions: usize,
}

/// Layer indices in ascending order, each once.
pub open spec fn strictly_ascending(s: Seq<usize>) -> bool {
    forall|i: int, j: int| 0 <= i < j < s.len() ==> s[i] < s[j]
}

/// The first index at or behind `from` that is not below `n_layers`.
pub open spec fn first_outside(s: Seq<usize>, n_layers: usize, from: int) -> Option<usize>
    decreases s.len() - from,
{
    if from < 0 || from >= s.len() {
        None
    } else if s[from] >= n_layers {
        Some(s[from])
    } else {
        first_outside(s, n_layers, from + 1)
    }
}

/// Why a list of target layers and a bucket are no DeepStack declaration for
/// `n_layers` layers.
pub open spec fn deepstack_structure_error(
    layers: Seq<usize>,
    positions: usize,
    n_layers: usize,
) -> Option<Seq<char>> {
    if layers.len() == 0 {
        Some(MSG_DEEPSTACK_EMPTY@)
    } else if positions == 0 {
        Some(MSG_DEEPSTACK_ZERO@)
    } else if !strictly_ascending(layers) {
        Some(MSG_DEEPSTACK_ORDER@)
    } else {
        match first_outside(layers, n_layers, 0) {
            Some(layer) => Some(
                "DeepStack target language layer "@ + dec(layer as nat) + " is outside [0,"@ + dec(
                    n_layers as nat,
                ) + ")"@,
            ),
            None => None,
        }
    }
}

/// Why a bucket does not fit a context capacity.
pub open spec fn deepstack_capacity_error(positions: usize, capacity: usize) -> Option<Seq<char>> {
    if positions > capacity {
        Some(
            "DeepStack max_visual_positions="@ + dec(positions as nat)
                + " exceeds selected context capacity "@ + dec(capacity as nat),
        )
    } else {
        None
    }
}

/// The first of two complaints.
pub open spec fn first_error(
    a: Option<Seq<char>>,
    b: Option<Seq<char>>,
) -> Option<Seq<char>> {
    if a is Some {
        a
    } else {
        b
    }
}

/// A check succeeds exactly when there is no complaint, and fails with it.
pub open spec fn reports(r: Result<(), String>, error: Option<Seq<char>>) -> bool {
    match r {
        Ok(_) => error is None,
        Err(message) => error == Some(message@),
    }
}

impl DeepStackConfig {
    /// The declaration fits a model of `n_layers` layers.
    pub open spec fn wf(&self, n_layers: usize) -> bool {
        deepstack_structure_error(
            self.target_layer_indices@,
            self.max_visual_positions,
            n_layers,
        ) is None
    }

    pub fn validate_structure(&self, n_layers: usize) -> (r: Result<(), String>)
        ensures
            reports(
                r,
                deepstack_structure_error(
                    self.target_layer_indices@,
                    self.max_visual_positions,
                    n_layers,
                ),
            ),
    {
        let layers = &self.target_layer_indices;
        if layers.len() == 0 {
            return Err(MSG_DEEPSTACK_EMPTY.to_owned());
        }
        if self.max_visual_positions == 0 {
            return Err(MSG_DEEPSTACK_ZERO.to_owned());
        }
        let mut i: usize = 1;
        while i < layers.len()
            invariant
                1 <= i <= layers.len(),
                layers@.len() > 0,
                layers == self.target_layer_indices,
                self.max_visual_positions != 0,
                forall|a: int, b: int| 0 <= a < b < i ==> layers@[a] < layers@[b],
            decreases layers.len() - i,
        {
            if layers[i - 1] >= layers[i] {
                assert(!strictly_ascending(layers@));
                return Err(MSG_DEEPSTACK_ORDER.to_owned());
            }
            assert forall|a: int, b: int| 0 <= a < b < i + 1 implies layers@[a] < layers@[b] by {
                if b == i && a < i - 1 {
                    assert(layers@[a] < layers@[i - 1]);
                }
            }
            i += 1;
        }
        let mut j: usize = 0;
        while j < layers.len()
            invariant
                j <= layers.len(),
                layers == self.target_layer_indices,
                layers@.len() > 0,
                self.max_visual_positions != 0,
                strictly_ascending(layers@),
                first_outside(layers@, n_layers, 0) == first_outside(layers@, n_layers, j as int),
            decreases layers.len() - j,
        {
            if layers[j] >= n_layers {
                return Err(
                    "DeepStack target language layer ".to_owned().concat(
                        &size_text(layers[j]),
                    ).concat(" is outside [0,").concat(&size_text(n_layers)).concat(")"),
                );
            }
            j += 1;
        }
        Ok(())
    }

    pub fn validate_capacity(&self, context_capacity: usize) -> (r: Result<(), String>)
        ensures
            reports(r, deepstack_capacity_error(self.max_visual_positions, context_capacity)),
    {
        if self.max_visual_positions > context_capacity {
            return Err(
                "DeepStack max_visual_positions=".to_owned().concat(
                    &size_text(self.max_visual_positions),
                ).concat(" exceeds selected context capacity ").concat(
                    &size_text(context_capacity),
                ),
            );
        }
        Ok(())
    }

    /// The declaration fits the model and the selected capacity.
    pub fn validate(&self, n_layers: usize, context_capacity: usize) -> (r: Result<(), String>)
        ensures
            reports(
                r,
                first_error(
                    deepstack_structure_error(
                        self.target_layer_indices@,
                        self.max_visual_positions,
                        n_layers,
                    ),
                    deepstack_capacity_error(self.max_visual_positions, context_capacity),
                ),
            ),
    {
        match self.validate_structure(n_layers) {
            Ok(_) => self.validate_capacity(context_capacity),
            Err(message) => Err(message),
        }
    }
}

/// The static shape and the numeric variants of a language model.
#[derive(Clone, Debug)]
pub struct Config {
    /// Sequence dimension shared by prefill, decode and every KV cache.
    pub context_capacity: usize,
    pub hidden: usize,
    pub inter: usize,
    pub n_layers: usize,
    pub n_q: usize,
    pub n_kv: usize,
    pub head_dim: usize,
    /// Norm epsilon, bits of a double.
    pub eps: u64,
    /// RoPE base, bits of a double.
    pub rope_theta: u64,
    pub vocab: usize,
    pub rope: RopeScaling,
    /// The q/k/v projections carry a bias.
    pub qkv_bias: bool,
    /// The LM head shares the token embedding.
    pub tie_word_embeddings: bool,
    pub quantization: Option<QuantConfig>,
    /// Scale the embeddings by `sqrt(hidden)`.
    pub embed_scale: bool,
    /// Use the `(1 + weight)` RMSNorm on the layer and final norms.
    pub norm_one_plus: bool,
    /// GeGLU activation in place of SwiGLU.
    pub mlp_geglu: bool,
    pub norm_style: NormStyle,
    pub qk_norm: Option<QkNorm>,
    /// RoPE base of the sliding layers, where it differs.
    pub rope_local_base: Option<Scalar>,
    /// The attention score scale is this to the power of -0.5.
    pub query_pre_attn_scalar: Option<Scalar>,
    /// Attention logit soft-cap, bits of a double.
    pub attn_logit_softcap: Option<u64>,
    /// Final logit soft-cap, bits of a double.
    pub final_logit_softcap: Option<u64>,
    /// Window of the local layers.
    pub sliding_window: Option<usize>,
    /// Every so-manieth layer of a windowed model is global.
    pub sliding_pattern: usize,
    /// Layers that rotate; `None` when all do.
    pub use_rope_layers: Option<Vec<bool>>,
    pub mrope: Option<MropeConfig>,
    pub deepstack: Option<DeepStackConfig>,
    pub moe: Option<MoeConfig>,
    pub weight_scheme: WeightScheme,
    /// The norms subtract the mean.
    pub layernorm: bool,
    /// The norms carry a bias.
    pub norm_bias: bool,
    /// Attention and MLP read one norm and share one residual.
    pub parallel_block: bool,
    pub attn_o_bias: bool,
    pub mlp_bias: bool,
    /// MLP without a gate projection.
    pub dense_mlp: bool,
    /// Adjacent dimensions rotate together.
    pub rope_interleaved: bool,
    /// Rotate only this many dimensions of each head.
    pub rotary_dim: Option<usize>,
    /// Rotate only the sliding layers.
    pub rope_on_sliding_only: bool,
    /// Attention score multiplier, bits of a double.
    pub attention_multiplier: Option<u64>,
    /// Embedding multiplier, bits of a double.
    pub embedding_multiplier: Option<u64>,
    pub residual_multiplier: Option<Scalar>,
    pub logit_mul: Option<Scalar>,
    pub logit_div: Option<Scalar>,
    /// The checkpoint holds q, k and v in one tensor.
    pub fused_qkv: bool,
    /// The checkpoint holds gate and up in one tensor.
    pub fused_gate_up: bool,
    pub phi4_lora: Option<Phi4LoraConfig>,
}

/// How the attention scores are scaled.
#[derive(Clone, Copy, Debug, PartialEq, Eq)]
pub enum ScoreScale {
    /// By this double, narrowed.
    Multiplier(u64),
    /// By the value to the power of -0.5, computed in double precision and narrowed.
    InverseRoot(Scalar),
    /// By the head width to the power of -0.5, computed in single precision.
    InverseRootOfHead(usize),
}

/// Complaint about a context capacity.
pub open spec fn capacity_error(capacity: usize) -> Option<Seq<char>> {
    if capacity == 0 {
        Some(MSG_ZERO_CAPACITY@)
    } else {
        None
    }
}

/// A context capacity is positive.
pub fn validate_context_capacity_value(capacity: usize) -> (r: Result<usize, String>)
    ensures
        match r {
            Ok(n) => capacity_error(capacity) is None && n == capacity,
            Err(message) => capacity_error(capacity) == Some(message@),
        },
{
    if capacity == 0 {
        Err(MSG_ZERO_CAPACITY.to_owned())
    } else {
        Ok(capacity)
    }
}

/// Layer `li` of a model with this window and period is local: every `pattern`-th
/// layer is global.
pub open spec fn is_local(window: Option<usize>, pattern: usize, li: int) -> bool {
    window is Some && (li + 1) % (if pattern == 0 {
        1int
    } else {
        pattern as int
    }) != 0
}

impl Config {
    /// Layer `li` attends to a window only.
    pub open spec fn sliding(&self, li: int) -> bool {
        is_local(self.sliding_window, self.sliding_pattern, li)
    }

    /// Layer `li` rotates: the mask does not clear it, and it is local where only
    /// local layers rotate.
    pub open spec fn rotates(&self, li: int) -> bool {
        &&& match self.use_rope_layers {
            Some(flags) => 0 <= li < flags@.len() ==> flags@[li],
            None => true,
        }
        &&& self.rope_on_sliding_only ==> self.sliding(li)
    }

    /// All fields but the capacity are those of `other`.
    pub open spec fn same_model(self, other: Config) -> bool {
        self == (Config { context_capacity: self.context_capacity, ..other })
    }

    /// The Llama-3.2-1B-Instruct configuration.
    pub fn llama_3_2_1b() -> (c: Self)
        ensures
            c.context_capacity == DEFAULT_CONTEXT_CAPACITY,
            c.hidden == 2048 && c.inter == 8192 && c.n_layers == 16 && c.n_q == 32,
            c.n_kv == 8 && c.head_dim == 64 && c.vocab == 128256,
            c.eps == EPS_1E5_BITS && c.rope_theta == HALF_MILLION_BITS,
            c.rope == (RopeScaling::Llama3 {
                factor: THIRTY_TWO_BITS,
                low_freq_factor: ONE_BITS,
                high_freq_factor: FOUR_BITS,
                orig_ctx: 8192,
            }),
            c.tie_word_embeddings,
            c.norm_style == NormStyle::Plain && c.weight_scheme == WeightScheme::Llama,
            c.sliding_pattern == 2 && c.sliding_window is None,
            !c.qkv_bias && !c.embed_scale && !c.norm_one_plus && !c.mlp_geglu && !c.layernorm,
            !c.norm_bias && !c.parallel_block && !c.attn_o_bias && !c.mlp_bias && !c.dense_mlp,
            !c.rope_interleaved && !c.rope_on_sliding_only && !c.fused_qkv && !c.fused_gate_up,
            c.quantization is None && c.qk_norm is None && c.rope_local_base is None,
            c.query_pre_attn_scalar is None && c.attn_logit_softcap is None,
            c.final_logit_softcap is None && c.use_rope_layers is None && c.mrope is None,
            c.deepstack is None && c.moe is None && c.rotary_dim is None && c.phi4_lora is None,
            c.attention_multiplier is None && c.embedding_multiplier is None,
            c.residual_multiplier is None && c.logit_mul is None && c.logit_div is None,
    {
        Config {
            context_capacity: DEFAULT_CONTEXT_CAPACITY,
            hidden: 2048,
            inter: 8192,
            n_layers: 16,
            n_q: 32,
            n_kv: 8,
            head_dim: 64,
            eps: EPS_1E5_BITS,
            rope_theta: HALF_MILLION_BITS,
            vocab: 128256,
            rope: RopeScaling::Llama3 {
                factor: THIRTY_TWO_BITS,
                low_freq_factor: ONE_BITS,
                high_freq_factor: FOUR_BITS,
                orig_ctx: 8192,
            },
            qkv_bias: false,
            tie_word_embeddings: true,
            quantization: None,
            embed_scale: false,
            norm_one_plus: false,
            mlp_geglu: false,
            norm_style: NormStyle::Plain,
            qk_norm: None,
            rope_local_base: None,
            query_pre_attn_scalar: None,
            attn_logit_softcap: None,
            final_logit_softcap: None,
            sliding_window: None,
            sliding_pattern: 2,
            use_rope_layers: None,
            mrope: None,
            deepstack: None,
            moe: None,
            weight_scheme: WeightScheme::Llama,
            layernorm: false,
            norm_bias: false,
            parallel_block: false,
            attn_o_bias: false,
            mlp_bias: false,
            dense_mlp: false,
            rope_interleaved: false,
            rotary_dim: None,
            rope_on_sliding_only: false,
            attention_multiplier: None,
            embedding_multiplier: None,
            residual_multiplier: None,
            logit_mul: None,
            logit_div: None,
            fused_qkv: false,
            fused_gate_up: false,
            phi4_lora: None,
        }
    }

    /// Select the static sequence capacity. It has to be positive, and a DeepStack
    /// declaration has to fit the model and the capacity.
    pub fn with_context_capacity(self, context_capacity: usize) -> (r: Result<Self, String>)
        ensures
            ({
                let error = first_error(
                    capacity_error(context_capacity),
                    match self.deepstack {
                        None => None,
                        Some(d) => first_error(
                            deepstack_structure_error(
                                d.target_layer_indices@,
                                d.max_visual_positions,
                                self.n_layers,
                            ),
                            deepstack_capacity_error(d.max_visual_positions, context_capacity),
                        ),
                    },
                );
                match r {
                    Ok(c) => {
                        &&& error is None
                        &&& c.context_capacity == context_capacity
                        &&& c.same_model(self)
                    },
                    Err(message) => error == Some(message@),
                }
            }),
    {
        let mut config = self;
        config.context_capacity = match validate_context_capacity_value(context_capacity) {
            Ok(n) => n,
            Err(message) => return Err(message),
        };
        if let Some(deepstack) = &config.deepstack {
            match deepstack.validate(config.n_layers, config.context_capacity) {
                Ok(_) => {},
                Err(message) => return Err(message),
            }
        }
        Ok(config)
    }

    /// Query heads per key/value head.
    pub fn group(&self) -> (r: usize)
        requires
            self.n_kv != 0,
        ensures
            r == self.n_q / self.n_kv,
    {
        self.n_q / self.n_kv
    }

    /// Packed in-graph dequantization applies: an affine checkpoint in the separate
    /// dense layout.
    pub open spec fn packs_quant(&self) -> bool {
        self.quantization is Some && !self.fused_qkv && !self.fused_gate_up && !self.dense_mlp
            && self.moe is None
    }

    pub fn supports_packed_quant(&self) -> (r: bool)
        ensures
            r == self.packs_quant(),
    {
        self.quantization.is_some() && !self.fused_qkv && !self.fused_gate_up && !self.dense_mlp
            && self.moe.is_none()
    }

    /// Half-precision resident weights apply: every projection is a whole tensor.
    pub open spec fn keeps_half(&self) -> bool {
        !self.fused_qkv && !self.fused_gate_up
    }

    pub fn supports_f16_resident(&self) -> (r: bool)
        ensures
            r == self.keeps_half(),
    {
        !self.fused_qkv && !self.fused_gate_up
    }

    /// The attention score scale: a stated multiplier, else the inverse root of a
    /// stated scalar, else that of the head width.
    pub fn scale(&self) -> (r: ScoreScale)
        ensures
            r == (match self.attention_multiplier {
                Some(bits) => ScoreScale::Multiplier(bits),
                None => match self.query_pre_attn_scalar {
                    Some(scalar) => ScoreScale::InverseRoot(scalar),
                    None => ScoreScale::InverseRootOfHead(self.head_dim),
                },
            }),
    {
        match self.attention_multiplier {
            Some(bits) => ScoreScale::Multiplier(bits),
            None => match self.query_pre_attn_scalar {
                Some(scalar) => ScoreScale::InverseRoot(scalar),
                None => ScoreScale::InverseRootOfHead(self.head_dim),
            },
        }
    }

    /// The rotated width of each head: the part that is stated, else all of it.
    pub open spec fn rotated(&self) -> usize {
        match self.rotary_dim {
            Some(n) => n,
            None => self.head_dim,
        }
    }

    /// The rotated width of each head, which is even in every configuration that is read
    /// from a document.
    pub fn rotary_width(&self) -> (r: usize)
        ensures
            r == self.rotated(),
    {
        match self.rotary_dim {
            Some(n) => n,
            None => self.head_dim,
        }
    }

    /// Positions have three axes.
    #[must_use]
    pub fn uses_mrope(&self) -> (r: bool)
        ensures
            r == (self.mrope is Some),
    {
        self.mrope.is_some()
    }

    /// Whether layer `li` attends to a window only.
    pub fn is_sliding_layer(&self, li: usize) -> (r: bool)
        requires
            li < usize::MAX,
        ensures
            r == self.sliding(li as int),
    {
        let period: usize = if self.sliding_pattern == 0 {
            1
        } else {
            self.sliding_pattern
        };
        self.sliding_window.is_some() && (li + 1) % period != 0
    }

    /// Whether layer `li` rotates.
    pub fn layer_uses_rope(&self, li: usize) -> (r: bool)
        requires
            li < usize::MAX,
        ensures
            r == self.rotates(li as int),
    {
        let masked = match &self.use_rope_layers {
            Some(flags) => if li < flags.len() {
                flags[li]
            } else {
                true
            },
            None => true,
        };
        let sliding_ok = if self.rope_on_sliding_only {
            self.is_sliding_layer(li)
        } else {
            true
        };
        masked && sliding_ok
    }

    /// Whether layer `li` rotates by the local base.
    pub fn local_rope_layer(&self, li: usize) -> (r: bool)
        requires
            li < usize::MAX,
        ensures
            r == (self.rope_local_base is Some && self.sliding(li as int)),
    {
        self.rope_local_base.is_some() && self.is_sliding_layer(li)
    }

    /// The residual is normalized before attention.
    pub fn has_input_norm(&self) -> (r: bool)
        ensures
            r == (self.norm_style != NormStyle::OlmoPost),
    {
        self.norm_style != NormStyle::OlmoPost
    }

    /// The attention output is normalized before its residual add.
    pub fn has_post_attn_norm(&self) -> (r: bool)
        ensures
            r == (self.norm_style != NormStyle::Plain),
    {
        matches!(self.norm_style, NormStyle::GemmaFf | NormStyle::OlmoPost)
    }

    /// The MLP input has a norm of its own.
    pub fn has_pre_ff_norm(&self) -> (r: bool)
        ensures
            r == (self.norm_style == NormStyle::GemmaFf),
    {
        self.norm_style == NormStyle::GemmaFf
    }

    /// The MLP output is normalized before its residual add.
    pub fn has_post_ff_norm(&self) -> (r: bool)
        ensures
            r == (self.norm_style != NormStyle::Plain),
    {
        matches!(self.norm_style, NormStyle::GemmaFf | NormStyle::OlmoPost)
    }

    /// Layer `li` is a mixture of experts.
    pub open spec fn moe_layer(&self, li: int) -> bool {
        self.moe matches Some(m) && li >= m.first_k_dense
    }

    pub fn is_moe_layer(&self, li: usize) -> (r: bool)
        ensures
            r == self.moe_layer(li as int),
    {
        match &self.moe {
            Some(m) => li >= m.first_k_dense,
            None => false,
        }
    }
}

/// Of any `sliding_pattern` consecutive layers of a windowed model exactly one is
/// global: the one whose 1-based number the period divides.
pub proof fn law_one_global_layer_per_period(c: Config, start: int)
    requires
        c.sliding_window is Some,
        c.sliding_pattern > 0,
        start >= 0,
    ensures
        exists|li: int|
            start <= li < start + c.sliding_pattern && !#[trigger] c.sliding(li) && (forall|other: int|
                start <= other < start + c.sliding_pattern && other != li ==> #[trigger] c.sliding(
                    other,
                )),
{
    let p = c.sliding_pattern as int;
    let rest = start % p;
    let li = start + (p - 1 - rest);
    assert(0 <= rest < p);
    assert((li + 1) % p == 0) by {
        vstd::arithmetic::div_mod::lemma_fundamental_div_mod(start, p);
        assert(li + 1 == p * (start / p) + p);
        assert(p * (start / p) + p == p * (start / p + 1)) by (nonlinear_arith);
        vstd::arithmetic::div_mod::lemma_mod_multiples_basic(start / p + 1, p);
        assert(p * (start / p + 1) == (start / p + 1) * p) by (nonlinear_arith);
    }
    assert(!c.sliding(li));
    assert forall|other: int| start <= other < start + p && other != li implies #[trigger] c.sliding(
        other,
    ) by {
        let delta = other - li;
        assert(-p < delta < p);
        if (other + 1) % p == 0 {
            vstd::arithmetic::div_mod::lemma_fundamental_div_mod(other + 1, p);
            vstd::arithmetic::div_mod::lemma_fundamental_div_mod(li + 1, p);
            let a = (other + 1) / p;
            let b = (li + 1) / p;
            assert(delta == p * a - p * b);
            assert(p * a - p * b == p * (a - b)) by (nonlinear_arith);
            assert(a - b != 0 ==> p * (a - b) >= p || p * (a - b) <= -p) by (nonlinear_arith)
                requires
                    p > 0,
            ;
            assert(p * 0 == 0);
            assert(a - b == 0 ==> delta == 0);
        }
    }
}

/// A model without a window has no local layer.
pub proof fn law_no_window_no_local_layer(c: Config, li: int)
    requires
        c.sliding_window is None,
    ensures
        !c.sliding(li),
{
}

/// The global layer of a windowed model is the last one of each period: counted from the
/// first layer, `pattern - 1` local layers and then a global one.
pub proof fn law_last_layer_of_a_period_is_global(c: Config, period: int, j: int)
    requires
        c.sliding_window is Some,
        c.sliding_pattern > 0,
        0 <= period,
        0 <= j < c.sliding_pattern,
    ensures
        c.sliding(period * c.sliding_pattern + j) <==> j + 1 != c.sliding_pattern,
{
    let p = c.sliding_pattern as int;
    let li = period * p + j;
    if j + 1 == p {
        assert(li + 1 == (period + 1) * p) by (nonlinear_arith)
            requires
                li == period * p + j,
                j + 1 == p,
        ;
        vstd::arithmetic::div_mod::lemma_mod_multiples_basic(period + 1, p);
    } else {
        vstd::arithmetic::div_mod::lemma_fundamental_div_mod_converse(li + 1, p, period, j + 1);
    }
}

/// A layer that the mask clears does not rotate, a layer behind the mask is not cleared, and
/// where only local layers rotate no global layer does.
pub proof fn law_rotation_follows_mask_and_window(c: Config, li: int)
    requires
        0 <= li,
    ensures
        c.use_rope_layers matches Some(flags) ==> li < flags@.len() && !flags@[li]
            ==> !c.rotates(li),
        c.rope_on_sliding_only && !c.sliding(li) ==> !c.rotates(li),
        c.use_rope_layers is None && !c.rope_on_sliding_only ==> c.rotates(li),
        c.use_rope_layers matches Some(flags) ==> li >= flags@.len() ==> (c.rotates(li) <==> (
        c.rope_on_sliding_only ==> c.sliding(li))),
        c.use_rope_layers matches Some(flags) ==> li < flags@.len() && flags@[li] && c.sliding(li)
            ==> c.rotates(li),
{
}

/// Mixture-of-experts layers are the last ones: the first stated number of layers is dense,
/// and all layers behind them are not.
pub proof fn law_dense_layers_come_first(c: Config, li: int)
    requires
        0 <= li,
    ensures
        c.moe is None ==> !c.moe_layer(li),
        c.moe matches Some(m) ==> c.moe_layer(m.first_k_dense + li),
        c.moe matches Some(m) ==> li < m.first_k_dense ==> !c.moe_layer(li),
{
}

/// Weights stay packed only where the projections are whole tensors too, and one fused,
/// dense or expert layout alone is enough to prevent it.
pub proof fn law_packed_models_keep_half(c: Config)
    ensures
        c.packs_quant() ==> c.keeps_half() && c.quantization is Some && c.moe is None,
        c.fused_qkv || c.fused_gate_up ==> !c.packs_quant() && !c.keeps_half(),
        c.dense_mlp || c.moe is Some || c.quantization is None ==> !c.packs_quant(),
        c.keeps_half() && c.quantization is Some && c.moe is None && !c.dense_mlp
            ==> c.packs_quant(),
        !c.fused_qkv && !c.fused_gate_up ==> c.keeps_half(),
{
}

proof fn lemma_first_outside(s: Seq<usize>, n: usize, from: int)
    requires
        0 <= from,
    ensures
        first_outside(s, n, from) is None <==> forall|i: int|
            from <= i < s.len() ==> #[trigger] s[i] < n,
    decreases s.len() - from,
{
    if from < s.len() {
        if s[from] < n {
            lemma_first_outside(s, n, from + 1);
        }
    }
}

/// A DeepStack declaration is accepted exactly when it names layers in ascending order, each
/// once and each of the model, with at least one layer and one position, and its positions
/// fit the capacity.
pub proof fn law_accepted_declarations(
    layers: Seq<usize>,
    positions: usize,
    n_layers: usize,
    capacity: usize,
)
    ensures
        deepstack_structure_error(layers, positions, n_layers) is None <==> {
            &&& 0 < layers.len()
            &&& 0 < positions
            &&& forall|i: int, j: int| 0 <= i < j < layers.len() ==> layers[i] < layers[j]
            &&& layers.last() < n_layers
        },
        deepstack_capacity_error(positions, capacity) is None <==> positions <= capacity,
{
    lemma_first_outside(layers, n_layers, 0);
    if layers.len() > 0 && strictly_ascending(layers) {
        let last = layers.len() - 1;
        assert(layers.last() == layers[last]);
        assert forall|i: int| 0 <= i < layers.len() && layers[last] < n_layers implies
            #[trigger] layers[i] < n_layers by {
            if i < last {
                assert(layers[i] < layers[last]);
            }
        }
    }
}

} // verus!
