//! What a compiled model is made of: its configuration, the sizes that cross the C
//! interface, the compiler's flags and the tensor descriptors.
use vstd::prelude::*;

use crate::config::{
    capacity_error, deepstack_capacity_error, deepstack_structure_error, first_error, reports,
    Config, DeepStackConfig, QuantConfig,
};
use crate::config_json::{config_error, describes};
use crate::json::{json_error_text, json_of_text, parse_json, JsonView};
use crate::loader::{checked_ffi_int, narrow_error};
use crate::text::{
    debug_form, debug_text, dec, dec_int, hex, hex_text, int_text, list_form, list_text,
    size_text, starts_with, has_prefix, text_eq,
};
use crate::weight_specs::{
    model_specs, rows_fit, spec_views, weight_specs, WeightSpec, WeightSpecView,
};

verus! {

/// The element type code of single-precision tensors.
pub const TENSOR_F32: i32 = 0;

/// The element type code of integer tensors.
pub const TENSOR_I32: i32 = 1;

/// Shape and size of a tensor that crosses the C interface.
#[derive(Debug, Clone, Copy, PartialEq, Eq)]
pub struct XlaTensorDesc {
    pub byte_length: usize,
    pub dtype: i32,
    pub rank: i32,
    /// The shape; unused dimensions are 0.
    pub dims: [i64; 4],
}

/// The product of the first `n` dimensions.
pub open spec fn product(shape: Seq<usize>, n: nat) -> nat
    decreases n,
{
    if n == 0 {
        1
    } else {
        product(shape, (n - 1) as nat) * shape[n - 1] as nat
    }
}

/// The count of some prefix of the dimensions is more than a size holds.
pub open spec fn count_overflows(shape: Seq<usize>) -> bool {
    exists|n: nat| n <= shape.len() && #[trigger] product(shape, n) > usize::MAX
}

/// The first dimension from `from` on that is too wide for the interface.
pub open spec fn dimension_error(shape: Seq<usize>, from: int) -> Option<Seq<char>>
    decreases shape.len() - from,
{
    if from < 0 || from >= shape.len() {
        None
    } else if shape[from] > i64::MAX {
        Some("IREE tensor dimension "@ + dec(shape[from] as nat) + " does not fit i64"@)
    } else {
        dimension_error(shape, from + 1)
    }
}

/// Complaint about a tensor of so many elements.
pub open spec fn descriptor_error(elements: usize, size: usize, shape: Seq<usize>) -> Option<
    Seq<char>,
> {
    if shape.len() > 4 {
        Some("IREE tensor descriptor rank "@ + dec(shape.len()) + " exceeds 4"@)
    } else if count_overflows(shape) {
        Some("IREE tensor descriptor element count overflowed"@)
    } else if elements != product(shape, shape.len()) {
        Some(
            "IREE tensor descriptor element count "@ + dec(elements as nat)
                + " disagrees with shape "@ + list_form(shape) + " ("@ + dec(
                product(shape, shape.len()),
            ) + ")"@,
        )
    } else if elements * size > usize::MAX {
        Some("IREE tensor descriptor byte count overflowed"@)
    } else {
        dimension_error(shape, 0)
    }
}

/// `d` describes a tensor of the shape.
pub open spec fn is_descriptor(
    d: XlaTensorDesc,
    elements: usize,
    size: usize,
    dtype: i32,
    shape: Seq<usize>,
) -> bool {
    &&& d.byte_length == elements * size
    &&& d.dtype == dtype
    &&& d.rank == shape.len()
    &&& forall|k: int|
        0 <= k < 4 ==> (#[trigger] d.dims@[k]) as int == (if k < shape.len() {
            shape[k] as int
        } else {
            0
        })
}

impl XlaTensorDesc {
    /// Describe a tensor of `elements` elements of `element_size` bytes.
    pub fn new(elements: usize, element_size: usize, dtype: i32, shape: &[usize]) -> (r: Result<
        Self,
        String,
    >)
        ensures
            match r {
                Ok(d) => descriptor_error(elements, element_size, shape@) is None && is_descriptor(
                    d,
                    elements,
                    element_size,
                    dtype,
                    shape@,
                ),
                Err(message) => descriptor_error(elements, element_size, shape@) == Some(message@),
            },
    {
        if shape.len() > 4 {
            return Err(
                "IREE tensor descriptor rank ".to_owned().concat(&size_text(shape.len())).concat(
                    " exceeds 4",
                ),
            );
        }
        let mut expected: usize = 1;
        let mut i: usize = 0;
        while i < shape.len()
            invariant
                i <= shape@.len(),
                shape@.len() <= 4,
                expected == product(shape@, i as nat),
                forall|n: nat| n <= i ==> #[trigger] product(shape@, n) <= usize::MAX,
            decreases shape@.len() - i,
        {
            match expected.checked_mul(shape[i]) {
                Some(count) => {
                    expected = count;
                },
                None => {
                    assert(product(shape@, (i + 1) as nat) > usize::MAX);
                    return Err("IREE tensor descriptor element count overflowed".to_owned());
                },
            }
            assert(expected == product(shape@, (i + 1) as nat));
            i += 1;
        }
        if elements != expected {
            return Err(
                "IREE tensor descriptor element count ".to_owned().concat(
                    &size_text(elements),
                ).concat(" disagrees with shape ").concat(&list_text(shape)).concat(" (").concat(
                    &size_text(expected),
                ).concat(")"),
            );
        }
        let byte_length: usize = match elements.checked_mul(element_size) {
            Some(bytes) => bytes,
            None => return Err("IREE tensor descriptor byte count overflowed".to_owned()),
        };
        let mut dims: [i64; 4] = [0, 0, 0, 0];
        let mut k: usize = 0;
        while k < shape.len()
            invariant
                k <= shape@.len() <= 4,
                !count_overflows(shape@),
                elements == product(shape@, shape@.len()),
                elements * element_size <= usize::MAX,
                dimension_error(shape@, 0) == dimension_error(shape@, k as int),
                forall|j: int|
                    0 <= j < 4 ==> (#[trigger] dims@[j]) as int == (if j < k {
                        shape@[j] as int
                    } else {
                        0
                    }),
            decreases shape@.len() - k,
        {
            let dim: usize = shape[k];
            if dim as u64 > i64::MAX as u64 {
                return Err(
                    "IREE tensor dimension ".to_owned().concat(&size_text(dim)).concat(
                        " does not fit i64",
                    ),
                );
            }
            dims[k] = dim as i64;
            k += 1;
        }
        Ok(XlaTensorDesc { byte_length, dtype, rank: shape.len() as i32, dims })
    }

    /// Describe a single-precision tensor.
    pub fn of_singles(elements: usize, shape: &[usize]) -> (r: Result<Self, String>)
        ensures
            match r {
                Ok(d) => descriptor_error(elements, 4, shape@) is None && is_descriptor(
                    d,
                    elements,
                    4,
                    TENSOR_F32,
                    shape@,
                ),
                Err(message) => descriptor_error(elements, 4, shape@) == Some(message@),
            },
    {
        Self::new(elements, 4, TENSOR_F32, shape)
    }

    /// Describe an integer tensor.
    pub fn of_integers(elements: usize, shape: &[usize]) -> (r: Result<Self, String>)
        ensures
            match r {
                Ok(d) => descriptor_error(elements, 4, shape@) is None && is_descriptor(
                    d,
                    elements,
                    4,
                    TENSOR_I32,
                    shape@,
                ),
                Err(message) => descriptor_error(elements, 4, shape@) == Some(message@),
            },
    {
        Self::new(elements, 4, TENSOR_I32, shape)
    }
}

/// Complaint about the adapter modes from row `from` on.
pub open spec fn modes_error(modes: Seq<i32>, supported: bool, from: int) -> Option<Seq<char>>
    decreases modes.len() - from,
{
    if from < 0 || from >= modes.len() {
        None
    } else if !(0 <= modes[from] <= 2) {
        Some(
            "adapter mode "@ + dec_int(modes[from] as int) + " for row "@ + dec(from as nat)
                + " is outside the supported range 0..=2"@,
        )
    } else if !supported && modes[from] != 0 {
        Some(
            "adapter mode "@ + dec_int(modes[from] as int) + " for row "@ + dec(from as nat)
                + " is incompatible with this runtime bundle"@,
        )
    } else {
        modes_error(modes, supported, from + 1)
    }
}

/// Check the adapter mode of every row.
pub fn validate_adapter_modes(modes: &[i32], supported: bool) -> (r: Result<(), String>)
    ensures
        reports(r, modes_error(modes@, supported, 0)),
{
    let mut row: usize = 0;
    while row < modes.len()
        invariant
            row <= modes@.len(),
            modes_error(modes@, supported, 0) == modes_error(modes@, supported, row as int),
        decreases modes@.len() - row,
    {
        let mode: i32 = modes[row];
        if mode < 0 || mode > 2 {
            return Err(
                "adapter mode ".to_owned().concat(&int_text(mode as i64)).concat(
                    " for row ",
                ).concat(&size_text(row)).concat(" is outside the supported range 0..=2"),
            );
        }
        if !supported && mode != 0 {
            return Err(
                "adapter mode ".to_owned().concat(&int_text(mode as i64)).concat(
                    " for row ",
                ).concat(&size_text(row)).concat(" is incompatible with this runtime bundle"),
            );
        }
        row += 1;
    }
    Ok(())
}

/// A weight of a Gemma3n graph.
#[derive(Debug)]
pub enum Gemma3nWeightSpec {
    Tensor(String),
    Projection(String),
}

/// What the runtime reads of a Gemma3n configuration.
#[derive(Debug)]
pub struct Gemma3nRuntime {
    pub context_capacity: usize,
    pub hidden: usize,
    pub vocab: usize,
    pub n_layers: usize,
    pub quantization: Option<QuantConfig>,
    /// Shape of the dense per-layer embeddings, as the reader gives it for the capacity.
    pub dense_ple_shape: [usize; 3],
    /// The weights in the order of the graph's arguments.
    pub weights: Vec<Gemma3nWeightSpec>,
}

impl Gemma3nRuntime {
    /// The configuration with the capacity.
    pub open spec fn at_capacity(self, capacity: usize) -> Self {
        Gemma3nRuntime { context_capacity: capacity, ..self }
    }

    /// Select the static sequence capacity.
    pub fn with_context_capacity(self, capacity: usize) -> (r: Self)
        ensures
            r == self.at_capacity(capacity),
    {
        let mut config = self;
        config.context_capacity = capacity;
        config
    }
}

/// The configuration of a compiled model.
#[derive(Debug)]
pub enum RuntimeConfig {
    Dense(Config),
    Gemma3n(Gemma3nRuntime),
}

/// How positions are given to a graph.
#[derive(Debug, Clone, Copy, PartialEq, Eq, Structural)]
pub enum PreparedPositionMode {
    OneD,
    Mrope3D,
}

/// A `config.json` describes a Gemma3n model.
pub open spec fn is_gemma3n(root: JsonView) -> bool {
    root.get_text("model_type"@) == Some("gemma3n"@) || root.get_text("model_type"@) == Some(
        "gemma3n_text"@,
    )
}

/// Complaint about a capacity for a configuration.
pub open spec fn capacity_complaint(config: Config, capacity: usize) -> Option<Seq<char>> {
    first_error(
        capacity_error(capacity),
        match config.deepstack {
            None => None,
            Some(d) => first_error(
                deepstack_structure_error(
                    d.target_layer_indices@,
                    d.max_visual_positions,
                    config.n_layers,
                ),
                deepstack_capacity_error(d.max_visual_positions, capacity),
            ),
        },
    )
}

/// `config` comes of a dense document: what the document describes, at the capacity.
pub open spec fn is_dense_at(root: JsonView, capacity: usize, config: Config) -> bool {
    exists|base: Config| #[trigger]
        describes(root, base) && capacity_complaint(base, capacity) is None
            && config.context_capacity == capacity && config.same_model(base)
}

/// A capacity is refused for what a dense document describes.
pub open spec fn is_capacity_refusal(root: JsonView, capacity: usize, message: Seq<char>) -> bool {
    exists|base: Config| #[trigger]
        describes(root, base) && capacity_complaint(base, capacity) == Some(message)
}

impl RuntimeConfig {
    /// Read the text of the `config.json` at `path` and select the static sequence
    /// capacity. `gemma3n` is what the Gemma3n reader makes of the text at that capacity,
    /// or its complaint about either; it counts only where the document names that model.
    pub fn from_json(
        path: &str,
        text: &str,
        capacity: usize,
        gemma3n: Result<Gemma3nRuntime, String>,
    ) -> (r: Result<Self, String>)
        ensures
            match json_of_text(text@) {
                None => r matches Err(message) && message@ == "parse "@ + path@ + ": "@
                    + json_error_text(text@),
                Some(root) => if is_gemma3n(root) {
                    match gemma3n {
                        Ok(config) => r == Ok::<Self, String>(
                            RuntimeConfig::Gemma3n(config.at_capacity(capacity)),
                        ),
                        Err(message) => r matches Err(shown) && shown@ == path@ + ": "@ + message@,
                    }
                } else {
                    match r {
                        Ok(config) => config_error(root) is None && (config
                            matches RuntimeConfig::Dense(dense) && is_dense_at(
                            root,
                            capacity,
                            dense,
                        )),
                        Err(message) => match config_error(root) {
                            Some(error) => message@ == path@ + ": "@ + error,
                            None => is_capacity_refusal(root, capacity, message@),
                        },
                    }
                },
            },
    {
        let root = match parse_json(text) {
            Ok(root) => root,
            Err(message) => return Err(
                "parse ".to_owned().concat(path).concat(": ").concat(&message),
            ),
        };
        let gemma = match root.get_text("model_type") {
            Some(model_type) => text_eq(model_type, "gemma3n") || text_eq(
                model_type,
                "gemma3n_text",
            ),
            None => false,
        };
        if gemma {
            return match gemma3n {
                Ok(config) => Ok(RuntimeConfig::Gemma3n(config.with_context_capacity(capacity))),
                Err(message) => Err(path.to_owned().concat(": ").concat(&message)),
            };
        }
        let base = match Config::from_json_value(&root) {
            Ok(base) => base,
            Err(message) => return Err(path.to_owned().concat(": ").concat(&message)),
        };
        assert(describes(root@, base));
        match base.with_context_capacity(capacity) {
            Ok(config) => Ok(RuntimeConfig::Dense(config)),
            Err(message) => Err(message),
        }
    }

    pub open spec fn capacity(&self) -> usize {
        match self {
            RuntimeConfig::Dense(config) => config.context_capacity,
            RuntimeConfig::Gemma3n(config) => config.context_capacity,
        }
    }

    pub fn context_capacity(&self) -> (r: usize)
        ensures
            r == self.capacity(),
    {
        match self {
            RuntimeConfig::Dense(config) => config.context_capacity,
            RuntimeConfig::Gemma3n(config) => config.context_capacity,
        }
    }

    pub open spec fn width(&self) -> usize {
        match self {
            RuntimeConfig::Dense(config) => config.hidden,
            RuntimeConfig::Gemma3n(config) => config.hidden,
        }
    }

    pub fn hidden(&self) -> (r: usize)
        ensures
            r == self.width(),
    {
        match self {
            RuntimeConfig::Dense(config) => config.hidden,
            RuntimeConfig::Gemma3n(config) => config.hidden,
        }
    }

    pub open spec fn words(&self) -> usize {
        match self {
            RuntimeConfig::Dense(config) => config.vocab,
            RuntimeConfig::Gemma3n(config) => config.vocab,
        }
    }

    pub fn vocab(&self) -> (r: usize)
        ensures
            r == self.words(),
    {
        match self {
            RuntimeConfig::Dense(config) => config.vocab,
            RuntimeConfig::Gemma3n(config) => config.vocab,
        }
    }

    pub open spec fn depth(&self) -> usize {
        match self {
            RuntimeConfig::Dense(config) => config.n_layers,
            RuntimeConfig::Gemma3n(config) => config.n_layers,
        }
    }

    pub fn n_layers(&self) -> (r: usize)
        ensures
            r == self.depth(),
    {
        match self {
            RuntimeConfig::Dense(config) => config.n_layers,
            RuntimeConfig::Gemma3n(config) => config.n_layers,
        }
    }

    pub fn quantization(&self) -> (r: Option<QuantConfig>)
        ensures
            r == match self {
                RuntimeConfig::Dense(config) => config.quantization,
                RuntimeConfig::Gemma3n(config) => config.quantization,
            },
    {
        match self {
            RuntimeConfig::Dense(config) => config.quantization,
            RuntimeConfig::Gemma3n(config) => config.quantization,
        }
    }

    pub open spec fn adapts(&self) -> bool {
        self matches RuntimeConfig::Dense(config) && config.phi4_lora is Some
    }

    pub fn has_adapter_modes(&self) -> (r: bool)
        ensures
            r == self.adapts(),
    {
        match self {
            RuntimeConfig::Dense(config) => config.phi4_lora.is_some(),
            RuntimeConfig::Gemma3n(_) => false,
        }
    }

    pub fn supports_f16_resident(&self) -> (r: bool)
        ensures
            r == (self matches RuntimeConfig::Dense(config) && config.keeps_half()),
    {
        match self {
            RuntimeConfig::Dense(config) => config.supports_f16_resident(),
            RuntimeConfig::Gemma3n(_) => false,
        }
    }

    pub open spec fn ple_shape(&self) -> Option<[usize; 3]> {
        match self {
            RuntimeConfig::Dense(_) => None,
            RuntimeConfig::Gemma3n(config) => Some(config.dense_ple_shape),
        }
    }

    pub fn dense_ple_shape(&self) -> (r: Option<[usize; 3]>)
        ensures
            r == self.ple_shape(),
    {
        match self {
            RuntimeConfig::Dense(_) => None,
            RuntimeConfig::Gemma3n(config) => Some(config.dense_ple_shape),
        }
    }

    pub open spec fn positions(&self) -> PreparedPositionMode {
        match self {
            RuntimeConfig::Dense(config) => if config.mrope is Some {
                PreparedPositionMode::Mrope3D
            } else {
                PreparedPositionMode::OneD
            },
            RuntimeConfig::Gemma3n(_) => PreparedPositionMode::OneD,
        }
    }

    pub fn position_mode(&self) -> (r: PreparedPositionMode)
        ensures
            r == self.positions(),
    {
        match self {
            RuntimeConfig::Dense(config) => if config.uses_mrope() {
                PreparedPositionMode::Mrope3D
            } else {
                PreparedPositionMode::OneD
            },
            RuntimeConfig::Gemma3n(_) => PreparedPositionMode::OneD,
        }
    }

    pub open spec fn stack(&self) -> Option<DeepStackConfig> {
        match self {
            RuntimeConfig::Dense(config) => config.deepstack,
            RuntimeConfig::Gemma3n(_) => None,
        }
    }

    pub fn deepstack(&self) -> (r: Option<&DeepStackConfig>)
        ensures
            match r {
                Some(d) => self.stack() == Some(*d),
                None => self.stack() is None,
            },
    {
        match self {
            RuntimeConfig::Dense(config) => config.deepstack.as_ref(),
            RuntimeConfig::Gemma3n(_) => None,
        }
    }

    /// The row counts of the weights can be counted.
    pub open spec fn counts_rows(&self) -> bool {
        self matches RuntimeConfig::Dense(config) ==> rows_fit(*config)
    }

    /// The weights in the order of the graph's arguments.
    pub open spec fn specs(&self, packed_requested: bool) -> Seq<WeightSpecView> {
        match self {
            RuntimeConfig::Dense(config) => model_specs(
                *config,
                packed_requested && config.packs_quant(),
            ),
            RuntimeConfig::Gemma3n(config) => gemma3n_specs(config.weights@),
        }
    }

    /// The weights in the order of the graph's arguments.
    pub fn weight_specs(&self, packed_requested: bool) -> (r: Vec<WeightSpec>)
        requires
            self.counts_rows(),
        ensures
            spec_views(r@) == self.specs(packed_requested),
    {
        match self {
            RuntimeConfig::Dense(config) => weight_specs(config, packed_requested),
            RuntimeConfig::Gemma3n(config) => {
                let mut out: Vec<WeightSpec> = Vec::new();
                let mut i: usize = 0;
                while i < config.weights.len()
                    invariant
                        i <= config.weights@.len(),
                        out@.len() == i,
                        forall|j: int|
                            0 <= j < i ==> (#[trigger] out@[j])@ == gemma3n_spec(
                                config.weights@[j],
                            ),
                    decreases config.weights@.len() - i,
                {
                    let spec = match &config.weights[i] {
                        Gemma3nWeightSpec::Tensor(name) => WeightSpec::Whole(name.clone()),
                        Gemma3nWeightSpec::Projection(name) => WeightSpec::Proj(name.clone()),
                    };
                    out.push(spec);
                    i += 1;
                }
                assert(spec_views(out@) =~= gemma3n_specs(config.weights@));
                out
            },
        }
    }
}

/// A Gemma3n weight as a weight of a graph.
pub open spec fn gemma3n_spec(spec: Gemma3nWeightSpec) -> WeightSpecView {
    match spec {
        Gemma3nWeightSpec::Tensor(name) => WeightSpecView::Whole(name@),
        Gemma3nWeightSpec::Projection(name) => WeightSpecView::Proj(name@),
    }
}

/// Gemma3n weights as weights of a graph.
pub open spec fn gemma3n_specs(weights: Seq<Gemma3nWeightSpec>) -> Seq<WeightSpecView> {
    Seq::new(weights.len(), |i: int| gemma3n_spec(weights[i]))
}

/// The sizes of a compiled model as the C interface takes them.
#[derive(Debug, Clone, Copy, PartialEq, Eq)]
pub struct RuntimeFfiDimensions {
    pub n_weights: i32,
    pub context_capacity: i32,
    pub hidden: i32,
    pub dense_ple_layers: i32,
    pub dense_ple_hidden: i32,
    pub model_layers: i32,
    pub deepstack_layers: i32,
    pub deepstack_visual: i32,
}

/// A dimension of the dense per-layer embeddings; 0 where there are none.
pub open spec fn ple_dim(shape: Option<[usize; 3]>, k: int) -> usize {
    match shape {
        Some(dims) => dims@[k],
        None => 0,
    }
}

/// The number of DeepStack layers; 0 where there are none.
pub open spec fn stack_layers(stack: Option<DeepStackConfig>) -> int {
    match stack {
        Some(d) => d.target_layer_indices@.len() as int,
        None => 0,
    }
}

/// The number of DeepStack positions; 0 where there are none.
pub open spec fn stack_positions(stack: Option<DeepStackConfig>) -> int {
    match stack {
        Some(d) => d.max_visual_positions as int,
        None => 0,
    }
}

/// The first size that is too wide for the C interface.
pub open spec fn dimensions_error(cfg: RuntimeConfig, n_weights: usize) -> Option<Seq<char>> {
    first_error(
        narrow_error(cfg.words() as int, "vocab_size"@),
        first_error(
            narrow_error(n_weights as int, "n_weights"@),
            first_error(
                narrow_error(cfg.capacity() as int, "context_capacity"@),
                first_error(
                    narrow_error(cfg.width() as int, "hidden_size"@),
                    first_error(
                        narrow_error(ple_dim(cfg.ple_shape(), 1) as int, "dense_ple_layers"@),
                        first_error(
                            narrow_error(ple_dim(cfg.ple_shape(), 2) as int, "dense_ple_hidden"@),
                            first_error(
                                narrow_error(cfg.depth() as int, "model_layers"@),
                                first_error(
                                    narrow_error(
                                        stack_layers(cfg.stack()),
                                        "deepstack_layers"@,
                                    ),
                                    narrow_error(
                                        stack_positions(cfg.stack()),
                                        "deepstack_visual_positions"@,
                                    ),
                                ),
                            ),
                        ),
                    ),
                ),
            ),
        ),
    )
}

/// The sizes of a model with so many weights.
pub open spec fn are_dimensions(
    cfg: RuntimeConfig,
    n_weights: usize,
    d: RuntimeFfiDimensions,
) -> bool {
    &&& d.n_weights == n_weights
    &&& d.context_capacity == cfg.capacity()
    &&& d.hidden == cfg.width()
    &&& d.dense_ple_layers == ple_dim(cfg.ple_shape(), 1)
    &&& d.dense_ple_hidden == ple_dim(cfg.ple_shape(), 2)
    &&& d.model_layers == cfg.depth()
    &&& d.deepstack_layers == stack_layers(cfg.stack())
    &&& d.deepstack_visual == stack_positions(cfg.stack())
}

/// Check that every size fits the C interface.
pub fn runtime_ffi_dimensions(cfg: &RuntimeConfig, n_weights: usize) -> (r: Result<
    RuntimeFfiDimensions,
    String,
>)
    ensures
        match r {
            Ok(d) => dimensions_error(*cfg, n_weights) is None && are_dimensions(
                *cfg,
                n_weights,
                d,
            ),
            Err(message) => dimensions_error(*cfg, n_weights) == Some(message@),
        },
{
    let (ple_layers, ple_hidden): (usize, usize) = match cfg.dense_ple_shape() {
        Some(shape) => (shape[1], shape[2]),
        None => (0, 0),
    };
    let (stack_count, stack_width): (usize, usize) = match cfg.deepstack() {
        Some(schema) => (schema.target_layer_indices.len(), schema.max_visual_positions),
        None => (0, 0),
    };
    match checked_ffi_int(cfg.vocab(), "vocab_size") {
        Ok(_) => {},
        Err(message) => return Err(message),
    }
    let n_weights = match checked_ffi_int(n_weights, "n_weights") {
        Ok(n) => n,
        Err(message) => return Err(message),
    };
    let context_capacity = match checked_ffi_int(cfg.context_capacity(), "context_capacity") {
        Ok(n) => n,
        Err(message) => return Err(message),
    };
    let hidden = match checked_ffi_int(cfg.hidden(), "hidden_size") {
        Ok(n) => n,
        Err(message) => return Err(message),
    };
    let dense_ple_layers = match checked_ffi_int(ple_layers, "dense_ple_layers") {
        Ok(n) => n,
        Err(message) => return Err(message),
    };
    let dense_ple_hidden = match checked_ffi_int(ple_hidden, "dense_ple_hidden") {
        Ok(n) => n,
        Err(message) => return Err(message),
    };
    let model_layers = match checked_ffi_int(cfg.n_layers(), "model_layers") {
        Ok(n) => n,
        Err(message) => return Err(message),
    };
    let deepstack_layers = match checked_ffi_int(stack_count, "deepstack_layers") {
        Ok(n) => n,
        Err(message) => return Err(message),
    };
    let deepstack_visual = match checked_ffi_int(stack_width, "deepstack_visual_positions") {
        Ok(n) => n,
        Err(message) => return Err(message),
    };
    Ok(
        RuntimeFfiDimensions {
            n_weights,
            context_capacity,
            hidden,
            dense_ple_layers,
            dense_ple_hidden,
            model_layers,
            deepstack_layers,
            deepstack_visual,
        },
    )
}

/// The first layer index from `from` on that is too wide for the C interface.
pub open spec fn layers_error(layers: Seq<usize>, from: int) -> Option<Seq<char>>
    decreases layers.len() - from,
{
    if from < 0 || from >= layers.len() {
        None
    } else {
        first_error(
            narrow_error(layers[from] as int, "deepstack target layer"@),
            layers_error(layers, from + 1),
        )
    }
}

/// The DeepStack target layers as the C interface takes them; none where the model has no
/// DeepStack.
pub fn deepstack_target_layers(cfg: &RuntimeConfig) -> (r: Result<Vec<i32>, String>)
    ensures
        ({
            let layers = match cfg.stack() {
                Some(d) => d.target_layer_indices@,
                None => Seq::empty(),
            };
            match r {
                Ok(targets) => {
                    &&& layers_error(layers, 0) is None
                    &&& targets@.len() == layers.len()
                    &&& forall|i: int|
                        0 <= i < layers.len() ==> #[trigger] targets@[i] == layers[i]
                },
                Err(message) => layers_error(layers, 0) == Some(message@),
            }
        }),
{
    let mut targets: Vec<i32> = Vec::new();
    if let Some(schema) = cfg.deepstack() {
        let layers = &schema.target_layer_indices;
        let mut i: usize = 0;
        while i < layers.len()
            invariant
                i <= layers@.len(),
                cfg.stack() matches Some(d) && d.target_layer_indices@ == layers@,
                targets@.len() == i,
                layers_error(layers@, 0) == layers_error(layers@, i as int),
                forall|j: int| 0 <= j < i ==> #[trigger] targets@[j] == layers@[j],
            decreases layers@.len() - i,
        {
            match checked_ffi_int(layers[i], "deepstack target layer") {
                Ok(layer) => targets.push(layer),
                Err(message) => return Err(message),
            }
            i += 1;
        }
    }
    Ok(targets)
}

/// Number format of a graph's activations.
#[derive(Debug, Clone, Copy, PartialEq, Eq, Structural)]
pub enum Precision {
    F32,
    F16,
    Bf16,
}

pub const MSG_NO_METAL: &'static str =
    "Gemma3n uses an exact BF16 activation stream with F32 AltUp coefficient islands, but the Metal target cannot lower BF16. Use CUDA or a CPU local-task/local-sync target.";

/// The precision of a model on a device. `resolved` is what the device resolves to; a
/// Gemma3n model is fixed to BF16.
pub fn effective_precision(
    device: &str,
    cfg: &RuntimeConfig,
    resolved: Result<Precision, String>,
) -> (r: Result<Precision, String>)
    ensures
        match cfg {
            RuntimeConfig::Dense(_) => r == resolved,
            RuntimeConfig::Gemma3n(_) => if device@ == "metal"@ {
                r matches Err(message) && message@ == MSG_NO_METAL@
            } else {
                r == Ok::<Precision, String>(Precision::Bf16)
            },
        },
{
    match cfg {
        RuntimeConfig::Dense(_) => resolved,
        RuntimeConfig::Gemma3n(_) => if text_eq(device, "metal") {
            Err(MSG_NO_METAL.to_owned())
        } else {
            Ok(Precision::Bf16)
        },
    }
}

pub const MSG_NO_QMV: &'static str =
    "Gemma3n CUDA Q4 requires the token-exact native QMV, but this binary was built without the CUDA-IREE PTX (`cfg(xla_iree_cuda)`). Rebuild with IREE_CUDA_HOME and nvcc; refusing the numerically different dot fallback.";

/// Complaint about the quantization of a Gemma3n model on a device.
pub open spec fn qmv_error(
    device: Seq<char>,
    quantization: Option<QuantConfig>,
    available: bool,
) -> Option<Seq<char>> {
    match quantization {
        Some(q) if device == "cuda"@ && q.bits != 8 => if q.bits != 4 {
            Some(
                "Gemma3n CUDA native QMV supports 4-bit checkpoints; got "@ + dec(q.bits as nat)
                    + " bits"@,
            )
        } else if q.group_size != 64 {
            Some(
                "Gemma3n CUDA native QMV currently pins the Q4 group_size=64 contract; got "@
                    + dec(q.group_size as nat),
            )
        } else if !available {
            Some(MSG_NO_QMV@)
        } else {
            None
        },
        _ => None,
    }
}

/// Whether a Gemma3n model runs the native packed product: only a 4-bit model on CUDA
/// does, and it has to.
pub fn gemma3n_native_qmv_eligibility(
    device: &str,
    quantization: Option<QuantConfig>,
    qmv_available: bool,
) -> (r: Result<bool, String>)
    ensures
        match r {
            Ok(native) => qmv_error(device@, quantization, qmv_available) is None && native == (
            device@ == "cuda"@ && (quantization matches Some(q) && q.bits == 4)),
            Err(message) => qmv_error(device@, quantization, qmv_available) == Some(message@),
        },
{
    if !text_eq(device, "cuda") {
        return Ok(false);
    }
    let q = match quantization {
        Some(q) => q,
        None => return Ok(false),
    };
    if q.bits == 8 {
        return Ok(false);
    }
    if q.bits != 4 {
        return Err(
            "Gemma3n CUDA native QMV supports 4-bit checkpoints; got ".to_owned().concat(
                &size_text(q.bits),
            ).concat(" bits"),
        );
    }
    if q.group_size != 64 {
        return Err(
            "Gemma3n CUDA native QMV currently pins the Q4 group_size=64 contract; got ".to_owned().concat(
            &size_text(q.group_size)),
        );
    }
    if !qmv_available {
        return Err(MSG_NO_QMV.to_owned());
    }
    Ok(true)
}

/// The compiler flags of a device.
pub open spec fn flags_of(device: Seq<char>) -> Option<Seq<Seq<char>>> {
    if device == "cuda"@ {
        Some(seq!["--iree-hal-target-device=cuda"@])
    } else if device == "metal"@ {
        Some(seq!["--iree-hal-target-device=metal"@])
    } else if has_prefix(device, "local"@) {
        Some(
            seq![
                "--iree-hal-target-device=local"@,
                "--iree-hal-local-target-device-backends=llvm-cpu"@,
            ],
        )
    } else {
        None
    }
}

/// The texts of flags.
pub open spec fn flag_texts(flags: Seq<&'static str>) -> Seq<Seq<char>> {
    Seq::new(flags.len(), |i: int| flags[i]@)
}

/// A device that no target exists for.
pub open spec fn device_message(device: Seq<char>) -> Seq<char> {
    "unsupported OpenXLA device "@ + debug_form(device)
        + "; use \"local-task\" (CPU), \"metal\" (Apple Silicon GPU, macOS build), or \"cuda\" (cuda build)"@
}

/// The compiler flags of a device.
pub fn target_flags(device: &str) -> (r: Result<Vec<&'static str>, String>)
    ensures
        match r {
            Ok(flags) => flags_of(device@) == Some(flag_texts(flags@)),
            Err(message) => flags_of(device@) is None && message@ == device_message(device@),
        },
{
    let mut flags: Vec<&'static str> = Vec::new();
    if text_eq(device, "cuda") {
        flags.push("--iree-hal-target-device=cuda");
        assert(flag_texts(flags@) =~= seq!["--iree-hal-target-device=cuda"@]);
        Ok(flags)
    } else if text_eq(device, "metal") {
        flags.push("--iree-hal-target-device=metal");
        assert(flag_texts(flags@) =~= seq!["--iree-hal-target-device=metal"@]);
        Ok(flags)
    } else if starts_with(device, "local") {
        flags.push("--iree-hal-target-device=local");
        flags.push("--iree-hal-local-target-device-backends=llvm-cpu");
        assert(flag_texts(flags@) =~= seq![
            "--iree-hal-target-device=local"@,
            "--iree-hal-local-target-device-backends=llvm-cpu"@,
        ]);
        Ok(flags)
    } else {
        Err(
            "unsupported OpenXLA device ".to_owned().concat(&debug_text(device)).concat(
                "; use \"local-task\" (CPU), \"metal\" (Apple Silicon GPU, macOS build), or \"cuda\" (cuda build)",
            ),
        )
    }
}

/// The compiler flags of a bundle: those of the device, and the architecture that the
/// native packed product needs.
pub fn bundle_flags(device: &str, native_qmv: bool) -> (r: Result<Vec<&'static str>, String>)
    ensures
        match r {
            Ok(flags) => flags_of(device@) matches Some(base) && flag_texts(flags@) == (
            if native_qmv {
                base.push("--iree-cuda-target=sm_80"@)
            } else {
                base
            }),
            Err(message) => flags_of(device@) is None && message@ == device_message(device@),
        },
{
    let mut flags = match target_flags(device) {
        Ok(flags) => flags,
        Err(message) => return Err(message),
    };
    if native_qmv {
        let ghost before = flags@;
        flags.push("--iree-cuda-target=sm_80");
        assert(flag_texts(flags@) =~= flag_texts(before).push("--iree-cuda-target=sm_80"@));
    }
    Ok(flags)
}

/// The name of a cached graph: its tag, its capacity and the key of its text, flags and
/// compiler.
pub open spec fn graph_stem(tag: Seq<char>, capacity: nat, key: nat) -> Seq<char> {
    tag + "-c"@ + dec(capacity) + "-"@ + hex(key, 16)
}

/// The file names of a graph's text and of its compiled form in the cache.
pub fn compiled_graph_paths(tag: &str, context_capacity: usize, key: u64) -> (r: (String, String))
    ensures
        r.0@ == graph_stem(tag@, context_capacity as nat, key as nat) + ".mlir"@,
        r.1@ == graph_stem(tag@, context_capacity as nat, key as nat) + ".vmfb"@,
{
    let stem = tag.to_owned().concat("-c").concat(&size_text(context_capacity)).concat(
        "-",
    ).concat(&hex_text(key, 16));
    (stem.clone().concat(".mlir"), stem.concat(".vmfb"))
}

/// The fingerprint of a bundle: never 0, which stands for none.
pub fn bundle_fingerprint(hash: u64) -> (r: u64)
    ensures
        r == (if hash == 0 {
            1
        } else {
            hash
        }),
{
    if hash == 0 {
        1
    } else {
        hash
    }
}

} // verus!
