//! The batched engine: slots that are seeded one by one and advance together.
//!
//! A native call is a function that the caller passes in. It takes the arguments of the
//! call and returns a status, 0 for success, and the logits as bits of single-precision
//! values.
use vstd::prelude::*;

use crate::config::{first_error, reports, DeepStackConfig};
use crate::engine::{
    are_prompt_descriptors, are_stack_descriptors, deepstack_descriptors, dense_ple_descriptor,
    finish_call, is_call_result, is_token_prompt, prepared_descriptors, prompt_error,
    ple_shape_error, same_shape, ple_shape_text, check_stack_counts, stack_counts_error,
    stack_error, token_prompt, token_prompt_error, DeepStackDescriptors, Gemma3nDensePle,
    Gemma3nDiagnosticLayout, PreparedDeepStack, PreparedIreePrefill, PromptDescriptors,
    TokenPrompt, MSG_ADAPTER, MSG_DEEPSTACK_PREPARED, MSG_DIAGNOSTIC_LENGTH, MSG_EMPTY_SLOT,
    MSG_GEMMA3N_PREPARED, MSG_KV_OVERFLOW, MSG_LENGTH, MSG_NEEDS_GEMMA3N, MSG_NEEDS_MROPE,
    MSG_NEEDS_ONE_D, MSG_NEEDS_PLE, MSG_NO_DEEPSTACK, MSG_NO_DIAGNOSTICS, MSG_NO_WIDTH,
    MSG_NOT_GEMMA3N, MSG_ORDINARY_ENTRY, MSG_PLE_NOT_GEMMA3N, MSG_PREPARED,
};
use crate::loader::{checked_ffi_int, narrow_error};
use crate::runtime::{
    descriptor_error, dimensions_error, is_descriptor, modes_error, runtime_ffi_dimensions,
    validate_adapter_modes, PreparedPositionMode, RuntimeConfig, XlaTensorDesc, TENSOR_F32,
};
use crate::text::{dec, dec_int, int_list_form, int_list_text, int_text, size_text};

verus! {

/// A batched engine with a fixed number of slots.
#[derive(Debug)]
pub struct IreeRaggedLlama {
    pub b_max: usize,
    /// Logits per row.
    pub vocab: usize,
    pub context_capacity: usize,
    pub hidden_size: usize,
    pub has_adapter_modes: bool,
    pub model_layers: usize,
    pub dense_ple_shape: Option<[usize; 3]>,
    pub position_mode: PreparedPositionMode,
    pub deepstack_schema: Option<DeepStackConfig>,
    pub diagnostic_layout: Option<Gemma3nDiagnosticLayout>,
}

/// Logits of a prompt with selected rows of the cache that it filled.
#[derive(Debug)]
pub struct PreparedPrefillDiagnostics {
    pub logits: Vec<u32>,
    /// Keys and values of the last position, layer by layer.
    pub kv: Vec<u32>,
    pub layers: usize,
    pub kv_width: usize,
}

/// A slot count that batches come in.
pub open spec fn is_batch_size(b_max: usize) -> bool {
    b_max == 4 || b_max == 8
}

/// Complaint about a slot count.
pub open spec fn batch_error(b_max: usize) -> Option<Seq<char>> {
    first_error(
        narrow_error(b_max as int, "b_max"@),
        if is_batch_size(b_max) {
            None
        } else {
            Some(
                "the OpenXLA serve worker selects B_max from [4, 8]; "@ + dec(b_max as nat)
                    + " is not one of them"@,
            )
        },
    )
}

/// Complaint about a slot.
pub open spec fn slot_error(slot: usize, b_max: usize) -> Option<Seq<char>> {
    if slot >= b_max {
        Some("slot "@ + dec(slot as nat) + " is outside b_max="@ + dec(b_max as nat))
    } else {
        None
    }
}

/// Check that a slot exists.
pub fn validate_slot(slot: usize, b_max: usize) -> (r: Result<(), String>)
    ensures
        reports(r, slot_error(slot, b_max)),
{
    if slot >= b_max {
        Err(
            "slot ".to_owned().concat(&size_text(slot)).concat(" is outside b_max=").concat(
                &size_text(b_max),
            ),
        )
    } else {
        Ok(())
    }
}

/// The engine of a configuration.
pub open spec fn is_engine_of(
    e: IreeRaggedLlama,
    cfg: RuntimeConfig,
    b_max: usize,
    layout: Option<Gemma3nDiagnosticLayout>,
) -> bool {
    &&& e.b_max == b_max
    &&& e.vocab == cfg.words()
    &&& e.context_capacity == cfg.capacity()
    &&& e.hidden_size == cfg.width()
    &&& e.has_adapter_modes == cfg.adapts()
    &&& e.model_layers == cfg.depth()
    &&& e.dense_ple_shape == cfg.ple_shape()
    &&& e.position_mode == cfg.positions()
    &&& e.deepstack_schema == cfg.stack()
    &&& e.diagnostic_layout == layout
}

/// Complaint about loading a batched engine.
pub open spec fn ragged_error(cfg: RuntimeConfig, n_weights: usize, b_max: usize) -> Option<
    Seq<char>,
> {
    first_error(dimensions_error(cfg, n_weights), batch_error(b_max))
}

/// Complaint about loading a batched engine with a diagnostic module.
pub open spec fn diagnostics_error(
    cfg: RuntimeConfig,
    n_weights: usize,
    b_max: usize,
    layout: Gemma3nDiagnosticLayout,
) -> Option<Seq<char>> {
    first_error(
        ragged_error(cfg, n_weights, b_max),
        if !(cfg is Gemma3n) {
            Some(MSG_NEEDS_GEMMA3N@)
        } else {
            match layout.complaint {
                Some(message) => Some(message@),
                None => None,
            }
        },
    )
}

/// Tokens per row, their positions and the adapter modes match the batch.
pub open spec fn lengths_error(b_max: usize, entry: Seq<char>, lens: Seq<nat>) -> Option<Seq<char>> {
    if forall|i: int| 0 <= i < lens.len() ==> #[trigger] lens[i] == b_max {
        None
    } else {
        Some(
            entry + " expects adapter/token/position/cache arrays of length b_max = "@ + dec(
                b_max as nat,
            ),
        )
    }
}

/// The first row from `from` on whose position is not the end of its cache.
pub open spec fn rows_error(
    pos: Seq<i32>,
    cache_len: Seq<i32>,
    capacity: usize,
    from: int,
) -> Option<Seq<char>>
    decreases pos.len() - from,
{
    if from < 0 || from >= pos.len() {
        None
    } else if pos[from] != cache_len[from] || pos[from] < 0 || pos[from] >= capacity {
        Some(
            "decode row "@ + dec(from as nat) + " has pos="@ + dec_int(pos[from] as int)
                + " and cache_len="@ + dec_int(cache_len[from] as int)
                + " outside context_capacity="@ + dec(capacity as nat) + " or not equal"@,
        )
    } else {
        rows_error(pos, cache_len, capacity, from + 1)
    }
}

/// The first row from `from` on whose cache end or coordinates are out of range.
pub open spec fn mrope_rows_error(
    positions: Seq<[i32; 3]>,
    cache_len: Seq<i32>,
    capacity: usize,
    from: int,
) -> Option<Seq<char>>
    decreases cache_len.len() - from,
{
    if from < 0 || from >= cache_len.len() {
        None
    } else if cache_len[from] < 0 || cache_len[from] >= capacity {
        Some(
            "decode row "@ + dec(from as nat) + " has cache_len="@ + dec_int(
                cache_len[from] as int,
            ) + " outside context_capacity="@ + dec(capacity as nat),
        )
    } else if positions[from]@[0] < 0 || positions[from]@[1] < 0 || positions[from]@[2] < 0 {
        Some(
            "decode row "@ + dec(from as nat) + " has negative M-RoPE coordinates "@
                + int_list_form(positions[from]@),
        )
    } else {
        mrope_rows_error(positions, cache_len, capacity, from + 1)
    }
}

/// The sizes of a decode call fit the C interface.
pub open spec fn batch_sizes_error(b_max: usize, vocab: usize) -> Option<Seq<char>> {
    first_error(narrow_error(b_max as int, "b_max"@), narrow_error(vocab as int, "vocab_size"@))
}

/// Coordinates row by row.
pub open spec fn flat(positions: Seq<[i32; 3]>) -> Seq<i32> {
    Seq::new(3 * positions.len(), |i: int| positions[i / 3]@[i % 3])
}

fn flatten(positions: &[[i32; 3]]) -> (r: Vec<i32>)
    ensures
        r@ == flat(positions@),
{
    let mut out: Vec<i32> = Vec::new();
    let mut row: usize = 0;
    while row < positions.len()
        invariant
            row <= positions@.len(),
            out@.len() == 3 * row,
            forall|i: int| 0 <= i < 3 * row ==> #[trigger] out@[i] == positions@[i / 3]@[i % 3],
        decreases positions@.len() - row,
    {
        out.push(positions[row][0]);
        out.push(positions[row][1]);
        out.push(positions[row][2]);
        row += 1;
    }
    assert(out@ =~= flat(positions@));
    out
}

/// The language mode in every row of a batch.
pub open spec fn language_row(n: usize) -> Seq<i32> {
    Seq::new(n as nat, |i: int| 0i32)
}

fn language_modes(n: usize) -> (r: Vec<i32>)
    ensures
        r@ == language_row(n),
{
    let mut modes: Vec<i32> = Vec::new();
    let mut i: usize = 0;
    while i < n
        invariant
            i <= n,
            modes@ == Seq::new(i as nat, |j: int| 0i32),
        decreases n - i,
    {
        modes.push(0);
        i += 1;
        assert(modes@ =~= Seq::new(i as nat, |j: int| 0i32));
    }
    modes
}

/// The native decode of a batch can be called on these rows: batch size, adapter modes,
/// tokens, positions, cache lengths and vocabulary.
pub open spec fn runs_batch<
    R: Fn(i32, &[i32], &[i32], &[i32], &[i32], i32) -> (i32, Vec<u32>),
>(
    run: R,
    e: IreeRaggedLlama,
    modes: Seq<i32>,
    tokens: Seq<i32>,
    positions: Seq<i32>,
    cache_len: Seq<i32>,
) -> bool {
    forall|m: &[i32], t: &[i32], p: &[i32], n: &[i32]|
        m@ == modes && t@ == tokens && p@ == positions && n@ == cache_len ==> #[trigger]
        call_requires(run, (e.b_max as i32, m, t, p, n, e.vocab as i32))
}

/// The outcome of a native decode of a batch.
pub open spec fn is_batch_result<
    R: Fn(i32, &[i32], &[i32], &[i32], &[i32], i32) -> (i32, Vec<u32>),
>(
    run: R,
    e: IreeRaggedLlama,
    entry: Seq<char>,
    modes: Seq<i32>,
    tokens: Seq<i32>,
    positions: Seq<i32>,
    cache_len: Seq<i32>,
    r: Result<Vec<u32>, String>,
) -> bool {
    exists|m: &[i32], t: &[i32], p: &[i32], n: &[i32], out: (i32, Vec<u32>)| #[trigger]
        call_ensures(run, (e.b_max as i32, m, t, p, n, e.vocab as i32), out) && m@ == modes && t@
            == tokens && p@ == positions && n@ == cache_len && is_call_result(entry, out, r)
}

impl IreeRaggedLlama {
    fn load_inner(
        cfg: RuntimeConfig,
        n_weights: usize,
        b_max: usize,
        layout: Option<Gemma3nDiagnosticLayout>,
    ) -> (r: Result<Self, String>)
        ensures
            match r {
                Ok(e) => ragged_error(cfg, n_weights, b_max) is None && is_engine_of(
                    e,
                    cfg,
                    b_max,
                    layout,
                ),
                Err(message) => ragged_error(cfg, n_weights, b_max) == Some(message@),
            },
    {
        match runtime_ffi_dimensions(&cfg, n_weights) {
            Ok(_) => {},
            Err(message) => return Err(message),
        }
        match checked_ffi_int(b_max, "b_max") {
            Ok(_) => {},
            Err(message) => return Err(message),
        }
        if b_max != 4 && b_max != 8 {
            return Err(
                "the OpenXLA serve worker selects B_max from [4, 8]; ".to_owned().concat(
                    &size_text(b_max),
                ).concat(" is not one of them"),
            );
        }
        let vocab = cfg.vocab();
        let context_capacity = cfg.context_capacity();
        let hidden_size = cfg.hidden();
        let has_adapter_modes = cfg.has_adapter_modes();
        let model_layers = cfg.n_layers();
        let dense_ple_shape = cfg.dense_ple_shape();
        let position_mode = cfg.position_mode();
        let deepstack_schema = match cfg {
            RuntimeConfig::Dense(config) => config.deepstack,
            RuntimeConfig::Gemma3n(_) => None,
        };
        Ok(
            IreeRaggedLlama {
                b_max,
                vocab,
                context_capacity,
                hidden_size,
                has_adapter_modes,
                model_layers,
                dense_ple_shape,
                position_mode,
                deepstack_schema,
                diagnostic_layout: layout,
            },
        )
    }

    /// The engine of a configuration with so many weights and slots.
    pub fn load(cfg: RuntimeConfig, n_weights: usize, b_max: usize) -> (r: Result<Self, String>)
        ensures
            match r {
                Ok(e) => ragged_error(cfg, n_weights, b_max) is None && is_engine_of(
                    e,
                    cfg,
                    b_max,
                    None,
                ),
                Err(message) => ragged_error(cfg, n_weights, b_max) == Some(message@),
            },
    {
        Self::load_inner(cfg, n_weights, b_max, None)
    }

    /// The engine with the module that captures a prompt's stages.
    pub fn load_with_diagnostics(
        cfg: RuntimeConfig,
        n_weights: usize,
        b_max: usize,
        layout: Gemma3nDiagnosticLayout,
    ) -> (r: Result<Self, String>)
        ensures
            match r {
                Ok(e) => diagnostics_error(cfg, n_weights, b_max, layout) is None && is_engine_of(
                    e,
                    cfg,
                    b_max,
                    Some(layout),
                ),
                Err(message) => diagnostics_error(cfg, n_weights, b_max, layout) == Some(message@),
            },
    {
        let gemma = match &cfg {
            RuntimeConfig::Gemma3n(_) => true,
            RuntimeConfig::Dense(_) => false,
        };
        let complaint = match &layout.complaint {
            Some(message) => Some(message.clone()),
            None => None,
        };
        let engine = match Self::load_inner(cfg, n_weights, b_max, Some(layout)) {
            Ok(engine) => engine,
            Err(message) => return Err(message),
        };
        if !gemma {
            return Err(MSG_NEEDS_GEMMA3N.to_owned());
        }
        match complaint {
            Some(message) => Err(message),
            None => Ok(engine),
        }
    }

    /// The engine with the module that captures every layer.
    pub fn load_with_all_layer_diagnostics(
        cfg: RuntimeConfig,
        n_weights: usize,
        b_max: usize,
        layout: Gemma3nDiagnosticLayout,
    ) -> (r: Result<Self, String>)
        ensures
            match r {
                Ok(e) => diagnostics_error(cfg, n_weights, b_max, layout) is None && is_engine_of(
                    e,
                    cfg,
                    b_max,
                    Some(layout),
                ),
                Err(message) => diagnostics_error(cfg, n_weights, b_max, layout) == Some(message@),
            },
    {
        Self::load_with_diagnostics(cfg, n_weights, b_max, layout)
    }

    /// The fixed slot count.
    pub fn b_max(&self) -> (r: usize)
        ensures
            r == self.b_max,
    {
        self.b_max
    }

    /// Logits per row.
    pub fn vocab(&self) -> (r: usize)
        ensures
            r == self.vocab,
    {
        self.vocab
    }

    /// Static sequence capacity of the bundle.
    pub fn context_capacity(&self) -> (r: usize)
        ensures
            r == self.context_capacity,
    {
        self.context_capacity
    }

    /// Hidden width of the embeddings entry.
    pub fn hidden_size(&self) -> (r: usize)
        ensures
            r == self.hidden_size,
    {
        self.hidden_size
    }

    /// Decoder layers of the model.
    pub fn model_layers(&self) -> (r: usize)
        ensures
            r == self.model_layers,
    {
        self.model_layers
    }

    pub fn position_mode(&self) -> (r: PreparedPositionMode)
        ensures
            r == self.position_mode,
    {
        self.position_mode
    }

    /// Release all slots before an independent capture.
    pub fn reset_slots_for_diagnostics<R: Fn(i32) -> i32>(&self, run: &R) -> (r: Result<
        (),
        String,
    >)
        requires
            narrow_error(self.b_max as int, "b_max"@) is None ==> call_requires(
                *run,
                (self.b_max as i32,),
            ),
        ensures
            match narrow_error(self.b_max as int, "b_max"@) {
                Some(error) => r matches Err(message) && message@ == error,
                None => exists|status: i32| #[trigger]
                    call_ensures(*run, (self.b_max as i32,), status) && is_call_result(
                        "xla_llama_ragged_reset"@,
                        (status, ()),
                        r,
                    ),
            },
    {
        let b_max = match checked_ffi_int(self.b_max, "b_max") {
            Ok(n) => n,
            Err(message) => return Err(message),
        };
        let status = run(b_max);
        assert(call_ensures(*run, (self.b_max as i32,), status));
        finish_call("xla_llama_ragged_reset", status, ())
    }

    /// The schema that sparse additions have to follow.
    pub fn prepare_deepstack(&self) -> (r: Result<&DeepStackConfig, String>)
        ensures
            match self.deepstack_schema {
                Some(schema) => r == Ok::<&DeepStackConfig, String>(&schema),
                None => r matches Err(message) && message@ == MSG_NO_DEEPSTACK@,
            },
    {
        match &self.deepstack_schema {
            Some(schema) => Ok(schema),
            None => Err(MSG_NO_DEEPSTACK.to_owned()),
        }
    }

    /// Check the shape of dense per-layer embeddings.
    pub fn validate_gemma3n_dense_ple(&self, dense_ple: &Gemma3nDensePle) -> (r: Result<
        (),
        String,
    >)
        ensures
            reports(
                r,
                match self.dense_ple_shape {
                    None => Some(MSG_PLE_NOT_GEMMA3N@),
                    Some(expected) => ple_shape_error(dense_ple.shape@, expected@),
                },
            ),
    {
        match &self.dense_ple_shape {
            None => Err(MSG_PLE_NOT_GEMMA3N.to_owned()),
            Some(expected) => if same_shape(&dense_ple.shape, expected) {
                Ok(())
            } else {
                Err(ple_shape_text(&dense_ple.shape, expected))
            },
        }
    }

    /// The layout of the diagnostic module.
    pub fn diagnostic_layout(&self) -> (r: Result<&Gemma3nDiagnosticLayout, String>)
        ensures
            match self.diagnostic_layout {
                Some(layout) => r == Ok::<&Gemma3nDiagnosticLayout, String>(&layout),
                None => r matches Err(message) && message@ == MSG_NO_DIAGNOSTICS@,
            },
    {
        match &self.diagnostic_layout {
            Some(layout) => Ok(layout),
            None => Err(MSG_NO_DIAGNOSTICS.to_owned()),
        }
    }

    /// Complaint about a captured prompt.
    pub open spec fn capture_error(
        &self,
        slot: usize,
        len: nat,
        positions: Result<Vec<i32>, String>,
    ) -> Option<Seq<char>> {
        first_error(
            slot_error(slot, self.b_max),
            if len == 0 || len > self.context_capacity {
                Some(
                    "diagnostic prompt length "@ + dec(len) + " is outside 1..="@ + dec(
                        self.context_capacity as nat,
                    ),
                )
            } else {
                match self.diagnostic_layout {
                    None => Some(MSG_NO_DIAGNOSTICS@),
                    Some(layout) => match layout.complaint {
                        Some(message) => Some(message@),
                        None => first_error(
                            narrow_error(slot as int, "slot"@),
                            first_error(
                                token_prompt_error(
                                    len,
                                    self.context_capacity,
                                    "cannot build text-only diagnostic positions: "@,
                                    positions,
                                ),
                                if layout.total_len > i32::MAX {
                                    Some(MSG_DIAGNOSTIC_LENGTH@)
                                } else {
                                    None
                                },
                            ),
                        ),
                    },
                }
            },
        )
    }

    /// Run a prompt through the diagnostic module; `run` takes the slot, the prompt and
    /// the output length.
    pub fn prefill_diagnostics_slot<R: Fn(i32, &TokenPrompt, i32) -> (i32, Vec<u32>)>(
        &self,
        slot: usize,
        prompt: &[i32],
        positions: Result<Vec<i32>, String>,
        run: &R,
    ) -> (r: Result<Vec<u32>, String>)
        requires
            self.capture_error(slot, prompt@.len(), positions) is None ==> forall|p: &TokenPrompt|
                is_token_prompt(*p, prompt@, self.context_capacity, positions) ==> #[trigger]
                call_requires(
                    *run,
                    (slot as i32, p, self.diagnostic_layout.unwrap().total_len as i32),
                ),
        ensures
            match self.capture_error(slot, prompt@.len(), positions) {
                Some(error) => r matches Err(message) && message@ == error,
                None => exists|p: TokenPrompt, out: (i32, Vec<u32>)| #[trigger]
                    call_ensures(
                        *run,
                        (slot as i32, &p, self.diagnostic_layout.unwrap().total_len as i32),
                        out,
                    ) && is_token_prompt(p, prompt@, self.context_capacity, positions)
                        && is_call_result("xla_llama_prefill_diagnostics_slot"@, out, r),
            },
    {
        match validate_slot(slot, self.b_max) {
            Ok(_) => {},
            Err(message) => return Err(message),
        }
        if prompt.len() == 0 || prompt.len() > self.context_capacity {
            return Err(
                "diagnostic prompt length ".to_owned().concat(&size_text(prompt.len())).concat(
                    " is outside 1..=",
                ).concat(&size_text(self.context_capacity)),
            );
        }
        let layout = match self.diagnostic_layout() {
            Ok(layout) => layout,
            Err(message) => return Err(message),
        };
        if let Some(message) = &layout.complaint {
            return Err(message.clone());
        }
        let place = match checked_ffi_int(slot, "slot") {
            Ok(n) => n,
            Err(message) => return Err(message),
        };
        let p = match token_prompt(
            prompt,
            self.context_capacity,
            "cannot build text-only diagnostic positions: ",
            positions,
        ) {
            Ok(p) => p,
            Err(message) => return Err(message),
        };
        if layout.total_len > i32::MAX as usize {
            return Err(MSG_DIAGNOSTIC_LENGTH.to_owned());
        }
        let length: i32 = layout.total_len as i32;
        let out = run(place, &p, length);
        assert(call_ensures(
            *run,
            (slot as i32, &p, self.diagnostic_layout.unwrap().total_len as i32),
            out,
        ));
        finish_call("xla_llama_prefill_diagnostics_slot", out.0, out.1)
    }

    /// Complaint about a prompt of tokens for a slot.
    pub open spec fn seed_error(
        &self,
        slot: usize,
        len: nat,
        positions: Result<Vec<i32>, String>,
    ) -> Option<Seq<char>> {
        first_error(
            slot_error(slot, self.b_max),
            if len == 0 {
                Some(MSG_EMPTY_SLOT@)
            } else if len > self.context_capacity {
                Some(
                    "prompt of "@ + dec(len) + " exceeds context_capacity="@ + dec(
                        self.context_capacity as nat,
                    ),
                )
            } else {
                first_error(
                    narrow_error(slot as int, "slot"@),
                    first_error(
                        narrow_error(self.context_capacity as int, "context_capacity"@),
                        first_error(
                            narrow_error(len as int, "prompt length"@),
                            first_error(
                                narrow_error(self.vocab as int, "vocab_size"@),
                                token_prompt_error(
                                    len,
                                    self.context_capacity,
                                    "cannot build text-only slot positions: "@,
                                    positions,
                                ),
                            ),
                        ),
                    ),
                )
            },
        )
    }

    /// Seed a slot with a prompt of tokens and return the logits of its first token; the
    /// other slots stay as they are. `run` takes the slot, the prompt and the vocabulary.
    pub fn prefill_slot_logits<R: Fn(i32, &TokenPrompt, i32) -> (i32, Vec<u32>)>(
        &self,
        slot: usize,
        prompt: &[i32],
        positions: Result<Vec<i32>, String>,
        run: &R,
    ) -> (r: Result<Vec<u32>, String>)
        requires
            self.seed_error(slot, prompt@.len(), positions) is None ==> forall|p: &TokenPrompt|
                is_token_prompt(*p, prompt@, self.context_capacity, positions) ==> #[trigger]
                call_requires(*run, (slot as i32, p, self.vocab as i32)),
        ensures
            match self.seed_error(slot, prompt@.len(), positions) {
                Some(error) => r matches Err(message) && message@ == error,
                None => exists|p: TokenPrompt, out: (i32, Vec<u32>)| #[trigger]
                    call_ensures(*run, (slot as i32, &p, self.vocab as i32), out)
                        && is_token_prompt(p, prompt@, self.context_capacity, positions)
                        && is_call_result("xla_llama_prefill_slot_logits"@, out, r),
            },
    {
        match validate_slot(slot, self.b_max) {
            Ok(_) => {},
            Err(message) => return Err(message),
        }
        if prompt.len() == 0 {
            return Err(MSG_EMPTY_SLOT.to_owned());
        }
        if prompt.len() > self.context_capacity {
            return Err(
                "prompt of ".to_owned().concat(&size_text(prompt.len())).concat(
                    " exceeds context_capacity=",
                ).concat(&size_text(self.context_capacity)),
            );
        }
        let place = match checked_ffi_int(slot, "slot") {
            Ok(n) => n,
            Err(message) => return Err(message),
        };
        match checked_ffi_int(self.context_capacity, "context_capacity") {
            Ok(_) => {},
            Err(message) => return Err(message),
        }
        match checked_ffi_int(prompt.len(), "prompt length") {
            Ok(_) => {},
            Err(message) => return Err(message),
        }
        let vocab = match checked_ffi_int(self.vocab, "vocab_size") {
            Ok(n) => n,
            Err(message) => return Err(message),
        };
        let p = match token_prompt(
            prompt,
            self.context_capacity,
            "cannot build text-only slot positions: ",
            positions,
        ) {
            Ok(p) => p,
            Err(message) => return Err(message),
        };
        let out = run(place, &p, vocab);
        assert(call_ensures(*run, (slot as i32, &p, self.vocab as i32), out));
        finish_call("xla_llama_prefill_slot_logits", out.0, out.1)
    }

    /// A prepared prompt fits the bundle.
    pub open spec fn takes(&self, p: PreparedIreePrefill) -> bool {
        &&& p.hidden_size == self.hidden_size
        &&& p.context_capacity == self.context_capacity
        &&& 0 < p.effective_len <= self.context_capacity
        &&& p.positions.mode == self.position_mode
    }

    fn check_payload(&self, p: &PreparedIreePrefill) -> (r: bool)
        ensures
            r == self.takes(*p),
    {
        p.hidden_size == self.hidden_size && p.context_capacity == self.context_capacity
            && p.effective_len != 0 && p.effective_len <= self.context_capacity
            && p.positions.mode == self.position_mode
    }

    /// Complaint about a prepared prompt for a slot.
    pub open spec fn payload_error(&self, slot: usize, p: PreparedIreePrefill) -> Option<Seq<char>> {
        first_error(
            slot_error(slot, self.b_max),
            if !self.takes(p) {
                Some(MSG_PREPARED@)
            } else if !self.has_adapter_modes && p.adapter_mode != 0 {
                Some(MSG_ADAPTER@)
            } else {
                None
            },
        )
    }

    fn check_prepared(&self, slot: usize, p: &PreparedIreePrefill) -> (r: Result<(), String>)
        ensures
            reports(r, self.payload_error(slot, *p)),
    {
        match validate_slot(slot, self.b_max) {
            Ok(_) => {},
            Err(message) => return Err(message),
        }
        if !self.check_payload(p) {
            return Err(MSG_PREPARED.to_owned());
        }
        if !self.has_adapter_modes && p.adapter_mode != 0 {
            return Err(MSG_ADAPTER.to_owned());
        }
        Ok(())
    }

    /// Complaint about seeding a slot with a prepared prompt.
    pub open spec fn prepared_error(&self, slot: usize, p: PreparedIreePrefill) -> Option<
        Seq<char>,
    > {
        if self.dense_ple_shape is Some {
            Some(MSG_NEEDS_PLE@)
        } else {
            first_error(
                self.payload_error(slot, p),
                first_error(
                    prompt_error(p),
                    first_error(
                        if p.effective_len > i32::MAX {
                            Some(MSG_LENGTH@)
                        } else {
                            None
                        },
                        first_error(
                            narrow_error(slot as int, "slot"@),
                            narrow_error(self.vocab as int, "vocab_size"@),
                        ),
                    ),
                ),
            )
        }
    }

    /// Seed a slot with a prepared prompt and return the logits of its first token. `run`
    /// takes the slot, the descriptors, the payload and the vocabulary.
    pub fn prefill_prepared_slot_logits<
        R: Fn(i32, &PromptDescriptors, &PreparedIreePrefill, i32) -> (i32, Vec<u32>),
    >(&self, slot: usize, prepared: &PreparedIreePrefill, run: &R) -> (r: Result<
        Vec<u32>,
        String,
    >)
        requires
            self.prepared_error(slot, *prepared) is None ==> forall|d: &PromptDescriptors|
                are_prompt_descriptors(*prepared, *d) ==> #[trigger] call_requires(
                    *run,
                    (slot as i32, d, prepared, self.vocab as i32),
                ),
        ensures
            match self.prepared_error(slot, *prepared) {
                Some(error) => r matches Err(message) && message@ == error,
                None => exists|d: PromptDescriptors, out: (i32, Vec<u32>)| #[trigger]
                    call_ensures(*run, (slot as i32, &d, prepared, self.vocab as i32), out)
                        && are_prompt_descriptors(*prepared, d) && is_call_result(
                        "xla_llama_prefill_embeddings_slot_logits"@,
                        out,
                        r,
                    ),
            },
    {
        if self.dense_ple_shape.is_some() {
            return Err(MSG_NEEDS_PLE.to_owned());
        }
        match self.check_prepared(slot, prepared) {
            Ok(_) => {},
            Err(message) => return Err(message),
        }
        let d = match prepared_descriptors(prepared) {
            Ok(d) => d,
            Err(message) => return Err(message),
        };
        if prepared.effective_len > i32::MAX as usize {
            return Err(MSG_LENGTH.to_owned());
        }
        let place = match checked_ffi_int(slot, "slot") {
            Ok(n) => n,
            Err(message) => return Err(message),
        };
        let vocab = match checked_ffi_int(self.vocab, "vocab_size") {
            Ok(n) => n,
            Err(message) => return Err(message),
        };
        let out = run(place, &d, prepared, vocab);
        assert(call_ensures(*run, (slot as i32, &d, prepared, self.vocab as i32), out));
        finish_call("xla_llama_prefill_embeddings_slot_logits", out.0, out.1)
    }

    /// Complaint about capturing cache rows of a prepared prompt.
    pub open spec fn rows_capture_error(
        &self,
        slot: usize,
        p: PreparedIreePrefill,
        kv_width: usize,
    ) -> Option<Seq<char>> {
        if self.dense_ple_shape is Some {
            Some(MSG_ORDINARY_ENTRY@)
        } else {
            first_error(
                self.payload_error(slot, p),
                if kv_width == 0 {
                    Some(MSG_NO_WIDTH@)
                } else {
                    first_error(
                        prompt_error(p),
                        first_error(
                            narrow_error(p.effective_len as int, "prepared effective length"@),
                            first_error(
                                narrow_error(slot as int, "slot"@),
                                first_error(
                                    narrow_error(self.vocab as int, "vocab_size"@),
                                    first_error(
                                        narrow_error(kv_width as int, "diagnostic KV width"@),
                                        if self.model_layers * 2 > usize::MAX || self.model_layers
                                            * 2 * kv_width > usize::MAX {
                                            Some(MSG_KV_OVERFLOW@)
                                        } else {
                                            None
                                        },
                                    ),
                                ),
                            ),
                        ),
                    )
                },
            )
        }
    }

    /// Seed a slot with a prepared prompt and read selected rows of its cache. `run` takes
    /// the slot, the descriptors, the payload, the vocabulary and the row width, and
    /// returns the logits and the rows.
    pub fn prefill_prepared_slot_diagnostics<
        R: Fn(i32, &PromptDescriptors, &PreparedIreePrefill, i32, i32) -> (
            i32,
            (Vec<u32>, Vec<u32>),
        ),
    >(&self, slot: usize, prepared: &PreparedIreePrefill, kv_width: usize, run: &R) -> (r: Result<
        PreparedPrefillDiagnostics,
        String,
    >)
        requires
            self.rows_capture_error(slot, *prepared, kv_width) is None ==> forall|
                d: &PromptDescriptors,
            |
                are_prompt_descriptors(*prepared, *d) ==> #[trigger] call_requires(
                    *run,
                    (slot as i32, d, prepared, self.vocab as i32, kv_width as i32),
                ),
        ensures
            match self.rows_capture_error(slot, *prepared, kv_width) {
                Some(error) => r matches Err(message) && message@ == error,
                None => exists|d: PromptDescriptors, out: (i32, (Vec<u32>, Vec<u32>))| #[trigger]
                    call_ensures(
                        *run,
                        (slot as i32, &d, prepared, self.vocab as i32, kv_width as i32),
                        out,
                    ) && are_prompt_descriptors(*prepared, d) && is_call_result(
                        "xla_llama_prefill_embeddings_slot_diagnostics"@,
                        out,
                        match r {
                            Ok(rows) => Ok((rows.logits, rows.kv)),
                            Err(message) => Err(message),
                        },
                    ) && (r matches Ok(rows) ==> rows.layers == self.model_layers && rows.kv_width
                        == kv_width),
            },
    {
        if self.dense_ple_shape.is_some() {
            return Err(MSG_ORDINARY_ENTRY.to_owned());
        }
        match self.check_prepared(slot, prepared) {
            Ok(_) => {},
            Err(message) => return Err(message),
        }
        if kv_width == 0 {
            return Err(MSG_NO_WIDTH.to_owned());
        }
        let d = match prepared_descriptors(prepared) {
            Ok(d) => d,
            Err(message) => return Err(message),
        };
        match checked_ffi_int(prepared.effective_len, "prepared effective length") {
            Ok(_) => {},
            Err(message) => return Err(message),
        }
        let place = match checked_ffi_int(slot, "slot") {
            Ok(n) => n,
            Err(message) => return Err(message),
        };
        let vocab = match checked_ffi_int(self.vocab, "vocab_size") {
            Ok(n) => n,
            Err(message) => return Err(message),
        };
        let width = match checked_ffi_int(kv_width, "diagnostic KV width") {
            Ok(n) => n,
            Err(message) => return Err(message),
        };
        let layers = self.model_layers();
        let doubled: usize = match layers.checked_mul(2) {
            Some(n) => n,
            None => return Err(MSG_KV_OVERFLOW.to_owned()),
        };
        if doubled.checked_mul(kv_width).is_none() {
            return Err(MSG_KV_OVERFLOW.to_owned());
        }
        let out = run(place, &d, prepared, vocab, width);
        assert(call_ensures(
            *run,
            (slot as i32, &d, prepared, self.vocab as i32, kv_width as i32),
            out,
        ));
        match finish_call("xla_llama_prefill_embeddings_slot_diagnostics", out.0, out.1) {
            Ok((logits, kv)) => Ok(PreparedPrefillDiagnostics { logits, kv, layers, kv_width }),
            Err(message) => Err(message),
        }
    }

    /// Complaint about seeding a slot with sparse additions.
    pub open spec fn stacked_error(
        &self,
        slot: usize,
        p: PreparedIreePrefill,
        s: PreparedDeepStack,
    ) -> Option<Seq<char>> {
        match self.deepstack_schema {
            None => Some(MSG_NO_DEEPSTACK@),
            Some(schema) => first_error(
                slot_error(slot, self.b_max),
                if !(self.takes(p) && s.hidden_size == self.hidden_size && s.max_layer_count
                    == schema.target_layer_indices@.len() && s.max_visual_count
                    == schema.max_visual_positions) {
                    Some(MSG_DEEPSTACK_PREPARED@)
                } else {
                    first_error(
                        prompt_error(p),
                        first_error(
                            stack_error(s),
                            first_error(
                                narrow_error(slot as int, "slot"@),
                                first_error(
                                    stack_counts_error(p, s),
                                    narrow_error(self.vocab as int, "vocab_size"@),
                                ),
                            ),
                        ),
                    )
                },
            ),
        }
    }

    /// Seed a slot with a prepared prompt and sparse additions.
    pub fn prefill_deepstack_prepared_slot_logits<
        R: Fn(
            i32,
            &PromptDescriptors,
            &PreparedIreePrefill,
            &DeepStackDescriptors,
            &PreparedDeepStack,
            i32,
        ) -> (i32, Vec<u32>),
    >(
        &self,
        slot: usize,
        prepared: &PreparedIreePrefill,
        deepstack: &PreparedDeepStack,
        run: &R,
    ) -> (r: Result<Vec<u32>, String>)
        requires
            self.stacked_error(slot, *prepared, *deepstack) is None ==> forall|
                d: &PromptDescriptors,
                e: &DeepStackDescriptors,
            |
                are_prompt_descriptors(*prepared, *d) && are_stack_descriptors(*deepstack, *e)
                    ==> #[trigger] call_requires(
                    *run,
                    (slot as i32, d, prepared, e, deepstack, self.vocab as i32),
                ),
        ensures
            match self.stacked_error(slot, *prepared, *deepstack) {
                Some(error) => r matches Err(message) && message@ == error,
                None => exists|d: PromptDescriptors, e: DeepStackDescriptors, out: (i32, Vec<u32>)|
                    #[trigger]
                    call_ensures(
                        *run,
                        (slot as i32, &d, prepared, &e, deepstack, self.vocab as i32),
                        out,
                    ) && are_prompt_descriptors(*prepared, d) && are_stack_descriptors(
                        *deepstack,
                        e,
                    ) && is_call_result(
                        "xla_llama_prefill_embeddings_deepstack_slot_logits"@,
                        out,
                        r,
                    ),
            },
    {
        let schema = match &self.deepstack_schema {
            Some(schema) => schema,
            None => return Err(MSG_NO_DEEPSTACK.to_owned()),
        };
        match validate_slot(slot, self.b_max) {
            Ok(_) => {},
            Err(message) => return Err(message),
        }
        if !self.check_payload(prepared) || deepstack.hidden_size != self.hidden_size
            || deepstack.max_layer_count != schema.target_layer_indices.len()
            || deepstack.max_visual_count != schema.max_visual_positions {
            return Err(MSG_DEEPSTACK_PREPARED.to_owned());
        }
        let d = match prepared_descriptors(prepared) {
            Ok(d) => d,
            Err(message) => return Err(message),
        };
        let e = match deepstack_descriptors(deepstack) {
            Ok(e) => e,
            Err(message) => return Err(message),
        };
        let place = match checked_ffi_int(slot, "slot") {
            Ok(n) => n,
            Err(message) => return Err(message),
        };
        match check_stack_counts(prepared, deepstack) {
            Ok(_) => {},
            Err(message) => return Err(message),
        }
        let vocab = match checked_ffi_int(self.vocab, "vocab_size") {
            Ok(n) => n,
            Err(message) => return Err(message),
        };
        let out = run(place, &d, prepared, &e, deepstack, vocab);
        assert(call_ensures(
            *run,
            (slot as i32, &d, prepared, &e, deepstack, self.vocab as i32),
            out,
        ));
        finish_call("xla_llama_prefill_embeddings_deepstack_slot_logits", out.0, out.1)
    }

    /// Complaint about seeding a slot with a Gemma3n prompt.
    pub open spec fn gemma3n_error(
        &self,
        slot: usize,
        p: PreparedIreePrefill,
        ple: Gemma3nDensePle,
    ) -> Option<Seq<char>> {
        first_error(
            slot_error(slot, self.b_max),
            match self.dense_ple_shape {
                None => Some(MSG_NOT_GEMMA3N@),
                Some(expected) => if ple.shape@ != expected@ || p.hidden_size != self.hidden_size
                    || p.context_capacity != self.context_capacity || p.effective_len == 0
                    || p.effective_len > self.context_capacity {
                    Some(MSG_GEMMA3N_PREPARED@)
                } else {
                    first_error(
                        prompt_error(p),
                        first_error(
                            descriptor_error(ple.values@.len() as usize, 4, ple.shape@),
                            first_error(
                                if p.effective_len > i32::MAX {
                                    Some(MSG_LENGTH@)
                                } else {
                                    None
                                },
                                first_error(
                                    narrow_error(slot as int, "slot"@),
                                    narrow_error(self.vocab as int, "vocab_size"@),
                                ),
                            ),
                        ),
                    )
                },
            },
        )
    }

    /// Seed a slot with a Gemma3n prompt.
    pub fn prefill_gemma3n_prepared_slot_logits<
        R: Fn(
            i32,
            &PromptDescriptors,
            &PreparedIreePrefill,
            &XlaTensorDesc,
            &Gemma3nDensePle,
            i32,
        ) -> (i32, Vec<u32>),
    >(
        &self,
        slot: usize,
        prepared: &PreparedIreePrefill,
        dense_ple: &Gemma3nDensePle,
        run: &R,
    ) -> (r: Result<Vec<u32>, String>)
        requires
            self.gemma3n_error(slot, *prepared, *dense_ple) is None ==> forall|
                d: &PromptDescriptors,
                e: &XlaTensorDesc,
            |
                are_prompt_descriptors(*prepared, *d) && is_descriptor(
                    *e,
                    dense_ple.values@.len() as usize,
                    4,
                    TENSOR_F32,
                    dense_ple.shape@,
                ) ==> #[trigger] call_requires(
                    *run,
                    (slot as i32, d, prepared, e, dense_ple, self.vocab as i32),
                ),
        ensures
            match self.gemma3n_error(slot, *prepared, *dense_ple) {
                Some(error) => r matches Err(message) && message@ == error,
                None => exists|d: PromptDescriptors, e: XlaTensorDesc, out: (i32, Vec<u32>)|
                    #[trigger]
                    call_ensures(
                        *run,
                        (slot as i32, &d, prepared, &e, dense_ple, self.vocab as i32),
                        out,
                    ) && are_prompt_descriptors(*prepared, d) && is_descriptor(
                        e,
                        dense_ple.values@.len() as usize,
                        4,
                        TENSOR_F32,
                        dense_ple.shape@,
                    ) && is_call_result("xla_llama_prefill_embeddings_ple_slot_logits"@, out, r),
            },
    {
        match validate_slot(slot, self.b_max) {
            Ok(_) => {},
            Err(message) => return Err(message),
        }
        let expected = match self.dense_ple_shape {
            Some(expected) => expected,
            None => return Err(MSG_NOT_GEMMA3N.to_owned()),
        };
        if !same_shape(&dense_ple.shape, &expected) || prepared.hidden_size != self.hidden_size
            || prepared.context_capacity != self.context_capacity || prepared.effective_len == 0
            || prepared.effective_len > self.context_capacity {
            return Err(MSG_GEMMA3N_PREPARED.to_owned());
        }
        let d = match prepared_descriptors(prepared) {
            Ok(d) => d,
            Err(message) => return Err(message),
        };
        let e = match dense_ple_descriptor(dense_ple) {
            Ok(e) => e,
            Err(message) => return Err(message),
        };
        if prepared.effective_len > i32::MAX as usize {
            return Err(MSG_LENGTH.to_owned());
        }
        let place = match checked_ffi_int(slot, "slot") {
            Ok(n) => n,
            Err(message) => return Err(message),
        };
        let vocab = match checked_ffi_int(self.vocab, "vocab_size") {
            Ok(n) => n,
            Err(message) => return Err(message),
        };
        let out = run(place, &d, prepared, &e, dense_ple, vocab);
        assert(call_ensures(
            *run,
            (slot as i32, &d, prepared, &e, dense_ple, self.vocab as i32),
            out,
        ));
        finish_call("xla_llama_prefill_embeddings_ple_slot_logits", out.0, out.1)
    }

    /// Complaint about a decode of the batch.
    pub open spec fn batch_step_error(
        &self,
        modes: Seq<i32>,
        tokens: Seq<i32>,
        pos: Seq<i32>,
        cache_len: Seq<i32>,
    ) -> Option<Seq<char>> {
        if self.position_mode != PreparedPositionMode::OneD {
            Some(MSG_NEEDS_ONE_D@)
        } else {
            first_error(
                lengths_error(
                    self.b_max,
                    "decode_ragged_logits"@,
                    seq![modes.len(), tokens.len(), pos.len(), cache_len.len()],
                ),
                first_error(
                    modes_error(modes, self.has_adapter_modes, 0),
                    first_error(
                        rows_error(pos, cache_len, self.context_capacity, 0),
                        batch_sizes_error(self.b_max, self.vocab),
                    ),
                ),
            )
        }
    }

    fn lengths_text(&self, entry: &str) -> (r: String)
        ensures
            r@ == entry@ + " expects adapter/token/position/cache arrays of length b_max = "@ + dec(
                self.b_max as nat,
            ),
    {
        entry.to_owned().concat(
            " expects adapter/token/position/cache arrays of length b_max = ",
        ).concat(&size_text(self.b_max))
    }

    /// Advance every slot by one token, each row in its adapter mode, and return the
    /// logits of all rows. Every row's position is the end of its cache.
    pub fn decode_ragged_logits_with_modes<
        R: Fn(i32, &[i32], &[i32], &[i32], &[i32], i32) -> (i32, Vec<u32>),
    >(
        &self,
        adapter_modes: &[i32],
        tokens: &[i32],
        pos: &[i32],
        cache_len: &[i32],
        run: &R,
    ) -> (r: Result<Vec<u32>, String>)
        requires
            self.batch_step_error(adapter_modes@, tokens@, pos@, cache_len@) is None ==> runs_batch(
                *run,
                *self,
                adapter_modes@,
                tokens@,
                pos@,
                cache_len@,
            ),
        ensures
            match self.batch_step_error(adapter_modes@, tokens@, pos@, cache_len@) {
                Some(error) => r matches Err(message) && message@ == error,
                None => is_batch_result(
                    *run,
                    *self,
                    "xla_llama_decode_ragged_logits"@,
                    adapter_modes@,
                    tokens@,
                    pos@,
                    cache_len@,
                    r,
                ),
            },
    {
        if self.position_mode != PreparedPositionMode::OneD {
            return Err(MSG_NEEDS_ONE_D.to_owned());
        }
        let ghost lens = seq![
            adapter_modes@.len(),
            tokens@.len(),
            pos@.len(),
            cache_len@.len(),
        ];
        assert(lens[0] == adapter_modes@.len() && lens[1] == tokens@.len() && lens[2] == pos@.len()
            && lens[3] == cache_len@.len());
        if adapter_modes.len() != self.b_max || tokens.len() != self.b_max || pos.len()
            != self.b_max || cache_len.len() != self.b_max {
            return Err(self.lengths_text("decode_ragged_logits"));
        }
        match validate_adapter_modes(adapter_modes, self.has_adapter_modes) {
            Ok(_) => {},
            Err(message) => return Err(message),
        }
        match self.check_rows(pos, cache_len) {
            Ok(_) => {},
            Err(message) => return Err(message),
        }
        let b_max = match checked_ffi_int(self.b_max, "b_max") {
            Ok(n) => n,
            Err(message) => return Err(message),
        };
        let vocab = match checked_ffi_int(self.vocab, "vocab_size") {
            Ok(n) => n,
            Err(message) => return Err(message),
        };
        let out = run(b_max, adapter_modes, tokens, pos, cache_len, vocab);
        assert(call_ensures(
            *run,
            (self.b_max as i32, adapter_modes, tokens, pos, cache_len, self.vocab as i32),
            out,
        ));
        finish_call("xla_llama_decode_ragged_logits", out.0, out.1)
    }

    fn check_rows(&self, pos: &[i32], cache_len: &[i32]) -> (r: Result<(), String>)
        requires
            pos@.len() == cache_len@.len(),
        ensures
            reports(r, rows_error(pos@, cache_len@, self.context_capacity, 0)),
    {
        let mut row: usize = 0;
        while row < pos.len()
            invariant
                row <= pos@.len(),
                pos@.len() == cache_len@.len(),
                rows_error(pos@, cache_len@, self.context_capacity, 0) == rows_error(
                    pos@,
                    cache_len@,
                    self.context_capacity,
                    row as int,
                ),
            decreases pos@.len() - row,
        {
            if pos[row] != cache_len[row] || pos[row] < 0 || pos[row] as usize
                >= self.context_capacity {
                return Err(
                    "decode row ".to_owned().concat(&size_text(row)).concat(" has pos=").concat(
                        &int_text(pos[row] as i64),
                    ).concat(" and cache_len=").concat(&int_text(cache_len[row] as i64)).concat(
                        " outside context_capacity=",
                    ).concat(&size_text(self.context_capacity)).concat(" or not equal"),
                );
            }
            row += 1;
        }
        Ok(())
    }

    /// Advance every slot by one token in the language mode.
    pub fn decode_ragged_logits<
        R: Fn(i32, &[i32], &[i32], &[i32], &[i32], i32) -> (i32, Vec<u32>),
    >(&self, tokens: &[i32], pos: &[i32], cache_len: &[i32], run: &R) -> (r: Result<
        Vec<u32>,
        String,
    >)
        requires
            self.batch_step_error(language_row(self.b_max), tokens@, pos@, cache_len@) is None ==> runs_batch(
                *run,
                *self,
                language_row(self.b_max),
                tokens@,
                pos@,
                cache_len@,
            ),
        ensures
            ({
                let modes = language_row(self.b_max);
                match self.batch_step_error(modes, tokens@, pos@, cache_len@) {
                    Some(error) => r matches Err(message) && message@ == error,
                    None => is_batch_result(
                        *run,
                        *self,
                        "xla_llama_decode_ragged_logits"@,
                        modes,
                        tokens@,
                        pos@,
                        cache_len@,
                        r,
                    ),
                }
            }),
    {
        let modes = language_modes(self.b_max);
        self.decode_ragged_logits_with_modes(modes.as_slice(), tokens, pos, cache_len, run)
    }

    /// Complaint about a decode of an M-RoPE batch.
    pub open spec fn mrope_step_error(
        &self,
        modes: Seq<i32>,
        tokens: Seq<i32>,
        positions: Seq<[i32; 3]>,
        cache_len: Seq<i32>,
    ) -> Option<Seq<char>> {
        if self.position_mode != PreparedPositionMode::Mrope3D {
            Some(MSG_NEEDS_MROPE@)
        } else {
            first_error(
                lengths_error(
                    self.b_max,
                    "decode_ragged_mrope_logits"@,
                    seq![modes.len(), tokens.len(), positions.len(), cache_len.len()],
                ),
                first_error(
                    modes_error(modes, self.has_adapter_modes, 0),
                    first_error(
                        mrope_rows_error(positions, cache_len, self.context_capacity, 0),
                        batch_sizes_error(self.b_max, self.vocab),
                    ),
                ),
            )
        }
    }

    fn check_mrope_rows(&self, positions: &[[i32; 3]], cache_len: &[i32]) -> (r: Result<
        (),
        String,
    >)
        requires
            positions@.len() == cache_len@.len(),
        ensures
            reports(r, mrope_rows_error(positions@, cache_len@, self.context_capacity, 0)),
    {
        let mut row: usize = 0;
        while row < cache_len.len()
            invariant
                row <= cache_len@.len(),
                positions@.len() == cache_len@.len(),
                mrope_rows_error(positions@, cache_len@, self.context_capacity, 0)
                    == mrope_rows_error(
                    positions@,
                    cache_len@,
                    self.context_capacity,
                    row as int,
                ),
            decreases cache_len@.len() - row,
        {
            if cache_len[row] < 0 || cache_len[row] as usize >= self.context_capacity {
                return Err(
                    "decode row ".to_owned().concat(&size_text(row)).concat(
                        " has cache_len=",
                    ).concat(&int_text(cache_len[row] as i64)).concat(
                        " outside context_capacity=",
                    ).concat(&size_text(self.context_capacity)),
                );
            }
            let c = &positions[row];
            if c[0] < 0 || c[1] < 0 || c[2] < 0 {
                return Err(
                    "decode row ".to_owned().concat(&size_text(row)).concat(
                        " has negative M-RoPE coordinates ",
                    ).concat(&int_list_text(c)),
                );
            }
            row += 1;
        }
        Ok(())
    }

    /// Advance every slot of an M-RoPE batch by one token, each row in its adapter mode
    /// and at its own coordinates.
    pub fn decode_ragged_mrope_logits_with_modes<
        R: Fn(i32, &[i32], &[i32], &[i32], &[i32], i32) -> (i32, Vec<u32>),
    >(
        &self,
        adapter_modes: &[i32],
        tokens: &[i32],
        positions: &[[i32; 3]],
        cache_len: &[i32],
        run: &R,
    ) -> (r: Result<Vec<u32>, String>)
        requires
            self.mrope_step_error(adapter_modes@, tokens@, positions@, cache_len@) is None ==> runs_batch(
                *run,
                *self,
                adapter_modes@,
                tokens@,
                flat(positions@),
                cache_len@,
            ),
        ensures
            match self.mrope_step_error(adapter_modes@, tokens@, positions@, cache_len@) {
                Some(error) => r matches Err(message) && message@ == error,
                None => is_batch_result(
                    *run,
                    *self,
                    "xla_llama_decode_ragged_mrope_logits"@,
                    adapter_modes@,
                    tokens@,
                    flat(positions@),
                    cache_len@,
                    r,
                ),
            },
    {
        if self.position_mode != PreparedPositionMode::Mrope3D {
            return Err(MSG_NEEDS_MROPE.to_owned());
        }
        let ghost lens = seq![
            adapter_modes@.len(),
            tokens@.len(),
            positions@.len(),
            cache_len@.len(),
        ];
        assert(lens[0] == adapter_modes@.len() && lens[1] == tokens@.len() && lens[2]
            == positions@.len() && lens[3] == cache_len@.len());
        if adapter_modes.len() != self.b_max || tokens.len() != self.b_max || positions.len()
            != self.b_max || cache_len.len() != self.b_max {
            return Err(self.lengths_text("decode_ragged_mrope_logits"));
        }
        match validate_adapter_modes(adapter_modes, self.has_adapter_modes) {
            Ok(_) => {},
            Err(message) => return Err(message),
        }
        match self.check_mrope_rows(positions, cache_len) {
            Ok(_) => {},
            Err(message) => return Err(message),
        }
        let flat_positions = flatten(positions);
        let b_max = match checked_ffi_int(self.b_max, "b_max") {
            Ok(n) => n,
            Err(message) => return Err(message),
        };
        let vocab = match checked_ffi_int(self.vocab, "vocab_size") {
            Ok(n) => n,
            Err(message) => return Err(message),
        };
        let flat_slice = flat_positions.as_slice();
        let out = run(b_max, adapter_modes, tokens, flat_slice, cache_len, vocab);
        assert(call_ensures(
            *run,
            (self.b_max as i32, adapter_modes, tokens, flat_slice, cache_len, self.vocab as i32),
            out,
        ));
        finish_call("xla_llama_decode_ragged_mrope_logits", out.0, out.1)
    }

    /// Advance every slot of an M-RoPE batch by one token in the language mode.
    pub fn decode_ragged_mrope_logits<
        R: Fn(i32, &[i32], &[i32], &[i32], &[i32], i32) -> (i32, Vec<u32>),
    >(&self, tokens: &[i32], positions: &[[i32; 3]], cache_len: &[i32], run: &R) -> (r: Result<
        Vec<u32>,
        String,
    >)
        requires
            self.mrope_step_error(language_row(self.b_max), tokens@, positions@, cache_len@) is None ==> runs_batch(
                *run,
                *self,
                language_row(self.b_max),
                tokens@,
                flat(positions@),
                cache_len@,
            ),
        ensures
            ({
                let modes = language_row(self.b_max);
                match self.mrope_step_error(modes, tokens@, positions@, cache_len@) {
                    Some(error) => r matches Err(message) && message@ == error,
                    None => is_batch_result(
                        *run,
                        *self,
                        "xla_llama_decode_ragged_mrope_logits"@,
                        modes,
                        tokens@,
                        flat(positions@),
                        cache_len@,
                        r,
                    ),
                }
            }),
    {
        let modes = language_modes(self.b_max);
        self.decode_ragged_mrope_logits_with_modes(
            modes.as_slice(),
            tokens,
            positions,
            cache_len,
            run,
        )
    }
}

/// A loaded engine has a batch size that the serve worker selects, and every size that a
/// call hands over fits the C interface.
pub proof fn law_loaded_engine_fits_the_interface(
    e: IreeRaggedLlama,
    cfg: RuntimeConfig,
    n_weights: usize,
    b_max: usize,
    layout: Option<Gemma3nDiagnosticLayout>,
)
    requires
        ragged_error(cfg, n_weights, b_max) is None,
        is_engine_of(e, cfg, b_max, layout),
    ensures
        is_batch_size(e.b_max),
        batch_sizes_error(e.b_max, e.vocab) is None,
        e.context_capacity <= i32::MAX,
        e.hidden_size <= i32::MAX,
{
}

/// A batch in the language mode is never refused for its adapter modes.
pub proof fn law_language_mode_is_always_accepted(n: nat, supported: bool, from: int)
    ensures
        modes_error(Seq::new(n, |i: int| 0i32), supported, from) is None,
    decreases n - from,
{
    if 0 <= from < n {
        law_language_mode_is_always_accepted(n, supported, from + 1);
    }
}

} // verus!
