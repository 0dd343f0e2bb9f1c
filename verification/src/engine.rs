//! The engines over a compiled model: which calls reach the native runtime, with what,
//! and what becomes of their answers.
//!
//! A native call is a function that the caller passes in. It takes the arguments of the
//! call and returns a status, 0 for success, and the value.
use vstd::prelude::*;

use crate::config::{first_error, reports, DeepStackConfig};
use crate::loader::{checked_ffi_int, narrow_error};
use crate::runtime::{
    descriptor_error, dimensions_error, is_descriptor, runtime_ffi_dimensions, PreparedPositionMode,
    RuntimeConfig, XlaTensorDesc, TENSOR_F32, TENSOR_I32,
};
use crate::text::{dec, dec_int, int_text, list_form, list_text, size_text};

verus! {

pub const MSG_NEEDS_PLE: &'static str =
    "Gemma3n requires the distinct embeddings-plus-dense-PLE prefill entry";

pub const MSG_NO_DEEPSTACK: &'static str =
    "DeepStack prefill was requested from a runtime bundle without that capability";

pub const MSG_NOT_GEMMA3N: &'static str =
    "dense Gemma3n PLE prefill was requested from a non-Gemma3n bundle";

pub const MSG_PLE_NOT_GEMMA3N: &'static str =
    "dense Gemma3n PLE was submitted to a non-Gemma3n runtime bundle";

pub const MSG_ADAPTER: &'static str =
    "prepared adapter mode is incompatible with this runtime bundle";

pub const MSG_LENGTH: &'static str = "prepared effective length does not fit i32";

pub const MSG_PREPARED: &'static str =
    "prepared IREE payload is incompatible with this runtime bundle";

pub const MSG_DEEPSTACK_PREPARED: &'static str =
    "DeepStack prepared payload is incompatible with this runtime bundle";

pub const MSG_GEMMA3N_PREPARED: &'static str =
    "Gemma3n prepared payload is incompatible with this runtime bundle";

pub const MSG_EMPTY_FIRST: &'static str = "prefill_first requires a non-empty prompt";

pub const MSG_EMPTY_SLOT: &'static str = "prefill_slot_logits requires a non-empty prompt";

pub const MSG_NO_DIAGNOSTICS: &'static str = "this runtime bundle has no diagnostic module";

pub const MSG_DIAGNOSTIC_LENGTH: &'static str = "diagnostic output length does not fit c_int";

pub const MSG_ORDINARY_ENTRY: &'static str =
    "LLaVA diagnostics require the ordinary embeddings prefill entry";

pub const MSG_NO_WIDTH: &'static str = "diagnostic KV width must be greater than zero";

pub const MSG_KV_OVERFLOW: &'static str = "diagnostic KV output length overflows";

pub const MSG_NEEDS_ONE_D: &'static str = "1D decode was requested from an M-RoPE runtime bundle";

pub const MSG_NEEDS_MROPE: &'static str = "M-RoPE decode was requested from a 1D runtime bundle";

pub const MSG_NEEDS_GEMMA3N: &'static str =
    "Gemma3n diagnostics require a Gemma3n runtime config";

/// The positions of a prepared prompt.
#[derive(Debug)]
pub struct PreparedPositions {
    pub mode: PreparedPositionMode,
    pub values: Vec<i32>,
    /// What the decode positions add to the cache length.
    pub rope_delta: i32,
}

/// A prompt as embeddings, padded to the capacity of a bundle. Numbers are the bits of
/// single-precision values.
#[derive(Debug)]
pub struct PreparedIreePrefill {
    pub embeddings: Vec<u32>,
    pub positions: PreparedPositions,
    pub attention_bias: Vec<u32>,
    pub hidden_size: usize,
    pub context_capacity: usize,
    pub effective_len: usize,
    pub adapter_mode: i32,
}

/// Sparse additions to the hidden states of some layers, padded to a bundle's schema.
#[derive(Debug)]
pub struct PreparedDeepStack {
    pub visual_positions: Vec<i32>,
    pub layer_features: Vec<u32>,
    pub layer_indices: Vec<i32>,
    pub hidden_size: usize,
    pub max_layer_count: usize,
    pub max_visual_count: usize,
    pub actual_layer_count: usize,
    pub actual_visual_count: usize,
}

/// Gemma3n's dense per-layer embeddings.
#[derive(Debug)]
pub struct Gemma3nDensePle {
    pub shape: [usize; 3],
    pub values: Vec<u32>,
}

/// The layout of a diagnostic module's output.
#[derive(Debug)]
pub struct Gemma3nDiagnosticLayout {
    pub total_len: usize,
    /// What is wrong with the layout, if anything is.
    pub complaint: Option<String>,
}

/// The message of a failed call.
pub open spec fn status_message(entry: Seq<char>, status: int) -> Seq<char> {
    entry + " failed (status "@ + dec_int(status) + ")"@
}

/// The result of a native call: its value exactly when the status is 0.
pub fn finish_call<T>(entry: &str, status: i32, value: T) -> (r: Result<T, String>)
    ensures
        if status == 0 {
            r == Ok::<T, String>(value)
        } else {
            r matches Err(message) && message@ == status_message(entry@, status as int)
        },
{
    if status == 0 {
        Ok(value)
    } else {
        Err(
            entry.to_owned().concat(" failed (status ").concat(&int_text(status as i64)).concat(
                ")",
            ),
        )
    }
}

/// `r` is the result of a native call that answered `out`.
pub open spec fn is_call_result<T>(entry: Seq<char>, out: (i32, T), r: Result<T, String>) -> bool {
    if out.0 == 0 {
        r == Ok::<T, String>(out.1)
    } else {
        r matches Err(message) && message@ == status_message(entry, out.0 as int)
    }
}

/// The descriptors of a prepared prompt.
#[derive(Debug, Clone, Copy, PartialEq, Eq)]
pub struct PromptDescriptors {
    pub embeddings: XlaTensorDesc,
    pub positions: XlaTensorDesc,
    pub attention_bias: XlaTensorDesc,
}

/// The shape of the positions.
pub open spec fn positions_shape(p: PreparedIreePrefill) -> Seq<usize> {
    match p.positions.mode {
        PreparedPositionMode::OneD => seq![p.context_capacity],
        PreparedPositionMode::Mrope3D => seq![3usize, p.context_capacity],
    }
}

/// Complaint about the tensors of a prepared prompt.
pub open spec fn prompt_error(p: PreparedIreePrefill) -> Option<Seq<char>> {
    first_error(
        descriptor_error(
            p.embeddings@.len() as usize,
            4,
            seq![p.context_capacity, p.hidden_size],
        ),
        first_error(
            descriptor_error(p.positions.values@.len() as usize, 4, positions_shape(p)),
            descriptor_error(
                p.attention_bias@.len() as usize,
                4,
                seq![p.context_capacity, p.context_capacity],
            ),
        ),
    )
}

/// `d` describes the tensors of a prepared prompt.
pub open spec fn are_prompt_descriptors(p: PreparedIreePrefill, d: PromptDescriptors) -> bool {
    &&& is_descriptor(
        d.embeddings,
        p.embeddings@.len() as usize,
        4,
        TENSOR_F32,
        seq![p.context_capacity, p.hidden_size],
    )
    &&& is_descriptor(
        d.positions,
        p.positions.values@.len() as usize,
        4,
        TENSOR_I32,
        positions_shape(p),
    )
    &&& is_descriptor(
        d.attention_bias,
        p.attention_bias@.len() as usize,
        4,
        TENSOR_F32,
        seq![p.context_capacity, p.context_capacity],
    )
}

/// Describe the tensors of a prepared prompt.
pub fn prepared_descriptors(prepared: &PreparedIreePrefill) -> (r: Result<
    PromptDescriptors,
    String,
>)
    ensures
        match r {
            Ok(d) => prompt_error(*prepared) is None && are_prompt_descriptors(*prepared, d),
            Err(message) => prompt_error(*prepared) == Some(message@),
        },
{
    let capacity: usize = prepared.context_capacity;
    let shape: [usize; 2] = [capacity, prepared.hidden_size];
    assert(shape@ =~= seq![capacity, prepared.hidden_size]);
    let embeddings = match XlaTensorDesc::of_singles(prepared.embeddings.len(), &shape) {
        Ok(d) => d,
        Err(message) => return Err(message),
    };
    let described = match prepared.positions.mode {
        PreparedPositionMode::OneD => {
            let shape: [usize; 1] = [capacity];
            assert(shape@ =~= seq![capacity]);
            XlaTensorDesc::of_integers(prepared.positions.values.len(), &shape)
        },
        PreparedPositionMode::Mrope3D => {
            let shape: [usize; 2] = [3, capacity];
            assert(shape@ =~= seq![3usize, capacity]);
            XlaTensorDesc::of_integers(prepared.positions.values.len(), &shape)
        },
    };
    let positions = match described {
        Ok(d) => d,
        Err(message) => return Err(message),
    };
    let shape: [usize; 2] = [capacity, capacity];
    assert(shape@ =~= seq![capacity, capacity]);
    let attention_bias = match XlaTensorDesc::of_singles(prepared.attention_bias.len(), &shape) {
        Ok(d) => d,
        Err(message) => return Err(message),
    };
    Ok(PromptDescriptors { embeddings, positions, attention_bias })
}

/// Describe dense per-layer embeddings.
pub fn dense_ple_descriptor(dense_ple: &Gemma3nDensePle) -> (r: Result<XlaTensorDesc, String>)
    ensures
        match r {
            Ok(d) => descriptor_error(
                dense_ple.values@.len() as usize,
                4,
                dense_ple.shape@,
            ) is None && is_descriptor(
                d,
                dense_ple.values@.len() as usize,
                4,
                TENSOR_F32,
                dense_ple.shape@,
            ),
            Err(message) => descriptor_error(
                dense_ple.values@.len() as usize,
                4,
                dense_ple.shape@,
            ) == Some(message@),
        },
{
    XlaTensorDesc::of_singles(dense_ple.values.len(), &dense_ple.shape)
}

/// The descriptors of sparse additions.
#[derive(Debug, Clone, Copy, PartialEq, Eq)]
pub struct DeepStackDescriptors {
    pub visual_positions: XlaTensorDesc,
    pub layer_features: XlaTensorDesc,
    pub layer_indices: XlaTensorDesc,
}

/// Complaint about the tensors of sparse additions.
pub open spec fn stack_error(s: PreparedDeepStack) -> Option<Seq<char>> {
    first_error(
        descriptor_error(s.visual_positions@.len() as usize, 4, seq![s.max_visual_count]),
        first_error(
            descriptor_error(
                s.layer_features@.len() as usize,
                4,
                seq![s.max_layer_count, s.max_visual_count, s.hidden_size],
            ),
            descriptor_error(s.layer_indices@.len() as usize, 4, seq![s.max_layer_count]),
        ),
    )
}

/// `d` describes the tensors of sparse additions.
pub open spec fn are_stack_descriptors(s: PreparedDeepStack, d: DeepStackDescriptors) -> bool {
    &&& is_descriptor(
        d.visual_positions,
        s.visual_positions@.len() as usize,
        4,
        TENSOR_I32,
        seq![s.max_visual_count],
    )
    &&& is_descriptor(
        d.layer_features,
        s.layer_features@.len() as usize,
        4,
        TENSOR_F32,
        seq![s.max_layer_count, s.max_visual_count, s.hidden_size],
    )
    &&& is_descriptor(
        d.layer_indices,
        s.layer_indices@.len() as usize,
        4,
        TENSOR_I32,
        seq![s.max_layer_count],
    )
}

/// Describe the tensors of sparse additions.
pub fn deepstack_descriptors(deepstack: &PreparedDeepStack) -> (r: Result<
    DeepStackDescriptors,
    String,
>)
    ensures
        match r {
            Ok(d) => stack_error(*deepstack) is None && are_stack_descriptors(*deepstack, d),
            Err(message) => stack_error(*deepstack) == Some(message@),
        },
{
    let shape: [usize; 1] = [deepstack.max_visual_count];
    assert(shape@ =~= seq![deepstack.max_visual_count]);
    let visual_positions = match XlaTensorDesc::of_integers(
        deepstack.visual_positions.len(),
        &shape,
    ) {
        Ok(d) => d,
        Err(message) => return Err(message),
    };
    let shape: [usize; 3] = [
        deepstack.max_layer_count,
        deepstack.max_visual_count,
        deepstack.hidden_size,
    ];
    assert(shape@ =~= seq![
        deepstack.max_layer_count,
        deepstack.max_visual_count,
        deepstack.hidden_size,
    ]);
    let layer_features = match XlaTensorDesc::of_singles(deepstack.layer_features.len(), &shape) {
        Ok(d) => d,
        Err(message) => return Err(message),
    };
    let shape: [usize; 1] = [deepstack.max_layer_count];
    assert(shape@ =~= seq![deepstack.max_layer_count]);
    let layer_indices = match XlaTensorDesc::of_integers(deepstack.layer_indices.len(), &shape) {
        Ok(d) => d,
        Err(message) => return Err(message),
    };
    Ok(DeepStackDescriptors { visual_positions, layer_features, layer_indices })
}

/// Tokens padded with zeros to a length.
pub open spec fn padded(tokens: Seq<i32>, n: nat) -> Seq<i32> {
    Seq::new(
        n,
        |i: int|
            if i < tokens.len() {
                tokens[i]
            } else {
                0i32
            },
    )
}

fn pad_tokens(tokens: &[i32], n: usize) -> (r: Vec<i32>)
    ensures
        r@ == padded(tokens@, n as nat),
{
    let mut out: Vec<i32> = Vec::new();
    let mut i: usize = 0;
    while i < n
        invariant
            i <= n,
            out@.len() == i,
            forall|j: int| 0 <= j < i ==> #[trigger] out@[j] == padded(tokens@, n as nat)[j],
        decreases n - i,
    {
        out.push(
            if i < tokens.len() {
                tokens[i]
            } else {
                0
            },
        );
        i += 1;
    }
    assert(out@ =~= padded(tokens@, n as nat));
    out
}

/// A prompt of tokens as the runtime takes it.
#[derive(Debug)]
pub struct TokenPrompt {
    /// The tokens, padded to the capacity.
    pub tokens: Vec<i32>,
    pub capacity: i32,
    pub positions: Vec<i32>,
    pub real_len: i32,
}

/// Complaint about positions that could not be built.
pub open spec fn positions_error(
    prefix: Seq<char>,
    positions: Result<Vec<i32>, String>,
) -> Option<Seq<char>> {
    match positions {
        Ok(_) => None,
        Err(message) => Some(prefix + message@),
    }
}

/// Complaint about a prompt of `len` tokens behind the length checks.
pub open spec fn token_prompt_error(
    len: nat,
    capacity: usize,
    prefix: Seq<char>,
    positions: Result<Vec<i32>, String>,
) -> Option<Seq<char>> {
    first_error(
        narrow_error(capacity as int, "context_capacity"@),
        first_error(
            narrow_error(len as int, "prompt length"@),
            positions_error(prefix, positions),
        ),
    )
}

/// `p` is the prompt, padded to the capacity.
pub open spec fn is_token_prompt(
    p: TokenPrompt,
    prompt: Seq<i32>,
    capacity: usize,
    positions: Result<Vec<i32>, String>,
) -> bool {
    &&& p.tokens@ == padded(prompt, capacity as nat)
    &&& p.capacity == capacity
    &&& p.real_len == prompt.len()
    &&& positions matches Ok(values) && p.positions@ == values@
}

pub(crate) fn token_prompt(
    prompt: &[i32],
    capacity: usize,
    prefix: &str,
    positions: Result<Vec<i32>, String>,
) -> (r: Result<TokenPrompt, String>)
    ensures
        match r {
            Ok(p) => token_prompt_error(prompt@.len(), capacity, prefix@, positions) is None
                && is_token_prompt(p, prompt@, capacity, positions),
            Err(message) => token_prompt_error(prompt@.len(), capacity, prefix@, positions) == Some(
                message@,
            ),
        },
{
    let tokens = pad_tokens(prompt, capacity);
    let width = match checked_ffi_int(capacity, "context_capacity") {
        Ok(n) => n,
        Err(message) => return Err(message),
    };
    let real_len = match checked_ffi_int(prompt.len(), "prompt length") {
        Ok(n) => n,
        Err(message) => return Err(message),
    };
    match positions {
        Ok(values) => Ok(TokenPrompt { tokens, capacity: width, positions: values, real_len }),
        Err(message) => Err(prefix.to_owned().concat(&message)),
    }
}

/// The native prefill can be called, in the language mode, on the padded form of a prompt
/// that is not refused. No other call of it is needed.
pub open spec fn runs_prompt<R: Fn(i32, &TokenPrompt) -> (i32, i32)>(
    run: R,
    prompt: Seq<i32>,
    capacity: usize,
    positions: Result<Vec<i32>, String>,
) -> bool {
    padded_error(prompt.len(), capacity, positions) is None ==> forall|p: &TokenPrompt|
        is_token_prompt(*p, prompt, capacity, positions) ==> #[trigger] call_requires(
            run,
            (0i32, p),
        )
}

/// A single-sequence engine: one compiled bundle with its resident cache.
#[derive(Debug)]
pub struct IreeLlama {
    pub context_capacity: usize,
    pub hidden_size: usize,
    pub has_adapter_modes: bool,
    /// The adapter that the last prompt selected.
    pub adapter_mode: i32,
    pub dense_ple_shape: Option<[usize; 3]>,
    pub position_mode: PreparedPositionMode,
    /// The delta of the last prompt, by which M-RoPE decode coordinates are found.
    pub rope_delta: i32,
    pub deepstack_schema: Option<DeepStackConfig>,
}

/// Complaint about a prompt of tokens.
pub open spec fn padded_error(
    len: nat,
    capacity: usize,
    positions: Result<Vec<i32>, String>,
) -> Option<Seq<char>> {
    if len > capacity {
        Some(
            "prompt prefix of "@ + dec(len) + " exceeds context_capacity="@ + dec(capacity as nat),
        )
    } else {
        token_prompt_error(
            len,
            capacity,
            "cannot build text-only prefill positions: "@,
            positions,
        )
    }
}

/// The outcome of a prefill over tokens: refused before the call, or what the call says
/// of the padded prompt. A successful prefill selects the language mode and a delta of 0.
pub open spec fn is_prefill<R: Fn(i32, &TokenPrompt) -> (i32, i32)>(
    run: R,
    before: IreeLlama,
    after: IreeLlama,
    prompt: Seq<i32>,
    positions: Result<Vec<i32>, String>,
    r: Result<i32, String>,
) -> bool {
    match padded_error(prompt.len(), before.context_capacity, positions) {
        Some(error) => (r matches Err(message) && message@ == error) && after == before,
        None => exists|p: TokenPrompt, out: (i32, i32)| #[trigger]
            call_ensures(run, (0i32, &p), out) && is_token_prompt(
                p,
                prompt,
                before.context_capacity,
                positions,
            ) && is_call_result("xla_llama_prefill"@, out, r) && after == before.after_call(
                0,
                0,
                out.0,
            ),
    }
}

/// Complaint about a prepared prompt.
pub open spec fn prepared_error(
    engine: IreeLlama,
    prepared: Result<PreparedIreePrefill, String>,
) -> Option<Seq<char>> {
    if engine.dense_ple_shape is Some {
        Some(MSG_NEEDS_PLE@)
    } else {
        match prepared {
            Err(message) => Some(message@),
            Ok(p) => first_error(
                prompt_error(p),
                if p.effective_len > i32::MAX {
                    Some(MSG_LENGTH@)
                } else if !engine.has_adapter_modes && p.adapter_mode != 0 {
                    Some(MSG_ADAPTER@)
                } else {
                    None
                },
            ),
        }
    }
}

/// Complaint about a prepared prompt with sparse additions.
pub open spec fn stacked_error(
    engine: IreeLlama,
    prepared: Result<PreparedIreePrefill, String>,
    deepstack: Result<PreparedDeepStack, String>,
) -> Option<Seq<char>> {
    if engine.deepstack_schema is None {
        Some(MSG_NO_DEEPSTACK@)
    } else {
        match (prepared, deepstack) {
            (Err(message), _) => Some(message@),
            (_, Err(message)) => Some(message@),
            (Ok(p), Ok(s)) => first_error(
                prompt_error(p),
                first_error(stack_error(s), stack_counts_error(p, s)),
            ),
        }
    }
}

/// A count of the additions or the prompt's length is too wide for the C interface.
pub open spec fn stack_counts_error(p: PreparedIreePrefill, s: PreparedDeepStack) -> Option<
    Seq<char>,
> {
    first_error(
        narrow_error(s.actual_layer_count as int, "DeepStack actual layer count"@),
        first_error(
            narrow_error(s.actual_visual_count as int, "DeepStack actual visual count"@),
            narrow_error(p.effective_len as int, "prepared effective length"@),
        ),
    )
}

/// The shape is not the one of the bundle.
pub open spec fn ple_shape_error(shape: Seq<usize>, expected: Seq<usize>) -> Option<Seq<char>> {
    if shape != expected {
        Some(
            "Gemma3n dense PLE shape "@ + list_form(shape) + " does not match runtime bundle "@
                + list_form(expected),
        )
    } else {
        None
    }
}

/// Complaint about a Gemma3n prompt.
pub open spec fn gemma3n_error(
    engine: IreeLlama,
    prepared: Result<PreparedIreePrefill, String>,
    dense_ple: Gemma3nDensePle,
) -> Option<Seq<char>> {
    match engine.dense_ple_shape {
        None => Some(MSG_NOT_GEMMA3N@),
        Some(expected) => match prepared {
            Err(message) => Some(message@),
            Ok(p) => first_error(
                ple_shape_error(dense_ple.shape@, expected@),
                first_error(
                    prompt_error(p),
                    first_error(
                        descriptor_error(
                            dense_ple.values@.len() as usize,
                            4,
                            dense_ple.shape@,
                        ),
                        if p.effective_len > i32::MAX {
                            Some(MSG_LENGTH@)
                        } else {
                            None
                        },
                    ),
                ),
            ),
        },
    }
}

pub(crate) fn same_shape(a: &[usize; 3], b: &[usize; 3]) -> (r: bool)
    ensures
        r == (a@ == b@),
{
    if a[0] == b[0] && a[1] == b[1] && a[2] == b[2] {
        assert(a@ =~= b@);
        true
    } else {
        false
    }
}

pub(crate) fn ple_shape_text(shape: &[usize; 3], expected: &[usize; 3]) -> (r: String)
    ensures
        r@ == "Gemma3n dense PLE shape "@ + list_form(shape@)
            + " does not match runtime bundle "@ + list_form(expected@),
{
    "Gemma3n dense PLE shape ".to_owned().concat(&list_text(shape)).concat(
        " does not match runtime bundle ",
    ).concat(&list_text(expected))
}

impl IreeLlama {
    /// The engine after a prefill in an adapter mode, of a prompt with this delta.
    pub open spec fn after_call(self, mode: i32, rope_delta: i32, status: i32) -> IreeLlama {
        if status == 0 {
            IreeLlama { adapter_mode: mode, rope_delta, ..self }
        } else {
            self
        }
    }

    /// The engine of a configuration with so many weights; sizes that the C interface
    /// cannot take are refused.
    pub fn load(cfg: RuntimeConfig, n_weights: usize) -> (r: Result<Self, String>)
        ensures
            match r {
                Ok(engine) => {
                    &&& dimensions_error(cfg, n_weights) is None
                    &&& engine.context_capacity == cfg.capacity()
                    &&& engine.hidden_size == cfg.width()
                    &&& engine.has_adapter_modes == cfg.adapts()
                    &&& engine.adapter_mode == 0
                    &&& engine.rope_delta == 0
                    &&& engine.dense_ple_shape == cfg.ple_shape()
                    &&& engine.position_mode == cfg.positions()
                    &&& engine.deepstack_schema == cfg.stack()
                },
                Err(message) => dimensions_error(cfg, n_weights) == Some(message@),
            },
    {
        match runtime_ffi_dimensions(&cfg, n_weights) {
            Ok(_) => {},
            Err(message) => return Err(message),
        }
        let context_capacity = cfg.context_capacity();
        let hidden_size = cfg.hidden();
        let has_adapter_modes = cfg.has_adapter_modes();
        let dense_ple_shape = cfg.dense_ple_shape();
        let position_mode = cfg.position_mode();
        let deepstack_schema = match cfg {
            RuntimeConfig::Dense(config) => config.deepstack,
            RuntimeConfig::Gemma3n(_) => None,
        };
        Ok(
            IreeLlama {
                context_capacity,
                hidden_size,
                has_adapter_modes,
                adapter_mode: 0,
                dense_ple_shape,
                position_mode,
                rope_delta: 0,
                deepstack_schema,
            },
        )
    }

    /// Static sequence capacity of the bundle.
    pub fn context_capacity(&self) -> (r: usize)
        ensures
            r == self.context_capacity,
    {
        self.context_capacity
    }

    fn prefill_padded<R: Fn(i32, &TokenPrompt) -> (i32, i32)>(
        &mut self,
        prompt: &[i32],
        positions: Result<Vec<i32>, String>,
        run: &R,
    ) -> (r: Result<i32, String>)
        requires
            runs_prompt(*run, prompt@, old(self).context_capacity, positions),
        ensures
            is_prefill(*run, *old(self), *final(self), prompt@, positions, r),
    {
        if prompt.len() > self.context_capacity {
            return Err(
                "prompt prefix of ".to_owned().concat(&size_text(prompt.len())).concat(
                    " exceeds context_capacity=",
                ).concat(&size_text(self.context_capacity)),
            );
        }
        let p = match token_prompt(
            prompt,
            self.context_capacity,
            "cannot build text-only prefill positions: ",
            positions,
        ) {
            Ok(p) => p,
            Err(message) => return Err(message),
        };
        let out = run(0, &p);
        assert(call_ensures(*run, (0i32, &p), out));
        if out.0 == 0 {
            self.adapter_mode = 0;
            self.rope_delta = 0;
        }
        finish_call("xla_llama_prefill", out.0, out.1)
    }

    /// Seed the cache with a prefix of the prompt, which may be empty; the token that the
    /// graph returns is dropped. `positions` are the canonical text positions of the
    /// bundle, or why there are none.
    pub fn prefill_seed<R: Fn(i32, &TokenPrompt) -> (i32, i32)>(
        &mut self,
        token_ids: &[i32],
        positions: Result<Vec<i32>, String>,
        run: &R,
    ) -> (r: Result<(), String>)
        requires
            runs_prompt(*run, token_ids@, old(self).context_capacity, positions),
        ensures
            exists|first: Result<i32, String>| #[trigger]
                is_prefill(*run, *old(self), *final(self), token_ids@, positions, first)
                    && match first {
                    Ok(_) => r == Ok::<(), String>(()),
                    Err(message) => r matches Err(shown) && shown@ == message@,
                },
    {
        let first = self.prefill_padded(token_ids, positions, run);
        assert(is_prefill(*run, *old(self), *self, token_ids@, positions, first));
        match first {
            Ok(_) => Ok(()),
            Err(message) => Err(message),
        }
    }

    /// Run the prompt and return its first token.
    pub fn prefill_first<R: Fn(i32, &TokenPrompt) -> (i32, i32)>(
        &mut self,
        prompt: &[i32],
        positions: Result<Vec<i32>, String>,
        run: &R,
    ) -> (r: Result<i32, String>)
        requires
            prompt@.len() > 0 ==> runs_prompt(
                *run,
                prompt@,
                old(self).context_capacity,
                positions,
            ),
        ensures
            if prompt@.len() == 0 {
                (r matches Err(message) && message@ == MSG_EMPTY_FIRST@) && *final(self) == *old(
                    self,
                )
            } else {
                is_prefill(*run, *old(self), *final(self), prompt@, positions, r)
            },
    {
        if prompt.len() == 0 {
            return Err(MSG_EMPTY_FIRST.to_owned());
        }
        self.prefill_padded(prompt, positions, run)
    }

    /// Run a prompt of embeddings and return its first token. `prepared` is the payload as
    /// the bundle takes it, or why there is none; `run` takes the descriptors, the payload
    /// and its length.
    pub fn prefill_prepared_first<
        R: Fn(&PromptDescriptors, &PreparedIreePrefill, i32) -> (i32, i32),
    >(
        &mut self,
        prepared: &Result<PreparedIreePrefill, String>,
        run: &R,
    ) -> (r: Result<i32, String>)
        requires
            prepared_error(*old(self), *prepared) is None ==> forall|d: &PromptDescriptors|
                are_prompt_descriptors(prepared->Ok_0, *d) ==> #[trigger] call_requires(
                    *run,
                    (d, &prepared->Ok_0, prepared->Ok_0.effective_len as i32),
                ),
        ensures
            match prepared_error(*old(self), *prepared) {
                Some(error) => (r matches Err(message) && message@ == error) && *final(self)
                    == *old(self),
                None => exists|d: PromptDescriptors, out: (i32, i32)| #[trigger]
                    call_ensures(
                        *run,
                        (&d, &prepared->Ok_0, prepared->Ok_0.effective_len as i32),
                        out,
                    ) && are_prompt_descriptors(prepared->Ok_0, d) && is_call_result(
                        "xla_llama_prefill_embeddings"@,
                        out,
                        r,
                    ) && *final(self) == old(self).after_call(
                        prepared->Ok_0.adapter_mode,
                        prepared->Ok_0.positions.rope_delta,
                        out.0,
                    ),
            },
    {
        if self.dense_ple_shape.is_some() {
            return Err(MSG_NEEDS_PLE.to_owned());
        }
        let payload = match prepared {
            Ok(payload) => payload,
            Err(message) => return Err(message.clone()),
        };
        let d = match prepared_descriptors(payload) {
            Ok(d) => d,
            Err(message) => return Err(message),
        };
        if payload.effective_len > i32::MAX as usize {
            return Err(MSG_LENGTH.to_owned());
        }
        if !self.has_adapter_modes && payload.adapter_mode != 0 {
            return Err(MSG_ADAPTER.to_owned());
        }
        let real_len: i32 = payload.effective_len as i32;
        let out = run(&d, payload, real_len);
        assert(call_ensures(
            *run,
            (&d, &prepared->Ok_0, prepared->Ok_0.effective_len as i32),
            out,
        ));
        if out.0 == 0 {
            self.adapter_mode = payload.adapter_mode;
            self.rope_delta = payload.positions.rope_delta;
        }
        finish_call("xla_llama_prefill_embeddings", out.0, out.1)
    }

    /// Run a prompt of embeddings with sparse additions and return its first token. `run`
    /// takes the descriptors and payloads of both.
    pub fn prefill_deepstack_prepared_first<
        R: Fn(
            &PromptDescriptors,
            &PreparedIreePrefill,
            &DeepStackDescriptors,
            &PreparedDeepStack,
        ) -> (i32, i32),
    >(
        &mut self,
        prepared: &Result<PreparedIreePrefill, String>,
        deepstack: &Result<PreparedDeepStack, String>,
        run: &R,
    ) -> (r: Result<i32, String>)
        requires
            stacked_error(*old(self), *prepared, *deepstack) is None ==> forall|
                d: &PromptDescriptors,
                e: &DeepStackDescriptors,
            |
                are_prompt_descriptors(prepared->Ok_0, *d) && are_stack_descriptors(
                    deepstack->Ok_0,
                    *e,
                ) ==> #[trigger] call_requires(
                    *run,
                    (d, &prepared->Ok_0, e, &deepstack->Ok_0),
                ),
        ensures
            match stacked_error(*old(self), *prepared, *deepstack) {
                Some(error) => (r matches Err(message) && message@ == error) && *final(self)
                    == *old(self),
                None => exists|d: PromptDescriptors, e: DeepStackDescriptors, out: (i32, i32)|
                    #[trigger]
                    call_ensures(*run, (&d, &prepared->Ok_0, &e, &deepstack->Ok_0), out)
                        && are_prompt_descriptors(prepared->Ok_0, d) && are_stack_descriptors(
                        deepstack->Ok_0,
                        e,
                    ) && is_call_result("xla_llama_prefill_embeddings_deepstack"@, out, r)
                        && *final(self) == old(self).after_call(
                        0,
                        prepared->Ok_0.positions.rope_delta,
                        out.0,
                    ),
            },
    {
        if self.deepstack_schema.is_none() {
            return Err(MSG_NO_DEEPSTACK.to_owned());
        }
        let payload = match prepared {
            Ok(payload) => payload,
            Err(message) => return Err(message.clone()),
        };
        let stack = match deepstack {
            Ok(stack) => stack,
            Err(message) => return Err(message.clone()),
        };
        let d = match prepared_descriptors(payload) {
            Ok(d) => d,
            Err(message) => return Err(message),
        };
        let e = match deepstack_descriptors(stack) {
            Ok(e) => e,
            Err(message) => return Err(message),
        };
        match check_stack_counts(payload, stack) {
            Ok(_) => {},
            Err(message) => return Err(message),
        }
        let out = run(&d, payload, &e, stack);
        assert(call_ensures(*run, (&d, &prepared->Ok_0, &e, &deepstack->Ok_0), out));
        if out.0 == 0 {
            self.adapter_mode = 0;
            self.rope_delta = payload.positions.rope_delta;
        }
        finish_call("xla_llama_prefill_embeddings_deepstack", out.0, out.1)
    }

    /// Run a Gemma3n prompt of embeddings and dense per-layer embeddings and return its
    /// first token.
    pub fn prefill_gemma3n_prepared_first<
        R: Fn(&PromptDescriptors, &PreparedIreePrefill, &XlaTensorDesc, &Gemma3nDensePle) -> (
            i32,
            i32,
        ),
    >(
        &mut self,
        prepared: &Result<PreparedIreePrefill, String>,
        dense_ple: &Gemma3nDensePle,
        run: &R,
    ) -> (r: Result<i32, String>)
        requires
            gemma3n_error(*old(self), *prepared, *dense_ple) is None ==> forall|
                d: &PromptDescriptors,
                e: &XlaTensorDesc,
            |
                are_prompt_descriptors(prepared->Ok_0, *d) && is_descriptor(
                    *e,
                    dense_ple.values@.len() as usize,
                    4,
                    TENSOR_F32,
                    dense_ple.shape@,
                ) ==> #[trigger] call_requires(*run, (d, &prepared->Ok_0, e, dense_ple)),
        ensures
            match gemma3n_error(*old(self), *prepared, *dense_ple) {
                Some(error) => (r matches Err(message) && message@ == error) && *final(self)
                    == *old(self),
                None => exists|d: PromptDescriptors, e: XlaTensorDesc, out: (i32, i32)| #[trigger]
                    call_ensures(*run, (&d, &prepared->Ok_0, &e, dense_ple), out)
                        && are_prompt_descriptors(prepared->Ok_0, d) && is_descriptor(
                        e,
                        dense_ple.values@.len() as usize,
                        4,
                        TENSOR_F32,
                        dense_ple.shape@,
                    ) && is_call_result("xla_llama_prefill_embeddings_ple"@, out, r)
                        && *final(self) == old(self).after_call(0, 0, out.0),
            },
    {
        let expected = match self.dense_ple_shape {
            Some(expected) => expected,
            None => return Err(MSG_NOT_GEMMA3N.to_owned()),
        };
        let payload = match prepared {
            Ok(payload) => payload,
            Err(message) => return Err(message.clone()),
        };
        if !same_shape(&dense_ple.shape, &expected) {
            return Err(ple_shape_text(&dense_ple.shape, &expected));
        }
        let d = match prepared_descriptors(payload) {
            Ok(d) => d,
            Err(message) => return Err(message),
        };
        let e = match dense_ple_descriptor(dense_ple) {
            Ok(e) => e,
            Err(message) => return Err(message),
        };
        if payload.effective_len > i32::MAX as usize {
            return Err(MSG_LENGTH.to_owned());
        }
        let out = run(&d, payload, &e, dense_ple);
        assert(call_ensures(*run, (&d, &prepared->Ok_0, &e, dense_ple), out));
        if out.0 == 0 {
            self.adapter_mode = 0;
            self.rope_delta = 0;
        }
        finish_call("xla_llama_prefill_embeddings_ple", out.0, out.1)
    }

    /// A decode step can stand behind so many cached positions.
    pub open spec fn steps_behind(&self, cache_len: i32) -> bool {
        0 <= cache_len < self.context_capacity
    }

    /// The position of a decode step: the cache length, or the M-RoPE coordinate that
    /// `coordinate` gives for the delta of the prompt and the cache length.
    pub open spec fn is_step_position<C: Fn(i32, i32) -> Result<i32, String>>(
        &self,
        coordinate: C,
        cache_len: i32,
        position: i32,
    ) -> bool {
        match self.position_mode {
            PreparedPositionMode::OneD => position == cache_len,
            PreparedPositionMode::Mrope3D => call_ensures(
                coordinate,
                (self.rope_delta, cache_len),
                Ok::<i32, String>(position),
            ),
        }
    }

    /// The outcome of a decode call at a position.
    pub open spec fn is_step_result<
        R: Fn(PreparedPositionMode, i32, i32, i32, i32) -> (i32, i32),
    >(
        &self,
        run: R,
        token: i32,
        position: i32,
        cache_len: i32,
        r: Result<i32, String>,
    ) -> bool {
        exists|out: (i32, i32)| #[trigger]
            call_ensures(
                run,
                (self.position_mode, self.adapter_mode, token, position, cache_len),
                out,
            ) && is_call_result("xla_llama_decode"@, out, r)
    }

    /// Advance one token at `cache_len` and return the next one. `coordinate` takes the
    /// delta of the prompt and the cache length and gives the M-RoPE coordinate of the
    /// step; it is asked only where the bundle takes such coordinates. `run` takes the
    /// position mode, the adapter mode, the token, its position and the cache length.
    pub fn decode<
        C: Fn(i32, i32) -> Result<i32, String>,
        R: Fn(PreparedPositionMode, i32, i32, i32, i32) -> (i32, i32),
    >(&self, token: i32, cache_len: i32, coordinate: &C, run: &R) -> (r: Result<i32, String>)
        requires
            self.steps_behind(cache_len) && self.position_mode == PreparedPositionMode::Mrope3D
                ==> call_requires(*coordinate, (self.rope_delta, cache_len)),
            self.steps_behind(cache_len) ==> forall|position: i32|
                self.is_step_position(*coordinate, cache_len, position) ==> #[trigger]
                call_requires(
                    *run,
                    (self.position_mode, self.adapter_mode, token, position, cache_len),
                ),
        ensures
            if !self.steps_behind(cache_len) {
                r matches Err(message) && message@ == "decode position "@ + dec_int(
                    cache_len as int,
                ) + " is outside context_capacity="@ + dec(self.context_capacity as nat)
            } else {
                ||| exists|position: i32| #[trigger]
                    self.is_step_position(*coordinate, cache_len, position)
                        && self.is_step_result(*run, token, position, cache_len, r)
                ||| self.position_mode == PreparedPositionMode::Mrope3D && exists|error: String|
                    #[trigger]
                    call_ensures(
                        *coordinate,
                        (self.rope_delta, cache_len),
                        Err::<i32, String>(error),
                    ) && (r matches Err(message) && message@ == error@)
            },
    {
        if cache_len < 0 || cache_len as usize >= self.context_capacity {
            return Err(
                "decode position ".to_owned().concat(&int_text(cache_len as i64)).concat(
                    " is outside context_capacity=",
                ).concat(&size_text(self.context_capacity)),
            );
        }
        let position: i32 = match self.position_mode {
            PreparedPositionMode::OneD => cache_len,
            PreparedPositionMode::Mrope3D => match coordinate(self.rope_delta, cache_len) {
                Ok(coordinate) => coordinate,
                Err(message) => return Err(message),
            },
        };
        assert(self.is_step_position(*coordinate, cache_len, position));
        let out = run(self.position_mode, self.adapter_mode, token, position, cache_len);
        assert(call_ensures(
            *run,
            (self.position_mode, self.adapter_mode, token, position, cache_len),
            out,
        ));
        let r = finish_call("xla_llama_decode", out.0, out.1);
        assert(self.is_step_result(*run, token, position, cache_len, r));
        r
    }
}

pub(crate) fn check_stack_counts(p: &PreparedIreePrefill, s: &PreparedDeepStack) -> (r: Result<(), String>)
    ensures
        reports(r, stack_counts_error(*p, *s)),
{
    match checked_ffi_int(s.actual_layer_count, "DeepStack actual layer count") {
        Ok(_) => {},
        Err(message) => return Err(message),
    }
    match checked_ffi_int(s.actual_visual_count, "DeepStack actual visual count") {
        Ok(_) => {},
        Err(message) => return Err(message),
    }
    match checked_ffi_int(p.effective_len, "prepared effective length") {
        Ok(_) => Ok(()),
        Err(message) => Err(message),
    }
}

} // verus!
