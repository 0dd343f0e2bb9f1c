//! The single-sequence inference session and the decisions of its greedy token loop.
//!
//! A [`GreedyRun`] says which engine call comes next and takes what the call returned.
//! The session without an engine answers every call with [`NOT_WIRED`].
use vstd::prelude::*;

use crate::config::{capacity_error, validate_context_capacity_value, DEFAULT_CONTEXT_CAPACITY};
use crate::json::{json_items, json_of_text, parse_json, Json, JsonView};
use crate::text::{dec, dec_int, int_text, size_text, text_eq};

verus! {

/// The error of the token primitives of a session without an engine.
pub const NOT_WIRED: &'static str =
    "the OpenXLA inference session was built without the `iree` feature; rebuild \
     mlxcel-xla with `--features iree` (and IREE_DIST pointing at an extracted iree \
     dist) to enable StableHLO / IREE execution of prefill / decode_step";

pub const MSG_EMPTY_PROMPT: &'static str = "XLA generation requires a non-empty prompt";

pub const MSG_EMPTY_PREFILL: &'static str = "prefill_first_token requires a non-empty prompt";

/// What a device reports of its memory.
pub fn llava_diagnostic_device_memory_note(device: &str) -> (r: &'static str)
    ensures
        r@ == (if device@ == "cuda"@ {
            "IREE CUDA reports N/A for dedicated memory on GB10 unified memory"@
        } else {
            "the IREE C runtime integration exposes no portable device-allocation counter"@
        }),
{
    if text_eq(device, "cuda") {
        "IREE CUDA reports N/A for dedicated memory on GB10 unified memory"
    } else {
        "the IREE C runtime integration exposes no portable device-allocation counter"
    }
}

/// The device when none is selected: the GPU of a Mac, else the multithreaded CPU.
#[must_use]
pub fn default_device(macos: bool) -> (r: &'static str)
    ensures
        r@ == (if macos {
            "metal"@
        } else {
            "local-task"@
        }),
{
    if macos {
        "metal"
    } else {
        "local-task"
    }
}

/// The message for a request that does not fit the context.
pub open spec fn capacity_message(prompt: nat, budget: nat, capacity: nat) -> Seq<char> {
    "XLA request exceeds the static context: effective_prompt_len="@ + dec(prompt)
        + ", max_new_tokens="@ + dec(budget) + ", context_capacity="@ + dec(capacity)
}

/// Complaint about a request: the prompt and the new tokens have to fit the context.
pub open spec fn request_error(prompt: nat, budget: nat, capacity: nat) -> Option<Seq<char>> {
    if prompt + budget > capacity {
        Some(capacity_message(prompt, budget, capacity))
    } else {
        None
    }
}

/// A request fits the static context.
pub fn validate_request_capacity(prompt: usize, budget: usize, capacity: usize) -> (r: Result<
    (),
    String,
>)
    ensures
        crate::config::reports(r, request_error(prompt as nat, budget as nat, capacity as nat)),
{
    let fits = match prompt.checked_add(budget) {
        Some(n) => n <= capacity,
        None => false,
    };
    if fits {
        Ok(())
    } else {
        Err(
            "XLA request exceeds the static context: effective_prompt_len=".to_owned().concat(
                &size_text(prompt),
            ).concat(", max_new_tokens=").concat(&size_text(budget)).concat(
                ", context_capacity=",
            ).concat(&size_text(capacity)),
        )
    }
}

/// The tokens of a list that are integers.
pub open spec fn token_list(values: Seq<JsonView>) -> Seq<i32>
    decreases values.len(),
{
    if values.len() == 0 {
        Seq::empty()
    } else {
        match values.last().as_i64() {
            Some(n) => token_list(values.drop_last()).push(n as i32),
            None => token_list(values.drop_last()),
        }
    }
}

/// The EOS tokens of a generation configuration: one integer or a list.
pub open spec fn eos_of(document: JsonView) -> Seq<i32> {
    match document.get("eos_token_id"@) {
        Some(JsonView::Number(n)) => match n.signed {
            Some(x) => seq![x as i32],
            None => Seq::empty(),
        },
        Some(JsonView::Array(values)) => token_list(values),
        _ => Seq::empty(),
    }
}

/// The EOS tokens of a generation configuration document.
pub fn eos_of_document(document: &Json) -> (r: Vec<i32>)
    ensures
        r@ == eos_of(document@),
{
    let mut out: Vec<i32> = Vec::new();
    let member = match document.get("eos_token_id") {
        Some(member) => member,
        None => return out,
    };
    if let Some(n) = member.as_i64() {
        out.push(n as i32);
        assert(out@ =~= seq![n as i32]);
        return out;
    }
    if let Some(values) = member.as_array() {
        let ghost views = json_items(values@);
        let mut i: usize = 0;
        assert(views.subrange(0, 0) =~= Seq::<JsonView>::empty());
        while i < values.len()
            invariant
                i <= values.len(),
                views == json_items(values@),
                out@ == token_list(views.subrange(0, i as int)),
            decreases values.len() - i,
        {
            proof {
                let next = views.subrange(0, i + 1);
                assert(next.drop_last() =~= views.subrange(0, i as int));
                assert(next.last() == values@[i as int]@);
            }
            if let Some(n) = values[i].as_i64() {
                out.push(n as i32);
            }
            i += 1;
        }
        assert(views.subrange(0, i as int) =~= views);
    }
    out
}

/// The EOS tokens of a model, from the text of its `generation_config.json`; none when
/// there is no such text or it is no JSON.
pub fn read_eos(generation_config: Option<&str>) -> (r: Vec<i32>)
    ensures
        r@ == (match generation_config {
            Some(text) => match json_of_text(text@) {
                Some(document) => eos_of(document),
                None => Seq::empty(),
            },
            None => Seq::empty(),
        }),
{
    match generation_config {
        Some(text) => match parse_json(text) {
            Ok(document) => eos_of_document(&document),
            Err(_) => Vec::new(),
        },
        None => Vec::new(),
    }
}

/// Whether a list of tokens holds `token`.
pub fn contains_token(tokens: &[i32], token: i32) -> (r: bool)
    ensures
        r == tokens@.contains(token),
{
    let mut i: usize = 0;
    while i < tokens.len()
        invariant
            i <= tokens@.len(),
            forall|j: int| 0 <= j < i ==> tokens@[j] != token,
        decreases tokens@.len() - i,
    {
        if tokens[i] == token {
            return true;
        }
        i += 1;
    }
    false
}

/// The engine call that a run waits for.
#[derive(Clone, Copy, Debug, PartialEq, Eq, Structural)]
pub enum GreedyAction {
    /// Seed the cache with the first `len` prompt tokens.
    Seed { len: usize },
    /// Seed the cache with the prepared prompt; the call returns the first token.
    SeedPrepared,
    /// Decode `token` at cache position `position`; the call returns the next token.
    Decode { token: i32, position: usize },
    /// Nothing: the run is over.
    Done,
}

/// A greedy generation in progress.
#[derive(Debug)]
pub struct GreedyRun {
    /// Length of the prompt in the cache's positions.
    pub prompt_len: usize,
    /// The last token of a token prompt; a prepared prompt has none.
    pub last: Option<i32>,
    /// Most tokens to generate.
    pub budget: usize,
    pub eos: Vec<i32>,
    /// The tokens generated so far.
    pub out: Vec<i32>,
    /// The prompt is in the cache.
    pub seeded: bool,
    /// The callback or an EOS token ended the run.
    pub stopped: bool,
}

impl GreedyRun {
    /// A run within a context of `capacity` positions: what was generated is within the
    /// budget, only the last token can have ended the run, and nothing was generated
    /// before the prompt was in the cache.
    pub open spec fn wf(&self, capacity: usize) -> bool {
        &&& self.prompt_len + self.budget <= capacity
        &&& self.last is Some ==> self.prompt_len > 0
        &&& self.out@.len() <= self.budget
        &&& !self.seeded ==> self.out@.len() == 0 && !self.stopped
        &&& self.last is None && self.seeded && self.budget > 0 ==> self.out@.len() > 0
        &&& forall|i: int|
            0 <= i < self.out@.len() - 1 ==> !self.eos@.contains(#[trigger] self.out@[i])
        &&& self.seeded && !self.stopped && self.out@.len() > 0 ==> !self.eos@.contains(
            self.out@.last(),
        )
    }

    /// The engine call that the run waits for. A token prompt is seeded but for its last
    /// token, which is decoded first; a prepared prompt is seeded whole, unless nothing is
    /// to be generated.
    pub open spec fn next(&self) -> GreedyAction {
        if !self.seeded {
            match self.last {
                Some(_) => GreedyAction::Seed { len: (self.prompt_len - 1) as usize },
                None => if self.budget == 0 {
                    GreedyAction::Done
                } else {
                    GreedyAction::SeedPrepared
                },
            }
        } else if self.stopped || self.out@.len() >= self.budget {
            GreedyAction::Done
        } else if self.out@.len() == 0 {
            GreedyAction::Decode {
                token: self.last.unwrap(),
                position: (self.prompt_len - 1) as usize,
            }
        } else {
            GreedyAction::Decode {
                token: self.out@.last(),
                position: (self.prompt_len + self.out@.len() - 1) as usize,
            }
        }
    }

    /// The same run behind one more token; `keep_going` is the callback's answer to it.
    pub open spec fn took(&self, after: GreedyRun, token: i32, keep_going: bool) -> bool {
        &&& after.prompt_len == self.prompt_len && after.last == self.last
        &&& after.budget == self.budget && after.eos@ == self.eos@
        &&& after.seeded
        &&& after.out@ == self.out@.push(token)
        &&& after.stopped == (!keep_going || self.eos@.contains(token))
    }

    /// Start a generation from prompt tokens.
    pub fn from_tokens(
        prompt_tokens: &[i32],
        max_new_tokens: usize,
        eos_token_ids: &[i32],
        capacity: usize,
    ) -> (r: Result<Self, String>)
        ensures
            match r {
                Ok(run) => {
                    &&& prompt_tokens@.len() > 0
                    &&& request_error(
                        prompt_tokens@.len(),
                        max_new_tokens as nat,
                        capacity as nat,
                    ) is None
                    &&& run.wf(capacity)
                    &&& run.prompt_len == prompt_tokens@.len()
                    &&& run.last == Some(prompt_tokens@.last())
                    &&& run.budget == max_new_tokens && run.eos@ == eos_token_ids@
                    &&& !run.seeded && !run.stopped && run.out@.len() == 0
                },
                Err(message) => if prompt_tokens@.len() == 0 {
                    message@ == MSG_EMPTY_PROMPT@
                } else {
                    request_error(prompt_tokens@.len(), max_new_tokens as nat, capacity as nat)
                        == Some(message@)
                },
            },
    {
        if prompt_tokens.len() == 0 {
            return Err(MSG_EMPTY_PROMPT.to_owned());
        }
        match validate_request_capacity(prompt_tokens.len(), max_new_tokens, capacity) {
            Ok(_) => {},
            Err(message) => return Err(message),
        }
        Ok(
            GreedyRun {
                prompt_len: prompt_tokens.len(),
                last: Some(prompt_tokens[prompt_tokens.len() - 1]),
                budget: max_new_tokens,
                eos: vstd::slice::slice_to_vec(eos_token_ids),
                out: Vec::new(),
                seeded: false,
                stopped: false,
            },
        )
    }

    /// Start a generation from a prepared prompt of `sequence_len` positions. Nothing is
    /// asked of a request for no tokens.
    pub fn from_prepared(
        sequence_len: usize,
        max_new_tokens: usize,
        eos_token_ids: &[i32],
        capacity: usize,
    ) -> (r: Result<Self, String>)
        ensures
            match r {
                Ok(run) => {
                    &&& max_new_tokens == 0 || request_error(
                        sequence_len as nat,
                        max_new_tokens as nat,
                        capacity as nat,
                    ) is None
                    &&& run.wf(capacity)
                    &&& max_new_tokens > 0 ==> run.prompt_len == sequence_len
                    &&& run.last is None
                    &&& run.budget == max_new_tokens && run.eos@ == eos_token_ids@
                    &&& !run.seeded && !run.stopped && run.out@.len() == 0
                },
                Err(message) => max_new_tokens > 0 && request_error(
                    sequence_len as nat,
                    max_new_tokens as nat,
                    capacity as nat,
                ) == Some(message@),
            },
    {
        let prompt_len: usize = if max_new_tokens == 0 {
            0
        } else {
            match validate_request_capacity(sequence_len, max_new_tokens, capacity) {
                Ok(_) => sequence_len,
                Err(message) => return Err(message),
            }
        };
        Ok(
            GreedyRun {
                prompt_len,
                last: None,
                budget: max_new_tokens,
                eos: vstd::slice::slice_to_vec(eos_token_ids),
                out: Vec::new(),
                seeded: false,
                stopped: false,
            },
        )
    }

    /// The engine call that the run waits for.
    pub fn action(&self, capacity: usize) -> (r: GreedyAction)
        requires
            self.wf(capacity),
        ensures
            r == self.next(),
    {
        if !self.seeded {
            match self.last {
                Some(_) => GreedyAction::Seed { len: self.prompt_len - 1 },
                None => if self.budget == 0 {
                    GreedyAction::Done
                } else {
                    GreedyAction::SeedPrepared
                },
            }
        } else if self.stopped || self.out.len() >= self.budget {
            GreedyAction::Done
        } else if self.out.len() == 0 {
            GreedyAction::Decode { token: self.last.unwrap(), position: self.prompt_len - 1 }
        } else {
            let n: usize = self.out.len();
            GreedyAction::Decode { token: self.out[n - 1], position: self.prompt_len + (n - 1) }
        }
    }

    /// The prompt tokens are in the cache.
    pub fn on_seeded(&mut self, capacity: usize)
        requires
            old(self).wf(capacity),
            old(self).next() is Seed,
        ensures
            final(self).wf(capacity),
            final(self).seeded,
            *final(self) == (GreedyRun { seeded: true, ..*old(self) }),
    {
        self.seeded = true;
    }

    /// The engine returned `token`; `keep_going` is the callback's answer to it.
    pub fn on_token(&mut self, token: i32, keep_going: bool, capacity: usize)
        requires
            old(self).wf(capacity),
            old(self).next() is Decode || old(self).next() is SeedPrepared,
        ensures
            final(self).wf(capacity),
            old(self).took(*final(self), token, keep_going),
    {
        let ends = !keep_going || contains_token(self.eos.as_slice(), token);
        let ghost before = self.out@;
        self.seeded = true;
        self.out.push(token);
        self.stopped = ends;
        assert forall|i: int| 0 <= i < self.out@.len() - 1 implies !self.eos@.contains(
            #[trigger] self.out@[i],
        ) by {
            assert(self.out@[i] == before[i]);
            if i == before.len() - 1 {
                assert(before.last() == before[i]);
            }
        }
    }
}

/// Every position that a run decodes at lies inside the context, and a run asks for a
/// decode only while it is below its budget.
pub proof fn law_decode_positions_fit(run: GreedyRun, capacity: usize)
    requires
        run.wf(capacity),
        run.next() is Decode,
    ensures
        run.next()->position < capacity,
        run.out@.len() < run.budget,
{
}

/// A run yields at most its budget, and no EOS token but as the last one.
pub proof fn law_eos_ends_the_output(run: GreedyRun, capacity: usize, i: int)
    requires
        run.wf(capacity),
        0 <= i < run.out@.len(),
        run.eos@.contains(run.out@[i]),
    ensures
        run.out@.len() <= run.budget,
        i == run.out@.len() - 1,
        run.next() is Done,
{
    assert(run.out@.last() == run.out@[run.out@.len() - 1]);
}

/// Successive decodes go to successive positions, each with the token before it.
pub proof fn law_decodes_follow_each_other(
    before: GreedyRun,
    after: GreedyRun,
    token: i32,
    capacity: usize,
)
    requires
        before.wf(capacity),
        before.next() is Decode,
        before.took(after, token, true),
        after.wf(capacity),
        after.next() is Decode,
    ensures
        after.next()->position == before.next()->position + 1,
        after.next()->token == token,
{
}

/// The message for a prompt that is longer than the context.
pub open spec fn prefill_error(len: nat, capacity: nat) -> Option<Seq<char>> {
    if len > capacity {
        Some("prefill length "@ + dec(len) + " exceeds context_capacity="@ + dec(capacity))
    } else {
        None
    }
}

/// A prompt fits the context.
pub fn check_prefill_length(len: usize, capacity: usize) -> (r: Result<(), String>)
    ensures
        crate::config::reports(r, prefill_error(len as nat, capacity as nat)),
{
    if len > capacity {
        Err(
            "prefill length ".to_owned().concat(&size_text(len)).concat(
                " exceeds context_capacity=",
            ).concat(&size_text(capacity)),
        )
    } else {
        Ok(())
    }
}

/// The cache of an engine: how many positions are filled of how many.
#[derive(Clone, Copy, Debug, PartialEq, Eq)]
pub struct CacheCursor {
    pub cache_len: i32,
    pub context_capacity: usize,
}

impl CacheCursor {
    /// Complaint about decoding at the cursor.
    pub open spec fn decode_error(&self) -> Option<Seq<char>> {
        if self.cache_len < 0 || self.cache_len >= self.context_capacity {
            Some(
                "decode position "@ + dec_int(self.cache_len as int)
                    + " is outside context_capacity="@ + dec(self.context_capacity as nat),
            )
        } else {
            None
        }
    }

    /// The position at which the next token is decoded.
    pub fn decode_position(&self) -> (r: Result<i32, String>)
        ensures
            match r {
                Ok(position) => self.decode_error() is None && position == self.cache_len,
                Err(message) => self.decode_error() == Some(message@),
            },
    {
        if self.cache_len < 0 || self.cache_len as usize >= self.context_capacity {
            Err(
                "decode position ".to_owned().concat(&int_text(self.cache_len as i64)).concat(
                    " is outside context_capacity=",
                ).concat(&size_text(self.context_capacity)),
            )
        } else {
            Ok(self.cache_len)
        }
    }

    /// A token was decoded at the cursor.
    pub fn advance(&mut self)
        requires
            old(self).decode_error() is None,
            old(self).cache_len < i32::MAX,
        ensures
            final(self).cache_len == old(self).cache_len + 1,
            final(self).context_capacity == old(self).context_capacity,
    {
        self.cache_len = self.cache_len + 1;
    }

    /// A prompt of `len` positions was written; refused with `message` when the cursor
    /// cannot count them.
    pub fn seed(&mut self, len: usize, message: &str) -> (r: Result<(), String>)
        ensures
            final(self).context_capacity == old(self).context_capacity,
            match r {
                Ok(_) => len <= i32::MAX && final(self).cache_len == len,
                Err(m) => len > i32::MAX && m@ == message@ && *final(self) == *old(self),
            },
    {
        if len > i32::MAX as usize {
            Err(message.to_owned())
        } else {
            self.cache_len = len as i32;
            Ok(())
        }
    }
}

/// What a session offers.
#[derive(Clone, Copy, Debug, PartialEq, Eq)]
pub struct SessionCapabilities {
    pub batched_serving: bool,
    pub paged_kv: bool,
    pub speculative_decode: bool,
    pub multimodal: bool,
}

impl SessionCapabilities {
    /// One sequence at a time, tokens only.
    pub fn single_sequence() -> (r: Self)
        ensures
            !r.batched_serving && !r.paged_kv && !r.speculative_decode && !r.multimodal,
    {
        SessionCapabilities {
            batched_serving: false,
            paged_kv: false,
            speculative_decode: false,
            multimodal: false,
        }
    }

    /// The same with multimodal prompts.
    pub fn with_multimodal(self) -> (r: Self)
        ensures
            r == (SessionCapabilities { multimodal: true, ..self }),
    {
        SessionCapabilities {
            batched_serving: self.batched_serving,
            paged_kv: self.paged_kv,
            speculative_decode: self.speculative_decode,
            multimodal: true,
        }
    }
}

/// A prompt given as embeddings; what the token loop reads of it.
#[derive(Clone, Copy, Debug, PartialEq, Eq)]
pub struct PreparedPrefill {
    /// Positions that the prompt fills.
    pub sequence_len: usize,
}

/// A prepared prompt with Gemma3n's dense per-layer embeddings.
#[derive(Clone, Copy, Debug, PartialEq, Eq)]
pub struct Gemma3nPreparedPrefill {
    pub prepared: PreparedPrefill,
}

/// A prepared prompt with sparse DeepStack additions.
#[derive(Clone, Copy, Debug, PartialEq, Eq)]
pub struct DeepStackPreparedPrefill {
    pub prepared: PreparedPrefill,
}

/// The session of a build without an engine: it records its inputs, checks requests, and
/// reports [`NOT_WIRED`] where an engine would run.
#[derive(Debug)]
pub struct XlaInferenceSession {
    model_path: String,
    num_layers: usize,
    context_capacity: usize,
    eos_token_ids: Vec<i32>,
}

/// The outcome of a token request on a session without an engine.
pub open spec fn token_request_error(prompt: nat, budget: nat, capacity: nat) -> Seq<char> {
    if prompt == 0 {
        MSG_EMPTY_PROMPT@
    } else {
        match request_error(prompt, budget, capacity) {
            Some(message) => message,
            None => NOT_WIRED@,
        }
    }
}

/// The outcome of a prepared request on a session without an engine: nothing for no
/// tokens, else an error.
pub open spec fn is_prepared_outcome(
    sequence_len: nat,
    budget: nat,
    capacity: nat,
    r: Result<Vec<i32>, String>,
) -> bool {
    match r {
        Ok(out) => budget == 0 && out@.len() == 0,
        Err(message) => budget > 0 && message@ == (match request_error(
            sequence_len,
            budget,
            capacity,
        ) {
            Some(complaint) => complaint,
            None => NOT_WIRED@,
        }),
    }
}

impl XlaInferenceSession {
    pub closed spec fn path(&self) -> Seq<char> {
        self.model_path@
    }

    pub closed spec fn layers(&self) -> usize {
        self.num_layers
    }

    pub closed spec fn capacity(&self) -> usize {
        self.context_capacity
    }

    pub closed spec fn eos(&self) -> Seq<i32> {
        self.eos_token_ids@
    }

    /// Prepare a session for a model directory, with the selected context capacity or the
    /// default one.
    pub fn load(model_path: &str, num_layers: usize, selected_capacity: Option<usize>) -> (r:
        Result<Self, String>)
        ensures
            ({
                let capacity = match selected_capacity {
                    Some(n) => n,
                    None => DEFAULT_CONTEXT_CAPACITY,
                };
                match r {
                    Ok(s) => {
                        &&& capacity_error(capacity) is None
                        &&& s.path() == model_path@ && s.layers() == num_layers
                        &&& s.capacity() == capacity && s.eos() == Seq::<i32>::empty()
                    },
                    Err(message) => capacity_error(capacity) == Some(message@),
                }
            }),
    {
        let capacity: usize = match selected_capacity {
            Some(n) => n,
            None => DEFAULT_CONTEXT_CAPACITY,
        };
        Self::load_with_context_capacity(model_path, num_layers, capacity)
    }

    /// Prepare a session with a given context capacity.
    pub fn load_with_context_capacity(
        model_path: &str,
        num_layers: usize,
        context_capacity: usize,
    ) -> (r: Result<Self, String>)
        ensures
            match r {
                Ok(s) => {
                    &&& capacity_error(context_capacity) is None
                    &&& s.path() == model_path@ && s.layers() == num_layers
                    &&& s.capacity() == context_capacity && s.eos() == Seq::<i32>::empty()
                },
                Err(message) => capacity_error(context_capacity) == Some(message@),
            },
    {
        match validate_context_capacity_value(context_capacity) {
            Ok(capacity) => Ok(
                XlaInferenceSession {
                    model_path: model_path.to_owned(),
                    num_layers,
                    context_capacity: capacity,
                    eos_token_ids: Vec::new(),
                },
            ),
            Err(message) => Err(message),
        }
    }

    #[must_use]
    pub fn num_layers(&self) -> (r: usize)
        ensures
            r == self.layers(),
    {
        self.num_layers
    }

    #[must_use]
    pub fn model_path(&self) -> (r: &str)
        ensures
            r@ == self.path(),
    {
        self.model_path.as_str()
    }

    #[must_use]
    pub fn context_capacity(&self) -> (r: usize)
        ensures
            r == self.capacity(),
    {
        self.context_capacity
    }

    #[must_use]
    pub fn eos_token_ids(&self) -> (r: &[i32])
        ensures
            r@ == self.eos(),
    {
        self.eos_token_ids.as_slice()
    }

    pub fn capabilities(&self) -> (r: SessionCapabilities)
        ensures
            !r.batched_serving && !r.paged_kv && !r.speculative_decode && !r.multimodal,
    {
        SessionCapabilities::single_sequence()
    }

    /// Seed the cache with prompt tokens.
    pub fn prefill(&mut self, token_ids: &[i32]) -> (r: Result<(), String>)
        ensures
            *final(self) == *old(self),
            r matches Err(message) && message@ == NOT_WIRED@,
    {
        Err(NOT_WIRED.to_owned())
    }

    /// Seed the cache with a prepared prompt.
    pub fn prefill_prepared(&mut self, prepared: &PreparedPrefill) -> (r: Result<i32, String>)
        ensures
            *final(self) == *old(self),
            r matches Err(message) && message@ == NOT_WIRED@,
    {
        Err(NOT_WIRED.to_owned())
    }

    /// Decode one token.
    pub fn decode_step(&mut self, token: i32) -> (r: Result<i32, String>)
        ensures
            *final(self) == *old(self),
            r matches Err(message) && message@ == NOT_WIRED@,
    {
        Err(NOT_WIRED.to_owned())
    }

    /// Greedy generation from prompt tokens.
    pub fn generate_greedy(
        &mut self,
        prompt_tokens: &[i32],
        max_new_tokens: usize,
        eos_token_ids: &[i32],
    ) -> (r: Result<Vec<i32>, String>)
        ensures
            *final(self) == *old(self),
            r matches Err(message) && message@ == token_request_error(
                prompt_tokens@.len(),
                max_new_tokens as nat,
                old(self).capacity() as nat,
            ),
    {
        self.generate_streaming_greedy(
            prompt_tokens,
            max_new_tokens,
            eos_token_ids,
            |token: i32| true,
        )
    }

    /// Greedy generation from prompt tokens, with a callback for each token.
    pub fn generate_streaming_greedy<F: Fn(i32) -> bool>(
        &mut self,
        prompt_tokens: &[i32],
        max_new_tokens: usize,
        eos_token_ids: &[i32],
        on_token: F,
    ) -> (r: Result<Vec<i32>, String>)
        ensures
            *final(self) == *old(self),
            r matches Err(message) && message@ == token_request_error(
                prompt_tokens@.len(),
                max_new_tokens as nat,
                old(self).capacity() as nat,
            ),
    {
        match GreedyRun::from_tokens(
            prompt_tokens,
            max_new_tokens,
            eos_token_ids,
            self.context_capacity,
        ) {
            Err(message) => Err(message),
            Ok(_) => match self.prefill(
                vstd::slice::slice_subrange(prompt_tokens, 0, prompt_tokens.len() - 1),
            ) {
                Err(message) => Err(message),
                Ok(_) => Ok(Vec::new()),
            },
        }
    }

    /// Seed the cache with a whole token prompt and return the first token.
    pub fn prefill_first_token(&mut self, prompt_tokens: &[i32]) -> (r: Result<i32, String>)
        ensures
            *final(self) == *old(self),
            r matches Err(message) && message@ == (if prompt_tokens@.len() == 0 {
                MSG_EMPTY_PREFILL@
            } else {
                match prefill_error(prompt_tokens@.len(), old(self).capacity() as nat) {
                    Some(complaint) => complaint,
                    None => NOT_WIRED@,
                }
            }),
    {
        if prompt_tokens.len() == 0 {
            return Err(MSG_EMPTY_PREFILL.to_owned());
        }
        match check_prefill_length(prompt_tokens.len(), self.context_capacity) {
            Err(message) => Err(message),
            Ok(_) => Err(NOT_WIRED.to_owned()),
        }
    }

    /// Greedy generation from a prepared prompt.
    pub fn generate_prepared_greedy(
        &mut self,
        prepared: &PreparedPrefill,
        max_new_tokens: usize,
        eos_token_ids: &[i32],
    ) -> (r: Result<Vec<i32>, String>)
        ensures
            *final(self) == *old(self),
            is_prepared_outcome(
                prepared.sequence_len as nat,
                max_new_tokens as nat,
                old(self).capacity() as nat,
                r,
            ),
    {
        self.generate_prepared_streaming_greedy(
            prepared,
            max_new_tokens,
            eos_token_ids,
            |token: i32| true,
        )
    }

    /// Seed the cache with a Gemma3n prompt and return the first token.
    pub fn prefill_gemma3n_prepared(&mut self, request: &Gemma3nPreparedPrefill) -> (r: Result<
        i32,
        String,
    >)
        ensures
            *final(self) == *old(self),
            r matches Err(message) && message@ == NOT_WIRED@,
    {
        Err(NOT_WIRED.to_owned())
    }

    /// Seed the cache with a DeepStack prompt and return the first token.
    pub fn prefill_deepstack_prepared(&mut self, request: &DeepStackPreparedPrefill) -> (r: Result<
        i32,
        String,
    >)
        ensures
            *final(self) == *old(self),
            r matches Err(message) && message@ == NOT_WIRED@,
    {
        Err(NOT_WIRED.to_owned())
    }

    /// Greedy generation from a DeepStack prompt.
    pub fn generate_deepstack_prepared_greedy(
        &mut self,
        request: &DeepStackPreparedPrefill,
        max_new_tokens: usize,
        eos_token_ids: &[i32],
    ) -> (r: Result<Vec<i32>, String>)
        ensures
            *final(self) == *old(self),
            is_prepared_outcome(
                request.prepared.sequence_len as nat,
                max_new_tokens as nat,
                old(self).capacity() as nat,
                r,
            ),
    {
        let run = match GreedyRun::from_prepared(
            request.prepared.sequence_len,
            max_new_tokens,
            eos_token_ids,
            self.context_capacity,
        ) {
            Ok(run) => run,
            Err(message) => return Err(message),
        };
        match run.action(self.context_capacity) {
            GreedyAction::SeedPrepared => match self.prefill_deepstack_prepared(request) {
                Err(message) => Err(message),
                Ok(_) => Ok(run.out),
            },
            _ => Ok(run.out),
        }
    }

    /// Greedy generation from a Gemma3n prompt.
    pub fn generate_gemma3n_prepared_greedy(
        &mut self,
        request: &Gemma3nPreparedPrefill,
        max_new_tokens: usize,
        eos_token_ids: &[i32],
    ) -> (r: Result<Vec<i32>, String>)
        ensures
            *final(self) == *old(self),
            is_prepared_outcome(
                request.prepared.sequence_len as nat,
                max_new_tokens as nat,
                old(self).capacity() as nat,
                r,
            ),
    {
        let run = match GreedyRun::from_prepared(
            request.prepared.sequence_len,
            max_new_tokens,
            eos_token_ids,
            self.context_capacity,
        ) {
            Ok(run) => run,
            Err(message) => return Err(message),
        };
        match run.action(self.context_capacity) {
            GreedyAction::SeedPrepared => match self.prefill_gemma3n_prepared(request) {
                Err(message) => Err(message),
                Ok(_) => Ok(run.out),
            },
            _ => Ok(run.out),
        }
    }

    /// Greedy generation from a prepared prompt, with a callback for each token.
    pub fn generate_prepared_streaming_greedy<F: Fn(i32) -> bool>(
        &mut self,
        prepared: &PreparedPrefill,
        max_new_tokens: usize,
        eos_token_ids: &[i32],
        on_token: F,
    ) -> (r: Result<Vec<i32>, String>)
        ensures
            *final(self) == *old(self),
            is_prepared_outcome(
                prepared.sequence_len as nat,
                max_new_tokens as nat,
                old(self).capacity() as nat,
                r,
            ),
    {
        let run = match GreedyRun::from_prepared(
            prepared.sequence_len,
            max_new_tokens,
            eos_token_ids,
            self.context_capacity,
        ) {
            Ok(run) => run,
            Err(message) => return Err(message),
        };
        match run.action(self.context_capacity) {
            GreedyAction::SeedPrepared => match self.prefill_prepared(prepared) {
                Err(message) => Err(message),
                Ok(_) => Ok(run.out),
            },
            _ => Ok(run.out),
        }
    }
}

} // verus!
