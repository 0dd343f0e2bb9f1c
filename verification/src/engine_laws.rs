//! What holds of prompts, batches and runs: tensors hold what their shapes say, padding and
//! flattening move nothing, and every token of a run has its own position.
use vstd::prelude::*;

use crate::config::Config;
use crate::engine::{padded, prompt_error, stack_error, PreparedDeepStack, PreparedIreePrefill};
use crate::json::JsonView;
use crate::ragged::{
    batch_error, flat, is_engine_of, lengths_error, mrope_rows_error, rows_error, slot_error,
    IreeRaggedLlama,
};
use crate::runtime::{product, PreparedPositionMode, RuntimeConfig};
use crate::session::{eos_of, request_error, token_list, GreedyAction, GreedyRun};

verus! {

/// A padded prompt begins with the prompt and goes on with zeros to the capacity.
pub proof fn law_padding_keeps_the_prompt(tokens: Seq<i32>, n: nat)
    requires
        tokens.len() <= n,
    ensures
        padded(tokens, n).len() == n,
        padded(tokens, n).subrange(0, tokens.len() as int) == tokens,
        forall|i: int| tokens.len() <= i < n ==> #[trigger] padded(tokens, n)[i] == 0,
{
    assert(padded(tokens, n).subrange(0, tokens.len() as int) =~= tokens);
}

proof fn lemma_two(a: usize, b: usize)
    ensures
        product(seq![a, b], 2) == a * b,
        product(seq![a], 1) == a,
{
    let (x, y) = (a as nat, b as nat);
    reveal_with_fuel(product, 3);
    assert(product(seq![a, b], 1) == 1 * x);
    assert(product(seq![a], 1) == 1 * x);
    assert(product(seq![a, b], 2) == (1 * x) * y);
    assert(1 * x == x) by (nonlinear_arith);
}

proof fn lemma_three(a: usize, b: usize, c: usize)
    ensures
        product(seq![a, b, c], 3) == a * b * c,
{
    let (x, y, z) = (a as nat, b as nat, c as nat);
    reveal_with_fuel(product, 4);
    assert(product(seq![a, b, c], 1) == 1 * x);
    assert(product(seq![a, b, c], 2) == (1 * x) * y);
    assert(product(seq![a, b, c], 3) == (1 * x) * y * z);
    assert(1 * x == x) by (nonlinear_arith);
}

/// An accepted prompt holds one embedding per position of the context, one bias per pair of
/// positions, and one coordinate per position or three of them.
pub proof fn law_accepted_prompts_fill_the_context(p: PreparedIreePrefill)
    requires
        prompt_error(p) is None,
        p.embeddings@.len() <= usize::MAX,
        p.attention_bias@.len() <= usize::MAX,
        p.positions.values@.len() <= usize::MAX,
    ensures
        p.embeddings@.len() == p.context_capacity * p.hidden_size,
        p.attention_bias@.len() == p.context_capacity * p.context_capacity,
        p.positions.mode == PreparedPositionMode::OneD ==> p.positions.values@.len()
            == p.context_capacity,
        p.positions.mode == PreparedPositionMode::Mrope3D ==> p.positions.values@.len() == 3
            * p.context_capacity,
{
    lemma_two(p.context_capacity, p.hidden_size);
    lemma_two(p.context_capacity, p.context_capacity);
    lemma_two(3, p.context_capacity);
}

/// Accepted additions hold one row of features per layer and position.
pub proof fn law_accepted_additions_fill_their_layers(s: PreparedDeepStack)
    requires
        stack_error(s) is None,
        s.visual_positions@.len() <= usize::MAX,
        s.layer_features@.len() <= usize::MAX,
        s.layer_indices@.len() <= usize::MAX,
    ensures
        s.visual_positions@.len() == s.max_visual_count,
        s.layer_indices@.len() == s.max_layer_count,
        s.layer_features@.len() == s.max_layer_count * s.max_visual_count * s.hidden_size,
{
    lemma_two(s.max_visual_count, 1);
    lemma_two(s.max_layer_count, 1);
    lemma_three(s.max_layer_count, s.max_visual_count, s.hidden_size);
}

/// Rows of a step are accepted exactly when each stands at the end of its cache, inside the
/// context.
pub proof fn law_accepted_rows(pos: Seq<i32>, cache_len: Seq<i32>, capacity: usize, from: int)
    requires
        0 <= from,
    ensures
        rows_error(pos, cache_len, capacity, from) is None <==> forall|i: int|
            from <= i < pos.len() ==> {
                &&& #[trigger] pos[i] == cache_len[i]
                &&& 0 <= cache_len[i] < capacity
            },
    decreases pos.len() - from,
{
    if from < pos.len() && pos[from] == cache_len[from] && 0 <= pos[from] < capacity {
        law_accepted_rows(pos, cache_len, capacity, from + 1);
    }
}

/// Rows of an M-RoPE step are accepted exactly when each cache ends inside the context and no
/// coordinate is negative.
pub proof fn law_accepted_mrope_rows(
    positions: Seq<[i32; 3]>,
    cache_len: Seq<i32>,
    capacity: usize,
    from: int,
)
    requires
        0 <= from,
    ensures
        mrope_rows_error(positions, cache_len, capacity, from) is None <==> forall|i: int|
            from <= i < cache_len.len() ==> {
                &&& 0 <= #[trigger] cache_len[i] < capacity
                &&& positions[i]@[0] >= 0 && positions[i]@[1] >= 0 && positions[i]@[2] >= 0
            },
    decreases cache_len.len() - from,
{
    if from < cache_len.len() && 0 <= cache_len[from] < capacity && positions[from]@[0] >= 0
        && positions[from]@[1] >= 0 && positions[from]@[2] >= 0 {
        law_accepted_mrope_rows(positions, cache_len, capacity, from + 1);
    }
}

/// Coordinates are handed over row by row, three for each row.
pub proof fn law_flattening_goes_row_by_row(positions: Seq<[i32; 3]>, row: int, k: int)
    requires
        0 <= row < positions.len(),
        0 <= k < 3,
    ensures
        flat(positions).len() == 3 * positions.len(),
        flat(positions)[3 * row + k] == positions[row]@[k],
{
}

/// Batches come in four and eight slots, a slot is below the count, and every list of a step
/// has one entry per slot.
pub proof fn law_batches_have_fixed_sizes(b_max: usize, slot: usize, entry: Seq<char>, n: nat)
    ensures
        batch_error(b_max) is None <==> b_max == 4 || b_max == 8,
        slot_error(slot, b_max) is None <==> slot < b_max,
        lengths_error(b_max, entry, seq![n]) is None <==> n == b_max,
{
    let lens = seq![n];
    assert(lens[0] == n);
}

/// A batched engine has the sizes of its model.
pub proof fn law_engines_have_the_sizes_of_their_model(
    e: IreeRaggedLlama,
    c: Config,
    b_max: usize,
)
    requires
        is_engine_of(e, RuntimeConfig::Dense(c), b_max, None),
    ensures
        e.b_max == b_max,
        e.vocab == c.vocab,
        e.context_capacity == c.context_capacity,
        e.hidden_size == c.hidden,
        e.model_layers == c.n_layers,
        e.dense_ple_shape is None,
        e.position_mode == PreparedPositionMode::Mrope3D <==> c.mrope is Some,
        e.deepstack_schema == c.deepstack,
{
}

/// A request is refused exactly when its prompt and its new tokens together are more than the
/// context holds.
pub proof fn law_requests_fit_the_context(prompt: nat, budget: nat, capacity: nat)
    ensures
        request_error(prompt, budget, capacity) is None <==> prompt + budget <= capacity,
{
}

/// Token `k` behind a prompt of tokens goes to position `prompt_len + k - 1`: the prompt's
/// last token is decoded where the seeded part ends, and each generated token right behind
/// the one before it.
pub proof fn law_tokens_have_their_own_positions(run: GreedyRun, capacity: usize)
    requires
        run.wf(capacity),
    ensures
        run.next() matches GreedyAction::Seed { len } ==> len + 1 == run.prompt_len,
        run.next() matches GreedyAction::Decode { token, position } ==> {
            &&& position + 1 == run.prompt_len + run.out@.len()
            &&& run.out@.len() > 0 ==> token == run.out@[run.out@.len() - 1]
            &&& run.out@.len() == 0 ==> run.last == Some(token)
        },
        run.next() is Done ==> run.budget == 0 || run.stopped || run.out@.len() == run.budget,
        run.next() is SeedPrepared ==> run.last is None && !run.seeded && run.budget > 0,
{
}

/// A run goes on exactly while the callback wants more, no token ended it, and the budget
/// lasts.
pub proof fn law_runs_end_by_token_callback_or_budget(
    run: GreedyRun,
    after: GreedyRun,
    token: i32,
    keep_going: bool,
    capacity: usize,
)
    requires
        run.wf(capacity),
        run.next() is Decode || run.next() is SeedPrepared,
        run.took(after, token, keep_going),
    ensures
        after.out@.len() == run.out@.len() + 1,
        after.out@.last() == token,
        after.next() is Done <==> !keep_going || run.eos@.contains(token) || run.out@.len() + 1
            >= run.budget,
        !(after.next() is Done) ==> after.next() is Decode && after.next()->token == token
            && after.next()->position == run.prompt_len + run.out@.len(),
{
}

/// Ending tokens of a list are those of its parts in order, and an entry that is no integer
/// adds none.
pub proof fn law_ending_tokens_are_listed_in_order(a: Seq<JsonView>, b: Seq<JsonView>)
    ensures
        token_list(a + b) == token_list(a) + token_list(b),
        forall|v: JsonView|
            v.as_i64() is None ==> #[trigger] token_list(seq![v]) == Seq::<i32>::empty(),
        forall|v: JsonView|
            v.as_i64() is Some ==> #[trigger] token_list(seq![v]) == seq![
                v.as_i64().unwrap() as i32,
            ],
    decreases b.len(),
{
    assert forall|v: JsonView|
        v.as_i64() is None implies #[trigger] token_list(seq![v]) == Seq::<i32>::empty() by {
        assert(seq![v].drop_last() =~= Seq::<JsonView>::empty());
        assert(token_list(seq![v].drop_last()) == Seq::<i32>::empty());
    }
    assert forall|v: JsonView|
        v.as_i64() is Some implies #[trigger] token_list(seq![v]) == seq![
        v.as_i64().unwrap() as i32,
    ] by {
        assert(seq![v].drop_last() =~= Seq::<JsonView>::empty());
        assert(token_list(seq![v].drop_last()) == Seq::<i32>::empty());
        assert(token_list(seq![v]) =~= seq![v.as_i64().unwrap() as i32]);
    }
    if b.len() == 0 {
        assert(a + b =~= a);
        assert(token_list(a) + token_list(b) =~= token_list(a));
    } else {
        law_ending_tokens_are_listed_in_order(a, b.drop_last());
        assert((a + b).drop_last() =~= a + b.drop_last());
        assert((a + b).last() == b.last());
        assert(token_list(a + b) =~= token_list(a) + token_list(b));
    }
}

/// A single ending token stands for a list of it.
pub proof fn law_one_ending_token_is_a_list_of_one(document: JsonView, listed: JsonView)
    requires
        document.get("eos_token_id"@) matches Some(v) && v.as_i64() is Some,
        listed.get("eos_token_id"@) == Some(
            JsonView::Array(seq![document.get("eos_token_id"@).unwrap()]),
        ),
    ensures
        eos_of(document) == eos_of(listed),
        eos_of(document).len() == 1,
{
    let v = document.get("eos_token_id"@).unwrap();
    law_ending_tokens_are_listed_in_order(seq![], seq![]);
    assert(token_list(seq![v]) == seq![v.as_i64().unwrap() as i32]);
}

} // verus!
