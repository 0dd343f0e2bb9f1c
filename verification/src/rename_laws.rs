//! What renaming a checkpoint's weights does: a known prefix gives way to the loader's, what
//! stands behind it stays, and other names stay whole.
use vstd::prelude::*;

use crate::checkpoint::{repackaged, spelled, wrapped_name, Gemma3nCheckpointNames};
use crate::special_keys::{
    molmo2_name, moondream_name, phi3_name, phi4_siglip_name, phi4mm_name,
};
use crate::text::{has_prefix, occurs, occurs_at, tail};
use crate::vlm::{
    last_place, qwen3_base_name, qwen3_name, replaced, unwrapped_name,
};

verus! {

proof fn lemma_starts(p: Seq<char>, rest: Seq<char>)
    ensures
        has_prefix(p + rest, p),
        tail(p + rest, p.len()) == rest,
{
    assert((p + rest).subrange(0, p.len() as int) =~= p);
    assert(tail(p + rest, p.len()) =~= rest);
}

/// A prefix that differs at some place is none.
proof fn lemma_differs(p: Seq<char>, q: Seq<char>, rest: Seq<char>, i: int)
    requires
        0 <= i < p.len(),
        i < q.len(),
        p[i] != q[i],
    ensures
        !has_prefix(p + rest, q),
{
    if has_prefix(p + rest, q) {
        assert((p + rest).subrange(0, q.len() as int)[i] == p[i]);
    }
}

/// A longer prefix goes on behind the shorter.
proof fn lemma_longer(p: Seq<char>, more: Seq<char>, q: Seq<char>, rest: Seq<char>)
    requires
        q == p + more,
        has_prefix(p + rest, q),
    ensures
        has_prefix(rest, more),
{
    let s = p + rest;
    assert forall|i: int| 0 <= i < more.len() implies rest[i] == more[i] by {
        assert(s.subrange(0, q.len() as int)[p.len() + i] == q[p.len() + i]);
    }
    assert(rest.subrange(0, more.len() as int) =~= more);
}

/// A Phi-3 vision weight has the loader's prefix in place of its own, for whatever stands behind it.
pub proof fn law_phi3_prefixes(rest: Seq<char>)
    ensures
        phi3_name("model.vision_embed_tokens.img_processor."@ + rest) == "vision_tower."@ + rest,
        !has_prefix(rest, "img_processor."@) ==> phi3_name("model.vision_embed_tokens."@ + rest) == rest,
        !has_prefix(rest, "model.vision_embed_tokens.img_processor."@) && !has_prefix(rest, "model.vision_embed_tokens."@) ==> phi3_name(rest) == rest,
{
    reveal_strlit("img_processor.");
    reveal_strlit("model.vision_embed_tokens.");
    reveal_strlit("model.vision_embed_tokens.img_processor.");
    lemma_starts("model.vision_embed_tokens.img_processor."@, rest);
    if !has_prefix(rest, "img_processor."@) {
        assert("model.vision_embed_tokens.img_processor."@ =~= "model.vision_embed_tokens."@ + "img_processor."@);
        if has_prefix("model.vision_embed_tokens."@ + rest, "model.vision_embed_tokens.img_processor."@) {
            lemma_longer("model.vision_embed_tokens."@, "img_processor."@, "model.vision_embed_tokens.img_processor."@, rest);
        }
    }
    lemma_starts("model.vision_embed_tokens."@, rest);
    reveal_strlit("");
    assert(""@ + rest =~= rest);
}

/// A Phi-4 SigLIP weight has the loader's prefix in place of its own, for whatever stands behind it.
pub proof fn law_phi4_siglip_prefixes(rest: Seq<char>)
    ensures
        phi4_siglip_name("model.vision_tower."@ + rest) == "vision_tower."@ + rest,
        phi4_siglip_name("model.mm_projector.0."@ + rest) == "mm_projector_linear1."@ + rest,
        !has_prefix(rest, "model.vision_tower."@) && !has_prefix(rest, "model.mm_projector.0."@) ==> phi4_siglip_name(rest) == rest,
{
    reveal_strlit("model.mm_projector.0.");
    reveal_strlit("model.vision_tower.");
    lemma_starts("model.vision_tower."@, rest);
    lemma_differs("model.mm_projector.0."@, "model.vision_tower."@, rest, 6);
    lemma_starts("model.mm_projector.0."@, rest);
}

/// A Phi-4 multimodal weight has the loader's prefix in place of its own, for whatever stands behind it.
pub proof fn law_phi4mm_prefixes(rest: Seq<char>)
    ensures
        phi4mm_name("model.embed_tokens_extend.image_embed.img_processor."@ + rest) == "vision_tower.vision_tower.vision_model."@ + rest,
        phi4mm_name("model.embed_tokens_extend.image_embed.img_projection.0."@ + rest) == "mm_projector_linear1."@ + rest,
        phi4mm_name("model.embed_tokens_extend.audio_embed."@ + rest) == "audio_embed."@ + rest,
        !has_prefix(rest, "model.embed_tokens_extend.image_embed.img_processor."@) && !has_prefix(rest, "model.embed_tokens_extend.image_embed.img_projection.0."@) && !has_prefix(rest, "model.embed_tokens_extend.audio_embed."@) ==> phi4mm_name(rest) == rest,
{
    reveal_strlit("model.embed_tokens_extend.audio_embed.");
    reveal_strlit("model.embed_tokens_extend.image_embed.img_processor.");
    reveal_strlit("model.embed_tokens_extend.image_embed.img_projection.0.");
    lemma_starts("model.embed_tokens_extend.image_embed.img_processor."@, rest);
    lemma_differs("model.embed_tokens_extend.image_embed.img_projection.0."@, "model.embed_tokens_extend.image_embed.img_processor."@, rest, 45);
    lemma_starts("model.embed_tokens_extend.image_embed.img_projection.0."@, rest);
    lemma_differs("model.embed_tokens_extend.audio_embed."@, "model.embed_tokens_extend.image_embed.img_processor."@, rest, 26);
    lemma_differs("model.embed_tokens_extend.audio_embed."@, "model.embed_tokens_extend.image_embed.img_projection.0."@, rest, 26);
    lemma_starts("model.embed_tokens_extend.audio_embed."@, rest);
}

/// A Molmo2 weight has the loader's prefix in place of its own, for whatever stands behind it.
pub proof fn law_molmo2_prefixes(rest: Seq<char>)
    ensures
        molmo2_name("model.transformer."@ + rest) == "language_model.model."@ + rest,
        molmo2_name("model.vision_backbone.transformer.resblocks."@ + rest) == "vision_tower.transformer."@ + rest,
        !has_prefix(rest, "transformer.resblocks."@) ==> molmo2_name("model.vision_backbone."@ + rest) == "vision_tower."@ + rest,
        molmo2_name("lm_head."@ + rest) == "language_model.lm_head."@ + rest,
        !has_prefix(rest, "model.transformer."@) && !has_prefix(rest, "model.vision_backbone.transformer.resblocks."@) && !has_prefix(rest, "model.vision_backbone."@) && !has_prefix(rest, "lm_head."@) ==> molmo2_name(rest) == rest,
{
    reveal_strlit("lm_head.");
    reveal_strlit("model.transformer.");
    reveal_strlit("model.vision_backbone.");
    reveal_strlit("model.vision_backbone.transformer.resblocks.");
    reveal_strlit("transformer.resblocks.");
    lemma_starts("model.transformer."@, rest);
    lemma_differs("model.vision_backbone.transformer.resblocks."@, "model.transformer."@, rest, 6);
    lemma_starts("model.vision_backbone.transformer.resblocks."@, rest);
    lemma_differs("model.vision_backbone."@, "model.transformer."@, rest, 6);
    if !has_prefix(rest, "transformer.resblocks."@) {
        assert("model.vision_backbone.transformer.resblocks."@ =~= "model.vision_backbone."@ + "transformer.resblocks."@);
        if has_prefix("model.vision_backbone."@ + rest, "model.vision_backbone.transformer.resblocks."@) {
            lemma_longer("model.vision_backbone."@, "transformer.resblocks."@, "model.vision_backbone.transformer.resblocks."@, rest);
        }
    }
    lemma_starts("model.vision_backbone."@, rest);
    lemma_differs("lm_head."@, "model.transformer."@, rest, 0);
    lemma_differs("lm_head."@, "model.vision_backbone.transformer.resblocks."@, rest, 0);
    lemma_differs("lm_head."@, "model.vision_backbone."@, rest, 0);
    lemma_starts("lm_head."@, rest);
}

/// A Qwen3-VL weight has the loader's prefix in place of its own, for whatever stands behind it.
pub proof fn law_qwen3_prefixes(rest: Seq<char>)
    ensures
        qwen3_base_name("model.language_model."@ + rest) == "model."@ + rest,
        qwen3_base_name("model.visual."@ + rest) == "vision_tower."@ + rest,
        qwen3_base_name("language_model."@ + rest) == rest,
        !has_prefix(rest, "model.language_model."@) && !has_prefix(rest, "model.visual."@) && !has_prefix(rest, "language_model."@) ==> qwen3_base_name(rest) == rest,
{
    reveal_strlit("language_model.");
    reveal_strlit("model.language_model.");
    reveal_strlit("model.visual.");
    lemma_starts("model.language_model."@, rest);
    lemma_differs("model.visual."@, "model.language_model."@, rest, 6);
    lemma_starts("model.visual."@, rest);
    lemma_differs("language_model."@, "model.language_model."@, rest, 0);
    lemma_differs("language_model."@, "model.visual."@, rest, 0);
    lemma_starts("language_model."@, rest);
    reveal_strlit("");
    assert(""@ + rest =~= rest);
}

/// A Moondream weight loses its `model.`, whatever else it is named; only the embedding table
/// gains a `.weight`.
pub proof fn law_moondream_prefixes(rest: Seq<char>)
    ensures
        rest != "text.wte"@ ==> moondream_name("model."@ + rest) == rest,
        rest != "text.wte"@ && !has_prefix(rest, "model."@) ==> moondream_name(rest) == rest,
        moondream_name("text.wte"@) == "text.wte"@ + ".weight"@,
        moondream_name("model."@ + "text.wte"@) == "text.wte"@ + ".weight"@,
{
    lemma_starts("model."@, rest);
    lemma_starts("model."@, "text.wte"@);
    reveal_strlit("model.");
    reveal_strlit("text.wte");
    reveal_strlit(".weight");
    reveal_strlit("text.wte.weight");
    if has_prefix("text.wte"@, "model."@) {
        assert("text.wte"@.subrange(0, 6)[0] == 't');
    }
    assert("text.wte.weight"@ =~= "text.wte"@ + ".weight"@);
}

/// Wrapping a language weight and unwrapping it gives the name back, and a name that is not
/// wrapped stays.
pub proof fn law_unwrapping_undoes_wrapping(name: Seq<char>)
    ensures
        unwrapped_name(wrapped_name(name)) == name,
        !has_prefix(name, "language_model."@) ==> unwrapped_name(name) == name,
{
    lemma_starts("language_model."@, name);
}

/// A Gemma3n language weight exchanges the two parts of its prefix in a repackaged
/// checkpoint; other names have no place there, and a canonical checkpoint keeps all.
pub proof fn law_repackaging_exchanges_the_prefix(rest: Seq<char>)
    ensures
        repackaged("model."@ + "language_model."@ + rest) == Some(
            "language_model."@ + "model."@ + rest,
        ),
        !has_prefix(rest, "model.language_model."@) ==> spelled(
            Some(Gemma3nCheckpointNames::Repackaged),
            rest,
        ) is None,
        spelled(Some(Gemma3nCheckpointNames::Canonical), rest) == Some(rest),
        spelled(None, rest) == Some(rest),
{
    reveal_strlit("model.");
    reveal_strlit("language_model.");
    reveal_strlit("model.language_model.");
    reveal_strlit("language_model.model.");
    assert("model."@ + "language_model."@ =~= "model.language_model."@);
    assert("language_model."@ + "model."@ =~= "language_model.model."@);
    lemma_starts("model.language_model."@, rest);
}

proof fn lemma_nothing_replaced(s: Seq<char>, needle: Seq<char>, by: Seq<char>, from: int)
    requires
        0 <= from <= s.len(),
        needle.len() > 0,
        forall|i: int| from <= i ==> !#[trigger] occurs_at(s, needle, i),
    ensures
        replaced(s, needle, by, from) == s.subrange(from, s.len() as int),
    decreases s.len() - from,
{
    if from < s.len() {
        lemma_nothing_replaced(s, needle, by, from + 1);
        assert(s.subrange(from, s.len() as int) =~= seq![s[from]] + s.subrange(
            from + 1,
            s.len() as int,
        ));
    } else {
        assert(s.subrange(from, s.len() as int) =~= Seq::<char>::empty());
    }
}

proof fn lemma_one_replaced(s: Seq<char>, needle: Seq<char>, by: Seq<char>, from: int, at: int)
    requires
        0 <= from <= at,
        needle.len() > 0,
        occurs_at(s, needle, at),
        forall|i: int| from <= i && i != at ==> !#[trigger] occurs_at(s, needle, i),
    ensures
        replaced(s, needle, by, from) == s.subrange(from, at) + by + s.subrange(
            at + needle.len(),
            s.len() as int,
        ),
    decreases at - from,
{
    let end = at + needle.len();
    if from == at {
        lemma_nothing_replaced(s, needle, by, end);
        assert(s.subrange(from, at) =~= Seq::<char>::empty());
        assert(replaced(s, needle, by, from) =~= s.subrange(from, at) + by + s.subrange(
            end,
            s.len() as int,
        ));
    } else {
        lemma_one_replaced(s, needle, by, from + 1, at);
        assert(s.subrange(from, at) =~= seq![s[from]] + s.subrange(from + 1, at));
        assert(replaced(s, needle, by, from) =~= s.subrange(from, at) + by + s.subrange(
            end,
            s.len() as int,
        ));
    }
}

proof fn lemma_only_place(s: Seq<char>, needle: Seq<char>, from: int, at: int)
    requires
        0 <= at <= from,
        occurs_at(s, needle, at),
        forall|i: int| i != at ==> !#[trigger] occurs_at(s, needle, i),
    ensures
        last_place(s, needle, from) == Some(at),
    decreases from,
{
    if from > at {
        assert(!occurs_at(s, needle, from));
        lemma_only_place(s, needle, from - 1, at);
    }
}

/// The expert bank of a mixture of experts becomes the `switch_mlp`: what stands before and
/// behind it stays, and a stacked tensor, whose name ends there, gains a `.weight`. Without
/// experts the name stays.
pub proof fn law_expert_bank_is_renamed(front: Seq<char>, leaf: Seq<char>)
    requires
        forall|i: int|
            i != front.len() ==> !#[trigger] occurs_at(
                front + ".mlp.experts."@ + leaf,
                ".mlp.experts."@,
                i,
            ),
        qwen3_base_name(front + ".mlp.experts."@ + leaf) == front + ".mlp.experts."@ + leaf,
    ensures
        qwen3_name(front + ".mlp.experts."@ + leaf, false) == front + ".mlp.experts."@ + leaf,
        qwen3_name(front + ".mlp.experts."@ + leaf, true) == front + ".mlp.switch_mlp."@ + leaf
            + if occurs(leaf, "."@) {
            Seq::<char>::empty()
        } else {
            ".weight"@
        },
{
    let needle = ".mlp.experts."@;
    let s = front + needle + leaf;
    let at = front.len() as int;
    reveal_strlit(".mlp.experts.");
    assert(s.subrange(at, at + needle.len()) =~= needle);
    assert(occurs_at(s, needle, at));
    lemma_only_place(s, needle, s.len() as int, at);
    assert(s.subrange(at + needle.len(), s.len() as int) =~= leaf);
    lemma_one_replaced(s, needle, ".mlp.switch_mlp."@, 0, at);
    assert(s.subrange(0, at) =~= front);
    let plain = front + ".mlp.switch_mlp."@ + leaf;
    assert(plain + Seq::<char>::empty() =~= plain);
}

} // verus!
