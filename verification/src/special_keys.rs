//! Weight names and layouts of the checkpoints that need a loader of their own: Moondream,
//! Phi-3 and Phi-4 vision models, and Molmo2.
use vstd::prelude::*;

use crate::molmo2_config::{is_depth, resolved_layer};
use crate::text::{
    contains_text, dec, dec_int, has_prefix, int_text, occurs, size_text, strip_prefix,
    tail, text_eq,
};

verus! {

/// A prefix and what stands in its place.
pub open spec fn swapped(key: Seq<char>, prefix: Seq<char>, by: Seq<char>) -> Option<Seq<char>> {
    if has_prefix(key, prefix) {
        Some(by + tail(key, prefix.len()))
    } else {
        None
    }
}

/// The first of two names that there is.
pub open spec fn or_name(first: Option<Seq<char>>, second: Seq<char>) -> Seq<char> {
    match first {
        Some(name) => name,
        None => second,
    }
}

fn swap_prefix(key: &str, prefix: &str, by: &str) -> (r: Option<String>)
    ensures
        match r {
            Some(name) => swapped(key@, prefix@, by@) == Some(name@),
            None => swapped(key@, prefix@, by@) is None,
        },
{
    match strip_prefix(key, prefix) {
        Some(rest) => Some(by.to_owned().concat(rest)),
        None => None,
    }
}

/// A Moondream name without its `model.`; the embedding table gets a `.weight`.
pub open spec fn moondream_name(key: Seq<char>) -> Seq<char> {
    let bare = if has_prefix(key, "model."@) {
        tail(key, "model."@.len())
    } else {
        key
    };
    if bare == "text.wte"@ {
        "text.wte.weight"@
    } else {
        bare
    }
}

/// Weights of the region head.
pub open spec fn in_region_head(key: Seq<char>) -> bool {
    has_prefix(moondream_name(key), "region."@)
}

fn moondream_text(key: &str) -> (r: String)
    ensures
        r@ == moondream_name(key@),
{
    let bare = match strip_prefix(key, "model.") {
        Some(rest) => rest,
        None => key,
    };
    if text_eq(bare, "text.wte") {
        "text.wte.weight".to_owned()
    } else {
        bare.to_owned()
    }
}

/// The loader's name of a Moondream3 weight; the region head is left out.
pub fn rewrite_moondream3_weight_key(key: &str) -> (r: Option<String>)
    ensures
        match r {
            Some(name) => !in_region_head(key@) && name@ == moondream_name(key@),
            None => in_region_head(key@),
        },
{
    let name = moondream_text(key);
    if strip_prefix(name.as_str(), "region.").is_some() {
        None
    } else {
        Some(name)
    }
}

/// The loader's name of a Moondream2 weight; the region head and position buffers are left
/// out.
pub fn rewrite_moondream2_weight_key(key: &str) -> (r: Option<String>)
    ensures
        match r {
            Some(name) => !in_region_head(key@) && !occurs(key@, "position_ids"@) && name@
                == moondream_name(key@),
            None => in_region_head(key@) || occurs(key@, "position_ids"@),
        },
{
    if contains_text(key, "position_ids") {
        return None;
    }
    rewrite_moondream3_weight_key(key)
}

/// A Phi-3 vision weight in the loader.
pub open spec fn phi3_name(key: Seq<char>) -> Seq<char> {
    or_name(
        swapped(key, "model.vision_embed_tokens.img_processor."@, "vision_tower."@),
        or_name(swapped(key, "model.vision_embed_tokens."@, ""@), key),
    )
}

/// The loader's name of a Phi-3 vision weight; position buffers are left out.
pub fn rewrite_phi3_weight_key(key: &str) -> (r: Option<String>)
    ensures
        match r {
            Some(name) => !occurs(key@, "position_ids"@) && name@ == phi3_name(key@),
            None => occurs(key@, "position_ids"@),
        },
{
    if contains_text(key, "position_ids") {
        return None;
    }
    let processor = swap_prefix(key, "model.vision_embed_tokens.img_processor.", "vision_tower.");
    if processor.is_some() {
        return processor;
    }
    let embed = swap_prefix(key, "model.vision_embed_tokens.", "");
    if embed.is_some() {
        return embed;
    }
    Some(key.to_owned())
}

/// A convolution kernel is laid out as output, height, width, input.
pub open spec fn channel_last(shape: Seq<usize>) -> bool {
    shape[0] >= shape[1] && shape[0] >= shape[2] && shape[1] == shape[2]
}

/// Whether a patch embedding has to be transposed to the channel-last layout.
pub fn should_transpose_phi3_patch_embedding(shape: &[usize]) -> (r: bool)
    ensures
        r == (shape@.len() == 4 && !channel_last(shape@)),
{
    shape.len() == 4 && !(shape[0] >= shape[1] && shape[0] >= shape[2] && shape[1] == shape[2])
}

/// How a patch embedding becomes a matrix.
#[derive(Debug, Clone, PartialEq, Eq)]
pub struct FlatPatchEmbedding {
    /// Transpose from the channel-first layout before flattening.
    pub transpose: bool,
    pub shape: Vec<usize>,
}

/// A kernel of four axes becomes a matrix with one row per output channel; others stay.
pub fn flatten_phi4mm_patch_embedding(shape: &[usize]) -> (r: FlatPatchEmbedding)
    requires
        shape@.len() == 4 ==> shape@[1] * shape@[2] <= usize::MAX && shape@[1] * shape@[2]
            * shape@[3] <= usize::MAX,
    ensures
        r.transpose == (shape@.len() == 4 && !channel_last(shape@)),
        shape@.len() != 4 ==> r.shape@ == shape@,
        shape@.len() == 4 ==> r.shape@ == seq![
            shape@[0],
            (shape@[1] * shape@[2] * shape@[3]) as usize,
        ],
{
    if shape.len() != 4 {
        return FlatPatchEmbedding { transpose: false, shape: vstd::slice::slice_to_vec(shape) };
    }
    let columns: usize = shape[1] * shape[2] * shape[3];
    FlatPatchEmbedding {
        transpose: should_transpose_phi3_patch_embedding(shape),
        shape: vec![shape[0], columns],
    }
}

/// A Phi-4 SigLIP weight in the loader.
pub open spec fn phi4_siglip_name(key: Seq<char>) -> Seq<char> {
    or_name(
        swapped(key, "model.vision_tower."@, "vision_tower."@),
        or_name(swapped(key, "model.mm_projector.0."@, "mm_projector_linear1."@), key),
    )
}

/// The loader's name of a Phi-4 SigLIP weight; position buffers are left out.
pub fn rewrite_phi4_siglip_weight_key(key: &str) -> (r: Option<String>)
    ensures
        match r {
            Some(name) => !occurs(key@, "position_ids"@) && name@ == phi4_siglip_name(key@),
            None => occurs(key@, "position_ids"@),
        },
{
    if contains_text(key, "position_ids") {
        return None;
    }
    let tower = swap_prefix(key, "model.vision_tower.", "vision_tower.");
    if tower.is_some() {
        return tower;
    }
    let projector = swap_prefix(key, "model.mm_projector.0.", "mm_projector_linear1.");
    if projector.is_some() {
        return projector;
    }
    Some(key.to_owned())
}

/// A Phi-4 multimodal weight in the loader.
pub open spec fn phi4mm_name(key: Seq<char>) -> Seq<char> {
    or_name(
        swapped(
            key,
            "model.embed_tokens_extend.image_embed.img_processor."@,
            "vision_tower.vision_tower.vision_model."@,
        ),
        or_name(
            swapped(
                key,
                "model.embed_tokens_extend.image_embed.img_projection.0."@,
                "mm_projector_linear1."@,
            ),
            or_name(
                swapped(key, "model.embed_tokens_extend.audio_embed."@, "audio_embed."@),
                key,
            ),
        ),
    )
}

/// The loader's name of a Phi-4 multimodal weight; position buffers are left out.
pub fn rewrite_phi4mm_weight_key(key: &str) -> (r: Option<String>)
    ensures
        match r {
            Some(name) => !occurs(key@, "position_ids"@) && name@ == phi4mm_name(key@),
            None => occurs(key@, "position_ids"@),
        },
{
    if contains_text(key, "position_ids") {
        return None;
    }
    let tower = swap_prefix(
        key,
        "model.embed_tokens_extend.image_embed.img_processor.",
        "vision_tower.vision_tower.vision_model.",
    );
    if tower.is_some() {
        return tower;
    }
    let projector = swap_prefix(
        key,
        "model.embed_tokens_extend.image_embed.img_projection.0.",
        "mm_projector_linear1.",
    );
    if projector.is_some() {
        return projector;
    }
    let audio = swap_prefix(key, "model.embed_tokens_extend.audio_embed.", "audio_embed.");
    if audio.is_some() {
        return audio;
    }
    Some(key.to_owned())
}

/// A Molmo2 weight in the loader.
pub open spec fn molmo2_name(key: Seq<char>) -> Seq<char> {
    or_name(
        swapped(key, "model.transformer."@, "language_model.model."@),
        or_name(
            swapped(
                key,
                "model.vision_backbone.transformer.resblocks."@,
                "vision_tower.transformer."@,
            ),
            or_name(
                swapped(key, "model.vision_backbone."@, "vision_tower."@),
                or_name(swapped(key, "lm_head."@, "language_model.lm_head."@), key),
            ),
        ),
    )
}

/// The loader's name of a Molmo2 weight.
pub fn rewrite_molmo2_weight_key(key: &str) -> (r: String)
    ensures
        r@ == molmo2_name(key@),
{
    if let Some(name) = swap_prefix(key, "model.transformer.", "language_model.model.") {
        return name;
    }
    if let Some(name) = swap_prefix(
        key,
        "model.vision_backbone.transformer.resblocks.",
        "vision_tower.transformer.",
    ) {
        return name;
    }
    if let Some(name) = swap_prefix(key, "model.vision_backbone.", "vision_tower.") {
        return name;
    }
    if let Some(name) = swap_prefix(key, "lm_head.", "language_model.lm_head.") {
        return name;
    }
    key.to_owned()
}

/// An entry of a layer list names one of the declared layers.
pub open spec fn names_layer(declared: usize, raw: i64) -> bool {
    0 <= resolved_layer(raw, declared) < declared
}

/// Every entry before `n` names a declared layer.
pub open spec fn name_layers(declared: usize, configured: Seq<i64>, n: int) -> bool {
    forall|i: int| 0 <= i < n ==> names_layer(declared, #[trigger] configured[i])
}

/// The layers that a list of non-negative or end-relative indices selects, in its order.
pub fn resolve_molmo2_vit_layers(declared: usize, configured: &[i64]) -> (r: Result<
    Vec<usize>,
    String,
>)
    ensures
        match r {
            Ok(layers) => {
                &&& configured@.len() > 0
                &&& name_layers(declared, configured@, configured@.len() as int)
                &&& layers@ == Seq::new(
                    configured@.len(),
                    |i: int| resolved_layer(configured@[i], declared) as usize,
                )
            },
            Err(message) => {
                ||| configured@.len() == 0 && message@ == "Molmo2 vit_layers must not be empty"@
                ||| exists|i: int|
                    #![trigger configured@[i]]
                    0 <= i < configured@.len() && name_layers(declared, configured@, i)
                        && !names_layer(declared, configured@[i]) && message@
                        == "Molmo2 vit_layers["@ + dec(i as nat) + "]="@ + dec_int(
                        configured@[i] as int,
                    ) + " resolves outside [0,"@ + dec(declared as nat) + ")"@
            },
        },
{
    if configured.len() == 0 {
        return Err("Molmo2 vit_layers must not be empty".to_owned());
    }
    let mut layers: Vec<usize> = Vec::new();
    let mut i: usize = 0;
    while i < configured.len()
        invariant
            i <= configured@.len(),
            name_layers(declared, configured@, i as int),
            layers@ == Seq::new(
                i as nat,
                |j: int| resolved_layer(configured@[j], declared) as usize,
            ),
        decreases configured@.len() - i,
    {
        let raw: i64 = configured[i];
        let resolved: i128 = if raw < 0 {
            declared as i128 + raw as i128
        } else {
            raw as i128
        };
        if resolved < 0 || resolved >= declared as i128 {
            assert(!names_layer(declared, configured@[i as int]));
            return Err(
                "Molmo2 vit_layers[".to_owned().concat(&size_text(i)).concat("]=").concat(
                    &int_text(raw),
                ).concat(" resolves outside [0,").concat(&size_text(declared)).concat(")"),
            );
        }
        layers.push(resolved as usize);
        i += 1;
    }
    Ok(layers)
}

/// How many layers have to run for the selected ones: one more than the largest.
pub fn molmo2_vit_execution_depth(selected: &[usize]) -> (r: Result<usize, String>)
    requires
        forall|i: int| 0 <= i < selected@.len() ==> #[trigger] selected@[i] < usize::MAX,
    ensures
        match r {
            Ok(depth) => selected@.len() > 0 && is_depth(selected@, depth as int),
            Err(message) => selected@.len() == 0 && message@
                == "Molmo2 vit_layers must not be empty"@,
        },
{
    if selected.len() == 0 {
        return Err("Molmo2 vit_layers must not be empty".to_owned());
    }
    let mut depth: usize = selected[0] + 1;
    let mut i: usize = 1;
    proof {
        assert(selected@[0] == (depth - 1) as usize);
    }
    while i < selected.len()
        invariant
            1 <= i <= selected@.len(),
            depth >= 1,
            forall|j: int| 0 <= j < selected@.len() ==> #[trigger] selected@[j] < usize::MAX,
            selected@.contains((depth - 1) as usize),
            forall|j: int| 0 <= j < i ==> #[trigger] selected@[j] < depth,
        decreases selected@.len() - i,
    {
        if selected[i] >= depth {
            depth = selected[i] + 1;
            assert(selected@[i as int] == (depth - 1) as usize);
        }
        i += 1;
    }
    Ok(depth)
}

/// A selected layer runs: the depth of a resolved selection is at most the declared depth.
pub proof fn law_execution_depth_is_declared(
    declared: usize,
    configured: Seq<i64>,
    selected: Seq<usize>,
    depth: int,
)
    requires
        name_layers(declared, configured, configured.len() as int),
        selected == Seq::new(
            configured.len(),
            |i: int| resolved_layer(configured[i], declared) as usize,
        ),
        is_depth(selected, depth),
        depth <= usize::MAX,
    ensures
        depth <= declared,
{
    let k = choose|k: int| 0 <= k < selected.len() && selected[k] == (depth - 1) as usize;
    assert(names_layer(declared, configured[k]));
}

} // verus!
