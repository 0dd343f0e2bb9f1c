//! What holds of every vision configuration that is read from a pair of documents: where its
//! fields come from, and what the documents agree on.
use vstd::prelude::*;

use crate::json::JsonView;
use crate::molmo2_config::{
    blocks_problem, ceil_div, crop_problem, derived_problem, describes_vision, feature_problem,
    half_up, heads_problem, layers_error, pair_of, processor_problem, resolved_layer, root_error,
    selection_problem, Molmo2VisionConfig,
};

verus! {

/// The documents of a configuration: the model document, its ViT and adapter blocks, and the
/// image processor's document.
pub open spec fn are_documents(
    root: JsonView,
    vit: JsonView,
    adapter: JsonView,
    p: JsonView,
    c: Molmo2VisionConfig,
) -> bool {
    &&& root_error(root) is None
    &&& root.get("vit_config"@) == Some(vit)
    &&& root.get("adapter_config"@) == Some(adapter)
    &&& blocks_problem(root, p) is None
    &&& describes_vision(root, p, c)
}

/// The sizes of the transformer stand in the ViT block, each under its key.
pub proof fn law_transformer_sizes_stand_in_the_vit_block(
    root: JsonView,
    vit: JsonView,
    adapter: JsonView,
    p: JsonView,
    c: Molmo2VisionConfig,
)
    requires
        are_documents(root, vit, adapter, p, c),
    ensures
        vit.get_u64("hidden_size"@) == Some(c.hidden as u64),
        vit.get_u64("intermediate_size"@) == Some(c.intermediate as u64),
        vit.get_u64("num_attention_heads"@) == Some(c.heads as u64),
        vit.get_u64("head_dim"@) == Some(c.head_dim as u64),
        vit.get_u64("image_patch_size"@) == Some(c.patch_size as u64),
        vit.get_u64("image_num_pos"@) == Some(c.position_count as u64),
        vit.get_double("layer_norm_eps"@) == Some(c.layer_norm_eps),
        vit.get_array("image_default_input_size"@) matches Some(sides) && sides.len() == 2
            && sides[0].as_u64() == Some(c.crop_size as u64) && sides[1].as_u64() == Some(
            c.crop_size as u64,
        ),
        vit.get_u64("num_hidden_layers"@) matches Some(n) && c.layers <= n && (c.layers == n
            || c.layers == 25),
        c.hidden > 0 && c.heads > 0 && c.head_dim > 0 && c.intermediate > 0,
        c.heads * c.head_dim == c.hidden,
{
    reveal(crop_problem);
    reveal(processor_problem);
    reveal(selection_problem);
    reveal(heads_problem);
    reveal(feature_problem);
    reveal(derived_problem);
    let sides = vit.get_array("image_default_input_size"@).unwrap();
    assert(pair_of(vit, "image_default_input_size"@)[0] == c.crop_size);
    assert(pair_of(vit, "image_default_input_size"@)[1] == c.crop_size);
}

/// The sizes of pooling and projector stand in the adapter block, each under its key.
pub proof fn law_pooling_sizes_stand_in_the_adapter_block(
    root: JsonView,
    vit: JsonView,
    adapter: JsonView,
    p: JsonView,
    c: Molmo2VisionConfig,
)
    requires
        are_documents(root, vit, adapter, p, c),
    ensures
        adapter.get_u64("hidden_size"@) == Some(c.pool_hidden as u64),
        adapter.get_u64("num_attention_heads"@) == Some(c.pool_heads as u64),
        adapter.get_u64("head_dim"@) == Some(c.pool_head_dim as u64),
        adapter.get_u64("intermediate_size"@) == Some(c.projector_intermediate as u64),
        adapter.get_u64("text_hidden_size"@) == Some(c.text_hidden as u64),
        adapter.get_bool("pooling_attention_mask"@) == Some(c.pooling_attention_mask),
        adapter.get_u64("image_feature_dim"@) matches Some(n) ==> n as usize == c.hidden
            * c.selected_layers@.len(),
        root.get("image_patch_id"@) matches Some(v) && v.as_i64() == Some(
            c.image_patch_id as i64,
        ),
        c.pool_heads * c.pool_head_dim == c.pool_hidden,
{
    reveal(crop_problem);
    reveal(processor_problem);
    reveal(selection_problem);
    reveal(heads_problem);
    reveal(feature_problem);
    reveal(derived_problem);
}

/// The image processor states the crops and their margins, pools by two in both directions,
/// and cuts crops and patches of the sizes that the transformer expects.
pub proof fn law_processor_agrees_with_the_transformer(
    root: JsonView,
    vit: JsonView,
    adapter: JsonView,
    p: JsonView,
    c: Molmo2VisionConfig,
)
    requires
        are_documents(root, vit, adapter, p, c),
    ensures
        p.get_u64("max_crops"@) == Some(c.max_crops as u64),
        c.static_crops == c.max_crops + 1,
        p.get_array("overlap_margins"@) matches Some(m) && m.len() == 2 && m[0].as_u64() == Some(
            c.overlap@[0] as u64,
        ) && m[1].as_u64() == Some(c.overlap@[1] as u64),
        p.get_array("pooling_size"@) matches Some(m) && m.len() == 2 && m[0].as_u64() == Some(
            c.pool_h as u64,
        ) && m[1].as_u64() == Some(c.pool_w as u64),
        c.pool_size == c.pool_h * c.pool_w && c.pool_h == 2 && c.pool_w == 2,
        p.get_u64("patch_size"@) == vit.get_u64("image_patch_size"@),
        p.get("size"@) matches Some(size) && size.get_u64("height"@) == Some(c.crop_size as u64)
            && size.get_u64("width"@) == Some(c.crop_size as u64),
        c.crop_size as int % c.patch_size as int == 0,
        c.overlap@[0] + c.overlap@[1] < c.crop_size as int / c.patch_size as int,
        c.patches_per_crop == (c.crop_size as int / c.patch_size as int) * (c.crop_size as int
            / c.patch_size as int),
        c.position_count == c.patches_per_crop,
        c.patch_dim == 3 * (c.patch_size * c.patch_size),
{
    reveal(crop_problem);
    reveal(processor_problem);
    reveal(selection_problem);
    reveal(heads_problem);
    reveal(feature_problem);
    reveal(derived_problem);
    assert(pair_of(p, "overlap_margins"@)[0] == c.overlap@[0]);
    assert(pair_of(p, "overlap_margins"@)[1] == c.overlap@[1]);
    assert(pair_of(p, "pooling_size"@)[0] == 2);
    assert(pair_of(p, "pooling_size"@)[1] == 2);
    assert(pair_of(vit, "image_default_input_size"@)[0] == c.crop_size);
    let s = c.patch_size as int;
    assert(s * s * 3 == 3 * (s * s)) by (nonlinear_arith);
}

/// Selected layers are those of the adapter block in its order; a negative entry counts from
/// the last layer back.
pub proof fn law_layers_count_from_both_ends(
    root: JsonView,
    vit: JsonView,
    adapter: JsonView,
    p: JsonView,
    c: Molmo2VisionConfig,
    i: int,
)
    requires
        are_documents(root, vit, adapter, p, c),
        0 <= i < c.selected_layers@.len(),
    ensures
        adapter.get_array("vit_layers"@) matches Some(listed) && {
            &&& listed.len() == c.selected_layers@.len()
            &&& listed[i].as_i64() matches Some(raw) && c.selected_layers@[i] == if raw >= 0 {
                raw as int
            } else {
                c.layers - (-raw)
            }
        },
        c.selected_layers@[i] < c.layers,
        c.selected_layers@[i] < c.emitted_layers,
{
    reveal(crop_problem);
    reveal(processor_problem);
    reveal(selection_problem);
    reveal(heads_problem);
    reveal(feature_problem);
    reveal(derived_problem);
    let listed = adapter.get_array("vit_layers"@).unwrap();
    lemma_entry_in_range(listed, c.layers, 0, i);
}

proof fn lemma_entry_in_range(values: Seq<JsonView>, layers: usize, from: int, k: int)
    requires
        0 <= from <= k < values.len(),
        layers_error(values, layers, from) is None,
    ensures
        values[k].as_i64() is Some,
        0 <= resolved_layer(values[k].as_i64().unwrap(), layers) < layers,
    decreases k - from,
{
    if from < k {
        lemma_entry_in_range(values, layers, from + 1, k);
    }
}

/// Rounding up gives the fewest parts that cover the whole.
pub proof fn law_parts_cover_the_whole(n: int, d: int)
    requires
        0 <= n,
        0 < d,
    ensures
        n <= ceil_div(n, d) * d < n + d,
        n <= half_up(n) * 2 < n + 2,
{
    vstd::arithmetic::div_mod::lemma_fundamental_div_mod(n, d);
    let (q, r) = (n / d, n % d);
    assert(0 <= r < d) by {
        vstd::arithmetic::div_mod::lemma_mod_bound(n, d);
    }
    assert(q * d == d * q && (q + 1) * d == d * q + d) by (nonlinear_arith);
}

} // verus!
