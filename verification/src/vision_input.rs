//! What goes into the vision tower and what comes out of it.
use vstd::prelude::*;

use crate::config::{first_error, reports};
use crate::molmo2::{
    count_valid, find_non_finite, first_non_finite, group_entries, groups_with, pooling_error,
    Molmo2InputError, Molmo2SafePooling,
};
use crate::molmo2_config::Molmo2VisionConfig;
use crate::text::{
    dec, int_list_form, int_list_text, list_form, list_text, size_text,
};

verus! {

/// The text of a value that is not finite.
pub open spec fn non_finite_form(bits: u32) -> Seq<char> {
    if bits == 0x7f80_0000 {
        "inf"@
    } else if bits == 0xff80_0000 {
        "-inf"@
    } else {
        "NaN"@
    }
}

/// Complaint about values that are not finite.
pub open spec fn finite_error(label: Seq<char>, values: Seq<u32>) -> Option<Seq<char>> {
    match first_non_finite(values, 0) {
        Some(i) => Some(
            label + " contains non-finite value "@ + non_finite_form(values[i])
                + " at flat index "@ + dec(i as nat),
        ),
        None => None,
    }
}

/// Check that every single is finite.
pub fn finite(label: &str, values: &[u32]) -> (r: Result<(), String>)
    ensures
        reports(r, finite_error(label@, values@)),
{
    match find_non_finite(values) {
        None => Ok(()),
        Some(index) => {
            let value = if values[index] == 0x7f80_0000 {
                "inf"
            } else if values[index] == 0xff80_0000 {
                "-inf"
            } else {
                "NaN"
            };
            Err(
                label.to_owned().concat(" contains non-finite value ").concat(value).concat(
                    " at flat index ",
                ).concat(&size_text(index)),
            )
        },
    }
}

/// An image for the vision tower. Patches are bits of singles.
#[derive(Debug, Clone, Copy)]
pub struct Molmo2VisionInput<'a> {
    pub patches: &'a [u32],
    pub patches_shape: [usize; 3],
    pub image_token_pooling: &'a [i32],
    pub pooling_shape: [usize; 2],
    pub image_grid: [i32; 4],
    pub image_num_crops: usize,
    pub prompt_image_patch_count: usize,
}

/// An image padded to the static shapes of the tower.
#[derive(Debug)]
pub struct PreparedMolmo2VisionInput {
    pub padded_patches: Vec<u32>,
    pub padded_signed_indices: Vec<i32>,
    pub signed_pooling_indices: Vec<i32>,
    pub valid_pooling_counts: Vec<i32>,
    pub active_groups: Vec<usize>,
    pub crops: usize,
    pub groups: usize,
}

/// A list with a filler behind it.
pub open spec fn filled_up<T>(s: Seq<T>, n: nat, filler: T) -> Seq<T> {
    Seq::new(
        n,
        |i: int|
            if i < s.len() {
                s[i]
            } else {
                filler
            },
    )
}

fn fill_up<T: Copy>(s: &[T], n: usize, filler: T) -> (r: Vec<T>)
    ensures
        r@ == filled_up(s@, n as nat, filler),
{
    let mut out: Vec<T> = Vec::new();
    let mut i: usize = 0;
    while i < n
        invariant
            i <= n,
            out@.len() == i,
            forall|j: int| 0 <= j < i ==> #[trigger] out@[j] == filled_up(s@, n as nat, filler)[j],
        decreases n - i,
    {
        if i < s.len() {
            out.push(s[i]);
        } else {
            out.push(filler);
        }
        i += 1;
    }
    assert(out@ =~= filled_up(s@, n as nat, filler));
    out
}

/// The sizes that the tower implies are ones that the machine counts, and so are the
/// entries of a pooling group.
pub open spec fn sizes_fit(c: Molmo2VisionConfig) -> bool {
    &&& c.geometry_fits()
    &&& c.static_crops * c.patches_per_crop * c.patch_dim <= usize::MAX
    &&& c.static_crops * c.patches_per_crop <= usize::MAX
    &&& c.static_pool_groups * c.pool_size <= usize::MAX
    &&& c.pool_size <= i32::MAX
}

/// Complaint about the patches of an image.
pub open spec fn patches_error(c: Molmo2VisionConfig, input: Molmo2VisionInput<'_>) -> Option<
    Seq<char>,
> {
    let shape = input.patches_shape@;
    if shape[0] != input.image_num_crops || shape[0] == 0 || shape[0] > c.static_crops || shape[1]
        != c.patches_per_crop || shape[2] != c.patch_dim {
        Some(
            "Molmo2 patch shape "@ + list_form(shape) + ", image_num_crops="@ + dec(
                input.image_num_crops as nat,
            ) + " disagrees with static ["@ + dec(c.static_crops as nat) + ","@ + dec(
                c.patches_per_crop as nat,
            ) + ","@ + dec(c.patch_dim as nat) + "]"@,
        )
    } else if input.patches@.len() != shape[0] * shape[1] * shape[2] {
        Some(
            "Molmo2 patch payload has "@ + dec(input.patches@.len()) + " values, expected "@ + dec(
                (shape[0] * shape[1] * shape[2]) as nat,
            ),
        )
    } else {
        finite_error("Molmo2 patches"@, input.patches@)
    }
}

/// A grid has a negative dimension.
pub open spec fn has_negative(grid: Seq<i32>) -> bool {
    grid[0] < 0 || grid[1] < 0 || grid[2] < 0 || grid[3] < 0
}

/// A grid as sizes.
pub open spec fn as_sizes(grid: Seq<i32>) -> Seq<usize> {
    Seq::new(4, |i: int| grid[i] as usize)
}

/// The pooling groups of a grid.
pub open spec fn grid_groups(grid: Seq<i32>) -> int {
    grid[0] * grid[1] + grid[2] * grid[3]
}

/// Complaint about the grid of an image.
pub open spec fn grid_error(c: Molmo2VisionConfig, input: Molmo2VisionInput<'_>) -> Option<
    Seq<char>,
> {
    let grid = input.image_grid@;
    let crops = input.patches_shape@[0];
    if has_negative(grid) {
        Some("Molmo2 image grid contains a negative dimension"@)
    } else if !c.is_grid(crops as int, as_sizes(grid)) {
        Some(
            "Molmo2 crop count "@ + dec(crops as nat) + " and image grid "@ + int_list_form(grid)
                + " disagree with processor geometry"@,
        )
    } else if grid[0] * grid[1] > usize::MAX || grid[2] * grid[3] > usize::MAX || grid_groups(grid)
        > usize::MAX {
        Some("Molmo2 image grid overflowed"@)
    } else if input.pooling_shape@[0] != grid_groups(grid) || input.pooling_shape@[0]
        > c.static_pool_groups || input.pooling_shape@[1] != c.pool_size {
        Some(
            "Molmo2 pooling shape "@ + list_form(input.pooling_shape@) + " disagrees with grid "@
                + int_list_form(grid) + " and static ["@ + dec(c.static_pool_groups as nat) + ","@
                + dec(c.pool_size as nat) + "]"@,
        )
    } else {
        None
    }
}

/// Complaint about the pooling indices of an image.
pub open spec fn indices_error(input: Molmo2VisionInput<'_>) -> Option<Seq<char>> {
    match pooling_error(
        input.image_token_pooling@,
        input.pooling_shape@[0],
        input.pooling_shape@[1],
        (input.patches_shape@[0] * input.patches_shape@[1]) as usize,
    ) {
        Some(e) => Some(e.text()),
        None => None,
    }
}

/// Complaint about an image, up to the number of groups that the prompt expects.
pub open spec fn image_error(c: Molmo2VisionConfig, input: Molmo2VisionInput<'_>) -> Option<
    Seq<char>,
> {
    first_error(
        patches_error(c, input),
        first_error(grid_error(c, input), indices_error(input)),
    )
}

/// The valid entries of each group.
pub open spec fn are_counts(input: Molmo2VisionInput<'_>, counts: Seq<i32>) -> bool {
    &&& counts.len() == input.pooling_shape@[0]
    &&& forall|g: int|
        0 <= g < counts.len() ==> (#[trigger] counts[g]) as int == count_valid(
            group_entries(input.image_token_pooling@, input.pooling_shape@[1], g),
        )
}

/// The prompt expects as many groups as the grid has and as hold a valid entry.
pub open spec fn prompt_agrees(input: Molmo2VisionInput<'_>, counts: Seq<i32>) -> bool {
    &&& grid_groups(input.image_grid@) == input.prompt_image_patch_count
    &&& groups_with(counts, true).len() == input.prompt_image_patch_count
}

/// The outcome of preparing an image.
pub open spec fn is_prepared(
    c: Molmo2VisionConfig,
    input: Molmo2VisionInput<'_>,
    r: Result<PreparedMolmo2VisionInput, String>,
) -> bool {
    match image_error(c, input) {
        Some(error) => r matches Err(message) && message@ == error,
        None => exists|counts: Seq<i32>| #[trigger]
            are_counts(input, counts) && match r {
                Ok(p) => {
                    &&& prompt_agrees(input, counts)
                    &&& p.padded_patches@ == filled_up(
                        input.patches@,
                        (c.static_crops * c.patches_per_crop * c.patch_dim) as nat,
                        0u32,
                    )
                    &&& p.padded_signed_indices@ == filled_up(
                        input.image_token_pooling@,
                        (c.static_pool_groups * c.pool_size) as nat,
                        -1i32,
                    )
                    &&& p.signed_pooling_indices@ == input.image_token_pooling@
                    &&& p.valid_pooling_counts@ == counts
                    &&& p.active_groups@ == groups_with(counts, true)
                    &&& p.crops == input.patches_shape@[0]
                    &&& p.groups == input.pooling_shape@[0]
                },
                Err(message) => !prompt_agrees(input, counts) && exists|e: Molmo2InputError|
                    message@ == #[trigger] e.text() && is_count_refusal(input, counts, e),
            },
    }
}

/// The refusal of a prompt that expects another number of groups.
pub open spec fn is_count_refusal(
    input: Molmo2VisionInput<'_>,
    counts: Seq<i32>,
    e: Molmo2InputError,
) -> bool {
    e matches Molmo2InputError::ActiveTokenCount {
        active_groups,
        grid_groups: stated_grid,
        prompt_positions,
        all_invalid_groups,
    } && active_groups == groups_with(counts, true).len() && stated_grid == grid_groups(
        input.image_grid@,
    ) && prompt_positions == input.prompt_image_patch_count && all_invalid_groups@ == groups_with(
        counts,
        false,
    )
}

proof fn lemma_count_at_most(s: Seq<i32>)
    ensures
        count_valid(s) <= s.len(),
    decreases s.len(),
{
    if s.len() > 0 {
        lemma_count_at_most(s.drop_last());
    }
}

fn check_patches(c: &Molmo2VisionConfig, input: &Molmo2VisionInput<'_>) -> (r: Result<(), String>)
    requires
        sizes_fit(*c),
    ensures
        reports(r, patches_error(*c, *input)),
{
    let crops: usize = input.patches_shape[0];
    let patches: usize = input.patches_shape[1];
    let patch_dim: usize = input.patches_shape[2];
    if crops != input.image_num_crops || crops == 0 || crops > c.static_crops || patches
        != c.patches_per_crop || patch_dim != c.patch_dim {
        return Err(
            "Molmo2 patch shape ".to_owned().concat(&list_text(&input.patches_shape)).concat(
                ", image_num_crops=",
            ).concat(&size_text(input.image_num_crops)).concat(" disagrees with static [").concat(
                &size_text(c.static_crops),
            ).concat(",").concat(&size_text(c.patches_per_crop)).concat(",").concat(
                &size_text(c.patch_dim),
            ).concat("]"),
        );
    }
    proof {
        lemma_fewer_crops(crops as int, c.static_crops as int, patches as int, patch_dim as int);
    }
    let values: usize = crops * patches * patch_dim;
    if input.patches.len() != values {
        return Err(
            "Molmo2 patch payload has ".to_owned().concat(&size_text(input.patches.len())).concat(
                " values, expected ",
            ).concat(&size_text(values)),
        );
    }
    finite("Molmo2 patches", input.patches)
}

proof fn lemma_fewer_crops(crops: int, all: int, patches: int, dim: int)
    requires
        0 <= crops <= all,
        0 <= patches,
        0 <= dim,
    ensures
        0 <= crops * patches <= all * patches,
        0 <= crops * patches * dim <= all * patches * dim,
{
    assert(0 <= crops * patches <= all * patches) by (nonlinear_arith)
        requires
            0 <= crops <= all,
            0 <= patches,
    ;
    let a = crops * patches;
    let b = all * patches;
    assert(0 <= a * dim <= b * dim) by (nonlinear_arith)
        requires
            0 <= a <= b,
            0 <= dim,
    ;
}

fn check_grid(c: &Molmo2VisionConfig, input: &Molmo2VisionInput<'_>) -> (r: Result<usize, String>)
    requires
        sizes_fit(*c),
    ensures
        match r {
            Ok(groups) => grid_error(*c, *input) is None && groups == grid_groups(
                input.image_grid@,
            ),
            Err(message) => grid_error(*c, *input) == Some(message@),
        },
{
    let grid = input.image_grid;
    if grid[0] < 0 || grid[1] < 0 || grid[2] < 0 || grid[3] < 0 {
        return Err("Molmo2 image grid contains a negative dimension".to_owned());
    }
    let sizes: [usize; 4] = [
        grid[0] as usize,
        grid[1] as usize,
        grid[2] as usize,
        grid[3] as usize,
    ];
    assert(sizes@ =~= as_sizes(input.image_grid@));
    let crops: usize = input.patches_shape[0];
    if !c.valid_runtime_geometry(crops, sizes) {
        return Err(
            "Molmo2 crop count ".to_owned().concat(&size_text(crops)).concat(
                " and image grid ",
            ).concat(&int_list_text(&input.image_grid)).concat(
                " disagree with processor geometry",
            ),
        );
    }
    let low = sizes[0].checked_mul(sizes[1]);
    let high = sizes[2].checked_mul(sizes[3]);
    let groups: usize = match (low, high) {
        (Some(low), Some(high)) => match low.checked_add(high) {
            Some(groups) => groups,
            None => return Err("Molmo2 image grid overflowed".to_owned()),
        },
        _ => return Err("Molmo2 image grid overflowed".to_owned()),
    };
    if input.pooling_shape[0] != groups || input.pooling_shape[0] > c.static_pool_groups
        || input.pooling_shape[1] != c.pool_size {
        return Err(
            "Molmo2 pooling shape ".to_owned().concat(&list_text(&input.pooling_shape)).concat(
                " disagrees with grid ",
            ).concat(&int_list_text(&input.image_grid)).concat(" and static [").concat(
                &size_text(c.static_pool_groups),
            ).concat(",").concat(&size_text(c.pool_size)).concat("]"),
        );
    }
    Ok(groups)
}

/// Check an image and pad it to the static shapes of the tower.
pub fn prepare_vision_input(c: &Molmo2VisionConfig, input: &Molmo2VisionInput<'_>) -> (r: Result<
    PreparedMolmo2VisionInput,
    String,
>)
    requires
        sizes_fit(*c),
    ensures
        is_prepared(*c, *input, r),
{
    match check_patches(c, input) {
        Ok(_) => {},
        Err(message) => return Err(message),
    }
    let groups: usize = match check_grid(c, input) {
        Ok(groups) => groups,
        Err(message) => return Err(message),
    };
    let crops: usize = input.patches_shape[0];
    proof {
        lemma_fewer_crops(
            crops as int,
            c.static_crops as int,
            c.patches_per_crop as int,
            c.patch_dim as int,
        );
        let s = input.image_token_pooling@;
        assert forall|g: int|
            0 <= g < groups && s.len() == groups * c.pool_size implies count_valid(
            #[trigger] group_entries(s, c.pool_size, g),
        ) <= i32::MAX by {
            assert(0 <= g * c.pool_size && g * c.pool_size + c.pool_size <= groups * c.pool_size)
                by (nonlinear_arith)
                requires
                    0 <= g < groups,
                    0 <= c.pool_size,
            ;
            lemma_count_at_most(group_entries(s, c.pool_size, g));
        }
    }
    let safe = match Molmo2SafePooling::prepare(
        input.image_token_pooling,
        groups,
        input.pooling_shape[1],
        crops * input.patches_shape[1],
    ) {
        Ok(safe) => safe,
        Err(e) => return Err(e.message()),
    };
    let ghost counts = safe.valid_counts@;
    assert(are_counts(*input, counts));
    let active_groups = match safe.active_groups_for_prompt(
        groups,
        input.prompt_image_patch_count,
    ) {
        Ok(active_groups) => active_groups,
        Err(e) => {
            assert(is_count_refusal(*input, counts, e));
            return Err(e.message());
        },
    };
    let padded_patches = fill_up(
        input.patches,
        c.static_crops * c.patches_per_crop * c.patch_dim,
        0u32,
    );
    let padded_signed_indices = fill_up(
        safe.signed_indices.as_slice(),
        c.static_pool_groups * c.pool_size,
        -1i32,
    );
    Ok(
        PreparedMolmo2VisionInput {
            padded_patches,
            padded_signed_indices,
            signed_pooling_indices: safe.signed_indices,
            valid_pooling_counts: safe.valid_counts,
            active_groups,
            crops,
            groups,
        },
    )
}

} // verus!
