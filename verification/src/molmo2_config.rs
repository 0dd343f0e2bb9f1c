//! The vision and processor contract of a Molmo2 checkpoint.
use vstd::prelude::*;

use crate::config::first_error;
use crate::config_json::size_or;
use crate::double::{is_positive_finite, positive_finite};
use crate::json::{json_error_text, json_items, json_of_text, parse_json, Json, JsonView};
use crate::problem::{
    first_problem, overflow_if, refusal, refuse_if, refused, Problem, ProblemView,
};
use crate::text::{
    bool_form, bool_text, dec, dec_int, int_text, list_form, list_text, size_text, text_eq,
};

verus! {

/// The most high-resolution crops that a graph is built for.
pub const MAX_SUPPORTED_CROPS: usize = 8;

/// The most ViT layers that a graph runs.
pub const MAX_VIT_LAYERS: usize = 25;

pub const MSG_MODEL_TYPE: &'static str =
    "Molmo2 XLA vision requires config.json model_type `molmo2`";

pub const MSG_PROCESSOR_OBJECT: &'static str = "Molmo2 preprocessor config must be an object";

pub const MSG_SQUARE: &'static str = "Molmo2 XLA requires square default image crops";

pub const MSG_OVERFLOW: &'static str = "Molmo2 vision geometry overflows";

pub const MSG_SIZE_OBJECT: &'static str = "Molmo2 preprocessor missing object `size`";

pub const MSG_GEOMETRY: &'static str =
    "Molmo2 processor and ViT crop/patch geometry disagree";

pub const MSG_MARGINS: &'static str = "Molmo2 overlap margins consume the complete crop";

pub const MSG_VIT_LAYERS: &'static str = "Molmo2 adapter `vit_layers` must be an array";

pub const MSG_NO_LAYER: &'static str = "Molmo2 adapter must select at least one ViT layer";

pub const MSG_VIT_HEADS: &'static str =
    "Molmo2 XLA requires ViT MHA with heads * head_dim = hidden_size";

pub const MSG_POOL_HEADS: &'static str =
    "Molmo2 XLA requires pooling MHA with heads * head_dim = hidden_size";

pub const MSG_SELECTED_WIDTH: &'static str = "Molmo2 selected feature width overflowed";

pub const MSG_EPSILON: &'static str = "Molmo2 layer_norm_eps must be positive and finite";

pub const MSG_PATCH_ID: &'static str = "Molmo2 image_patch_id must fit i32";

pub const MSG_POOL_MASK: &'static str =
    "Molmo2 pooling_attention_mask must be an explicit boolean";

/// A weight of the vision tower and its shape.
#[derive(Debug, Clone, PartialEq, Eq)]
pub struct Molmo2VisionWeightSpec {
    pub name: String,
    pub shape: Vec<usize>,
}

/// The static geometry of the vision tower.
#[derive(Debug, Clone, PartialEq, Eq)]
pub struct Molmo2VisionConfig {
    pub crop_size: usize,
    pub patch_size: usize,
    pub patches_per_crop: usize,
    pub patch_dim: usize,
    pub max_crops: usize,
    pub static_crops: usize,
    pub overlap: [usize; 2],
    pub pool_h: usize,
    pub pool_w: usize,
    pub pool_size: usize,
    pub static_pool_groups: usize,
    pub hidden: usize,
    pub intermediate: usize,
    pub heads: usize,
    pub head_dim: usize,
    pub layers: usize,
    pub emitted_layers: usize,
    pub selected_layers: Vec<usize>,
    pub position_count: usize,
    /// Bits of a double.
    pub layer_norm_eps: u64,
    pub pool_hidden: usize,
    pub pool_heads: usize,
    pub pool_head_dim: usize,
    pub projector_intermediate: usize,
    pub text_hidden: usize,
    pub pooling_attention_mask: bool,
    pub image_patch_id: i32,
}

/// The member is an object.
pub open spec fn has_object(v: JsonView, name: Seq<char>) -> bool {
    v.get(name) matches Some(JsonView::Object(_))
}

/// Complaint about an object member.
pub open spec fn object_error(v: JsonView, name: Seq<char>) -> Option<Seq<char>> {
    if has_object(v, name) {
        None
    } else {
        Some("Molmo2 config missing object `"@ + name + "`"@)
    }
}

fn read_object<'a>(v: &'a Json, name: &str) -> (r: Result<&'a Json, String>)
    ensures
        match r {
            Ok(o) => object_error(v@, name@) is None && v@.get(name@) == Some(o@),
            Err(message) => object_error(v@, name@) == Some(message@),
        },
{
    match v.get(name) {
        Some(o) => if o.as_object().is_some() {
            Ok(o)
        } else {
            Err("Molmo2 config missing object `".to_owned().concat(name).concat("`"))
        },
        None => Err("Molmo2 config missing object `".to_owned().concat(name).concat("`")),
    }
}

/// An unsigned integer that fits a size.
pub open spec fn fitting(v: JsonView) -> Option<usize> {
    match v.as_u64() {
        Some(n) => if n <= usize::MAX {
            Some(n as usize)
        } else {
            None
        },
        None => None,
    }
}

/// A positive integer member.
pub open spec fn positive(v: JsonView, name: Seq<char>) -> Option<usize> {
    match v.get(name) {
        Some(member) => match fitting(member) {
            Some(n) => if n > 0 {
                Some(n)
            } else {
                None
            },
            None => None,
        },
        None => None,
    }
}

/// Complaint about a positive integer member.
pub open spec fn positive_error(v: JsonView, name: Seq<char>) -> Option<Seq<char>> {
    if positive(v, name) is Some {
        None
    } else {
        Some("Molmo2 `"@ + name + "` must be a positive integer"@)
    }
}

fn read_fitting(v: &Json) -> (r: Option<usize>)
    ensures
        r == fitting(v@),
{
    match v.as_u64() {
        Some(n) => if n <= usize::MAX as u64 {
            Some(n as usize)
        } else {
            None
        },
        None => None,
    }
}

fn read_positive(v: &Json, name: &str) -> (r: Result<usize, String>)
    ensures
        match r {
            Ok(n) => positive_error(v@, name@) is None && positive(v@, name@) == Some(n) && n > 0,
            Err(message) => positive_error(v@, name@) == Some(message@),
        },
{
    let found: usize = match v.get(name) {
        Some(member) => match read_fitting(member) {
            Some(n) => n,
            None => 0,
        },
        None => 0,
    };
    if found > 0 {
        Ok(found)
    } else {
        Err("Molmo2 `".to_owned().concat(name).concat("` must be a positive integer"))
    }
}

/// Complaint about one entry of a pair.
pub open spec fn entry_error(
    name: Seq<char>,
    v: JsonView,
    index: nat,
    zero_allowed: bool,
) -> Option<Seq<char>> {
    if fitting(v) is Some && (zero_allowed || fitting(v).unwrap() > 0) {
        None
    } else {
        Some(
            "Molmo2 `"@ + name + "["@ + dec(index) + (if zero_allowed {
                "]` must be nonnegative"@
            } else {
                "]` must be positive"@
            }),
        )
    }
}

/// Complaint about a pair of integers.
pub open spec fn pair_error(v: JsonView, name: Seq<char>, zero_allowed: bool) -> Option<Seq<char>> {
    let listed = v.get_array(name);
    if listed is None || listed.unwrap().len() != 2 {
        Some(
            "Molmo2 `"@ + name + (if zero_allowed {
                "` must contain two nonnegative integers"@
            } else {
                "` must contain two integers"@
            }),
        )
    } else {
        first_error(
            entry_error(name, listed.unwrap()[0], 0, zero_allowed),
            entry_error(name, listed.unwrap()[1], 1, zero_allowed),
        )
    }
}

/// The pair of integers in a member.
pub open spec fn pair_of(v: JsonView, name: Seq<char>) -> Seq<usize> {
    let listed = v.get_array(name).unwrap();
    seq![fitting(listed[0]).unwrap(), fitting(listed[1]).unwrap()]
}

fn read_entry(name: &str, v: &Json, index: usize, zero_allowed: bool) -> (r: Result<usize, String>)
    ensures
        match r {
            Ok(n) => entry_error(name@, v@, index as nat, zero_allowed) is None && fitting(v@)
                == Some(n),
            Err(message) => entry_error(name@, v@, index as nat, zero_allowed) == Some(message@),
        },
{
    let head = "Molmo2 `".to_owned().concat(name).concat("[").concat(&size_text(index));
    let ending = if zero_allowed {
        "]` must be nonnegative"
    } else {
        "]` must be positive"
    };
    match read_fitting(v) {
        Some(n) => if zero_allowed || n > 0 {
            Ok(n)
        } else {
            Err(head.concat(ending))
        },
        None => Err(head.concat(ending)),
    }
}

fn read_pair(v: &Json, name: &str, zero_allowed: bool) -> (r: Result<[usize; 2], String>)
    ensures
        match r {
            Ok(pair) => pair_error(v@, name@, zero_allowed) is None && pair@ == pair_of(v@, name@),
            Err(message) => pair_error(v@, name@, zero_allowed) == Some(message@),
        },
{
    let ending = if zero_allowed {
        "` must contain two nonnegative integers"
    } else {
        "` must contain two integers"
    };
    let values = match v.get_array(name) {
        Some(values) => values,
        None => return Err("Molmo2 `".to_owned().concat(name).concat(ending)),
    };
    if values.len() != 2 {
        return Err("Molmo2 `".to_owned().concat(name).concat(ending));
    }
    assert(json_items(values@)[0] == values@[0]@);
    assert(json_items(values@)[1] == values@[1]@);
    let first = match read_entry(name, &values[0], 0, zero_allowed) {
        Ok(n) => n,
        Err(message) => return Err(message),
    };
    let second = match read_entry(name, &values[1], 1, zero_allowed) {
        Ok(n) => n,
        Err(message) => return Err(message),
    };
    let pair: [usize; 2] = [first, second];
    assert(pair@ =~= pair_of(v@, name@));
    Ok(pair)
}

/// `n` halves, rounded up.
pub open spec fn half_up(n: int) -> int {
    n / 2 + n % 2
}

/// Patches of the high-resolution image along one axis of `crops` crops.
pub open spec fn axis_patches(crops: int, window: int, margins: int) -> int {
    crops * window + margins
}

/// Pooled groups of a high-resolution image of `rows` by `columns` crops.
pub open spec fn high_groups(rows: int, columns: int, window: int, margins: int) -> int {
    half_up(axis_patches(rows, window, margins)) * half_up(axis_patches(columns, window, margins))
}

/// A layout of at most `max_crops` crops.
pub open spec fn is_layout(rows: int, columns: int, max_crops: int) -> bool {
    1 <= rows <= max_crops && 1 <= columns <= max_crops && rows * columns <= max_crops
}

/// `groups` is the most pooled groups that an image can have: those of the
/// low-resolution crop and those of the largest layout, where there is one.
pub open spec fn is_maximum_pool_groups(
    max_crops: int,
    crop_patches: int,
    margins: int,
    groups: int,
) -> bool {
    let window = crop_patches - margins;
    let high = groups - half_up(crop_patches) * half_up(crop_patches);
    &&& max_crops < 1 ==> high == 0
    &&& max_crops >= 1 ==> exists|rows: int, columns: int|
        is_layout(rows, columns, max_crops) && high == #[trigger] high_groups(
            rows,
            columns,
            window,
            margins,
        )
    &&& forall|rows: int, columns: int|
        is_layout(rows, columns, max_crops) ==> #[trigger] high_groups(
            rows,
            columns,
            window,
            margins,
        ) <= high
}

/// Both margins together.
pub open spec fn margins_of(overlap: Seq<usize>) -> int {
    overlap[0] + overlap[1]
}

/// The most pooled groups are more than a size counts.
pub open spec fn pool_groups_overflow(max_crops: int, crop_patches: int, margins: int) -> bool {
    exists|groups: int|
        #[trigger] is_maximum_pool_groups(max_crops, crop_patches, margins, groups) && groups
            > usize::MAX
}

proof fn lemma_half_up(a: int, b: int)
    requires
        0 <= a <= b,
    ensures
        0 <= half_up(a) <= half_up(b) <= b,
{
}

/// Among the layouts of so many rows the one of the most columns has the most groups.
proof fn lemma_widest_layout(
    rows: int,
    columns: int,
    max_crops: int,
    window: int,
    margins: int,
)
    requires
        is_layout(rows, columns, max_crops),
        0 <= window,
        0 <= margins,
    ensures
        is_layout(rows, max_crops / rows, max_crops),
        high_groups(rows, columns, window, margins) <= high_groups(
            rows,
            max_crops / rows,
            window,
            margins,
        ),
{
    let widest = max_crops / rows;
    vstd::arithmetic::div_mod::lemma_fundamental_div_mod(max_crops, rows);
    assert(columns <= widest) by (nonlinear_arith)
        requires
            rows * columns <= max_crops,
            max_crops == rows * widest + max_crops % rows,
            0 <= max_crops % rows < rows,
    ;
    assert(widest <= max_crops) by (nonlinear_arith)
        requires
            max_crops == rows * widest + max_crops % rows,
            max_crops % rows >= 0,
            rows >= 1,
            widest >= 0,
    ;
    assert(0 <= columns * window <= widest * window) by (nonlinear_arith)
        requires
            0 <= columns <= widest,
            0 <= window,
    ;
    assert(0 <= rows * window) by (nonlinear_arith)
        requires
            0 <= rows,
            0 <= window,
    ;
    let height = half_up(axis_patches(rows, window, margins));
    let a = half_up(axis_patches(columns, window, margins));
    let b = half_up(axis_patches(widest, window, margins));
    lemma_half_up(axis_patches(columns, window, margins), axis_patches(widest, window, margins));
    lemma_half_up(0, axis_patches(rows, window, margins));
    assert(height * a <= height * b) by (nonlinear_arith)
        requires
            0 <= height,
            a <= b,
    ;
}

/// The layout with the most groups among those of up to `n` rows.
proof fn lemma_best_layout(n: int, max_crops: int, window: int, margins: int) -> (best: (int, int))
    requires
        1 <= n <= max_crops,
        0 <= window,
        0 <= margins,
    ensures
        is_layout(best.0, best.1, max_crops),
        forall|a: int, b: int|
            a <= n && is_layout(a, b, max_crops) ==> #[trigger] high_groups(a, b, window, margins)
                <= high_groups(best.0, best.1, window, margins),
    decreases n,
{
    assert(is_layout(n, 1, max_crops)) by (nonlinear_arith)
        requires
            1 <= n <= max_crops,
    ;
    lemma_widest_layout(n, 1, max_crops, window, margins);
    let last = (n, max_crops / n);
    let before = if n > 1 {
        lemma_best_layout(n - 1, max_crops, window, margins)
    } else {
        last
    };
    let best = if high_groups(before.0, before.1, window, margins) > high_groups(
        last.0,
        last.1,
        window,
        margins,
    ) {
        before
    } else {
        last
    };
    assert forall|a: int, b: int| a <= n && is_layout(a, b, max_crops) implies #[trigger]
        high_groups(a, b, window, margins) <= high_groups(best.0, best.1, window, margins) by {
        if a == n {
            lemma_widest_layout(n, b, max_crops, window, margins);
        }
    }
    best
}

/// A layout with more groups than a size counts makes the maximum one that no size counts.
proof fn lemma_overflow(
    rows: int,
    columns: int,
    max_crops: int,
    crop_patches: int,
    margins: int,
)
    requires
        is_layout(rows, columns, max_crops),
        0 <= margins <= crop_patches,
        high_groups(rows, columns, crop_patches - margins, margins) + half_up(crop_patches)
            * half_up(crop_patches) > usize::MAX,
    ensures
        pool_groups_overflow(max_crops, crop_patches, margins),
{
    let window = crop_patches - margins;
    let best = lemma_best_layout(max_crops, max_crops, window, margins);
    let high = high_groups(best.0, best.1, window, margins);
    assert(high_groups(rows, columns, window, margins) <= high);
    assert(is_maximum_pool_groups(
        max_crops,
        crop_patches,
        margins,
        high + half_up(crop_patches) * half_up(crop_patches),
    ));
}

fn layout_groups(rows: usize, columns: usize, window: usize, margins: usize) -> (r: Option<u128>)
    ensures
        match r {
            Some(n) => n == high_groups(
                rows as int,
                columns as int,
                window as int,
                margins as int,
            ),
            None => high_groups(rows as int, columns as int, window as int, margins as int)
                > u128::MAX,
        },
{
    proof {
        assert(0 <= rows * window <= 0xFFFF_FFFF_FFFF_FFFE_0000_0000_0000_0001)
            by (nonlinear_arith)
            requires
                0 <= rows <= 0xFFFF_FFFF_FFFF_FFFF,
                0 <= window <= 0xFFFF_FFFF_FFFF_FFFF,
        ;
        assert(0 <= columns * window <= 0xFFFF_FFFF_FFFF_FFFE_0000_0000_0000_0001)
            by (nonlinear_arith)
            requires
                0 <= columns <= 0xFFFF_FFFF_FFFF_FFFF,
                0 <= window <= 0xFFFF_FFFF_FFFF_FFFF,
        ;
        assert(rows as u128 * window as u128 == rows * window);
        assert(columns as u128 * window as u128 == columns * window);
    }
    let height: u128 = rows as u128 * window as u128 + margins as u128;
    let width: u128 = columns as u128 * window as u128 + margins as u128;
    (height / 2 + height % 2).checked_mul(width / 2 + width % 2)
}

/// The most pooled groups that an image of at most `max_crops` crops can have; `None`
/// when they are more than a size counts.
pub fn maximum_pool_groups(max_crops: usize, crop_patches: usize, overlap: [usize; 2]) -> (r:
    Option<usize>)
    requires
        margins_of(overlap@) <= crop_patches,
    ensures
        match r {
            Some(groups) => is_maximum_pool_groups(
                max_crops as int,
                crop_patches as int,
                margins_of(overlap@),
                groups as int,
            ),
            None => pool_groups_overflow(
                max_crops as int,
                crop_patches as int,
                margins_of(overlap@),
            ),
        },
{
    let margins: usize = overlap[0] + overlap[1];
    let window: usize = crop_patches - margins;
    let ghost w = window as int;
    let ghost m = margins as int;
    let ghost limit = max_crops as int;
    let side: u128 = crop_patches as u128 / 2 + crop_patches as u128 % 2;
    assert(0 <= side * side <= 0x4000_0000_0000_0000_0000_0000_0000_0000) by (nonlinear_arith)
        requires
            0 <= side <= 0x8000_0000_0000_0000,
    ;
    let low: u128 = side * side;
    assert(side == half_up(crop_patches as int));
    let mut high: u128 = 0;
    let mut rows: usize = 0;
    let ghost mut best: (int, int) = (0, 0);
    while rows < max_crops
        invariant
            rows <= max_crops,
            limit == max_crops && w == window && m == margins,
            window + margins == crop_patches,
            m == margins_of(overlap@),
            low == half_up(crop_patches as int) * half_up(crop_patches as int),
            high <= usize::MAX,
            rows == 0 ==> high == 0,
            rows > 0 ==> is_layout(best.0, best.1, limit) && high == high_groups(
                best.0,
                best.1,
                w,
                m,
            ),
            forall|a: int, b: int|
                a <= rows && is_layout(a, b, limit) ==> #[trigger] high_groups(a, b, w, m) <= high,
        decreases max_crops - rows,
    {
        rows += 1;
        let columns: usize = max_crops / rows;
        proof {
            assert(is_layout(rows as int, 1, limit)) by (nonlinear_arith)
                requires
                    1 <= rows <= limit,
            ;
            lemma_widest_layout(rows as int, 1, limit, w, m);
            assert forall|a: int, b: int| a == rows && is_layout(a, b, limit) implies #[trigger]
                high_groups(a, b, w, m) <= high_groups(rows as int, columns as int, w, m) by {
                lemma_widest_layout(a, b, limit, w, m);
            }
        }
        let groups: u128 = match layout_groups(rows, columns, window, margins) {
            Some(n) => n,
            None => {
                proof {
                    lemma_overflow(rows as int, columns as int, limit, crop_patches as int, m);
                }
                return None;
            },
        };
        if groups > usize::MAX as u128 {
            proof {
                lemma_overflow(rows as int, columns as int, limit, crop_patches as int, m);
            }
            return None;
        }
        if rows == 1 || groups > high {
            proof {
                best = (rows as int, columns as int);
            }
            high = groups;
        }
    }
    let groups: u128 = low + high;
    assert(is_maximum_pool_groups(limit, crop_patches as int, m, groups as int));
    if groups > usize::MAX as u128 {
        None
    } else {
        Some(groups as usize)
    }
}

/// Pixels along one side of a crop.
pub open spec fn crop_size_of(vit: JsonView) -> usize {
    pair_of(vit, "image_default_input_size"@)[0]
}

/// Pixels along one side of a patch.
pub open spec fn patch_size_of(vit: JsonView) -> usize {
    positive(vit, "image_patch_size"@).unwrap()
}

/// Patches along one side of a crop.
pub open spec fn crop_patches_of(vit: JsonView) -> int {
    crop_size_of(vit) as int / patch_size_of(vit) as int
}

/// The problem with the crop geometry of the ViT.
#[verifier::opaque]
pub open spec fn crop_problem(vit: JsonView) -> Option<ProblemView> {
    let crop = crop_size_of(vit);
    let patch = patch_size_of(vit);
    let side = crop_patches_of(vit);
    first_problem(
        refusal(pair_error(vit, "image_default_input_size"@, false)),
        first_problem(
            refuse_if(
                pair_of(vit, "image_default_input_size"@)[0] != pair_of(
                    vit,
                    "image_default_input_size"@,
                )[1],
                MSG_SQUARE@,
            ),
            first_problem(
                refusal(positive_error(vit, "image_patch_size"@)),
                first_problem(
                    refuse_if(
                        crop as int % patch as int != 0,
                        "Molmo2 crop size "@ + dec(crop as nat)
                            + " is not divisible by patch size "@ + dec(patch as nat),
                    ),
                    first_problem(
                        overflow_if(side * side > usize::MAX),
                        first_problem(
                            refusal(positive_error(vit, "image_num_pos"@)),
                            refuse_if(
                                positive(vit, "image_num_pos"@).unwrap() != side * side,
                                "Molmo2 XLA supports the pinned exact position table only: image_num_pos="@
                                    + dec(positive(vit, "image_num_pos"@).unwrap() as nat)
                                    + ", default grid has "@ + dec((side * side) as nat)
                                    + " patches"@,
                            ),
                        ),
                    ),
                ),
            ),
        ),
    )
}

/// The problem with the image processor, where crops measure `crop` pixels, patches
/// `patch` pixels, and a crop has `side` patches along a side.
#[verifier::opaque]
pub open spec fn processor_problem(
    p: JsonView,
    crop: usize,
    patch: usize,
    side: int,
) -> Option<ProblemView> {
    let size = p.get("size"@).unwrap();
    let crops = positive(p, "max_crops"@).unwrap();
    let margins = margins_of(pair_of(p, "overlap_margins"@));
    let pooling = pair_of(p, "pooling_size"@);
    first_problem(
        refusal(positive_error(p, "patch_size"@)),
        first_problem(
            refuse_if(!has_object(p, "size"@), MSG_SIZE_OBJECT@),
            first_problem(
                refuse_if(positive(p, "patch_size"@) != Some(patch), MSG_GEOMETRY@),
                first_problem(
                    refusal(positive_error(size, "height"@)),
                    first_problem(
                        refuse_if(positive(size, "height"@) != Some(crop), MSG_GEOMETRY@),
                        first_problem(
                            refusal(positive_error(size, "width"@)),
                            first_problem(
                                refuse_if(positive(size, "width"@) != Some(crop), MSG_GEOMETRY@),
                                first_problem(
                                    refusal(positive_error(p, "max_crops"@)),
                                    first_problem(
                                        refuse_if(
                                            crops > MAX_SUPPORTED_CROPS,
                                            "Molmo2 XLA supports at most "@ + dec(
                                                MAX_SUPPORTED_CROPS as nat,
                                            ) + " high-resolution crops, got "@ + dec(
                                                crops as nat,
                                            ),
                                        ),
                                        first_problem(
                                            refusal(pair_error(p, "overlap_margins"@, true)),
                                            first_problem(
                                                overflow_if(margins > usize::MAX),
                                                first_problem(
                                                    refuse_if(margins >= side, MSG_MARGINS@),
                                                    first_problem(
                                                        refusal(
                                                            pair_error(p, "pooling_size"@, false),
                                                        ),
                                                        refuse_if(
                                                            pooling != seq![2usize, 2usize],
                                                            "Molmo2 pinned XLA graph requires 2x2 pooling, got ["@
                                                                + dec(pooling[0] as nat) + ", "@
                                                                + dec(pooling[1] as nat) + "]"@,
                                                        ),
                                                    ),
                                                ),
                                            ),
                                        ),
                                    ),
                                ),
                            ),
                        ),
                    ),
                ),
            ),
        ),
    )
}

/// The layer that an adapter entry selects of `layers`: a negative entry counts from
/// the end.
pub open spec fn resolved_layer(raw: i64, layers: usize) -> int {
    if raw < 0 {
        layers + raw
    } else {
        raw as int
    }
}

/// Complaint about one selected layer.
pub open spec fn layer_error(v: JsonView, layers: usize, index: int) -> Option<Seq<char>> {
    match v.as_i64() {
        None => Some("Molmo2 vit_layers["@ + dec(index as nat) + "] must be an integer"@),
        Some(raw) => if 0 <= resolved_layer(raw, layers) < layers {
            None
        } else {
            Some(
                "Molmo2 vit_layers["@ + dec(index as nat) + "]="@ + dec_int(raw as int)
                    + " resolves outside [0,"@ + dec(layers as nat) + ")"@,
            )
        },
    }
}

/// The first complaint about the selected layers from entry `from` on.
pub open spec fn layers_error(values: Seq<JsonView>, layers: usize, from: int) -> Option<Seq<char>>
    decreases values.len() - from,
{
    if from < 0 || from >= values.len() {
        None
    } else {
        first_error(
            layer_error(values[from], layers, from),
            layers_error(values, layers, from + 1),
        )
    }
}

/// The selected layers.
pub open spec fn selected_of(values: Seq<JsonView>, layers: usize) -> Seq<usize> {
    Seq::new(values.len(), |i: int| resolved_layer(values[i].as_i64().unwrap(), layers) as usize)
}

/// The ViT layers that a graph can run.
pub open spec fn layer_limit(vit: JsonView) -> usize {
    let n = positive(vit, "num_hidden_layers"@).unwrap();
    if n < MAX_VIT_LAYERS {
        n
    } else {
        MAX_VIT_LAYERS
    }
}

/// The problem with the layer selection.
#[verifier::opaque]
pub open spec fn selection_problem(vit: JsonView, adapter: JsonView) -> Option<ProblemView> {
    let listed = adapter.get_array("vit_layers"@);
    first_problem(
        refusal(positive_error(vit, "num_hidden_layers"@)),
        first_problem(
            refuse_if(listed is None, MSG_VIT_LAYERS@),
            first_problem(
                refuse_if(listed.unwrap().len() == 0, MSG_NO_LAYER@),
                refusal(layers_error(listed.unwrap(), layer_limit(vit), 0)),
            ),
        ),
    )
}

/// The problem with the attention heads of a block: as many key/value heads as query
/// heads, which together are as wide as the block.
#[verifier::opaque]
pub open spec fn heads_problem(v: JsonView, message: Seq<char>) -> Option<ProblemView> {
    let heads = positive(v, "num_attention_heads"@).unwrap();
    let product = heads * positive(v, "head_dim"@).unwrap();
    first_problem(
        refusal(positive_error(v, "hidden_size"@)),
        first_problem(
            refusal(positive_error(v, "num_attention_heads"@)),
            first_problem(
                refusal(positive_error(v, "head_dim"@)),
                first_problem(
                    overflow_if(product > usize::MAX),
                    refuse_if(
                        product != positive(v, "hidden_size"@).unwrap() || size_or(
                            v,
                            "num_key_value_heads"@,
                            heads,
                        ) != heads,
                        message,
                    ),
                ),
            ),
        ),
    )
}

/// The problem with the feature width and the scalars, where the selected layers are
/// `width` wide together.
#[verifier::opaque]
pub open spec fn feature_problem(
    root: JsonView,
    vit: JsonView,
    adapter: JsonView,
    width: int,
) -> Option<ProblemView> {
    let stated = size_or(adapter, "image_feature_dim"@, width as usize);
    let eps = vit.get_double("layer_norm_eps"@);
    first_problem(
        refuse_if(width > usize::MAX, MSG_SELECTED_WIDTH@),
        first_problem(
            refuse_if(
                stated != width,
                "Molmo2 pooling input width "@ + dec(stated as nat)
                    + " disagrees with selected layer width "@ + dec(width as nat),
            ),
            first_problem(
                refuse_if(!(eps is Some && is_positive_finite(eps.unwrap())), MSG_EPSILON@),
                refuse_if(patch_id_of(root) is None, MSG_PATCH_ID@),
            ),
        ),
    )
}

/// The token that marks an image patch.
pub open spec fn patch_id_of(root: JsonView) -> Option<i32> {
    match root.get("image_patch_id"@) {
        Some(v) => match v.as_i64() {
            Some(n) => if i32::MIN <= n <= i32::MAX {
                Some(n as i32)
            } else {
                None
            },
            None => None,
        },
        None => None,
    }
}

/// The problem with the sizes that follow from the rest, and with the remaining widths.
#[verifier::opaque]
pub open spec fn derived_problem(
    vit: JsonView,
    adapter: JsonView,
    p: JsonView,
) -> Option<ProblemView> {
    let patch = patch_size_of(vit);
    first_problem(
        overflow_if(patch * patch * 3 > usize::MAX),
        first_problem(
            overflow_if(
                pool_groups_overflow(
                    positive(p, "max_crops"@).unwrap() as int,
                    crop_patches_of(vit),
                    margins_of(pair_of(p, "overlap_margins"@)),
                ),
            ),
            first_problem(
                refusal(positive_error(vit, "intermediate_size"@)),
                first_problem(
                    refusal(positive_error(adapter, "intermediate_size"@)),
                    first_problem(
                        refusal(positive_error(adapter, "text_hidden_size"@)),
                        refuse_if(
                            adapter.get_bool("pooling_attention_mask"@) is None,
                            MSG_POOL_MASK@,
                        ),
                    ),
                ),
            ),
        ),
    )
}

/// The first complaint about the model document alone.
pub open spec fn root_error(root: JsonView) -> Option<Seq<char>> {
    first_error(
        if root.get_text("model_type"@) == Some("molmo2"@) {
            None
        } else {
            Some(MSG_MODEL_TYPE@)
        },
        first_error(object_error(root, "vit_config"@), object_error(root, "adapter_config"@)),
    )
}

/// The width of the selected layers together.
pub open spec fn selected_width_of(vit: JsonView, adapter: JsonView) -> int {
    positive(vit, "hidden_size"@).unwrap() * adapter.get_array("vit_layers"@).unwrap().len()
}

/// The first problem with a pair of documents whose model document has its blocks.
pub open spec fn blocks_problem(root: JsonView, p: JsonView) -> Option<ProblemView> {
    let vit = root.get("vit_config"@).unwrap();
    let adapter = root.get("adapter_config"@).unwrap();
    first_problem(
        refuse_if(!(p is Object), MSG_PROCESSOR_OBJECT@),
        first_problem(
            crop_problem(vit),
            first_problem(
                processor_problem(p, crop_size_of(vit), patch_size_of(vit), crop_patches_of(vit)),
                first_problem(
                    selection_problem(vit, adapter),
                    first_problem(
                        heads_problem(vit, MSG_VIT_HEADS@),
                        first_problem(
                            heads_problem(adapter, MSG_POOL_HEADS@),
                            first_problem(
                                feature_problem(
                                    root,
                                    vit,
                                    adapter,
                                    selected_width_of(vit, adapter),
                                ),
                                derived_problem(vit, adapter, p),
                            ),
                        ),
                    ),
                ),
            ),
        ),
    )
}

/// One more than the largest entry.
pub open spec fn is_depth(layers: Seq<usize>, depth: int) -> bool {
    &&& layers.contains((depth - 1) as usize)
    &&& depth >= 1
    &&& forall|i: int| 0 <= i < layers.len() ==> #[trigger] layers[i] < depth
}

/// The configuration that a pair of documents describes.
pub open spec fn describes_vision(root: JsonView, p: JsonView, c: Molmo2VisionConfig) -> bool {
    let vit = root.get("vit_config"@).unwrap();
    let adapter = root.get("adapter_config"@).unwrap();
    let patch = patch_size_of(vit);
    &&& c.crop_size == crop_size_of(vit)
    &&& c.patch_size == patch
    &&& c.patches_per_crop == crop_patches_of(vit) * crop_patches_of(vit)
    &&& c.patch_dim == patch * patch * 3
    &&& positive(p, "max_crops"@) == Some(c.max_crops)
    &&& c.static_crops == c.max_crops + 1
    &&& c.overlap@ == pair_of(p, "overlap_margins"@)
    &&& c.pool_h == 2 && c.pool_w == 2 && c.pool_size == 4
    &&& is_maximum_pool_groups(
        c.max_crops as int,
        crop_patches_of(vit),
        margins_of(c.overlap@),
        c.static_pool_groups as int,
    )
    &&& positive(vit, "hidden_size"@) == Some(c.hidden)
    &&& positive(vit, "intermediate_size"@) == Some(c.intermediate)
    &&& positive(vit, "num_attention_heads"@) == Some(c.heads)
    &&& positive(vit, "head_dim"@) == Some(c.head_dim)
    &&& c.layers == layer_limit(vit)
    &&& c.selected_layers@ == selected_of(
        adapter.get_array("vit_layers"@).unwrap(),
        layer_limit(vit),
    )
    &&& is_depth(c.selected_layers@, c.emitted_layers as int)
    &&& positive(vit, "image_num_pos"@) == Some(c.position_count)
    &&& vit.get_double("layer_norm_eps"@) == Some(c.layer_norm_eps)
    &&& positive(adapter, "hidden_size"@) == Some(c.pool_hidden)
    &&& positive(adapter, "num_attention_heads"@) == Some(c.pool_heads)
    &&& positive(adapter, "head_dim"@) == Some(c.pool_head_dim)
    &&& positive(adapter, "intermediate_size"@) == Some(c.projector_intermediate)
    &&& positive(adapter, "text_hidden_size"@) == Some(c.text_hidden)
    &&& adapter.get_bool("pooling_attention_mask"@) == Some(c.pooling_attention_mask)
    &&& patch_id_of(root) == Some(c.image_patch_id)
}

fn multiply(a: usize, b: usize) -> (r: Option<usize>)
    ensures
        match r {
            Some(n) => n == a * b,
            None => a * b > usize::MAX,
        },
{
    a.checked_mul(b)
}

fn read_crop(vit: &Json) -> (r: Result<(usize, usize, usize), Problem>)
    ensures
        match r {
            Ok(sizes) => {
                &&& crop_problem(vit@) is None
                &&& sizes.0 == crop_size_of(vit@)
                &&& sizes.1 == patch_size_of(vit@) && sizes.1 > 0
                &&& sizes.2 == crop_patches_of(vit@)
                &&& sizes.2 * sizes.2 <= usize::MAX
                &&& positive(vit@, "image_num_pos"@) == Some((sizes.2 * sizes.2) as usize)
            },
            Err(problem) => crop_problem(vit@) == Some(problem@),
        },
{
    proof {
        reveal(crop_problem);
    }
    let input = match read_pair(vit, "image_default_input_size", false) {
        Ok(pair) => pair,
        Err(message) => return refused(message),
    };
    if input[0] != input[1] {
        return refused(MSG_SQUARE.to_owned());
    }
    let crop: usize = input[0];
    let patch = match read_positive(vit, "image_patch_size") {
        Ok(n) => n,
        Err(message) => return refused(message),
    };
    if crop % patch != 0 {
        return refused(
            "Molmo2 crop size ".to_owned().concat(&size_text(crop)).concat(
                " is not divisible by patch size ",
            ).concat(&size_text(patch)),
        );
    }
    let side: usize = crop / patch;
    let patches = match multiply(side, side) {
        Some(n) => n,
        None => return Err(Problem::Overflow),
    };
    let positions = match read_positive(vit, "image_num_pos") {
        Ok(n) => n,
        Err(message) => return refused(message),
    };
    if positions != patches {
        return refused(
            "Molmo2 XLA supports the pinned exact position table only: image_num_pos=".to_owned().concat(
            &size_text(positions)).concat(", default grid has ").concat(
                &size_text(patches),
            ).concat(" patches"),
        );
    }
    Ok((crop, patch, side))
}

fn read_processor(p: &Json, crop: usize, patch: usize, side: usize) -> (r: Result<
    (usize, [usize; 2]),
    Problem,
>)
    ensures
        match r {
            Ok(v) => {
                &&& processor_problem(p@, crop, patch, side as int) is None
                &&& positive(p@, "max_crops"@) == Some(v.0)
                &&& 1 <= v.0 <= MAX_SUPPORTED_CROPS
                &&& v.1@ == pair_of(p@, "overlap_margins"@)
                &&& margins_of(v.1@) < side
            },
            Err(problem) => processor_problem(p@, crop, patch, side as int) == Some(problem@),
        },
{
    proof {
        reveal(processor_problem);
    }
    let stated_patch = match read_positive(p, "patch_size") {
        Ok(n) => n,
        Err(message) => return refused(message),
    };
    let size = match p.get("size") {
        Some(size) => size,
        None => return refused(MSG_SIZE_OBJECT.to_owned()),
    };
    if size.as_object().is_none() {
        return refused(MSG_SIZE_OBJECT.to_owned());
    }
    if stated_patch != patch {
        return refused(MSG_GEOMETRY.to_owned());
    }
    let height = match read_positive(size, "height") {
        Ok(n) => n,
        Err(message) => return refused(message),
    };
    if height != crop {
        return refused(MSG_GEOMETRY.to_owned());
    }
    let width = match read_positive(size, "width") {
        Ok(n) => n,
        Err(message) => return refused(message),
    };
    if width != crop {
        return refused(MSG_GEOMETRY.to_owned());
    }
    let max_crops = match read_positive(p, "max_crops") {
        Ok(n) => n,
        Err(message) => return refused(message),
    };
    if max_crops > MAX_SUPPORTED_CROPS {
        return refused(
            "Molmo2 XLA supports at most ".to_owned().concat(
                &size_text(MAX_SUPPORTED_CROPS),
            ).concat(" high-resolution crops, got ").concat(&size_text(max_crops)),
        );
    }
    let overlap = match read_pair(p, "overlap_margins", true) {
        Ok(pair) => pair,
        Err(message) => return refused(message),
    };
    let margins = match overlap[0].checked_add(overlap[1]) {
        Some(n) => n,
        None => return Err(Problem::Overflow),
    };
    if margins >= side {
        return refused(MSG_MARGINS.to_owned());
    }
    let pooling = match read_pair(p, "pooling_size", false) {
        Ok(pair) => pair,
        Err(message) => return refused(message),
    };
    if pooling[0] != 2 || pooling[1] != 2 {
        return refused(
            "Molmo2 pinned XLA graph requires 2x2 pooling, got [".to_owned().concat(
                &size_text(pooling[0]),
            ).concat(", ").concat(&size_text(pooling[1])).concat("]"),
        );
    }
    assert(pooling@ =~= seq![2usize, 2usize]);
    Ok((max_crops, overlap))
}

fn read_layer(v: &Json, layers: usize, index: usize) -> (r: Result<usize, String>)
    requires
        layers <= MAX_VIT_LAYERS,
    ensures
        match r {
            Ok(layer) => layer_error(v@, layers, index as int) is None && layer == resolved_layer(
                v@.as_i64().unwrap(),
                layers,
            ),
            Err(message) => layer_error(v@, layers, index as int) == Some(message@),
        },
{
    let head = "Molmo2 vit_layers[".to_owned().concat(&size_text(index));
    match v.as_i64() {
        None => Err(head.concat("] must be an integer")),
        Some(raw) => {
            let resolved: i64 = if raw < 0 {
                layers as i64 + raw
            } else {
                raw
            };
            if 0 <= resolved && resolved < layers as i64 {
                Ok(resolved as usize)
            } else {
                Err(
                    head.concat("]=").concat(&int_text(raw)).concat(
                        " resolves outside [0,",
                    ).concat(&size_text(layers)).concat(")"),
                )
            }
        },
    }
}

fn read_layers(values: &Vec<Json>, layers: usize) -> (r: Result<(Vec<usize>, usize), String>)
    requires
        layers <= MAX_VIT_LAYERS,
        values@.len() > 0,
    ensures
        match r {
            Ok(v) => {
                &&& layers_error(json_items(values@), layers, 0) is None
                &&& v.0@ == selected_of(json_items(values@), layers)
                &&& is_depth(v.0@, v.1 as int)
                &&& v.1 <= layers
            },
            Err(message) => layers_error(json_items(values@), layers, 0) == Some(message@),
        },
{
    let ghost views = json_items(values@);
    let mut selected: Vec<usize> = Vec::new();
    let mut depth: usize = 0;
    let mut i: usize = 0;
    while i < values.len()
        invariant
            i <= values.len(),
            layers <= MAX_VIT_LAYERS,
            views == json_items(values@),
            selected@.len() == i,
            layers_error(views, layers, 0) == layers_error(views, layers, i as int),
            i > 0 ==> is_depth(selected@, depth as int),
            depth <= layers,
            forall|j: int|
                0 <= j < i ==> #[trigger] selected@[j] == resolved_layer(
                    views[j].as_i64().unwrap(),
                    layers,
                ) as usize,
        decreases values.len() - i,
    {
        assert(views[i as int] == values@[i as int]@);
        let layer = match read_layer(&values[i], layers, i) {
            Ok(layer) => layer,
            Err(message) => return Err(message),
        };
        let ghost before = selected@;
        selected.push(layer);
        let ghost old_depth = depth;
        if i == 0 || layer + 1 > depth {
            depth = layer + 1;
        }
        proof {
            assert(selected@[i as int] == layer);
            if depth == layer + 1 {
                assert(selected@.contains((depth - 1) as usize));
            } else {
                let k = choose|k: int| 0 <= k < before.len() && before[k] == (depth - 1) as usize;
                assert(selected@[k] == (depth - 1) as usize);
            }
        }
        i += 1;
    }
    assert(selected@ =~= selected_of(views, layers));
    Ok((selected, depth))
}

fn read_selection(vit: &Json, adapter: &Json) -> (r: Result<
    (usize, Vec<usize>, usize),
    Problem,
>)
    ensures
        match r {
            Ok(v) => {
                &&& selection_problem(vit@, adapter@) is None
                &&& v.0 == layer_limit(vit@)
                &&& v.1@ == selected_of(adapter@.get_array("vit_layers"@).unwrap(), v.0)
                &&& v.1@.len() == adapter@.get_array("vit_layers"@).unwrap().len()
                &&& is_depth(v.1@, v.2 as int)
            },
            Err(problem) => selection_problem(vit@, adapter@) == Some(problem@),
        },
{
    proof {
        reveal(selection_problem);
    }
    let total = match read_positive(vit, "num_hidden_layers") {
        Ok(n) => n,
        Err(message) => return refused(message),
    };
    let layers: usize = if total < MAX_VIT_LAYERS {
        total
    } else {
        MAX_VIT_LAYERS
    };
    let values = match adapter.get_array("vit_layers") {
        Some(values) => values,
        None => return refused(MSG_VIT_LAYERS.to_owned()),
    };
    if values.len() == 0 {
        return refused(MSG_NO_LAYER.to_owned());
    }
    match read_layers(values, layers) {
        Ok((selected, depth)) => Ok((layers, selected, depth)),
        Err(message) => refused(message),
    }
}

fn read_heads(v: &Json, message: &str) -> (r: Result<(usize, usize, usize), Problem>)
    ensures
        match r {
            Ok(sizes) => {
                &&& heads_problem(v@, message@) is None
                &&& positive(v@, "hidden_size"@) == Some(sizes.0)
                &&& positive(v@, "num_attention_heads"@) == Some(sizes.1)
                &&& positive(v@, "head_dim"@) == Some(sizes.2)
            },
            Err(problem) => heads_problem(v@, message@) == Some(problem@),
        },
{
    proof {
        reveal(heads_problem);
    }
    let hidden = match read_positive(v, "hidden_size") {
        Ok(n) => n,
        Err(text) => return refused(text),
    };
    let heads = match read_positive(v, "num_attention_heads") {
        Ok(n) => n,
        Err(text) => return refused(text),
    };
    let kv_heads: usize = match v.get_size("num_key_value_heads") {
        Some(n) => n,
        None => heads,
    };
    let head_dim = match read_positive(v, "head_dim") {
        Ok(n) => n,
        Err(text) => return refused(text),
    };
    let product = match multiply(heads, head_dim) {
        Some(n) => n,
        None => return Err(Problem::Overflow),
    };
    if product != hidden || kv_heads != heads {
        return refused(message.to_owned());
    }
    Ok((hidden, heads, head_dim))
}

fn read_features(
    root: &Json,
    vit: &Json,
    adapter: &Json,
    hidden: usize,
    selected: usize,
) -> (r: Result<(u64, i32), Problem>)
    ensures
        match r {
            Ok(v) => {
                &&& feature_problem(root@, vit@, adapter@, hidden * selected) is None
                &&& vit@.get_double("layer_norm_eps"@) == Some(v.0)
                &&& patch_id_of(root@) == Some(v.1)
            },
            Err(problem) => feature_problem(root@, vit@, adapter@, hidden * selected) == Some(
                problem@,
            ),
        },
{
    proof {
        reveal(feature_problem);
    }
    let width = match multiply(hidden, selected) {
        Some(n) => n,
        None => return refused(MSG_SELECTED_WIDTH.to_owned()),
    };
    let stated: usize = match adapter.get_size("image_feature_dim") {
        Some(n) => n,
        None => width,
    };
    if stated != width {
        return refused(
            "Molmo2 pooling input width ".to_owned().concat(&size_text(stated)).concat(
                " disagrees with selected layer width ",
            ).concat(&size_text(width)),
        );
    }
    let eps = match vit.get_double("layer_norm_eps") {
        Some(bits) => bits,
        None => return refused(MSG_EPSILON.to_owned()),
    };
    if !positive_finite(eps) {
        return refused(MSG_EPSILON.to_owned());
    }
    let id: i64 = match root.get("image_patch_id") {
        Some(v) => match v.as_i64() {
            Some(n) => n,
            None => return refused(MSG_PATCH_ID.to_owned()),
        },
        None => return refused(MSG_PATCH_ID.to_owned()),
    };
    if id < i32::MIN as i64 || id > i32::MAX as i64 {
        return refused(MSG_PATCH_ID.to_owned());
    }
    Ok((eps, id as i32))
}

struct Derived {
    patch_dim: usize,
    pool_groups: usize,
    intermediate: usize,
    projector_intermediate: usize,
    text_hidden: usize,
    mask: bool,
}

fn read_derived(
    vit: &Json,
    adapter: &Json,
    Ghost(p): Ghost<JsonView>,
    patch: usize,
    side: usize,
    max_crops: usize,
    overlap: [usize; 2],
) -> (r: Result<Derived, Problem>)
    requires
        patch == patch_size_of(vit@),
        side == crop_patches_of(vit@),
        side * side <= usize::MAX,
        positive(p, "max_crops"@) == Some(max_crops),
        1 <= max_crops <= MAX_SUPPORTED_CROPS,
        overlap@ == pair_of(p, "overlap_margins"@),
        margins_of(overlap@) < side,
    ensures
        match r {
            Ok(d) => {
                &&& derived_problem(vit@, adapter@, p) is None
                &&& d.patch_dim == patch * patch * 3
                &&& is_maximum_pool_groups(
                    max_crops as int,
                    side as int,
                    margins_of(overlap@),
                    d.pool_groups as int,
                )
                &&& positive(vit@, "intermediate_size"@) == Some(d.intermediate)
                &&& positive(adapter@, "intermediate_size"@) == Some(d.projector_intermediate)
                &&& positive(adapter@, "text_hidden_size"@) == Some(d.text_hidden)
                &&& adapter@.get_bool("pooling_attention_mask"@) == Some(d.mask)
            },
            Err(problem) => derived_problem(vit@, adapter@, p) == Some(problem@),
        },
{
    proof {
        reveal(derived_problem);
    }
    let square = match multiply(patch, patch) {
        Some(n) => n,
        None => {
            assert(patch * patch * 3 > usize::MAX);
            return Err(Problem::Overflow);
        },
    };
    let patch_dim = match multiply(square, 3) {
        Some(n) => n,
        None => return Err(Problem::Overflow),
    };
    let pool_groups = match maximum_pool_groups(max_crops, side, overlap) {
        Some(n) => n,
        None => return Err(Problem::Overflow),
    };
    proof {
        lemma_no_pool_overflow(
            max_crops as int,
            side as int,
            margins_of(overlap@),
            pool_groups as int,
        );
    }
    let intermediate = match read_positive(vit, "intermediate_size") {
        Ok(n) => n,
        Err(message) => return refused(message),
    };
    let projector_intermediate = match read_positive(adapter, "intermediate_size") {
        Ok(n) => n,
        Err(message) => return refused(message),
    };
    let text_hidden = match read_positive(adapter, "text_hidden_size") {
        Ok(n) => n,
        Err(message) => return refused(message),
    };
    let mask = match adapter.get_bool("pooling_attention_mask") {
        Some(b) => b,
        None => return refused(MSG_POOL_MASK.to_owned()),
    };
    Ok(Derived { patch_dim, pool_groups, intermediate, projector_intermediate, text_hidden, mask })
}

proof fn lemma_pool_groups_unique(max_crops: int, side: int, margins: int, a: int, b: int)
    requires
        is_maximum_pool_groups(max_crops, side, margins, a),
        is_maximum_pool_groups(max_crops, side, margins, b),
    ensures
        a == b,
{
}

proof fn lemma_no_pool_overflow(max_crops: int, side: int, margins: int, groups: int)
    requires
        is_maximum_pool_groups(max_crops, side, margins, groups),
        groups <= usize::MAX,
    ensures
        !pool_groups_overflow(max_crops, side, margins),
{
    if pool_groups_overflow(max_crops, side, margins) {
        let other = choose|other: int|
            #[trigger] is_maximum_pool_groups(max_crops, side, margins, other) && other
                > usize::MAX;
        lemma_pool_groups_unique(max_crops, side, margins, groups, other);
    }
}

impl Molmo2VisionConfig {
    /// Build the vision configuration from a model document, whose blocks are there,
    /// and an image processor document.
    pub fn from_json_values(root: &Json, processor: &Json) -> (r: Result<Self, Problem>)
        requires
            root_error(root@) is None,
        ensures
            match r {
                Ok(c) => blocks_problem(root@, processor@) is None && describes_vision(
                    root@,
                    processor@,
                    c,
                ),
                Err(problem) => blocks_problem(root@, processor@) == Some(problem@),
            },
    {
        let vit = root.get("vit_config").unwrap();
        let adapter = root.get("adapter_config").unwrap();
        if processor.as_object().is_none() {
            return refused(MSG_PROCESSOR_OBJECT.to_owned());
        }
        let (crop_size, patch_size, side) = match read_crop(vit) {
            Ok(sizes) => sizes,
            Err(problem) => return Err(problem),
        };
        let (max_crops, overlap) = match read_processor(processor, crop_size, patch_size, side) {
            Ok(v) => v,
            Err(problem) => return Err(problem),
        };
        let (layers, selected_layers, emitted_layers) = match read_selection(vit, adapter) {
            Ok(v) => v,
            Err(problem) => return Err(problem),
        };
        let (hidden, heads, head_dim) = match read_heads(vit, MSG_VIT_HEADS) {
            Ok(sizes) => sizes,
            Err(problem) => return Err(problem),
        };
        let (pool_hidden, pool_heads, pool_head_dim) = match read_heads(adapter, MSG_POOL_HEADS) {
            Ok(sizes) => sizes,
            Err(problem) => return Err(problem),
        };
        let (layer_norm_eps, image_patch_id) = match read_features(
            root,
            vit,
            adapter,
            hidden,
            selected_layers.len(),
        ) {
            Ok(v) => v,
            Err(problem) => return Err(problem),
        };
        let d = match read_derived(
            vit,
            adapter,
            Ghost(processor@),
            patch_size,
            side,
            max_crops,
            overlap,
        ) {
            Ok(d) => d,
            Err(problem) => return Err(problem),
        };
        Ok(
            Molmo2VisionConfig {
                crop_size,
                patch_size,
                patches_per_crop: side * side,
                patch_dim: d.patch_dim,
                max_crops,
                static_crops: max_crops + 1,
                overlap,
                pool_h: 2,
                pool_w: 2,
                pool_size: 4,
                static_pool_groups: d.pool_groups,
                hidden,
                intermediate: d.intermediate,
                heads,
                head_dim,
                layers,
                emitted_layers,
                selected_layers,
                position_count: side * side,
                layer_norm_eps,
                pool_hidden,
                pool_heads,
                pool_head_dim,
                projector_intermediate: d.projector_intermediate,
                text_hidden: d.text_hidden,
                pooling_attention_mask: d.mask,
                image_patch_id,
            },
        )
    }

    /// Check what the model document says of itself and of its blocks.
    pub fn check_root(root: &Json) -> (r: Result<(), String>)
        ensures
            crate::config::reports(r, root_error(root@)),
    {
        let named = match root.get_text("model_type") {
            Some(t) => text_eq(t, "molmo2"),
            None => false,
        };
        if !named {
            return Err(MSG_MODEL_TYPE.to_owned());
        }
        match read_object(root, "vit_config") {
            Ok(_) => {},
            Err(message) => return Err(message),
        }
        match read_object(root, "adapter_config") {
            Ok(_) => Ok(()),
            Err(message) => Err(message),
        }
    }

    /// Build the vision configuration from the texts of `config.json` and
    /// `preprocessor_config.json`.
    pub fn from_json_texts(config: &str, processor: &str) -> (r: Result<Self, Problem>)
        ensures
            match r {
                Ok(c) => texts_problem(config@, processor@) is None && describes_vision(
                    json_of_text(config@).unwrap(),
                    json_of_text(processor@).unwrap(),
                    c,
                ),
                Err(problem) => texts_problem(config@, processor@) == Some(problem@),
            },
    {
        let root = match parse_json(config) {
            Ok(root) => root,
            Err(message) => return refused("parse config.json: ".to_owned().concat(&message)),
        };
        match Self::check_root(&root) {
            Ok(_) => {},
            Err(message) => return refused(message),
        }
        let document = match parse_json(processor) {
            Ok(document) => document,
            Err(message) => return refused(
                "parse preprocessor_config.json: ".to_owned().concat(&message),
            ),
        };
        Self::from_json_values(&root, &document)
    }

    /// Build the vision configuration from the two texts, where no size that they imply
    /// is more than the machine counts.
    pub fn from_json_strs(config: &str, processor: &str) -> (r: Result<Self, String>)
        requires
            texts_problem(config@, processor@) != Some(ProblemView::Overflow),
        ensures
            match r {
                Ok(c) => texts_problem(config@, processor@) is None && describes_vision(
                    json_of_text(config@).unwrap(),
                    json_of_text(processor@).unwrap(),
                    c,
                ),
                Err(message) => texts_problem(config@, processor@) == Some(
                    ProblemView::Refused(message@),
                ),
            },
    {
        match Self::from_json_texts(config, processor) {
            Ok(c) => Ok(c),
            Err(Problem::Refused(message)) => Err(message),
            Err(Problem::Overflow) => Err(MSG_OVERFLOW.to_owned()),
        }
    }

    /// Build the vision configuration from the two texts; `None` when a size that they
    /// imply is more than the machine counts.
    pub fn checked_from_json_strs(config: &str, processor: &str) -> (r: Option<
        Result<Self, String>,
    >)
        ensures
            match r {
                None => texts_problem(config@, processor@) == Some(ProblemView::Overflow),
                Some(Ok(c)) => texts_problem(config@, processor@) is None && describes_vision(
                    json_of_text(config@).unwrap(),
                    json_of_text(processor@).unwrap(),
                    c,
                ),
                Some(Err(message)) => texts_problem(config@, processor@) == Some(
                    ProblemView::Refused(message@),
                ),
            },
    {
        match Self::from_json_texts(config, processor) {
            Err(Problem::Overflow) => None,
            _ => Some(Self::from_json_strs(config, processor)),
        }
    }
}

/// The first problem with the texts of the two documents.
pub open spec fn texts_problem(config: Seq<char>, processor: Seq<char>) -> Option<
    ProblemView,
> {
    match json_of_text(config) {
        None => Some(
            ProblemView::Refused("parse config.json: "@ + json_error_text(config)),
        ),
        Some(root) => first_problem(
            refusal(root_error(root)),
            match json_of_text(processor) {
                None => Some(
                    ProblemView::Refused(
                        "parse preprocessor_config.json: "@ + json_error_text(processor),
                    ),
                ),
                Some(p) => blocks_problem(root, p),
            },
        ),
    }
}

/// `n / d`, rounded up.
pub open spec fn ceil_div(n: int, d: int) -> int {
    n / d + if n % d != 0 {
        1int
    } else {
        0
    }
}

fn divide_up(n: usize, d: usize) -> (r: usize)
    requires
        d > 0,
    ensures
        r == ceil_div(n as int, d as int),
{
    let whole: usize = n / d;
    if n % d != 0 {
        proof {
            vstd::arithmetic::div_mod::lemma_fundamental_div_mod(n as int, d as int);
            assert(whole < usize::MAX) by (nonlinear_arith)
                requires
                    d * whole + n % d == n,
                    n % d > 0,
                    d >= 1,
                    n <= usize::MAX,
            ;
        }
        whole + 1
    } else {
        whole
    }
}

/// The mathematical form of a [`Molmo2VisionWeightSpec`].
pub ghost struct VisionWeightView {
    pub name: Seq<char>,
    pub shape: Seq<usize>,
}

impl View for Molmo2VisionWeightSpec {
    type V = VisionWeightView;

    open spec fn view(&self) -> VisionWeightView {
        VisionWeightView { name: self.name@, shape: self.shape@ }
    }
}

/// The views of a list of weights.
pub open spec fn weight_views(v: Seq<Molmo2VisionWeightSpec>) -> Seq<VisionWeightView> {
    v.map_values(|s: Molmo2VisionWeightSpec| s@)
}

/// A matrix weight.
pub open spec fn matrix(name: Seq<char>, rows: usize, columns: usize) -> VisionWeightView {
    VisionWeightView { name, shape: seq![rows, columns] }
}

/// A vector weight.
pub open spec fn vector(name: Seq<char>, width: usize) -> VisionWeightView {
    VisionWeightView { name, shape: seq![width] }
}

/// A linear map with its bias.
pub open spec fn linear(stem: Seq<char>, rows: usize, columns: usize) -> Seq<VisionWeightView> {
    seq![matrix(stem + ".weight"@, rows, columns), vector(stem + ".bias"@, rows)]
}

/// A norm with its bias.
pub open spec fn norm(stem: Seq<char>, width: usize) -> Seq<VisionWeightView> {
    seq![vector(stem + ".weight"@, width), vector(stem + ".bias"@, width)]
}

fn push_matrix(out: &mut Vec<Molmo2VisionWeightSpec>, name: String, rows: usize, columns: usize)
    ensures
        weight_views(final(out)@) == weight_views(old(out)@) + seq![matrix(name@, rows, columns)],
{
    let mut shape: Vec<usize> = Vec::new();
    shape.push(rows);
    shape.push(columns);
    let spec = Molmo2VisionWeightSpec { name, shape };
    assert(spec@.shape =~= seq![rows, columns]);
    out.push(spec);
    assert(weight_views(out@) =~= weight_views(old(out)@) + seq![spec@]);
}

fn push_vector(out: &mut Vec<Molmo2VisionWeightSpec>, name: String, width: usize)
    ensures
        weight_views(final(out)@) == weight_views(old(out)@) + seq![vector(name@, width)],
{
    let mut shape: Vec<usize> = Vec::new();
    shape.push(width);
    let spec = Molmo2VisionWeightSpec { name, shape };
    assert(spec@.shape =~= seq![width]);
    out.push(spec);
    assert(weight_views(out@) =~= weight_views(old(out)@) + seq![spec@]);
}

fn push_linear(
    out: &mut Vec<Molmo2VisionWeightSpec>,
    prefix: &str,
    name: &str,
    rows: usize,
    columns: usize,
)
    ensures
        weight_views(final(out)@) == weight_views(old(out)@) + linear(
            prefix@ + name@,
            rows,
            columns,
        ),
{
    let ghost before = weight_views(out@);
    let stem = prefix.to_owned().concat(name);
    push_matrix(out, stem.clone().concat(".weight"), rows, columns);
    push_vector(out, stem.concat(".bias"), rows);
    assert(weight_views(out@) =~= before + linear(prefix@ + name@, rows, columns));
}

fn push_norm(out: &mut Vec<Molmo2VisionWeightSpec>, prefix: &str, name: &str, width: usize)
    ensures
        weight_views(final(out)@) == weight_views(old(out)@) + norm(prefix@ + name@, width),
{
    let ghost before = weight_views(out@);
    let stem = prefix.to_owned().concat(name);
    push_vector(out, stem.clone().concat(".weight"), width);
    push_vector(out, stem.concat(".bias"), width);
    assert(weight_views(out@) =~= before + norm(prefix@ + name@, width));
}

/// The weights in front of the ViT layers.
pub open spec fn embedding_weights(c: Molmo2VisionConfig) -> Seq<VisionWeightView> {
    linear("vision_tower.image_vit."@ + "patch_embedding"@, c.hidden, c.patch_dim) + seq![
        matrix("vision_tower.image_vit.positional_embedding"@, c.position_count, c.hidden),
    ]
}

/// The name prefix of a ViT layer.
pub open spec fn vit_prefix(layer: int) -> Seq<char> {
    "vision_tower.image_vit.transformer."@ + dec(layer as nat)
}

/// The weights of one ViT layer.
#[verifier::opaque]
pub open spec fn vit_layer_weights(c: Molmo2VisionConfig, layer: int) -> Seq<VisionWeightView> {
    let p = vit_prefix(layer);
    linear(p + ".attention.wq"@, c.hidden, c.hidden) + linear(
        p + ".attention.wk"@,
        c.hidden,
        c.hidden,
    ) + linear(p + ".attention.wv"@, c.hidden, c.hidden) + linear(
        p + ".attention.wo"@,
        c.hidden,
        c.hidden,
    ) + norm(p + ".attention_norm"@, c.hidden) + norm(p + ".ffn_norm"@, c.hidden) + linear(
        p + ".feed_forward.w1"@,
        c.intermediate,
        c.hidden,
    ) + linear(p + ".feed_forward.w2"@, c.hidden, c.intermediate)
}

/// The weights of the first `n` ViT layers.
pub open spec fn vit_weights(c: Molmo2VisionConfig, n: nat) -> Seq<VisionWeightView>
    decreases n,
{
    if n == 0 {
        Seq::empty()
    } else {
        vit_weights(c, (n - 1) as nat) + vit_layer_weights(c, n - 1)
    }
}

/// The weights of the pooling attention and of the projector.
#[verifier::opaque]
pub open spec fn adapter_weights(c: Molmo2VisionConfig) -> Seq<VisionWeightView> {
    let p = "vision_tower.image_pooling_2d."@;
    let width = (c.hidden * c.selected_layers@.len()) as usize;
    linear(p + "wq"@, c.pool_hidden, width) + linear(p + "wk"@, c.pool_hidden, width) + linear(
        p + "wv"@,
        c.pool_hidden,
        width,
    ) + linear(p + "wo"@, c.pool_hidden, c.pool_hidden) + seq![
        matrix(
            "vision_tower.image_projector.w1.weight"@,
            c.projector_intermediate,
            c.pool_hidden,
        ),
        matrix(
            "vision_tower.image_projector.w2.weight"@,
            c.text_hidden,
            c.projector_intermediate,
        ),
        matrix(
            "vision_tower.image_projector.w3.weight"@,
            c.projector_intermediate,
            c.pool_hidden,
        ),
    ]
}

/// All weights of the vision tower, in the order of the graph's arguments.
pub open spec fn tower_weights(c: Molmo2VisionConfig) -> Seq<VisionWeightView> {
    embedding_weights(c) + vit_weights(c, c.emitted_layers as nat) + adapter_weights(c)
}

fn push_vit_layer(out: &mut Vec<Molmo2VisionWeightSpec>, c: &Molmo2VisionConfig, layer: usize)
    ensures
        weight_views(final(out)@) == weight_views(old(out)@) + vit_layer_weights(*c, layer as int),
{
    proof {
        reveal(vit_layer_weights);
    }
    let ghost before = weight_views(out@);
    let prefix = "vision_tower.image_vit.transformer.".to_owned().concat(&size_text(layer));
    let p = prefix.as_str();
    push_linear(out, p, ".attention.wq", c.hidden, c.hidden);
    push_linear(out, p, ".attention.wk", c.hidden, c.hidden);
    push_linear(out, p, ".attention.wv", c.hidden, c.hidden);
    push_linear(out, p, ".attention.wo", c.hidden, c.hidden);
    push_norm(out, p, ".attention_norm", c.hidden);
    push_norm(out, p, ".ffn_norm", c.hidden);
    push_linear(out, p, ".feed_forward.w1", c.intermediate, c.hidden);
    push_linear(out, p, ".feed_forward.w2", c.hidden, c.intermediate);
    assert(weight_views(out@) =~= before + vit_layer_weights(*c, layer as int));
}

fn push_adapter(out: &mut Vec<Molmo2VisionWeightSpec>, c: &Molmo2VisionConfig)
    requires
        c.width_fits(),
    ensures
        weight_views(final(out)@) == weight_views(old(out)@) + adapter_weights(*c),
{
    proof {
        reveal(adapter_weights);
    }
    let ghost before = weight_views(out@);
    let p = "vision_tower.image_pooling_2d.";
    let width: usize = c.selected_width();
    push_linear(out, p, "wq", c.pool_hidden, width);
    push_linear(out, p, "wk", c.pool_hidden, width);
    push_linear(out, p, "wv", c.pool_hidden, width);
    push_linear(out, p, "wo", c.pool_hidden, c.pool_hidden);
    push_matrix(
        out,
        "vision_tower.image_projector.w1.weight".to_owned(),
        c.projector_intermediate,
        c.pool_hidden,
    );
    push_matrix(
        out,
        "vision_tower.image_projector.w2.weight".to_owned(),
        c.text_hidden,
        c.projector_intermediate,
    );
    push_matrix(
        out,
        "vision_tower.image_projector.w3.weight".to_owned(),
        c.projector_intermediate,
        c.pool_hidden,
    );
    assert(weight_views(out@) =~= before + adapter_weights(*c));
}

/// The text that identifies a configuration.
pub open spec fn fingerprint_of(c: Molmo2VisionConfig) -> Seq<char> {
    "molmo2-vision-v1;position=exact-default;selected="@ + list_form(c.selected_layers@)
        + ";pool-mask="@ + bool_form(c.pooling_attention_mask) + ";patch-id="@ + dec_int(
        c.image_patch_id as int,
    ) + ";crops="@ + dec(c.static_crops as nat) + ";overlap="@ + list_form(c.overlap@)
        + ";patches="@ + dec(c.patches_per_crop as nat) + ";pool-groups="@ + dec(
        c.static_pool_groups as nat,
    ) + ";pool="@ + dec(c.pool_h as nat) + "x"@ + dec(c.pool_w as nat) + ";hidden="@ + dec(
        c.hidden as nat,
    ) + ";inter="@ + dec(c.intermediate as nat) + ";layers="@ + dec(c.layers as nat)
        + ";emitted="@ + dec(c.emitted_layers as nat) + ";heads="@ + dec(c.heads as nat)
        + ";head-dim="@ + dec(c.head_dim as nat) + ";pool-hidden="@ + dec(c.pool_hidden as nat)
        + ";pool-heads="@ + dec(c.pool_heads as nat) + ";pool-head-dim="@ + dec(
        c.pool_head_dim as nat,
    ) + ";projector-inter="@ + dec(c.projector_intermediate as nat) + ";text-hidden="@ + dec(
        c.text_hidden as nat,
    )
}

fn append_size(out: &mut String, label: &str, n: usize)
    ensures
        final(out)@ == old(out)@ + label@ + dec(n as nat),
{
    out.append(label);
    out.append(size_text(n).as_str());
}

impl Molmo2VisionConfig {
    /// The width of the selected layers together is one that a size counts.
    pub open spec fn width_fits(&self) -> bool {
        self.hidden * self.selected_layers@.len() <= usize::MAX
    }

    /// Patches along one side of a crop.
    pub open spec fn side(&self) -> int {
        self.crop_size as int / self.patch_size as int
    }

    /// Patches that a further crop adds along an axis.
    pub open spec fn window(&self) -> int {
        self.side() - margins_of(self.overlap@)
    }

    /// The crops have patches outside their margins, and the sizes of the largest layout
    /// are those that a size counts.
    pub open spec fn geometry_fits(&self) -> bool {
        &&& self.patch_size > 0 && self.pool_h > 0 && self.pool_w > 0
        &&& margins_of(self.overlap@) <= self.side()
        &&& self.static_crops * self.window() + margins_of(self.overlap@) <= usize::MAX
    }

    /// An image of `crops` crops, the low-resolution one among them, pools to this grid:
    /// the low-resolution crop in the first two entries, and in the other two some layout
    /// of the remaining crops.
    pub open spec fn is_grid(&self, crops: int, grid: Seq<usize>) -> bool {
        let low = ceil_div(self.side(), self.pool_h as int);
        &&& 2 <= crops <= self.static_crops
        &&& grid[0] == low && grid[1] == low
        &&& exists|rows: int| #[trigger] self.is_grid_of(crops - 1, rows, grid)
    }

    /// The grid is that of `high` crops laid out in `rows` rows.
    pub open spec fn is_grid_of(&self, high: int, rows: int, grid: Seq<usize>) -> bool {
        &&& 1 <= rows <= high
        &&& high % rows == 0
        &&& grid[2] == ceil_div(
            axis_patches(rows, self.window(), margins_of(self.overlap@)),
            self.pool_h as int,
        )
        &&& grid[3] == ceil_div(
            axis_patches(high / rows, self.window(), margins_of(self.overlap@)),
            self.pool_w as int,
        )
    }

    /// The width of the selected layers together.
    #[must_use]
    pub fn selected_width(&self) -> (r: usize)
        requires
            self.width_fits(),
        ensures
            r == self.hidden * self.selected_layers@.len(),
    {
        self.hidden * self.selected_layers.len()
    }

    /// Whether an image of `crops` crops can pool to `grid`.
    pub fn valid_runtime_geometry(&self, crops: usize, grid: [usize; 4]) -> (r: bool)
        requires
            self.geometry_fits(),
        ensures
            r == self.is_grid(crops as int, grid@),
    {
        if crops < 2 || crops > self.static_crops {
            return false;
        }
        let side: usize = self.crop_size / self.patch_size;
        let low: usize = divide_up(side, self.pool_h);
        if grid[0] != low || grid[1] != low {
            return false;
        }
        let high: usize = crops - 1;
        let margins: usize = self.overlap[0] + self.overlap[1];
        let window: usize = side - margins;
        let mut rows: usize = 1;
        while rows <= high
            invariant
                1 <= rows <= high + 1,
                high == crops - 1,
                2 <= crops <= self.static_crops,
                self.geometry_fits(),
                margins == margins_of(self.overlap@),
                window == self.window(),
                grid@[0] == ceil_div(self.side(), self.pool_h as int),
                grid@[1] == ceil_div(self.side(), self.pool_h as int),
                forall|x: int| 1 <= x < rows ==> !#[trigger] self.is_grid_of(high as int, x, grid@),
            decreases high + 1 - rows,
        {
            if high % rows == 0 {
                let columns: usize = high / rows;
                proof {
                    assert(columns <= high) by (nonlinear_arith)
                        requires
                            columns == high / rows,
                            rows >= 1,
                    ;
                    assert(rows * window <= self.static_crops * window) by (nonlinear_arith)
                        requires
                            rows <= self.static_crops,
                    ;
                    assert(columns * window <= self.static_crops * window) by (nonlinear_arith)
                        requires
                            columns <= self.static_crops,
                    ;
                }
                let height: usize = rows * window + margins;
                let width: usize = columns * window + margins;
                if grid[2] == divide_up(height, self.pool_h) && grid[3] == divide_up(
                    width,
                    self.pool_w,
                ) {
                    assert(self.is_grid_of(high as int, rows as int, grid@));
                    return true;
                }
            }
            assert(!self.is_grid_of(high as int, rows as int, grid@));
            rows += 1;
        }
        assert forall|x: int| !#[trigger] self.is_grid_of(crops - 1, x, grid@) by {}
        false
    }

    /// The text that identifies the configuration.
    pub fn fingerprint(&self) -> (r: String)
        ensures
            r@ == fingerprint_of(*self),
    {
        let mut out = "molmo2-vision-v1;position=exact-default;selected=".to_owned();
        out.append(list_text(self.selected_layers.as_slice()).as_str());
        out.append(";pool-mask=");
        out.append(bool_text(self.pooling_attention_mask));
        out.append(";patch-id=");
        out.append(int_text(self.image_patch_id as i64).as_str());
        append_size(&mut out, ";crops=", self.static_crops);
        out.append(";overlap=");
        out.append(list_text(&self.overlap).as_str());
        append_size(&mut out, ";patches=", self.patches_per_crop);
        append_size(&mut out, ";pool-groups=", self.static_pool_groups);
        append_size(&mut out, ";pool=", self.pool_h);
        append_size(&mut out, "x", self.pool_w);
        append_size(&mut out, ";hidden=", self.hidden);
        append_size(&mut out, ";inter=", self.intermediate);
        append_size(&mut out, ";layers=", self.layers);
        append_size(&mut out, ";emitted=", self.emitted_layers);
        append_size(&mut out, ";heads=", self.heads);
        append_size(&mut out, ";head-dim=", self.head_dim);
        append_size(&mut out, ";pool-hidden=", self.pool_hidden);
        append_size(&mut out, ";pool-heads=", self.pool_heads);
        append_size(&mut out, ";pool-head-dim=", self.pool_head_dim);
        append_size(&mut out, ";projector-inter=", self.projector_intermediate);
        append_size(&mut out, ";text-hidden=", self.text_hidden);
        out
    }

    /// The weights of the vision tower with their shapes, in the order of the graph's
    /// arguments.
    pub fn weight_specs(&self) -> (r: Vec<Molmo2VisionWeightSpec>)
        requires
            self.width_fits(),
        ensures
            weight_views(r@) == tower_weights(*self),
    {
        let mut out: Vec<Molmo2VisionWeightSpec> = Vec::new();
        assert(weight_views(out@) =~= Seq::<VisionWeightView>::empty());
        push_linear(
            &mut out,
            "vision_tower.image_vit.",
            "patch_embedding",
            self.hidden,
            self.patch_dim,
        );
        push_matrix(
            &mut out,
            "vision_tower.image_vit.positional_embedding".to_owned(),
            self.position_count,
            self.hidden,
        );
        let mut layer: usize = 0;
        assert(weight_views(out@) =~= embedding_weights(*self) + vit_weights(*self, 0));
        while layer < self.emitted_layers
            invariant
                layer <= self.emitted_layers,
                weight_views(out@) == embedding_weights(*self) + vit_weights(*self, layer as nat),
            decreases self.emitted_layers - layer,
        {
            push_vit_layer(&mut out, self, layer);
            layer += 1;
            assert(weight_views(out@) =~= embedding_weights(*self) + vit_weights(
                *self,
                layer as nat,
            ));
        }
        push_adapter(&mut out, self);
        out
    }
}

/// Every grid that an accepted configuration takes fits the static pooling bucket: the
/// groups of the low-resolution crop and of the layout together are at most
/// `static_pool_groups`.
pub proof fn law_runtime_grids_fit_the_bucket(
    root: JsonView,
    p: JsonView,
    c: Molmo2VisionConfig,
    crops: int,
    grid: Seq<usize>,
)
    requires
        root_error(root) is None,
        blocks_problem(root, p) is None,
        describes_vision(root, p, c),
        c.is_grid(crops, grid),
    ensures
        grid[0] * grid[1] + grid[2] * grid[3] <= c.static_pool_groups,
{
    let rows = choose|rows: int| #[trigger] c.is_grid_of(crops - 1, rows, grid);
    let high = crops - 1;
    let columns = high / rows;
    let m = margins_of(c.overlap@);
    vstd::arithmetic::div_mod::lemma_fundamental_div_mod(high, rows);
    assert(rows * columns == high);
    assert(1 <= columns <= high) by (nonlinear_arith)
        requires
            rows * columns == high,
            1 <= rows <= high,
            high >= 1,
    ;
    assert(is_layout(rows, columns, c.max_crops as int));
    let groups = high_groups(rows, columns, c.window(), m);
    assert(groups == grid[2] * grid[3]);
}

/// An accepted configuration has the geometry that its operations ask for.
pub proof fn law_accepted_geometry_fits(root: JsonView, p: JsonView, c: Molmo2VisionConfig)
    requires
        root_error(root) is None,
        blocks_problem(root, p) is None,
        describes_vision(root, p, c),
    ensures
        c.geometry_fits(),
        c.width_fits(),
        c.heads * c.head_dim == c.hidden,
        c.pool_heads * c.pool_head_dim == c.pool_hidden,
        c.position_count == c.patches_per_crop,
        1 <= c.max_crops <= MAX_SUPPORTED_CROPS,
        c.emitted_layers <= c.layers <= MAX_VIT_LAYERS,
{
    reveal(crop_problem);
    reveal(processor_problem);
    reveal(selection_problem);
    reveal(heads_problem);
    reveal(feature_problem);
    let side = c.side();
    assert(side <= 0xFFFF_FFFF) by (nonlinear_arith)
        requires
            side * side <= 0xFFFF_FFFF_FFFF_FFFF,
    ;
    let w = c.window();
    assert(c.static_crops * w <= 9 * w) by (nonlinear_arith)
        requires
            c.static_crops <= 9,
            w >= 0,
    ;
    assert(c.patch_size > 0);
    assert(0 <= margins_of(c.overlap@) < side);
    assert(10 * side <= side * side || 10 * side <= 100) by (nonlinear_arith);
    let values = root.get("adapter_config"@).unwrap().get_array("vit_layers"@).unwrap();
    let k = choose|k: int|
        0 <= k < c.selected_layers@.len() && c.selected_layers@[k] == (c.emitted_layers
            - 1) as usize;
    lemma_layer_in_range(values, c.layers, 0, k);
}

proof fn lemma_layer_in_range(values: Seq<JsonView>, layers: usize, from: int, k: int)
    requires
        0 <= from <= k < values.len(),
        layers_error(values, layers, from) is None,
    ensures
        values[k].as_i64() is Some,
        0 <= resolved_layer(values[k].as_i64().unwrap(), layers) < layers,
    decreases k - from,
{
    if from < k {
        lemma_layer_in_range(values, layers, from + 1, k);
    }
}

/// Every layer that an accepted configuration selects is emitted, and none is emitted
/// behind the last selected one.
pub proof fn law_selected_layers_are_emitted(
    root: JsonView,
    p: JsonView,
    c: Molmo2VisionConfig,
    i: int,
)
    requires
        describes_vision(root, p, c),
        0 <= i < c.selected_layers@.len(),
    ensures
        c.selected_layers@[i] < c.emitted_layers,
        exists|k: int|
            0 <= k < c.selected_layers@.len() && #[trigger] c.selected_layers@[k]
                == c.emitted_layers - 1,
{
    let last = (c.emitted_layers - 1) as usize;
    assert(c.selected_layers@.contains(last));
    let k = choose|k: int| 0 <= k < c.selected_layers@.len() && c.selected_layers@[k] == last;
    assert(c.selected_layers@[k] == c.emitted_layers - 1);
}

} // verus!
