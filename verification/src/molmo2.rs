//! Indexed pooling and additive merge of image features for Molmo2.
//!
//! The image processor marks invalid pooling entries by negative indices. They are kept
//! as they are; gather indices and a mask are derived beside them, so that the patch an
//! invalid entry is clamped to never contributes.
use vstd::prelude::*;

use crate::text::{dec, dec_int, int_text, list_form, list_text, size_text};

verus! {

/// Why image inputs are refused.
#[derive(Debug, Clone, PartialEq, Eq)]
pub enum Molmo2InputError {
    ZeroHiddenSize,
    EmptyPoolingGroup,
    PoolingShape { values: usize, groups: usize, group_size: usize },
    PoolingIndex { group: usize, offset: usize, value: i32, patch_count: usize },
    EmbeddingShape { values: usize, tokens: usize, hidden_size: usize },
    ProjectedShape { values: usize, tokens: usize, hidden_size: usize },
    ProjectedTokenCount { positions: usize, projected_tokens: usize },
    ActiveTokenCount {
        active_groups: usize,
        grid_groups: usize,
        prompt_positions: usize,
        all_invalid_groups: Vec<usize>,
    },
    NonFinite { tensor: &'static str, index: usize },
    ShapeOverflow,
}

impl Molmo2InputError {
    /// The message of an error.
    pub open spec fn text(&self) -> Seq<char> {
        match self {
            Molmo2InputError::ZeroHiddenSize => "Molmo2 hidden size must be positive"@,
            Molmo2InputError::EmptyPoolingGroup =>
                "Molmo2 pooling groups must contain at least one patch index"@,
            Molmo2InputError::PoolingShape { values, groups, group_size } => "Molmo2 pooling has "@
                + dec(*values as nat) + " indices, expected "@ + dec(*groups as nat) + " * "@ + dec(
                *group_size as nat,
            ),
            Molmo2InputError::PoolingIndex { group, offset, value, patch_count } =>
                "Molmo2 pooling group "@ + dec(*group as nat) + " offset "@ + dec(*offset as nat)
                    + " nonnegative index "@ + dec_int(*value as int) + " is outside [0,"@ + dec(
                    *patch_count as nat,
                ) + ")"@,
            Molmo2InputError::EmbeddingShape { values, tokens, hidden_size } =>
                "Molmo2 text embeddings have "@ + dec(*values as nat) + " values, expected "@ + dec(
                    *tokens as nat,
                ) + " * "@ + dec(*hidden_size as nat),
            Molmo2InputError::ProjectedShape { values, tokens, hidden_size } =>
                "Molmo2 projected features have "@ + dec(*values as nat) + " values, expected "@
                    + dec(*tokens as nat) + " * "@ + dec(*hidden_size as nat),
            Molmo2InputError::ProjectedTokenCount { positions, projected_tokens } =>
                "Molmo2 prompt has "@ + dec(*positions as nat)
                    + " image_patch_id positions but projector returned "@ + dec(
                    *projected_tokens as nat,
                ) + " tokens"@,
            Molmo2InputError::ActiveTokenCount {
                active_groups,
                grid_groups,
                prompt_positions,
                all_invalid_groups,
            } => "Molmo2 projected active rows ("@ + dec(*active_groups as nat)
                + ") and grid rows ("@ + dec(*grid_groups as nat)
                + ") must match prompt image_patch_id positions ("@ + dec(*prompt_positions as nat)
                + ") before native invocation; all-invalid pooling groups: "@ + list_form(
                all_invalid_groups@,
            ),
            Molmo2InputError::NonFinite { tensor, index } => "Molmo2 "@ + tensor@
                + " contains a non-finite value at flat index "@ + dec(*index as nat),
            Molmo2InputError::ShapeOverflow => "Molmo2 tensor shape overflowed"@,
        }
    }

    /// Render the error.
    pub fn message(&self) -> (r: String)
        ensures
            r@ == self.text(),
    {
        match self {
            Molmo2InputError::ZeroHiddenSize => "Molmo2 hidden size must be positive".to_owned(),
            Molmo2InputError::EmptyPoolingGroup =>
                "Molmo2 pooling groups must contain at least one patch index".to_owned(),
            Molmo2InputError::PoolingShape { values, groups, group_size } => "Molmo2 pooling has ".to_owned().concat(
            &size_text(*values)).concat(" indices, expected ").concat(&size_text(*groups)).concat(
                " * ",
            ).concat(&size_text(*group_size)),
            Molmo2InputError::PoolingIndex { group, offset, value, patch_count } =>
                "Molmo2 pooling group ".to_owned().concat(&size_text(*group)).concat(
                    " offset ",
                ).concat(&size_text(*offset)).concat(" nonnegative index ").concat(
                    &int_text(*value as i64),
                ).concat(" is outside [0,").concat(&size_text(*patch_count)).concat(")"),
            Molmo2InputError::EmbeddingShape { values, tokens, hidden_size } =>
                "Molmo2 text embeddings have ".to_owned().concat(&size_text(*values)).concat(
                    " values, expected ",
                ).concat(&size_text(*tokens)).concat(" * ").concat(&size_text(*hidden_size)),
            Molmo2InputError::ProjectedShape { values, tokens, hidden_size } =>
                "Molmo2 projected features have ".to_owned().concat(&size_text(*values)).concat(
                    " values, expected ",
                ).concat(&size_text(*tokens)).concat(" * ").concat(&size_text(*hidden_size)),
            Molmo2InputError::ProjectedTokenCount { positions, projected_tokens } =>
                "Molmo2 prompt has ".to_owned().concat(&size_text(*positions)).concat(
                    " image_patch_id positions but projector returned ",
                ).concat(&size_text(*projected_tokens)).concat(" tokens"),
            Molmo2InputError::ActiveTokenCount {
                active_groups,
                grid_groups,
                prompt_positions,
                all_invalid_groups,
            } => "Molmo2 projected active rows (".to_owned().concat(
                &size_text(*active_groups),
            ).concat(") and grid rows (").concat(&size_text(*grid_groups)).concat(
                ") must match prompt image_patch_id positions (",
            ).concat(&size_text(*prompt_positions)).concat(
                ") before native invocation; all-invalid pooling groups: ",
            ).concat(&list_text(all_invalid_groups.as_slice())),
            Molmo2InputError::NonFinite { tensor, index } => "Molmo2 ".to_owned().concat(
                tensor,
            ).concat(" contains a non-finite value at flat index ").concat(&size_text(*index)),
            Molmo2InputError::ShapeOverflow => "Molmo2 tensor shape overflowed".to_owned(),
        }
    }
}

/// Pooling indices with the values that a safe gather takes.
#[derive(Debug, Clone, PartialEq, Eq)]
pub struct Molmo2SafePooling {
    /// The processor's indices, negative marks kept.
    pub signed_indices: Vec<i32>,
    /// Indices to gather by; an invalid entry gathers patch 0.
    pub gather_indices: Vec<i32>,
    /// 1 for a valid entry, 0 for an invalid one.
    pub valid_mask: Vec<u8>,
    /// Valid entries of each group.
    pub valid_counts: Vec<i32>,
    pub groups: usize,
    pub group_size: usize,
}

/// Nonnegative entries of a list.
pub open spec fn count_valid(s: Seq<i32>) -> nat
    decreases s.len(),
{
    if s.len() == 0 {
        0
    } else {
        count_valid(s.drop_last()) + if s.last() >= 0 {
            1nat
        } else {
            0
        }
    }
}

/// The entries of group `g`.
pub open spec fn group_entries(s: Seq<i32>, group_size: usize, g: int) -> Seq<i32> {
    s.subrange(g * group_size, g * group_size + group_size)
}

/// The first entry at or behind `from` that is neither negative nor below `limit`.
pub open spec fn first_out_of_range(s: Seq<i32>, limit: usize, from: int) -> Option<int>
    decreases s.len() - from,
{
    if from < 0 || from >= s.len() {
        None
    } else if s[from] >= limit {
        Some(from)
    } else {
        first_out_of_range(s, limit, from + 1)
    }
}

/// Why pooling indices are refused.
pub open spec fn pooling_error(
    s: Seq<i32>,
    groups: usize,
    group_size: usize,
    patch_count: usize,
) -> Option<Molmo2InputError> {
    if group_size == 0 {
        Some(Molmo2InputError::EmptyPoolingGroup)
    } else if groups * group_size > usize::MAX {
        Some(Molmo2InputError::ShapeOverflow)
    } else if s.len() != groups * group_size {
        Some(Molmo2InputError::PoolingShape { values: s.len() as usize, groups, group_size })
    } else {
        match first_out_of_range(s, patch_count, 0) {
            Some(i) => Some(
                Molmo2InputError::PoolingIndex {
                    group: (i / group_size as int) as usize,
                    offset: (i % group_size as int) as usize,
                    value: s[i],
                    patch_count,
                },
            ),
            None => None,
        }
    }
}

/// The groups whose count is positive (`wanted`) or zero (`!wanted`), in order.
pub open spec fn groups_with(counts: Seq<i32>, wanted: bool) -> Seq<usize>
    decreases counts.len(),
{
    if counts.len() == 0 {
        Seq::empty()
    } else {
        let rest = groups_with(counts.drop_last(), wanted);
        if (wanted && counts.last() > 0) || (!wanted && counts.last() == 0) {
            rest.push((counts.len() - 1) as usize)
        } else {
            rest
        }
    }
}

fn collect_groups(counts: &Vec<i32>, wanted: bool) -> (r: Vec<usize>)
    ensures
        r@ == groups_with(counts@, wanted),
{
    let mut out: Vec<usize> = Vec::new();
    let mut i: usize = 0;
    assert(counts@.subrange(0, 0) =~= Seq::<i32>::empty());
    while i < counts.len()
        invariant
            i <= counts.len(),
            out@ == groups_with(counts@.subrange(0, i as int), wanted),
        decreases counts.len() - i,
    {
        proof {
            let next = counts@.subrange(0, i + 1);
            assert(next.drop_last() =~= counts@.subrange(0, i as int));
            assert(next.last() == counts@[i as int]);
        }
        if (wanted && counts[i] > 0) || (!wanted && counts[i] == 0) {
            out.push(i);
        }
        i += 1;
    }
    assert(counts@.subrange(0, i as int) =~= counts@);
    out
}

proof fn lemma_group_index(i: int, groups: int, group_size: int)
    requires
        0 <= i < groups * group_size,
        group_size > 0,
    ensures
        0 <= i / group_size < groups,
        0 <= i % group_size < group_size,
        (i / group_size) * group_size + i % group_size == i,
{
    vstd::arithmetic::div_mod::lemma_fundamental_div_mod(i, group_size);
    let g = i / group_size;
    assert(g >= 0) by (nonlinear_arith)
        requires
            g == i / group_size,
            i >= 0,
            group_size > 0,
    ;
    assert(g < groups) by (nonlinear_arith)
        requires
            group_size * g + i % group_size == i,
            i % group_size >= 0,
            i < groups * group_size,
            group_size > 0,
    ;
    assert(group_size * g == g * group_size) by (nonlinear_arith);
}

impl Molmo2SafePooling {
    /// Denominators of the group means: with the attention mask the number of valid
    /// entries, at least 1; without it the group size, at most `i32::MAX`.
    pub open spec fn denominators(&self, masked: bool) -> Seq<i32> {
        if masked {
            Seq::new(
                self.valid_counts@.len(),
                |g: int|
                    if self.valid_counts@[g] > 1 {
                        self.valid_counts@[g]
                    } else {
                        1
                    },
            )
        } else {
            Seq::new(
                self.groups as nat,
                |g: int|
                    if self.group_size > i32::MAX {
                        i32::MAX
                    } else {
                        self.group_size as i32
                    },
            )
        }
    }

    /// The values that belong to the indices, over `patch_count` patches.
    pub open spec fn wf(&self, patch_count: usize) -> bool {
        let n = self.signed_indices@.len();
        &&& self.group_size > 0
        &&& n == self.groups * self.group_size
        &&& self.gather_indices@.len() == n && self.valid_mask@.len() == n
        &&& self.valid_counts@.len() == self.groups
        &&& forall|i: int|
            #![trigger self.signed_indices@[i]]
            #![trigger self.gather_indices@[i]]
            #![trigger self.valid_mask@[i]]
            0 <= i < n ==> {
                let value = self.signed_indices@[i];
                &&& value < patch_count
                &&& self.gather_indices@[i] == (if value < 0 {
                    0
                } else {
                    value
                })
                &&& self.valid_mask@[i] == (if value < 0 {
                    0u8
                } else {
                    1u8
                })
            }
        &&& forall|g: int|
            0 <= g < self.groups ==> (#[trigger] self.valid_counts@[g]) as int == count_valid(
                group_entries(self.signed_indices@, self.group_size, g),
            )
    }

    /// Check pooling indices and derive what a safe gather takes.
    pub fn prepare(
        signed_indices: &[i32],
        groups: usize,
        group_size: usize,
        patch_count: usize,
    ) -> (r: Result<Self, Molmo2InputError>)
        requires
            forall|g: int|
                0 <= g < groups && signed_indices@.len() == groups * group_size ==> count_valid(
                    #[trigger] group_entries(signed_indices@, group_size, g),
                ) <= i32::MAX,
        ensures
            match r {
                Ok(p) => {
                    &&& pooling_error(signed_indices@, groups, group_size, patch_count) is None
                    &&& p.signed_indices@ == signed_indices@
                    &&& p.groups == groups && p.group_size == group_size
                    &&& p.wf(patch_count)
                },
                Err(e) => pooling_error(signed_indices@, groups, group_size, patch_count) == Some(
                    e,
                ),
            },
    {
        if group_size == 0 {
            return Err(Molmo2InputError::EmptyPoolingGroup);
        }
        let expected: usize = match groups.checked_mul(group_size) {
            Some(n) => n,
            None => return Err(Molmo2InputError::ShapeOverflow),
        };
        if signed_indices.len() != expected {
            return Err(
                Molmo2InputError::PoolingShape { values: signed_indices.len(), groups, group_size },
            );
        }
        let ghost s = signed_indices@;
        let mut gather_indices: Vec<i32> = Vec::new();
        let mut valid_mask: Vec<u8> = Vec::new();
        let mut valid_counts: Vec<i32> = Vec::new();
        let mut i: usize = 0;
        let mut g: usize = 0;
        assert(0 * group_size == 0) by (nonlinear_arith);
        while g < groups
            invariant
                g <= groups,
                group_size > 0,
                s == signed_indices@,
                s.len() == groups * group_size,
                groups * group_size <= usize::MAX,
                i == g * group_size,
                forall|x: int|
                    0 <= x < groups && s.len() == groups * group_size ==> count_valid(
                        #[trigger] group_entries(s, group_size, x),
                    ) <= i32::MAX,
                gather_indices@.len() == i && valid_mask@.len() == i,
                valid_counts@.len() == g,
                first_out_of_range(s, patch_count, 0) == first_out_of_range(
                    s,
                    patch_count,
                    i as int,
                ),
                forall|k: int|
                    #![trigger s[k]]
                    0 <= k < i ==> s[k] < patch_count && gather_indices@[k] == (if s[k] < 0 {
                        0
                    } else {
                        s[k]
                    }) && valid_mask@[k] == (if s[k] < 0 {
                        0u8
                    } else {
                        1u8
                    }),
                forall|x: int|
                    0 <= x < g ==> (#[trigger] valid_counts@[x]) as int == count_valid(
                        group_entries(s, group_size, x),
                    ),
            decreases groups - g,
        {
            let ghost entries = group_entries(s, group_size, g as int);
            proof {
                assert(g * group_size + group_size <= groups * group_size) by (nonlinear_arith)
                    requires
                        g + 1 <= groups,
                ;
                assert(entries.subrange(0, 0) =~= Seq::<i32>::empty());
                assert(count_valid(entries) <= i32::MAX);
            }
            let mut count: i32 = 0;
            let mut offset: usize = 0;
            while offset < group_size
                invariant
                    g < groups,
                    offset <= group_size,
                    group_size > 0,
                    s == signed_indices@,
                    s.len() == groups * group_size,
                    groups * group_size <= usize::MAX,
                    g * group_size + group_size <= groups * group_size,
                    i == g * group_size + offset,
                    entries == group_entries(s, group_size, g as int),
                    count_valid(entries) <= i32::MAX,
                    count == count_valid(entries.subrange(0, offset as int)),
                    gather_indices@.len() == i && valid_mask@.len() == i,
                    first_out_of_range(s, patch_count, 0) == first_out_of_range(
                        s,
                        patch_count,
                        i as int,
                    ),
                    forall|k: int|
                        #![trigger s[k]]
                        0 <= k < i ==> s[k] < patch_count && gather_indices@[k] == (if s[k] < 0 {
                            0
                        } else {
                            s[k]
                        }) && valid_mask@[k] == (if s[k] < 0 {
                            0u8
                        } else {
                            1u8
                        }),
                decreases group_size - offset,
            {
                let value: i32 = signed_indices[i];
                proof {
                    let next = entries.subrange(0, offset + 1);
                    assert(next.drop_last() =~= entries.subrange(0, offset as int));
                    assert(next.last() == value);
                    lemma_count_prefix(entries, (offset + 1) as nat);
                }
                if value < 0 {
                    gather_indices.push(0);
                    valid_mask.push(0);
                } else {
                    if value as usize >= patch_count {
                        proof {
                            vstd::arithmetic::div_mod::lemma_fundamental_div_mod_converse(
                                i as int,
                                group_size as int,
                                g as int,
                                offset as int,
                            );
                        }
                        return Err(
                            Molmo2InputError::PoolingIndex { group: g, offset, value, patch_count },
                        );
                    }
                    gather_indices.push(value);
                    valid_mask.push(1);
                    count = count + 1;
                }
                i += 1;
                offset += 1;
            }
            proof {
                assert(entries.subrange(0, offset as int) =~= entries);
                assert((g + 1) * group_size == g * group_size + group_size) by (nonlinear_arith);
            }
            valid_counts.push(count);
            g += 1;
        }
        let p = Molmo2SafePooling {
            signed_indices: vstd::slice::slice_to_vec(signed_indices),
            gather_indices,
            valid_mask,
            valid_counts,
            groups,
            group_size,
        };
        assert forall|k: int|
            #![trigger p.signed_indices@[k]]
            #![trigger p.gather_indices@[k]]
            #![trigger p.valid_mask@[k]]
            0 <= k < s.len() implies {
            let value = p.signed_indices@[k];
            &&& value < patch_count
            &&& p.gather_indices@[k] == (if value < 0 {
                0
            } else {
                value
            })
            &&& p.valid_mask@[k] == (if value < 0 {
                0u8
            } else {
                1u8
            })
        } by {
            assert(s[k] < patch_count);
        }
        Ok(p)
    }

    /// Denominators of the group means: with the attention mask the number of valid
    /// entries, at least 1; without it the group size.
    #[must_use]
    pub fn mean_denominators(&self, pooling_attention_mask: bool) -> (r: Vec<i32>)
        ensures
            r@ == self.denominators(pooling_attention_mask),
    {
        let mut out: Vec<i32> = Vec::new();
        if pooling_attention_mask {
            let mut g: usize = 0;
            while g < self.valid_counts.len()
                invariant
                    g <= self.valid_counts.len(),
                    out@ == Seq::new(
                        g as nat,
                        |x: int|
                            if self.valid_counts@[x] > 1 {
                                self.valid_counts@[x]
                            } else {
                                1
                            },
                    ),
                decreases self.valid_counts.len() - g,
            {
                let count: i32 = self.valid_counts[g];
                out.push(
                    if count > 1 {
                        count
                    } else {
                        1
                    },
                );
                g += 1;
            }
        } else {
            let whole: i32 = if self.group_size > i32::MAX as usize {
                i32::MAX
            } else {
                self.group_size as i32
            };
            let mut g: usize = 0;
            while g < self.groups
                invariant
                    g <= self.groups,
                    out@ == Seq::new(g as nat, |x: int| whole),
                decreases self.groups - g,
            {
                out.push(whole);
                g += 1;
            }
        }
        out
    }

    /// The groups that hold a valid entry. The grid and the prompt have to agree on their
    /// number.
    pub fn active_groups_for_prompt(&self, grid_groups: usize, prompt_positions: usize) -> (r:
        Result<Vec<usize>, Molmo2InputError>)
        ensures
            ({
                let active = groups_with(self.valid_counts@, true);
                let agrees = grid_groups == prompt_positions && active.len() == prompt_positions;
                match r {
                    Ok(groups) => agrees && groups@ == active,
                    Err(e) => {
                        &&& !agrees
                        &&& e matches Molmo2InputError::ActiveTokenCount {
                            active_groups,
                            grid_groups: stated_grid,
                            prompt_positions: stated_prompt,
                            all_invalid_groups,
                        }
                        &&& active_groups == active.len()
                        &&& stated_grid == grid_groups && stated_prompt == prompt_positions
                        &&& all_invalid_groups@ == groups_with(self.valid_counts@, false)
                    },
                }
            }),
    {
        let active = collect_groups(&self.valid_counts, true);
        if grid_groups != prompt_positions || active.len() != prompt_positions {
            return Err(
                Molmo2InputError::ActiveTokenCount {
                    active_groups: active.len(),
                    grid_groups,
                    prompt_positions,
                    all_invalid_groups: collect_groups(&self.valid_counts, false),
                },
            );
        }
        Ok(active)
    }
}

proof fn lemma_count_prefix(s: Seq<i32>, n: nat)
    requires
        n <= s.len(),
    ensures
        count_valid(s.subrange(0, n as int)) <= count_valid(s),
    decreases s.len() - n,
{
    if n == s.len() {
        assert(s.subrange(0, n as int) =~= s);
    } else {
        let next = s.subrange(0, n as int + 1);
        assert(next.drop_last() =~= s.subrange(0, n as int));
        lemma_count_prefix(s, n + 1);
    }
}

/// An invalid entry is masked out, and every gather stays inside the patches, where there
/// is one.
pub proof fn law_invalid_entries_cannot_leak(p: Molmo2SafePooling, patch_count: usize, i: int)
    requires
        p.wf(patch_count),
        patch_count > 0,
        0 <= i < p.signed_indices@.len(),
    ensures
        p.signed_indices@[i] < 0 ==> p.valid_mask@[i] == 0,
        p.valid_mask@[i] == 1 ==> p.gather_indices@[i] == p.signed_indices@[i],
        0 <= p.gather_indices@[i] < patch_count,
{
    assert(p.signed_indices@[i] < patch_count);
}

/// No group mean divides by zero: every group of a prepared pooling has a positive
/// denominator, one of only invalid entries too.
pub proof fn law_no_mean_divides_by_zero(p: Molmo2SafePooling, patch_count: usize, masked: bool)
    requires
        p.wf(patch_count),
    ensures
        p.denominators(masked).len() == p.groups,
        forall|g: int| 0 <= g < p.groups ==> #[trigger] p.denominators(masked)[g] >= 1,
{
}

/// A group's count is at most its size, and zero only where every entry is invalid.
pub proof fn law_counts_are_of_the_group(s: Seq<i32>)
    ensures
        count_valid(s) <= s.len(),
        count_valid(s) == 0 <==> (forall|i: int| 0 <= i < s.len() ==> #[trigger] s[i] < 0),
    decreases s.len(),
{
    if s.len() > 0 {
        let rest = s.drop_last();
        law_counts_are_of_the_group(rest);
        if count_valid(s) == 0 {
            assert forall|i: int| 0 <= i < s.len() implies #[trigger] s[i] < 0 by {
                if i < s.len() - 1 {
                    assert(rest[i] == s[i]);
                }
            }
        }
        if forall|i: int| 0 <= i < s.len() ==> #[trigger] s[i] < 0 {
            assert forall|i: int| 0 <= i < rest.len() implies #[trigger] rest[i] < 0 by {
                assert(rest[i] == s[i]);
            }
            assert(s[s.len() - 1] < 0);
        }
    }
}

/// Active groups come in ascending order, and each is a group with a valid entry.
pub proof fn law_active_groups_ascend(counts: Seq<i32>)
    requires
        counts.len() <= usize::MAX,
    ensures
        forall|i: int, j: int|
            0 <= i < j < groups_with(counts, true).len() ==> groups_with(counts, true)[i]
                < groups_with(counts, true)[j],
        forall|i: int|
            0 <= i < groups_with(counts, true).len() ==> {
                let g = #[trigger] groups_with(counts, true)[i];
                g < counts.len() && counts[g as int] > 0
            },
    decreases counts.len(),
{
    if counts.len() > 0 {
        let rest = counts.drop_last();
        law_active_groups_ascend(rest);
        let before = groups_with(rest, true);
        let all = groups_with(counts, true);
        assert forall|i: int| 0 <= i < all.len() implies {
            let g = #[trigger] all[i];
            g < counts.len() && counts[g as int] > 0
        } by {
            if i < before.len() {
                assert(all[i] == before[i]);
            }
        }
        assert forall|i: int, j: int| 0 <= i < j < all.len() implies all[i] < all[j] by {
            assert(all[i] == before[i]);
            if j < before.len() {
                assert(all[j] == before[j]);
            }
        }
    }
}

/// The pattern is that of a finite single.
pub open spec fn is_finite(bits: u32) -> bool {
    (bits as int / 0x80_0000) % 256 != 255
}

/// Whether the pattern is that of a finite single.
pub fn finite_bits(bits: u32) -> (r: bool)
    ensures
        r == is_finite(bits),
{
    (bits / 0x80_0000) % 256 != 255
}

/// The first non-finite value at or behind `from`.
pub open spec fn first_non_finite(s: Seq<u32>, from: int) -> Option<int>
    decreases s.len() - from,
{
    if from < 0 || from >= s.len() {
        None
    } else if !is_finite(s[from]) {
        Some(from)
    } else {
        first_non_finite(s, from + 1)
    }
}

/// Find the first non-finite value.
pub fn find_non_finite(s: &[u32]) -> (r: Option<usize>)
    ensures
        match r {
            Some(i) => first_non_finite(s@, 0) == Some(i as int) && i < s@.len(),
            None => first_non_finite(s@, 0) is None,
        },
{
    let mut i: usize = 0;
    while i < s.len()
        invariant
            i <= s@.len(),
            first_non_finite(s@, 0) == first_non_finite(s@, i as int),
        decreases s@.len() - i,
    {
        if !finite_bits(s[i]) {
            return Some(i);
        }
        i += 1;
    }
    None
}

/// The positions of a token, in order.
pub open spec fn positions_of(tokens: Seq<i32>, id: i32) -> Seq<usize>
    decreases tokens.len(),
{
    if tokens.len() == 0 {
        Seq::empty()
    } else {
        let rest = positions_of(tokens.drop_last(), id);
        if tokens.last() == id {
            rest.push((tokens.len() - 1) as usize)
        } else {
            rest
        }
    }
}

fn find_positions(tokens: &[i32], id: i32) -> (r: Vec<usize>)
    ensures
        r@ == positions_of(tokens@, id),
{
    let mut out: Vec<usize> = Vec::new();
    let mut i: usize = 0;
    assert(tokens@.subrange(0, 0) =~= Seq::<i32>::empty());
    while i < tokens.len()
        invariant
            i <= tokens@.len(),
            out@ == positions_of(tokens@.subrange(0, i as int), id),
        decreases tokens@.len() - i,
    {
        proof {
            let next = tokens@.subrange(0, i + 1);
            assert(next.drop_last() =~= tokens@.subrange(0, i as int));
            assert(next.last() == tokens@[i as int]);
        }
        if tokens[i] == id {
            out.push(i);
        }
        i += 1;
    }
    assert(tokens@.subrange(0, i as int) =~= tokens@);
    out
}

proof fn lemma_positions(tokens: Seq<i32>, id: i32)
    requires
        tokens.len() <= usize::MAX,
    ensures
        ({
            let p = positions_of(tokens, id);
            &&& forall|i: int|
                0 <= i < p.len() ==> (#[trigger] p[i]) < tokens.len() && tokens[p[i] as int] == id
            &&& forall|i: int, j: int| 0 <= i < j < p.len() ==> p[i] < p[j]
            &&& forall|t: int|
                0 <= t < tokens.len() && #[trigger] tokens[t] == id ==> p.contains(t as usize)
        }),
    decreases tokens.len(),
{
    if tokens.len() > 0 {
        let rest = tokens.drop_last();
        lemma_positions(rest, id);
        let before = positions_of(rest, id);
        let p = positions_of(tokens, id);
        assert forall|i: int| 0 <= i < p.len() implies (#[trigger] p[i]) < tokens.len()
            && tokens[p[i] as int] == id by {
            if i < before.len() {
                assert(p[i] == before[i]);
                assert(rest[before[i] as int] == id);
            }
        }
        assert forall|i: int, j: int| 0 <= i < j < p.len() implies p[i] < p[j] by {
            assert(p[i] == before[i]);
            if j < before.len() {
                assert(p[j] == before[j]);
            }
        }
        assert forall|t: int| 0 <= t < tokens.len() && #[trigger] tokens[t] == id implies p.contains(
            t as usize,
        ) by {
            if t < rest.len() {
                assert(rest[t] == id);
                let k = choose|k: int| 0 <= k < before.len() && before[k] == t as usize;
                assert(p[k] == t as usize);
            } else {
                assert(p[p.len() - 1] == t as usize);
            }
        }
    }
}

/// Where value `j` of the image features goes: the positions take their rows in order.
pub open spec fn destination(positions: Seq<usize>, hidden: int, j: int) -> int {
    positions[j / hidden] * hidden + j % hidden
}

/// `sums` are the features added to the text embeddings at their destinations, where
/// `plus` adds singles.
pub open spec fn are_sums<F: Fn(u32, u32) -> u32>(
    plus: F,
    text: Seq<u32>,
    features: Seq<u32>,
    positions: Seq<usize>,
    hidden: int,
    sums: Seq<u32>,
) -> bool {
    &&& sums.len() == features.len()
    &&& forall|j: int|
        #![trigger sums[j]]
        0 <= j < sums.len() ==> call_ensures(
            plus,
            (text[destination(positions, hidden, j)], features[j]),
            sums[j],
        )
}

/// `merged` is the text with the sums at their destinations; positions of other tokens
/// keep their values.
pub open spec fn is_merged(
    tokens: Seq<i32>,
    id: i32,
    hidden: int,
    text: Seq<u32>,
    sums: Seq<u32>,
    merged: Seq<u32>,
) -> bool {
    &&& merged.len() == text.len()
    &&& forall|j: int|
        #![trigger sums[j]]
        0 <= j < sums.len() ==> merged[destination(positions_of(tokens, id), hidden, j)] == sums[j]
    &&& forall|d: int|
        #![trigger merged[d]]
        0 <= d < text.len() && tokens[d / hidden] != id ==> merged[d] == text[d]
}

/// Why a merge is refused before anything is added.
pub open spec fn merge_error(
    tokens: Seq<i32>,
    id: i32,
    text: Seq<u32>,
    hidden: usize,
    features: Seq<u32>,
) -> Option<Molmo2InputError> {
    let rows = features.len() as int / hidden as int;
    if hidden == 0 {
        Some(Molmo2InputError::ZeroHiddenSize)
    } else if tokens.len() * hidden > usize::MAX {
        Some(Molmo2InputError::ShapeOverflow)
    } else if text.len() != tokens.len() * hidden {
        Some(
            Molmo2InputError::EmbeddingShape {
                values: text.len() as usize,
                tokens: tokens.len() as usize,
                hidden_size: hidden,
            },
        )
    } else if first_non_finite(text, 0) is Some {
        Some(
            Molmo2InputError::NonFinite {
                tensor: "text embeddings",
                index: first_non_finite(text, 0).unwrap() as usize,
            },
        )
    } else if features.len() as int % hidden as int != 0 {
        Some(
            Molmo2InputError::ProjectedShape {
                values: features.len() as usize,
                tokens: rows as usize,
                hidden_size: hidden,
            },
        )
    } else if first_non_finite(features, 0) is Some {
        Some(
            Molmo2InputError::NonFinite {
                tensor: "projected features",
                index: first_non_finite(features, 0).unwrap() as usize,
            },
        )
    } else if positions_of(tokens, id).len() != rows {
        Some(
            Molmo2InputError::ProjectedTokenCount {
                positions: positions_of(tokens, id).len() as usize,
                projected_tokens: rows as usize,
            },
        )
    } else {
        None
    }
}

fn check_merge(tokens: &[i32], id: i32, text: &Vec<u32>, hidden: usize, features: &[u32]) -> (r:
    Result<Vec<usize>, Molmo2InputError>)
    ensures
        match r {
            Ok(positions) => merge_error(tokens@, id, text@, hidden, features@) is None
                && positions@ == positions_of(tokens@, id),
            Err(e) => merge_error(tokens@, id, text@, hidden, features@) == Some(e),
        },
{
    if hidden == 0 {
        return Err(Molmo2InputError::ZeroHiddenSize);
    }
    let expected: usize = match tokens.len().checked_mul(hidden) {
        Some(n) => n,
        None => return Err(Molmo2InputError::ShapeOverflow),
    };
    if text.len() != expected {
        return Err(
            Molmo2InputError::EmbeddingShape {
                values: text.len(),
                tokens: tokens.len(),
                hidden_size: hidden,
            },
        );
    }
    if let Some(index) = find_non_finite(text.as_slice()) {
        return Err(Molmo2InputError::NonFinite { tensor: "text embeddings", index });
    }
    let rows: usize = features.len() / hidden;
    if features.len() % hidden != 0 {
        return Err(
            Molmo2InputError::ProjectedShape {
                values: features.len(),
                tokens: rows,
                hidden_size: hidden,
            },
        );
    }
    if let Some(index) = find_non_finite(features) {
        return Err(Molmo2InputError::NonFinite { tensor: "projected features", index });
    }
    let positions = find_positions(tokens, id);
    if positions.len() != rows {
        return Err(
            Molmo2InputError::ProjectedTokenCount {
                positions: positions.len(),
                projected_tokens: rows,
            },
        );
    }
    Ok(positions)
}

proof fn lemma_destination(
    tokens: Seq<i32>,
    id: i32,
    text: Seq<u32>,
    hidden: usize,
    features: Seq<u32>,
    j: int,
)
    requires
        merge_error(tokens, id, text, hidden, features) is None,
        tokens.len() <= usize::MAX,
        0 <= j < features.len(),
    ensures
        0 <= j / hidden as int,
        j / (hidden as int) < positions_of(tokens, id).len(),
        0 <= destination(positions_of(tokens, id), hidden as int, j) < text.len(),
        destination(positions_of(tokens, id), hidden as int, j) / hidden as int == positions_of(
            tokens,
            id,
        )[j / hidden as int],
        tokens[destination(positions_of(tokens, id), hidden as int, j) / hidden as int] == id,
{
    let h = hidden as int;
    let p = positions_of(tokens, id);
    lemma_positions(tokens, id);
    vstd::arithmetic::div_mod::lemma_fundamental_div_mod(features.len() as int, h);
    let rows = features.len() as int / h;
    assert(features.len() == rows * h) by (nonlinear_arith)
        requires
            features.len() == h * rows + 0,
    ;
    lemma_group_index(j, rows, h);
    let t = p[j / h] as int;
    assert(t < tokens.len());
    assert(t * h + j % h < tokens.len() * h) by (nonlinear_arith)
        requires
            t + 1 <= tokens.len(),
            0 <= j % h < h,
    ;
    assert(t * h >= 0) by (nonlinear_arith)
        requires
            t >= 0,
            h > 0,
    ;
    vstd::arithmetic::div_mod::lemma_fundamental_div_mod_converse(t * h + j % h, h, t, j % h);
}

proof fn lemma_destinations_differ(
    tokens: Seq<i32>,
    id: i32,
    text: Seq<u32>,
    hidden: usize,
    features: Seq<u32>,
    a: int,
    b: int,
)
    requires
        merge_error(tokens, id, text, hidden, features) is None,
        tokens.len() <= usize::MAX,
        0 <= a < b < features.len(),
    ensures
        destination(positions_of(tokens, id), hidden as int, a) != destination(
            positions_of(tokens, id),
            hidden as int,
            b,
        ),
{
    let h = hidden as int;
    let p = positions_of(tokens, id);
    lemma_positions(tokens, id);
    lemma_destination(tokens, id, text, hidden, features, a);
    lemma_destination(tokens, id, text, hidden, features, b);
    vstd::arithmetic::div_mod::lemma_fundamental_div_mod(a, h);
    vstd::arithmetic::div_mod::lemma_fundamental_div_mod(b, h);
    let ra = a / h;
    let rb = b / h;
    if destination(p, h, a) == destination(p, h, b) {
        assert(p[ra] == p[rb]);
        if ra < rb {
            assert(p[ra] < p[rb]);
        } else if rb < ra {
            assert(p[rb] < p[ra]);
        }
        assert(a % h == b % h);
    }
}

/// Add projected image features to the text embeddings, row by row at the positions of
/// `image_patch_id`. `plus` adds singles. Nothing changes unless every sum is finite.
pub fn add_projected_features<F: Fn(u32, u32) -> u32>(
    token_ids: &[i32],
    image_patch_id: i32,
    text_embeddings: &mut Vec<u32>,
    hidden_size: usize,
    projected_features: &[u32],
    plus: F,
) -> (r: Result<Vec<usize>, Molmo2InputError>)
    requires
        forall|a: u32, b: u32| call_requires(plus, (a, b)),
    ensures
        r is Err ==> final(text_embeddings)@ == old(text_embeddings)@,
        ({
            let tokens = token_ids@;
            let text = old(text_embeddings)@;
            let features = projected_features@;
            let positions = positions_of(tokens, image_patch_id);
            let error = merge_error(tokens, image_patch_id, text, hidden_size, features);
            if error is Some {
                r == Err::<Vec<usize>, Molmo2InputError>(error.unwrap())
            } else {
                exists|sums: Seq<u32>|
                    {
                        &&& #[trigger] are_sums(
                            plus,
                            text,
                            features,
                            positions,
                            hidden_size as int,
                            sums,
                        )
                        &&& match r {
                            Ok(p) => first_non_finite(sums, 0) is None && p@ == positions
                                && is_merged(
                                tokens,
                                image_patch_id,
                                hidden_size as int,
                                text,
                                sums,
                                final(text_embeddings)@,
                            ),
                            Err(e) => first_non_finite(sums, 0) is Some && e
                                == Molmo2InputError::NonFinite {
                                tensor: "merged embeddings",
                                index: destination(
                                    positions,
                                    hidden_size as int,
                                    first_non_finite(sums, 0).unwrap(),
                                ) as usize,
                            },
                        }
                    }
            }
        }),
{
    let positions = match check_merge(
        token_ids,
        image_patch_id,
        text_embeddings,
        hidden_size,
        projected_features,
    ) {
        Ok(positions) => positions,
        Err(e) => return Err(e),
    };
    let ghost tokens = token_ids@;
    let ghost text = text_embeddings@;
    let ghost features = projected_features@;
    let ghost h = hidden_size as int;
    let count: usize = token_ids.len();
    let total: usize = projected_features.len();
    let mut sums: Vec<u32> = Vec::new();
    let mut j: usize = 0;
    while j < total
        invariant
            j <= total,
            total == features.len(),
            count == tokens.len(),
            hidden_size > 0,
            h == hidden_size,
            tokens == token_ids@ && features == projected_features@ && text == text_embeddings@,
            positions@ == positions_of(tokens, image_patch_id),
            merge_error(tokens, image_patch_id, text, hidden_size, features) is None,
            forall|a: u32, b: u32| call_requires(plus, (a, b)),
            sums@.len() == j,
            forall|k: int|
                #![trigger sums@[k]]
                0 <= k < j ==> call_ensures(
                    plus,
                    (text[destination(positions@, h, k)], features[k]),
                    sums@[k],
                ),
        decreases total - j,
    {
        proof {
            lemma_destination(tokens, image_patch_id, text, hidden_size, features, j as int);
            let t = positions@[j as int / h] as int;
            assert(t * h >= 0) by (nonlinear_arith)
                requires
                    t >= 0,
                    h > 0,
            ;
        }
        let row: usize = j / hidden_size;
        let text_len: usize = text_embeddings.len();
        assert(positions@[row as int] * h + j % hidden_size < text_len);
        let d: usize = positions[row] * hidden_size + j % hidden_size;
        sums.push(plus(text_embeddings[d], projected_features[j]));
        j += 1;
    }
    assert(are_sums(plus, text, features, positions@, h, sums@));
    if let Some(bad) = find_non_finite(sums.as_slice()) {
        proof {
            lemma_destination(tokens, image_patch_id, text, hidden_size, features, bad as int);
            let t = positions@[bad as int / h] as int;
            assert(t * h >= 0) by (nonlinear_arith)
                requires
                    t >= 0,
                    h > 0,
            ;
        }
        let row: usize = bad / hidden_size;
        let text_len: usize = text_embeddings.len();
        assert(positions@[row as int] * h + bad % hidden_size < text_len);
        let index: usize = positions[row] * hidden_size + bad % hidden_size;
        return Err(Molmo2InputError::NonFinite { tensor: "merged embeddings", index });
    }
    let mut k: usize = 0;
    while k < total
        invariant
            k <= total,
            total == features.len(),
            count == tokens.len(),
            hidden_size > 0,
            h == hidden_size,
            positions@ == positions_of(tokens, image_patch_id),
            merge_error(tokens, image_patch_id, text, hidden_size, features) is None,
            sums@.len() == total,
            text_embeddings@.len() == text.len(),
            forall|x: int|
                #![trigger sums@[x]]
                0 <= x < k ==> text_embeddings@[destination(positions@, h, x)] == sums@[x],
            forall|d: int|
                #![trigger text_embeddings@[d]]
                0 <= d < text.len() && tokens[d / h] != image_patch_id ==> text_embeddings@[d]
                    == text[d],
        decreases total - k,
    {
        proof {
            lemma_destination(tokens, image_patch_id, text, hidden_size, features, k as int);
            let t = positions@[k as int / h] as int;
            assert(t * h >= 0) by (nonlinear_arith)
                requires
                    t >= 0,
                    h > 0,
            ;
            assert forall|x: int| 0 <= x < k implies #[trigger] destination(
                positions@,
                h,
                x,
            ) != destination(positions@, h, k as int) by {
                lemma_destinations_differ(
                    tokens,
                    image_patch_id,
                    text,
                    hidden_size,
                    features,
                    x,
                    k as int,
                );
            }
            assert forall|x: int| 0 <= x < k implies 0 <= #[trigger] destination(
                positions@,
                h,
                x,
            ) < text.len() by {
                lemma_destination(tokens, image_patch_id, text, hidden_size, features, x);
            }
        }
        let row: usize = k / hidden_size;
        let text_len: usize = text_embeddings.len();
        assert(positions@[row as int] * h + k % hidden_size < text_len);
        let d: usize = positions[row] * hidden_size + k % hidden_size;
        text_embeddings.set(d, sums[k]);
        k += 1;
    }
    assert(is_merged(tokens, image_patch_id, h, text, sums@, text_embeddings@));
    Ok(positions)
}

} // verus!
