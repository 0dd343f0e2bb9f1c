//! What holds of images on their way to the text: pooling entries are counted, rows and words
//! keep their places, and padding changes nothing that is there.
use vstd::prelude::*;

use crate::molmo2::{
    count_valid, destination, first_non_finite, first_out_of_range, group_entries, groups_with,
    is_finite, merge_error, pooling_error, positions_of, Molmo2SafePooling,
};
use crate::molmo2_config::Molmo2VisionConfig;
use crate::text::hex;
use crate::text_laws::{hex_value, law_hexadecimal_reads_back};
use crate::vision_input::{filled_up, grid_error, patches_error, Molmo2VisionInput};
use crate::vision_output::{rows_of, stages_of, transferred, word_at, StageView};
use crate::vision_weights::{hex_of, on_lines};

verus! {

/// Entries are counted one by one: a group counts what its parts count, and an entry counts
/// exactly when it is not negative, zero among them.
pub proof fn law_entries_are_counted_one_by_one(a: Seq<i32>, b: Seq<i32>, x: i32)
    ensures
        count_valid(a + b) == count_valid(a) + count_valid(b),
        count_valid(seq![x]) == if x >= 0 {
            1nat
        } else {
            0
        },
    decreases b.len(),
{
    assert(seq![x].drop_last() =~= Seq::<i32>::empty());
    assert(count_valid(Seq::<i32>::empty()) == 0);
    if b.len() == 0 {
        assert(a + b =~= a);
    } else {
        law_entries_are_counted_one_by_one(a, b.drop_last(), x);
        assert((a + b).drop_last() =~= a + b.drop_last());
    }
}

/// Groups follow each other: entry `e` of group `g` stands `g` whole groups and `e` entries
/// behind the first.
pub proof fn law_groups_follow_each_other(s: Seq<i32>, group_size: usize, g: int, e: int)
    requires
        0 <= g,
        0 <= e < group_size,
        g * group_size + group_size <= s.len(),
    ensures
        group_entries(s, group_size, g).len() == group_size,
        group_entries(s, group_size, g)[e] == s[g * group_size + e],
{
    assert(0 <= g * group_size) by (nonlinear_arith)
        requires
            0 <= g,
    ;
}

proof fn lemma_in_range(s: Seq<i32>, limit: usize, from: int)
    requires
        0 <= from,
    ensures
        first_out_of_range(s, limit, from) is None <==> forall|i: int|
            from <= i < s.len() ==> #[trigger] s[i] < limit,
    decreases s.len() - from,
{
    if from < s.len() && s[from] < limit {
        lemma_in_range(s, limit, from + 1);
    }
}

/// Pooling indices are accepted exactly when they fill whole groups and each names a patch
/// or none.
pub proof fn law_accepted_indices(
    s: Seq<i32>,
    groups: usize,
    group_size: usize,
    patch_count: usize,
)
    requires
        s.len() <= usize::MAX,
    ensures
        pooling_error(s, groups, group_size, patch_count) is None <==> {
            &&& group_size > 0
            &&& s.len() == groups * group_size
            &&& forall|i: int| 0 <= i < s.len() ==> #[trigger] s[i] < patch_count
        },
{
    lemma_in_range(s, patch_count, 0);
}

/// Under the mask a mean divides by the valid entries, where there are any; without it by the
/// whole group.
pub proof fn law_means_divide_by_what_they_count(
    p: Molmo2SafePooling,
    patch_count: usize,
    g: int,
)
    requires
        p.wf(patch_count),
        0 <= g < p.groups,
    ensures
        p.valid_counts@[g] > 0 ==> p.denominators(true)[g] == p.valid_counts@[g],
        p.valid_counts@[g] == 0 ==> p.denominators(true)[g] == 1,
        p.group_size <= i32::MAX ==> p.denominators(false)[g] == p.group_size,
{
}

/// A group is listed as active exactly when it counts an entry, and as inactive exactly when
/// it counts none.
pub proof fn law_groups_are_listed_by_their_counts(counts: Seq<i32>, g: int)
    requires
        counts.len() <= usize::MAX,
        0 <= g < counts.len(),
    ensures
        groups_with(counts, true).contains(g as usize) <==> counts[g] > 0,
        groups_with(counts, false).contains(g as usize) <==> counts[g] == 0,
    decreases counts.len(),
{
    lemma_listed(counts, true, g);
    lemma_listed(counts, false, g);
}

proof fn lemma_listed(counts: Seq<i32>, wanted: bool, g: int)
    requires
        counts.len() <= usize::MAX,
        0 <= g < counts.len(),
    ensures
        groups_with(counts, wanted).contains(g as usize) <==> if wanted {
            counts[g] > 0
        } else {
            counts[g] == 0
        },
        forall|i: int|
            0 <= i < groups_with(counts, wanted).len() ==> #[trigger] groups_with(counts, wanted)[i]
                < counts.len(),
    decreases counts.len(),
{
    let rest = counts.drop_last();
    let before = groups_with(rest, wanted);
    let all = groups_with(counts, wanted);
    let last = (counts.len() - 1) as usize;
    if g < last {
        lemma_listed(rest, wanted, g);
        if before.contains(g as usize) {
            let k = choose|k: int| 0 <= k < before.len() && before[k] == g as usize;
            assert(all[k] == g as usize);
        }
        if all.contains(g as usize) {
            let k = choose|k: int| 0 <= k < all.len() && all[k] == g as usize;
            assert(k < before.len());
            assert(before[k] == g as usize);
        }
    } else {
        if rest.len() > 0 {
            lemma_listed(rest, wanted, 0);
        }
        if all.len() > before.len() {
            assert(all[all.len() - 1] == last);
        } else {
            assert(all == before);
            if all.contains(g as usize) {
                let k = choose|k: int| 0 <= k < all.len() && all[k] == g as usize;
                assert(before[k] < rest.len());
            }
        }
    }
    assert forall|i: int| 0 <= i < all.len() implies #[trigger] all[i] < counts.len() by {
        if rest.len() > 0 {
            lemma_listed(rest, wanted, 0);
        }
        if i < before.len() {
            assert(all[i] == before[i]);
        }
    }
}

/// Positions of a prompt and of what goes on behind it: those of the first part, then those
/// of the second, moved on by its length.
pub proof fn law_positions_go_on(a: Seq<i32>, b: Seq<i32>, id: i32)
    requires
        a.len() + b.len() <= usize::MAX,
    ensures
        positions_of(a + b, id) == positions_of(a, id) + positions_of(b, id).map_values(
            |p: usize| (a.len() + p) as usize,
        ),
        positions_of(seq![id], id) == seq![0usize],
    decreases b.len(),
{
    let shift = |p: usize| (a.len() + p) as usize;
    assert(seq![id].drop_last() =~= Seq::<i32>::empty());
    assert(positions_of(Seq::<i32>::empty(), id) == Seq::<usize>::empty());
    assert(positions_of(seq![id], id) =~= seq![0usize]);
    if b.len() == 0 {
        assert(a + b =~= a);
        assert(positions_of(b, id).map_values(shift) =~= Seq::<usize>::empty());
        assert(positions_of(a + b, id) =~= positions_of(a, id) + positions_of(b, id).map_values(
            shift,
        ));
    } else {
        let rest = b.drop_last();
        law_positions_go_on(a, rest, id);
        assert((a + b).drop_last() =~= a + rest);
        assert((a + b).last() == b.last());
        let before = positions_of(rest, id);
        if b.last() == id {
            let next = (b.len() - 1) as usize;
            assert(before.push(next).map_values(shift) =~= before.map_values(shift).push(
                shift(next),
            ));
        }
        assert(positions_of(a + b, id) =~= positions_of(a, id) + positions_of(b, id).map_values(
            shift,
        ));
    }
}

/// Row `k` of the image features goes to the `k`-th image position, entry by entry.
pub proof fn law_rows_go_to_their_positions(
    positions: Seq<usize>,
    hidden: int,
    k: int,
    j: int,
)
    requires
        0 <= k,
        0 <= j < hidden,
    ensures
        destination(positions, hidden, k * hidden + j) == positions[k] * hidden + j,
{
    vstd::arithmetic::div_mod::lemma_fundamental_div_mod_converse(k * hidden + j, hidden, k, j);
}

/// A single is finite exactly when its magnitude is below that of infinity.
pub proof fn law_finite_singles_are_below_infinity(bits: u32)
    ensures
        is_finite(bits) <==> bits as int % 0x8000_0000 < 0x7f80_0000,
{
}

proof fn lemma_all_finite(s: Seq<u32>, from: int)
    requires
        0 <= from,
    ensures
        first_non_finite(s, from) is None <==> forall|i: int|
            from <= i < s.len() ==> is_finite(#[trigger] s[i]),
    decreases s.len() - from,
{
    if from < s.len() && is_finite(s[from]) {
        lemma_all_finite(s, from + 1);
    }
}

/// A merge is accepted exactly when the text has a row for every token, the features have one
/// for every image position, and all values are finite.
pub proof fn law_accepted_merges(
    tokens: Seq<i32>,
    id: i32,
    text: Seq<u32>,
    hidden: usize,
    features: Seq<u32>,
)
    requires
        text.len() <= usize::MAX,
        features.len() <= usize::MAX,
    ensures
        merge_error(tokens, id, text, hidden, features) is None <==> {
            &&& hidden > 0
            &&& text.len() == tokens.len() * hidden
            &&& features.len() == positions_of(tokens, id).len() * hidden
            &&& forall|i: int| 0 <= i < text.len() ==> is_finite(#[trigger] text[i])
            &&& forall|i: int| 0 <= i < features.len() ==> is_finite(#[trigger] features[i])
        },
{
    lemma_all_finite(text, 0);
    lemma_all_finite(features, 0);
    if hidden > 0 {
        let (n, h) = (features.len() as int, hidden as int);
        let rows = positions_of(tokens, id).len() as int;
        vstd::arithmetic::div_mod::lemma_fundamental_div_mod(n, h);
        if n == rows * h {
            vstd::arithmetic::div_mod::lemma_fundamental_div_mod_converse(n, h, rows, 0);
        }
        assert(h * (n / h) == (n / h) * h) by (nonlinear_arith);
    }
}

/// Filling up keeps what is there, and only the filler stands behind it.
pub proof fn law_filling_keeps_what_is_there<T>(s: Seq<T>, n: nat, filler: T)
    requires
        s.len() <= n,
    ensures
        filled_up(s, n, filler).len() == n,
        filled_up(s, n, filler).subrange(0, s.len() as int) == s,
        forall|i: int| s.len() <= i < n ==> #[trigger] filled_up(s, n, filler)[i] == filler,
{
    assert(filled_up(s, n, filler).subrange(0, s.len() as int) =~= s);
}

/// Accepted patches are those of the stated crops, at least one and no more than the tower
/// takes; an accepted grid has as many groups as the pooling, no more than the tower takes.
pub proof fn law_accepted_images_fit_the_tower(
    c: Molmo2VisionConfig,
    input: Molmo2VisionInput<'_>,
)
    ensures
        patches_error(c, input) is None ==> {
            &&& 1 <= input.image_num_crops <= c.static_crops
            &&& input.patches@.len() == input.image_num_crops * c.patches_per_crop * c.patch_dim
            &&& forall|i: int| 0 <= i < input.patches@.len() ==> is_finite(
                #[trigger] input.patches@[i],
            )
        },
        grid_error(c, input) is None ==> {
            &&& forall|i: int| 0 <= i < 4 ==> #[trigger] input.image_grid@[i] >= 0
            &&& input.pooling_shape@[0] == input.image_grid@[0] * input.image_grid@[1]
                + input.image_grid@[2] * input.image_grid@[3]
            &&& input.pooling_shape@[0] <= c.static_pool_groups
            &&& input.pooling_shape@[1] == c.pool_size
        },
{
    lemma_all_finite(input.patches@, 0);
}

/// A word is its four bytes, the first one lowest on a little-endian machine and highest on
/// any other, where reversing the bytes gives the same word.
pub proof fn law_words_are_their_bytes(bytes: Seq<u8>, i: int)
    requires
        0 <= i,
        4 * i + 3 < bytes.len(),
    ensures
        ({
            let word = word_at(bytes, true, i) as int;
            &&& word % 256 == bytes[4 * i]
            &&& (word / 256) % 256 == bytes[4 * i + 1]
            &&& (word / 65536) % 256 == bytes[4 * i + 2]
            &&& word / 16777216 == bytes[4 * i + 3]
        }),
        word_at(bytes, false, i) == word_at(
            seq![bytes[4 * i + 3], bytes[4 * i + 2], bytes[4 * i + 1], bytes[4 * i]],
            true,
            0,
        ),
{
    let (a, b) = (bytes[4 * i] as int, bytes[4 * i + 1] as int);
    let (c, d) = (bytes[4 * i + 2] as int, bytes[4 * i + 3] as int);
    let word = a + 256 * b + 65536 * c + 16777216 * d;
    assert(word_at(bytes, true, i) as int == word);
    assert(word / 256 == b + 256 * c + 65536 * d);
    assert(word / 65536 == c + 256 * d);
}

/// The rows of groups come in the order of the groups, each whole.
pub proof fn law_rows_come_in_order(
    values: Seq<u32>,
    groups: Seq<usize>,
    width: int,
    k: int,
    j: int,
)
    requires
        forall|i: int| 0 <= i < groups.len() ==> (#[trigger] groups[i]) * width + width
            <= values.len(),
        0 <= k < groups.len(),
        0 <= j < width,
    ensures
        rows_of(values, groups, width).len() == groups.len() * width,
        rows_of(values, groups, width)[k * width + j] == values[groups[k] * width + j],
    decreases groups.len(),
{
    let rest = groups.drop_last();
    let n = rest.len() as int;
    let g = groups.last();
    assert(g == groups[n]);
    assert(0 <= g * width) by (nonlinear_arith)
        requires
            0 <= width,
            0 <= g,
    ;
    assert forall|i: int| 0 <= i < rest.len() implies (#[trigger] rest[i]) * width + width
        <= values.len() by {
        assert(rest[i] == groups[i]);
    }
    lemma_rows_len(values, rest, width);
    assert(groups.len() * width == n * width + width) by (nonlinear_arith)
        requires
            groups.len() == n + 1,
    ;
    if k < n {
        law_rows_come_in_order(values, rest, width, k, j);
        assert(k * width + j < n * width) by (nonlinear_arith)
            requires
                k < n,
                0 <= j < width,
        ;
        assert(0 <= k * width) by (nonlinear_arith)
            requires
                0 <= k,
                0 <= width,
        ;
    } else {
        assert(k * width == n * width);
    }
}

proof fn lemma_rows_len(values: Seq<u32>, groups: Seq<usize>, width: int)
    requires
        0 <= width,
        forall|i: int| 0 <= i < groups.len() ==> (#[trigger] groups[i]) * width + width
            <= values.len(),
    ensures
        rows_of(values, groups, width).len() == groups.len() * width,
    decreases groups.len(),
{
    if groups.len() > 0 {
        let rest = groups.drop_last();
        let g = groups.last();
        assert(g == groups[groups.len() - 1]);
        assert forall|i: int| 0 <= i < rest.len() implies (#[trigger] rest[i]) * width + width
            <= values.len() by {
            assert(rest[i] == groups[i]);
        }
        lemma_rows_len(values, rest, width);
        assert(0 <= g * width) by (nonlinear_arith)
            requires
                0 <= width,
                0 <= g,
        ;
        assert(groups.len() * width == rest.len() * width + width) by (nonlinear_arith)
            requires
                groups.len() == rest.len() + 1,
        ;
    } else {
        assert(0 * width == 0) by (nonlinear_arith);
    }
}

/// Every buffer adds its own bytes to those that came back.
pub proof fn law_transfers_add_up(buffers: Seq<Vec<u8>>, buffer: Vec<u8>, n: nat)
    requires
        n <= buffers.len(),
    ensures
        transferred(buffers.push(buffer), n) == transferred(buffers, n),
        transferred(buffers.push(buffer), buffers.len() + 1) == transferred(
            buffers,
            buffers.len(),
        ) + buffer@.len(),
    decreases n,
{
    if n > 0 {
        law_transfers_add_up(buffers, buffer, (n - 1) as nat);
    }
    lemma_transferred_front(buffers, buffer, buffers.len());
}

proof fn lemma_transferred_front(buffers: Seq<Vec<u8>>, buffer: Vec<u8>, n: nat)
    requires
        n <= buffers.len(),
    ensures
        transferred(buffers.push(buffer), n) == transferred(buffers, n),
    decreases n,
{
    if n > 0 {
        lemma_transferred_front(buffers, buffer, (n - 1) as nat);
    }
}

/// A stage of an image is a part of the static one: both have the same dimensions but for the
/// first.
pub open spec fn shortens(s: StageView) -> bool {
    &&& s.static_shape.len() == s.active_shape.len()
    &&& s.static_shape.len() > 0
    &&& forall|k: int| 1 <= k < s.static_shape.len() ==> #[trigger] s.static_shape[k]
        == s.active_shape[k]
}

/// Every stage of a diagnostic run shortens its static shape, the first one shows the patch
/// embedding and the last one the projected rows.
pub proof fn law_stages_shorten_their_shapes(
    c: Molmo2VisionConfig,
    crops: usize,
    groups: usize,
    layers: Seq<usize>,
    i: int,
)
    requires
        0 <= i < stages_of(c, crops, groups, layers).len(),
    ensures
        shortens(stages_of(c, crops, groups, layers)[i]),
        stages_of(c, crops, groups, layers)[0].active_shape == seq![
            crops,
            c.patches_per_crop,
            c.hidden,
        ],
        stages_of(c, crops, groups, layers).last().active_shape == seq![groups, c.text_hidden],
        stages_of(c, crops, groups, layers).last().static_shape == seq![
            c.static_pool_groups,
            c.text_hidden,
        ],
{
}

/// Bytes in hexadecimal read back, two digits for each.
pub proof fn law_bytes_read_back(bytes: Seq<u8>, i: int)
    requires
        0 <= i < bytes.len(),
    ensures
        hex_of(bytes).len() == 2 * bytes.len(),
        hex_value(hex_of(bytes).subrange(2 * i, 2 * i + 2)) == bytes[i],
    decreases bytes.len(),
{
    let rest = bytes.drop_last();
    let last = bytes.last() as nat;
    let all = hex_of(bytes);
    assert(vstd::arithmetic::power::pow(16, 2) == 256) by {
        reveal_with_fuel(vstd::arithmetic::power::pow, 3);
    }
    law_hexadecimal_reads_back(last, 2);
    lemma_hex_len(rest);
    if i < rest.len() {
        law_bytes_read_back(rest, i);
        assert(all.subrange(2 * i, 2 * i + 2) =~= hex_of(rest).subrange(2 * i, 2 * i + 2));
    } else {
        assert(all.subrange(2 * i, 2 * i + 2) =~= hex(last, 2));
    }
}

proof fn lemma_hex_len(bytes: Seq<u8>)
    ensures
        hex_of(bytes).len() == 2 * bytes.len(),
    decreases bytes.len(),
{
    if bytes.len() > 0 {
        lemma_hex_len(bytes.drop_last());
        law_hexadecimal_reads_back(bytes.last() as nat, 2);
    } else {
        reveal_strlit("");
    }
}

/// Lines are parted by one line break each, and none stands at the end.
pub proof fn law_lines_are_parted(lines: Seq<Seq<char>>, line: Seq<char>)
    requires
        lines.len() > 0,
    ensures
        on_lines(lines.push(line), lines.len() + 1) == on_lines(lines, lines.len()) + "\n"@ + line,
        on_lines(seq![line], 1) == line,
{
    lemma_lines_front(lines, line, lines.len());
}

proof fn lemma_lines_front(lines: Seq<Seq<char>>, line: Seq<char>, n: nat)
    requires
        n <= lines.len(),
    ensures
        on_lines(lines.push(line), n) == on_lines(lines, n),
    decreases n,
{
    if n > 1 {
        lemma_lines_front(lines, line, (n - 1) as nat);
    }
}

} // verus!
