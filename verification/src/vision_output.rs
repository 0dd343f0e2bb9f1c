//! The answers of the vision tower: projected rows, and the stages of a diagnostic run.
use vstd::prelude::*;

use crate::config::first_error;
use crate::molmo2::{groups_with};
use crate::molmo2_config::Molmo2VisionConfig;
use crate::runtime::product;
use crate::text::{dec, size_text};
use crate::vision_input::{
    are_counts, finite, finite_error, is_prepared, prepare_vision_input, sizes_fit,
    Molmo2VisionInput, PreparedMolmo2VisionInput,
};

verus! {

pub const MSG_NOT_ALIGNED: &'static str = "Molmo2 IREE output byte count is not f32-aligned";

pub const MSG_TRUNCATED: &'static str = "Molmo2 diagnostic active projection row is truncated";

/// The layer whose producers are captured row by row.
pub const PROBE_LAYER: usize = 18;

/// The patch row that is captured.
pub const PROBE_ROW: usize = 513;

/// Word `i` of a buffer in the machine's byte order.
pub open spec fn word_at(bytes: Seq<u8>, little: bool, i: int) -> u32 {
    let k = 4 * i;
    if little {
        (bytes[k] + 0x100 * bytes[k + 1] + 0x1_0000 * bytes[k + 2] + 0x100_0000 * bytes[k
            + 3]) as u32
    } else {
        (bytes[k + 3] + 0x100 * bytes[k + 2] + 0x1_0000 * bytes[k + 1] + 0x100_0000
            * bytes[k]) as u32
    }
}

/// The words of a buffer.
pub open spec fn words_of(bytes: Seq<u8>, little: bool) -> Seq<u32> {
    Seq::new(bytes.len() / 4, |i: int| word_at(bytes, little, i))
}

/// Complaint about an output buffer.
pub open spec fn output_error(bytes: Seq<u8>, little: bool) -> Option<Seq<char>> {
    if bytes.len() % 4 != 0 {
        Some(MSG_NOT_ALIGNED@)
    } else {
        finite_error("Molmo2 IREE projected output"@, words_of(bytes, little))
    }
}

/// Read an output buffer; `little` is the machine's byte order.
pub fn decode_output(bytes: &[u8], little: bool) -> (r: Result<Vec<u32>, String>)
    ensures
        match r {
            Ok(values) => output_error(bytes@, little) is None && values@ == words_of(
                bytes@,
                little,
            ),
            Err(message) => output_error(bytes@, little) == Some(message@),
        },
{
    if bytes.len() % 4 != 0 {
        return Err(MSG_NOT_ALIGNED.to_owned());
    }
    let n: usize = bytes.len() / 4;
    let mut values: Vec<u32> = Vec::new();
    let mut i: usize = 0;
    while i < n
        invariant
            i <= n,
            n == bytes.len() / 4,
            bytes@.len() % 4 == 0,
            values@.len() == i,
            forall|j: int| 0 <= j < i ==> #[trigger] values@[j] == word_at(bytes@, little, j),
        decreases n - i,
    {
        let k: usize = 4 * i;
        let word: u32 = if little {
            bytes[k] as u32 + 0x100 * bytes[k + 1] as u32 + 0x1_0000 * bytes[k + 2] as u32
                + 0x100_0000 * bytes[k + 3] as u32
        } else {
            bytes[k + 3] as u32 + 0x100 * bytes[k + 2] as u32 + 0x1_0000 * bytes[k + 1] as u32
                + 0x100_0000 * bytes[k] as u32
        };
        values.push(word);
        i += 1;
    }
    assert(values@ =~= words_of(bytes@, little));
    match finite("Molmo2 IREE projected output", values.as_slice()) {
        Ok(_) => Ok(values),
        Err(message) => Err(message),
    }
}

/// The rows of some groups, one behind the other.
pub open spec fn rows_of(values: Seq<u32>, groups: Seq<usize>, width: int) -> Seq<u32>
    decreases groups.len(),
{
    if groups.len() == 0 {
        Seq::empty()
    } else {
        let g = groups.last();
        rows_of(values, groups.drop_last(), width) + values.subrange(
            g * width,
            g * width + width,
        )
    }
}

/// Every group has its row.
pub open spec fn rows_fit(len: nat, groups: Seq<usize>, width: int) -> bool {
    forall|i: int| 0 <= i < groups.len() ==> (#[trigger] groups[i]) * width + width <= len
}

fn collect_rows(values: &Vec<u32>, groups: &Vec<usize>, width: usize) -> (r: Option<Vec<u32>>)
    ensures
        match r {
            Some(rows) => rows_fit(values@.len(), groups@, width as int) && rows@ == rows_of(
                values@,
                groups@,
                width as int,
            ) && rows@.len() == groups@.len() * width,
            None => !rows_fit(values@.len(), groups@, width as int),
        },
{
    let mut rows: Vec<u32> = Vec::new();
    let mut i: usize = 0;
    assert(groups@.subrange(0, 0) =~= Seq::<usize>::empty());
    while i < groups.len()
        invariant
            i <= groups@.len(),
            rows@ == rows_of(values@, groups@.subrange(0, i as int), width as int),
            rows@.len() == i * width,
            forall|j: int|
                0 <= j < i ==> (#[trigger] groups@[j]) * width + width <= values@.len(),
        decreases groups@.len() - i,
    {
        let g: usize = groups[i];
        let start: usize = match g.checked_mul(width) {
            Some(start) => start,
            None => {
                assert(groups@[i as int] * width + width > values.len());
                return None;
            },
        };
        let end: usize = match start.checked_add(width) {
            Some(end) => end,
            None => {
                assert(groups@[i as int] * width + width > values.len());
                return None;
            },
        };
        if end > values.len() {
            assert(groups@[i as int] * width + width > values@.len());
            return None;
        }
        let ghost before = rows@;
        let mut k: usize = start;
        while k < end
            invariant
                start <= k <= end,
                end <= values@.len(),
                rows@ == before + values@.subrange(start as int, k as int),
            decreases end - k,
        {
            rows.push(values[k]);
            k += 1;
            assert(rows@ =~= before + values@.subrange(start as int, k as int));
        }
        proof {
            let next = groups@.subrange(0, i + 1);
            assert(next.drop_last() =~= groups@.subrange(0, i as int));
            assert(next.last() == g);
            assert((i + 1) * width == i * width + width) by (nonlinear_arith);
        }
        i += 1;
    }
    assert(groups@.subrange(0, i as int) =~= groups@);
    Some(rows)
}

proof fn lemma_groups_below(counts: Seq<i32>, wanted: bool)
    requires
        counts.len() <= usize::MAX,
    ensures
        forall|i: int|
            0 <= i < groups_with(counts, wanted).len() ==> (#[trigger] groups_with(
                counts,
                wanted,
            )[i]) < counts.len(),
    decreases counts.len(),
{
    if counts.len() > 0 {
        lemma_groups_below(counts.drop_last(), wanted);
        let rest = groups_with(counts.drop_last(), wanted);
        let all = groups_with(counts, wanted);
        assert forall|i: int| 0 <= i < all.len() implies (#[trigger] all[i]) < counts.len() by {
            if i < rest.len() {
                assert(all[i] == rest[i]);
            }
        }
    }
}

/// Projected features of an image: one row per active pooling group.
#[derive(Debug)]
pub struct Molmo2VisionProjection {
    pub values: Vec<u32>,
    pub shape: [usize; 2],
    pub signed_pooling_indices: Vec<i32>,
    pub valid_pooling_counts: Vec<i32>,
    /// Bytes that went to the module.
    pub upload_bytes: usize,
    /// Bytes that came back.
    pub transfer_bytes: usize,
}

/// The vision tower behind a compiled module.
#[derive(Debug)]
pub struct IreeMolmo2VisionProjector {
    pub config: Molmo2VisionConfig,
    pub fingerprint: u64,
}

/// The output of the tower has rows, and the machine counts the bytes that go in and come
/// back.
pub open spec fn output_fits(c: Molmo2VisionConfig) -> bool {
    &&& sizes_fit(c)
    &&& c.text_hidden > 0
    &&& c.static_pool_groups * c.text_hidden * 4 <= usize::MAX
    &&& (c.static_crops * c.patches_per_crop * c.patch_dim + c.static_pool_groups * c.pool_size)
        * 4 <= usize::MAX
}

/// The module can be run on the prepared form of an image, which is the only run that is
/// asked of it; where it succeeds it answers with one row per static group.
pub open spec fn answers<R: Fn(&PreparedMolmo2VisionInput) -> Result<Vec<u8>, String>>(
    run: R,
    c: Molmo2VisionConfig,
    input: Molmo2VisionInput<'_>,
) -> bool {
    &&& forall|p: &PreparedMolmo2VisionInput|
        is_prepared(c, input, Ok(*p)) ==> #[trigger] call_requires(run, (p,))
    &&& forall|p: &PreparedMolmo2VisionInput, bytes: Vec<u8>|
        call_ensures(run, (p,), Ok(bytes)) ==> bytes@.len() == c.static_pool_groups * c.text_hidden
            * 4
}

/// The bytes of a prepared image: patches and pooling indices of 4 bytes each.
pub open spec fn uploaded(p: PreparedMolmo2VisionInput) -> nat {
    (p.padded_patches@.len() + p.padded_signed_indices@.len()) * 4
}

/// The projection of a prepared image whose output decodes.
pub open spec fn is_projection(
    c: Molmo2VisionConfig,
    p: PreparedMolmo2VisionInput,
    values: Seq<u32>,
    r: Molmo2VisionProjection,
) -> bool {
    &&& r.values@ == rows_of(values, p.active_groups@, c.text_hidden as int)
    &&& r.shape@ == seq![p.active_groups@.len() as usize, c.text_hidden]
    &&& r.signed_pooling_indices@ == p.signed_pooling_indices@
    &&& r.valid_pooling_counts@ == p.valid_pooling_counts@
    &&& r.upload_bytes == uploaded(p)
}

/// The outcome of projecting a prepared image on which the module answered `out`.
pub open spec fn projects_to(
    c: Molmo2VisionConfig,
    p: PreparedMolmo2VisionInput,
    little: bool,
    out: Result<Vec<u8>, String>,
    r: Result<Molmo2VisionProjection, String>,
) -> bool {
    match out {
        Err(message) => r matches Err(shown) && shown@ == message@,
        Ok(bytes) => match output_error(bytes@, little) {
            Some(error) => r matches Err(message) && message@ == error,
            None => r matches Ok(projection) && is_projection(
                c,
                p,
                words_of(bytes@, little),
                projection,
            ) && projection.transfer_bytes == bytes@.len(),
        },
    }
}

/// Turn the module's output into projected rows.
pub fn finish_projection(
    c: &Molmo2VisionConfig,
    p: PreparedMolmo2VisionInput,
    little: bool,
    out: Result<Vec<u8>, String>,
) -> (r: Result<Molmo2VisionProjection, String>)
    requires
        c.text_hidden > 0,
        uploaded(p) <= usize::MAX,
        out matches Ok(bytes) ==> rows_fit(
            (bytes@.len() / 4) as nat,
            p.active_groups@,
            c.text_hidden as int,
        ),
    ensures
        projects_to(*c, p, little, out, r),
{
    let bytes = match out {
        Ok(bytes) => bytes,
        Err(message) => return Err(message),
    };
    let all = match decode_output(bytes.as_slice(), little) {
        Ok(all) => all,
        Err(message) => return Err(message),
    };
    let values = match collect_rows(&all, &p.active_groups, c.text_hidden) {
        Some(values) => values,
        None => return Err(MSG_TRUNCATED.to_owned()),
    };
    let count: usize = p.active_groups.len();
    let shape: [usize; 2] = [count, c.text_hidden];
    assert(shape@ =~= seq![p.active_groups@.len() as usize, c.text_hidden]);
    Ok(
        Molmo2VisionProjection {
            values,
            shape,
            signed_pooling_indices: p.signed_pooling_indices,
            valid_pooling_counts: p.valid_pooling_counts,
            upload_bytes: (p.padded_patches.len() + p.padded_signed_indices.len()) * 4,
            transfer_bytes: bytes.len(),
        },
    )
}

proof fn lemma_row_inside(g: int, groups: int, width: int)
    requires
        0 <= g < groups,
        0 <= width,
    ensures
        g * width + width <= groups * width,
{
    assert(g * width + width <= groups * width) by (nonlinear_arith)
        requires
            0 <= g < groups,
            0 <= width,
    ;
}

impl IreeMolmo2VisionProjector {
    /// The projector of a configuration over a module with that fingerprint.
    pub fn load(config: Molmo2VisionConfig, fingerprint: u64) -> (r: Self)
        ensures
            r.config == config,
            r.fingerprint == fingerprint,
    {
        IreeMolmo2VisionProjector { config, fingerprint }
    }

    pub fn image_patch_id(&self) -> (r: i32)
        ensures
            r == self.config.image_patch_id,
    {
        self.config.image_patch_id
    }

    pub fn text_hidden_size(&self) -> (r: usize)
        ensures
            r == self.config.text_hidden,
    {
        self.config.text_hidden
    }

    pub fn artifact_fingerprint(&self) -> (r: u64)
        ensures
            r == self.fingerprint,
    {
        self.fingerprint
    }

    /// Project an image: an image that does not fit is refused before the module runs.
    pub fn project<R: Fn(&PreparedMolmo2VisionInput) -> Result<Vec<u8>, String>>(
        &self,
        input: &Molmo2VisionInput<'_>,
        little: bool,
        run: &R,
    ) -> (r: Result<Molmo2VisionProjection, String>)
        requires
            output_fits(self.config),
            answers(*run, self.config, *input),
        ensures
            (exists|p: PreparedMolmo2VisionInput, out: Result<Vec<u8>, String>|
                {
                    &&& #[trigger] call_ensures(*run, (&p,), out)
                    &&& is_prepared(self.config, *input, Ok(p))
                    &&& projects_to(self.config, p, little, out, r)
                }) || (r matches Err(message) && is_prepared(self.config, *input, Err(message))),
    {
        let p = match prepare_vision_input(&self.config, input) {
            Ok(p) => p,
            Err(message) => return Err(message),
        };
        let out = run(&p);
        assert(call_ensures(*run, (&p,), out));
        let ghost c = self.config;
        proof {
            if out is Ok {
                let bytes = out->Ok_0;
                let counts = choose|counts: Seq<i32>| #[trigger]
                    are_counts(*input, counts) && p.active_groups@ == groups_with(counts, true);
                lemma_groups_below(counts, true);
                let width = c.text_hidden as int;
                assert(bytes@.len() == c.static_pool_groups * c.text_hidden * 4);
                assert(bytes@.len() / 4 == c.static_pool_groups * width);
                assert forall|i: int| 0 <= i < p.active_groups@.len() implies (
                #[trigger] p.active_groups@[i]) * width + width <= c.static_pool_groups * width by {
                    lemma_row_inside(
                        p.active_groups@[i] as int,
                        c.static_pool_groups as int,
                        width,
                    );
                }
            }
        }
        finish_projection(&self.config, p, little, out)
    }
}

/// The mathematical form of a [`Molmo2DiagnosticStageSpec`].
pub ghost struct StageView {
    pub name: Seq<char>,
    pub static_shape: Seq<usize>,
    pub active_shape: Seq<usize>,
}

/// A stage of a diagnostic run: its name, its static shape and the part that an image
/// fills.
#[derive(Debug)]
pub struct Molmo2DiagnosticStageSpec {
    pub name: String,
    pub static_shape: Vec<usize>,
    pub active_shape: Vec<usize>,
}

impl View for Molmo2DiagnosticStageSpec {
    type V = StageView;

    open spec fn view(&self) -> StageView {
        StageView {
            name: self.name@,
            static_shape: self.static_shape@,
            active_shape: self.active_shape@,
        }
    }
}

/// The views of a list of stages.
pub open spec fn stage_views(v: Seq<Molmo2DiagnosticStageSpec>) -> Seq<StageView> {
    Seq::new(v.len(), |i: int| v[i]@)
}

pub open spec fn stage(
    name: Seq<char>,
    static_shape: Seq<usize>,
    active_shape: Seq<usize>,
) -> StageView {
    StageView { name, static_shape, active_shape }
}

/// Sizes in order.
pub open spec fn in_order(s: Seq<usize>) -> bool {
    forall|i: int, j: int| 0 <= i < j < s.len() ==> s[i] <= s[j]
}

/// The hidden states of an image.
pub open spec fn hidden_stage(c: Molmo2VisionConfig, name: Seq<char>, crops: usize) -> StageView {
    stage(
        name,
        seq![c.static_crops, c.patches_per_crop, c.hidden],
        seq![crops, c.patches_per_crop, c.hidden],
    )
}

/// The stages in front of the selected layers.
pub open spec fn first_stages(c: Molmo2VisionConfig, crops: usize) -> Seq<StageView> {
    seq![
        hidden_stage(c, "vit.patch_embedding"@, crops),
        stage(
            "vit.position_embedding"@,
            seq![c.position_count, c.hidden],
            seq![c.position_count, c.hidden],
        ),
        hidden_stage(c, "vit.positioned_embedding"@, crops),
        hidden_stage(c, "vit.block.0"@, crops),
    ]
}

/// The stages of selected layers.
pub open spec fn selected_stages(c: Molmo2VisionConfig, crops: usize, layers: Seq<usize>) -> Seq<
    StageView,
> {
    Seq::new(
        layers.len(),
        |i: int| hidden_stage(c, "vit.selected."@ + dec(layers[i] as nat), crops),
    )
}

/// A captured row of the probed layer.
pub open spec fn probe_stage(c: Molmo2VisionConfig, part: Seq<char>) -> StageView {
    stage(
        "vit.probe."@ + dec(PROBE_LAYER as nat) + ".row."@ + dec(PROBE_ROW as nat) + "."@ + part,
        seq![1usize, c.hidden],
        seq![1usize, c.hidden],
    )
}

/// The captured rows of the probed layer, where the tower has that layer and that row.
pub open spec fn probe_stages(c: Molmo2VisionConfig) -> Seq<StageView> {
    if c.emitted_layers > PROBE_LAYER && c.static_crops * c.patches_per_crop > PROBE_ROW {
        seq![
            probe_stage(c, "input"@),
            probe_stage(c, "attention_norm"@),
            probe_stage(c, "attention"@),
            probe_stage(c, "post_attention_residual"@),
            probe_stage(c, "ffn_norm"@),
            probe_stage(c, "mlp"@),
            probe_stage(c, "output"@),
        ]
    } else {
        Seq::empty()
    }
}

/// A stage with one row per pooling group.
pub open spec fn group_stage(
    c: Molmo2VisionConfig,
    name: Seq<char>,
    groups: usize,
    width: usize,
) -> StageView {
    stage(name, seq![c.static_pool_groups, width], seq![groups, width])
}

/// The stages behind the tower's layers.
pub open spec fn last_stages(c: Molmo2VisionConfig, crops: usize, groups: usize) -> Seq<StageView> {
    let width = (c.hidden * c.selected_layers@.len()) as usize;
    seq![
        stage(
            "vit.concatenated"@,
            seq![(c.static_crops * c.patches_per_crop) as usize, width],
            seq![(crops * c.patches_per_crop) as usize, width],
        ),
        stage(
            "pool.gathered_masked"@,
            seq![c.static_pool_groups, c.pool_size, width],
            seq![groups, c.pool_size, width],
        ),
        stage("pool.valid_counts"@, seq![c.static_pool_groups], seq![groups]),
        group_stage(c, "pool.query"@, groups, width),
        group_stage(c, "pool.output"@, groups, c.pool_hidden),
        group_stage(c, "projector.w1"@, groups, c.projector_intermediate),
        group_stage(c, "projector.silu"@, groups, c.projector_intermediate),
        group_stage(c, "projector.w3"@, groups, c.projector_intermediate),
        group_stage(c, "projector.product"@, groups, c.projector_intermediate),
        group_stage(c, "projector.output_all"@, groups, c.text_hidden),
    ]
}

/// How many of the layers in order are below the probed one.
pub open spec fn below_probe(layers: Seq<usize>, from: int) -> int
    decreases layers.len() - from,
{
    if from < 0 || from >= layers.len() || layers[from] >= PROBE_LAYER {
        from
    } else {
        below_probe(layers, from + 1)
    }
}

/// All stages of a diagnostic run, given the selected layers in order: the probed rows
/// stand in front of the first selected layer that is not below the probed one.
pub open spec fn stages_of(
    c: Molmo2VisionConfig,
    crops: usize,
    groups: usize,
    layers: Seq<usize>,
) -> Seq<StageView> {
    let split = below_probe(layers, 0);
    first_stages(c, crops) + selected_stages(c, crops, layers.subrange(0, split)) + probe_stages(c)
        + selected_stages(c, crops, layers.subrange(split, layers.len() as int)) + last_stages(
        c,
        crops,
        groups,
    )
}

fn sort_layers(layers: &Vec<usize>) -> (r: Vec<usize>)
    ensures
        in_order(r@),
        r@.to_multiset() == layers@.to_multiset(),
{
    let mut out: Vec<usize> = Vec::new();
    let mut i: usize = 0;
    assert(layers@.subrange(0, 0) =~= Seq::<usize>::empty());
    assert(out@ =~= Seq::<usize>::empty());
    while i < layers.len()
        invariant
            i <= layers@.len(),
            in_order(out@),
            out@.to_multiset() == layers@.subrange(0, i as int).to_multiset(),
        decreases layers@.len() - i,
    {
        let layer: usize = layers[i];
        let ghost before = out@;
        let mut at: usize = out.len();
        while at > 0 && out[at - 1] > layer
            invariant
                at <= out@.len(),
                out@ == before,
                in_order(before),
                forall|k: int| at <= k < before.len() ==> #[trigger] before[k] > layer,
            decreases at,
        {
            at -= 1;
        }
        out.insert(at, layer);
        proof {
            assert(out@ =~= before.insert(at as int, layer));
            assert forall|a: int, b: int| 0 <= a < b < out@.len() implies out@[a] <= out@[b] by {
                let pa = if a < at { a } else { a - 1 };
                let pb = if b < at { b } else { b - 1 };
                if a != at && b != at {
                    assert(out@[a] == before[pa] && out@[b] == before[pb]);
                } else if a == at {
                    assert(out@[b] == before[b - 1]);
                } else {
                    assert(out@[a] == before[a]);
                    if at > 0 {
                        assert(before[a] <= before[at - 1]);
                    }
                }
            }
            lemma_insert_size(before, at as int, layer);
            let prefix = layers@.subrange(0, i as int);
            prefix.to_multiset_ensures();
            assert(layers@.subrange(0, i + 1) =~= prefix.push(layer));
        }
        i += 1;
    }
    assert(layers@.subrange(0, i as int) =~= layers@);
    out
}

proof fn lemma_insert_size(s: Seq<usize>, at: int, x: usize)
    requires
        0 <= at <= s.len(),
    ensures
        s.insert(at, x).to_multiset() == s.to_multiset().insert(x),
{
    let a = s.subrange(0, at);
    let b = s.subrange(at, s.len() as int);
    assert(s =~= a + b);
    assert(s.insert(at, x) =~= a.push(x) + b);
    vstd::seq_lib::lemma_multiset_commutative(a, b);
    vstd::seq_lib::lemma_multiset_commutative(a.push(x), b);
    a.to_multiset_ensures();
    assert(s.insert(at, x).to_multiset() =~= s.to_multiset().insert(x));
}

fn push_stage(
    out: &mut Vec<Molmo2DiagnosticStageSpec>,
    name: String,
    static_shape: &[usize],
    active_shape: &[usize],
)
    ensures
        stage_views(final(out)@) == stage_views(old(out)@).push(
            stage(name@, static_shape@, active_shape@),
        ),
{
    let ghost before = stage_views(out@);
    let ghost expected = stage(name@, static_shape@, active_shape@);
    out.push(
        Molmo2DiagnosticStageSpec {
            name,
            static_shape: vstd::slice::slice_to_vec(static_shape),
            active_shape: vstd::slice::slice_to_vec(active_shape),
        },
    );
    assert(stage_views(out@) =~= before.push(expected));
}

fn push_hidden(
    out: &mut Vec<Molmo2DiagnosticStageSpec>,
    c: &Molmo2VisionConfig,
    name: String,
    crops: usize,
)
    ensures
        stage_views(final(out)@) == stage_views(old(out)@).push(hidden_stage(*c, name@, crops)),
{
    let a: [usize; 3] = [c.static_crops, c.patches_per_crop, c.hidden];
    let b: [usize; 3] = [crops, c.patches_per_crop, c.hidden];
    assert(a@ =~= seq![c.static_crops, c.patches_per_crop, c.hidden]);
    assert(b@ =~= seq![crops, c.patches_per_crop, c.hidden]);
    push_stage(out, name, &a, &b);
}

fn push_layers(
    out: &mut Vec<Molmo2DiagnosticStageSpec>,
    c: &Molmo2VisionConfig,
    layers: &Vec<usize>,
    from: usize,
    to: usize,
    crops: usize,
)
    requires
        from <= to <= layers@.len(),
    ensures
        stage_views(final(out)@) == stage_views(old(out)@) + selected_stages(
            *c,
            crops,
            layers@.subrange(from as int, to as int),
        ),
{
    let ghost before = stage_views(out@);
    let mut i: usize = from;
    assert(before =~= before + selected_stages(
        *c,
        crops,
        layers@.subrange(from as int, from as int),
    ));
    while i < to
        invariant
            from <= i <= to <= layers@.len(),
            stage_views(out@) == before + selected_stages(
                *c,
                crops,
                layers@.subrange(from as int, i as int),
            ),
        decreases to - i,
    {
        let ghost now = stage_views(out@);
        push_hidden(out, c, "vit.selected.".to_owned().concat(&size_text(layers[i])), crops);
        i += 1;
        assert(stage_views(out@) =~= before + selected_stages(
            *c,
            crops,
            layers@.subrange(from as int, i as int),
        ));
    }
}

fn push_probe(out: &mut Vec<Molmo2DiagnosticStageSpec>, c: &Molmo2VisionConfig, part: &str)
    ensures
        stage_views(final(out)@) == stage_views(old(out)@).push(probe_stage(*c, part@)),
{
    let shape: [usize; 2] = [1, c.hidden];
    assert(shape@ =~= seq![1usize, c.hidden]);
    let name = "vit.probe.".to_owned().concat(&size_text(PROBE_LAYER)).concat(".row.").concat(
        &size_text(PROBE_ROW),
    ).concat(".").concat(part);
    push_stage(out, name, &shape, &shape);
}

fn push_group(
    out: &mut Vec<Molmo2DiagnosticStageSpec>,
    c: &Molmo2VisionConfig,
    name: &str,
    groups: usize,
    width: usize,
)
    ensures
        stage_views(final(out)@) == stage_views(old(out)@).push(
            group_stage(*c, name@, groups, width),
        ),
{
    let a: [usize; 2] = [c.static_pool_groups, width];
    let b: [usize; 2] = [groups, width];
    assert(a@ =~= seq![c.static_pool_groups, width]);
    assert(b@ =~= seq![groups, width]);
    push_stage(out, name.to_owned(), &a, &b);
}

fn push_first(out: &mut Vec<Molmo2DiagnosticStageSpec>, c: &Molmo2VisionConfig, crops: usize)
    requires
        old(out)@.len() == 0,
    ensures
        stage_views(final(out)@) == first_stages(*c, crops),
{
    push_hidden(out, c, "vit.patch_embedding".to_owned(), crops);
    let shape: [usize; 2] = [c.position_count, c.hidden];
    assert(shape@ =~= seq![c.position_count, c.hidden]);
    push_stage(out, "vit.position_embedding".to_owned(), &shape, &shape);
    push_hidden(out, c, "vit.positioned_embedding".to_owned(), crops);
    push_hidden(out, c, "vit.block.0".to_owned(), crops);
    assert(stage_views(out@) =~= first_stages(*c, crops));
}

fn push_probes(out: &mut Vec<Molmo2DiagnosticStageSpec>, c: &Molmo2VisionConfig)
    requires
        c.static_crops * c.patches_per_crop <= usize::MAX,
    ensures
        stage_views(final(out)@) == stage_views(old(out)@) + probe_stages(*c),
{
    let ghost before = stage_views(out@);
    if c.emitted_layers > PROBE_LAYER && c.static_crops * c.patches_per_crop > PROBE_ROW {
        push_probe(out, c, "input");
        push_probe(out, c, "attention_norm");
        push_probe(out, c, "attention");
        push_probe(out, c, "post_attention_residual");
        push_probe(out, c, "ffn_norm");
        push_probe(out, c, "mlp");
        push_probe(out, c, "output");
    }
    assert(stage_views(out@) =~= before + probe_stages(*c));
}

fn push_last(
    out: &mut Vec<Molmo2DiagnosticStageSpec>,
    c: &Molmo2VisionConfig,
    crops: usize,
    groups: usize,
)
    requires
        c.width_fits(),
        c.static_crops * c.patches_per_crop <= usize::MAX,
        crops * c.patches_per_crop <= usize::MAX,
    ensures
        stage_views(final(out)@) == stage_views(old(out)@) + last_stages(*c, crops, groups),
{
    let ghost before = stage_views(out@);
    let width: usize = c.selected_width();
    let a: [usize; 2] = [c.static_crops * c.patches_per_crop, width];
    let b: [usize; 2] = [crops * c.patches_per_crop, width];
    assert(a@ =~= seq![(c.static_crops * c.patches_per_crop) as usize, width]);
    assert(b@ =~= seq![(crops * c.patches_per_crop) as usize, width]);
    push_stage(out, "vit.concatenated".to_owned(), &a, &b);
    let a: [usize; 3] = [c.static_pool_groups, c.pool_size, width];
    let b: [usize; 3] = [groups, c.pool_size, width];
    assert(a@ =~= seq![c.static_pool_groups, c.pool_size, width]);
    assert(b@ =~= seq![groups, c.pool_size, width]);
    push_stage(out, "pool.gathered_masked".to_owned(), &a, &b);
    let a: [usize; 1] = [c.static_pool_groups];
    let b: [usize; 1] = [groups];
    assert(a@ =~= seq![c.static_pool_groups]);
    assert(b@ =~= seq![groups]);
    push_stage(out, "pool.valid_counts".to_owned(), &a, &b);
    push_group(out, c, "pool.query", groups, width);
    push_group(out, c, "pool.output", groups, c.pool_hidden);
    push_group(out, c, "projector.w1", groups, c.projector_intermediate);
    push_group(out, c, "projector.silu", groups, c.projector_intermediate);
    push_group(out, c, "projector.w3", groups, c.projector_intermediate);
    push_group(out, c, "projector.product", groups, c.projector_intermediate);
    push_group(out, c, "projector.output_all", groups, c.text_hidden);
    assert(stage_views(out@) =~= before + last_stages(*c, crops, groups));
}

/// The stages of a diagnostic run over an image of so many crops and pooling groups.
pub fn diagnostic_stage_specs(c: &Molmo2VisionConfig, crops: usize, groups: usize) -> (r: Vec<
    Molmo2DiagnosticStageSpec,
>)
    requires
        c.width_fits(),
        c.static_crops * c.patches_per_crop <= usize::MAX,
        crops * c.patches_per_crop <= usize::MAX,
    ensures
        exists|layers: Seq<usize>|
            in_order(layers) && layers.to_multiset() == c.selected_layers@.to_multiset()
                && stage_views(r@) == #[trigger] stages_of(*c, crops, groups, layers),
{
    let layers = sort_layers(&c.selected_layers);
    let mut split: usize = 0;
    while split < layers.len() && layers[split] < PROBE_LAYER
        invariant
            split <= layers@.len(),
            below_probe(layers@, 0) == below_probe(layers@, split as int),
        decreases layers@.len() - split,
    {
        split += 1;
    }
    assert(below_probe(layers@, 0) == split);
    let mut out: Vec<Molmo2DiagnosticStageSpec> = Vec::new();
    push_first(&mut out, c, crops);
    push_layers(&mut out, c, &layers, 0, split, crops);
    push_probes(&mut out, c);
    push_layers(&mut out, c, &layers, split, layers.len(), crops);
    push_last(&mut out, c, crops, groups);
    assert(stage_views(out@) == stages_of(*c, crops, groups, layers@));
    out
}

/// A captured stage.
#[derive(Debug)]
pub struct Molmo2VisionDiagnosticStage {
    pub name: String,
    pub values: Vec<u32>,
    pub shape: Vec<usize>,
}

/// A diagnostic run over an image.
#[derive(Debug)]
pub struct Molmo2VisionDiagnostics {
    pub stages: Vec<Molmo2VisionDiagnosticStage>,
    pub projected_values: Vec<u32>,
    pub projected_shape: [usize; 2],
    pub signed_pooling_indices: Vec<i32>,
    pub valid_pooling_counts: Vec<i32>,
    pub active_groups: Vec<usize>,
    /// Bytes that went to the module.
    pub upload_bytes: usize,
    /// Bytes that came back.
    pub transfer_bytes: usize,
}

/// The bytes of the first `n` buffers.
pub open spec fn transferred(buffers: Seq<Vec<u8>>, n: nat) -> nat
    decreases n,
{
    if n == 0 {
        0
    } else {
        transferred(buffers, (n - 1) as nat) + buffers[n - 1]@.len()
    }
}

proof fn lemma_transferred_grows(buffers: Seq<Vec<u8>>, n: nat, m: nat)
    requires
        n <= m <= buffers.len(),
    ensures
        transferred(buffers, n) <= transferred(buffers, m),
    decreases m,
{
    if n < m {
        lemma_transferred_grows(buffers, n, (m - 1) as nat);
    }
}

fn count_transferred(buffers: &Vec<Vec<u8>>) -> (r: usize)
    requires
        transferred(buffers@, buffers@.len()) <= usize::MAX,
    ensures
        r == transferred(buffers@, buffers@.len()),
{
    let mut total: usize = 0;
    let mut i: usize = 0;
    while i < buffers.len()
        invariant
            i <= buffers@.len(),
            total == transferred(buffers@, i as nat),
            transferred(buffers@, buffers@.len()) <= usize::MAX,
        decreases buffers@.len() - i,
    {
        proof {
            lemma_transferred_grows(buffers@, (i + 1) as nat, buffers@.len());
        }
        total = total + buffers[i].len();
        i += 1;
    }
    total
}

/// The first `n` values, or all where there are fewer.
pub open spec fn cut(values: Seq<u32>, n: nat) -> Seq<u32> {
    if n < values.len() {
        values.subrange(0, n as int)
    } else {
        values
    }
}

/// The first complaint about the buffers from `from` on.
pub open spec fn buffers_error(buffers: Seq<Vec<u8>>, little: bool, from: int) -> Option<Seq<char>>
    decreases buffers.len() - from,
{
    if from < 0 || from >= buffers.len() {
        None
    } else {
        first_error(
            output_error(buffers[from]@, little),
            buffers_error(buffers, little, from + 1),
        )
    }
}

/// A captured stage holds the part of its buffer that the image fills.
pub open spec fn is_stage(
    spec: StageView,
    buffer: Seq<u8>,
    little: bool,
    stage: Molmo2VisionDiagnosticStage,
) -> bool {
    &&& stage.name@ == spec.name
    &&& stage.shape@ == spec.active_shape
    &&& stage.values@ == cut(
        words_of(buffer, little),
        product(spec.active_shape, spec.active_shape.len()),
    )
}

/// The outcome of a diagnostic run whose buffers came back.
pub open spec fn is_diagnosis(
    c: Molmo2VisionConfig,
    p: PreparedMolmo2VisionInput,
    specs: Seq<StageView>,
    buffers: Seq<Vec<u8>>,
    little: bool,
    r: Result<Molmo2VisionDiagnostics, String>,
) -> bool {
    match buffers_error(buffers, little, 0) {
        Some(error) => r matches Err(message) && message@ == error,
        None => if specs.len() == 0 {
            r matches Err(message) && message@ == MSG_NO_STAGES@
        } else {
            let last = specs.last();
            let output = cut(
                words_of(buffers.last()@, little),
                product(last.active_shape, last.active_shape.len()),
            );
            if !rows_fit(output.len(), p.active_groups@, c.text_hidden as int) {
                r matches Err(message) && message@ == MSG_TRUNCATED@
            } else {
                &&& r matches Ok(d)
                &&& d.stages@.len() == specs.len()
                &&& forall|i: int|
                    0 <= i < specs.len() ==> is_stage(
                        specs[i],
                        buffers[i]@,
                        little,
                        #[trigger] d.stages@[i],
                    )
                &&& d.projected_values@ == rows_of(output, p.active_groups@, c.text_hidden as int)
                &&& d.projected_shape@ == seq![p.active_groups@.len() as usize, c.text_hidden]
                &&& d.signed_pooling_indices@ == p.signed_pooling_indices@
                &&& d.valid_pooling_counts@ == p.valid_pooling_counts@
                &&& d.active_groups@ == p.active_groups@
                &&& d.upload_bytes == uploaded(p)
                &&& d.transfer_bytes == transferred(buffers, buffers.len())
            }
        },
    }
}

pub const MSG_NO_STAGES: &'static str = "Molmo2 diagnostic projector output is missing";

proof fn lemma_product_grows(shape: Seq<usize>, n: nat, m: nat)
    requires
        n <= m <= shape.len(),
        forall|i: int| n <= i < m ==> #[trigger] shape[i] > 0,
    ensures
        product(shape, m) >= product(shape, n),
    decreases m - n,
{
    if n < m {
        lemma_product_grows(shape, n, (m - 1) as nat);
        let a = product(shape, (m - 1) as nat);
        let d = shape[m - 1];
        assert(d > 0);
        assert(a * d >= a) by (nonlinear_arith)
            requires
                d >= 1,
                a >= 0,
        ;
    }
}

proof fn lemma_product_zero(shape: Seq<usize>, k: int, m: nat)
    requires
        0 <= k < m <= shape.len(),
        shape[k] == 0,
    ensures
        product(shape, m) == 0,
    decreases m,
{
    if k < m - 1 {
        lemma_product_zero(shape, k, (m - 1) as nat);
        assert(0 * shape[m - 1] == 0) by (nonlinear_arith);
    } else {
        let a = product(shape, (m - 1) as nat);
        assert(a * 0nat == 0) by (nonlinear_arith);
        assert(shape[m - 1] as nat == 0nat);
    }
}

/// The number of values of a shape; nothing when the machine does not count them.
fn count_values(shape: &Vec<usize>) -> (r: Option<usize>)
    ensures
        match r {
            Some(n) => n == product(shape@, shape@.len()),
            None => product(shape@, shape@.len()) > usize::MAX,
        },
{
    let mut i: usize = 0;
    while i < shape.len()
        invariant
            i <= shape@.len(),
            forall|j: int| 0 <= j < i ==> #[trigger] shape@[j] > 0,
        decreases shape@.len() - i,
    {
        if shape[i] == 0 {
            proof {
                lemma_product_zero(shape@, i as int, shape@.len());
            }
            return Some(0);
        }
        i += 1;
    }
    let mut n: usize = 1;
    let mut k: usize = 0;
    while k < shape.len()
        invariant
            k <= shape@.len(),
            n == product(shape@, k as nat),
            forall|j: int| 0 <= j < shape@.len() ==> #[trigger] shape@[j] > 0,
        decreases shape@.len() - k,
    {
        n = match n.checked_mul(shape[k]) {
            Some(next) => next,
            None => {
                proof {
                    assert(product(shape@, (k + 1) as nat) > usize::MAX);
                    lemma_product_grows(shape@, (k + 1) as nat, shape@.len());
                }
                return None;
            },
        };
        k += 1;
    }
    Some(n)
}

fn cut_values(values: Vec<u32>, shape: &Vec<usize>) -> (r: Vec<u32>)
    ensures
        r@ == cut(values@, product(shape@, shape@.len())),
{
    let n: usize = match count_values(shape) {
        Some(n) => n,
        None => {
            assert(values.len() <= usize::MAX);
            return values;
        },
    };
    if n >= values.len() {
        return values;
    }
    let mut out: Vec<u32> = Vec::new();
    let mut i: usize = 0;
    while i < n
        invariant
            i <= n <= values@.len(),
            out@ == values@.subrange(0, i as int),
        decreases n - i,
    {
        out.push(values[i]);
        i += 1;
        assert(out@ =~= values@.subrange(0, i as int));
    }
    out
}

/// Read the buffers of a diagnostic run: every stage, and the rows of the active groups
/// of the last one.
pub fn finish_diagnostics(
    c: &Molmo2VisionConfig,
    p: PreparedMolmo2VisionInput,
    specs: Vec<Molmo2DiagnosticStageSpec>,
    buffers: &Vec<Vec<u8>>,
    little: bool,
) -> (r: Result<Molmo2VisionDiagnostics, String>)
    requires
        specs@.len() == buffers@.len(),
        uploaded(p) <= usize::MAX,
        transferred(buffers@, buffers@.len()) <= usize::MAX,
    ensures
        is_diagnosis(*c, p, stage_views(specs@), buffers@, little, r),
{
    let ghost views = stage_views(specs@);
    let mut stages: Vec<Molmo2VisionDiagnosticStage> = Vec::new();
    let n: usize = buffers.len();
    for spec in it: specs
        invariant
            views == stage_views(it.seq()),
            it.seq().len() == n,
            n == buffers@.len(),
            stages@.len() == it.index(),
            buffers_error(buffers@, little, 0) == buffers_error(
                buffers@,
                little,
                it.index() as int,
            ),
            forall|i: int|
                0 <= i < it.index() ==> is_stage(
                    views[i],
                    buffers@[i]@,
                    little,
                    #[trigger] stages@[i],
                ),
    {
        let i: usize = stages.len();
        assert(views[i as int] == spec@);
        let values = match decode_output(buffers[i].as_slice(), little) {
            Ok(values) => values,
            Err(message) => return Err(message),
        };
        let values = cut_values(values, &spec.active_shape);
        stages.push(
            Molmo2VisionDiagnosticStage { name: spec.name, values, shape: spec.active_shape },
        );
    }
    if stages.len() == 0 {
        return Err(MSG_NO_STAGES.to_owned());
    }
    let last: usize = stages.len() - 1;
    assert(is_stage(views[last as int], buffers@[last as int]@, little, stages@[last as int]));
    let projected_values = match collect_rows(
        &stages[last].values,
        &p.active_groups,
        c.text_hidden,
    ) {
        Some(values) => values,
        None => return Err(MSG_TRUNCATED.to_owned()),
    };
    let count: usize = p.active_groups.len();
    let projected_shape: [usize; 2] = [count, c.text_hidden];
    assert(projected_shape@ =~= seq![p.active_groups@.len() as usize, c.text_hidden]);
    Ok(
        Molmo2VisionDiagnostics {
            stages,
            projected_values,
            projected_shape,
            signed_pooling_indices: p.signed_pooling_indices,
            valid_pooling_counts: p.valid_pooling_counts,
            active_groups: p.active_groups,
            upload_bytes: (p.padded_patches.len() + p.padded_signed_indices.len()) * 4,
            transfer_bytes: count_transferred(buffers),
        },
    )
}

/// The stages of a run over a prepared image.
pub open spec fn are_stages_for(
    c: Molmo2VisionConfig,
    p: PreparedMolmo2VisionInput,
    specs: Seq<StageView>,
) -> bool {
    exists|layers: Seq<usize>|
        {
            &&& in_order(layers) && layers.to_multiset() == c.selected_layers@.to_multiset()
            &&& specs == #[trigger] stages_of(c, p.crops, p.groups, layers)
        }
}

/// The module can be run on the prepared form of an image with the stages of that image,
/// which is the only run that is asked of it; where it succeeds it answers with one buffer
/// per stage.
pub open spec fn captures<
    R: Fn(&PreparedMolmo2VisionInput, &Vec<Molmo2DiagnosticStageSpec>) -> Result<
        Vec<Vec<u8>>,
        String,
    >,
>(run: R, c: Molmo2VisionConfig, input: Molmo2VisionInput<'_>) -> bool {
    &&& forall|p: &PreparedMolmo2VisionInput, s: &Vec<Molmo2DiagnosticStageSpec>|
        is_prepared(c, input, Ok(*p)) && are_stages_for(c, *p, stage_views(s@)) ==> #[trigger]
        call_requires(run, (p, s))
    &&& forall|
        p: &PreparedMolmo2VisionInput,
        s: &Vec<Molmo2DiagnosticStageSpec>,
        out: Vec<Vec<u8>>,
    |
        call_ensures(run, (p, s), Ok(out)) ==> out@.len() == s@.len() && transferred(
            out@,
            out@.len(),
        ) <= usize::MAX
}

/// The vision tower behind a module that captures its stages.
#[derive(Debug)]
pub struct IreeMolmo2VisionDiagnosticProjector {
    pub config: Molmo2VisionConfig,
}

impl IreeMolmo2VisionDiagnosticProjector {
    pub fn load(config: Molmo2VisionConfig) -> (r: Self)
        ensures
            r.config == config,
    {
        IreeMolmo2VisionDiagnosticProjector { config }
    }

    pub fn image_patch_id(&self) -> (r: i32)
        ensures
            r == self.config.image_patch_id,
    {
        self.config.image_patch_id
    }

    pub fn text_hidden_size(&self) -> (r: usize)
        ensures
            r == self.config.text_hidden,
    {
        self.config.text_hidden
    }

    /// Run an image through the module and read every stage. `run` takes the prepared
    /// image and the stages and returns one buffer per stage.
    pub fn project<
        R: Fn(&PreparedMolmo2VisionInput, &Vec<Molmo2DiagnosticStageSpec>) -> Result<
            Vec<Vec<u8>>,
            String,
        >,
    >(&self, input: &Molmo2VisionInput<'_>, little: bool, run: &R) -> (r: Result<
        Molmo2VisionDiagnostics,
        String,
    >)
        requires
            output_fits(self.config),
            self.config.width_fits(),
            captures(*run, self.config, *input),
        ensures
            (exists|
                p: PreparedMolmo2VisionInput,
                s: Vec<Molmo2DiagnosticStageSpec>,
                out: Result<Vec<Vec<u8>>, String>,
            |
                {
                    &&& #[trigger] call_ensures(*run, (&p, &s), out)
                    &&& is_prepared(self.config, *input, Ok(p))
                    &&& are_stages_for(self.config, p, stage_views(s@))
                    &&& match out {
                        Err(message) => r matches Err(shown) && shown@ == message@,
                        Ok(buffers) => is_diagnosis(
                            self.config,
                            p,
                            stage_views(s@),
                            buffers@,
                            little,
                            r,
                        ),
                    }
                }) || (r matches Err(message) && is_prepared(self.config, *input, Err(message))),
    {
        let p = match prepare_vision_input(&self.config, input) {
            Ok(p) => p,
            Err(message) => return Err(message),
        };
        let ghost c = self.config;
        proof {
            assert(p.crops <= c.static_crops);
            assert(p.crops * c.patches_per_crop <= c.static_crops * c.patches_per_crop)
                by (nonlinear_arith)
                requires
                    p.crops <= c.static_crops,
                    c.patches_per_crop >= 0,
            ;
        }
        let specs = diagnostic_stage_specs(&self.config, p.crops, p.groups);
        assert(are_stages_for(c, p, stage_views(specs@)));
        let out = run(&p, &specs);
        assert(call_ensures(*run, (&p, &specs), out));
        match out {
            Err(message) => Err(message),
            Ok(buffers) => finish_diagnostics(&self.config, p, specs, &buffers, little),
        }
    }
}

} // verus!
