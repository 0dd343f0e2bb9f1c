//! Loading the weights of a graph: file by file, each weight put back in its place.
use vstd::prelude::*;

use crate::affine::is_total;
use crate::checkpoint::{
    are_found, checkpoint_tensor_name, holds, language_model_tensor_name,
    law_resolved_weights_are_there, search, spelled, wrapped_name, DenseCheckpointNames,
    Gemma3nCheckpointNames, SearchKind, ShardFile,
};
use crate::config::WeightScheme;
use crate::loader::{
    is_loaded, load_problem, load_weight, widened_len, LoadContext, LoadedWeight,
};
use crate::paths::{
    first_alike, group_paths, grouped, is_head, lemma_grouped, lemma_path_lt_alike,
    lemma_path_lt_total, lemma_path_lt_trans, path_less, path_lt, same_path,
};
use crate::problem::{refused, Problem, ProblemView};
use crate::runtime::RuntimeConfig;
use crate::tensors::{
    file_tensors, find_tensor, not_found, not_found_text, read_tensors, tensors_in, TensorView,
};
use crate::text::{has_prefix, text_eq, texts};
use crate::weight_specs::{spec_views, WeightSpec, WeightSpecView};

verus! {

/// How a checkpoint names its weights. A dense checkpoint of one file shows its namespace
/// with the first weight that is read.
#[derive(Debug, Clone, Copy, PartialEq, Eq, Structural)]
pub enum NameScheme {
    Dense(Option<DenseCheckpointNames>),
    Gemma3n(Gemma3nCheckpointNames),
}

/// Where the weights of a model are searched for.
#[derive(Debug, Clone, Copy, PartialEq, Eq, Structural)]
pub enum WeightSearch {
    /// In the only file, or in the files that the index names.
    Dense,
    /// In every file of the directory, under wrapped names.
    Molmo2,
    /// In the files that the index names or in every file of the directory, under either
    /// spelling.
    Gemma3n,
}

/// Where the weights of a model are searched for.
pub open spec fn search_of(cfg: RuntimeConfig) -> WeightSearch {
    match cfg {
        RuntimeConfig::Gemma3n(_) => WeightSearch::Gemma3n,
        RuntimeConfig::Dense(config) => if config.weight_scheme == WeightScheme::Molmo2 {
            WeightSearch::Molmo2
        } else {
            WeightSearch::Dense
        },
    }
}

/// Where the weights of a model are searched for.
pub fn weight_search(cfg: &RuntimeConfig) -> (r: WeightSearch)
    ensures
        r == search_of(*cfg),
{
    match cfg {
        RuntimeConfig::Gemma3n(_) => WeightSearch::Gemma3n,
        RuntimeConfig::Dense(config) => if config.weight_scheme == WeightScheme::Molmo2 {
            WeightSearch::Molmo2
        } else {
            WeightSearch::Dense
        },
    }
}

/// How the checkpoint of a model names its weights: the names of a Molmo2 checkpoint are
/// always wrapped, any other shows what its search found.
pub open spec fn scheme_of(
    cfg: RuntimeConfig,
    dense: Option<DenseCheckpointNames>,
    gemma3n: Option<Gemma3nCheckpointNames>,
) -> NameScheme {
    match search_of(cfg) {
        WeightSearch::Dense => NameScheme::Dense(dense),
        WeightSearch::Molmo2 => NameScheme::Dense(
            Some(DenseCheckpointNames::LanguageModelPrefixed),
        ),
        WeightSearch::Gemma3n => NameScheme::Gemma3n(
            match gemma3n {
                Some(spelling) => spelling,
                None => Gemma3nCheckpointNames::Canonical,
            },
        ),
    }
}

/// How the checkpoint of a model names its weights. `dense` is the namespace that a dense
/// search found, `gemma3n` the spelling that a Gemma3n search found.
pub fn name_scheme(
    cfg: &RuntimeConfig,
    dense: Option<DenseCheckpointNames>,
    gemma3n: Option<Gemma3nCheckpointNames>,
) -> (r: NameScheme)
    ensures
        r == scheme_of(*cfg, dense, gemma3n),
{
    match weight_search(cfg) {
        WeightSearch::Dense => NameScheme::Dense(dense),
        WeightSearch::Molmo2 => NameScheme::Dense(
            Some(DenseCheckpointNames::LanguageModelPrefixed),
        ),
        WeightSearch::Gemma3n => NameScheme::Gemma3n(
            match gemma3n {
                Some(spelling) => spelling,
                None => Gemma3nCheckpointNames::Canonical,
            },
        ),
    }
}

/// What the conversion of a model's tensors depends on.
pub fn load_context(cfg: &RuntimeConfig, resident_f16: bool) -> (r: LoadContext)
    ensures
        r.gemma3n == (search_of(*cfg) == WeightSearch::Gemma3n),
        r.molmo2 == (search_of(*cfg) == WeightSearch::Molmo2),
        r.quantization == match *cfg {
            RuntimeConfig::Dense(config) => config.quantization,
            RuntimeConfig::Gemma3n(config) => config.quantization,
        },
        r.resident_f16 == resident_f16,
{
    let search = weight_search(cfg);
    LoadContext {
        gemma3n: search == WeightSearch::Gemma3n,
        molmo2: search == WeightSearch::Molmo2,
        quantization: cfg.quantization(),
        resident_f16,
    }
}

/// The namespace that a file shows with a weight.
pub open spec fn shown(
    scheme: NameScheme,
    tensors: Map<Seq<char>, TensorView>,
    name: Seq<char>,
) -> NameScheme {
    match scheme {
        NameScheme::Dense(None) => if tensors.contains_key(name) {
            NameScheme::Dense(Some(DenseCheckpointNames::Canonical))
        } else {
            NameScheme::Dense(Some(DenseCheckpointNames::LanguageModelPrefixed))
        },
        _ => scheme,
    }
}

/// The name of a weight in its file; none when the spelling has no name for it.
pub open spec fn name_in_file(
    scheme: NameScheme,
    tensors: Map<Seq<char>, TensorView>,
    name: Seq<char>,
) -> Option<Seq<char>> {
    match shown(scheme, tensors, name) {
        NameScheme::Dense(Some(DenseCheckpointNames::Canonical)) => Some(name),
        NameScheme::Dense(_) => Some(wrapped_name(name)),
        NameScheme::Gemma3n(spelling) => spelled(Some(spelling), name),
    }
}

/// Complaint about the name of a weight in its file.
pub open spec fn name_error(
    scheme: NameScheme,
    tensors: Map<Seq<char>, TensorView>,
    path: Seq<char>,
    name: Seq<char>,
) -> Option<Seq<char>> {
    match name_in_file(scheme, tensors, name) {
        None => Some("unsupported Gemma3n tensor name: "@ + name),
        Some(stored) => if tensors.contains_key(stored) {
            None
        } else if scheme == NameScheme::Dense(None) {
            Some(
                "resolved neither canonical weight "@ + name + " nor wrapped weight "@ + stored
                    + " in "@ + path + ": "@ + not_found(stored),
            )
        } else {
            Some(
                "resolved weight "@ + stored + " (canonical "@ + name + ") in "@ + path + ": "@
                    + not_found(stored),
            )
        },
    }
}

/// The name of a weight in its file, and the scheme that holds from there on.
fn resolve_name(
    file: &safetensors::SafeTensors<'_>,
    path: &str,
    name: &str,
    scheme: NameScheme,
) -> (r: Result<(String, NameScheme), String>)
    ensures
        match r {
            Ok(found) => {
                &&& name_error(scheme, tensors_in(*file), path@, name@) is None
                &&& name_in_file(scheme, tensors_in(*file), name@) == Some(found.0@)
                &&& found.1 == shown(scheme, tensors_in(*file), name@)
                &&& tensors_in(*file).contains_key(found.0@)
            },
            Err(message) => name_error(scheme, tensors_in(*file), path@, name@) == Some(message@),
        },
{
    let (stored, after) = match scheme {
        NameScheme::Dense(None) => {
            if find_tensor(file, name).is_some() {
                (name.to_owned(), NameScheme::Dense(Some(DenseCheckpointNames::Canonical)))
            } else {
                let wrapped = language_model_tensor_name(name);
                if find_tensor(file, wrapped.as_str()).is_none() {
                    return Err(
                        "resolved neither canonical weight ".to_owned().concat(name).concat(
                            " nor wrapped weight ",
                        ).concat(wrapped.as_str()).concat(" in ").concat(path).concat(": ").concat(
                            &not_found_text(wrapped.as_str()),
                        ),
                    );
                }
                (wrapped, NameScheme::Dense(Some(DenseCheckpointNames::LanguageModelPrefixed)))
            }
        },
        NameScheme::Dense(Some(DenseCheckpointNames::Canonical)) => (name.to_owned(), scheme),
        NameScheme::Dense(Some(DenseCheckpointNames::LanguageModelPrefixed)) => (
            language_model_tensor_name(name),
            scheme,
        ),
        NameScheme::Gemma3n(spelling) => match checkpoint_tensor_name(Some(spelling), name) {
            Ok(stored) => (stored, scheme),
            Err(message) => return Err(message),
        },
    };
    if find_tensor(file, stored.as_str()).is_none() {
        return Err(
            "resolved weight ".to_owned().concat(stored.as_str()).concat(" (canonical ").concat(
                name,
            ).concat(") in ").concat(path).concat(": ").concat(&not_found_text(stored.as_str())),
        );
    }
    Ok((stored, after))
}

/// Why a weight does not load.
pub ghost enum LoadFailure {
    Known(ProblemView),
    /// Its file is no safetensors file; the rest of the message is not stated.
    Unparsed(Seq<char>),
}

/// The file of a path.
pub open spec fn file_at(files: Seq<ShardFile<'_>>, path: Seq<char>, from: int) -> int
    decreases files.len() - from,
{
    if from < 0 || from >= files.len() || files[from].path@ == path {
        from
    } else {
        file_at(files, path, from + 1)
    }
}

/// The tensors of the file at a path.
pub open spec fn tensors_at(files: Seq<ShardFile<'_>>, path: Seq<char>) -> Map<
    Seq<char>,
    TensorView,
> {
    file_tensors(files[file_at(files, path, 0)].bytes->Ok_0@).unwrap()
}

/// Why a weight does not load from the file at `path`.
pub open spec fn weight_failure(
    files: Seq<ShardFile<'_>>,
    path: Seq<char>,
    spec: WeightSpecView,
    scheme: NameScheme,
    ctx: LoadContext,
) -> Option<LoadFailure> {
    match files[file_at(files, path, 0)].bytes {
        Err(message) => Some(LoadFailure::Known(ProblemView::Refused(message@))),
        Ok(bytes) => match file_tensors(bytes@) {
            None => Some(LoadFailure::Unparsed("parse "@ + path + ": "@)),
            Some(tensors) => match name_error(scheme, tensors, path, spec.tensor()) {
                Some(message) => Some(LoadFailure::Known(ProblemView::Refused(message))),
                None => {
                    let stored = name_in_file(scheme, tensors, spec.tensor()).unwrap();
                    match load_problem(
                        tensors,
                        path,
                        spec,
                        stored,
                        ctx,
                        widened_len(tensors, stored, ctx),
                    ) {
                        Some(problem) => Some(LoadFailure::Known(problem)),
                        None => None,
                    }
                },
            },
        },
    }
}

/// The first failure when weights are read in `order` from position `from` on.
pub open spec fn first_failure(
    files: Seq<ShardFile<'_>>,
    paths: Seq<Seq<char>>,
    specs: Seq<WeightSpecView>,
    ctx: LoadContext,
    order: Seq<int>,
    from: int,
    scheme: NameScheme,
) -> Option<LoadFailure>
    decreases order.len() - from,
{
    if from < 0 || from >= order.len() {
        None
    } else {
        let i = order[from];
        match weight_failure(files, paths[i], specs[i], scheme, ctx) {
            Some(failure) => Some(failure),
            None => first_failure(
                files,
                paths,
                specs,
                ctx,
                order,
                from + 1,
                shown(scheme, tensors_at(files, paths[i]), specs[i].tensor()),
            ),
        }
    }
}

/// The scheme that holds when position `from` of the order is reached.
pub open spec fn scheme_at(
    files: Seq<ShardFile<'_>>,
    paths: Seq<Seq<char>>,
    specs: Seq<WeightSpecView>,
    order: Seq<int>,
    from: nat,
    scheme: NameScheme,
) -> NameScheme
    decreases from,
{
    if from == 0 {
        scheme
    } else {
        let i = order[from - 1];
        shown(
            scheme_at(files, paths, specs, order, (from - 1) as nat, scheme),
            tensors_at(files, paths[i]),
            specs[i].tensor(),
        )
    }
}

/// Weight `a` is read before weight `b`: the path of its file comes first, component by
/// component, or it has a lower place among the weights of that file.
#[verifier::opaque]
pub open spec fn reads_before(paths: Seq<Seq<char>>, a: int, b: int) -> bool {
    path_lt(paths[a], paths[b]) || (same_path(paths[a], paths[b]) && a < b)
}

/// The order in which the first `n` weights are read.
pub open spec fn is_load_order(paths: Seq<Seq<char>>, n: int, order: Seq<int>) -> bool {
    &&& order.len() == n
    &&& forall|k: int| 0 <= k < n ==> 0 <= #[trigger] order[k] < n
    &&& forall|i: int| 0 <= i < n ==> #[trigger] order.contains(i)
    &&& forall|j: int, k: int|
        0 <= j < k < n ==> reads_before(paths, #[trigger] order[j], #[trigger] order[k])
}

/// An order as numbers.
pub open spec fn indices(order: Seq<usize>) -> Seq<int> {
    Seq::new(order.len(), |k: int| order[k] as int)
}

proof fn lemma_reads_before_trans(paths: Seq<Seq<char>>, a: int, b: int, c: int)
    requires
        reads_before(paths, a, b),
        reads_before(paths, b, c),
    ensures
        reads_before(paths, a, c),
{
    reveal(reads_before);
    lemma_path_lt_total(paths[a], paths[b]);
    lemma_path_lt_total(paths[b], paths[c]);
    if same_path(paths[a], paths[b]) {
        lemma_path_lt_alike(paths[a], paths[b], paths[c]);
    } else if same_path(paths[b], paths[c]) {
        lemma_path_lt_alike(paths[b], paths[c], paths[a]);
    } else {
        lemma_path_lt_trans(paths[a], paths[b], paths[c]);
    }
}

/// Group the weights by file, files in ascending order, so that each file is opened once.
pub(crate) fn load_order(paths: &Vec<String>) -> (r: Vec<usize>)
    ensures
        is_load_order(texts(paths@), paths@.len() as int, indices(r@)),
{
    let ghost all = texts(paths@);
    let mut order: Vec<usize> = Vec::new();
    let mut n: usize = 0;
    while n < paths.len()
        invariant
            n <= paths.len(),
            all == texts(paths@),
            is_load_order(all, n as int, indices(order@)),
        decreases paths.len() - n,
    {
        let ghost before = indices(order@);
        assert forall|k: int| 0 <= k < order@.len() implies #[trigger] order@[k] < n by {
            assert(before[k] == order@[k]);
        }
        let mut at: usize = order.len();
        while at > 0 && path_less(paths[n].as_str(), paths[order[at - 1]].as_str())
            invariant
                at <= order.len(),
                n < paths.len(),
                all == texts(paths@),
                before == indices(order@),
                is_load_order(all, n as int, before),
                forall|k: int| 0 <= k < order@.len() ==> #[trigger] order@[k] < n,
                forall|k: int| at <= k < before.len() ==> path_lt(all[n as int], all[#[trigger] before[k]]),
            decreases at,
        {
            assert(before[at - 1] == order@[at - 1]);
            at -= 1;
        }
        proof {
            if at > 0 {
                assert(before[at - 1] == order@[at - 1]);
                reveal(reads_before);
                lemma_path_lt_total(all[n as int], all[before[at - 1]]);
                assert(reads_before(all, before[at - 1], n as int));
                assert forall|k: int| 0 <= k < at implies reads_before(
                    all,
                    #[trigger] before[k],
                    n as int,
                ) by {
                    if k < at - 1 {
                        lemma_reads_before_trans(all, before[k], before[at - 1], n as int);
                    }
                }
            }
        }
        order.insert(at, n);
        proof {
            let after = indices(order@);
            assert(after =~= before.insert(at as int, n as int));
            assert forall|i: int| 0 <= i < n + 1 implies #[trigger] after.contains(i) by {
                if i == n {
                    assert(after[at as int] == i);
                } else {
                    assert(before.contains(i));
                    let k = choose|k: int| 0 <= k < before.len() && before[k] == i;
                    if k < at {
                        assert(after[k] == i);
                    } else {
                        assert(after[k + 1] == i);
                    }
                }
            }
            assert forall|j: int, k: int| 0 <= j < k < n + 1 implies reads_before(
                all,
                #[trigger] after[j],
                #[trigger] after[k],
            ) by {
                reveal(reads_before);
                let pj = if j < at { j } else { j - 1 };
                let pk = if k < at { k } else { k - 1 };
                if j == at {
                    assert(after[k] == before[k - 1]);
                } else if k == at {
                    assert(after[j] == before[j]);
                } else {
                    assert(after[j] == before[pj] && after[k] == before[pk]);
                }
            }
            assert forall|k: int| 0 <= k < n + 1 implies 0 <= #[trigger] after[k] < n + 1 by {
                if k < at {
                    assert(after[k] == before[k]);
                } else if k > at {
                    assert(after[k] == before[k - 1]);
                }
            }
        }
        n += 1;
    }
    order
}

/// The position of the file at a path.
pub(crate) fn find_file(files: &Vec<ShardFile<'_>>, path: &str) -> (r: usize)
    requires
        file_at(files@, path@, 0) < files@.len(),
    ensures
        r == file_at(files@, path@, 0),
        r < files@.len(),
        files@[r as int].path@ == path@,
{
    let mut k: usize = 0;
    while !text_eq(files[k].path.as_str(), path)
        invariant
            k < files.len(),
            file_at(files@, path@, 0) == file_at(files@, path@, k as int),
            file_at(files@, path@, 0) < files@.len(),
        decreases files@.len() - k,
    {
        assert(k + 1 < files@.len()) by {
            reveal_with_fuel(file_at, 2);
        }
        k += 1;
    }
    k
}

/// Weight `order[k]` is loaded from its file under the scheme that holds there.
pub open spec fn loaded_in_turn<F: Fn(u32, u32, u32) -> u32>(
    mul_add: F,
    files: Seq<ShardFile<'_>>,
    paths: Seq<Seq<char>>,
    specs: Seq<WeightSpecView>,
    ctx: LoadContext,
    scheme: NameScheme,
    order: Seq<int>,
    k: int,
    w: LoadedWeight,
) -> bool {
    let i = order[k];
    let tensors = tensors_at(files, paths[i]);
    let here = scheme_at(files, paths, specs, order, k as nat, scheme);
    is_loaded(
        mul_add,
        tensors,
        specs[i],
        name_in_file(here, tensors, specs[i].tensor()).unwrap(),
        ctx,
        w,
    )
}

/// The outcome of loading all weights in `order`.
pub open spec fn load_outcome<F: Fn(u32, u32, u32) -> u32>(
    mul_add: F,
    files: Seq<ShardFile<'_>>,
    paths: Seq<Seq<char>>,
    specs: Seq<WeightSpecView>,
    ctx: LoadContext,
    scheme: NameScheme,
    order: Seq<int>,
    r: Result<Vec<LoadedWeight>, Problem>,
) -> bool {
    let failure = first_failure(files, paths, specs, ctx, order, 0, scheme);
    match r {
        Ok(weights) => {
            &&& failure is None
            &&& weights@.len() == specs.len()
            &&& forall|k: int|
                0 <= k < order.len() ==> loaded_in_turn(
                    mul_add,
                    files,
                    paths,
                    specs,
                    ctx,
                    scheme,
                    order,
                    k,
                    weights@[#[trigger] order[k]],
                )
        },
        Err(problem) => match failure {
            None => false,
            Some(LoadFailure::Known(expected)) => problem@ == expected,
            Some(LoadFailure::Unparsed(prefix)) => problem@ matches ProblemView::Refused(message)
                && has_prefix(message, prefix),
        },
    }
}

pub proof fn lemma_order_is_injective(paths: Seq<Seq<char>>, n: int, order: Seq<int>, j: int, k: int)
    requires
        is_load_order(paths, n, order),
        0 <= j < k < n,
    ensures
        order[j] != order[k],
{
    reveal(reads_before);
    assert(reads_before(paths, order[j], order[k]));
    lemma_path_lt_total(paths[order[j]], paths[order[k]]);
}

/// Load the weights of a graph, files in the order of their paths.
#[verifier::rlimit(40)]
fn load_in_order<F: Fn(u32, u32, u32) -> u32>(
    files: &Vec<ShardFile<'_>>,
    paths: &Vec<String>,
    specs: &Vec<WeightSpec>,
    scheme: NameScheme,
    ctx: &LoadContext,
    mul_add: &F,
) -> (r: Result<Vec<LoadedWeight>, Problem>)
    requires
        paths@.len() == specs@.len(),
        forall|i: int|
            0 <= i < paths@.len() ==> file_at(files@, #[trigger] texts(paths@)[i], 0)
                < files@.len(),
        is_total(*mul_add),
    ensures
        exists|order: Seq<int>|
            is_load_order(texts(paths@), paths@.len() as int, order) && #[trigger] load_outcome(
                *mul_add,
                files@,
                texts(paths@),
                spec_views(specs@),
                *ctx,
                scheme,
                order,
                r,
            ),
{
    let ghost all = texts(paths@);
    let ghost views = spec_views(specs@);
    let read_order = load_order(paths);
    let ghost order = indices(read_order@);
    let n: usize = specs.len();
    assert forall|j: int| 0 <= j < n implies #[trigger] read_order@[j] < n by {
        assert(order[j] == read_order@[j]);
    }
    let mut slots: Vec<Option<LoadedWeight>> = Vec::new();
    let mut i: usize = 0;
    while i < n
        invariant
            i <= n,
            slots@.len() == i,
        decreases n - i,
    {
        slots.push(None);
        i += 1;
    }
    let mut here = scheme;
    let mut k: usize = 0;
    while k < n
        invariant
            k <= n,
            read_order@.len() == n,
            forall|j: int| 0 <= j < n ==> #[trigger] read_order@[j] < n,
            n == specs@.len(),
            n == paths@.len(),
            slots@.len() == n,
            all == texts(paths@),
            views == spec_views(specs@),
            order == indices(read_order@),
            is_load_order(all, n as int, order),
            is_total(*mul_add),
            forall|j: int|
                0 <= j < n ==> file_at(files@, #[trigger] all[j], 0) < files@.len(),
            here == scheme_at(files@, all, views, order, k as nat, scheme),
            first_failure(files@, all, views, *ctx, order, 0, scheme) == first_failure(
                files@,
                all,
                views,
                *ctx,
                order,
                k as int,
                here,
            ),
            forall|j: int|
                0 <= j < k ==> (slots@[#[trigger] order[j]] matches Some(w) && loaded_in_turn(
                    *mul_add,
                    files@,
                    all,
                    views,
                    *ctx,
                    scheme,
                    order,
                    j,
                    w,
                )),
        decreases n - k,
    {
        assert(order[k as int] == read_order@[k as int]);
        let first: usize = read_order[k];
        let path = paths[first].as_str();
        assert(all[first as int] == path@);
        let at = find_file(files, path);
        let bytes = match &files[at].bytes {
            Ok(bytes) => *bytes,
            Err(message) => {
                let r = refused(message.clone());
                assert(load_outcome(*mul_add, files@, all, views, *ctx, scheme, order, r));
                return r;
            },
        };
        let file = match read_tensors(bytes) {
            Ok(file) => file,
            Err(error) => {
                let prefix = "parse ".to_owned().concat(path).concat(": ");
                let ghost expected = prefix@;
                let message = prefix.concat(error.as_str());
                assert(message@.subrange(0, expected.len() as int) =~= expected);
                let r = refused(message);
                assert(load_outcome(*mul_add, files@, all, views, *ctx, scheme, order, r));
                return r;
            },
        };
        let ghost tensors = tensors_in(file);
        let ghost start = k;
        while k < n && text_eq(paths[read_order[k]].as_str(), path)
            invariant
                start <= k <= n,
                start < n,
                read_order@.len() == n,
                forall|j: int| 0 <= j < n ==> #[trigger] read_order@[j] < n,
                n == specs@.len(),
                n == paths@.len(),
                slots@.len() == n,
                all == texts(paths@),
                views == spec_views(specs@),
                order == indices(read_order@),
                is_load_order(all, n as int, order),
                is_total(*mul_add),
                at == file_at(files@, path@, 0),
                at < files@.len(),
                files@[at as int].bytes matches Ok(b) && b@ == bytes@,
                file_tensors(bytes@) == Some(tensors),
                tensors == tensors_in(file),
                all[order[start as int]] == path@,
                here == scheme_at(files@, all, views, order, k as nat, scheme),
                first_failure(files@, all, views, *ctx, order, 0, scheme) == first_failure(
                    files@,
                    all,
                    views,
                    *ctx,
                    order,
                    k as int,
                    here,
                ),
                forall|j: int|
                    0 <= j < k ==> (slots@[#[trigger] order[j]] matches Some(w) && loaded_in_turn(
                        *mul_add,
                        files@,
                        all,
                        views,
                        *ctx,
                        scheme,
                        order,
                        j,
                        w,
                    )),
            decreases n - k,
        {
            assert(order[k as int] == read_order@[k as int]);
            let i: usize = read_order[k];
            assert(all[i as int] == path@);
            let spec = &specs[i];
            assert(views[i as int] == spec@);
            let name = spec.tensor_name();
            let ghost before = here;
            assert(weight_failure(files@, all[i as int], views[i as int], before, *ctx)
                == match name_error(before, tensors, path@, name@) {
                Some(message) => Some(LoadFailure::Known(ProblemView::Refused(message))),
                None => {
                    let stored = name_in_file(before, tensors, name@).unwrap();
                    match load_problem(
                        tensors,
                        path@,
                        spec@,
                        stored,
                        *ctx,
                        widened_len(tensors, stored, *ctx),
                    ) {
                        Some(problem) => Some(LoadFailure::Known(problem)),
                        None => None,
                    }
                },
            });
            let (stored, after) = match resolve_name(&file, path, name, here) {
                Ok(found) => found,
                Err(message) => {
                    let r = refused(message);
                    assert(load_outcome(*mul_add, files@, all, views, *ctx, scheme, order, r));
                    return r;
                },
            };
            let weight = match load_weight(&file, path, spec, stored.as_str(), ctx, mul_add) {
                Ok(weight) => weight,
                Err(problem) => {
                    let r = Err(problem);
                    assert(load_outcome(*mul_add, files@, all, views, *ctx, scheme, order, r));
                    return r;
                },
            };
            assert(tensors_at(files@, all[i as int]) == tensors);
            assert(loaded_in_turn(
                *mul_add,
                files@,
                all,
                views,
                *ctx,
                scheme,
                order,
                k as int,
                weight,
            ));
            let ghost old_slots = slots@;
            slots.set(i, Some(weight));
            here = after;
            proof {
                assert forall|j: int| 0 <= j < k + 1 implies (slots@[#[trigger] order[j]] matches Some(
                    w,
                ) && loaded_in_turn(*mul_add, files@, all, views, *ctx, scheme, order, j, w)) by {
                    if j < k {
                        lemma_order_is_injective(all, n as int, order, j, k as int);
                        assert(slots@[order[j]] == old_slots[order[j]]);
                    }
                }
            }
            k += 1;
        }
    }
    let ghost filled = slots@;
    let mut weights: Vec<LoadedWeight> = Vec::new();
    assert forall|i: int| 0 <= i < n implies #[trigger] filled[i] is Some by {
        assert(order.contains(i));
        let j = choose|j: int| 0 <= j < order.len() && order[j] == i;
        assert(filled[order[j]] is Some);
    }
    for slot in it: slots
        invariant
            it.seq() == filled,
            filled.len() == n,
            forall|i: int| 0 <= i < n ==> #[trigger] filled[i] is Some,
            weights@.len() == it.index(),
            forall|i: int| 0 <= i < it.index() ==> filled[i] == Some(#[trigger] weights@[i]),
    {
        assert(filled[it.index() as int] == slot);
        if let Some(weight) = slot {
            weights.push(weight);
        }
    }
    let r = Ok(weights);
    proof {
        assert forall|k: int| 0 <= k < order.len() implies loaded_in_turn(
            *mul_add,
            files@,
            all,
            views,
            *ctx,
            scheme,
            order,
            k,
            r->Ok_0@[#[trigger] order[k]],
        ) by {
            assert(filled[order[k]] == Some(r->Ok_0@[order[k]]));
        }
        assert(load_outcome(*mul_add, files@, all, views, *ctx, scheme, order, r));
    }
    r
}

/// Grouped paths are paths of the same files.
pub proof fn lemma_grouped_files(files: Seq<ShardFile<'_>>, paths: Seq<Seq<char>>)
    requires
        forall|i: int|
            0 <= i < paths.len() ==> file_at(files, #[trigger] paths[i], 0) < files.len(),
    ensures
        forall|i: int|
            0 <= i < paths.len() ==> file_at(files, #[trigger] grouped(paths)[i], 0)
                < files.len(),
{
    lemma_grouped(paths);
    assert forall|i: int| 0 <= i < paths.len() implies file_at(
        files,
        #[trigger] grouped(paths)[i],
        0,
    ) < files.len() by {
        assert(is_head(paths, i, grouped(paths)[i]));
        assert(grouped(paths)[i] == paths[first_alike(paths, paths[i], 0)]);
    }
}

/// Load the weights of a graph. `paths` gives the file of each weight; paths with the same
/// components are one file, spelled as it first is. Files are read in ascending order of
/// their paths, each once, and what comes first in that order decides which failure is
/// reported. The weights come back in the order of `specs`.
pub fn load_weights<F: Fn(u32, u32, u32) -> u32>(
    files: &Vec<ShardFile<'_>>,
    paths: &Vec<String>,
    specs: &Vec<WeightSpec>,
    scheme: NameScheme,
    ctx: &LoadContext,
    mul_add: &F,
) -> (r: Result<Vec<LoadedWeight>, Problem>)
    requires
        paths@.len() == specs@.len(),
        forall|i: int|
            0 <= i < paths@.len() ==> file_at(files@, #[trigger] texts(paths@)[i], 0)
                < files@.len(),
        is_total(*mul_add),
    ensures
        exists|order: Seq<int>|
            is_load_order(grouped(texts(paths@)), paths@.len() as int, order)
                && #[trigger] load_outcome(
                *mul_add,
                files@,
                grouped(texts(paths@)),
                spec_views(specs@),
                *ctx,
                scheme,
                order,
                r,
            ),
{
    let spelled = group_paths(paths);
    proof {
        lemma_grouped_files(files@, texts(paths@));
    }
    load_in_order(files, &spelled, specs, scheme, ctx, mul_add)
}

/// The order in which weights are read is the only one of its kind.
pub proof fn law_load_order_is_unique(paths: Seq<Seq<char>>, a: Seq<int>, b: Seq<int>)
    requires
        is_load_order(paths, paths.len() as int, a),
        is_load_order(paths, paths.len() as int, b),
    ensures
        a == b,
{
    lemma_same_order(paths, a, b, paths.len());
    assert(a =~= a.subrange(0, paths.len() as int));
    assert(b =~= b.subrange(0, paths.len() as int));
}

/// The weights before position `k` of an order are those that are read before it.
proof fn lemma_same_order(paths: Seq<Seq<char>>, a: Seq<int>, b: Seq<int>, k: nat)
    requires
        is_load_order(paths, paths.len() as int, a),
        is_load_order(paths, paths.len() as int, b),
        k <= paths.len(),
    ensures
        a.subrange(0, k as int) == b.subrange(0, k as int),
    decreases k,
{
    let n = paths.len() as int;
    if k > 0 {
        let p = k - 1;
        lemma_same_order(paths, a, b, p as nat);
        assert forall|q: int| 0 <= q < p implies a[q] == b[q] by {
            assert(a.subrange(0, p)[q] == b.subrange(0, p)[q]);
        }
        if a[p] != b[p] {
            lemma_not_later(paths, a, b, p);
            lemma_not_later(paths, b, a, p);
            assert(reads_before(paths, a[p], b[p]) && reads_before(paths, b[p], a[p]));
            reveal(reads_before);
            lemma_path_lt_total(paths[a[p]], paths[b[p]]);
        }
        assert(a.subrange(0, k as int) =~= b.subrange(0, k as int));
    }
}

/// Where two orders agree before `p` and differ there, the one reads its weight first.
proof fn lemma_not_later(paths: Seq<Seq<char>>, a: Seq<int>, b: Seq<int>, p: int)
    requires
        is_load_order(paths, paths.len() as int, a),
        is_load_order(paths, paths.len() as int, b),
        0 <= p < paths.len(),
        forall|q: int| 0 <= q < p ==> a[q] == b[q],
        a[p] != b[p],
    ensures
        reads_before(paths, a[p], b[p]),
{
    let n = paths.len() as int;
    assert(a.contains(b[p]));
    let q = choose|q: int| 0 <= q < a.len() && a[q] == b[p];
    if q < p {
        assert(b[q] == b[p]);
        lemma_order_is_injective(paths, n, b, q, p);
    }
    assert(q > p);
    assert(reads_before(paths, a[p], a[q]));
}

/// The files are told apart by the components of their paths.
pub open spec fn distinct_files(files: Seq<ShardFile<'_>>) -> bool {
    forall|j: int, k: int|
        0 <= j < k < files.len() ==> !same_path(
            (#[trigger] files[j]).path@,
            (#[trigger] files[k]).path@,
        )
}

proof fn lemma_file_at(files: Seq<ShardFile<'_>>, k: int, from: int)
    requires
        distinct_files(files),
        0 <= from <= k < files.len(),
    ensures
        file_at(files, files[k].path@, from) == k,
    decreases k - from,
{
    if from < k {
        assert(!same_path(files[from].path@, files[k].path@));
        lemma_file_at(files, k, from + 1);
    }
}

/// Whose weights a search of all files looks for.
pub open spec fn kind_of(cfg: RuntimeConfig) -> SearchKind {
    if search_of(cfg) == WeightSearch::Molmo2 {
        SearchKind::Molmo2
    } else {
        SearchKind::Gemma3n
    }
}

/// What a search of all files finds, loading finds too: under the scheme that the model's
/// configuration gets, each weight has a name in its file and the file holds it.
pub proof fn law_resolved_weights_are_named(
    cfg: RuntimeConfig,
    files: Seq<ShardFile<'_>>,
    names: Seq<Seq<char>>,
    paths: Seq<Seq<char>>,
    i: int,
)
    requires
        search_of(cfg) != WeightSearch::Dense,
        distinct_files(files),
        are_found(search(kind_of(cfg), files, names), names, paths),
        0 <= i < names.len(),
    ensures
        ({
            let spelling = search(kind_of(cfg), files, names)->Found_0.scheme;
            let scheme = scheme_of(cfg, None, spelling);
            &&& grouped(paths)[i] == paths[i]
            &&& file_at(files, paths[i], 0) < files.len()
            &&& name_error(scheme, tensors_at(files, paths[i]), paths[i], names[i]) is None
        }),
{
    let kind = kind_of(cfg);
    let spelling = search(kind, files, names)->Found_0.scheme;
    law_resolved_weights_are_there(kind, files, names, paths, i);
    let k = choose|k: int|
        0 <= k < files.len() && (#[trigger] files[k]).path@ == paths[i] && holds(
            kind,
            files[k],
            spelling,
            names[i],
        );
    lemma_file_at(files, k, 0);
    lemma_grouped(paths);
    assert(is_head(paths, i, grouped(paths)[i]));
    let h = first_alike(paths, paths[i], 0);
    law_resolved_weights_are_there(kind, files, names, paths, h);
    let m = choose|m: int|
        0 <= m < files.len() && (#[trigger] files[m]).path@ == paths[h] && holds(
            kind,
            files[m],
            spelling,
            names[h],
        );
    assert(same_path(files[m].path@, files[k].path@));
    assert(m == k);
}

} // verus!
