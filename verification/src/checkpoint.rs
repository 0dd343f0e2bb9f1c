//! Where the weights of a graph lie in a checkpoint: in which file, under which name.
use vstd::prelude::*;

use crate::json::{json_error_text, json_of_text, lookup, parse_json, JsonView};
use crate::paths::{ascending_paths, distinct_paths, grouped, join_path, joined_path};
use crate::tensors::{file_tensors, find_tensor, read_tensors, tensors_in, TensorView};
use crate::text::{
    ascending, contains_name, dec, ends_with, has_prefix, has_suffix, insert_name, size_text,
    strip_prefix, tail, texts,
};

verus! {

/// The file of a checkpoint that is not split.
pub const SINGLE_FILE: &'static str = "model.safetensors";

pub const MSG_MIXED_NAMES: &'static str =
    "Gemma3n checkpoint mixes canonical `model.language_model.*` and repackaged `language_model.model.*` tensor names";

pub const MSG_NO_GRAPH_WEIGHTS: &'static str = "Gemma3n checkpoint has no graph weights";

/// What is known of a checkpoint directory before a weight file is opened.
#[derive(Debug)]
pub struct CheckpointDir {
    /// The path of the directory.
    pub path: String,
    /// The path of `model.safetensors.index.json`, as messages show it.
    pub index_path: String,
    /// There is a `model.safetensors`.
    pub single: bool,
    /// The text of the index file, or the message with which reading it failed.
    pub index: Result<String, String>,
}

/// The first name from `from` on that a `weight_map` has no text for.
pub open spec fn unmapped(
    entries: Seq<(Seq<char>, JsonView)>,
    names: Seq<Seq<char>>,
    from: int,
) -> Option<Seq<char>>
    decreases names.len() - from,
{
    if from < 0 || from >= names.len() {
        None
    } else if lookup(entries, names[from]) matches Some(JsonView::Text(_)) {
        unmapped(entries, names, from + 1)
    } else {
        Some(names[from])
    }
}

/// Complaint about the files of `names`.
pub open spec fn shards_error(dir: CheckpointDir, names: Seq<Seq<char>>) -> Option<Seq<char>> {
    if dir.single {
        None
    } else {
        match dir.index {
            Err(message) => Some(
                "no model.safetensors and no readable model.safetensors.index.json in "@
                    + dir.path@ + ": "@ + message@,
            ),
            Ok(text) => match json_of_text(text@) {
                None => Some("parse "@ + dir.index_path@ + ": "@ + json_error_text(text@)),
                Some(document) => match document.get("weight_map"@) {
                    Some(JsonView::Object(entries)) => match unmapped(entries, names, 0) {
                        Some(name) => Some(
                            dir.index_path@ + ": weight_map has no entry for `"@ + name + "`"@,
                        ),
                        None => None,
                    },
                    _ => Some(dir.index_path@ + ": missing object `weight_map`"@),
                },
            },
        }
    }
}

/// The path of a weight's file: the only one, or the one that the index maps it to.
pub open spec fn shard_of(dir: CheckpointDir, name: Seq<char>) -> Seq<char> {
    if dir.single {
        joined_path(dir.path@, SINGLE_FILE@)
    } else {
        let document = json_of_text(dir.index->Ok_0@).unwrap();
        let entries = document.get("weight_map"@).unwrap()->Object_0;
        joined_path(dir.path@, lookup(entries, name).unwrap()->Text_0)
    }
}

/// The path of each weight's file.
pub open spec fn shards_of(dir: CheckpointDir, names: Seq<Seq<char>>) -> Seq<Seq<char>> {
    Seq::new(names.len(), |i: int| shard_of(dir, names[i]))
}

/// The outcome of looking up the files of `names`.
pub open spec fn shards_outcome(
    dir: CheckpointDir,
    names: Seq<Seq<char>>,
    r: Result<Vec<String>, String>,
) -> bool {
    match r {
        Ok(files) => shards_error(dir, names) is None && texts(files@) == shards_of(dir, names),
        Err(message) => shards_error(dir, names) == Some(message@),
    }
}

/// The path of each weight's file: `model.safetensors` where there is one, else what the
/// index maps the weight to.
pub fn resolve_weight_shards(dir: &CheckpointDir, names: &Vec<String>) -> (r: Result<
    Vec<String>,
    String,
>)
    ensures
        shards_outcome(*dir, texts(names@), r),
{
    let mut files: Vec<String> = Vec::new();
    let mut i: usize = 0;
    if dir.single {
        while i < names.len()
            invariant
                i <= names.len(),
                files@.len() == i,
                forall|j: int|
                    0 <= j < i ==> #[trigger] files@[j]@ == joined_path(dir.path@, SINGLE_FILE@),
            decreases names.len() - i,
        {
            files.push(join_path(dir.path.as_str(), SINGLE_FILE));
            i += 1;
        }
        assert(texts(files@) =~= shards_of(*dir, texts(names@)));
        return Ok(files);
    }
    let text = match &dir.index {
        Ok(text) => text,
        Err(message) => return Err(
            "no model.safetensors and no readable model.safetensors.index.json in ".to_owned().concat(
            dir.path.as_str(),
            ).concat(": ").concat(message.as_str()),
        ),
    };
    let document = match parse_json(text.as_str()) {
        Ok(document) => document,
        Err(message) => return Err(
            "parse ".to_owned().concat(dir.index_path.as_str()).concat(": ").concat(
                message.as_str(),
            ),
        ),
    };
    let map = match document.get("weight_map") {
        Some(map) => map,
        None => return Err(
            dir.index_path.clone().concat(": missing object `weight_map`"),
        ),
    };
    let ghost entries = map@->Object_0;
    if map.as_object().is_none() {
        return Err(dir.index_path.clone().concat(": missing object `weight_map`"));
    }
    assert(document@.get("weight_map"@) == Some(map@));
    assert(map@ == JsonView::Object(entries));
    while i < names.len()
        invariant
            i <= names.len(),
            !dir.single,
            dir.index == Ok::<String, String>(*text),
            json_of_text(text@) == Some(document@),
            document@.get("weight_map"@) == Some(map@),
            map@ == JsonView::Object(entries),
            unmapped(entries, texts(names@), 0) == unmapped(entries, texts(names@), i as int),
            files@.len() == i,
            forall|j: int|
                0 <= j < i ==> #[trigger] files@[j]@ == shard_of(*dir, texts(names@)[j]),
        decreases names.len() - i,
    {
        let name = names[i].as_str();
        assert(texts(names@)[i as int] == name@);
        match map.get_text(name) {
            Some(file) => {
                files.push(join_path(dir.path.as_str(), file));
            },
            None => {
                assert(unmapped(entries, texts(names@), i as int) == Some(name@));
                return Err(
                    dir.index_path.clone().concat(": weight_map has no entry for `").concat(
                        name,
                    ).concat("`"),
                );
            },
        }
        i += 1;
    }
    assert(texts(files@) =~= shards_of(*dir, texts(names@)));
    Ok(files)
}

/// The name of a language weight inside a wrapper checkpoint.
pub open spec fn wrapped_name(name: Seq<char>) -> Seq<char> {
    "language_model."@ + name
}

/// The name of a language weight inside a wrapper checkpoint.
pub fn language_model_tensor_name(name: &str) -> (r: String)
    ensures
        r@ == wrapped_name(name@),
{
    "language_model.".to_owned().concat(name)
}

/// The namespace that the dense weights of a checkpoint have.
#[derive(Debug, Clone, Copy, PartialEq, Eq, Structural)]
pub enum DenseCheckpointNames {
    Canonical,
    LanguageModelPrefixed,
}

/// The names of weights inside a wrapper checkpoint.
pub open spec fn wrapped_names(names: Seq<Seq<char>>) -> Seq<Seq<char>> {
    Seq::new(names.len(), |i: int| wrapped_name(names[i]))
}

/// Complaint about the dense weights of a split checkpoint: neither namespace is complete.
pub open spec fn dense_error(dir: CheckpointDir, names: Seq<Seq<char>>) -> Option<Seq<char>> {
    if shards_error(dir, names) is None {
        None
    } else {
        match shards_error(dir, wrapped_names(names)) {
            Some(message) => Some(
                "dense checkpoint has neither a complete canonical nor `language_model.*` weight namespace: "@
                    + message,
            ),
            None => None,
        }
    }
}

/// The namespace of a split checkpoint; one that is not split shows its own when it is
/// opened.
pub open spec fn dense_namespace(dir: CheckpointDir, names: Seq<Seq<char>>) -> Option<
    DenseCheckpointNames,
> {
    if dir.single {
        None
    } else if shards_error(dir, names) is None {
        Some(DenseCheckpointNames::Canonical)
    } else {
        Some(DenseCheckpointNames::LanguageModelPrefixed)
    }
}

/// The file of each dense weight and the namespace that all of them have.
pub fn resolve_dense_weight_sources(dir: &CheckpointDir, names: &Vec<String>) -> (r: Result<
    (Vec<String>, Option<DenseCheckpointNames>),
    String,
>)
    ensures
        match r {
            Ok(found) => {
                let namespace = dense_namespace(*dir, texts(names@));
                let spelled = if namespace == Some(DenseCheckpointNames::LanguageModelPrefixed) {
                    wrapped_names(texts(names@))
                } else {
                    texts(names@)
                };
                &&& dense_error(*dir, texts(names@)) is None
                &&& found.1 == namespace
                &&& texts(found.0@) == shards_of(*dir, spelled)
            },
            Err(message) => dense_error(*dir, texts(names@)) == Some(message@),
        },
{
    if let Ok(files) = resolve_weight_shards(dir, names) {
        if dir.single {
            return Ok((files, None));
        }
        return Ok((files, Some(DenseCheckpointNames::Canonical)));
    }
    let mut wrapped: Vec<String> = Vec::new();
    let mut i: usize = 0;
    while i < names.len()
        invariant
            i <= names.len(),
            wrapped@.len() == i,
            forall|j: int| 0 <= j < i ==> #[trigger] wrapped@[j]@ == wrapped_name(names@[j]@),
        decreases names.len() - i,
    {
        wrapped.push(language_model_tensor_name(names[i].as_str()));
        i += 1;
    }
    assert(texts(wrapped@) =~= wrapped_names(texts(names@)));
    match resolve_weight_shards(dir, &wrapped) {
        Ok(files) => Ok((files, Some(DenseCheckpointNames::LanguageModelPrefixed))),
        Err(message) => Err(
            "dense checkpoint has neither a complete canonical nor `language_model.*` weight namespace: ".to_owned().concat(
            message.as_str(),
            ),
        ),
    }
}

/// The name of a Gemma3n weight in a repackaged checkpoint; only names of the language
/// model have one.
pub open spec fn repackaged(name: Seq<char>) -> Option<Seq<char>> {
    if has_prefix(name, "model.language_model."@) {
        Some("language_model.model."@ + tail(name, "model.language_model."@.len()))
    } else {
        None
    }
}

/// The name of a Gemma3n weight in a repackaged checkpoint.
pub fn gemma3n_repackaged_tensor_name(name: &str) -> (r: Option<String>)
    ensures
        match r {
            Some(alias) => repackaged(name@) == Some(alias@),
            None => repackaged(name@) is None,
        },
{
    match strip_prefix(name, "model.language_model.") {
        Some(suffix) => Some("language_model.model.".to_owned().concat(suffix)),
        None => None,
    }
}

/// How a Gemma3n checkpoint spells its names.
#[derive(Debug, Clone, Copy, PartialEq, Eq, Structural)]
pub enum Gemma3nCheckpointNames {
    Canonical,
    Repackaged,
}

/// The spelling after one more name was seen; two spellings are refused.
pub fn merge_gemma3n_name_scheme(
    current: Option<Gemma3nCheckpointNames>,
    observed: Gemma3nCheckpointNames,
) -> (r: Result<Option<Gemma3nCheckpointNames>, String>)
    ensures
        match r {
            Ok(scheme) => scheme == Some(observed) && (current is None || current == Some(
                observed,
            )),
            Err(message) => message@ == MSG_MIXED_NAMES@ && current is Some && current != Some(
                observed,
            ),
        },
{
    match current {
        Some(seen) if seen != observed => Err(MSG_MIXED_NAMES.to_owned()),
        Some(seen) => Ok(Some(seen)),
        None => Ok(Some(observed)),
    }
}

/// The name of a weight under a spelling.
pub open spec fn spelled(scheme: Option<Gemma3nCheckpointNames>, name: Seq<char>) -> Option<
    Seq<char>,
> {
    match scheme {
        Some(Gemma3nCheckpointNames::Repackaged) => repackaged(name),
        _ => Some(name),
    }
}

/// The name of a weight under the spelling of its checkpoint.
pub fn checkpoint_tensor_name(scheme: Option<Gemma3nCheckpointNames>, canonical: &str) -> (r:
    Result<String, String>)
    ensures
        match r {
            Ok(name) => spelled(scheme, canonical@) == Some(name@),
            Err(message) => spelled(scheme, canonical@) is None && message@
                == "unsupported Gemma3n tensor name: "@ + canonical@,
        },
{
    match scheme {
        Some(Gemma3nCheckpointNames::Repackaged) => match gemma3n_repackaged_tensor_name(
            canonical,
        ) {
            Some(name) => Ok(name),
            None => Err("unsupported Gemma3n tensor name: ".to_owned().concat(canonical)),
        },
        _ => Ok(canonical.to_owned()),
    }
}

/// The safetensors files among the names of a directory.
pub open spec fn safetensors_among(listing: Seq<Seq<char>>) -> Set<Seq<char>> {
    Set::new(|n: Seq<char>| listing.contains(n) && has_suffix(n, ".safetensors"@))
}

/// The safetensors files of a directory in ascending order.
pub fn safetensors_files(listing: &Vec<String>) -> (r: Vec<String>)
    ensures
        ascending(texts(r@)),
        texts(r@).to_set() == safetensors_among(texts(listing@)),
{
    let ghost all = texts(listing@);
    let mut out: Vec<String> = Vec::new();
    let mut i: usize = 0;
    assert(texts(out@).to_set() =~= safetensors_among(all.subrange(0, 0)));
    while i < listing.len()
        invariant
            i <= listing.len(),
            all == texts(listing@),
            ascending(texts(out@)),
            texts(out@).to_set() == safetensors_among(all.subrange(0, i as int)),
        decreases listing.len() - i,
    {
        let ghost before = texts(out@).to_set();
        let name = listing[i].as_str();
        assert(all[i as int] == name@);
        assert(all.subrange(0, i + 1) =~= all.subrange(0, i as int).push(name@));
        assert forall|n: Seq<char>| all.subrange(0, i + 1).contains(n) == (all.subrange(
            0,
            i as int,
        ).contains(n) || n == name@) by {
            let s = all.subrange(0, i as int);
            if s.contains(n) {
                let k = choose|k: int| 0 <= k < s.len() && s[k] == n;
                assert(all.subrange(0, i + 1)[k] == n);
            }
            assert(all.subrange(0, i + 1)[i as int] == name@);
        }
        if ends_with(name, ".safetensors") {
            insert_name(&mut out, name.to_owned());
            let ghost after = safetensors_among(all.subrange(0, i + 1));
            assert forall|n: Seq<char>| before.insert(name@).contains(n) == after.contains(n) by {
                assert(before.contains(n) == safetensors_among(
                    all.subrange(0, i as int),
                ).contains(n));
            }
            assert(before.insert(name@) =~= after);
        } else {
            assert(before =~= safetensors_among(all.subrange(0, i + 1)));
        }
        i += 1;
    }
    assert(all.subrange(0, i as int) =~= all);
    out
}

/// The index is complete, and all that it names are files.
pub open spec fn indexed_files(
    dir: CheckpointDir,
    names: Seq<Seq<char>>,
    files: Seq<Seq<char>>,
) -> bool {
    &&& shards_error(dir, names) is None
    &&& forall|i: int|
        0 <= i < names.len() ==> files.contains(#[trigger] shards_of(dir, names)[i])
}

/// The paths of the safetensors files in a listing of a directory.
pub open spec fn listed_files(
    path: Seq<char>,
    listing: Seq<Seq<char>>,
    files: Seq<Seq<char>>,
) -> Seq<Seq<char>>
    decreases listing.len(),
{
    if listing.len() == 0 {
        Seq::empty()
    } else {
        let before = listed_files(path, listing.drop_last(), files);
        let last = joined_path(path, listing.last());
        if has_suffix(listing.last(), ".safetensors"@) && files.contains(last) {
            before.push(last)
        } else {
            before
        }
    }
}

/// Complaint about the files of a Gemma3n checkpoint.
pub open spec fn candidates_error(
    dir: CheckpointDir,
    names: Seq<Seq<char>>,
    files: Seq<Seq<char>>,
    listing: Result<Vec<String>, String>,
) -> Option<Seq<char>> {
    if indexed_files(dir, names, files) {
        None
    } else {
        match listing {
            Err(message) => Some("read "@ + dir.path@ + ": "@ + message@),
            Ok(listed) => if listed_files(dir.path@, texts(listed@), files).len() == 0 {
                match shards_error(dir, names) {
                    Some(message) => Some(message),
                    None => Some("no safetensors files found in "@ + dir.path@),
                }
            } else {
                None
            },
        }
    }
}

/// The files of a Gemma3n checkpoint: those that a complete index names, else every
/// safetensors file of the directory.
pub open spec fn candidate_files(
    dir: CheckpointDir,
    names: Seq<Seq<char>>,
    files: Seq<Seq<char>>,
    listing: Result<Vec<String>, String>,
) -> Seq<Seq<char>> {
    if indexed_files(dir, names, files) {
        shards_of(dir, names)
    } else {
        listed_files(dir.path@, texts(listing->Ok_0@), files)
    }
}

/// Whether all of the paths are among `files`.
fn all_files(paths: &Vec<String>, files: &Vec<String>) -> (r: bool)
    ensures
        r == (forall|j: int|
            0 <= j < paths@.len() ==> texts(files@).contains(#[trigger] texts(paths@)[j])),
{
    let mut i: usize = 0;
    while i < paths.len()
        invariant
            i <= paths.len(),
            forall|j: int| 0 <= j < i ==> texts(files@).contains(#[trigger] texts(paths@)[j]),
        decreases paths.len() - i,
    {
        if !contains_name(files, paths[i].as_str()) {
            assert(!texts(files@).contains(texts(paths@)[i as int]));
            return false;
        }
        i += 1;
    }
    true
}

/// The paths of the files to search for the weights of a Gemma3n checkpoint, in ascending
/// order of their components. `files` are the paths that are known to be files, `listing`
/// is what the directory holds or the message with which listing it failed.
pub fn gemma3n_candidate_shards(
    dir: &CheckpointDir,
    names: &Vec<String>,
    files: &Vec<String>,
    listing: &Result<Vec<String>, String>,
) -> (r: Result<Vec<String>, String>)
    ensures
        match r {
            Ok(shards) => {
                let found = candidate_files(*dir, texts(names@), texts(files@), *listing);
                &&& candidates_error(*dir, texts(names@), texts(files@), *listing) is None
                &&& ascending_paths(texts(shards@))
                &&& texts(shards@).to_set() == grouped(found).to_set()
            },
            Err(message) => candidates_error(*dir, texts(names@), texts(files@), *listing) == Some(
                message@,
            ),
        },
{
    let indexed = resolve_weight_shards(dir, names);
    if let Ok(paths) = &indexed {
        if all_files(paths, files) {
            return Ok(distinct_paths(paths));
        }
        assert(texts(paths@).len() == paths@.len());
    }
    let listed = match listing {
        Ok(listed) => listed,
        Err(message) => return Err(
            "read ".to_owned().concat(dir.path.as_str()).concat(": ").concat(message.as_str()),
        ),
    };
    let ghost all = texts(listed@);
    let mut actual: Vec<String> = Vec::new();
    let mut i: usize = 0;
    assert(texts(actual@) =~= listed_files(dir.path@, all.subrange(0, 0), texts(files@)));
    while i < listed.len()
        invariant
            i <= listed.len(),
            all == texts(listed@),
            texts(actual@) == listed_files(dir.path@, all.subrange(0, i as int), texts(files@)),
        decreases listed.len() - i,
    {
        let name = listed[i].as_str();
        let path = join_path(dir.path.as_str(), name);
        let ghost before = texts(actual@);
        let ghost place = path@;
        proof {
            let next = all.subrange(0, i + 1);
            assert(all[i as int] == name@);
            assert(next.drop_last() =~= all.subrange(0, i as int));
            assert(next.last() == name@);
        }
        if ends_with(name, ".safetensors") && contains_name(files, path.as_str()) {
            actual.push(path);
            assert(texts(actual@) =~= before.push(place));
        }
        i += 1;
    }
    assert(all.subrange(0, i as int) =~= all);
    if actual.len() == 0 {
        assert(texts(actual@).len() == 0);
        return match indexed {
            Err(message) => Err(message),
            Ok(_) => Err(
                "no safetensors files found in ".to_owned().concat(dir.path.as_str()),
            ),
        };
    }
    Ok(distinct_paths(&actual))
}

/// A weight file: its path as messages show it, and its bytes or the message with which
/// opening it failed.
#[derive(Debug)]
pub struct ShardFile<'a> {
    pub path: String,
    pub bytes: Result<&'a [u8], String>,
}

/// Whose weights are searched for: the language weights of a wrapper, or a vision tower.
#[derive(Debug, Clone, Copy, PartialEq, Eq, Structural)]
pub enum SearchKind {
    Molmo2,
    Gemma3n,
    /// The vision tower of Molmo2, whose names are not wrapped.
    Vision,
}

/// What a file shows of a weight.
pub ghost enum Sighting {
    Absent,
    /// It is there, under this spelling where spellings are told apart.
    Here(Option<Gemma3nCheckpointNames>),
    Refused(Seq<char>),
}

/// What a file shows of a weight.
pub open spec fn sighting(
    kind: SearchKind,
    tensors: Map<Seq<char>, TensorView>,
    path: Seq<char>,
    name: Seq<char>,
) -> Sighting {
    match kind {
        SearchKind::Molmo2 => if tensors.contains_key(wrapped_name(name)) {
            Sighting::Here(None)
        } else {
            Sighting::Absent
        },
        SearchKind::Vision => if tensors.contains_key(name) {
            Sighting::Here(None)
        } else {
            Sighting::Absent
        },
        SearchKind::Gemma3n => match repackaged(name) {
            None => Sighting::Refused(
                "Gemma3n graph weight has an unsupported canonical name: "@ + name,
            ),
            Some(alias) => if tensors.contains_key(name) && tensors.contains_key(alias) {
                Sighting::Refused(
                    "Gemma3n checkpoint "@ + path + " contains both `"@ + name + "` and `"@ + alias
                        + "`"@,
                )
            } else if tensors.contains_key(name) {
                Sighting::Here(Some(Gemma3nCheckpointNames::Canonical))
            } else if tensors.contains_key(alias) {
                Sighting::Here(Some(Gemma3nCheckpointNames::Repackaged))
            } else {
                Sighting::Absent
            },
        },
    }
}

/// A weight that two files hold.
pub open spec fn duplicate_message(
    kind: SearchKind,
    name: Seq<char>,
    first: Seq<char>,
    second: Seq<char>,
) -> Seq<char> {
    match kind {
        SearchKind::Molmo2 => "Molmo2 tensor "@ + wrapped_name(name) + " occurs in "@ + first
            + " and "@ + second,
        SearchKind::Vision => "Molmo2 vision tensor "@ + name + " occurs in "@ + first + " and "@
            + second,
        SearchKind::Gemma3n => "Gemma3n tensor `"@ + name + "` is duplicated in "@ + first
            + " and "@ + second,
    }
}

/// A search on its way: the file of each weight that was found, and the spelling.
pub ghost struct Findings {
    pub found: Seq<Option<Seq<char>>>,
    pub scheme: Option<Gemma3nCheckpointNames>,
}

/// The outcome of a search.
pub ghost enum Search {
    Found(Findings),
    Refused(Seq<char>),
    /// A file that is no safetensors file; the rest of the message is not stated.
    Unparsed(Seq<char>),
}

/// The search after one file was looked at for the weights from `from` on.
pub open spec fn search_names(
    kind: SearchKind,
    tensors: Map<Seq<char>, TensorView>,
    path: Seq<char>,
    names: Seq<Seq<char>>,
    from: int,
    state: Findings,
) -> Search
    decreases names.len() - from,
{
    if from < 0 || from >= names.len() {
        Search::Found(state)
    } else {
        match sighting(kind, tensors, path, names[from]) {
            Sighting::Refused(message) => Search::Refused(message),
            Sighting::Absent => search_names(kind, tensors, path, names, from + 1, state),
            Sighting::Here(observed) => match state.found[from] {
                Some(first) => Search::Refused(
                    duplicate_message(kind, names[from], first, path),
                ),
                None => if observed is Some && state.scheme is Some && observed != state.scheme {
                    Search::Refused(MSG_MIXED_NAMES@)
                } else {
                    search_names(
                        kind,
                        tensors,
                        path,
                        names,
                        from + 1,
                        Findings {
                            found: state.found.update(from, Some(path)),
                            scheme: if observed is Some {
                                observed
                            } else {
                                state.scheme
                            },
                        },
                    )
                },
            },
        }
    }
}

/// The search after the files from `from` on were looked at.
pub open spec fn search_files(
    kind: SearchKind,
    files: Seq<ShardFile<'_>>,
    from: int,
    names: Seq<Seq<char>>,
    state: Findings,
) -> Search
    decreases files.len() - from,
{
    if from < 0 || from >= files.len() {
        Search::Found(state)
    } else {
        match files[from].bytes {
            Err(message) => Search::Refused(message@),
            Ok(bytes) => match file_tensors(bytes@) {
                None => Search::Unparsed("parse "@ + files[from].path@ + ": "@),
                Some(tensors) => match search_names(
                    kind,
                    tensors,
                    files[from].path@,
                    names,
                    0,
                    state,
                ) {
                    Search::Found(next) => search_files(kind, files, from + 1, names, next),
                    other => other,
                },
            },
        }
    }
}

/// Nothing found yet.
pub open spec fn nothing_found(n: nat) -> Findings {
    Findings { found: Seq::new(n, |i: int| None::<Seq<char>>), scheme: None }
}

/// The whole search.
pub open spec fn search(
    kind: SearchKind,
    files: Seq<ShardFile<'_>>,
    names: Seq<Seq<char>>,
) -> Search {
    search_files(kind, files, 0, names, nothing_found(names.len()))
}

/// The names that were not found, up to `n`.
pub open spec fn missing_upto(
    found: Seq<Option<Seq<char>>>,
    names: Seq<Seq<char>>,
    n: nat,
) -> Seq<Seq<char>>
    decreases n,
{
    if n == 0 {
        Seq::empty()
    } else if found[n - 1] is None {
        missing_upto(found, names, (n - 1) as nat).push(names[n - 1])
    } else {
        missing_upto(found, names, (n - 1) as nat)
    }
}

/// The first `n` names of a list with commas between them.
pub open spec fn with_commas(names: Seq<Seq<char>>, n: nat) -> Seq<char>
    decreases n,
{
    if n == 0 {
        Seq::empty()
    } else if n == 1 {
        names[0]
    } else {
        with_commas(names, (n - 1) as nat) + ", "@ + names[n - 1]
    }
}

/// How many missing names a message shows.
pub const MISSING_PREVIEW: usize = 8;

/// Names are missing: how many, and the first of them.
pub open spec fn missing_message(kind: SearchKind, missing: Seq<Seq<char>>) -> Seq<char> {
    let shown = if missing.len() < MISSING_PREVIEW {
        missing.len()
    } else {
        MISSING_PREVIEW as nat
    };
    match kind {
        SearchKind::Molmo2 => "Molmo2 checkpoint is missing "@ + dec(missing.len())
            + " language graph weight(s): "@ + with_commas(missing, shown),
        SearchKind::Vision => "checkpoint is missing "@ + dec(missing.len())
            + " Molmo2 vision tensor(s): "@ + with_commas(missing, shown),
        SearchKind::Gemma3n => "Gemma3n checkpoint is missing "@ + dec(missing.len())
            + " graph weight(s): "@ + with_commas(missing, shown),
    }
}

/// Paths and spelling of a search, as the executable code holds them.
struct FoundPaths {
    found: Vec<Option<String>>,
    scheme: Option<Gemma3nCheckpointNames>,
}

impl View for FoundPaths {
    type V = Findings;

    closed spec fn view(&self) -> Findings {
        Findings { found: found_views(self.found@), scheme: self.scheme }
    }
}

spec fn found_view(path: Option<String>) -> Option<Seq<char>> {
    match path {
        Some(path) => Some(path@),
        None => None,
    }
}

spec fn found_views(found: Seq<Option<String>>) -> Seq<Option<Seq<char>>> {
    Seq::new(found.len(), |i: int| found_view(found[i]))
}

/// The error of a search that found no answer.
pub open spec fn search_refuses(outcome: Search, message: Seq<char>) -> bool {
    match outcome {
        Search::Found(_) => false,
        Search::Refused(expected) => message == expected,
        Search::Unparsed(prefix) => has_prefix(message, prefix),
    }
}

/// Look at one weight in one file: whether it is there, and under which spelling.
fn sight(
    kind: SearchKind,
    file: &safetensors::SafeTensors<'_>,
    path: &str,
    name: &str,
) -> (r: Result<Option<Option<Gemma3nCheckpointNames>>, String>)
    ensures
        match r {
            Ok(None) => sighting(kind, tensors_in(*file), path@, name@)
                == Sighting::Absent,
            Ok(Some(observed)) => sighting(kind, tensors_in(*file), path@, name@)
                == Sighting::Here(observed),
            Err(message) => sighting(kind, tensors_in(*file), path@, name@)
                == Sighting::Refused(message@),
        },
{
    match kind {
        SearchKind::Molmo2 => {
            let wrapped = language_model_tensor_name(name);
            if find_tensor(file, wrapped.as_str()).is_some() {
                Ok(Some(None))
            } else {
                Ok(None)
            }
        },
        SearchKind::Vision => {
            if find_tensor(file, name).is_some() {
                Ok(Some(None))
            } else {
                Ok(None)
            }
        },
        SearchKind::Gemma3n => {
            let alias = match gemma3n_repackaged_tensor_name(name) {
                Some(alias) => alias,
                None => return Err(
                    "Gemma3n graph weight has an unsupported canonical name: ".to_owned().concat(
                        name,
                    ),
                ),
            };
            let has_canonical = find_tensor(file, name).is_some();
            let has_alias = find_tensor(file, alias.as_str()).is_some();
            if has_canonical && has_alias {
                Err(
                    "Gemma3n checkpoint ".to_owned().concat(path).concat(
                        " contains both `",
                    ).concat(name).concat("` and `").concat(alias.as_str()).concat("`"),
                )
            } else if has_canonical {
                Ok(Some(Some(Gemma3nCheckpointNames::Canonical)))
            } else if has_alias {
                Ok(Some(Some(Gemma3nCheckpointNames::Repackaged)))
            } else {
                Ok(None)
            }
        },
    }
}

fn duplicate_text(kind: SearchKind, name: &str, first: &str, second: &str) -> (r: String)
    ensures
        r@ == duplicate_message(kind, name@, first@, second@),
{
    match kind {
        SearchKind::Molmo2 => "Molmo2 tensor ".to_owned().concat(
            &language_model_tensor_name(name),
        ).concat(" occurs in ").concat(first).concat(" and ").concat(second),
        SearchKind::Vision => "Molmo2 vision tensor ".to_owned().concat(name).concat(
            " occurs in ",
        ).concat(first).concat(" and ").concat(second),
        SearchKind::Gemma3n => "Gemma3n tensor `".to_owned().concat(name).concat(
            "` is duplicated in ",
        ).concat(first).concat(" and ").concat(second),
    }
}

/// Look for every weight in one file.
fn search_file(
    kind: SearchKind,
    file: &safetensors::SafeTensors<'_>,
    path: &str,
    names: &Vec<String>,
    state: &mut FoundPaths,
) -> (r: Result<(), String>)
    requires
        old(state).found@.len() == names@.len(),
    ensures
        final(state).found@.len() == names@.len(),
        match r {
            Ok(()) => search_names(
                kind,
                tensors_in(*file),
                path@,
                texts(names@),
                0,
                old(state)@,
            ) == Search::Found(final(state)@),
            Err(message) => search_names(
                kind,
                tensors_in(*file),
                path@,
                texts(names@),
                0,
                old(state)@,
            ) == Search::Refused(message@),
        },
{
    let ghost tensors = tensors_in(*file);
    let ghost all = texts(names@);
    let ghost start = state@;
    let mut i: usize = 0;
    while i < names.len()
        invariant
            i <= names.len(),
            all == texts(names@),
            start == old(state)@,
            tensors == tensors_in(*file),
            state.found@.len() == names@.len(),
            search_names(kind, tensors, path@, all, 0, start) == search_names(
                kind,
                tensors,
                path@,
                all,
                i as int,
                state@,
            ),
        decreases names.len() - i,
    {
        let name = names[i].as_str();
        let ghost before = state@;
        assert(all[i as int] == name@);
        assert(before.found[i as int] == found_view(state.found@[i as int]));
        match sight(kind, file, path, name) {
            Err(message) => return Err(message),
            Ok(None) => {},
            Ok(Some(observed)) => {
                if let Some(first) = &state.found[i] {
                    return Err(duplicate_text(kind, name, first.as_str(), path));
                }
                let scheme = match observed {
                    Some(spelling) => match merge_gemma3n_name_scheme(state.scheme, spelling) {
                        Ok(scheme) => scheme,
                        Err(message) => return Err(message),
                    },
                    None => state.scheme,
                };
                state.found.set(i, Some(path.to_owned()));
                state.scheme = scheme;
                assert(state@.found =~= before.found.update(i as int, Some(path@)));
            },
        }
        i += 1;
    }
    Ok(())
}

/// Look for every weight in every file.
fn search_all(kind: SearchKind, files: &Vec<ShardFile<'_>>, names: &Vec<String>) -> (r: Result<
    FoundPaths,
    String,
>)
    ensures
        match r {
            Ok(state) => search(kind, files@, texts(names@)) == Search::Found(state@)
                && state.found@.len() == names@.len(),
            Err(message) => search_refuses(search(kind, files@, texts(names@)), message@),
        },
{
    let ghost all = texts(names@);
    let mut found: Vec<Option<String>> = Vec::new();
    let mut i: usize = 0;
    while i < names.len()
        invariant
            i <= names.len(),
            found@.len() == i,
            forall|j: int| 0 <= j < i ==> #[trigger] found@[j] == None::<String>,
        decreases names.len() - i,
    {
        found.push(None);
        i += 1;
    }
    let mut state = FoundPaths { found, scheme: None };
    assert(state@.found =~= nothing_found(all.len()).found);
    let mut k: usize = 0;
    while k < files.len()
        invariant
            k <= files.len(),
            all == texts(names@),
            state.found@.len() == names@.len(),
            search(kind, files@, all) == search_files(kind, files@, k as int, all, state@),
        decreases files.len() - k,
    {
        let path = files[k].path.as_str();
        let bytes = match &files[k].bytes {
            Ok(bytes) => *bytes,
            Err(message) => return Err(message.clone()),
        };
        let file = match read_tensors(bytes) {
            Ok(file) => file,
            Err(error) => {
                let prefix = "parse ".to_owned().concat(path).concat(": ");
                let ghost expected = prefix@;
                let message = prefix.concat(error.as_str());
                assert(message@.subrange(0, expected.len() as int) =~= expected);
                return Err(message);
            },
        };
        match search_file(kind, &file, path, names, &mut state) {
            Ok(()) => {},
            Err(message) => return Err(message),
        }
        k += 1;
    }
    Ok(state)
}

fn missing_text(kind: SearchKind, missing: &Vec<&str>) -> (r: String)
    requires
        missing@.len() > 0,
    ensures
        r@ == missing_message(kind, Seq::new(missing@.len(), |i: int| missing@[i]@)),
{
    let ghost all = Seq::new(missing@.len(), |i: int| missing@[i]@);
    let shown: usize = if missing.len() < MISSING_PREVIEW {
        missing.len()
    } else {
        MISSING_PREVIEW
    };
    let mut list: String = missing[0].to_owned();
    let mut i: usize = 1;
    while i < shown
        invariant
            1 <= i <= shown <= missing.len(),
            all == Seq::new(missing@.len(), |j: int| missing@[j]@),
            list@ == with_commas(all, i as nat),
        decreases shown - i,
    {
        list = list.concat(", ").concat(missing[i]);
        assert(all[i as int] == missing@[i as int]@);
        i += 1;
    }
    let count = size_text(missing.len());
    match kind {
        SearchKind::Molmo2 => "Molmo2 checkpoint is missing ".to_owned().concat(&count).concat(
            " language graph weight(s): ",
        ).concat(&list),
        SearchKind::Vision => "checkpoint is missing ".to_owned().concat(&count).concat(
            " Molmo2 vision tensor(s): ",
        ).concat(&list),
        SearchKind::Gemma3n => "Gemma3n checkpoint is missing ".to_owned().concat(&count).concat(
            " graph weight(s): ",
        ).concat(&list),
    }
}

/// The answer of a search: the paths in the order of the names, or that some are missing.
fn finish_search(kind: SearchKind, state: &FoundPaths, names: &Vec<String>) -> (r: Result<
    Vec<String>,
    String,
>)
    requires
        state.found@.len() == names@.len(),
    ensures
        match r {
            Ok(paths) => {
                &&& missing_upto(state@.found, texts(names@), names@.len()).len() == 0
                &&& paths@.len() == names@.len()
                &&& forall|i: int|
                    0 <= i < names@.len() ==> state@.found[i] == Some(#[trigger] texts(paths@)[i])
            },
            Err(message) => {
                let missing = missing_upto(state@.found, texts(names@), names@.len());
                missing.len() > 0 && message@ == missing_message(kind, missing)
            },
        },
{
    let ghost all = texts(names@);
    let mut missing: Vec<&str> = Vec::new();
    let mut paths: Vec<String> = Vec::new();
    let mut i: usize = 0;
    assert(Seq::new(missing@.len(), |j: int| missing@[j]@) =~= missing_upto(state@.found, all, 0));
    while i < names.len()
        invariant
            i <= names.len(),
            all == texts(names@),
            state.found@.len() == names@.len(),
            Seq::new(missing@.len(), |j: int| missing@[j]@) == missing_upto(
                state@.found,
                all,
                i as nat,
            ),
            missing@.len() == 0 ==> {
                &&& paths@.len() == i
                &&& forall|j: int|
                    0 <= j < i ==> state@.found[j] == Some(#[trigger] texts(paths@)[j])
            },
        decreases names.len() - i,
    {
        let ghost before = missing_upto(state@.found, all, i as nat);
        assert(state@.found[i as int] == found_view(state.found@[i as int]));
        assert(all[i as int] == names@[i as int]@);
        let ghost old_missing = missing@;
        match &state.found[i] {
            Some(path) => {
                let ghost old_paths = paths@;
                paths.push(path.clone());
                assert(texts(paths@) =~= texts(old_paths).push(path@));
            },
            None => {
                missing.push(names[i].as_str());
                assert(Seq::new(missing@.len(), |j: int| missing@[j]@) =~= Seq::new(
                    old_missing.len(),
                    |j: int| old_missing[j]@,
                ).push(all[i as int]));
            },
        }
        i += 1;
    }
    if missing.len() > 0 {
        return Err(missing_text(kind, &missing));
    }
    Ok(paths)
}

/// Complaint about a search that looked at every file.
pub open spec fn finish_error(
    kind: SearchKind,
    state: Findings,
    names: Seq<Seq<char>>,
) -> Option<Seq<char>> {
    let missing = missing_upto(state.found, names, names.len());
    if missing.len() > 0 {
        Some(missing_message(kind, missing))
    } else if kind == SearchKind::Gemma3n && state.scheme is None {
        Some(MSG_NO_GRAPH_WEIGHTS@)
    } else {
        None
    }
}

/// The paths are those that a search found, in the order of the names.
pub open spec fn are_found(outcome: Search, names: Seq<Seq<char>>, paths: Seq<Seq<char>>) -> bool {
    &&& outcome matches Search::Found(state)
    &&& paths.len() == names.len()
    &&& forall|i: int| 0 <= i < names.len() ==> state.found[i] == Some(#[trigger] paths[i])
}

/// The message with which a search ends.
pub open spec fn ends_with_message(
    kind: SearchKind,
    outcome: Search,
    names: Seq<Seq<char>>,
    message: Seq<char>,
) -> bool {
    match outcome {
        Search::Found(state) => finish_error(kind, state, names) == Some(message),
        _ => search_refuses(outcome, message),
    }
}

/// The file of each language weight of a Molmo2 checkpoint; every weight has to be in
/// exactly one file.
pub fn resolve_molmo2_weight_sources(files: &Vec<ShardFile<'_>>, names: &Vec<String>) -> (r: Result<
    Vec<String>,
    String,
>)
    ensures
        ({
            let outcome = search(SearchKind::Molmo2, files@, texts(names@));
            match r {
                Ok(paths) => are_found(outcome, texts(names@), texts(paths@)) && finish_error(
                    SearchKind::Molmo2,
                    outcome->Found_0,
                    texts(names@),
                ) is None,
                Err(message) => ends_with_message(
                    SearchKind::Molmo2,
                    outcome,
                    texts(names@),
                    message@,
                ),
            }
        }),
{
    let state = match search_all(SearchKind::Molmo2, files, names) {
        Ok(state) => state,
        Err(message) => return Err(message),
    };
    finish_search(SearchKind::Molmo2, &state, names)
}

/// The file of each weight of a Molmo2 vision tower; every weight has to be in exactly
/// one file.
pub(crate) fn resolve_vision_shards(files: &Vec<ShardFile<'_>>, names: &Vec<String>) -> (r: Result<
    Vec<String>,
    String,
>)
    ensures
        ({
            let outcome = search(SearchKind::Vision, files@, texts(names@));
            match r {
                Ok(paths) => are_found(outcome, texts(names@), texts(paths@)) && finish_error(
                    SearchKind::Vision,
                    outcome->Found_0,
                    texts(names@),
                ) is None,
                Err(message) => ends_with_message(
                    SearchKind::Vision,
                    outcome,
                    texts(names@),
                    message@,
                ),
            }
        }),
{
    let state = match search_all(SearchKind::Vision, files, names) {
        Ok(state) => state,
        Err(message) => return Err(message),
    };
    finish_search(SearchKind::Vision, &state, names)
}

/// The file of each weight of a Gemma3n checkpoint and the one spelling that all names
/// have.
pub fn resolve_gemma3n_weight_sources(files: &Vec<ShardFile<'_>>, names: &Vec<String>) -> (r:
    Result<(Vec<String>, Gemma3nCheckpointNames), String>)
    ensures
        ({
            let outcome = search(SearchKind::Gemma3n, files@, texts(names@));
            match r {
                Ok(answer) => are_found(outcome, texts(names@), texts(answer.0@)) && finish_error(
                    SearchKind::Gemma3n,
                    outcome->Found_0,
                    texts(names@),
                ) is None && outcome->Found_0.scheme == Some(answer.1),
                Err(message) => ends_with_message(
                    SearchKind::Gemma3n,
                    outcome,
                    texts(names@),
                    message@,
                ),
            }
        }),
{
    let state = match search_all(SearchKind::Gemma3n, files, names) {
        Ok(state) => state,
        Err(message) => return Err(message),
    };
    let paths = match finish_search(SearchKind::Gemma3n, &state, names) {
        Ok(paths) => paths,
        Err(message) => return Err(message),
    };
    match state.scheme {
        Some(scheme) => Ok((paths, scheme)),
        None => Err(MSG_NO_GRAPH_WEIGHTS.to_owned()),
    }
}

/// The name under which a file holds a weight.
pub open spec fn stored_name(
    kind: SearchKind,
    scheme: Option<Gemma3nCheckpointNames>,
    name: Seq<char>,
) -> Option<Seq<char>> {
    match kind {
        SearchKind::Molmo2 => Some(wrapped_name(name)),
        SearchKind::Vision => Some(name),
        SearchKind::Gemma3n => spelled(scheme, name),
    }
}

/// A file holds a weight under the spelling.
pub open spec fn holds(
    kind: SearchKind,
    file: ShardFile<'_>,
    scheme: Option<Gemma3nCheckpointNames>,
    name: Seq<char>,
) -> bool {
    &&& file.bytes matches Ok(bytes)
    &&& file_tensors(bytes@) matches Some(tensors)
    &&& stored_name(kind, scheme, name) matches Some(stored)
    &&& tensors.contains_key(stored)
}

/// What was found lies in one of the first `n` files, under the spelling.
pub open spec fn found_there(
    kind: SearchKind,
    files: Seq<ShardFile<'_>>,
    n: int,
    names: Seq<Seq<char>>,
    state: Findings,
) -> bool {
    &&& state.found.len() == names.len()
    &&& forall|i: int|
        0 <= i < names.len() && (#[trigger] state.found[i]) is Some ==> exists|k: int|
            0 <= k < n && (#[trigger] files[k]).path@ == state.found[i].unwrap() && holds(
                kind,
                files[k],
                state.scheme,
                names[i],
            )
    &&& kind == SearchKind::Gemma3n && state.scheme is None ==> forall|i: int|
        0 <= i < names.len() ==> (#[trigger] state.found[i]) is None
}

proof fn lemma_search_names(
    kind: SearchKind,
    files: Seq<ShardFile<'_>>,
    k: int,
    names: Seq<Seq<char>>,
    from: int,
    state: Findings,
)
    requires
        0 <= k < files.len(),
        0 <= from <= names.len(),
        files[k].bytes is Ok,
        file_tensors(files[k].bytes->Ok_0@) is Some,
        found_there(kind, files, k + 1, names, state),
    ensures
        search_names(
            kind,
            file_tensors(files[k].bytes->Ok_0@).unwrap(),
            files[k].path@,
            names,
            from,
            state,
        ) matches Search::Found(next) ==> found_there(kind, files, k + 1, names, next),
    decreases names.len() - from,
{
    let tensors = file_tensors(files[k].bytes->Ok_0@).unwrap();
    let path = files[k].path@;
    if from < names.len() {
        match sighting(kind, tensors, path, names[from]) {
            Sighting::Absent => {
                lemma_search_names(kind, files, k, names, from + 1, state);
            },
            Sighting::Here(observed) => {
                if state.found[from] is None && !(observed is Some && state.scheme is Some
                    && observed != state.scheme) {
                    let next = Findings {
                        found: state.found.update(from, Some(path)),
                        scheme: if observed is Some {
                            observed
                        } else {
                            state.scheme
                        },
                    };
                    assert forall|i: int|
                        0 <= i < names.len() && (#[trigger] next.found[i]) is Some implies exists|
                        j: int,
                    |
                        0 <= j < k + 1 && (#[trigger] files[j]).path@ == next.found[i].unwrap()
                            && holds(kind, files[j], next.scheme, names[i]) by {
                        if i == from {
                            assert(holds(kind, files[k], next.scheme, names[i]));
                        } else {
                            assert(state.found[i] is Some);
                            let j = choose|j: int|
                                0 <= j < k + 1 && (#[trigger] files[j]).path@
                                    == state.found[i].unwrap() && holds(
                                    kind,
                                    files[j],
                                    state.scheme,
                                    names[i],
                                );
                            assert(holds(kind, files[j], next.scheme, names[i]));
                        }
                    }
                    assert(found_there(kind, files, k + 1, names, next));
                    lemma_search_names(kind, files, k, names, from + 1, next);
                }
            },
            _ => {},
        }
    }
}

proof fn lemma_search_files(
    kind: SearchKind,
    files: Seq<ShardFile<'_>>,
    from: int,
    names: Seq<Seq<char>>,
    state: Findings,
)
    requires
        0 <= from <= files.len(),
        found_there(kind, files, from, names, state),
    ensures
        search_files(kind, files, from, names, state) matches Search::Found(last) ==> found_there(
            kind,
            files,
            files.len() as int,
            names,
            last,
        ),
    decreases files.len() - from,
{
    if from < files.len() && files[from].bytes is Ok && file_tensors(
        files[from].bytes->Ok_0@,
    ) is Some {
        assert forall|i: int|
            0 <= i < names.len() && (#[trigger] state.found[i]) is Some implies exists|j: int|
            0 <= j < from + 1 && (#[trigger] files[j]).path@ == state.found[i].unwrap() && holds(
                kind,
                files[j],
                state.scheme,
                names[i],
            ) by {
            let j = choose|j: int|
                0 <= j < from && (#[trigger] files[j]).path@ == state.found[i].unwrap() && holds(
                    kind,
                    files[j],
                    state.scheme,
                    names[i],
                );
            assert(0 <= j < from + 1 && files[j].path@ == state.found[i].unwrap());
        }
        lemma_search_names(kind, files, from, names, 0, state);
        let tensors = file_tensors(files[from].bytes->Ok_0@).unwrap();
        if let Search::Found(next) = search_names(
            kind,
            tensors,
            files[from].path@,
            names,
            0,
            state,
        ) {
            lemma_search_files(kind, files, from + 1, names, next);
        }
    }
}

/// A search that answers leads every weight to a file that holds it, and all of them
/// under one spelling.
pub proof fn law_resolved_weights_are_there(
    kind: SearchKind,
    files: Seq<ShardFile<'_>>,
    names: Seq<Seq<char>>,
    paths: Seq<Seq<char>>,
    i: int,
)
    requires
        are_found(search(kind, files, names), names, paths),
        0 <= i < names.len(),
    ensures
        exists|k: int|
            0 <= k < files.len() && (#[trigger] files[k]).path@ == paths[i] && holds(
                kind,
                files[k],
                search(kind, files, names)->Found_0.scheme,
                names[i],
            ),
{
    let start = nothing_found(names.len());
    assert(found_there(kind, files, 0, names, start));
    lemma_search_files(kind, files, 0, names, start);
    let last = search(kind, files, names)->Found_0;
    assert(last.found[i] == Some(paths[i]));
}

} // verus!
