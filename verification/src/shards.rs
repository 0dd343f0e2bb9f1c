//! The shard files of a checkpoint directory: which ones to load, and how many bytes of
//! weights they hold.
//!
//! A directory is given as what a listing shows of it ([`ModelDir`]); shards are named
//! by their file names.
use vstd::prelude::*;
use vstd::slice::slice_subrange;

use crate::json::{
    json_entries, json_error_text, json_items, json_of_bytes, json_of_text, parse_json,
    parse_json_bytes, Json, JsonView,
};
use crate::paths::{sort_paths, sorted_paths};
use crate::text::{
    ascending, dec, ends_with, has_suffix, insert_name, size_text, text_eq,
    texts,
};

verus! {

/// The largest safetensors header that is read: 256 MiB.
pub const MAX_HEADER_BYTES: u64 = 0x1000_0000;

pub const MSG_NO_WEIGHT_MAP: &'static str = "Missing \"weight_map\" key or not an object";

pub const MSG_NO_SHARDS: &'static str = "No shard filenames found in weight_map";

/// The index file of a directory.
#[derive(Debug)]
pub enum IndexFile {
    Absent,
    /// Reading it failed with this message.
    Unreadable(String),
    Text(String),
}

/// One entry of a directory.
#[derive(Debug)]
pub struct DirEntry {
    pub name: String,
    /// A symbolic link whose target does not exist.
    pub broken: bool,
    /// The first bytes of the file, its whole header among them; empty when the file
    /// cannot be read.
    pub bytes: Vec<u8>,
}

/// What a listing shows of a checkpoint directory.
#[derive(Debug)]
pub struct ModelDir {
    /// The directory, as messages show it.
    pub path: String,
    /// The path of the index file, as messages show it.
    pub index_path: String,
    pub index: IndexFile,
    /// The entries that are known to be there.
    pub entries: Vec<DirEntry>,
    /// The message with which listing the directory failed, if it did.
    pub listing_error: Option<String>,
}

/// The text values of an object.
pub open spec fn text_values(entries: Seq<(Seq<char>, JsonView)>) -> Set<Seq<char>> {
    Set::new(|s: Seq<char>| exists|i: int| 0 <= i < entries.len() && #[trigger] entries[i].1
        == JsonView::Text(s))
}

/// The `metadata.total_size` of an index.
pub open spec fn total_size_of(index: JsonView) -> Option<u64> {
    match index.get("metadata"@) {
        Some(metadata) => metadata.get_u64("total_size"@),
        None => None,
    }
}

/// Complaint about an index document.
pub open spec fn index_error(index: JsonView) -> Option<Seq<char>> {
    match index.get("weight_map"@) {
        Some(JsonView::Object(entries)) => if text_values(entries) == Set::<Seq<char>>::empty() {
            Some(MSG_NO_SHARDS@)
        } else {
            None
        },
        _ => Some(MSG_NO_WEIGHT_MAP@),
    }
}

/// The shards that an index names: in ascending order, each once.
pub open spec fn are_index_shards(index: JsonView, shards: Seq<Seq<char>>) -> bool {
    &&& ascending(shards)
    &&& shards.to_set() == text_values(index.get("weight_map"@).unwrap()->Object_0)
}

/// The outcome of reading an index document.
pub open spec fn index_outcome(
    index: JsonView,
    r: Result<(Vec<String>, Option<u64>), String>,
) -> bool {
    match r {
        Ok(v) => index_error(index) is None && are_index_shards(index, texts(v.0@)) && v.1
            == total_size_of(index),
        Err(message) => index_error(index) == Some(message@),
    }
}

/// The shards and the total size that an index document states.
pub fn shards_of_index(index: &Json) -> (r: Result<(Vec<String>, Option<u64>), String>)
    ensures
        index_outcome(index@, r),
{
    let total_size = match index.get("metadata") {
        Some(metadata) => metadata.get_u64("total_size"),
        None => None,
    };
    let entries = match index.get("weight_map") {
        Some(map) => match map.as_object() {
            Some(entries) => entries,
            None => return Err(MSG_NO_WEIGHT_MAP.to_owned()),
        },
        None => return Err(MSG_NO_WEIGHT_MAP.to_owned()),
    };
    let ghost views = json_entries(entries@);
    let mut shards: Vec<String> = Vec::new();
    let mut i: usize = 0;
    proof {
        assert(texts(shards@) =~= Seq::<Seq<char>>::empty());
        assert(texts(shards@).to_set() =~= text_values(views.subrange(0, 0)));
    }
    while i < entries.len()
        invariant
            i <= entries.len(),
            views == json_entries(entries@),
            ascending(texts(shards@)),
            texts(shards@).to_set() == text_values(views.subrange(0, i as int)),
        decreases entries.len() - i,
    {
        let ghost before = text_values(views.subrange(0, i as int));
        let ghost after = text_values(views.subrange(0, i + 1));
        proof {
            let old_views = views.subrange(0, i as int);
            let new_views = views.subrange(0, i + 1);
            assert(new_views[i as int] == views[i as int]);
            assert forall|s: Seq<char>| after.contains(s) == (before.contains(s) || views[i as int].1
                == JsonView::Text(s)) by {
                if before.contains(s) {
                    let k = choose|k: int| 0 <= k < old_views.len() && old_views[k].1
                        == JsonView::Text(s);
                    assert(new_views[k].1 == JsonView::Text(s));
                }
                if after.contains(s) {
                    let k = choose|k: int| 0 <= k < new_views.len() && new_views[k].1
                        == JsonView::Text(s);
                    if k < i {
                        assert(old_views[k].1 == JsonView::Text(s));
                    }
                }
            }
        }
        match entries[i].1.as_text() {
            Some(name) => {
                assert(after =~= before.insert(name@));
                insert_name(&mut shards, name.to_owned());
            },
            None => {
                assert(after =~= before);
            },
        }
        i += 1;
    }
    assert(views.subrange(0, i as int) =~= views);
    if shards.len() == 0 {
        assert(texts(shards@).to_set() =~= Set::<Seq<char>>::empty());
        return Err(MSG_NO_SHARDS.to_owned());
    }
    assert(texts(shards@).to_set().contains(texts(shards@)[0]));
    Ok((shards, total_size))
}

/// The shards and the total size that an index text states.
pub fn extract_shards_and_total_size(json: &str) -> (r: Result<(Vec<String>, Option<u64>), String>)
    ensures
        match json_of_text(json@) {
            None => r matches Err(message) && message@ == "Invalid JSON: "@ + json_error_text(json@),
            Some(index) => index_outcome(index, r),
        },
{
    match parse_json(json) {
        Ok(index) => shards_of_index(&index),
        Err(message) => Err("Invalid JSON: ".to_owned().concat(&message)),
    }
}

/// The shards that an index text names.
pub fn extract_shards_from_index_json(json: &str) -> (r: Result<Vec<String>, String>)
    ensures
        match json_of_text(json@) {
            None => r matches Err(message) && message@ == "Invalid JSON: "@ + json_error_text(json@),
            Some(index) => match r {
                Ok(shards) => index_error(index) is None && are_index_shards(index, texts(shards@)),
                Err(message) => index_error(index) == Some(message@),
            },
        },
{
    match extract_shards_and_total_size(json) {
        Ok((shards, _)) => Ok(shards),
        Err(message) => Err(message),
    }
}

/// Complaint about the index file of a directory.
pub open spec fn index_file_error(dir: ModelDir) -> Option<Seq<char>> {
    match dir.index {
        IndexFile::Absent => None,
        IndexFile::Unreadable(message) => Some(
            "Failed to read "@ + dir.index_path@ + ": "@ + message@,
        ),
        IndexFile::Text(text) => match json_of_text(text@) {
            None => Some(
                "Failed to parse "@ + dir.index_path@ + ": "@ + ("Invalid JSON: "@
                    + json_error_text(text@)),
            ),
            Some(index) => match index_error(index) {
                Some(message) => Some(
                    "Failed to parse "@ + dir.index_path@ + ": "@ + message,
                ),
                None => None,
            },
        },
    }
}

/// The index document of a directory.
pub open spec fn index_document(dir: ModelDir) -> JsonView {
    json_of_text(dir.index->Text_0@).unwrap()
}

/// The shards and the total size that the index file of a directory states; `None` when
/// there is no index file.
pub fn parse_shard_index_with_total_size(dir: &ModelDir) -> (r: Result<
    Option<(Vec<String>, Option<u64>)>,
    String,
>)
    ensures
        match r {
            Ok(None) => dir.index is Absent,
            Ok(Some(v)) => {
                &&& dir.index is Text && index_file_error(*dir) is None
                &&& are_index_shards(index_document(*dir), texts(v.0@))
                &&& v.0@.len() > 0
                &&& v.1 == total_size_of(index_document(*dir))
            },
            Err(message) => index_file_error(*dir) == Some(message@),
        },
{
    match &dir.index {
        IndexFile::Absent => Ok(None),
        IndexFile::Unreadable(message) => Err(
            "Failed to read ".to_owned().concat(dir.index_path.as_str()).concat(": ").concat(
                message.as_str(),
            ),
        ),
        IndexFile::Text(text) => match extract_shards_and_total_size(text.as_str()) {
            Ok((shards, total)) => {
                proof {
                    if shards@.len() == 0 {
                        assert(texts(shards@).to_set() =~= Set::<Seq<char>>::empty());
                    }
                }
                Ok(Some((shards, total)))
            },
            Err(message) => Err(
                "Failed to parse ".to_owned().concat(dir.index_path.as_str()).concat(": ").concat(
                    message.as_str(),
                ),
            ),
        },
    }
}

/// The shards that the index file of a directory names; `None` when there is no index
/// file.
pub fn parse_shard_index(dir: &ModelDir) -> (r: Result<Option<Vec<String>>, String>)
    ensures
        match r {
            Ok(None) => dir.index is Absent,
            Ok(Some(shards)) => {
                &&& dir.index is Text && index_file_error(*dir) is None
                &&& are_index_shards(index_document(*dir), texts(shards@))
                &&& shards@.len() > 0
            },
            Err(message) => index_file_error(*dir) == Some(message@),
        },
{
    match parse_shard_index_with_total_size(dir) {
        Ok(Some((shards, _))) => Ok(Some(shards)),
        Ok(None) => Ok(None),
        Err(message) => Err(message),
    }
}

/// A plain file name: no path separator, no parent directory, no NUL.
pub open spec fn is_plain_name(name: Seq<char>) -> bool {
    &&& name.len() > 0
    &&& name != ".."@
    &&& !name.contains('/') && !name.contains('\0')
}

/// Whether a name is a plain file name.
pub fn plain_name(name: &str) -> (r: bool)
    ensures
        r == is_plain_name(name@),
{
    if text_eq(name, "..") {
        return false;
    }
    let n: usize = name.unicode_len();
    let mut i: usize = 0;
    while i < n
        invariant
            i <= n,
            n == name@.len(),
            forall|j: int| 0 <= j < i ==> name@[j] != '/' && name@[j] != '\0',
        decreases n - i,
    {
        let c = name.get_char(i);
        if c == '/' || c == '\0' {
            assert(name@.contains(c));
            return false;
        }
        i += 1;
    }
    n > 0
}

/// The names of the entries.
pub open spec fn entry_names(entries: Seq<DirEntry>) -> Seq<Seq<char>> {
    entries.map_values(|e: DirEntry| e.name@)
}

/// The first name of a list that is not plain.
pub open spec fn first_invalid(names: Seq<Seq<char>>, from: int) -> Option<Seq<char>>
    decreases names.len() - from,
{
    if from < 0 || from >= names.len() {
        None
    } else if !is_plain_name(names[from]) {
        Some(names[from])
    } else {
        first_invalid(names, from + 1)
    }
}

/// The names of a list that are not among `present`, in order.
pub open spec fn absent_names(names: Seq<Seq<char>>, present: Seq<Seq<char>>) -> Seq<Seq<char>> {
    names.filter(|n: Seq<char>| !present.contains(n))
}

/// Names on lines of their own.
pub open spec fn on_lines(names: Seq<Seq<char>>) -> Seq<char>
    decreases names.len(),
{
    if names.len() == 0 {
        Seq::empty()
    } else if names.len() == 1 {
        names[0]
    } else {
        on_lines(names.drop_last()) + "\n  "@ + names.last()
    }
}

/// Complaint about the shards that an index names, among the entries `present` of the
/// directory `path`.
pub open spec fn shards_error(
    path: Seq<char>,
    shards: Seq<Seq<char>>,
    present: Seq<Seq<char>>,
) -> Option<Seq<char>> {
    if first_invalid(shards, 0) is Some {
        Some(
            "Invalid shard filename in model.safetensors.index.json: \""@ + first_invalid(
                shards,
                0,
            ).unwrap() + "\"\nShard names must be plain filenames without path separators."@,
        )
    } else if absent_names(shards, present).len() > 0 {
        Some(
            "Missing shard file(s) referenced in model.safetensors.index.json:\n  "@ + on_lines(
                absent_names(shards, present),
            ) + "\nRe-download the model with:\n  huggingface-cli download <model-id> --local-dir "@
                + path,
        )
    } else {
        None
    }
}

pub(crate) fn find_entry<'a>(entries: &'a Vec<DirEntry>, name: &str) -> (r: Option<&'a DirEntry>)
    ensures
        match r {
            Some(e) => entry_of(entries@, name@, 0) == Some(*e) && e.name@ == name@ && entry_names(
                entries@,
            ).contains(name@),
            None => entry_of(entries@, name@, 0) is None && !entry_names(entries@).contains(name@),
        },
{
    let mut i: usize = 0;
    while i < entries.len()
        invariant
            i <= entries.len(),
            entry_of(entries@, name@, 0) == entry_of(entries@, name@, i as int),
            forall|j: int| 0 <= j < i ==> (#[trigger] entry_names(entries@)[j]) != name@,
        decreases entries.len() - i,
    {
        if text_eq(entries[i].name.as_str(), name) {
            assert(entry_names(entries@)[i as int] == name@);
            return Some(&entries[i]);
        }
        i += 1;
    }
    None
}

/// The first entry with a name, from `from` on.
pub open spec fn entry_of(entries: Seq<DirEntry>, name: Seq<char>, from: int) -> Option<DirEntry>
    decreases entries.len() - from,
{
    if from < 0 || from >= entries.len() {
        None
    } else if entries[from].name@ == name {
        Some(entries[from])
    } else {
        entry_of(entries, name, from + 1)
    }
}

fn lines_text(names: &Vec<String>) -> (r: String)
    ensures
        r@ == on_lines(texts(names@)),
{
    let mut out = String::new();
    let mut i: usize = 0;
    let ghost views = texts(names@);
    assert(views.subrange(0, 0) =~= Seq::<Seq<char>>::empty());
    while i < names.len()
        invariant
            i <= names.len(),
            views == texts(names@),
            out@ == on_lines(views.subrange(0, i as int)),
        decreases names.len() - i,
    {
        proof {
            let next = views.subrange(0, i + 1);
            assert(next.drop_last() =~= views.subrange(0, i as int));
            assert(next.last() == names@[i as int]@);
        }
        if i > 0 {
            out.append("\n  ");
        }
        out.append(names[i].as_str());
        i += 1;
        assert(out@ =~= on_lines(views.subrange(0, i as int)));
    }
    assert(views.subrange(0, i as int) =~= views);
    out
}

/// Check the shards that an index names against the entries of the directory `path`:
/// each is a plain file name and present. Returns them sorted.
pub fn validate_index_shards(path: &str, shard_names: &Vec<String>, entries: &Vec<DirEntry>) -> (r:
    Result<Vec<String>, String>)
    ensures
        ({
            let error = shards_error(path@, texts(shard_names@), entry_names(entries@));
            match r {
                Ok(paths) => {
                    &&& error is None
                    &&& sorted_paths(texts(paths@))
                    &&& texts(paths@).to_multiset() == texts(shard_names@).to_multiset()
                    &&& forall|i: int|
                        0 <= i < paths@.len() ==> is_plain_name(#[trigger] texts(paths@)[i])
                            && entry_names(entries@).contains(texts(paths@)[i])
                },
                Err(message) => error == Some(message@),
            }
        }),
{
    let ghost names = texts(shard_names@);
    let ghost present = entry_names(entries@);
    let ghost is_missing = |n: Seq<char>| !present.contains(n);
    let mut missing: Vec<String> = Vec::new();
    let mut paths: Vec<String> = Vec::new();
    let mut i: usize = 0;
    proof {
        assert(texts(missing@) =~= names.subrange(0, 0).filter(is_missing)) by {
            reveal(Seq::filter);
        }
    }
    while i < shard_names.len()
        invariant
            i <= shard_names.len(),
            names == texts(shard_names@),
            present == entry_names(entries@),
            is_missing == (|n: Seq<char>| !present.contains(n)),
            first_invalid(names, 0) == first_invalid(names, i as int),
            texts(missing@) == names.subrange(0, i as int).filter(is_missing),
            missing@.len() == 0 ==> texts(paths@) == names.subrange(0, i as int),
            forall|k: int|
                0 <= k < paths@.len() ==> is_plain_name(#[trigger] texts(paths@)[k])
                    && present.contains(texts(paths@)[k]),
        decreases shard_names.len() - i,
    {
        let name = shard_names[i].as_str();
        assert(names[i as int] == name@);
        if !plain_name(name) {
            return Err(
                "Invalid shard filename in model.safetensors.index.json: \"".to_owned().concat(
                    name,
                ).concat("\"\nShard names must be plain filenames without path separators."),
            );
        }
        let ghost taken = names.subrange(0, i as int);
        let ghost old_missing = texts(missing@);
        let ghost old_paths = texts(paths@);
        proof {
            reveal(Seq::filter);
            let next = names.subrange(0, i + 1);
            assert(next.drop_last() =~= taken);
            assert(next.last() == name@);
            assert(next =~= taken.push(name@));
        }
        if find_entry(entries, name).is_none() {
            missing.push(name.to_owned());
            assert(texts(missing@) =~= old_missing.push(name@));
        } else {
            paths.push(name.to_owned());
            assert(texts(paths@) =~= old_paths.push(name@));
            assert forall|k: int| 0 <= k < paths@.len() implies is_plain_name(
                #[trigger] texts(paths@)[k],
            ) && present.contains(texts(paths@)[k]) by {
                if k < old_paths.len() {
                    assert(texts(paths@)[k] == old_paths[k]);
                }
            }
        }
        i += 1;
    }
    assert(names.subrange(0, i as int) =~= names);
    assert(absent_names(names, present) == names.filter(is_missing));
    if missing.len() > 0 {
        return Err(
            "Missing shard file(s) referenced in model.safetensors.index.json:\n  ".to_owned().concat(
            lines_text(&missing).as_str()).concat(
                "\nRe-download the model with:\n  huggingface-cli download <model-id> --local-dir ",
            ).concat(path),
        );
    }
    let ghost unsorted = texts(paths@);
    let out = sort_paths(paths);
    proof {
        assert forall|k: int| 0 <= k < out@.len() implies is_plain_name(#[trigger] texts(out@)[k])
            && present.contains(texts(out@)[k]) by {
            let x = texts(out@)[k];
            texts(out@).to_multiset_ensures();
            unsorted.to_multiset_ensures();
            assert(texts(out@).contains(x));
            assert(texts(out@).to_multiset().count(x) > 0);
            assert(unsorted.contains(x));
            let m = choose|m: int| 0 <= m < unsorted.len() && unsorted[m] == x;
            assert(is_plain_name(unsorted[m]));
        }
    }
    Ok(out)
}

/// A file name with the `safetensors` extension.
pub open spec fn is_safetensors(name: Seq<char>) -> bool {
    has_suffix(name, ".safetensors"@) && name.len() > ".safetensors"@.len()
}

/// The safetensors files of a directory, sorted.
pub fn glob_safetensors(entries: &Vec<DirEntry>) -> (r: Vec<String>)
    ensures
        sorted_paths(texts(r@)),
        texts(r@).to_multiset() == entry_names(entries@).filter(
            |n: Seq<char>| is_safetensors(n),
        ).to_multiset(),
{
    let ghost names = entry_names(entries@);
    let ghost wanted = |n: Seq<char>| is_safetensors(n);
    let mut found: Vec<String> = Vec::new();
    let mut i: usize = 0;
    proof {
        assert(texts(found@) =~= names.subrange(0, 0).filter(wanted)) by {
            reveal(Seq::filter);
        }
    }
    while i < entries.len()
        invariant
            i <= entries.len(),
            names == entry_names(entries@),
            wanted == (|n: Seq<char>| is_safetensors(n)),
            texts(found@) == names.subrange(0, i as int).filter(wanted),
        decreases entries.len() - i,
    {
        let name = entries[i].name.as_str();
        let ghost old_found = texts(found@);
        proof {
            reveal(Seq::filter);
            let next = names.subrange(0, i + 1);
            assert(next.drop_last() =~= names.subrange(0, i as int));
            assert(next.last() == name@);
        }
        if ends_with(name, ".safetensors") && name.unicode_len() > ".safetensors".unicode_len() {
            found.push(name.to_owned());
            assert(texts(found@) =~= old_found.push(name@));
        }
        i += 1;
    }
    assert(names.subrange(0, i as int) =~= names);
    sort_paths(found)
}

/// The shards that the index of a directory names, in ascending order.
pub open spec fn index_shards(dir: ModelDir) -> Seq<Seq<char>> {
    choose|s: Seq<Seq<char>>| are_index_shards(index_document(dir), s)
}

proof fn lemma_index_shards(dir: ModelDir, shards: Seq<Seq<char>>)
    requires
        are_index_shards(index_document(dir), shards),
    ensures
        index_shards(dir) == shards,
{
    crate::text::lemma_ascending_unique(index_shards(dir), shards);
}

/// The index of a directory names plain files that are all there.
pub open spec fn trusts_index(dir: ModelDir) -> bool {
    &&& dir.index is Text && index_file_error(dir) is None
    &&& shards_error(dir.path@, index_shards(dir), entry_names(dir.entries@)) is None
}

/// The safetensors files of a directory, in the order of its listing.
pub open spec fn safetensors_names(dir: ModelDir) -> Seq<Seq<char>> {
    entry_names(dir.entries@).filter(|n: Seq<char>| is_safetensors(n))
}

/// The shard files of a directory: those of a trusted index, else all safetensors files.
pub open spec fn candidates(dir: ModelDir) -> Seq<Seq<char>> {
    if trusts_index(dir) {
        index_shards(dir)
    } else {
        safetensors_names(dir)
    }
}

/// `list` holds the same names as `names`, in order.
pub open spec fn is_sorted_form(names: Seq<Seq<char>>, list: Seq<Seq<char>>) -> bool {
    sorted_paths(list) && list.to_multiset() == names.to_multiset()
}

/// The named entry is a link without a target.
pub open spec fn is_broken(entries: Seq<DirEntry>, name: Seq<char>) -> bool {
    entry_of(entries, name, 0) matches Some(e) && e.broken
}

/// All of the names are links without a target.
pub open spec fn all_broken(entries: Seq<DirEntry>, names: Seq<Seq<char>>) -> bool {
    forall|i: int| 0 <= i < names.len() ==> is_broken(entries, #[trigger] names[i])
}

/// Complaint about the shard files of a directory.
pub open spec fn collect_error(dir: ModelDir) -> Option<Seq<char>> {
    if index_file_error(dir) is Some {
        index_file_error(dir)
    } else if !trusts_index(dir) && dir.index is Text && (dir.listing_error is Some
        || safetensors_names(dir).len() == 0) {
        shards_error(dir.path@, index_shards(dir), entry_names(dir.entries@))
    } else if !trusts_index(dir) && dir.listing_error is Some {
        Some("Failed to read directory: "@ + dir.listing_error.unwrap()@)
    } else if candidates(dir).len() == 0 {
        Some("No safetensors files found in directory: "@ + dir.path@)
    } else if all_broken(dir.entries@, candidates(dir)) {
        Some(
            "All "@ + dec(candidates(dir).len()) + " safetensors file(s) in "@ + dir.path@
                + " are broken symlinks.\nRe-download the model with:\n  huggingface-cli download <model-id> --local-dir "@
                + dir.path@,
        )
    } else {
        None
    }
}

/// `paths` are the shard files to load: the candidates in order, without broken links.
pub open spec fn are_loadable(dir: ModelDir, paths: Seq<Seq<char>>) -> bool {
    exists|list: Seq<Seq<char>>|
        #[trigger] is_sorted_form(candidates(dir), list) && paths == list.filter(
            |n: Seq<char>| !is_broken(dir.entries@, n),
        )
}

proof fn lemma_same_members(a: Seq<Seq<char>>, b: Seq<Seq<char>>, entries: Seq<DirEntry>)
    requires
        a.to_multiset() == b.to_multiset(),
    ensures
        a.len() == b.len(),
        all_broken(entries, a) == all_broken(entries, b),
{
    a.to_multiset_ensures();
    b.to_multiset_ensures();
    assert forall|i: int| 0 <= i < a.len() implies b.contains(#[trigger] a[i]) by {
        assert(a.to_multiset().count(a[i]) > 0);
    }
    assert forall|i: int| 0 <= i < b.len() implies a.contains(#[trigger] b[i]) by {
        assert(b.to_multiset().count(b[i]) > 0);
    }
    if all_broken(entries, a) {
        assert forall|i: int| 0 <= i < b.len() implies is_broken(entries, #[trigger] b[i]) by {
            assert(a.contains(b[i]));
            let k = choose|k: int| 0 <= k < a.len() && a[k] == b[i];
            assert(is_broken(entries, a[k]));
        }
    }
    if all_broken(entries, b) {
        assert forall|i: int| 0 <= i < a.len() implies is_broken(entries, #[trigger] a[i]) by {
            assert(b.contains(a[i]));
            let k = choose|k: int| 0 <= k < b.len() && b[k] == a[i];
            assert(is_broken(entries, b[k]));
        }
    }
}

/// The files to consider before broken links are dropped.
fn candidate_list(dir: &ModelDir) -> (r: Result<Vec<String>, String>)
    ensures
        match r {
            Ok(list) => {
                &&& index_file_error(*dir) is None
                &&& trusts_index(*dir) || (dir.listing_error is None && (dir.index is Text
                    ==> safetensors_names(*dir).len() > 0))
                &&& is_sorted_form(candidates(*dir), texts(list@))
            },
            Err(message) => {
                &&& collect_error(*dir) == Some(message@)
                &&& index_file_error(*dir) is Some || !trusts_index(*dir)
            },
        },
{
    match parse_shard_index(dir) {
        Err(message) => Err(message),
        Ok(None) => match &dir.listing_error {
            Some(message) => Err(
                "Failed to read directory: ".to_owned().concat(message.as_str()),
            ),
            None => Ok(glob_safetensors(&dir.entries)),
        },
        Ok(Some(shards)) => {
            proof {
                lemma_index_shards(*dir, texts(shards@));
            }
            match validate_index_shards(dir.path.as_str(), &shards, &dir.entries) {
                Ok(paths) => Ok(paths),
                Err(message) => {
                    if dir.listing_error.is_some() {
                        return Err(message);
                    }
                    let globbed = glob_safetensors(&dir.entries);
                    proof {
                        lemma_same_members(
                            texts(globbed@),
                            safetensors_names(*dir),
                            dir.entries@,
                        );
                    }
                    if globbed.len() > 0 {
                        Ok(globbed)
                    } else {
                        Err(message)
                    }
                },
            }
        },
    }
}

/// The shard files to load from a directory. A trusted index names them; a stale or
/// missing index leaves all safetensors files. Links without a target are dropped; it is
/// an error when there is no file, or none but such links.
pub fn collect_shard_paths(dir: &ModelDir) -> (r: Result<Vec<String>, String>)
    ensures
        match r {
            Ok(paths) => {
                &&& collect_error(*dir) is None
                &&& are_loadable(*dir, texts(paths@))
                &&& paths@.len() > 0
            },
            Err(message) => collect_error(*dir) == Some(message@),
        },
{
    let list = match candidate_list(dir) {
        Ok(list) => list,
        Err(message) => return Err(message),
    };
    let ghost names = texts(list@);
    if list.len() == 0 {
        proof {
            lemma_same_members(names, candidates(*dir), dir.entries@);
        }
        return Err(
            "No safetensors files found in directory: ".to_owned().concat(dir.path.as_str()),
        );
    }
    let ghost sound = |n: Seq<char>| !is_broken(dir.entries@, n);
    let mut valid: Vec<String> = Vec::new();
    let mut broken: usize = 0;
    let mut i: usize = 0;
    proof {
        lemma_same_members(names, candidates(*dir), dir.entries@);
        assert(texts(valid@) =~= names.subrange(0, 0).filter(sound)) by {
            reveal(Seq::filter);
        }
    }
    while i < list.len()
        invariant
            i <= list.len(),
            names == texts(list@),
            sound == (|n: Seq<char>| !is_broken(dir.entries@, n)),
            texts(valid@) == names.subrange(0, i as int).filter(sound),
            valid@.len() + broken == i,
            valid@.len() == 0 ==> all_broken(dir.entries@, names.subrange(0, i as int)),
            valid@.len() > 0 ==> !all_broken(dir.entries@, names.subrange(0, i as int)),
        decreases list.len() - i,
    {
        let name = list[i].as_str();
        let ghost old_valid = texts(valid@);
        let ghost taken = names.subrange(0, i as int);
        let ghost next = names.subrange(0, i + 1);
        proof {
            reveal(Seq::filter);
            assert(next.drop_last() =~= taken);
            assert(next.last() == name@);
            if all_broken(dir.entries@, next) {
                assert forall|k: int| 0 <= k < taken.len() implies is_broken(
                    dir.entries@,
                    #[trigger] taken[k],
                ) by {
                    assert(taken[k] == next[k]);
                }
            }
            assert(next[i as int] == name@);
        }
        let is_link = match find_entry(&dir.entries, name) {
            Some(entry) => entry.broken,
            None => false,
        };
        if is_link {
            broken += 1;
            proof {
                if all_broken(dir.entries@, taken) {
                    assert forall|k: int| 0 <= k < next.len() implies is_broken(
                        dir.entries@,
                        #[trigger] next[k],
                    ) by {
                        if k < i {
                            assert(taken[k] == next[k]);
                        }
                    }
                }
            }
        } else {
            valid.push(name.to_owned());
            assert(texts(valid@) =~= old_valid.push(name@));
            assert(!is_broken(dir.entries@, next[i as int]));
        }
        i += 1;
    }
    assert(names.subrange(0, i as int) =~= names);
    if valid.len() == 0 {
        return Err(
            "All ".to_owned().concat(&size_text(broken)).concat(" safetensors file(s) in ").concat(
                dir.path.as_str(),
            ).concat(
                " are broken symlinks.\nRe-download the model with:\n  huggingface-cli download <model-id> --local-dir ",
            ).concat(dir.path.as_str()),
        );
    }
    assert(is_sorted_form(candidates(*dir), names));
    Ok(valid)
}

/// Bytes per element of a safetensors dtype.
pub open spec fn itemsize_of(dtype: Seq<char>) -> Option<u64> {
    if dtype == "F64"@ || dtype == "I64"@ || dtype == "U64"@ {
        Some(8)
    } else if dtype == "F32"@ || dtype == "I32"@ || dtype == "U32"@ {
        Some(4)
    } else if dtype == "BF16"@ || dtype == "F16"@ || dtype == "I16"@ || dtype == "U16"@ {
        Some(2)
    } else if dtype == "F8_E5M2"@ || dtype == "F8_E4M3"@ || dtype == "I8"@ || dtype == "U8"@
        || dtype == "BOOL"@ {
        Some(1)
    } else {
        None
    }
}

/// Bytes per element of a safetensors dtype.
pub fn safetensors_dtype_itemsize(dtype: &str) -> (r: Option<u64>)
    ensures
        r == itemsize_of(dtype@),
{
    if text_eq(dtype, "F64") || text_eq(dtype, "I64") || text_eq(dtype, "U64") {
        Some(8)
    } else if text_eq(dtype, "F32") || text_eq(dtype, "I32") || text_eq(dtype, "U32") {
        Some(4)
    } else if text_eq(dtype, "BF16") || text_eq(dtype, "F16") || text_eq(dtype, "I16") || text_eq(
        dtype,
        "U16",
    ) {
        Some(2)
    } else if text_eq(dtype, "F8_E5M2") || text_eq(dtype, "F8_E4M3") || text_eq(dtype, "I8")
        || text_eq(dtype, "U8") || text_eq(dtype, "BOOL") {
        Some(1)
    } else {
        None
    }
}

/// A little-endian number of any length.
pub open spec fn little_endian(bytes: Seq<u8>) -> nat
    decreases bytes.len(),
{
    if bytes.len() == 0 {
        0
    } else {
        bytes[0] as nat + 256 * little_endian(bytes.drop_first())
    }
}

/// The header of a safetensors file: an 8-byte length and so many bytes of a JSON object.
pub open spec fn header_of(bytes: Seq<u8>) -> Option<Seq<(Seq<char>, JsonView)>> {
    if bytes.len() < 8 {
        None
    } else {
        let n = little_endian(bytes.subrange(0, 8));
        if n == 0 || n > MAX_HEADER_BYTES || 8 + n > bytes.len() {
            None
        } else {
            match json_of_bytes(bytes.subrange(8, 8 + n as int)) {
                Some(JsonView::Object(entries)) => Some(entries),
                _ => None,
            }
        }
    }
}

pub(crate) fn read_length(bytes: &[u8]) -> (r: u64)
    requires
        bytes@.len() >= 8,
    ensures
        r == little_endian(bytes@.subrange(0, 8)),
{
    let mut value: u128 = 0;
    let mut i: usize = 8;
    let ghost head = bytes@.subrange(0, 8);
    assert(head.subrange(8, 8) =~= Seq::<u8>::empty());
    proof {
        vstd::arithmetic::power2::lemma2_to64();
    }
    while i > 0
        invariant
            i <= 8,
            bytes@.len() >= 8,
            head == bytes@.subrange(0, 8),
            value == little_endian(head.subrange(i as int, 8)),
            i == 8 ==> value < 1,
            i == 7 ==> value < 0x100,
            i == 6 ==> value < 0x1_0000,
            i == 5 ==> value < 0x100_0000,
            i == 4 ==> value < 0x1_0000_0000,
            i == 3 ==> value < 0x100_0000_0000,
            i == 2 ==> value < 0x1_0000_0000_0000,
            i == 1 ==> value < 0x100_0000_0000_0000,
            i == 0 ==> value < 0x1_0000_0000_0000_0000,
        decreases i,
    {
        i -= 1;
        proof {
            let tail = head.subrange(i as int, 8);
            assert(tail[0] == bytes@[i as int]);
            assert(tail.drop_first() =~= head.subrange(i + 1, 8));
        }
        value = bytes[i] as u128 + 256 * value;
    }
    assert(head.subrange(0, 8) =~= head);
    value as u64
}

/// Read the header of a safetensors file.
pub fn read_safetensors_header(bytes: &[u8]) -> (r: Option<Json>)
    ensures
        match r {
            Some(header) => header_of(bytes@) is Some && header@ == JsonView::Object(
                header_of(bytes@).unwrap(),
            ),
            None => header_of(bytes@) is None,
        },
{
    let len: usize = bytes.len();
    if len < 8 {
        return None;
    }
    let n: u64 = read_length(bytes);
    if n == 0 || n > MAX_HEADER_BYTES || n > (len - 8) as u64 {
        return None;
    }
    match parse_json_bytes(slice_subrange(bytes, 8, 8 + n as usize)) {
        Some(header) => if header.as_object().is_some() {
            Some(header)
        } else {
            None
        },
        None => None,
    }
}

/// The product of a list of sizes.
pub open spec fn shape_product(shape: Seq<JsonView>) -> nat
    decreases shape.len(),
{
    if shape.len() == 0 {
        1
    } else {
        shape_product(shape.drop_last()) * shape.last().as_u64().unwrap() as nat
    }
}

/// At most what 64 bits count.
pub open spec fn capped(n: nat) -> u64 {
    if n > u64::MAX {
        u64::MAX
    } else {
        n as u64
    }
}

/// An entry of a header describes a tensor: a known dtype and a shape of sizes.
pub open spec fn is_tensor(meta: JsonView) -> bool {
    &&& meta.get_text("dtype"@) is Some
    &&& itemsize_of(meta.get_text("dtype"@).unwrap()) is Some
    &&& meta.get_array("shape"@) is Some
    &&& crate::config_json::all_sizes(meta.get_array("shape"@).unwrap())
}

/// The bytes of a tensor.
pub open spec fn tensor_bytes(meta: JsonView) -> nat {
    shape_product(meta.get_array("shape"@).unwrap()) * itemsize_of(
        meta.get_text("dtype"@).unwrap(),
    ).unwrap() as nat
}

/// All entries but the metadata describe tensors.
pub open spec fn all_tensors(entries: Seq<(Seq<char>, JsonView)>) -> bool {
    forall|i: int|
        0 <= i < entries.len() && (#[trigger] entries[i]).0 != "__metadata__"@ ==> is_tensor(
            entries[i].1,
        )
}

/// The bytes of all tensors of a header.
pub open spec fn entries_bytes(entries: Seq<(Seq<char>, JsonView)>) -> nat
    decreases entries.len(),
{
    if entries.len() == 0 {
        0
    } else {
        entries_bytes(entries.drop_last()) + if entries.last().0 == "__metadata__"@ {
            0
        } else {
            tensor_bytes(entries.last().1)
        }
    }
}

/// The bytes of weights that a safetensors file holds by its header.
pub open spec fn file_bytes(bytes: Seq<u8>) -> Option<nat> {
    match header_of(bytes) {
        Some(entries) => if all_tensors(entries) {
            Some(entries_bytes(entries))
        } else {
            None
        },
        None => None,
    }
}

fn saturating_mul(a: u64, b: u64) -> (r: u64)
    ensures
        r == capped((a * b) as nat),
{
    match a.checked_mul(b) {
        Some(n) => n,
        None => u64::MAX,
    }
}

proof fn lemma_capped_mul(a: nat, b: u64)
    ensures
        capped((capped(a) * b) as nat) == capped((a * b) as nat),
{
    if a > u64::MAX {
        if b == 0 {
            assert(a * 0 == 0);
        } else {
            assert(a * b >= a) by (nonlinear_arith)
                requires
                    b >= 1,
            ;
            assert(u64::MAX * b >= u64::MAX) by (nonlinear_arith)
                requires
                    b >= 1,
            ;
        }
    }
}

fn read_tensor_bytes(meta: &Json) -> (r: Option<u64>)
    ensures
        match r {
            Some(n) => is_tensor(meta@) && n == capped(tensor_bytes(meta@)),
            None => !is_tensor(meta@),
        },
{
    let itemsize: u64 = match meta.get_text("dtype") {
        Some(dtype) => match safetensors_dtype_itemsize(dtype) {
            Some(n) => n,
            None => return None,
        },
        None => return None,
    };
    let shape = match meta.get_array("shape") {
        Some(shape) => shape,
        None => return None,
    };
    let ghost dims = json_items(shape@);
    let mut numel: u64 = 1;
    let mut i: usize = 0;
    assert(dims.subrange(0, 0) =~= Seq::<JsonView>::empty());
    while i < shape.len()
        invariant
            i <= shape.len(),
            dims == json_items(shape@),
            meta@.get_array("shape"@) == Some(dims),
            forall|j: int| 0 <= j < i ==> (#[trigger] dims[j]).as_u64() is Some,
            numel == capped(shape_product(dims.subrange(0, i as int))),
        decreases shape.len() - i,
    {
        assert(dims[i as int] == shape@[i as int]@);
        match shape[i].as_u64() {
            Some(n) => {
                proof {
                    let next = dims.subrange(0, i + 1);
                    assert(next.drop_last() =~= dims.subrange(0, i as int));
                    assert(next.last() == dims[i as int]);
                    lemma_capped_mul(shape_product(dims.subrange(0, i as int)), n);
                }
                numel = saturating_mul(numel, n);
            },
            None => return None,
        }
        i += 1;
    }
    assert(dims.subrange(0, i as int) =~= dims);
    proof {
        lemma_capped_mul(shape_product(dims), itemsize);
    }
    Some(saturating_mul(numel, itemsize))
}

/// The bytes of weights in a safetensors file: dtype size times shape product over all
/// tensors of the header, capped at what 64 bits count.
pub fn read_safetensors_header_bytes(bytes: &[u8]) -> (r: Option<u64>)
    ensures
        match r {
            Some(n) => file_bytes(bytes@) is Some && n == capped(file_bytes(bytes@).unwrap()),
            None => file_bytes(bytes@) is None,
        },
{
    let header = match read_safetensors_header(bytes) {
        Some(header) => header,
        None => return None,
    };
    let entries = match header.as_object() {
        Some(entries) => entries,
        None => return None,
    };
    let ghost views = json_entries(entries@);
    let mut total: u64 = 0;
    let mut i: usize = 0;
    assert(views.subrange(0, 0) =~= Seq::<(Seq<char>, JsonView)>::empty());
    while i < entries.len()
        invariant
            i <= entries.len(),
            views == json_entries(entries@),
            header_of(bytes@) == Some(views),
            forall|j: int|
                0 <= j < i && (#[trigger] views[j]).0 != "__metadata__"@ ==> is_tensor(views[j].1),
            total == capped(entries_bytes(views.subrange(0, i as int))),
        decreases entries.len() - i,
    {
        proof {
            let next = views.subrange(0, i + 1);
            assert(next.drop_last() =~= views.subrange(0, i as int));
            assert(next.last() == views[i as int]);
        }
        if !text_eq(entries[i].0.as_str(), "__metadata__") {
            match read_tensor_bytes(&entries[i].1) {
                Some(n) => {
                    total = total.saturating_add(n);
                },
                None => {
                    assert(!is_tensor(views[i as int].1));
                    return None;
                },
            }
        }
        i += 1;
    }
    assert(views.subrange(0, i as int) =~= views);
    Some(total)
}

/// The bytes of weights in the named files together; `None` when there is no file, or one
/// without a readable header.
pub open spec fn files_bytes(entries: Seq<DirEntry>, names: Seq<Seq<char>>) -> Option<nat>
    decreases names.len(),
{
    if names.len() == 0 {
        None
    } else {
        let last = match entry_of(entries, names.last(), 0) {
            Some(e) => file_bytes(e.bytes@),
            None => None,
        };
        if names.len() == 1 {
            last
        } else {
            match (files_bytes(entries, names.drop_last()), last) {
                (Some(a), Some(b)) => Some(a + b),
                _ => None,
            }
        }
    }
}

fn sum_safetensors_header_bytes(entries: &Vec<DirEntry>, names: &Vec<String>) -> (r: Option<u64>)
    ensures
        match r {
            Some(n) => files_bytes(entries@, texts(names@)) is Some && n == capped(
                files_bytes(entries@, texts(names@)).unwrap(),
            ),
            None => files_bytes(entries@, texts(names@)) is None,
        },
{
    if names.len() == 0 {
        return None;
    }
    let ghost views = texts(names@);
    let mut total: u64 = 0;
    let mut i: usize = 0;
    while i < names.len()
        invariant
            i <= names.len(),
            views == texts(names@),
            i == 0 ==> total == 0,
            i > 0 ==> files_bytes(entries@, views.subrange(0, i as int)) is Some && total == capped(
                files_bytes(entries@, views.subrange(0, i as int)).unwrap(),
            ),
        decreases names.len() - i,
    {
        let ghost next = views.subrange(0, i + 1);
        proof {
            assert(next.drop_last() =~= views.subrange(0, i as int));
            assert(next.last() == names@[i as int]@);
        }
        let part = match find_entry(entries, names[i].as_str()) {
            Some(entry) => read_safetensors_header_bytes(entry.bytes.as_slice()),
            None => None,
        };
        match part {
            Some(n) => {
                total = total.saturating_add(n);
            },
            None => {
                assert(files_bytes(entries@, next) is None);
                proof {
                    lemma_missing_stays_missing(entries@, views, (i + 1) as nat);
                }
                return None;
            },
        }
        i += 1;
    }
    assert(views.subrange(0, i as int) =~= views);
    Some(total)
}

proof fn lemma_missing_stays_missing(entries: Seq<DirEntry>, names: Seq<Seq<char>>, n: nat)
    requires
        0 < n <= names.len(),
        files_bytes(entries, names.subrange(0, n as int)) is None,
    ensures
        files_bytes(entries, names) is None,
    decreases names.len() - n,
{
    if n == names.len() {
        assert(names.subrange(0, n as int) =~= names);
    } else {
        let next = names.subrange(0, n as int + 1);
        assert(next.drop_last() =~= names.subrange(0, n as int));
        lemma_missing_stays_missing(entries, names, n + 1);
    }
}

/// The bytes of weights of a trusted index: what it states, else what the headers say.
pub open spec fn indexed_bytes(dir: ModelDir, list: Seq<Seq<char>>) -> Option<u64> {
    if trusts_index(dir) {
        match total_size_of(index_document(dir)) {
            Some(n) => Some(n),
            None => match files_bytes(dir.entries@, list) {
                Some(n) => Some(capped(n)),
                None => None,
            },
        }
    } else {
        None
    }
}

/// The bytes of weights without an index: the header of `model.safetensors` where that
/// file is there, else all safetensors files.
pub open spec fn unindexed_bytes(dir: ModelDir, list: Seq<Seq<char>>) -> Option<u64> {
    let single = entry_of(dir.entries@, "model.safetensors"@, 0);
    let found = if single matches Some(e) && !e.broken {
        file_bytes(single.unwrap().bytes@)
    } else if dir.listing_error is Some {
        None
    } else {
        files_bytes(dir.entries@, list)
    };
    match found {
        Some(n) => Some(capped(n)),
        None => None,
    }
}

/// The bytes of weights that loading a directory would bring, before anything is loaded.
/// A trusted index is asked first, by its stated size or its shards' headers.
pub fn weight_footprint_bytes(dir: &ModelDir) -> (r: Option<u64>)
    ensures
        exists|indexed: Seq<Seq<char>>, globbed: Seq<Seq<char>>|
            #![trigger indexed_bytes(*dir, indexed), unindexed_bytes(*dir, globbed)]
            {
                &&& trusts_index(*dir) ==> is_sorted_form(index_shards(*dir), indexed)
                &&& is_sorted_form(safetensors_names(*dir), globbed)
                &&& r == (if indexed_bytes(*dir, indexed) is Some {
                    indexed_bytes(*dir, indexed)
                } else {
                    unindexed_bytes(*dir, globbed)
                })
            },
{
    let globbed = glob_safetensors(&dir.entries);
    let ghost listed = texts(globbed@);
    let ghost mut indexed: Seq<Seq<char>> = Seq::empty();
    if let Ok(Some((shards, total_size))) = parse_shard_index_with_total_size(dir) {
        proof {
            lemma_index_shards(*dir, texts(shards@));
        }
        if let Ok(paths) = validate_index_shards(dir.path.as_str(), &shards, &dir.entries) {
            proof {
                indexed = texts(paths@);
            }
            if let Some(total) = total_size {
                assert(indexed_bytes(*dir, indexed) == Some(total));
                assert(unindexed_bytes(*dir, listed) == unindexed_bytes(*dir, listed));
                return Some(total);
            }
            if let Some(total) = sum_safetensors_header_bytes(&dir.entries, &paths) {
                assert(indexed_bytes(*dir, indexed) == Some(total));
                assert(unindexed_bytes(*dir, listed) == unindexed_bytes(*dir, listed));
                return Some(total);
            }
        }
    }
    assert(indexed_bytes(*dir, indexed) is None);
    let r = match find_entry(&dir.entries, "model.safetensors") {
        Some(entry) => if !entry.broken {
            read_safetensors_header_bytes(entry.bytes.as_slice())
        } else if dir.listing_error.is_some() {
            None
        } else {
            sum_safetensors_header_bytes(&dir.entries, &globbed)
        },
        None => if dir.listing_error.is_some() {
            None
        } else {
            sum_safetensors_header_bytes(&dir.entries, &globbed)
        },
    };
    assert(r == unindexed_bytes(*dir, listed));
    r
}

/// Shards that a trusted index names are plain file names: loading never leaves the
/// directory.
pub proof fn law_indexed_shards_are_plain(dir: ModelDir, i: int)
    requires
        trusts_index(dir),
        0 <= i < index_shards(dir).len(),
    ensures
        is_plain_name(index_shards(dir)[i]),
{
    lemma_valid_from(index_shards(dir), 0, i);
}

proof fn lemma_valid_from(names: Seq<Seq<char>>, from: int, i: int)
    requires
        0 <= from <= i < names.len(),
        first_invalid(names, from) is None,
    ensures
        is_plain_name(names[i]),
    decreases i - from,
{
    if from < i {
        lemma_valid_from(names, from + 1, i);
    }
}

/// The answers of a filter to a list of names.
pub open spec fn answers<K: Fn(&String) -> bool>(
    keep: K,
    names: Seq<String>,
    flags: Seq<bool>,
) -> bool {
    &&& flags.len() == names.len()
    &&& forall|i: int|
        0 <= i < names.len() ==> call_ensures(keep, (&#[trigger] names[i],), flags[i])
}

/// The tensor names of a header.
pub open spec fn tensor_names(entries: Seq<(Seq<char>, JsonView)>) -> Seq<Seq<char>>
    decreases entries.len(),
{
    if entries.len() == 0 {
        Seq::empty()
    } else if entries.last().0 == "__metadata__"@ {
        tensor_names(entries.drop_last())
    } else {
        tensor_names(entries.drop_last()).push(entries.last().0)
    }
}

/// The header lists a tensor of that name; where there is no header every name counts.
pub open spec fn lists(header: Option<Seq<(Seq<char>, JsonView)>>, name: Seq<char>) -> bool {
    match header {
        Some(entries) => tensor_names(entries).contains(name),
        None => true,
    }
}

/// The names whose flag is set.
pub open spec fn flagged(names: Seq<Seq<char>>, flags: Seq<bool>) -> Seq<Seq<char>>
    decreases names.len(),
{
    if names.len() == 0 {
        Seq::empty()
    } else if flags.last() {
        flagged(names.drop_last(), flags.drop_last()).push(names.last())
    } else {
        flagged(names.drop_last(), flags.drop_last())
    }
}

fn header_names(header: &Json) -> (r: Vec<String>)
    requires
        header@ is Object,
    ensures
        texts(r@) == tensor_names(header@->Object_0),
{
    let mut names: Vec<String> = Vec::new();
    let entries = match header.as_object() {
        Some(entries) => entries,
        None => return names,
    };
    let ghost views = json_entries(entries@);
    let mut i: usize = 0;
    assert(views.subrange(0, 0) =~= Seq::<(Seq<char>, JsonView)>::empty());
    assert(texts(names@) =~= tensor_names(views.subrange(0, 0)));
    while i < entries.len()
        invariant
            i <= entries.len(),
            views == json_entries(entries@),
            texts(names@) == tensor_names(views.subrange(0, i as int)),
        decreases entries.len() - i,
    {
        let ghost before = texts(names@);
        proof {
            let next = views.subrange(0, i + 1);
            assert(next.drop_last() =~= views.subrange(0, i as int));
            assert(next.last() == views[i as int]);
        }
        if !text_eq(entries[i].0.as_str(), "__metadata__") {
            names.push(entries[i].0.clone());
            assert(texts(names@) =~= before.push(entries@[i as int].0@));
        }
        i += 1;
    }
    assert(views.subrange(0, i as int) =~= views);
    names
}

/// The tensors of a safetensors file that a filter keeps, by its header alone; `None` when
/// the file has no readable header. A file of which nothing is kept need not be loaded.
pub fn retained_names<K: Fn(&String) -> bool>(bytes: &[u8], keep: &K) -> (r: Option<Vec<String>>)
    requires
        forall|name: &String|
            lists(header_of(bytes@), name@) ==> #[trigger] call_requires(*keep, (name,)),
    ensures
        match r {
            None => header_of(bytes@) is None,
            Some(kept) => header_of(bytes@) is Some && exists|names: Seq<String>, flags: Seq<bool>|
                {
                    &&& texts(names) == tensor_names(header_of(bytes@).unwrap())
                    &&& #[trigger] answers(*keep, names, flags)
                    &&& texts(kept@) == flagged(texts(names), flags)
                },
        },
{
    let header = match read_safetensors_header(bytes) {
        Some(header) => header,
        None => return None,
    };
    let names = header_names(&header);
    let ghost views = texts(names@);
    let ghost mut flags: Seq<bool> = Seq::empty();
    let mut kept: Vec<String> = Vec::new();
    let mut i: usize = 0;
    assert(views.subrange(0, 0) =~= Seq::<Seq<char>>::empty());
    assert(texts(kept@) =~= flagged(views.subrange(0, 0), flags));
    while i < names.len()
        invariant
            i <= names.len(),
            views == texts(names@),
            flags.len() == i,
            header_of(bytes@) is Some && views == tensor_names(header_of(bytes@).unwrap()),
            forall|name: &String|
                lists(header_of(bytes@), name@) ==> #[trigger] call_requires(*keep, (name,)),
            forall|j: int| 0 <= j < i ==> call_ensures(*keep, (&#[trigger] names@[j],), flags[j]),
            texts(kept@) == flagged(views.subrange(0, i as int), flags),
        decreases names.len() - i,
    {
        assert(views[i as int] == names@[i as int]@);
        let flag = keep(&names[i]);
        let ghost before = texts(kept@);
        proof {
            let next = views.subrange(0, i + 1);
            assert(next.drop_last() =~= views.subrange(0, i as int));
            assert(next.last() == names@[i as int]@);
            assert(flags.push(flag).drop_last() =~= flags);
            flags = flags.push(flag);
        }
        if flag {
            kept.push(names[i].clone());
            assert(texts(kept@) =~= before.push(names@[i as int]@));
        }
        i += 1;
    }
    assert(views.subrange(0, i as int) =~= views);
    assert(answers(*keep, names@, flags));
    Some(kept)
}

proof fn lemma_widths_in_decimal()
    ensures
        dec(8) == seq!['8'],
        dec(16) == seq!['1', '6'],
        dec(32) == seq!['3', '2'],
        dec(64) == seq!['6', '4'],
{
    reveal_with_fuel(dec, 3);
    assert(dec(8) =~= seq!['8']);
    assert(dec(16) =~= seq!['1', '6']);
    assert(dec(32) =~= seq!['3', '2']);
    assert(dec(64) =~= seq!['6', '4']);
}

/// The name of an element type is a letter for its sort and the number of its bits, and its
/// size is that number of bits: integers of 8, 16, 32 and 64 bits, floats of 16, 32 and 64
/// bits, the brain float of 16 bits.
pub proof fn law_item_size_is_in_the_name(n: nat)
    ensures
        n == 8 || n == 16 || n == 32 || n == 64 ==> {
            &&& itemsize_of("I"@ + dec(n)) matches Some(size) && 8 * size == n
            &&& itemsize_of("U"@ + dec(n)) matches Some(size) && 8 * size == n
        },
        n == 16 || n == 32 || n == 64 ==> (itemsize_of("F"@ + dec(n)) matches Some(size) && 8
            * size == n),
        n == 16 ==> (itemsize_of("BF"@ + dec(n)) matches Some(size) && 8 * size == n),
{
    lemma_widths_in_decimal();
    reveal_strlit("I");
    reveal_strlit("U");
    reveal_strlit("F");
    reveal_strlit("BF");
    reveal_strlit("I8");
    reveal_strlit("I16");
    reveal_strlit("I32");
    reveal_strlit("I64");
    reveal_strlit("U8");
    reveal_strlit("U16");
    reveal_strlit("U32");
    reveal_strlit("U64");
    reveal_strlit("F16");
    reveal_strlit("F32");
    reveal_strlit("F64");
    reveal_strlit("BF16");
    reveal_strlit("F8_E5M2");
    reveal_strlit("F8_E4M3");
    reveal_strlit("BOOL");
    if n == 8 {
        assert("I"@ + dec(n) =~= "I8"@);
        assert("U"@ + dec(n) =~= "U8"@);
        assert("I8"@.len() == 2 && "U8"@.len() == 2);
    } else if n == 16 {
        assert("I"@ + dec(n) =~= "I16"@);
        assert("U"@ + dec(n) =~= "U16"@);
        assert("F"@ + dec(n) =~= "F16"@);
        assert("BF"@ + dec(n) =~= "BF16"@);
        assert("I16"@[1] == '1' && "U16"@[1] == '1' && "F16"@[1] == '1');
        assert("F64"@[1] == '6' && "I64"@[1] == '6' && "U64"@[1] == '6');
        assert("F32"@[1] == '3' && "I32"@[1] == '3' && "U32"@[1] == '3');
        assert("BF16"@.len() == 4);
    } else if n == 32 {
        assert("I"@ + dec(n) =~= "I32"@);
        assert("U"@ + dec(n) =~= "U32"@);
        assert("F"@ + dec(n) =~= "F32"@);
        assert("F64"@[1] == '6' && "I64"@[1] == '6' && "U64"@[1] == '6');
        assert("F32"@[1] == '3' && "I32"@[1] == '3' && "U32"@[1] == '3');
    } else if n == 64 {
        assert("I"@ + dec(n) =~= "I64"@);
        assert("U"@ + dec(n) =~= "U64"@);
        assert("F"@ + dec(n) =~= "F64"@);
    }
}

/// A name that has a size is one of the sixteen element types; the two 8-bit floats and the
/// truth values, whose names do not say it, have one byte.
pub proof fn law_sized_names_are_element_types(dtype: Seq<char>)
    ensures
        itemsize_of(dtype) is Some ==> {
            ||| exists|n: nat|
                (n == 8 || n == 16 || n == 32 || n == 64) && (dtype == "I"@ + #[trigger] dec(n)
                    || dtype == "U"@ + dec(n))
            ||| exists|n: nat|
                (n == 16 || n == 32 || n == 64) && dtype == "F"@ + #[trigger] dec(n)
            ||| dtype == "BF"@ + dec(16)
            ||| dtype == "F8_E5M2"@ || dtype == "F8_E4M3"@ || dtype == "BOOL"@
        },
        dtype == "F8_E5M2"@ || dtype == "F8_E4M3"@ || dtype == "BOOL"@ ==> itemsize_of(dtype)
            == Some(1u64),
{
    lemma_widths_in_decimal();
    reveal_strlit("I");
    reveal_strlit("U");
    reveal_strlit("F");
    reveal_strlit("BF");
    reveal_strlit("I8");
    reveal_strlit("I16");
    reveal_strlit("I32");
    reveal_strlit("I64");
    reveal_strlit("U8");
    reveal_strlit("U16");
    reveal_strlit("U32");
    reveal_strlit("U64");
    reveal_strlit("F16");
    reveal_strlit("F32");
    reveal_strlit("F64");
    reveal_strlit("BF16");
    reveal_strlit("F8_E5M2");
    reveal_strlit("F8_E4M3");
    reveal_strlit("BOOL");
    assert("I"@ + dec(8) =~= "I8"@);
    assert("U"@ + dec(8) =~= "U8"@);
    assert("I"@ + dec(16) =~= "I16"@);
    assert("U"@ + dec(16) =~= "U16"@);
    assert("F"@ + dec(16) =~= "F16"@);
    assert("BF"@ + dec(16) =~= "BF16"@);
    assert("I"@ + dec(32) =~= "I32"@);
    assert("U"@ + dec(32) =~= "U32"@);
    assert("F"@ + dec(32) =~= "F32"@);
    assert("I"@ + dec(64) =~= "I64"@);
    assert("U"@ + dec(64) =~= "U64"@);
    assert("F"@ + dec(64) =~= "F64"@);
    assert("BOOL"@.len() == 4 && "F8_E5M2"@.len() == 7 && "F8_E4M3"@.len() == 7);
    assert("BOOL"@[1] == 'O' && "BF16"@[1] == 'F');
}

/// The number of elements of a shape: one without dimensions, the size of a single
/// dimension, and the product of two shapes side by side.
pub proof fn law_shape_product_multiplies(a: Seq<JsonView>, b: Seq<JsonView>, size: JsonView)
    ensures
        shape_product(Seq::empty()) == 1,
        shape_product(seq![size]) == size.as_u64().unwrap(),
        shape_product(a + b) == shape_product(a) * shape_product(b),
    decreases b.len(),
{
    assert(seq![size].drop_last() =~= Seq::<JsonView>::empty());
    let one = size.as_u64().unwrap() as nat;
    assert(shape_product(seq![size]) == shape_product(Seq::<JsonView>::empty()) * one) by {
        assert(seq![size].last() == size);
    }
    assert(1 * one == one) by (nonlinear_arith);
    if b.len() == 0 {
        assert(a + b =~= a);
        let x = shape_product(a);
        assert(x * 1 == x) by (nonlinear_arith);
    } else {
        law_shape_product_multiplies(a, b.drop_last(), size);
        assert((a + b).drop_last() =~= a + b.drop_last());
        assert((a + b).last() == b.last());
        let x = shape_product(a);
        let y = shape_product(b.drop_last());
        let z = b.last().as_u64().unwrap() as nat;
        assert((x * y) * z == x * (y * z)) by (nonlinear_arith);
    }
}

/// The bytes between the two data offsets that a header states for a tensor.
pub open spec fn stated_span(meta: JsonView) -> int {
    let offsets = meta.get_array("data_offsets"@).unwrap();
    offsets[1].as_u64().unwrap() - offsets[0].as_u64().unwrap()
}

/// The offsets of a tensor leave room for its elements: as many as its shape has, each of
/// the bits that its type is named after.
pub open spec fn spans_its_elements(meta: JsonView) -> bool {
    let dtype = meta.get_text("dtype"@).unwrap();
    let elements = shape_product(meta.get_array("shape"@).unwrap());
    exists|n: nat|
        #![trigger dec(n)]
        {
            &&& n == 8 || n == 16 || n == 32 || n == 64
            &&& dtype == "I"@ + dec(n) || dtype == "U"@ + dec(n) || (n > 8 && dtype == "F"@ + dec(
                n,
            )) || (n == 16 && dtype == "BF"@ + dec(n))
            &&& 8 * stated_span(meta) == elements * n
        }
}

/// The bytes between the offsets of all tensors of a header.
pub open spec fn stated_spans(entries: Seq<(Seq<char>, JsonView)>) -> int
    decreases entries.len(),
{
    if entries.len() == 0 {
        0
    } else {
        stated_spans(entries.drop_last()) + if entries.last().0 == "__metadata__"@ {
            0
        } else {
            stated_span(entries.last().1)
        }
    }
}

/// The bytes counted for a tensor are those between its data offsets.
pub proof fn law_tensor_bytes_are_its_span(meta: JsonView)
    requires
        is_tensor(meta),
        spans_its_elements(meta),
    ensures
        tensor_bytes(meta) == stated_span(meta),
{
    let dtype = meta.get_text("dtype"@).unwrap();
    let elements = shape_product(meta.get_array("shape"@).unwrap());
    let n = choose|n: nat|
        #![trigger dec(n)]
        {
            &&& n == 8 || n == 16 || n == 32 || n == 64
            &&& dtype == "I"@ + dec(n) || dtype == "U"@ + dec(n) || (n > 8 && dtype == "F"@ + dec(
                n,
            )) || (n == 16 && dtype == "BF"@ + dec(n))
            &&& 8 * stated_span(meta) == elements * n
        };
    law_item_size_is_in_the_name(n);
    let size = itemsize_of(dtype).unwrap();
    assert(elements * n == 8 * (elements * size)) by (nonlinear_arith)
        requires
            n == 8 * size,
    ;
}

/// The bytes counted for a file are those between the data offsets of its tensors: where the
/// tensors cover the data section, its length.
pub proof fn law_footprint_is_the_data(bytes: Seq<u8>, entries: Seq<(Seq<char>, JsonView)>)
    requires
        header_of(bytes) == Some(entries),
        all_tensors(entries),
        forall|i: int|
            0 <= i < entries.len() && (#[trigger] entries[i]).0 != "__metadata__"@
                ==> spans_its_elements(entries[i].1),
    ensures
        file_bytes(bytes) is Some,
        file_bytes(bytes).unwrap() == stated_spans(entries),
{
    lemma_entries_bytes(entries);
}

proof fn lemma_entries_bytes(entries: Seq<(Seq<char>, JsonView)>)
    requires
        all_tensors(entries),
        forall|i: int|
            0 <= i < entries.len() && (#[trigger] entries[i]).0 != "__metadata__"@
                ==> spans_its_elements(entries[i].1),
    ensures
        entries_bytes(entries) == stated_spans(entries),
    decreases entries.len(),
{
    if entries.len() > 0 {
        let front = entries.drop_last();
        assert forall|i: int|
            0 <= i < front.len() && (#[trigger] front[i]).0 != "__metadata__"@ implies is_tensor(
            front[i].1,
        ) && spans_its_elements(front[i].1) by {
            assert(front[i] == entries[i]);
        }
        lemma_entries_bytes(front);
        if entries.last().0 != "__metadata__"@ {
            assert(entries[entries.len() - 1] == entries.last());
            law_tensor_bytes_are_its_span(entries.last().1);
        }
    }
}

/// The bytes of several files are those of one part of them and of the rest together; the
/// bytes of one file are those that its header states.
pub proof fn law_footprint_adds_up(entries: Seq<DirEntry>, a: Seq<Seq<char>>, b: Seq<Seq<char>>)
    requires
        a.len() > 0,
    ensures
        b.len() > 0 ==> files_bytes(entries, a + b) == (match (
            files_bytes(entries, a),
            files_bytes(entries, b),
        ) {
            (Some(x), Some(y)) => Some(x + y),
            _ => None,
        }),
        a.len() == 1 ==> files_bytes(entries, a) == (match entry_of(entries, a[0], 0) {
            Some(e) => file_bytes(e.bytes@),
            None => None,
        }),
    decreases b.len(),
{
    if b.len() > 0 {
        assert((a + b).drop_last() =~= a + b.drop_last());
        assert((a + b).last() == b.last());
        if b.len() == 1 {
            assert(a + b.drop_last() =~= a);
        } else {
            law_footprint_adds_up(entries, a, b.drop_last());
        }
    }
}

/// The length of a header is written with its low bytes first.
pub proof fn law_header_length_is_little_endian(b: Seq<u8>)
    requires
        b.len() == 8,
    ensures
        little_endian(b) == b[0] + 0x100 * b[1] + 0x1_0000 * b[2] + 0x100_0000 * b[3]
            + 0x1_0000_0000 * b[4] + 0x100_0000_0000 * b[5] + 0x1_0000_0000_0000 * b[6]
            + 0x100_0000_0000_0000 * b[7],
{
    reveal_with_fuel(little_endian, 9);
    let t1 = b.drop_first();
    let t2 = t1.drop_first();
    let t3 = t2.drop_first();
    let t4 = t3.drop_first();
    let t5 = t4.drop_first();
    let t6 = t5.drop_first();
    let t7 = t6.drop_first();
    assert(t1[0] == b[1] && t2[0] == b[2] && t3[0] == b[3] && t4[0] == b[4] && t5[0] == b[5]
        && t6[0] == b[6] && t7[0] == b[7]);
}

} // verus!
