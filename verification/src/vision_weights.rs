//! The weights of the vision tower, and the identities of what is made of them.
use vstd::prelude::*;

use crate::affine::{widen, widened};
use crate::checkpoint::{
    are_found, ends_with_message, finish_error, resolve_vision_shards, safetensors_among,
    safetensors_files, search, SearchKind, ShardFile,
};
use crate::loader::{format_of, read_format};
use crate::molmo2_config::{weight_views, Molmo2VisionWeightSpec, VisionWeightView};
use crate::paths::{group_paths, grouped};
use crate::problem::ProblemView;
use crate::tensors::{
    file_tensors, find_tensor, not_found, not_found_text, read_tensors, tensors_in, TensorView,
};
use crate::text::{
    ascending, debug_form, debug_text, has_prefix, hex, hex_text, is_trimmed, list_form, list_text,
    text_eq, texts, trimmed,
};
use crate::vision_input::{finite, finite_error};
use crate::weight_loading::{
    file_at, find_file, indices, is_load_order, lemma_grouped_files, lemma_order_is_injective,
    load_order, LoadFailure,
};

verus! {

/// The SHA-256 digest of bytes.
pub uninterp spec fn sha256_of(bytes: Seq<u8>) -> Seq<u8>;

/// `Sha256::digest`: the digest depends on the bytes alone and has 32 bytes.
#[verifier::external_body]
fn digest_bytes(bytes: &[u8]) -> (r: Vec<u8>)
    ensures
        r@ == sha256_of(bytes@),
        r@.len() == 32,
{
    <sha2::Sha256 as sha2::Digest>::digest(bytes).to_vec()
}

/// Bytes in hexadecimal, two digits each.
pub open spec fn hex_of(bytes: Seq<u8>) -> Seq<char>
    decreases bytes.len(),
{
    if bytes.len() == 0 {
        ""@
    } else {
        hex_of(bytes.drop_last()) + hex(bytes.last() as nat, 2)
    }
}

/// Bytes in hexadecimal, two digits each.
pub fn hex_bytes(bytes: &[u8]) -> (r: String)
    ensures
        r@ == hex_of(bytes@),
{
    let mut out: String = "".to_owned();
    let mut i: usize = 0;
    assert(bytes@.subrange(0, 0) =~= Seq::<u8>::empty());
    while i < bytes.len()
        invariant
            i <= bytes@.len(),
            out@ == hex_of(bytes@.subrange(0, i as int)),
        decreases bytes@.len() - i,
    {
        let ghost next = bytes@.subrange(0, i + 1);
        assert(next.drop_last() =~= bytes@.subrange(0, i as int));
        assert(next.last() == bytes@[i as int]);
        out = out.concat(&hex_text(bytes[i] as u64, 2));
        i += 1;
    }
    assert(bytes@.subrange(0, i as int) =~= bytes@);
    out
}

/// The SHA-256 digest of bytes in hexadecimal.
pub fn sha256(bytes: &[u8]) -> (r: String)
    ensures
        r@ == hex_of(sha256_of(bytes@)),
{
    let digest = digest_bytes(bytes);
    hex_bytes(digest.as_slice())
}

/// The quoted forms of flags with commas between them.
pub open spec fn quoted(flags: Seq<&str>, n: nat) -> Seq<char>
    decreases n,
{
    if n == 0 {
        ""@
    } else if n == 1 {
        debug_form(flags[0]@)
    } else {
        quoted(flags, (n - 1) as nat) + ", "@ + debug_form(flags[n - 1]@)
    }
}

fn quoted_text(flags: &Vec<&str>) -> (r: String)
    ensures
        r@ == quoted(flags@, flags@.len()),
{
    let mut out: String = "".to_owned();
    let mut i: usize = 0;
    while i < flags.len()
        invariant
            i <= flags@.len(),
            out@ == quoted(flags@, i as nat),
        decreases flags@.len() - i,
    {
        if i == 0 {
            out = debug_text(flags[i]);
        } else {
            out = out.concat(", ").concat(&debug_text(flags[i]));
        }
        i += 1;
    }
    out
}

/// What a compiler said of its version.
#[derive(Debug)]
pub struct VersionReport {
    pub succeeded: bool,
    pub stdout: String,
    pub stderr: String,
}

/// The identity of a compilation: the compiler by path, contents and version, its flags
/// and the graph.
pub open spec fn is_generation(
    compiler: Seq<char>,
    bytes: Seq<u8>,
    version: Seq<char>,
    flags: Seq<&str>,
    mlir: Seq<char>,
    identity: Seq<char>,
) -> bool {
    exists|shown: Seq<char>| #[trigger]
        is_trimmed(version, shown) && identity == "compiler="@ + compiler + ";compiler_sha256="@
            + hex_of(sha256_of(bytes)) + ";version="@ + shown + ";flags=["@ + quoted(
            flags,
            flags.len(),
        ) + "];mlir_sha256="@ + hex_of(sha256_of(vstd::utf8::encode_utf8(mlir)))
}

/// The identity of a compilation, by a compiler that told its version and whose contents
/// could be read. The version is shown without the white space around it.
pub fn generation_identity(
    compiler: &str,
    version: &VersionReport,
    contents: Result<&[u8], String>,
    flags: &Vec<&str>,
    mlir: &str,
) -> (r: Result<String, String>)
    ensures
        if !version.succeeded {
            r matches Err(message) && message@ == compiler@ + " --version failed: "@
                + version.stderr@
        } else {
            match contents {
                Err(error) => r matches Err(message) && message@ == error@,
                Ok(bytes) => r matches Ok(identity) && is_generation(
                    compiler@,
                    bytes@,
                    version.stdout@,
                    flags@,
                    mlir@,
                    identity@,
                ),
            }
        },
{
    if !version.succeeded {
        return Err(
            compiler.to_owned().concat(" --version failed: ").concat(version.stderr.as_str()),
        );
    }
    let bytes = match contents {
        Ok(bytes) => bytes,
        Err(message) => return Err(message),
    };
    let shown = trimmed(version.stdout.as_str());
    assert(is_trimmed(version.stdout@, shown@));
    Ok(
        "compiler=".to_owned().concat(compiler).concat(";compiler_sha256=").concat(
            &sha256(bytes),
        ).concat(";version=").concat(shown).concat(";flags=[").concat(&quoted_text(flags)).concat(
            "];mlir_sha256=",
        ).concat(&sha256(mlir.as_bytes())),
    )
}

/// The identity of a graph over a checkpoint: the tower's fingerprint, the diagnostics
/// where there are any, and the digest of the checkpoint's schema.
pub fn artifact_identity(fingerprint: &str, diagnostics: Option<&str>, schema: &str) -> (r: String)
    ensures
        r@ == fingerprint@ + (match diagnostics {
            Some(identity) => ";diagnostics="@ + identity@,
            None => ""@,
        }) + ";checkpoint_schema_sha256="@ + hex_of(sha256_of(vstd::utf8::encode_utf8(schema@))),
{
    let graph = match diagnostics {
        Some(identity) => ";diagnostics=".to_owned().concat(identity),
        None => "".to_owned(),
    };
    fingerprint.to_owned().concat(&graph).concat(";checkpoint_schema_sha256=").concat(
        &sha256(schema.as_bytes()),
    )
}

/// The safetensors files of a checkpoint directory, in ascending order.
pub fn model_shards(path: &str, listing: &Vec<String>) -> (r: Result<Vec<String>, String>)
    ensures
        match r {
            Ok(shards) => {
                &&& safetensors_among(texts(listing@)) != Set::<Seq<char>>::empty()
                &&& ascending(texts(shards@))
                &&& texts(shards@).to_set() == safetensors_among(texts(listing@))
            },
            Err(message) => safetensors_among(texts(listing@)) == Set::<Seq<char>>::empty()
                && message@ == "no safetensors checkpoint shards found in "@ + path@,
        },
{
    let shards = safetensors_files(listing);
    if shards.len() == 0 {
        assert(texts(shards@).to_set() =~= Set::<Seq<char>>::empty());
        return Err("no safetensors checkpoint shards found in ".to_owned().concat(path));
    }
    proof {
        let first = texts(shards@)[0];
        assert(texts(shards@).to_set().contains(first));
        assert(!Set::<Seq<char>>::empty().contains(first));
    }
    Ok(shards)
}

/// The file of each weight of the tower.
pub fn resolve_shards(files: &Vec<ShardFile<'_>>, specs: &Vec<Molmo2VisionWeightSpec>) -> (r:
    Result<Vec<String>, String>)
    ensures
        ({
            let names = spec_names(weight_views(specs@));
            let outcome = search(
                SearchKind::Vision,
                files@,
                names,
            );
            match r {
                Ok(paths) => are_found(outcome, names, texts(paths@)) && finish_error(
                    SearchKind::Vision,
                    outcome->Found_0,
                    names,
                ) is None,
                Err(message) => ends_with_message(
                    SearchKind::Vision,
                    outcome,
                    names,
                    message@,
                ),
            }
        }),
{
    let mut names: Vec<String> = Vec::new();
    let mut i: usize = 0;
    while i < specs.len()
        invariant
            i <= specs@.len(),
            names@.len() == i,
            forall|j: int| 0 <= j < i ==> (#[trigger] names@[j])@ == specs@[j].name@,
        decreases specs@.len() - i,
    {
        names.push(specs[i].name.clone());
        i += 1;
    }
    assert(texts(names@) =~= spec_names(weight_views(specs@)));
    resolve_vision_shards(files, &names)
}

/// The names of weights.
pub open spec fn spec_names(specs: Seq<VisionWeightView>) -> Seq<Seq<char>> {
    Seq::new(specs.len(), |i: int| specs[i].name)
}

/// A loaded weight of the tower; values are bits of singles.
#[derive(Debug)]
pub struct VisionWeight {
    pub name: String,
    pub values: Vec<u32>,
    pub shape: Vec<usize>,
}

/// The label of a weight in messages.
pub open spec fn tensor_label(name: Seq<char>) -> Seq<char> {
    "Molmo2 vision tensor "@ + name
}

/// Complaint about a tensor of an opened file.
pub open spec fn tensor_error(tensors: Map<Seq<char>, TensorView>, spec: VisionWeightView) -> Option<
    Seq<char>,
> {
    let t = tensors[spec.name];
    if !tensors.contains_key(spec.name) {
        Some("load Molmo2 vision tensor "@ + spec.name + ": "@ + not_found(spec.name))
    } else if t.shape != spec.shape {
        Some(
            tensor_label(spec.name) + " has shape "@ + list_form(t.shape) + ", expected "@
                + list_form(spec.shape),
        )
    } else {
        match format_of(t.dtype) {
            None => Some(tensor_label(spec.name) + " has unsupported dtype "@ + t.dtype),
            Some(format) => finite_error(tensor_label(spec.name), widened(format, t.data)),
        }
    }
}

/// Why a weight does not load from the file at `path`.
pub open spec fn vision_failure(
    files: Seq<ShardFile<'_>>,
    path: Seq<char>,
    spec: VisionWeightView,
) -> Option<LoadFailure> {
    match files[file_at(files, path, 0)].bytes {
        Err(message) => Some(LoadFailure::Known(ProblemView::Refused(message@))),
        Ok(bytes) => match file_tensors(bytes@) {
            None => Some(LoadFailure::Unparsed("parse "@ + path + ": "@)),
            Some(tensors) => match tensor_error(tensors, spec) {
                Some(message) => Some(LoadFailure::Known(ProblemView::Refused(message))),
                None => None,
            },
        },
    }
}

/// The first failure when weights are read in `order` from position `from` on.
pub open spec fn first_vision_failure(
    files: Seq<ShardFile<'_>>,
    paths: Seq<Seq<char>>,
    specs: Seq<VisionWeightView>,
    order: Seq<int>,
    from: int,
) -> Option<LoadFailure>
    decreases order.len() - from,
{
    if from < 0 || from >= order.len() {
        None
    } else {
        match vision_failure(files, paths[order[from]], specs[order[from]]) {
            Some(failure) => Some(failure),
            None => first_vision_failure(files, paths, specs, order, from + 1),
        }
    }
}

/// The tensor of a weight.
pub open spec fn tensor_at(
    files: Seq<ShardFile<'_>>,
    path: Seq<char>,
    spec: VisionWeightView,
) -> TensorView {
    file_tensors(files[file_at(files, path, 0)].bytes->Ok_0@).unwrap()[spec.name]
}

/// A weight is the widened tensor under its name and shape.
pub open spec fn is_vision_weight(t: TensorView, spec: VisionWeightView, w: VisionWeight) -> bool {
    &&& w.name@ == spec.name
    &&& w.shape@ == spec.shape
    &&& w.values@ == widened(format_of(t.dtype).unwrap(), t.data)
}

/// The line of a weight in the checkpoint's schema.
pub open spec fn schema_line(t: TensorView, spec: VisionWeightView) -> Seq<char> {
    spec.name + ":"@ + t.dtype + ":"@ + list_form(t.shape)
}

/// The first `n` lines with line breaks between them.
pub open spec fn on_lines(lines: Seq<Seq<char>>, n: nat) -> Seq<char>
    decreases n,
{
    if n == 0 {
        ""@
    } else if n == 1 {
        lines[0]
    } else {
        on_lines(lines, (n - 1) as nat) + "\n"@ + lines[n - 1]
    }
}

/// The schema lines of all weights.
pub open spec fn schema_lines(
    files: Seq<ShardFile<'_>>,
    paths: Seq<Seq<char>>,
    specs: Seq<VisionWeightView>,
) -> Seq<Seq<char>> {
    Seq::new(
        specs.len(),
        |i: int| schema_line(tensor_at(files, paths[i], specs[i]), specs[i]),
    )
}

/// The outcome of loading the tower's weights in `order`.
pub open spec fn vision_outcome(
    files: Seq<ShardFile<'_>>,
    paths: Seq<Seq<char>>,
    specs: Seq<VisionWeightView>,
    order: Seq<int>,
    r: Result<(Vec<VisionWeight>, String), String>,
) -> bool {
    match first_vision_failure(files, paths, specs, order, 0) {
        None => r matches Ok(loaded) && loaded.0@.len() == specs.len() && (forall|i: int|
            0 <= i < specs.len() ==> is_vision_weight(
                tensor_at(files, paths[i], specs[i]),
                specs[i],
                #[trigger] loaded.0@[i],
            )) && loaded.1@ == on_lines(schema_lines(files, paths, specs), specs.len()),
        Some(LoadFailure::Known(problem)) => r matches Err(message) && problem
            == ProblemView::Refused(message@),
        Some(LoadFailure::Unparsed(prefix)) => r matches Err(message) && has_prefix(
            message@,
            prefix,
        ),
    }
}

fn same_sizes(a: &Vec<usize>, b: &Vec<usize>) -> (r: bool)
    ensures
        r == (a@ == b@),
{
    if a.len() != b.len() {
        return false;
    }
    let mut i: usize = 0;
    while i < a.len()
        invariant
            i <= a@.len(),
            a@.len() == b@.len(),
            forall|j: int| 0 <= j < i ==> a@[j] == b@[j],
        decreases a@.len() - i,
    {
        if a[i] != b[i] {
            return false;
        }
        i += 1;
    }
    assert(a@ =~= b@);
    true
}

fn load_tensor(file: &safetensors::SafeTensors<'_>, spec: &Molmo2VisionWeightSpec) -> (r: Result<
    (VisionWeight, String),
    String,
>)
    ensures
        match r {
            Ok(loaded) => {
                let t = tensors_in(*file)[spec@.name];
                &&& tensor_error(tensors_in(*file), spec@) is None
                &&& is_vision_weight(t, spec@, loaded.0)
                &&& loaded.1@ == schema_line(t, spec@)
            },
            Err(message) => tensor_error(tensors_in(*file), spec@) == Some(message@),
        },
{
    let name = spec.name.as_str();
    let t = match find_tensor(file, name) {
        Some(t) => t,
        None => return Err(
            "load Molmo2 vision tensor ".to_owned().concat(name).concat(": ").concat(
                &not_found_text(name),
            ),
        ),
    };
    let label = "Molmo2 vision tensor ".to_owned().concat(name);
    if !same_sizes(&t.shape, &spec.shape) {
        return Err(
            label.concat(" has shape ").concat(&list_text(t.shape.as_slice())).concat(
                ", expected ",
            ).concat(&list_text(spec.shape.as_slice())),
        );
    }
    let format = match read_format(t.dtype.as_str()) {
        Some(format) => format,
        None => return Err(label.concat(" has unsupported dtype ").concat(t.dtype.as_str())),
    };
    let values = widen(format, t.data);
    match finite(label.as_str(), values.as_slice()) {
        Ok(_) => {},
        Err(message) => return Err(message),
    }
    let line = name.to_owned().concat(":").concat(t.dtype.as_str()).concat(":").concat(
        &list_text(t.shape.as_slice()),
    );
    Ok((VisionWeight { name: name.to_owned(), values, shape: t.shape }, line))
}

fn join_lines(lines: &Vec<String>) -> (r: String)
    ensures
        r@ == on_lines(texts(lines@), lines@.len()),
{
    let ghost all = texts(lines@);
    let mut out: String = "".to_owned();
    let mut i: usize = 0;
    while i < lines.len()
        invariant
            i <= lines@.len(),
            all == texts(lines@),
            out@ == on_lines(all, i as nat),
        decreases lines@.len() - i,
    {
        assert(all[i as int] == lines@[i as int]@);
        if i == 0 {
            out = lines[i].clone();
        } else {
            out = out.concat("\n").concat(lines[i].as_str());
        }
        i += 1;
    }
    out
}

/// A slot holds a loaded weight and its schema line.
spec fn is_slot(t: TensorView, spec: VisionWeightView, slot: Option<(VisionWeight, String)>) -> bool {
    slot matches Some(loaded) && is_vision_weight(t, spec, loaded.0) && loaded.1@ == schema_line(
        t,
        spec,
    )
}

/// Load the weights of the tower, files in the order of their paths.
fn load_in_order(
    files: &Vec<ShardFile<'_>>,
    paths: &Vec<String>,
    specs: &Vec<Molmo2VisionWeightSpec>,
) -> (r: Result<(Vec<VisionWeight>, String), String>)
    requires
        paths@.len() == specs@.len(),
        forall|i: int|
            0 <= i < paths@.len() ==> file_at(files@, #[trigger] texts(paths@)[i], 0)
                < files@.len(),
    ensures
        exists|order: Seq<int>|
            is_load_order(texts(paths@), paths@.len() as int, order) && #[trigger] vision_outcome(
                files@,
                texts(paths@),
                weight_views(specs@),
                order,
                r,
            ),
{
    let ghost all = texts(paths@);
    let ghost views = weight_views(specs@);
    let read_order = load_order(paths);
    let ghost order = indices(read_order@);
    let n: usize = specs.len();
    assert forall|j: int| 0 <= j < n implies #[trigger] read_order@[j] < n by {
        assert(order[j] == read_order@[j]);
    }
    let mut slots: Vec<Option<(VisionWeight, String)>> = Vec::new();
    let mut i: usize = 0;
    while i < n
        invariant
            i <= n,
            slots@.len() == i,
        decreases n - i,
    {
        slots.push(None);
        i += 1;
    }
    let mut k: usize = 0;
    while k < n
        invariant
            k <= n,
            read_order@.len() == n,
            forall|j: int| 0 <= j < n ==> #[trigger] read_order@[j] < n,
            n == specs@.len(),
            n == paths@.len(),
            slots@.len() == n,
            all == texts(paths@),
            views == weight_views(specs@),
            order == indices(read_order@),
            is_load_order(all, n as int, order),
            forall|j: int| 0 <= j < n ==> file_at(files@, #[trigger] all[j], 0) < files@.len(),
            first_vision_failure(files@, all, views, order, 0) == first_vision_failure(
                files@,
                all,
                views,
                order,
                k as int,
            ),
            forall|j: int|
                0 <= j < k ==> is_slot(
                    tensor_at(files@, all[order[j]], views[order[j]]),
                    views[order[j]],
                    slots@[#[trigger] order[j]],
                ),
        decreases n - k,
    {
        assert(order[k as int] == read_order@[k as int]);
        let first: usize = read_order[k];
        let path = paths[first].as_str();
        assert(all[first as int] == path@);
        let at = find_file(files, path);
        let bytes = match &files[at].bytes {
            Ok(bytes) => *bytes,
            Err(message) => {
                let r = Err(message.clone());
                assert(vision_outcome(files@, all, views, order, r));
                return r;
            },
        };
        let file = match read_tensors(bytes) {
            Ok(file) => file,
            Err(error) => {
                let prefix = "parse ".to_owned().concat(path).concat(": ");
                let ghost expected = prefix@;
                let message = prefix.concat(error.as_str());
                assert(message@.subrange(0, expected.len() as int) =~= expected);
                let r = Err(message);
                assert(vision_outcome(files@, all, views, order, r));
                return r;
            },
        };
        let ghost tensors = tensors_in(file);
        let ghost start = k;
        while k < n && text_eq(paths[read_order[k]].as_str(), path)
            invariant
                start <= k <= n,
                start < n,
                read_order@.len() == n,
                forall|j: int| 0 <= j < n ==> #[trigger] read_order@[j] < n,
                n == specs@.len(),
                n == paths@.len(),
                slots@.len() == n,
                all == texts(paths@),
                views == weight_views(specs@),
                order == indices(read_order@),
                is_load_order(all, n as int, order),
                at == file_at(files@, path@, 0),
                at < files@.len(),
                files@[at as int].bytes matches Ok(b) && b@ == bytes@,
                file_tensors(bytes@) == Some(tensors),
                tensors == tensors_in(file),
                all[order[start as int]] == path@,
                first_vision_failure(files@, all, views, order, 0) == first_vision_failure(
                    files@,
                    all,
                    views,
                    order,
                    k as int,
                ),
                forall|j: int|
                    0 <= j < k ==> is_slot(
                        tensor_at(files@, all[order[j]], views[order[j]]),
                        views[order[j]],
                        slots@[#[trigger] order[j]],
                    ),
            decreases n - k,
        {
            assert(order[k as int] == read_order@[k as int]);
            let i: usize = read_order[k];
            assert(all[i as int] == path@);
            let spec = &specs[i];
            assert(views[i as int] == spec@);
            assert(vision_failure(files@, all[i as int], views[i as int]) == match tensor_error(
                tensors,
                spec@,
            ) {
                Some(message) => Some(LoadFailure::Known(ProblemView::Refused(message))),
                None => None,
            });
            let loaded = match load_tensor(&file, spec) {
                Ok(loaded) => loaded,
                Err(message) => {
                    let r = Err(message);
                    assert(vision_outcome(files@, all, views, order, r));
                    return r;
                },
            };
            let ghost old_slots = slots@;
            assert(tensor_at(files@, all[i as int], views[i as int]) == tensors[spec@.name]);
            slots.set(i, Some(loaded));
            proof {
                assert forall|j: int| 0 <= j < k + 1 implies is_slot(
                    tensor_at(files@, all[order[j]], views[order[j]]),
                    views[order[j]],
                    slots@[#[trigger] order[j]],
                ) by {
                    if j < k {
                        lemma_order_is_injective(all, n as int, order, j, k as int);
                        assert(slots@[order[j]] == old_slots[order[j]]);
                    }
                }
            }
            k += 1;
        }
    }
    let ghost filled = slots@;
    assert forall|i: int| 0 <= i < n implies is_slot(
        tensor_at(files@, all[i], views[i]),
        views[i],
        #[trigger] filled[i],
    ) by {
        assert(order.contains(i));
        let j = choose|j: int| 0 <= j < order.len() && order[j] == i;
        assert(is_slot(
            tensor_at(files@, all[order[j]], views[order[j]]),
            views[order[j]],
            filled[order[j]],
        ));
    }
    let mut weights: Vec<VisionWeight> = Vec::new();
    let mut lines: Vec<String> = Vec::new();
    for slot in it: slots
        invariant
            it.seq() == filled,
            filled.len() == n,
            forall|i: int|
                0 <= i < n ==> is_slot(
                    tensor_at(files@, all[i], views[i]),
                    views[i],
                    #[trigger] filled[i],
                ),
            weights@.len() == it.index(),
            lines@.len() == it.index(),
            forall|i: int|
                0 <= i < it.index() ==> is_vision_weight(
                    tensor_at(files@, all[i], views[i]),
                    views[i],
                    #[trigger] weights@[i],
                ),
            forall|i: int|
                0 <= i < it.index() ==> (#[trigger] lines@[i])@ == schema_line(
                    tensor_at(files@, all[i], views[i]),
                    views[i],
                ),
    {
        assert(filled[it.index() as int] == slot);
        if let Some((weight, line)) = slot {
            weights.push(weight);
            lines.push(line);
        }
    }
    assert(views.len() == n);
    assert(texts(lines@) =~= schema_lines(files@, all, views));
    let schema = join_lines(&lines);
    let r = Ok((weights, schema));
    assert(vision_outcome(files@, all, views, order, r));
    r
}

/// Load the weights of the tower and the schema of their checkpoint. `paths` gives the
/// file of each weight; paths with the same components are one file, spelled as it first
/// is. Files are read in ascending order of their paths, each once.
pub fn load_weights(
    files: &Vec<ShardFile<'_>>,
    paths: &Vec<String>,
    specs: &Vec<Molmo2VisionWeightSpec>,
) -> (r: Result<(Vec<VisionWeight>, String), String>)
    requires
        paths@.len() == specs@.len(),
        forall|i: int|
            0 <= i < paths@.len() ==> file_at(files@, #[trigger] texts(paths@)[i], 0)
                < files@.len(),
    ensures
        exists|order: Seq<int>|
            is_load_order(grouped(texts(paths@)), paths@.len() as int, order)
                && #[trigger] vision_outcome(
                files@,
                grouped(texts(paths@)),
                weight_views(specs@),
                order,
                r,
            ),
{
    let spelled = group_paths(paths);
    proof {
        lemma_grouped_files(files@, texts(paths@));
    }
    load_in_order(files, &spelled, specs)
}

} // verus!
