//! What holds of the files of a model directory: how their sizes add up, which of them are
//! asked first, and which names an index may give.
use vstd::prelude::*;

use crate::shards::{
    absent_names, capped, entry_of, file_bytes, files_bytes, first_invalid, index_document,
    indexed_bytes, is_plain_name, is_safetensors, total_size_of, trusts_index, unindexed_bytes,
    DirEntry, ModelDir,
};

verus! {

/// The bytes of two lists of files together are those of both.
pub proof fn law_file_sizes_add_up(
    entries: Seq<DirEntry>,
    a: Seq<Seq<char>>,
    b: Seq<Seq<char>>,
)
    requires
        a.len() > 0,
        b.len() > 0,
    ensures
        files_bytes(entries, a + b) == match (files_bytes(entries, a), files_bytes(entries, b)) {
            (Some(x), Some(y)) => Some(x + y),
            _ => None,
        },
    decreases b.len(),
{
    let all = a + b;
    assert(all.drop_last() =~= a + b.drop_last());
    assert(all.last() == b.last());
    if b.len() == 1 {
        assert(a + b.drop_last() =~= a);
    } else {
        law_file_sizes_add_up(entries, a, b.drop_last());
    }
}

/// One file has the bytes that its own header states, and no file has none.
pub proof fn law_one_file_has_its_own_size(entries: Seq<DirEntry>, name: Seq<char>)
    ensures
        entry_of(entries, name, 0) matches Some(e) ==> files_bytes(entries, seq![name])
            == file_bytes(e.bytes@),
        entry_of(entries, name, 0) is None ==> files_bytes(entries, seq![name]) is None,
        files_bytes(entries, Seq::empty()) is None,
{
}

/// A trusted index that states its total is believed, whatever the files are; one that does
/// not is measured by its files.
pub proof fn law_stated_totals_are_believed(dir: ModelDir, list: Seq<Seq<char>>)
    requires
        trusts_index(dir),
    ensures
        total_size_of(index_document(dir)) matches Some(n) ==> indexed_bytes(dir, list) == Some(n),
        total_size_of(index_document(dir)) is None ==> (indexed_bytes(dir, list) is Some
            <==> files_bytes(dir.entries@, list) is Some),
        total_size_of(index_document(dir)) is None ==> (files_bytes(dir.entries@, list)
            matches Some(n) ==> n <= u64::MAX ==> indexed_bytes(dir, list) == Some(n as u64)),
{
}

/// An index that is not trusted is not asked; a whole checkpoint in one file is measured by
/// that file alone, and other files only where it is not there.
pub proof fn law_one_file_comes_before_the_others(dir: ModelDir, list: Seq<Seq<char>>)
    ensures
        !trusts_index(dir) ==> indexed_bytes(dir, list) is None,
        entry_of(dir.entries@, "model.safetensors"@, 0) matches Some(e) ==> !e.broken ==> (
        file_bytes(e.bytes@) matches Some(n) ==> n <= u64::MAX ==> unindexed_bytes(dir, list)
            == Some(n as u64)),
        entry_of(dir.entries@, "model.safetensors"@, 0) is None && dir.listing_error is None ==> (
        unindexed_bytes(dir, list) is Some <==> files_bytes(dir.entries@, list) is Some),
        entry_of(dir.entries@, "model.safetensors"@, 0) is None && dir.listing_error is Some
            ==> unindexed_bytes(dir, list) is None,
{
}

/// Counts stop at the largest that the machine holds, and keep their order.
pub proof fn law_counts_stop_at_the_largest(a: nat, b: nat)
    ensures
        a <= u64::MAX ==> capped(a) == a,
        a <= b ==> capped(a) <= capped(b),
        a >= u64::MAX ==> capped(a) == u64::MAX,
{
}

/// A name that leads out of the directory is refused: none with a slash, no parent, none
/// that is empty; and it is the first such name of a list that is reported.
pub proof fn law_names_stay_in_the_directory(names: Seq<Seq<char>>, from: int)
    requires
        0 <= from,
    ensures
        first_invalid(names, from) is None <==> forall|i: int|
            from <= i < names.len() ==> {
                let name = #[trigger] names[i];
                &&& name.len() > 0
                &&& name != ".."@
                &&& forall|k: int| 0 <= k < name.len() ==> name[k] != '/' && name[k] != '\0'
            },
        first_invalid(names, from) matches Some(name) ==> names.contains(name) && !is_plain_name(
            name,
        ),
    decreases names.len() - from,
{
    if from < names.len() {
        let name = names[from];
        assert(is_plain_name(name) <==> {
            &&& name.len() > 0
            &&& name != ".."@
            &&& forall|k: int| 0 <= k < name.len() ==> name[k] != '/' && name[k] != '\0'
        });
        if is_plain_name(name) {
            law_names_stay_in_the_directory(names, from + 1);
        }
    }
}

/// A safetensors file has a name in front of its extension.
pub proof fn law_safetensors_files_have_a_name(stem: Seq<char>)
    ensures
        is_safetensors(stem + ".safetensors"@) <==> stem.len() > 0,
{
    let name = stem + ".safetensors"@;
    let ending = ".safetensors"@;
    assert(name.subrange(name.len() - ending.len(), name.len() as int) =~= ending);
}

/// A shard is absent exactly when the index names it and the directory does not hold it.
pub proof fn law_absent_shards_are_named_and_not_there(
    names: Seq<Seq<char>>,
    present: Seq<Seq<char>>,
    name: Seq<char>,
)
    ensures
        absent_names(names, present).contains(name) <==> names.contains(name)
            && !present.contains(name),
{
    let wanted = |n: Seq<char>| !present.contains(n);
    names.filter_lemma(wanted);
    let absent = absent_names(names, present);
    assert(absent == names.filter(wanted));
    if absent.contains(name) {
        let i = choose|i: int| 0 <= i < absent.len() && absent[i] == name;
        assert(wanted(absent[i]));
        lemma_kept_was_there(names, wanted, i);
    }
    if names.contains(name) && !present.contains(name) {
        let i = choose|i: int| 0 <= i < names.len() && names[i] == name;
        assert(wanted(names[i]));
        assert(absent.contains(names[i]));
    }
}

/// What a filter keeps was in the list.
proof fn lemma_kept_was_there(
    names: Seq<Seq<char>>,
    wanted: spec_fn(Seq<char>) -> bool,
    i: int,
)
    requires
        0 <= i < names.filter(wanted).len(),
    ensures
        names.contains(names.filter(wanted)[i]),
    decreases names.len(),
{
    reveal(Seq::filter);
    if names.len() > 0 {
        let rest = names.drop_last();
        let kept = rest.filter(wanted);
        if i < kept.len() {
            lemma_kept_was_there(rest, wanted, i);
            let k = choose|k: int| 0 <= k < rest.len() && rest[k] == kept[i];
            assert(names[k] == kept[i]);
        } else {
            assert(names[names.len() - 1] == names.filter(wanted)[i]);
        }
    }
}

} // verus!
