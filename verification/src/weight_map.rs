//! Weights by name.
use vstd::prelude::*;

use crate::json::JsonView;
use crate::shards::{
    answers, are_loadable, collect_error, collect_shard_paths, entry_of, find_entry, flagged,
    header_of, lists, retained_names, tensor_names, ModelDir,
};
use crate::text::{contains_name, ends_with, has_suffix, text_eq, texts};

verus! {

/// Weights of some array type by name; a name has one weight.
#[derive(Debug)]
pub struct WeightMap<T> {
    entries: Vec<(String, T)>,
}

/// The first `n` entries of a list as a map; a later entry replaces an earlier one.
pub open spec fn entries_map<T>(entries: Seq<(String, T)>, n: int) -> Map<Seq<char>, T>
    decreases n,
{
    if n <= 0 {
        Map::empty()
    } else {
        entries_map(entries, n - 1).insert(entries[n - 1].0@, entries[n - 1].1)
    }
}

/// Entry `i` of a list has this name.
pub open spec fn has_entry<T>(entries: Seq<(String, T)>, key: Seq<char>, i: int) -> bool {
    0 <= i < entries.len() && entries[i].0@ == key
}

spec fn distinct<T>(entries: Seq<(String, T)>) -> bool {
    forall|i: int, j: int|
        0 <= i < j < entries.len() ==> #[trigger] entries[i].0@ != #[trigger] entries[j].0@
}

proof fn lemma_entries<T>(entries: Seq<(String, T)>, n: int, key: Seq<char>)
    requires
        0 <= n <= entries.len(),
        distinct(entries),
    ensures
        entries_map(entries, n).contains_key(key) == (exists|i: int|
            i < n && #[trigger] has_entry(entries, key, i)),
        forall|i: int|
            i < n && #[trigger] has_entry(entries, key, i) ==> entries_map(entries, n)[key]
                == entries[i].1,
    decreases n,
{
    if n > 0 {
        lemma_entries(entries, n - 1, key);
        if entries[n - 1].0@ == key {
            assert(has_entry(entries, key, n - 1));
        }
    }
}

proof fn lemma_entries_prefix<T>(a: Seq<(String, T)>, b: Seq<(String, T)>, n: int)
    requires
        0 <= n <= a.len(),
        n <= b.len(),
        forall|i: int| 0 <= i < n ==> a[i] == b[i],
    ensures
        entries_map(a, n) == entries_map(b, n),
    decreases n,
{
    if n > 0 {
        lemma_entries_prefix(a, b, n - 1);
    }
}

impl<T> View for WeightMap<T> {
    type V = Map<Seq<char>, T>;

    closed spec fn view(&self) -> Map<Seq<char>, T> {
        entries_map(self.entries@, self.entries@.len() as int)
    }
}

impl<T> WeightMap<T> {
    /// No name occurs twice.
    pub closed spec fn wf(&self) -> bool {
        distinct(self.entries@)
    }

    pub fn new() -> (r: Self)
        ensures
            r.wf(),
            r@ == Map::<Seq<char>, T>::empty(),
    {
        WeightMap { entries: Vec::new() }
    }

    /// No weight is there.
    pub fn is_empty(&self) -> (r: bool)
        requires
            self.wf(),
        ensures
            r == (self@ == Map::<Seq<char>, T>::empty()),
    {
        proof {
            if self.entries@.len() > 0 {
                let name = self.entries@[0].0@;
                lemma_entries(self.entries@, self.entries@.len() as int, name);
                assert(has_entry(self.entries@, name, 0));
                assert(self@.contains_key(name));
            }
        }
        self.entries.len() == 0
    }

    fn find(&self, name: &str) -> (r: Option<usize>)
        requires
            self.wf(),
        ensures
            match r {
                Some(i) => i < self.entries@.len() && self.entries@[i as int].0@ == name@
                    && self@.contains_key(name@) && self@[name@] == self.entries@[i as int].1,
                None => !self@.contains_key(name@) && forall|i: int|
                    0 <= i < self.entries@.len() ==> #[trigger] self.entries@[i].0@ != name@,
            },
    {
        proof {
            lemma_entries(self.entries@, self.entries@.len() as int, name@);
        }
        let mut i: usize = 0;
        while i < self.entries.len()
            invariant
                i <= self.entries@.len(),
                self.wf(),
                forall|j: int| 0 <= j < i ==> #[trigger] self.entries@[j].0@ != name@,
            decreases self.entries@.len() - i,
        {
            if text_eq(self.entries[i].0.as_str(), name) {
                assert(has_entry(self.entries@, name@, i as int));
                proof {
                    lemma_entries(self.entries@, self.entries@.len() as int, name@);
                }
                return Some(i);
            }
            i += 1;
        }
        None
    }

    /// The names and their weights, each name once.
    pub(crate) fn into_entries(self) -> (r: Vec<(String, T)>)
        requires
            self.wf(),
        ensures
            forall|key: Seq<char>| #[trigger]
                self@.contains_key(key) ==> exists|i: int| #[trigger] has_entry(r@, key, i),
            forall|i: int|
                0 <= i < r@.len() ==> self@.contains_key(#[trigger] r@[i].0@) && self@[r@[i].0@]
                    == r@[i].1,
    {
        proof {
            let n = self.entries@.len() as int;
            assert forall|key: Seq<char>| #[trigger] self@.contains_key(key) implies exists|i: int|
             #[trigger] has_entry(self.entries@, key, i) by {
                lemma_entries(self.entries@, n, key);
            }
            assert forall|i: int| 0 <= i < n implies self@.contains_key(
                #[trigger] self.entries@[i].0@,
            ) && self@[self.entries@[i].0@] == self.entries@[i].1 by {
                lemma_entries(self.entries@, n, self.entries@[i].0@);
                assert(has_entry(self.entries@, self.entries@[i].0@, i));
            }
        }
        self.entries
    }

    /// Set the weight of a name.
    pub fn insert(&mut self, name: String, weight: T)
        requires
            old(self).wf(),
        ensures
            final(self).wf(),
            final(self)@ == old(self)@.insert(name@, weight),
    {
        let ghost before = self.entries@;
        let ghost n = before.len() as int;
        let ghost key = name@;
        if let Some(i) = self.find(name.as_str()) {
            self.entries.set(i, (name, weight));
            proof {
                let after = self.entries@;
                assert forall|a: int, b: int| 0 <= a < b < after.len() implies
                    #[trigger] after[a].0@ != #[trigger] after[b].0@ by {
                    assert(after[a].0@ == before[a].0@ && after[b].0@ == before[b].0@);
                }
                let expected = entries_map(before, n).insert(key, weight);
                let mapped = self@;
                assert forall|k: Seq<char>|
                    #![trigger mapped.contains_key(k)]
                    #![trigger mapped[k]]
                    mapped.contains_key(k) == expected.contains_key(k) && (mapped.contains_key(k)
                        ==> mapped[k] == expected[k]) by {
                    lemma_entries(before, n, k);
                    lemma_entries(after, n, k);
                    assert(forall|j: int|
                        #![trigger has_entry(after, k, j)]
                        #![trigger has_entry(before, k, j)]
                        has_entry(after, k, j) == has_entry(before, k, j));
                    assert(has_entry(after, key, i as int));
                    if mapped.contains_key(k) && k != key {
                        let j = choose|j: int| j < n && #[trigger] has_entry(after, k, j);
                        assert(after[j] == before[j]);
                        assert(has_entry(before, k, j));
                    }
                }
                assert(mapped.dom() =~= expected.dom());
                assert(mapped =~= expected);
            }
            return;
        }
        self.entries.push((name, weight));
        proof {
            let after = self.entries@;
            lemma_entries_prefix(before, after, n);
            assert(after[n].0@ == key && after[n].1 == weight);
            assert forall|a: int, b: int| 0 <= a < b < after.len() implies #[trigger] after[a].0@
                != #[trigger] after[b].0@ by {
                assert(after[a] == before[a]);
                if b < n {
                    assert(after[b] == before[b]);
                }
            }
        }
    }

    /// All weights of another map; they replace those of the same names.
    pub fn extend(&mut self, other: WeightMap<T>)
        requires
            old(self).wf(),
        ensures
            final(self).wf(),
            final(self)@ == old(self)@.union_prefer_right(other@),
    {
        let ghost all = other.entries@;
        let ghost start = self@;
        let WeightMap { entries } = other;
        assert(start =~= start.union_prefer_right(entries_map(all, 0)));
        for entry in it: entries
            invariant
                it.seq() == all,
                self.wf(),
                self@ == start.union_prefer_right(entries_map(all, it.index() as int)),
        {
            let ghost k = it.index() as int;
            let ghost mapped = self@;
            assert(all[k] == entry);
            let (name, weight) = entry;
            let ghost key = name@;
            self.insert(name, weight);
            assert(self@ =~= start.union_prefer_right(entries_map(all, k + 1)));
        }
    }
}

/// The weight of a name.
pub fn get_weight<'a, T>(weights: &'a WeightMap<T>, name: &str) -> (r: Option<&'a T>)
    requires
        weights.wf(),
    ensures
        match r {
            Some(weight) => weights@.contains_key(name@) && *weight == weights@[name@],
            None => !weights@.contains_key(name@),
        },
{
    match weights.find(name) {
        Some(i) => Some(&weights.entries[i].1),
        None => None,
    }
}

/// The weight of a name under a prefix.
pub fn get_weight_with_prefix<'a, T>(
    weights: &'a WeightMap<T>,
    prefix: &str,
    suffix: &str,
) -> (r: Option<&'a T>)
    requires
        weights.wf(),
    ensures
        ({
            let name = prefix@ + "."@ + suffix@;
            match r {
                Some(weight) => weights@.contains_key(name) && *weight == weights@[name],
                None => !weights@.contains_key(name),
            }
        }),
{
    let name = prefix.to_owned().concat(".").concat(suffix);
    get_weight(weights, name.as_str())
}

/// Whether a name has a weight.
pub fn has_weight<T>(weights: &WeightMap<T>, name: &str) -> (r: bool)
    requires
        weights.wf(),
    ensures
        r == weights@.contains_key(name@),
{
    weights.find(name).is_some()
}

/// Whether some weight has a name with this ending.
pub fn has_name_ending<T>(weights: &WeightMap<T>, suffix: &str) -> (r: bool)
    requires
        weights.wf(),
    ensures
        r == exists|name: Seq<char>| #[trigger]
            weights@.contains_key(name) && has_suffix(name, suffix@),
{
    let ghost n = weights.entries@.len() as int;
    let mut i: usize = 0;
    while i < weights.entries.len()
        invariant
            i <= weights.entries@.len(),
            weights.wf(),
            n == weights.entries@.len(),
            forall|j: int| 0 <= j < i ==> !has_suffix(#[trigger] weights.entries@[j].0@, suffix@),
        decreases weights.entries@.len() - i,
    {
        if ends_with(weights.entries[i].0.as_str(), suffix) {
            proof {
                let name = weights.entries@[i as int].0@;
                lemma_entries(weights.entries@, n, name);
                assert(has_entry(weights.entries@, name, i as int));
                assert(weights@.contains_key(name));
            }
            return true;
        }
        i += 1;
    }
    proof {
        assert forall|name: Seq<char>| #[trigger] weights@.contains_key(name) implies !has_suffix(
            name,
            suffix@,
        ) by {
            lemma_entries(weights.entries@, n, name);
            let j = choose|j: int| j < n && #[trigger] has_entry(weights.entries@, name, j);
            assert(weights.entries@[j].0@ == name);
        }
    }
    false
}

/// A copy of the weight of a name; `copy` copies an array.
pub fn clone_weight<T, C: Fn(&T) -> T>(weights: &WeightMap<T>, name: &str, copy: &C) -> (r: Option<
    T,
>)
    requires
        weights.wf(),
        forall|w: &T| call_requires(*copy, (w,)),
    ensures
        match r {
            Some(weight) => weights@.contains_key(name@) && call_ensures(
                *copy,
                (&weights@[name@],),
                weight,
            ),
            None => !weights@.contains_key(name@),
        },
{
    match get_weight(weights, name) {
        Some(weight) => Some(copy(weight)),
        None => None,
    }
}

/// The entries whose flag is set, as a map.
pub open spec fn flagged_map<T>(entries: Seq<(String, T)>, flags: Seq<bool>, n: int) -> Map<
    Seq<char>,
    T,
>
    decreases n,
{
    if n <= 0 {
        Map::empty()
    } else if flags[n - 1] {
        flagged_map(entries, flags, n - 1).insert(entries[n - 1].0@, entries[n - 1].1)
    } else {
        flagged_map(entries, flags, n - 1)
    }
}

/// The names that a header retains under a filter.
pub open spec fn are_retained<K: Fn(&String) -> bool>(
    keep: K,
    bytes: Seq<u8>,
    kept: Seq<Seq<char>>,
) -> bool {
    header_of(bytes) matches Some(entries) && exists|names: Seq<String>, flags: Seq<bool>|
        {
            &&& texts(names) == tensor_names(entries)
            &&& #[trigger] answers(keep, names, flags)
            &&& kept == flagged(texts(names), flags)
        }
}

/// Which entries are taken: those of the names that the header retains, or where there is
/// no header those that the filter keeps.
pub open spec fn are_taken<T, K: Fn(&String) -> bool>(
    keep: K,
    kept: Option<Seq<Seq<char>>>,
    entries: Seq<(String, T)>,
    flags: Seq<bool>,
) -> bool {
    &&& flags.len() == entries.len()
    &&& forall|i: int|
        0 <= i < entries.len() ==> match kept {
            Some(names) => flags[i] == names.contains((#[trigger] entries[i]).0@),
            None => call_ensures(keep, (&(#[trigger] entries[i]).0,), flags[i]),
        }
}

/// The weights that are taken of a loaded file.
pub open spec fn is_taken<T, K: Fn(&String) -> bool>(
    keep: K,
    kept: Option<Seq<Seq<char>>>,
    entries: Seq<(String, T)>,
    m: Map<Seq<char>, T>,
) -> bool {
    exists|flags: Seq<bool>| #[trigger]
        are_taken(keep, kept, entries, flags) && m == flagged_map(
            entries,
            flags,
            entries.len() as int,
        )
}

/// The outcome of loading a file under a filter. A file of which the header retains
/// nothing is not loaded.
pub open spec fn is_filtered<T, K: Fn(&String) -> bool, L: Fn(&str) -> Result<
    Vec<(String, T)>,
    String,
>>(
    keep: K,
    load: L,
    path: Seq<char>,
    bytes: Seq<u8>,
    r: Result<WeightMap<T>, String>,
) -> bool {
    exists|kept: Option<Seq<Seq<char>>>|
        {
            &&& #[trigger] is_header_answer(keep, bytes, kept)
            &&& if kept == Some(Seq::<Seq<char>>::empty()) {
                r matches Ok(m) && m.wf() && m@ == Map::<Seq<char>, T>::empty()
            } else {
                exists|p: &str, out: Result<Vec<(String, T)>, String>|
                    {
                        &&& #[trigger] call_ensures(load, (p,), out)
                        &&& p@ == path
                        &&& match out {
                            Err(error) => r matches Err(message) && message@ == "Failed to load "@
                                + path + ": "@ + error@,
                            Ok(entries) => r matches Ok(m) && m.wf() && is_taken(
                                keep,
                                kept,
                                entries@,
                                m@,
                            ),
                        }
                    }
            }
        }
}

/// What the header of a file says of a filter: nothing where it cannot be read.
pub open spec fn is_header_answer<K: Fn(&String) -> bool>(
    keep: K,
    bytes: Seq<u8>,
    kept: Option<Seq<Seq<char>>>,
) -> bool {
    match kept {
        None => header_of(bytes) is None,
        Some(names) => are_retained(keep, bytes, names),
    }
}

/// A file may hold a tensor that a filter keeps, so it is loaded: its header retains a
/// name, or cannot be read.
pub open spec fn needs_load<K: Fn(&String) -> bool>(keep: K, bytes: Seq<u8>) -> bool {
    exists|kept: Option<Seq<Seq<char>>>| #[trigger]
        is_header_answer(keep, bytes, kept) && kept != Some(Seq::<Seq<char>>::empty())
}

spec fn list_views(kept: Option<Vec<String>>) -> Option<Seq<Seq<char>>> {
    match kept {
        Some(names) => Some(texts(names@)),
        None => None,
    }
}

fn take_entries<T, K: Fn(&String) -> bool>(
    entries: Vec<(String, T)>,
    kept: &Option<Vec<String>>,
    keep: &K,
) -> (r: WeightMap<T>)
    requires
        kept is None ==> forall|name: &String| #[trigger] call_requires(*keep, (name,)),
    ensures
        r.wf(),
        is_taken(*keep, list_views(*kept), entries@, r@),
{
    let ghost all = entries@;
    let ghost names = list_views(*kept);
    let ghost mut flags: Seq<bool> = Seq::empty();
    let mut out: WeightMap<T> = WeightMap::new();
    assert(out@ =~= flagged_map(all, flags, 0));
    for entry in it: entries
        invariant
            it.seq() == all,
            out.wf(),
            kept is None ==> forall|name: &String| #[trigger] call_requires(*keep, (name,)),
            names == list_views(*kept),
            flags.len() == it.index(),
            forall|i: int|
                0 <= i < it.index() ==> match names {
                    Some(names) => flags[i] == names.contains((#[trigger] all[i]).0@),
                    None => call_ensures(*keep, (&(#[trigger] all[i]).0,), flags[i]),
                },
            out@ == flagged_map(all, flags, it.index() as int),
    {
        let ghost k = it.index() as int;
        assert(all[k] == entry);
        let flag = match kept {
            Some(names) => contains_name(names, entry.0.as_str()),
            None => keep(&entry.0),
        };
        let ghost before = flags;
        proof {
            flags = flags.push(flag);
            lemma_flags_prefix(all, before, flags, k);
        }
        if flag {
            let (name, weight) = entry;
            out.insert(name, weight);
        }
    }
    assert(are_taken(*keep, names, all, flags));
    out
}

proof fn lemma_flags_prefix<T>(entries: Seq<(String, T)>, a: Seq<bool>, b: Seq<bool>, n: int)
    requires
        0 <= n <= a.len(),
        n <= b.len(),
        forall|i: int| 0 <= i < n ==> a[i] == b[i],
    ensures
        flagged_map(entries, a, n) == flagged_map(entries, b, n),
    decreases n,
{
    if n > 0 {
        lemma_flags_prefix(entries, a, b, n - 1);
    }
}

/// Load the tensors of a file that a filter keeps. `bytes` are the first bytes of the
/// file, its whole header among them; `load` loads a file. A file of which nothing is kept
/// is not loaded, and only the names in a readable header are shown to the filter.
pub fn load_safetensors_filtered<T, K: Fn(&String) -> bool, L: Fn(&str) -> Result<
    Vec<(String, T)>,
    String,
>>(path: &str, bytes: &[u8], keep: &K, load: &L) -> (r: Result<WeightMap<T>, String>)
    requires
        forall|name: &String|
            lists(header_of(bytes@), name@) ==> #[trigger] call_requires(*keep, (name,)),
        needs_load(*keep, bytes@) ==> forall|p: &str|
            p@ == path@ ==> #[trigger] call_requires(*load, (p,)),
    ensures
        is_filtered(*keep, *load, path@, bytes@, r),
{
    let kept = retained_names(bytes, keep);
    let ghost names = list_views(kept);
    assert(is_header_answer(*keep, bytes@, names));
    if let Some(list) = &kept {
        if list.len() == 0 {
            assert(texts(list@) =~= Seq::<Seq<char>>::empty());
            return Ok(WeightMap::new());
        }
        assert(texts(list@).len() > 0);
    }
    assert(needs_load(*keep, bytes@));
    let out = load(path);
    assert(call_ensures(*load, (path,), out));
    match out {
        Err(error) => Err(
            "Failed to load ".to_owned().concat(path).concat(": ").concat(error.as_str()),
        ),
        Ok(entries) => Ok(take_entries(entries, &kept, keep)),
    }
}

/// Load all tensors of a file. A file whose header lists none is not loaded.
pub fn load_safetensors<T, L: Fn(&str) -> Result<Vec<(String, T)>, String>>(
    path: &str,
    bytes: &[u8],
    load: &L,
) -> (r: Result<WeightMap<T>, String>)
    requires
        !(header_of(bytes@) matches Some(entries) && tensor_names(entries).len() == 0)
            ==> forall|p: &str| p@ == path@ ==> #[trigger] call_requires(*load, (p,)),
    ensures
        ({
            let empty = header_of(bytes@) matches Some(entries) && tensor_names(entries).len() == 0;
            if empty {
                r matches Ok(m) && m.wf() && m@ == Map::<Seq<char>, T>::empty()
            } else {
                exists|p: &str, out: Result<Vec<(String, T)>, String>|
                    {
                        &&& #[trigger] call_ensures(*load, (p,), out)
                        &&& p@ == path@
                        &&& match out {
                            Err(error) => r matches Err(message) && message@ == "Failed to load "@
                                + path@ + ": "@ + error@,
                            Ok(entries) => r matches Ok(m) && m.wf() && is_listed(
                                header_of(bytes@),
                                entries@,
                                m@,
                            ),
                        }
                    }
            }
        }),
{
    let keep = |name: &String| -> (kept: bool)
        ensures
            kept,
        { true };
    proof {
        if header_of(bytes@) matches Some(entries) && tensor_names(entries).len() == 0 {
            assert forall|kept: Option<Seq<Seq<char>>>| #[trigger]
                is_header_answer(keep, bytes@, kept) implies kept == Some(
                Seq::<Seq<char>>::empty(),
            ) by {
                assert(kept.unwrap() =~= Seq::<Seq<char>>::empty());
            }
        }
    }
    let r = load_safetensors_filtered(path, bytes, &keep, load);
    proof {
        let kept = choose|kept: Option<Seq<Seq<char>>>|
            {
                &&& #[trigger] is_header_answer(keep, bytes@, kept)
                &&& if kept == Some(Seq::<Seq<char>>::empty()) {
                    r matches Ok(m) && m.wf() && m@ == Map::<Seq<char>, T>::empty()
                } else {
                    exists|p: &str, out: Result<Vec<(String, T)>, String>|
                        {
                            &&& #[trigger] call_ensures(*load, (p,), out)
                            &&& p@ == path@
                            &&& match out {
                                Err(error) => r matches Err(message) && message@
                                    == "Failed to load "@ + path@ + ": "@ + error@,
                                Ok(entries) => r matches Ok(m) && m.wf() && is_taken(
                                    keep,
                                    kept,
                                    entries@,
                                    m@,
                                ),
                            }
                        }
                }
            };
        if let Some(names) = kept {
            let entries = header_of(bytes@).unwrap();
            let (listed, flags) = choose|listed: Seq<String>, flags: Seq<bool>|
                {
                    &&& texts(listed) == tensor_names(entries)
                    &&& #[trigger] answers(keep, listed, flags)
                    &&& names == flagged(texts(listed), flags)
                };
            assert forall|i: int| 0 <= i < flags.len() implies #[trigger] flags[i] by {
                assert(call_ensures(keep, (&listed[i],), flags[i]));
            }
            lemma_all_flagged(texts(listed), flags);
        }
        if kept != Some(Seq::<Seq<char>>::empty()) {
            let (p, out) = choose|p: &str, out: Result<Vec<(String, T)>, String>|
                {
                    &&& #[trigger] call_ensures(*load, (p,), out)
                    &&& p@ == path@
                    &&& match out {
                        Err(error) => r matches Err(message) && message@ == "Failed to load "@
                            + path@ + ": "@ + error@,
                        Ok(entries) => r matches Ok(m) && m.wf() && is_taken(
                            keep,
                            kept,
                            entries@,
                            m@,
                        ),
                    }
                };
            assert(call_ensures(*load, (p,), out));
            if let Ok(entries) = out {
                let m = r->Ok_0@;
                let flags = choose|flags: Seq<bool>| #[trigger]
                    are_taken(keep, kept, entries@, flags) && m == flagged_map(
                        entries@,
                        flags,
                        entries@.len() as int,
                    );
                assert forall|i: int| 0 <= i < entries@.len() implies #[trigger] flags[i]
                    == lists(header_of(bytes@), entries@[i].0@) by {
                    if kept is None {
                        assert(call_ensures(keep, (&entries@[i].0,), flags[i]));
                    }
                }
                assert(is_listing(header_of(bytes@), entries@, flags));
            }
        }
    }
    r
}

/// The flags say which entries the header lists.
pub open spec fn is_listing<T>(
    header: Option<Seq<(Seq<char>, JsonView)>>,
    entries: Seq<(String, T)>,
    flags: Seq<bool>,
) -> bool {
    &&& flags.len() == entries.len()
    &&& forall|i: int|
        0 <= i < entries.len() ==> #[trigger] flags[i] == lists(header, entries[i].0@)
}

/// The loaded entries that the header lists.
pub open spec fn is_listed<T>(
    header: Option<Seq<(Seq<char>, JsonView)>>,
    entries: Seq<(String, T)>,
    m: Map<Seq<char>, T>,
) -> bool {
    exists|flags: Seq<bool>| #[trigger]
        is_listing(header, entries, flags) && m == flagged_map(
            entries,
            flags,
            entries.len() as int,
        )
}

proof fn lemma_all_flagged(names: Seq<Seq<char>>, flags: Seq<bool>)
    requires
        names.len() == flags.len(),
        forall|i: int| 0 <= i < flags.len() ==> #[trigger] flags[i],
    ensures
        flagged(names, flags) == names,
    decreases names.len(),
{
    if names.len() > 0 {
        assert(flags.last());
        lemma_all_flagged(names.drop_last(), flags.drop_last());
        assert(names =~= names.drop_last().push(names.last()));
    } else {
        assert(flagged(names, flags) =~= names);
    }
}

/// The path of a file in a directory.
pub open spec fn path_in(dir: Seq<char>, name: Seq<char>) -> Seq<char> {
    if dir.len() == 0 || has_suffix(dir, "/"@) {
        dir + name
    } else {
        dir + "/"@ + name
    }
}

fn join_path(dir: &str, name: &str) -> (r: String)
    ensures
        r@ == path_in(dir@, name@),
{
    if dir.unicode_len() == 0 || ends_with(dir, "/") {
        dir.to_owned().concat(name)
    } else {
        dir.to_owned().concat("/").concat(name)
    }
}

/// The first bytes of a shard; none where the directory does not show it.
pub open spec fn bytes_of(dir: ModelDir, name: Seq<char>) -> Seq<u8> {
    match entry_of(dir.entries@, name, 0) {
        Some(entry) => entry.bytes@,
        None => Seq::empty(),
    }
}

/// `m` holds what a filter keeps of the first `n` shards; a later shard replaces what an
/// earlier one gave.
pub open spec fn holds_shards<T, K: Fn(&String) -> bool, L: Fn(&str) -> Result<
    Vec<(String, T)>,
    String,
>>(keep: K, load: L, dir: ModelDir, shards: Seq<Seq<char>>, n: nat, m: Map<Seq<char>, T>) -> bool
    decreases n,
{
    if n == 0 {
        m == Map::<Seq<char>, T>::empty()
    } else {
        exists|before: Map<Seq<char>, T>, part: WeightMap<T>|
            {
                &&& holds_shards(keep, load, dir, shards, (n - 1) as nat, before)
                &&& #[trigger] is_filtered(
                    keep,
                    load,
                    path_in(dir.path@, shards[n - 1]),
                    bytes_of(dir, shards[n - 1]),
                    Ok(part),
                )
                &&& m == #[trigger] before.union_prefer_right(part@)
            }
    }
}

/// The outcome of loading the shards of a directory under a filter.
pub open spec fn is_dir_outcome<T, K: Fn(&String) -> bool, L: Fn(&str) -> Result<
    Vec<(String, T)>,
    String,
>>(
    keep: K,
    load: L,
    dir: ModelDir,
    shards: Seq<Seq<char>>,
    r: Result<WeightMap<T>, String>,
) -> bool {
    match r {
        Ok(m) => m.wf() && holds_shards(keep, load, dir, shards, shards.len(), m@),
        Err(message) => exists|n: nat, before: Map<Seq<char>, T>|
            {
                &&& n < shards.len()
                &&& #[trigger] holds_shards(keep, load, dir, shards, n, before)
                &&& is_filtered(
                    keep,
                    load,
                    path_in(dir.path@, shards[n as int]),
                    bytes_of(dir, shards[n as int]),
                    Err::<WeightMap<T>, String>(message),
                )
            },
    }
}

/// A file is the next to load: all earlier shards were loaded or skipped, and this one may
/// hold a tensor that the filter keeps.
pub open spec fn is_next_shard<T, K: Fn(&String) -> bool, L: Fn(&str) -> Result<
    Vec<(String, T)>,
    String,
>>(keep: K, load: L, dir: ModelDir, path: Seq<char>) -> bool {
    &&& collect_error(dir) is None
    &&& exists|shards: Seq<Seq<char>>, n: nat, before: Map<Seq<char>, T>|
        {
            &&& are_loadable(dir, shards) && n < shards.len()
            &&& #[trigger] holds_shards(keep, load, dir, shards, n, before)
            &&& path == path_in(dir.path@, shards[n as int])
            &&& needs_load(keep, bytes_of(dir, shards[n as int]))
        }
}

/// A shard of a directory may hold a tensor of that name.
pub open spec fn may_hold(dir: ModelDir, name: Seq<char>) -> bool {
    exists|shards: Seq<Seq<char>>, n: int|
        {
            &&& are_loadable(dir, shards) && 0 <= n < shards.len()
            &&& lists(header_of(bytes_of(dir, #[trigger] shards[n])), name)
        }
}

/// Load the tensors of a checkpoint directory that a filter keeps. Shards are loaded in
/// order up to the first that fails; a shard of which nothing is kept is not loaded.
pub fn load_weights_from_dir_filtered<T, K: Fn(&String) -> bool, L: Fn(&str) -> Result<
    Vec<(String, T)>,
    String,
>>(dir: &ModelDir, keep: &K, load: &L) -> (r: Result<WeightMap<T>, String>)
    requires
        forall|name: &String|
            may_hold(*dir, name@) ==> #[trigger] call_requires(*keep, (name,)),
        forall|p: &str|
            is_next_shard(*keep, *load, *dir, p@) ==> #[trigger] call_requires(*load, (p,)),
    ensures
        match collect_error(*dir) {
            Some(error) => r matches Err(message) && message@ == error,
            None => exists|shards: Seq<Seq<char>>|
                are_loadable(*dir, shards) && shards.len() > 0 && #[trigger] is_dir_outcome(
                    *keep,
                    *load,
                    *dir,
                    shards,
                    r,
                ),
        },
{
    let shards = match collect_shard_paths(dir) {
        Ok(shards) => shards,
        Err(message) => return Err(message),
    };
    let ghost names = texts(shards@);
    let mut weights: WeightMap<T> = WeightMap::new();
    let mut i: usize = 0;
    while i < shards.len()
        invariant
            i <= shards@.len(),
            names == texts(shards@),
            collect_error(*dir) is None,
            are_loadable(*dir, names),
            names.len() > 0,
            weights.wf(),
            forall|name: &String|
                may_hold(*dir, name@) ==> #[trigger] call_requires(*keep, (name,)),
            forall|p: &str|
                is_next_shard(*keep, *load, *dir, p@) ==> #[trigger] call_requires(*load, (p,)),
            holds_shards(*keep, *load, *dir, names, i as nat, weights@),
        decreases shards@.len() - i,
    {
        let name = shards[i].as_str();
        assert(names[i as int] == name@);
        let path = join_path(dir.path.as_str(), name);
        let none: [u8; 0] = [];
        assert(none@ =~= Seq::<u8>::empty());
        proof {
            let bytes = bytes_of(*dir, name@);
            assert forall|asked: &String| lists(header_of(bytes), asked@) implies #[trigger]
                call_requires(*keep, (asked,)) by {
                assert(lists(header_of(bytes_of(*dir, names[i as int])), asked@));
                assert(may_hold(*dir, asked@));
            }
            if needs_load(*keep, bytes) {
                assert(is_next_shard(*keep, *load, *dir, path@));
            }
        }
        let loaded = match find_entry(&dir.entries, name) {
            Some(entry) => load_safetensors_filtered(
                path.as_str(),
                entry.bytes.as_slice(),
                keep,
                load,
            ),
            None => load_safetensors_filtered(path.as_str(), &none, keep, load),
        };
        assert(is_filtered(*keep, *load, path@, bytes_of(*dir, name@), loaded));
        let part = match loaded {
            Ok(part) => part,
            Err(message) => {
                let r = Err(message);
                assert(holds_shards(*keep, *load, *dir, names, i as nat, weights@));
                assert(is_dir_outcome(*keep, *load, *dir, names, r));
                return r;
            },
        };
        let ghost before = weights@;
        let ghost piece = part;
        weights.extend(part);
        proof {
            let n = (i + 1) as nat;
            assert((n - 1) as nat == i as nat);
            assert(holds_shards(*keep, *load, *dir, names, (n - 1) as nat, before));
            assert(is_filtered(
                *keep,
                *load,
                path_in(dir.path@, names[n - 1]),
                bytes_of(*dir, names[n - 1]),
                Ok(piece),
            ));
            assert(weights@ == before.union_prefer_right(piece@));
            assert(holds_shards(*keep, *load, *dir, names, n, weights@));
        }
        i += 1;
    }
    let r = Ok(weights);
    assert(is_dir_outcome(*keep, *load, *dir, names, r));
    r
}

/// The outcome of loading a file as it is.
pub open spec fn is_loaded_file<T, L: Fn(&str) -> Result<Vec<(String, T)>, String>>(
    load: L,
    path: Seq<char>,
    r: Result<WeightMap<T>, String>,
) -> bool {
    exists|p: &str, out: Result<Vec<(String, T)>, String>|
        {
            &&& #[trigger] call_ensures(load, (p,), out)
            &&& p@ == path
            &&& match out {
                Err(error) => r matches Err(message) && message@ == "Failed to load "@ + path
                    + ": "@ + error@,
                Ok(entries) => r matches Ok(m) && m.wf() && m@ == entries_map(
                    entries@,
                    entries@.len() as int,
                ),
            }
        }
}

fn load_file<T, L: Fn(&str) -> Result<Vec<(String, T)>, String>>(path: &str, load: &L) -> (r: Result<
    WeightMap<T>,
    String,
>)
    requires
        forall|p: &str| p@ == path@ ==> #[trigger] call_requires(*load, (p,)),
    ensures
        is_loaded_file(*load, path@, r),
{
    let out = load(path);
    assert(call_ensures(*load, (path,), out));
    let entries = match out {
        Ok(entries) => entries,
        Err(error) => return Err(
            "Failed to load ".to_owned().concat(path).concat(": ").concat(error.as_str()),
        ),
    };
    let ghost all = entries@;
    let mut weights: WeightMap<T> = WeightMap::new();
    for entry in it: entries
        invariant
            it.seq() == all,
            weights.wf(),
            weights@ == entries_map(all, it.index() as int),
    {
        assert(all[it.index() as int] == entry);
        let (name, weight) = entry;
        weights.insert(name, weight);
    }
    Ok(weights)
}

/// `m` holds the first `n` shards; a later shard replaces what an earlier one gave.
pub open spec fn holds_files<T, L: Fn(&str) -> Result<Vec<(String, T)>, String>>(
    load: L,
    dir: ModelDir,
    shards: Seq<Seq<char>>,
    n: nat,
    m: Map<Seq<char>, T>,
) -> bool
    decreases n,
{
    if n == 0 {
        m == Map::<Seq<char>, T>::empty()
    } else {
        exists|before: Map<Seq<char>, T>, part: WeightMap<T>|
            {
                &&& holds_files(load, dir, shards, (n - 1) as nat, before)
                &&& #[trigger] is_loaded_file(
                    load,
                    path_in(dir.path@, shards[n - 1]),
                    Ok(part),
                )
                &&& m == #[trigger] before.union_prefer_right(part@)
            }
    }
}

/// The outcome of loading the shards of a directory.
pub open spec fn is_files_outcome<T, L: Fn(&str) -> Result<Vec<(String, T)>, String>>(
    load: L,
    dir: ModelDir,
    shards: Seq<Seq<char>>,
    r: Result<WeightMap<T>, String>,
) -> bool {
    match r {
        Ok(m) => m.wf() && holds_files(load, dir, shards, shards.len(), m@),
        Err(message) => exists|n: nat, before: Map<Seq<char>, T>|
            {
                &&& n < shards.len()
                &&& #[trigger] holds_files(load, dir, shards, n, before)
                &&& is_loaded_file(
                    load,
                    path_in(dir.path@, shards[n as int]),
                    Err::<WeightMap<T>, String>(message),
                )
            },
    }
}

/// A file is the next to load: all earlier shards were loaded.
pub open spec fn is_next_file<T, L: Fn(&str) -> Result<Vec<(String, T)>, String>>(
    load: L,
    dir: ModelDir,
    path: Seq<char>,
) -> bool {
    &&& collect_error(dir) is None
    &&& exists|shards: Seq<Seq<char>>, n: nat, before: Map<Seq<char>, T>|
        {
            &&& are_loadable(dir, shards) && n < shards.len()
            &&& #[trigger] holds_files(load, dir, shards, n, before)
            &&& path == path_in(dir.path@, shards[n as int])
        }
}

/// Load all tensors of a checkpoint directory, shard by shard up to the first that fails.
pub fn load_weights_from_dir<T, L: Fn(&str) -> Result<Vec<(String, T)>, String>>(
    dir: &ModelDir,
    load: &L,
) -> (r: Result<WeightMap<T>, String>)
    requires
        forall|p: &str|
            is_next_file(*load, *dir, p@) ==> #[trigger] call_requires(*load, (p,)),
    ensures
        match collect_error(*dir) {
            Some(error) => r matches Err(message) && message@ == error,
            None => exists|shards: Seq<Seq<char>>|
                are_loadable(*dir, shards) && shards.len() > 0 && #[trigger] is_files_outcome(
                    *load,
                    *dir,
                    shards,
                    r,
                ),
        },
{
    let shards = match collect_shard_paths(dir) {
        Ok(shards) => shards,
        Err(message) => return Err(message),
    };
    let ghost names = texts(shards@);
    let mut weights: WeightMap<T> = WeightMap::new();
    let mut i: usize = 0;
    while i < shards.len()
        invariant
            i <= shards@.len(),
            names == texts(shards@),
            collect_error(*dir) is None,
            are_loadable(*dir, names),
            names.len() > 0,
            weights.wf(),
            forall|p: &str|
                is_next_file(*load, *dir, p@) ==> #[trigger] call_requires(*load, (p,)),
            holds_files(*load, *dir, names, i as nat, weights@),
        decreases shards@.len() - i,
    {
        let name = shards[i].as_str();
        assert(names[i as int] == name@);
        let path = join_path(dir.path.as_str(), name);
        assert(is_next_file(*load, *dir, path@));
        let part = match load_file(path.as_str(), load) {
            Ok(part) => part,
            Err(message) => {
                let r = Err(message);
                assert(holds_files(*load, *dir, names, i as nat, weights@));
                assert(is_files_outcome(*load, *dir, names, r));
                return r;
            },
        };
        let ghost before = weights@;
        let ghost piece = part;
        weights.extend(part);
        proof {
            let n = (i + 1) as nat;
            assert((n - 1) as nat == i as nat);
            assert(holds_files(*load, *dir, names, (n - 1) as nat, before));
            assert(is_loaded_file(*load, path_in(dir.path@, names[n - 1]), Ok(piece)));
            assert(weights@ == before.union_prefer_right(piece@));
            assert(holds_files(*load, *dir, names, n, weights@));
        }
        i += 1;
    }
    let r = Ok(weights);
    assert(is_files_outcome(*load, *dir, names, r));
    r
}

} // verus!
