use vstd::prelude::*;
use vstd::string::StrSliceExecFns;

verus! {

/// Whether no two entries of `entries` share a name.
pub open spec fn distinct_names<V>(entries: Seq<(String, V)>) -> bool {
    forall|i: int, j: int|
        0 <= i < entries.len() && 0 <= j < entries.len() && i != j ==> #[trigger] entries[i].0@
            != #[trigger] entries[j].0@
}

/// The map from names to values that a list of named entries stands for;
/// a later entry with the same name overrides an earlier one.
pub open spec fn keyed_view<V>(entries: Seq<(String, V)>) -> Map<Seq<char>, V>
    decreases entries.len(),
{
    if entries.len() == 0 {
        Map::empty()
    } else {
        keyed_view(entries.drop_last()).insert(entries.last().0@, entries.last().1)
    }
}

/// The names of a list of named entries are the keys of the map it stands for.
pub proof fn lemma_keyed_dom<V>(entries: Seq<(String, V)>, name: Seq<char>)
    ensures
        keyed_view(entries).contains_key(name) <==> exists|i: int| 0 <= i < entries.len() && #[trigger] entries[i].0@ == name,
    decreases entries.len(),
{
    if entries.len() > 0 {
        let init = entries.drop_last();
        lemma_keyed_dom(init, name);
        if keyed_view(entries).contains_key(name) && entries.last().0@ != name {
            let i = choose|i: int| 0 <= i < init.len() && #[trigger] init[i].0@ == name;
            assert(entries[i] == init[i]);
        }
        if exists|i: int| 0 <= i < entries.len() && #[trigger] entries[i].0@ == name {
            let i = choose|i: int| 0 <= i < entries.len() && #[trigger] entries[i].0@ == name;
            if i < entries.len() - 1 {
                assert(init[i] == entries[i]);
            }
        }
    }
}

/// With distinct names, the map holds each entry's value under its name.
pub proof fn lemma_keyed_lookup<V>(entries: Seq<(String, V)>, k: int)
    requires
        distinct_names(entries),
        0 <= k < entries.len(),
    ensures
        keyed_view(entries).contains_key(entries[k].0@),
        keyed_view(entries)[entries[k].0@] == entries[k].1,
    decreases entries.len(),
{
    let init = entries.drop_last();
    if k < entries.len() - 1 {
        assert(init[k] == entries[k]);
        assert(distinct_names(init)) by {
            assert forall|i: int, j: int|
                0 <= i < init.len() && 0 <= j < init.len() && i != j implies #[trigger] init[i].0@
                    != #[trigger] init[j].0@ by {
                assert(init[i] == entries[i] && init[j] == entries[j]);
            }
        }
        lemma_keyed_lookup(init, k);
        assert(entries[k].0@ != entries[entries.len() - 1].0@);
    }
}

/// Replacing the value of the entry named `entries[k].0` changes only that
/// name's value in the map.
pub proof fn lemma_keyed_update<V>(entries: Seq<(String, V)>, k: int, name: String, value: V)
    requires
        distinct_names(entries),
        0 <= k < entries.len(),
        name@ == entries[k].0@,
    ensures
        keyed_view(entries.update(k, (name, value))) == keyed_view(entries).insert(name@, value),
        distinct_names(entries.update(k, (name, value))),
    decreases entries.len(),
{
    let updated = entries.update(k, (name, value));
    let init = entries.drop_last();
    assert(distinct_names(init)) by {
        assert forall|i: int, j: int|
            0 <= i < init.len() && 0 <= j < init.len() && i != j implies #[trigger] init[i].0@
                != #[trigger] init[j].0@ by {
            assert(init[i] == entries[i] && init[j] == entries[j]);
        }
    }
    assert forall|i: int, j: int|
        0 <= i < updated.len() && 0 <= j < updated.len() && i != j implies #[trigger] updated[i].0@
            != #[trigger] updated[j].0@ by {
        assert(updated[i].0@ == entries[i].0@ && updated[j].0@ == entries[j].0@);
    }
    if k == entries.len() - 1 {
        assert(updated.drop_last() == init);
        assert(keyed_view(updated) =~= keyed_view(entries).insert(name@, value));
    } else {
        lemma_keyed_update(init, k, name, value);
        assert(updated.drop_last() == init.update(k, (name, value)));
        assert(updated.last() == entries.last());
        assert(entries[k].0@ != entries.last().0@);
        assert(keyed_view(updated) =~= keyed_view(entries).insert(name@, value));
    }
}

/// The index of the entry named `name`, if there is one.
pub fn find_name<V>(entries: &Vec<(String, V)>, name: &String) -> (index: Option<usize>)
    ensures
        index matches Some(k) ==> k < entries@.len() && entries@[k as int].0@ == name@,
        index is None ==> forall|i: int| 0 <= i < entries@.len() ==> #[trigger] entries@[i].0@ != name@,
{
    let n = entries.len();
    let mut i: usize = 0;
    while i < n
        invariant
            0 <= i <= n,
            n == entries@.len(),
            forall|j: int| 0 <= j < i ==> #[trigger] entries@[j].0@ != name@,
        decreases n - i,
    {
        if entries[i].0 == *name {
            return Some(i);
        }
        i = i + 1;
    }
    None
}

/// Sets the value named `name`: replaces the value of the entry with that
/// name, or adds an entry at the end when there is none.
pub fn insert_named<V>(entries: &mut Vec<(String, V)>, name: String, value: V)
    requires
        distinct_names(old(entries)@),
    ensures
        distinct_names(final(entries)@),
        keyed_view(final(entries)@) == keyed_view(old(entries)@).insert(name@, value),
{
    match find_name(entries, &name) {
        Some(k) => {
            proof {
                lemma_keyed_update(entries@, k as int, name, value);
            }
            entries.set(k, (name, value));
        },
        None => {
            let ghost before = entries@;
            entries.push((name, value));
            assert(entries@.drop_last() == before);
            assert forall|i: int, j: int|
                0 <= i < entries@.len() && 0 <= j < entries@.len() && i != j implies #[trigger] entries@[i].0@
                    != #[trigger] entries@[j].0@ by {
                if i < before.len() && j < before.len() {
                    assert(entries@[i] == before[i] && entries@[j] == before[j]);
                } else if i < before.len() {
                    assert(entries@[i] == before[i]);
                } else {
                    assert(entries@[j] == before[j]);
                }
            }
        },
    }
}


/// The part of a file name before its first dot: the name of the map that a
/// definition file describes.
pub open spec fn name_before_dot(s: Seq<char>) -> Seq<char>
    decreases s.len(),
{
    if s.len() == 0 || s[0] == '.' {
        Seq::empty()
    } else {
        seq![s[0]] + name_before_dot(s.drop_first())
    }
}

proof fn lemma_name_before_dot(s: Seq<char>, k: int)
    requires
        0 <= k <= s.len(),
        k == s.len() || s[k] == '.',
        forall|j: int| 0 <= j < k ==> #[trigger] s[j] != '.',
    ensures
        name_before_dot(s) == s.take(k),
    decreases s.len(),
{
    if s.len() > 0 && k > 0 {
        let t = s.drop_first();
        assert forall|j: int| 0 <= j < k - 1 implies #[trigger] t[j] != '.' by {
            assert(t[j] == s[j + 1]);
        }
        if k - 1 < t.len() {
            assert(t[k - 1] == s[k]);
        }
        lemma_name_before_dot(t, k - 1);
        assert(seq![s[0]] + t.take(k - 1) =~= s.take(k));
    } else if s.len() > 0 {
        assert(s.take(0) =~= Seq::<char>::empty());
    } else {
        assert(s.take(k) =~= Seq::<char>::empty());
    }
}

/// The name of the map that a definition file describes: the file name up to
/// its first dot, or the whole file name when it has none.
pub fn map_name_from_file_name(file_name: &str) -> (name: String)
    ensures
        name@ == name_before_dot(file_name@),
{
    let n = file_name.unicode_len();
    let mut k: usize = 0;
    let mut found = false;
    for c in it: file_name.chars()
        invariant
            it.seq() == file_name@,
            n == file_name@.len(),
            k <= it.index(),
            found ==> k < it.seq().len() && it.seq()[k as int] == '.',
            !found ==> k == it.index(),
            forall|j: int| 0 <= j < k ==> #[trigger] it.seq()[j] != '.',
    {
        if !found {
            if c == '.' {
                found = true;
            } else {
                k = k + 1;
            }
        }
    }
    proof {
        lemma_name_before_dot(file_name@, k as int);
    }
    file_name.substring_char(0, k).to_owned()
}

/// The definitions of a list of files keyed by map name, where a later file
/// for the same map overrides an earlier one.
pub open spec fn named_by_file<V>(files: Seq<(String, V)>) -> Map<Seq<char>, V>
    decreases files.len(),
{
    if files.len() == 0 {
        Map::empty()
    } else {
        named_by_file(files.drop_last()).insert(name_before_dot(files.last().0@), files.last().1)
    }
}

/// Keys the definitions read from files by the map names their file names
/// give, each name once.
pub fn collect_named<V>(files: Vec<(String, V)>) -> (named: Vec<(String, V)>)
    ensures
        distinct_names(named@),
        keyed_view(named@) == named_by_file(files@),
{
    let ghost all = files@;
    let total = files.len();
    let mut files = files;
    let mut named: Vec<(String, V)> = Vec::new();
    let mut done: usize = 0;
    while files.len() > 0
        invariant
            all.len() == total,
            done + files@.len() == all.len(),
            files@ == all.skip(done as int),
            distinct_names(named@),
            keyed_view(named@) == named_by_file(all.take(done as int)),
        decreases files.len(),
    {
        let (file_name, definition) = files.remove(0);
        proof {
            assert(all.skip(done as int)[0] == all[done as int]);
            assert(all.skip(done as int).remove(0) =~= all.skip(done + 1));
            assert(all.take(done + 1).drop_last() =~= all.take(done as int));
            assert(all.take(done + 1).last() == all[done as int]);
        }
        let name = map_name_from_file_name(file_name.as_str());
        insert_named(&mut named, name, definition);
        done = done + 1;
    }
    assert(all.take(all.len() as int) =~= all);
    named
}

/// Each definition keyed by map name is the definition of one of the files.
pub proof fn lemma_named_by_file_origin<V>(files: Seq<(String, V)>, key: Seq<char>)
    requires
        named_by_file(files).contains_key(key),
    ensures
        exists|j: int| 0 <= j < files.len() && #[trigger] files[j].1 == named_by_file(files)[key],
    decreases files.len(),
{
    let init = files.drop_last();
    if name_before_dot(files.last().0@) != key {
        lemma_named_by_file_origin(init, key);
        let j = choose|j: int| 0 <= j < init.len() && #[trigger] init[j].1 == named_by_file(init)[key];
        assert(files[j] == init[j]);
    } else {
        assert(files[files.len() - 1].1 == named_by_file(files)[key]);
    }
}

/// The map name a file name gives is the start of the file name and holds no
/// dot.
pub proof fn law_map_name_is_dotless_prefix(file_name: Seq<char>)
    ensures
        name_before_dot(file_name).is_prefix_of(file_name),
        !name_before_dot(file_name).contains('.'),
    decreases file_name.len(),
{
    if file_name.len() > 0 && file_name[0] != '.' {
        let rest = file_name.drop_first();
        law_map_name_is_dotless_prefix(rest);
        let name = name_before_dot(file_name);
        assert(name == seq![file_name[0]] + name_before_dot(rest));
        assert forall|j: int| 0 <= j < name.len() implies name[j] == file_name[j] by {
            if j > 0 {
                assert(name[j] == name_before_dot(rest)[j - 1]);
                assert(rest[j - 1] == file_name[j]);
            }
        }
        if name.contains('.') {
            let j = choose|j: int| 0 <= j < name.len() && name[j] == '.';
            assert(j > 0);
            assert(name_before_dot(rest)[j - 1] == '.');
        }
    }
}

} // verus!
