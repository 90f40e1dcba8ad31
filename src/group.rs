use vstd::prelude::*;

verus! {

/// The text of a label; a missing label counts as the empty string.
pub open spec fn label_of(label: Option<String>) -> Seq<char> {
    match label {
        Some(s) => s@,
        None => Seq::empty(),
    }
}

/// Whether some entry of `entries` has the key `key`.
pub open spec fn has_key(entries: Seq<(Seq<char>, int)>, key: Seq<char>) -> bool {
    exists|j: int| 0 <= j < entries.len() && (#[trigger] entries[j]).0 == key
}

/// Each distinct label of `labels` with the position of its first
/// occurrence, in the order in which the labels first appear.
pub open spec fn grouped(labels: Seq<Seq<char>>) -> Seq<(Seq<char>, int)>
    decreases labels.len(),
{
    if labels.len() == 0 {
        Seq::empty()
    } else {
        let rest = grouped(labels.drop_last());
        if has_key(rest, labels.last()) {
            rest
        } else {
            rest.push((labels.last(), labels.len() - 1))
        }
    }
}

/// What a grouping holds: each entry's index is the first position at which
/// its key occurs, the entries appear in increasing order of those
/// positions (so no key appears twice), and every label has an entry.
pub proof fn lemma_grouped_first_occurrence(labels: Seq<Seq<char>>)
    ensures
        ({
            let g = grouped(labels);
            &&& forall|e: int|
                0 <= e < g.len() ==> 0 <= (#[trigger] g[e]).1 < labels.len() && labels[g[e].1]
                    == g[e].0
            &&& forall|e: int, m: int|
                0 <= e < g.len() && 0 <= m < (#[trigger] g[e]).1 ==> #[trigger] labels[m] != g[e].0
            &&& forall|e1: int, e2: int|
                0 <= e1 < e2 < g.len() ==> (#[trigger] g[e1]).1 < (#[trigger] g[e2]).1
            &&& forall|m: int| 0 <= m < labels.len() ==> has_key(g, #[trigger] labels[m])
        }),
    decreases labels.len(),
{
    if labels.len() > 0 {
        let s = labels.drop_last();
        lemma_grouped_first_occurrence(s);
        let rest = grouped(s);
        let g = grouped(labels);
        assert forall|m: int| 0 <= m < s.len() implies #[trigger] labels[m] == s[m] by {}
        if !has_key(rest, labels.last()) {
            assert forall|m: int| 0 <= m < s.len() implies #[trigger] labels[m] != labels.last() by {
                assert(has_key(rest, s[m]));
            }
            assert forall|m: int| 0 <= m < labels.len() implies has_key(g, #[trigger] labels[m]) by {
                if m < s.len() {
                    assert(has_key(rest, s[m]));
                    let j = choose|j: int| 0 <= j < rest.len() && (#[trigger] rest[j]).0 == s[m];
                    assert(g[j] == rest[j]);
                } else {
                    assert(g[rest.len() as int].0 == labels[m]);
                }
            }
        } else {
            assert forall|m: int| 0 <= m < labels.len() implies has_key(g, #[trigger] labels[m]) by {
                if m < s.len() {
                    assert(has_key(rest, s[m]));
                }
            }
        }
    }
}

/// The entries of a grouping as keys and indexes.
pub open spec fn entries_view(entries: Seq<(String, usize)>) -> Seq<(Seq<char>, int)> {
    entries.map_values(|e: (String, usize)| (e.0@, e.1 as int))
}

/// Whether one of `entries` has the key `key`.
fn contains_key(entries: &Vec<(String, usize)>, key: &String) -> (r: bool)
    ensures
        r == has_key(entries_view(entries@), key@),
{
    let ghost ev = entries_view(entries@);
    let mut j: usize = 0;
    while j < entries.len()
        invariant
            j <= entries@.len(),
            ev == entries_view(entries@),
            forall|m: int| 0 <= m < j ==> (#[trigger] ev[m]).0 != key@,
        decreases entries@.len() - j,
    {
        if entries[j].0 == *key {
            assert(ev[j as int].0 == key@);
            return true;
        }
        j = j + 1;
    }
    false
}

/// Maps each distinct label to the index of its first occurrence, keeping
/// the labels in the order in which they first appear. A missing label
/// (`None`) is grouped as the empty string.
pub fn group_indexes(labels: &[Option<String>]) -> (r: Vec<(String, usize)>)
    ensures
        entries_view(r@) == grouped(labels@.map_values(|l: Option<String>| label_of(l))),
{
    let ghost keys = labels@.map_values(|l: Option<String>| label_of(l));
    let mut r: Vec<(String, usize)> = Vec::new();
    let mut i: usize = 0;
    while i < labels.len()
        invariant
            i <= labels@.len(),
            keys == labels@.map_values(|l: Option<String>| label_of(l)),
            entries_view(r@) == grouped(keys.take(i as int)),
        decreases labels@.len() - i,
    {
        let key = match &labels[i] {
            Some(s) => s.clone(),
            None => String::new(),
        };
        assert(key@ == keys[i as int]);
        assert(keys.take(i + 1).drop_last() =~= keys.take(i as int));
        assert(keys.take(i + 1).last() == keys[i as int]);
        if !contains_key(&r, &key) {
            r.push((key, i));
            assert(entries_view(r@) =~= grouped(keys.take(i as int)).push((keys[i as int], i as int)));
        }
        i = i + 1;
    }
    assert(keys.take(i as int) =~= keys);
    r
}

} // verus!
