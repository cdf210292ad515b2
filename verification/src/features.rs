//! The features of a crate version: a map from a feature's name to the
//! features and dependencies that it switches on.
use vstd::prelude::*;

use crate::text::{copy_texts, same_text};

verus! {

/// A map from feature names to lists of what each feature enables.
#[derive(Debug)]
pub struct FeatureMap {
    entries: Vec<(String, Vec<String>)>,
}

/// No name stands in two places.
pub open spec fn distinct_names(entries: Seq<(String, Vec<String>)>) -> bool {
    forall|i: int, j: int|
        0 <= i < entries.len() && 0 <= j < entries.len() && i != j ==> (
        #[trigger] entries[i]).0@ != (#[trigger] entries[j]).0@
}

/// The place at which the name stands.
pub open spec fn stands_at(entries: Seq<(String, Vec<String>)>, name: Seq<char>, i: int) -> bool {
    0 <= i < entries.len() && entries[i].0@ == name
}

/// The map that a list of names and values stands for.
pub open spec fn map_of(entries: Seq<(String, Vec<String>)>) -> Map<Seq<char>, Seq<Seq<char>>> {
    Map::new(
        |name: Seq<char>| exists|i: int| stands_at(entries, name, i),
        |name: Seq<char>| entries[choose|i: int| stands_at(entries, name, i)].1.deep_view(),
    )
}

/// What two feature maps say together: the names of both, and for a name in
/// both the list of the first with that of the second behind it.
pub open spec fn merged(
    first: Map<Seq<char>, Seq<Seq<char>>>,
    second: Map<Seq<char>, Seq<Seq<char>>>,
) -> Map<Seq<char>, Seq<Seq<char>>> {
    Map::new(
        |name: Seq<char>| first.contains_key(name) || second.contains_key(name),
        |name: Seq<char>|
            if !second.contains_key(name) {
                first[name]
            } else if !first.contains_key(name) {
                second[name]
            } else {
                first[name] + second[name]
            },
    )
}

/// Two feature maps together have the names of both; under a name of one they
/// have its list, and under a name of both the list of the first with that of the
/// second behind it.
pub proof fn law_merged(
    first: Map<Seq<char>, Seq<Seq<char>>>,
    second: Map<Seq<char>, Seq<Seq<char>>>,
    name: Seq<char>,
)
    ensures
        merged(first, second).contains_key(name) == (first.contains_key(name)
            || second.contains_key(name)),
        first.contains_key(name) && !second.contains_key(name) ==> merged(first, second)[name]
            == first[name],
        second.contains_key(name) && !first.contains_key(name) ==> merged(first, second)[name]
            == second[name],
        first.contains_key(name) && second.contains_key(name) ==> merged(first, second)[name]
            == first[name] + second[name],
{
}

impl View for FeatureMap {
    type V = Map<Seq<char>, Seq<Seq<char>>>;

    closed spec fn view(&self) -> Map<Seq<char>, Seq<Seq<char>>> {
        map_of(self.entries@)
    }
}

impl DeepView for FeatureMap {
    type V = Map<Seq<char>, Seq<Seq<char>>>;

    open spec fn deep_view(&self) -> Map<Seq<char>, Seq<Seq<char>>> {
        self@
    }
}

impl FeatureMap {
    #[verifier::type_invariant]
    spec fn names_are_distinct(self) -> bool {
        distinct_names(self.entries@)
    }

    /// An empty map.
    pub fn new() -> (map: Self)
        ensures
            map@ == Map::<Seq<char>, Seq<Seq<char>>>::empty(),
    {
        let map = FeatureMap { entries: Vec::new() };
        assert(map@ =~= Map::<Seq<char>, Seq<Seq<char>>>::empty()) by {
            assert forall|name: Seq<char>| !map@.contains_key(name) by {}
        }
        map
    }

    /// Whether the map has a feature of this name.
    pub fn contains_key(&self, name: &str) -> (yes: bool)
        ensures
            yes == self@.contains_key(name@),
    {
        find_name(&self.entries, name).is_some()
    }

    /// What the feature of this name enables.
    pub fn get(&self, name: &str) -> (values: Option<&Vec<String>>)
        ensures
            match values {
                Some(list) => self@.contains_key(name@) && list.deep_view() == self@[name@],
                None => !self@.contains_key(name@),
            },
    {
        proof {
            use_type_invariant(self);
        }
        match find_name(&self.entries, name) {
            Some(i) => {
                proof {
                    lemma_map_at(self.entries@, i as int);
                }
                Some(&self.entries[i].1)
            },
            None => None,
        }
    }

    /// Set what the feature of this name enables, in place of anything it had.
    pub fn insert(&mut self, name: String, values: Vec<String>)
        ensures
            final(self)@ == old(self)@.insert(name@, values.deep_view()),
    {
        proof {
            use_type_invariant(&*self);
        }
        let mut entries: Vec<(String, Vec<String>)> = Vec::new();
        std::mem::swap(&mut entries, &mut self.entries);
        let ghost before = entries@;
        match find_name(&entries, name.as_str()) {
            Some(i) => {
                entries[i].1 = values;
                proof {
                    lemma_map_replaced(before, entries@, i as int);
                }
            },
            None => {
                entries.push((name, values));
                proof {
                    lemma_map_pushed(before, entries@.last());
                }
                assert(entries@ =~= before.push(entries@.last()));
            },
        }
        self.entries = entries;
    }

    /// The features of both maps; a feature of both has the list of `self` with
    /// that of `more` behind it.
    pub fn merged_with(&self, more: &FeatureMap) -> (both: FeatureMap)
        ensures
            both@ == merged(self@, more@),
    {
        proof {
            use_type_invariant(self);
            use_type_invariant(more);
        }
        let mut entries = copy_entries(&self.entries);
        proof {
            lemma_merged_nothing(self@, more.entries@.take(0));
        }
        for i in 0..more.entries.len()
            invariant
                distinct_names(more.entries@),
                distinct_names(entries@),
                map_of(entries@) == merged(self@, map_of(more.entries@.take(i as int))),
        {
            let ghost seen = more.entries@.take(i as int);
            append_values(&mut entries, more.entries[i].0.as_str(), &more.entries[i].1);
            proof {
                assert(distinct_names(seen));
                assert forall|j: int| !stands_at(seen, more.entries@[i as int].0@, j) by {
                    if stands_at(seen, more.entries@[i as int].0@, j) {
                        assert(more.entries@[j].0@ == more.entries@[i as int].0@);
                    }
                }
                lemma_map_pushed(seen, more.entries@[i as int]);
                assert(more.entries@.take(i + 1) =~= seen.push(more.entries@[i as int]));
                assert(map_of(entries@) =~= merged(
                    self@,
                    map_of(more.entries@.take(i + 1)),
                ));
            }
        }
        assert(more.entries@.take(more.entries@.len() as int) =~= more.entries@);
        FeatureMap { entries }
    }

    /// The features as a list of names and what each enables; no name occurs
    /// twice.
    pub fn into_pairs(self) -> (pairs: Vec<(String, Vec<String>)>)
        ensures
            distinct_names(pairs@),
            map_of(pairs@) == self@,
            forall|i: int|
                0 <= i < pairs@.len() ==> self@.contains_key((#[trigger] pairs@[i]).0@)
                    && self@[pairs@[i].0@] == pairs@[i].1.deep_view(),
            forall|name: Seq<char>| #[trigger]
                self@.contains_key(name) ==> exists|i: int|
                    0 <= i < pairs@.len() && (#[trigger] pairs@[i]).0@ == name,
            forall|i: int, j: int|
                0 <= i < pairs@.len() && 0 <= j < pairs@.len() && i != j ==> (
                #[trigger] pairs@[i]).0@ != (#[trigger] pairs@[j]).0@,
    {
        proof {
            use_type_invariant(&self);
            assert forall|i: int| 0 <= i < self.entries@.len() implies self@.contains_key(
                (#[trigger] self.entries@[i]).0@,
            ) && self@[self.entries@[i].0@] == self.entries@[i].1.deep_view() by {
                lemma_map_at(self.entries@, i);
                assert(stands_at(self.entries@, self.entries@[i].0@, i));
            }
            assert forall|name: Seq<char>| #[trigger] self@.contains_key(name) implies exists|
                i: int,
            |
                0 <= i < self.entries@.len() && (#[trigger] self.entries@[i]).0@ == name by {
                let i = choose|i: int| stands_at(self.entries@, name, i);
                assert(self.entries@[i].0@ == name);
            }
        }
        self.entries
    }
}

impl Clone for FeatureMap {
    fn clone(&self) -> (copy: Self)
        ensures
            copy@ == self@,
    {
        proof {
            use_type_invariant(self);
        }
        FeatureMap { entries: copy_entries(&self.entries) }
    }
}

impl Default for FeatureMap {
    fn default() -> (map: Self)
        ensures
            map@ == Map::<Seq<char>, Seq<Seq<char>>>::empty(),
    {
        FeatureMap::new()
    }
}

/// A copy of a list of names and values.
fn copy_entries(entries: &Vec<(String, Vec<String>)>) -> (copy: Vec<(String, Vec<String>)>)
    requires
        distinct_names(entries@),
    ensures
        distinct_names(copy@),
        map_of(copy@) == map_of(entries@),
{
    let mut copy: Vec<(String, Vec<String>)> = Vec::new();
    for i in 0..entries.len()
        invariant
            copy@.len() == i,
            forall|j: int|
                0 <= j < i ==> (#[trigger] copy@[j]).0@ == entries@[j].0@ && copy@[j].1.deep_view()
                    == entries@[j].1.deep_view(),
    {
        copy.push((entries[i].0.clone(), copy_texts(&entries[i].1)));
    }
    proof {
        lemma_same_map(entries@, copy@);
    }
    copy
}

proof fn lemma_same_map(a: Seq<(String, Vec<String>)>, b: Seq<(String, Vec<String>)>)
    requires
        distinct_names(a),
        a.len() == b.len(),
        forall|j: int|
            0 <= j < b.len() ==> (#[trigger] b[j]).0@ == a[j].0@ && b[j].1.deep_view()
                == a[j].1.deep_view(),
    ensures
        distinct_names(b),
        map_of(b) == map_of(a),
{
    assert(distinct_names(b)) by {
        assert forall|i: int, j: int| 0 <= i < b.len() && 0 <= j < b.len() && i != j implies (
        #[trigger] b[i]).0@ != (#[trigger] b[j]).0@ by {
            assert(a[i].0@ != a[j].0@);
        }
    }
    assert forall|name: Seq<char>| #[trigger]
        map_of(b).contains_key(name) == map_of(a).contains_key(name) by {
        if map_of(b).contains_key(name) {
            let j = choose|j: int| stands_at(b, name, j);
            assert(stands_at(a, name, j));
        }
        if map_of(a).contains_key(name) {
            let j = choose|j: int| stands_at(a, name, j);
            assert(stands_at(b, name, j));
        }
    }
    assert forall|name: Seq<char>| map_of(a).contains_key(name) implies map_of(b)[name] == map_of(
        a,
    )[name] by {
        let j = choose|j: int| stands_at(a, name, j);
        lemma_map_at(a, j);
        lemma_map_at(b, j);
    }
    assert(map_of(b) =~= map_of(a));
}

proof fn lemma_merged_nothing(
    map: Map<Seq<char>, Seq<Seq<char>>>,
    none: Seq<(String, Vec<String>)>,
)
    requires
        none.len() == 0,
    ensures
        merged(map, map_of(none)) == map,
{
    assert(merged(map, map_of(none)) =~= map);
}

proof fn lemma_map_at(entries: Seq<(String, Vec<String>)>, i: int)
    requires
        distinct_names(entries),
        0 <= i < entries.len(),
    ensures
        map_of(entries).contains_key(entries[i].0@),
        map_of(entries)[entries[i].0@] == entries[i].1.deep_view(),
{
    assert(stands_at(entries, entries[i].0@, i));
    let j = choose|j: int| stands_at(entries, entries[i].0@, j);
    assert(entries[i].0@ == entries[j].0@);
}

/// The place of `name`, if it has one.
fn find_name(entries: &Vec<(String, Vec<String>)>, name: &str) -> (place: Option<usize>)
    ensures
        match place {
            Some(i) => stands_at(entries@, name@, i as int),
            None => forall|i: int| !stands_at(entries@, name@, i),
        },
{
    for i in 0..entries.len()
        invariant
            forall|j: int| 0 <= j < i ==> !stands_at(entries@, name@, j),
    {
        if same_text(entries[i].0.as_str(), name) {
            return Some(i);
        }
    }
    None
}

/// Put `values` behind what `name` already has, in a list of distinct names.
fn append_values(entries: &mut Vec<(String, Vec<String>)>, name: &str, values: &Vec<String>)
    requires
        distinct_names(old(entries)@),
    ensures
        distinct_names(final(entries)@),
        map_of(final(entries)@) == merged(
            map_of(old(entries)@),
            Map::<Seq<char>, Seq<Seq<char>>>::empty().insert(name@, values.deep_view()),
        ),
{
    let ghost before = entries@;
    match find_name(entries, name) {
        Some(i) => {
            let mut added = copy_texts(values);
            let ghost had = entries@[i as int].1.deep_view();
            entries[i].1.append(&mut added);
            assert(entries@[i as int].1.deep_view() =~= had + values.deep_view());
            proof {
                lemma_map_replaced(before, entries@, i as int);
                lemma_map_at(before, i as int);
            }
        },
        None => {
            entries.push((name.to_owned(), copy_texts(values)));
            proof {
                lemma_map_pushed(before, entries@.last());
            }
            assert(entries@ =~= before.push(entries@.last()));
        },
    }
    assert(map_of(entries@) =~= merged(
        map_of(before),
        Map::<Seq<char>, Seq<Seq<char>>>::empty().insert(name@, values.deep_view()),
    ));
}

proof fn lemma_map_replaced(
    before: Seq<(String, Vec<String>)>,
    after: Seq<(String, Vec<String>)>,
    i: int,
)
    requires
        distinct_names(before),
        0 <= i < before.len(),
        after.len() == before.len(),
        after[i].0 == before[i].0,
        forall|j: int| 0 <= j < before.len() && j != i ==> #[trigger] after[j] == before[j],
    ensures
        distinct_names(after),
        map_of(after) == map_of(before).insert(before[i].0@, after[i].1.deep_view()),
{
    assert(distinct_names(after)) by {
        assert forall|a: int, b: int|
            0 <= a < after.len() && 0 <= b < after.len() && a != b implies (
        #[trigger] after[a]).0@ != (#[trigger] after[b]).0@ by {
            assert(before[a].0@ != before[b].0@);
        }
    }
    assert forall|name: Seq<char>|
        map_of(after).contains_key(name) == map_of(before).contains_key(name) by {
        if map_of(after).contains_key(name) {
            let j = choose|j: int| stands_at(after, name, j);
            assert(stands_at(before, name, j));
        }
        if map_of(before).contains_key(name) {
            let j = choose|j: int| stands_at(before, name, j);
            assert(stands_at(after, name, j));
        }
    }
    lemma_map_at(after, i);
    lemma_map_at(before, i);
    assert forall|name: Seq<char>|
        map_of(before).contains_key(name) && name != before[i].0@ implies map_of(after)[name]
        == map_of(before)[name] by {
        let j = choose|j: int| stands_at(before, name, j);
        lemma_map_at(before, j);
        lemma_map_at(after, j);
    }
    assert(map_of(after) =~= map_of(before).insert(before[i].0@, after[i].1.deep_view()));
}

proof fn lemma_map_pushed(before: Seq<(String, Vec<String>)>, added: (String, Vec<String>))
    requires
        distinct_names(before),
        forall|i: int| !stands_at(before, added.0@, i),
    ensures
        distinct_names(before.push(added)),
        !map_of(before).contains_key(added.0@),
        map_of(before.push(added)) == map_of(before).insert(added.0@, added.1.deep_view()),
{
    let after = before.push(added);
    assert(distinct_names(after)) by {
        assert forall|a: int, b: int|
            0 <= a < after.len() && 0 <= b < after.len() && a != b implies (
        #[trigger] after[a]).0@ != (#[trigger] after[b]).0@ by {
            if a < before.len() && b < before.len() {
                assert(before[a].0@ != before[b].0@);
            } else if a < before.len() {
                assert(!stands_at(before, added.0@, a));
            } else {
                assert(!stands_at(before, added.0@, b));
            }
        }
    }
    assert forall|name: Seq<char>| #[trigger]
        map_of(after).contains_key(name) == (map_of(before).contains_key(name) || name
            == added.0@) by {
        if map_of(after).contains_key(name) {
            let j = choose|j: int| stands_at(after, name, j);
            if j < before.len() {
                assert(stands_at(before, name, j));
            }
        }
        if map_of(before).contains_key(name) {
            let j = choose|j: int| stands_at(before, name, j);
            assert(stands_at(after, name, j));
        }
        if name == added.0@ {
            assert(stands_at(after, name, before.len() as int));
        }
    }
    lemma_map_at(after, before.len() as int);
    assert forall|name: Seq<char>| map_of(before).contains_key(name) implies map_of(after)[name]
        == map_of(before)[name] by {
        let j = choose|j: int| stands_at(before, name, j);
        lemma_map_at(before, j);
        lemma_map_at(after, j);
    }
    assert(map_of(after) =~= map_of(before).insert(added.0@, added.1.deep_view()));
}

} // verus!
