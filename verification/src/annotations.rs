//! Annotation maps: text keys to text values, each key at most once.

use crate::text::str_equal;
use vstd::prelude::*;

verus! {

/// The map that a list of key and value pairs writes, a later pair
/// replacing an earlier one with the same key.
pub open spec fn pairs_to_map(pairs: Seq<(String, String)>) -> Map<Seq<char>, Seq<char>>
    decreases pairs.len(),
{
    if pairs.len() == 0 {
        Map::empty()
    } else {
        pairs_to_map(pairs.drop_last()).insert(pairs.last().0@, pairs.last().1@)
    }
}

/// Whether no key occurs in two pairs.
pub open spec fn keys_unique(pairs: Seq<(String, String)>) -> bool {
    forall|i: int, j: int|
        0 <= i < pairs.len() && 0 <= j < pairs.len() && i != j ==> (#[trigger] pairs[i]).0@ != (
        #[trigger] pairs[j]).0@
}

/// Whether some pair has the given key.
pub open spec fn has_key(pairs: Seq<(String, String)>, key: Seq<char>) -> bool {
    exists|i: int| 0 <= i < pairs.len() && (#[trigger] pairs[i]).0@ == key
}

/// The keys of the written map are the keys of the pairs.
pub proof fn lemma_map_domain(pairs: Seq<(String, String)>, key: Seq<char>)
    ensures
        pairs_to_map(pairs).dom().contains(key) <==> has_key(pairs, key),
    decreases pairs.len(),
{
    if pairs.len() > 0 {
        let front = pairs.drop_last();
        lemma_map_domain(front, key);
        if has_key(front, key) {
            let i = choose|i: int| 0 <= i < front.len() && (#[trigger] front[i]).0@ == key;
            assert(pairs[i].0@ == key);
        }
        if has_key(pairs, key) {
            let i = choose|i: int| 0 <= i < pairs.len() && (#[trigger] pairs[i]).0@ == key;
            if i < front.len() {
                assert(front[i].0@ == key);
            }
        }
        if pairs.last().0@ == key {
            assert(pairs[pairs.len() - 1].0@ == key);
        }
    }
}

/// With unique keys, the written map gives each key the value of its pair.
pub proof fn lemma_map_value(pairs: Seq<(String, String)>, i: int)
    requires
        keys_unique(pairs),
        0 <= i < pairs.len(),
    ensures
        pairs_to_map(pairs).dom().contains(pairs[i].0@),
        pairs_to_map(pairs)[pairs[i].0@] == pairs[i].1@,
    decreases pairs.len(),
{
    let front = pairs.drop_last();
    if i < pairs.len() - 1 {
        assert(keys_unique(front)) by {
            assert forall|a: int, b: int|
                0 <= a < front.len() && 0 <= b < front.len() && a != b implies (
            #[trigger] front[a]).0@ != (#[trigger] front[b]).0@ by {
                assert(pairs[a].0@ != pairs[b].0@);
            }
        }
        lemma_map_value(front, i);
        assert(pairs[i].0@ != pairs[pairs.len() - 1].0@);
    }
}

/// The keys and values of a list of pairs, as plain sequences.
pub open spec fn pair_views(pairs: Seq<(String, String)>) -> Seq<(Seq<char>, Seq<char>)> {
    pairs.map_values(|pair: (String, String)| (pair.0@, pair.1@))
}

/// A map after defaults have been merged into it, one after the other: a
/// default is added where the map has no value for its key yet, and dropped
/// where it has one.
pub open spec fn with_defaults(
    map: Map<Seq<char>, Seq<char>>,
    defaults: Seq<(Seq<char>, Seq<char>)>,
) -> Map<Seq<char>, Seq<char>>
    decreases defaults.len(),
{
    if defaults.len() == 0 {
        map
    } else {
        let merged = with_defaults(map, defaults.drop_last());
        if merged.dom().contains(defaults.last().0) {
            merged
        } else {
            merged.insert(defaults.last().0, defaults.last().1)
        }
    }
}

/// Merging defaults never changes a value that the map had, gives every
/// default key a value, and adds no key of its own.
pub proof fn lemma_with_defaults(
    map: Map<Seq<char>, Seq<char>>,
    defaults: Seq<(Seq<char>, Seq<char>)>,
)
    ensures
        forall|k: Seq<char>| #[trigger]
            map.dom().contains(k) ==> with_defaults(map, defaults).dom().contains(k)
                && with_defaults(map, defaults)[k] == map[k],
        forall|i: int|
            0 <= i < defaults.len() ==> with_defaults(map, defaults).dom().contains(
                (#[trigger] defaults[i]).0,
            ),
        forall|k: Seq<char>| #[trigger]
            with_defaults(map, defaults).dom().contains(k) ==> map.dom().contains(k) || exists|
                i: int,
            |
                0 <= i < defaults.len() && (#[trigger] defaults[i]).0 == k && defaults[i].1
                    == with_defaults(map, defaults)[k],
    decreases defaults.len(),
{
    if defaults.len() > 0 {
        let front = defaults.drop_last();
        lemma_with_defaults(map, front);
        let merged = with_defaults(map, front);
        let result = with_defaults(map, defaults);
        assert forall|i: int| 0 <= i < defaults.len() implies result.dom().contains(
            (#[trigger] defaults[i]).0,
        ) by {
            if i < front.len() {
                assert(front[i] == defaults[i]);
            }
        }
        assert forall|k: Seq<char>| #[trigger] result.dom().contains(k) implies map.dom().contains(
            k,
        ) || exists|i: int|
            0 <= i < defaults.len() && (#[trigger] defaults[i]).0 == k && defaults[i].1
                == result[k] by {
            if !map.dom().contains(k) {
                if merged.dom().contains(k) {
                    let i = choose|i: int|
                        0 <= i < front.len() && (#[trigger] front[i]).0 == k && front[i].1
                            == merged[k];
                    assert(defaults[i] == front[i]);
                } else {
                    assert(defaults[defaults.len() - 1].0 == k);
                }
            }
        }
    }
}

/// A map from annotation keys to annotation values.
#[derive(Debug, PartialEq, Eq)]
pub struct Annotations {
    pub entries: Vec<(String, String)>,
}

impl View for Annotations {
    type V = Map<Seq<char>, Seq<char>>;

    open spec fn view(&self) -> Map<Seq<char>, Seq<char>> {
        pairs_to_map(self.entries@)
    }
}

impl Annotations {
    /// The invariant of the type: no key occurs twice.
    pub open spec fn wf(&self) -> bool {
        keys_unique(self.entries@)
    }

    /// The empty map.
    pub fn new() -> (r: Self)
        ensures
            r.wf(),
            r@ == Map::<Seq<char>, Seq<char>>::empty(),
    {
        Annotations { entries: Vec::new() }
    }

    /// The map that a list of pairs writes, a later pair replacing an
    /// earlier one with the same key.
    pub fn from_pairs(pairs: &Vec<(String, String)>) -> (r: Self)
        ensures
            r.wf(),
            r@ == pairs_to_map(pairs@),
    {
        let mut r = Annotations::new();
        let mut i: usize = 0;
        assert(pairs@.take(0) =~= Seq::<(String, String)>::empty());
        while i < pairs.len()
            invariant
                i <= pairs.len(),
                r.wf(),
                r@ == pairs_to_map(pairs@.take(i as int)),
            decreases pairs.len() - i,
        {
            assert(pairs@.take(i as int + 1).drop_last() =~= pairs@.take(i as int));
            assert(pairs@.take(i as int + 1).last() == pairs@[i as int]);
            r.insert(pairs[i].0.clone(), pairs[i].1.clone());
            i += 1;
        }
        assert(pairs@.take(pairs.len() as int) =~= pairs@);
        r
    }

    /// Whether the value meets the invariant of the type.
    pub fn has_unique_keys(&self) -> (r: bool)
        ensures
            r == self.wf(),
    {
        let mut i: usize = 0;
        while i < self.entries.len()
            invariant
                i <= self.entries.len(),
                forall|a: int, b: int|
                    0 <= a < i && 0 <= b < self.entries@.len() && a != b ==> (
                    #[trigger] self.entries@[a]).0@ != (#[trigger] self.entries@[b]).0@,
            decreases self.entries.len() - i,
        {
            let mut j: usize = i + 1;
            while j < self.entries.len()
                invariant
                    i < self.entries.len(),
                    i < j <= self.entries.len(),
                    forall|b: int|
                        i < b < j ==> self.entries@[i as int].0@ != (#[trigger] self.entries@[b]).0@,
                decreases self.entries.len() - j,
            {
                if str_equal(self.entries[i].0.as_str(), self.entries[j].0.as_str()) {
                    return false;
                }
                j += 1;
            }
            i += 1;
        }
        true
    }

    /// The place of a key among the entries.
    fn position(&self, key: &str) -> (r: Option<usize>)
        ensures
            r matches Some(i) ==> i < self.entries.len() && self.entries@[i as int].0@ == key@,
            r is None ==> !has_key(self.entries@, key@),
    {
        let mut i: usize = 0;
        while i < self.entries.len()
            invariant
                i <= self.entries.len(),
                forall|j: int| 0 <= j < i ==> (#[trigger] self.entries@[j]).0@ != key@,
            decreases self.entries.len() - i,
        {
            if str_equal(self.entries[i].0.as_str(), key) {
                return Some(i);
            }
            i += 1;
        }
        None
    }

    /// Whether the map has the key.
    pub fn contains_key(&self, key: &str) -> (r: bool)
        ensures
            r == self@.dom().contains(key@),
    {
        proof {
            lemma_map_domain(self.entries@, key@);
        }
        self.position(key).is_some()
    }

    /// The value of a key, if the map has it.
    pub fn get(&self, key: &str) -> (r: Option<&String>)
        requires
            self.wf(),
        ensures
            r is Some == self@.dom().contains(key@),
            r matches Some(value) ==> self@[key@] == value@,
    {
        proof {
            lemma_map_domain(self.entries@, key@);
        }
        match self.position(key) {
            Some(i) => {
                proof {
                    lemma_map_value(self.entries@, i as int);
                }
                Some(&self.entries[i].1)
            },
            None => None,
        }
    }

    /// Sets the value of a key, adding the key where the map lacks it.
    pub fn insert(&mut self, key: String, value: String)
        requires
            old(self).wf(),
        ensures
            final(self).wf(),
            final(self)@ == old(self)@.insert(key@, value@),
    {
        match self.position(key.as_str()) {
            Some(i) => {
                let ghost before = self.entries@;
                self.entries.set(i, (key, value));
                proof {
                    let after = self.entries@;
                    assert(keys_unique(after)) by {
                        assert forall|a: int, b: int|
                            0 <= a < after.len() && 0 <= b < after.len() && a != b implies (
                        #[trigger] after[a]).0@ != (#[trigger] after[b]).0@ by {
                            assert(before[a].0@ != before[b].0@);
                        }
                    }
                    assert forall|k: Seq<char>|
                        pairs_to_map(after).dom().contains(k) == #[trigger] pairs_to_map(
                            before,
                        ).insert(key@, value@).dom().contains(k) by {
                        lemma_map_domain(after, k);
                        lemma_map_domain(before, k);
                        if has_key(after, k) {
                            let j = choose|j: int|
                                0 <= j < after.len() && (#[trigger] after[j]).0@ == k;
                            assert(before[j].0@ == k);
                        }
                        if has_key(before, k) {
                            let j = choose|j: int|
                                0 <= j < before.len() && (#[trigger] before[j]).0@ == k;
                            assert(after[j].0@ == k);
                        }
                        if k == key@ {
                            assert(after[i as int].0@ == k);
                        }
                    }
                    assert forall|k: Seq<char>| #[trigger]
                        pairs_to_map(after).dom().contains(k) implies pairs_to_map(after)[k]
                        == pairs_to_map(before).insert(key@, value@)[k] by {
                        lemma_map_domain(after, k);
                        let j = choose|j: int|
                            0 <= j < after.len() && (#[trigger] after[j]).0@ == k;
                        lemma_map_value(after, j);
                        if j != i {
                            assert(before[j].0@ != before[i as int].0@);
                            lemma_map_value(before, j);
                        }
                    }
                    assert(pairs_to_map(after) =~= pairs_to_map(before).insert(key@, value@));
                }
            },
            None => {
                let ghost before = self.entries@;
                self.entries.push((key, value));
                proof {
                    assert(self.entries@.drop_last() =~= before);
                    assert forall|a: int, b: int|
                        0 <= a < self.entries@.len() && 0 <= b < self.entries@.len() && a
                            != b implies (#[trigger] self.entries@[a]).0@ != (
                    #[trigger] self.entries@[b]).0@ by {
                        if a < before.len() {
                            assert(before[a].0@ == self.entries@[a].0@);
                        }
                        if b < before.len() {
                            assert(before[b].0@ == self.entries@[b].0@);
                        }
                    }
                }
            },
        }
    }

    /// Adds a key with its value where the map lacks the key, and leaves the
    /// map as it is where it has the key.
    pub fn insert_if_absent(&mut self, key: String, value: String)
        requires
            old(self).wf(),
        ensures
            final(self).wf(),
            final(self)@ == if old(self)@.dom().contains(key@) {
                old(self)@
            } else {
                old(self)@.insert(key@, value@)
            },
    {
        if !self.contains_key(key.as_str()) {
            self.insert(key, value);
        }
    }

    /// Takes a key out of the map.
    pub fn remove(&mut self, key: &str)
        requires
            old(self).wf(),
        ensures
            final(self).wf(),
            final(self)@ == old(self)@.remove(key@),
    {
        proof {
            lemma_map_domain(self.entries@, key@);
        }
        match self.position(key) {
            Some(i) => {
                let ghost before = self.entries@;
                self.entries.remove(i);
                proof {
                    let after = self.entries@;
                    assert forall|a: int, b: int|
                        0 <= a < after.len() && 0 <= b < after.len() && a != b implies (
                    #[trigger] after[a]).0@ != (#[trigger] after[b]).0@ by {
                        let a0 = if a < i { a } else { a + 1 };
                        let b0 = if b < i { b } else { b + 1 };
                        assert(before[a0].0@ != before[b0].0@);
                    }
                    assert forall|k: Seq<char>|
                        pairs_to_map(after).dom().contains(k) == #[trigger] pairs_to_map(
                            before,
                        ).remove(key@).dom().contains(k) by {
                        lemma_map_domain(after, k);
                        lemma_map_domain(before, k);
                        if has_key(after, k) {
                            let j = choose|j: int|
                                0 <= j < after.len() && (#[trigger] after[j]).0@ == k;
                            let j0 = if j < i { j } else { j + 1 };
                            assert(before[j0].0@ == k);
                            assert(before[j0].0@ != before[i as int].0@);
                        }
                        if has_key(before, k) && k != key@ {
                            let j = choose|j: int|
                                0 <= j < before.len() && (#[trigger] before[j]).0@ == k;
                            let j1 = if j < i { j } else { j - 1 };
                            assert(after[j1].0@ == k);
                        }
                    }
                    assert forall|k: Seq<char>| #[trigger]
                        pairs_to_map(after).dom().contains(k) implies pairs_to_map(after)[k]
                        == pairs_to_map(before).remove(key@)[k] by {
                        lemma_map_domain(after, k);
                        let j = choose|j: int|
                            0 <= j < after.len() && (#[trigger] after[j]).0@ == k;
                        let j0 = if j < i { j } else { j + 1 };
                        lemma_map_value(after, j);
                        lemma_map_value(before, j0);
                    }
                    assert(pairs_to_map(after) =~= pairs_to_map(before).remove(key@));
                }
            },
            None => {
                assert(self@.remove(key@) =~= self@);
            },
        }
    }

    /// A copy of the map.
    pub fn duplicate(&self) -> (r: Self)
        ensures
            r.wf() == self.wf(),
            r@ == self@,
            r.entries@.len() == self.entries@.len(),
            forall|i: int|
                0 <= i < self.entries@.len() ==> (#[trigger] r.entries@[i]).0@ == self.entries@[i].0@
                    && r.entries@[i].1@ == self.entries@[i].1@,
    {
        let mut entries: Vec<(String, String)> = Vec::new();
        let mut i: usize = 0;
        while i < self.entries.len()
            invariant
                i <= self.entries.len(),
                entries@.len() == i,
                forall|j: int|
                    0 <= j < i ==> (#[trigger] entries@[j]).0@ == self.entries@[j].0@
                        && entries@[j].1@ == self.entries@[j].1@,
            decreases self.entries.len() - i,
        {
            entries.push((self.entries[i].0.clone(), self.entries[i].1.clone()));
            i += 1;
        }
        let r = Annotations { entries };
        proof {
            lemma_same_pairs_same_map(r.entries@, self.entries@);
        }
        r
    }
}

/// Two lists of pairs with the same keys and values, place by place, write
/// the same map.
pub proof fn lemma_same_pairs_same_map(a: Seq<(String, String)>, b: Seq<(String, String)>)
    requires
        a.len() == b.len(),
        forall|i: int| 0 <= i < a.len() ==> (#[trigger] a[i]).0@ == b[i].0@ && a[i].1@ == b[i].1@,
    ensures
        pairs_to_map(a) == pairs_to_map(b),
        keys_unique(a) == keys_unique(b),
    decreases a.len(),
{
    if a.len() > 0 {
        assert(a.last().0@ == b.last().0@ && a.last().1@ == b.last().1@) by {
            assert(a[a.len() - 1].0@ == b[a.len() - 1].0@);
        }
        assert forall|i: int| 0 <= i < a.drop_last().len() implies (#[trigger] a.drop_last()[i]).0@
            == b.drop_last()[i].0@ && a.drop_last()[i].1@ == b.drop_last()[i].1@ by {
            assert(a[i].0@ == b[i].0@);
        }
        lemma_same_pairs_same_map(a.drop_last(), b.drop_last());
    }
    if keys_unique(a) {
        assert forall|i: int, j: int|
            0 <= i < b.len() && 0 <= j < b.len() && i != j implies (#[trigger] b[i]).0@ != (
        #[trigger] b[j]).0@ by {
            assert(a[i].0@ != a[j].0@);
        }
    }
    if keys_unique(b) {
        assert forall|i: int, j: int|
            0 <= i < a.len() && 0 <= j < a.len() && i != j implies (#[trigger] a[i]).0@ != (
        #[trigger] a[j]).0@ by {
            assert(b[i].0@ != b[j].0@);
        }
    }
}

} // verus!
