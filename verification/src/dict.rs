//! The coordinator dictionaries.
//!
//! `SumDict` maps each sum participant to the ephemeral key it registered for
//! the round; a `LocalSeedDict` is one update participant's submission,
//! keyed by sum participant; and the coordinator-side `SeedDict` collects,
//! for every sum participant, the encrypted seeds of every accepted update
//! participant. All are small association lists with unique keys, viewed as
//! mathematical maps.

use vstd::prelude::*;
use crate::bytes::bytes_eq;

verus! {

/// A dictionary from byte-string keys to byte-string values, with unique
/// keys. Keys are participant public keys; values are ephemeral keys or
/// encrypted seeds.
#[derive(Debug)]
pub struct ByteDict {
    pub entries: Vec<(Vec<u8>, Vec<u8>)>,
}

/// The map a list of entries stands for: later entries would win, but a
/// well-formed dictionary has unique keys.
pub open spec fn dict_map(s: Seq<(Vec<u8>, Vec<u8>)>) -> Map<Seq<u8>, Seq<u8>>
    decreases s.len(),
{
    if s.len() == 0 {
        Map::empty()
    } else {
        dict_map(s.drop_last()).insert(s.last().0@, s.last().1@)
    }
}

/// No key appears twice.
pub open spec fn unique_keys(s: Seq<(Vec<u8>, Vec<u8>)>) -> bool {
    forall|i: int, j: int|
        0 <= i < j < s.len() ==> (#[trigger] s[i]).0@ != (#[trigger] s[j]).0@
}

/// The map of an entry list contains exactly the listed keys, and with unique
/// keys each listed entry gives its key's value.
pub proof fn lemma_dict_map_props(s: Seq<(Vec<u8>, Vec<u8>)>)
    ensures
        forall|k: Seq<u8>|
            #[trigger] dict_map(s).contains_key(k) <==> exists|i: int|
                0 <= i < s.len() && (#[trigger] s[i]).0@ == k,
        unique_keys(s) ==> forall|i: int|
            0 <= i < s.len() ==> dict_map(s).contains_key((#[trigger] s[i]).0@)
                && dict_map(s)[s[i].0@] == s[i].1@,
    decreases s.len(),
{
    if s.len() == 0 {
    } else {
        let d = s.drop_last();
        lemma_dict_map_props(d);
        assert forall|k: Seq<u8>| #[trigger]
            dict_map(s).contains_key(k) implies exists|i: int|
            0 <= i < s.len() && (#[trigger] s[i]).0@ == k by {
            if k == s.last().0@ {
                assert(s[s.len() - 1].0@ == k);
            } else {
                assert(dict_map(d).contains_key(k));
                let i = choose|i: int| 0 <= i < d.len() && (#[trigger] d[i]).0@ == k;
                assert(s[i].0@ == k);
            }
        }
        assert forall|k: Seq<u8>|
            (exists|i: int| 0 <= i < s.len() && (#[trigger] s[i]).0@ == k) implies #[trigger]
        dict_map(s).contains_key(k) by {
            let i = choose|i: int| 0 <= i < s.len() && (#[trigger] s[i]).0@ == k;
            if i == s.len() - 1 {
            } else {
                assert(d[i].0@ == k);
                assert(dict_map(d).contains_key(k));
            }
        }
        if unique_keys(s) {
            assert(unique_keys(d));
            assert forall|i: int| 0 <= i < s.len() implies dict_map(s).contains_key((
            #[trigger] s[i]).0@) && dict_map(s)[s[i].0@] == s[i].1@ by {
                if i == s.len() - 1 {
                } else {
                    assert(d[i] == s[i]);
                    assert(s[i].0@ != s.last().0@);
                }
            }
        }
    }
}

impl ByteDict {
    /// The dictionary as a mathematical map.
    pub open spec fn view_map(&self) -> Map<Seq<u8>, Seq<u8>> {
        dict_map(self.entries@)
    }

    /// Unique keys.
    pub open spec fn wf(&self) -> bool {
        unique_keys(self.entries@)
    }

    /// An empty dictionary.
    pub fn new() -> (r: ByteDict)
        ensures
            r.wf(),
            r.view_map() == Map::<Seq<u8>, Seq<u8>>::empty(),
            r.entries@.len() == 0,
    {
        ByteDict { entries: Vec::new() }
    }

    /// The number of entries.
    pub fn len(&self) -> (r: usize)
        ensures
            r == self.entries@.len(),
    {
        self.entries.len()
    }

    /// Looks a key up; the result is what the map holds for it.
    pub fn get(&self, key: &Vec<u8>) -> (r: Option<Vec<u8>>)
        requires
            self.wf(),
        ensures
            match r {
                Some(v) => self.view_map().contains_key(key@) && v@ == self.view_map()[key@],
                None => !self.view_map().contains_key(key@),
            },
    {
        proof {
            lemma_dict_map_props(self.entries@);
        }
        let mut i: usize = 0;
        while i < self.entries.len()
            invariant
                self.wf(),
                i <= self.entries@.len(),
                forall|j: int| 0 <= j < i ==> (#[trigger] self.entries@[j]).0@ != key@,
            decreases self.entries@.len() - i,
        {
            if bytes_eq(&self.entries[i].0, key) {
                proof {
                    lemma_dict_map_props(self.entries@);
                }
                return Some(crate::bytes::copy_bytes(&self.entries[i].1));
            }
            i = i + 1;
        }
        proof {
            lemma_dict_map_props(self.entries@);
            if self.view_map().contains_key(key@) {
                let w = choose|j: int|
                    0 <= j < self.entries@.len() && (#[trigger] self.entries@[j]).0@ == key@;
            }
        }
        None
    }

    /// Whether a key is present.
    pub fn contains(&self, key: &Vec<u8>) -> (r: bool)
        requires
            self.wf(),
        ensures
            r == self.view_map().contains_key(key@),
    {
        self.get(key).is_some()
    }

    /// Inserts a fresh key, or reports that it is already present and leaves
    /// the dictionary unchanged.
    pub fn insert_new(&mut self, key: Vec<u8>, value: Vec<u8>) -> (r: bool)
        requires
            old(self).wf(),
        ensures
            final(self).wf(),
            r == !old(self).view_map().contains_key(key@),
            r ==> final(self).view_map() == old(self).view_map().insert(key@, value@)
                && final(self).entries@.len() == old(self).entries@.len() + 1,
            !r ==> *final(self) == *old(self),
    {
        if self.contains(&key) {
            return false;
        }
        proof {
            lemma_dict_map_props(self.entries@);
        }
        let ghost oldself = *self;
        self.entries.push((key, value));
        proof {
            assert(self.entries@.drop_last() =~= oldself.entries@);
            assert forall|i: int, j: int| 0 <= i < j < self.entries@.len() implies (
            #[trigger] self.entries@[i]).0@ != (#[trigger] self.entries@[j]).0@ by {
                if j == self.entries@.len() - 1 {
                    assert(oldself.entries@[i].0@ != self.entries@[j].0@);
                }
            }
        }
        true
    }

    /// Inserts or replaces a key.
    pub fn insert(&mut self, key: Vec<u8>, value: Vec<u8>)
        requires
            old(self).wf(),
        ensures
            final(self).wf(),
            final(self).view_map() == old(self).view_map().insert(key@, value@),
            final(self).entries@.len() <= old(self).entries@.len() + 1,
    {
        proof {
            lemma_dict_map_props(self.entries@);
        }
        let n = self.entries.len();
        let mut i: usize = 0;
        while i < n
            invariant
                old(self).wf(),
                *self == *old(self),
                n == self.entries@.len(),
                i <= n,
                forall|j: int| 0 <= j < i ==> (#[trigger] self.entries@[j]).0@ != key@,
            decreases n - i,
        {
            if bytes_eq(&self.entries[i].0, &key) {
                let ghost oldself = *self;
                self.entries.set(i, (key, value));
                proof {
                    lemma_dict_map_props(oldself.entries@);
                    lemma_dict_map_props(self.entries@);
                    assert forall|a: int, b: int| 0 <= a < b < self.entries@.len() implies (
                    #[trigger] self.entries@[a]).0@ != (#[trigger] self.entries@[b]).0@ by {
                        assert(oldself.entries@[a].0@ != oldself.entries@[b].0@);
                        if a == i {
                            assert(oldself.entries@[a].0@ == key@);
                        }
                        if b == i {
                            assert(oldself.entries@[b].0@ == key@);
                        }
                    }
                    assert(final_map_eq(oldself.entries@, self.entries@, i as int, key@, value@))
                        by {
                        lemma_dict_update(oldself.entries@, self.entries@, i as int, key@, value@);
                    }
                    assert(self.view_map() =~= old(self).view_map().insert(key@, value@));
                }
                return ;
            }
            i = i + 1;
        }
        proof {
            lemma_dict_map_props(self.entries@);
        }
        let ghost oldself = *self;
        self.entries.push((key, value));
        proof {
            assert(self.entries@.drop_last() =~= oldself.entries@);
            assert forall|a: int, b: int| 0 <= a < b < self.entries@.len() implies (
            #[trigger] self.entries@[a]).0@ != (#[trigger] self.entries@[b]).0@ by {
                if b == self.entries@.len() - 1 {
                    assert(oldself.entries@[a].0@ != self.entries@[b].0@);
                }
            }
        }
    }

    /// Decides well-formedness: no key appears twice.
    pub fn check_wf(&self) -> (r: bool)
        ensures
            r == self.wf(),
    {
        let n = self.entries.len();
        let mut i: usize = 0;
        while i < n
            invariant
                n == self.entries@.len(),
                i <= n,
                forall|a: int, b: int|
                    0 <= a < b < i ==> (#[trigger] self.entries@[a]).0@ != (
                    #[trigger] self.entries@[b]).0@,
            decreases n - i,
        {
            let mut j: usize = 0;
            while j < i
                invariant
                    n == self.entries@.len(),
                    i < n,
                    j <= i,
                    forall|a: int, b: int|
                        0 <= a < b < i ==> (#[trigger] self.entries@[a]).0@ != (
                        #[trigger] self.entries@[b]).0@,
                    forall|a: int| 0 <= a < j ==> (#[trigger] self.entries@[a]).0@ != self.entries@[i as int].0@,
                decreases i - j,
            {
                if bytes_eq(&self.entries[j].0, &self.entries[i].0) {
                    return false;
                }
                j = j + 1;
            }
            i = i + 1;
        }
        true
    }

    /// A verified copy.
    pub fn duplicate(&self) -> (r: ByteDict)
        ensures
            r.entries@.len() == self.entries@.len(),
            forall|i: int|
                0 <= i < self.entries@.len() ==> (#[trigger] r.entries@[i]).0@ == self.entries@[i].0@
                    && r.entries@[i].1@ == self.entries@[i].1@,
            r.view_map() == self.view_map(),
            self.wf() ==> r.wf(),
    {
        let mut entries: Vec<(Vec<u8>, Vec<u8>)> = Vec::new();
        let mut i: usize = 0;
        while i < self.entries.len()
            invariant
                i <= self.entries@.len(),
                entries@.len() == i,
                forall|j: int|
                    0 <= j < i ==> (#[trigger] entries@[j]).0@ == self.entries@[j].0@
                        && entries@[j].1@ == self.entries@[j].1@,
                dict_map(entries@) == dict_map(self.entries@.take(i as int)),
            decreases self.entries@.len() - i,
        {
            let k = crate::bytes::copy_bytes(&self.entries[i].0);
            let v = crate::bytes::copy_bytes(&self.entries[i].1);
            let ghost before = entries@;
            entries.push((k, v));
            proof {
                assert(entries@.drop_last() =~= before);
                assert(self.entries@.take(i + 1).drop_last() =~= self.entries@.take(i as int));
                assert(self.entries@.take(i + 1).last() == self.entries@[i as int]);
            }
            i = i + 1;
        }
        proof {
            assert(self.entries@.take(self.entries@.len() as int) =~= self.entries@);
        }
        ByteDict { entries }
    }

    /// The list of keys, in insertion order.
    pub fn keys(&self) -> (r: Vec<Vec<u8>>)
        ensures
            r@.len() == self.entries@.len(),
            forall|i: int| 0 <= i < r@.len() ==> (#[trigger] r@[i])@ == self.entries@[i].0@,
    {
        let mut out: Vec<Vec<u8>> = Vec::new();
        let mut i: usize = 0;
        while i < self.entries.len()
            invariant
                i <= self.entries@.len(),
                out@.len() == i,
                forall|j: int| 0 <= j < i ==> (#[trigger] out@[j])@ == self.entries@[j].0@,
            decreases self.entries@.len() - i,
        {
            out.push(crate::bytes::copy_bytes(&self.entries[i].0));
            i = i + 1;
        }
        out
    }

    /// Whether this dictionary and `other` hold exactly the same keys.
    pub fn same_key_set(&self, other: &ByteDict) -> (r: bool)
        requires
            self.wf(),
            other.wf(),
        ensures
            r == (self.view_map().dom() == other.view_map().dom()),
    {
        proof {
            lemma_dict_map_props(self.entries@);
            lemma_dict_map_props(other.entries@);
        }
        let n = self.entries.len();
        let mut i: usize = 0;
        while i < n
            invariant
                self.wf(),
                other.wf(),
                n == self.entries@.len(),
                i <= n,
                forall|j: int|
                    0 <= j < i ==> other.view_map().contains_key((#[trigger] self.entries@[j]).0@),
            decreases n - i,
        {
            if !other.contains(&self.entries[i].0) {
                proof {
                    lemma_dict_map_props(self.entries@);
                    assert(self.view_map().contains_key(self.entries@[i as int].0@));
                    assert(self.view_map().dom() != other.view_map().dom()) by {
                        assert(self.view_map().dom().contains(self.entries@[i as int].0@));
                        assert(!other.view_map().dom().contains(self.entries@[i as int].0@));
                    }
                }
                return false;
            }
            i = i + 1;
        }
        let m = other.entries.len();
        let mut j: usize = 0;
        while j < m
            invariant
                self.wf(),
                other.wf(),
                m == other.entries@.len(),
                j <= m,
                forall|l: int|
                    0 <= l < self.entries@.len() ==> other.view_map().contains_key((
                    #[trigger] self.entries@[l]).0@),
                forall|l: int|
                    0 <= l < j ==> self.view_map().contains_key((#[trigger] other.entries@[l]).0@),
            decreases m - j,
        {
            if !self.contains(&other.entries[j].0) {
                proof {
                    lemma_dict_map_props(other.entries@);
                    assert(other.view_map().dom().contains(other.entries@[j as int].0@));
                    assert(!self.view_map().dom().contains(other.entries@[j as int].0@));
                }
                return false;
            }
            j = j + 1;
        }
        proof {
            lemma_dict_map_props(self.entries@);
            lemma_dict_map_props(other.entries@);
            assert forall|k: Seq<u8>| #[trigger]
                self.view_map().dom().contains(k) implies other.view_map().dom().contains(k) by {
                assert(self.view_map().contains_key(k));
                let w = choose|l: int|
                    0 <= l < self.entries@.len() && (#[trigger] self.entries@[l]).0@ == k;
            }
            assert forall|k: Seq<u8>| #[trigger]
                other.view_map().dom().contains(k) implies self.view_map().dom().contains(k) by {
                assert(other.view_map().contains_key(k));
                let w = choose|l: int|
                    0 <= l < other.entries@.len() && (#[trigger] other.entries@[l]).0@ == k;
            }
            assert(self.view_map().dom() =~= other.view_map().dom());
        }
        true
    }
}

/// After replacing the entry at `i` (whose key is `k`) by `(k, v)`, the map
/// is the old map with `k` set to `v`.
proof fn lemma_dict_update(
    olds: Seq<(Vec<u8>, Vec<u8>)>,
    news: Seq<(Vec<u8>, Vec<u8>)>,
    i: int,
    k: Seq<u8>,
    v: Seq<u8>,
)
    requires
        unique_keys(olds),
        unique_keys(news),
        olds.len() == news.len(),
        0 <= i < olds.len(),
        olds[i].0@ == k,
        news[i].0@ == k,
        news[i].1@ == v,
        forall|j: int| 0 <= j < olds.len() && j != i ==> olds[j] == news[j],
    ensures
        final_map_eq(olds, news, i, k, v),
{
    lemma_dict_map_props(olds);
    lemma_dict_map_props(news);
    assert forall|key: Seq<u8>| #[trigger]
        dict_map(news).contains_key(key) implies dict_map(olds).insert(k, v).contains_key(key) by {
        let w = choose|l: int| 0 <= l < news.len() && (#[trigger] news[l]).0@ == key;
        if w != i {
            assert(olds[w].0@ == key);
        }
    }
    assert forall|key: Seq<u8>| #[trigger]
        dict_map(olds).insert(k, v).contains_key(key) implies dict_map(news).contains_key(key) by {
        if key == k {
            assert(news[i].0@ == key);
        } else {
            let w = choose|l: int| 0 <= l < olds.len() && (#[trigger] olds[l]).0@ == key;
            assert(news[w].0@ == key);
        }
    }
    assert forall|key: Seq<u8>| #[trigger]
        dict_map(news).contains_key(key) implies dict_map(news)[key] == dict_map(olds).insert(
        k,
        v,
    )[key] by {
        let w = choose|l: int| 0 <= l < news.len() && (#[trigger] news[l]).0@ == key;
        assert(dict_map(news)[key] == news[w].1@);
        if key == k {
            assert(w == i) by {
                if w != i {
                    assert(news[i].0@ == news[w].0@);
                }
            }
        } else {
            assert(w != i);
            assert(olds[w].0@ == key);
            assert(dict_map(olds)[key] == olds[w].1@);
        }
    }
    assert(dict_map(news) =~= dict_map(olds).insert(k, v));
}

/// The replaced-entry map equation, named so the update lemma can state it.
pub open spec fn final_map_eq(
    olds: Seq<(Vec<u8>, Vec<u8>)>,
    news: Seq<(Vec<u8>, Vec<u8>)>,
    i: int,
    k: Seq<u8>,
    v: Seq<u8>,
) -> bool {
    dict_map(news) == dict_map(olds).insert(k, v)
}

/// The coordinator-side seed dictionary: for every sum participant, the
/// encrypted seeds contributed by the accepted update participants.
#[derive(Debug)]
pub struct SeedDict {
    pub entries: Vec<(Vec<u8>, ByteDict)>,
}

/// The nested map a seed dictionary stands for.
pub open spec fn seed_map(s: Seq<(Vec<u8>, ByteDict)>) -> Map<Seq<u8>, Map<Seq<u8>, Seq<u8>>>
    decreases s.len(),
{
    if s.len() == 0 {
        Map::empty()
    } else {
        seed_map(s.drop_last()).insert(s.last().0@, s.last().1.view_map())
    }
}

/// No outer key appears twice.
pub open spec fn unique_outer_keys(s: Seq<(Vec<u8>, ByteDict)>) -> bool {
    forall|i: int, j: int|
        0 <= i < j < s.len() ==> (#[trigger] s[i]).0@ != (#[trigger] s[j]).0@
}

/// The nested map of an entry list contains exactly the listed outer keys,
/// and with unique keys each listed entry gives its key's inner map.
pub proof fn lemma_seed_map_props(s: Seq<(Vec<u8>, ByteDict)>)
    ensures
        forall|k: Seq<u8>|
            #[trigger] seed_map(s).contains_key(k) <==> exists|i: int|
                0 <= i < s.len() && (#[trigger] s[i]).0@ == k,
        unique_outer_keys(s) ==> forall|i: int|
            0 <= i < s.len() ==> seed_map(s).contains_key((#[trigger] s[i]).0@)
                && seed_map(s)[s[i].0@] == s[i].1.view_map(),
    decreases s.len(),
{
    if s.len() == 0 {
    } else {
        let d = s.drop_last();
        lemma_seed_map_props(d);
        assert forall|k: Seq<u8>| #[trigger]
            seed_map(s).contains_key(k) implies exists|i: int|
            0 <= i < s.len() && (#[trigger] s[i]).0@ == k by {
            if k == s.last().0@ {
                assert(s[s.len() - 1].0@ == k);
            } else {
                assert(seed_map(d).contains_key(k));
                let i = choose|i: int| 0 <= i < d.len() && (#[trigger] d[i]).0@ == k;
                assert(s[i].0@ == k);
            }
        }
        assert forall|k: Seq<u8>|
            (exists|i: int| 0 <= i < s.len() && (#[trigger] s[i]).0@ == k) implies #[trigger]
        seed_map(s).contains_key(k) by {
            let i = choose|i: int| 0 <= i < s.len() && (#[trigger] s[i]).0@ == k;
            if i == s.len() - 1 {
            } else {
                assert(d[i].0@ == k);
                assert(seed_map(d).contains_key(k));
            }
        }
        if unique_outer_keys(s) {
            assert(unique_outer_keys(d));
            assert forall|i: int| 0 <= i < s.len() implies seed_map(s).contains_key((
            #[trigger] s[i]).0@) && seed_map(s)[s[i].0@] == s[i].1.view_map() by {
                if i == s.len() - 1 {
                } else {
                    assert(d[i] == s[i]);
                    assert(s[i].0@ != s.last().0@);
                }
            }
        }
    }
}

/// An update participant's seeds reach every sum participant: if `u`
/// contributed a seed under any sum key, it contributed one under all.
pub open spec fn updater_in_all(sd: Map<Seq<u8>, Map<Seq<u8>, Seq<u8>>>, u: Seq<u8>) -> bool {
    forall|k: Seq<u8>| sd.dom().contains(k) ==> (#[trigger] sd[k]).dom().contains(u)
}

/// The seed dictionary invariant: its outer keys are exactly the frozen sum
/// dictionary's keys, and every update participant that appears under one
/// sum key appears under all of them.
pub open spec fn seed_dict_consistent(
    sd: Map<Seq<u8>, Map<Seq<u8>, Seq<u8>>>,
    sum_keys: Set<Seq<u8>>,
) -> bool {
    &&& sd.dom() == sum_keys
    &&& forall|k: Seq<u8>, u: Seq<u8>|
        sd.dom().contains(k) && #[trigger] sd[k].dom().contains(u) ==> updater_in_all(sd, u)
}

impl SeedDict {
    /// The seed dictionary as a nested mathematical map.
    pub open spec fn view_map(&self) -> Map<Seq<u8>, Map<Seq<u8>, Seq<u8>>> {
        seed_map(self.entries@)
    }

    /// Unique outer keys, and every inner dictionary well formed.
    pub open spec fn wf(&self) -> bool {
        &&& unique_outer_keys(self.entries@)
        &&& forall|i: int| 0 <= i < self.entries@.len() ==> (#[trigger] self.entries@[i]).1.wf()
    }

    /// A fresh seed dictionary with one empty slot per sum participant.
    pub fn new_from_keys(sum_dict: &ByteDict) -> (r: SeedDict)
        requires
            sum_dict.wf(),
        ensures
            r.wf(),
            r.view_map().dom() == sum_dict.view_map().dom(),
            forall|k: Seq<u8>|
                r.view_map().dom().contains(k) ==> (#[trigger] r.view_map()[k]) == Map::<
                    Seq<u8>,
                    Seq<u8>,
                >::empty(),
    {
        let mut entries: Vec<(Vec<u8>, ByteDict)> = Vec::new();
        let mut i: usize = 0;
        while i < sum_dict.entries.len()
            invariant
                sum_dict.wf(),
                i <= sum_dict.entries@.len(),
                entries@.len() == i,
                forall|j: int|
                    0 <= j < i ==> (#[trigger] entries@[j]).0@ == sum_dict.entries@[j].0@
                        && entries@[j].1.wf() && entries@[j].1.view_map() == Map::<
                        Seq<u8>,
                        Seq<u8>,
                    >::empty(),
            decreases sum_dict.entries@.len() - i,
        {
            entries.push((crate::bytes::copy_bytes(&sum_dict.entries[i].0), ByteDict::new()));
            i = i + 1;
        }
        let r = SeedDict { entries };
        proof {
            lemma_seed_map_props(r.entries@);
            lemma_dict_map_props(sum_dict.entries@);
            assert forall|k: Seq<u8>| #[trigger]
                r.view_map().dom().contains(k) implies sum_dict.view_map().dom().contains(k) by {
                let w = choose|j: int|
                    0 <= j < r.entries@.len() && (#[trigger] r.entries@[j]).0@ == k;
                assert(sum_dict.entries@[w].0@ == k);
            }
            assert forall|k: Seq<u8>| #[trigger]
                sum_dict.view_map().dom().contains(k) implies r.view_map().dom().contains(k) by {
                let w = choose|j: int|
                    0 <= j < sum_dict.entries@.len() && (#[trigger] sum_dict.entries@[j]).0@ == k;
                assert(r.entries@[w].0@ == k);
            }
            assert(r.view_map().dom() =~= sum_dict.view_map().dom());
        }
        r
    }

    /// The number of sum participants with a slot.
    pub fn len(&self) -> (r: usize)
        ensures
            r == self.entries@.len(),
    {
        self.entries.len()
    }

    /// Merges one update participant's local seed dictionary: under every sum
    /// key, the participant's seed for that sum participant is recorded.
    pub fn insert_seeds(&mut self, update_pk: &Vec<u8>, local: &ByteDict)
        requires
            old(self).wf(),
            local.wf(),
            forall|k: Seq<u8>|
                old(self).view_map().dom().contains(k) ==> local.view_map().contains_key(k),
        ensures
            final(self).wf(),
            final(self).view_map().dom() == old(self).view_map().dom(),
            forall|k: Seq<u8>|
                old(self).view_map().dom().contains(k) ==> (#[trigger] final(self).view_map()[k])
                    == old(self).view_map()[k].insert(update_pk@, local.view_map()[k]),
    {
        proof {
            lemma_seed_map_props(self.entries@);
        }
        let mut out: Vec<(Vec<u8>, ByteDict)> = Vec::new();
        let n = self.entries.len();
        let mut i: usize = 0;
        while i < n
            invariant
                old(self).wf(),
                local.wf(),
                *self == *old(self),
                forall|k: Seq<u8>|
                    old(self).view_map().dom().contains(k) ==> local.view_map().contains_key(k),
                n == self.entries@.len(),
                i <= n,
                out@.len() == i,
                forall|j: int|
                    0 <= j < i ==> (#[trigger] out@[j]).0@ == self.entries@[j].0@ && out@[j].1.wf()
                        && out@[j].1.view_map() == self.entries@[j].1.view_map().insert(
                        update_pk@,
                        local.view_map()[self.entries@[j].0@],
                    ),
            decreases n - i,
        {
            proof {
                lemma_seed_map_props(self.entries@);
            }
            let key = crate::bytes::copy_bytes(&self.entries[i].0);
            let seed = match local.get(&key) {
                Some(v) => v,
                None => {
                    proof {
                        assert(false);
                    }
                    Vec::new()
                },
            };
            let mut inner = self.entries[i].1.duplicate();
            inner.insert(crate::bytes::copy_bytes(update_pk), seed);
            out.push((key, inner));
            i = i + 1;
        }
        self.entries = out;
        proof {
            lemma_seed_map_props(old(self).entries@);
            lemma_seed_map_props(self.entries@);
            assert forall|k: Seq<u8>| #[trigger]
                self.view_map().dom().contains(k) implies old(self).view_map().dom().contains(
                k,
            ) by {
                let w = choose|j: int|
                    0 <= j < self.entries@.len() && (#[trigger] self.entries@[j]).0@ == k;
                assert(old(self).entries@[w].0@ == k);
            }
            assert forall|k: Seq<u8>| #[trigger]
                old(self).view_map().dom().contains(k) implies self.view_map().dom().contains(
                k,
            ) by {
                let w = choose|j: int|
                    0 <= j < old(self).entries@.len() && (#[trigger] old(self).entries@[j]).0@ == k;
                assert(self.entries@[w].0@ == k);
            }
            assert(self.view_map().dom() =~= old(self).view_map().dom());
            assert forall|k: Seq<u8>| old(self).view_map().dom().contains(k) implies (
            #[trigger] self.view_map()[k]) == old(self).view_map()[k].insert(
                update_pk@,
                local.view_map()[k],
            ) by {
                let w = choose|j: int|
                    0 <= j < self.entries@.len() && (#[trigger] self.entries@[j]).0@ == k;
                assert(self.view_map()[k] == self.entries@[w].1.view_map());
                assert(old(self).view_map()[k] == old(self).entries@[w].1.view_map());
            }
        }
    }

    /// A verified copy.
    pub fn duplicate(&self) -> (r: SeedDict)
        ensures
            self.wf() ==> r.wf(),
            r.view_map() == self.view_map(),
    {
        let mut entries: Vec<(Vec<u8>, ByteDict)> = Vec::new();
        let mut i: usize = 0;
        while i < self.entries.len()
            invariant
                i <= self.entries@.len(),
                entries@.len() == i,
                forall|j: int|
                    0 <= j < i ==> (#[trigger] entries@[j]).0@ == self.entries@[j].0@
                        && (self.entries@[j].1.wf() ==> entries@[j].1.wf())
                        && entries@[j].1.view_map() == self.entries@[j].1.view_map(),
                seed_map(entries@) == seed_map(self.entries@.take(i as int)),
            decreases self.entries@.len() - i,
        {
            let k = crate::bytes::copy_bytes(&self.entries[i].0);
            let inner = self.entries[i].1.duplicate();
            let ghost before = entries@;
            entries.push((k, inner));
            proof {
                assert(entries@.drop_last() =~= before);
                assert(self.entries@.take(i + 1).drop_last() =~= self.entries@.take(i as int));
                assert(self.entries@.take(i + 1).last() == self.entries@[i as int]);
            }
            i = i + 1;
        }
        proof {
            assert(self.entries@.take(self.entries@.len() as int) =~= self.entries@);
        }
        SeedDict { entries }
    }

    /// A copy of the seeds destined for one sum participant, keyed by the
    /// update participants that contributed them.
    pub fn get_inner(&self, sum_pk: &Vec<u8>) -> (r: Option<ByteDict>)
        requires
            self.wf(),
        ensures
            match r {
                Some(d) => self.view_map().dom().contains(sum_pk@) && d.wf() && d.view_map()
                    == self.view_map()[sum_pk@],
                None => !self.view_map().dom().contains(sum_pk@),
            },
    {
        proof {
            lemma_seed_map_props(self.entries@);
        }
        let mut i: usize = 0;
        while i < self.entries.len()
            invariant
                self.wf(),
                i <= self.entries@.len(),
                forall|j: int| 0 <= j < i ==> (#[trigger] self.entries@[j]).0@ != sum_pk@,
            decreases self.entries@.len() - i,
        {
            if bytes_eq(&self.entries[i].0, sum_pk) {
                proof {
                    lemma_seed_map_props(self.entries@);
                }
                return Some(self.entries[i].1.duplicate());
            }
            i = i + 1;
        }
        proof {
            lemma_seed_map_props(self.entries@);
            if self.view_map().dom().contains(sum_pk@) {
                let w = choose|j: int|
                    0 <= j < self.entries@.len() && (#[trigger] self.entries@[j]).0@ == sum_pk@;
            }
        }
        None
    }
}

/// Merging one update participant's seeds under every sum key preserves the
/// seed dictionary invariant: the outer keys do not move, and the newcomer
/// appears under all of them at once.
pub proof fn lemma_seed_dict_merge_consistent(
    before: Map<Seq<u8>, Map<Seq<u8>, Seq<u8>>>,
    after: Map<Seq<u8>, Map<Seq<u8>, Seq<u8>>>,
    u: Seq<u8>,
    sum_keys: Set<Seq<u8>>,
)
    requires
        seed_dict_consistent(before, sum_keys),
        after.dom() == before.dom(),
        forall|k: Seq<u8>|
            before.dom().contains(k) ==> (#[trigger] after[k]).dom() == before[k].dom().insert(u),
    ensures
        seed_dict_consistent(after, sum_keys),
{
    assert forall|k: Seq<u8>, w: Seq<u8>|
        after.dom().contains(k) && #[trigger] after[k].dom().contains(w) implies updater_in_all(
        after,
        w,
    ) by {
        if w == u {
            assert forall|k2: Seq<u8>| after.dom().contains(k2) implies (
            #[trigger] after[k2]).dom().contains(w) by {
                assert(after[k2].dom() == before[k2].dom().insert(u));
            }
        } else {
            assert(after[k].dom() == before[k].dom().insert(u));
            assert(before[k].dom().contains(w));
            assert(updater_in_all(before, w));
            assert forall|k2: Seq<u8>| after.dom().contains(k2) implies (
            #[trigger] after[k2]).dom().contains(w) by {
                assert(before[k2].dom().contains(w));
                assert(after[k2].dom() == before[k2].dom().insert(u));
            }
        }
    }
}

} // verus!
