//! Small collections keyed by text: a set of texts and a text-to-text map, each
//! holding every key once. They are kept in vectors because vstd specifies what a
//! `HashSet` or `HashMap` holds only for key types with `obeys_key_model`, which it
//! gives for primitive types and not for `String`; a vector with the invariant that
//! no key repeats gives the same set and map views with every operation proved.
use crate::text::text_eq;
use vstd::prelude::*;

verus! {

/// The characters of each text in a list.
pub open spec fn texts_view(v: Seq<String>) -> Seq<Seq<char>> {
    v.map_values(|s: String| s@)
}

/// A set of texts.
pub struct TextSet {
    items: Vec<String>,
}

impl View for TextSet {
    type V = Set<Seq<char>>;

    closed spec fn view(&self) -> Set<Seq<char>> {
        texts_view(self.items@).to_set()
    }
}

impl TextSet {
    /// Every text is held once.
    pub closed spec fn wf(&self) -> bool {
        texts_view(self.items@).no_duplicates()
    }

    /// The empty set.
    pub fn new() -> (res: TextSet)
        ensures
            res.wf(),
            res@ == Set::<Seq<char>>::empty(),
    {
        let res = TextSet { items: Vec::new() };
        proof {
            assert(texts_view(res.items@).to_set() =~= Set::<Seq<char>>::empty());
        }
        res
    }

    fn position(&self, t: &str) -> (res: Option<usize>)
        ensures
            match res {
                Some(i) => i < self.items@.len() && self.items@[i as int]@ == t@,
                None => forall|i: int| 0 <= i < self.items@.len() ==> (#[trigger] self.items@[i])@ != t@,
            },
    {
        let mut i: usize = 0;
        while i < self.items.len()
            invariant
                i <= self.items@.len(),
                forall|j: int| 0 <= j < i ==> (#[trigger] self.items@[j])@ != t@,
            decreases self.items@.len() - i,
        {
            if text_eq(self.items[i].as_str(), t) {
                return Some(i);
            }
            i += 1;
        }
        None
    }

    /// Whether `t` is in the set.
    pub fn contains(&self, t: &str) -> (res: bool)
        ensures
            res == self@.contains(t@),
    {
        let r = self.position(t);
        proof {
            let tv = texts_view(self.items@);
            match r {
                Some(i) => {
                    assert(tv[i as int] == t@);
                },
                None => {
                    assert forall|j: int| 0 <= j < tv.len() implies tv[j] != t@ by {
                        assert(tv[j] == self.items@[j]@);
                    }
                },
            }
        }
        r.is_some()
    }

    /// Adds `t` to the set.
    pub fn insert(&mut self, t: String)
        requires
            old(self).wf(),
        ensures
            final(self).wf(),
            final(self)@ == old(self)@.insert(t@),
    {
        let ghost old_tv = texts_view(self.items@);
        match self.position(t.as_str()) {
            Some(i) => {
                proof {
                    assert(old_tv[i as int] == t@);
                    assert(old_tv.to_set().insert(t@) =~= old_tv.to_set());
                }
            },
            None => {
                self.items.push(t);
                proof {
                    let tv = texts_view(self.items@);
                    assert(tv =~= old_tv.push(t@));
                    assert forall|j: int| 0 <= j < old_tv.len() implies old_tv[j] != t@ by {
                        assert(old_tv[j] == old(self).items@[j]@);
                    }
                    old_tv.lemma_push_to_set_commute(t@);
                    assert(tv.to_set() =~= old_tv.to_set().insert(t@));
                    assert forall|a: int, b: int| 0 <= a < tv.len() && 0 <= b < tv.len() && a != b implies tv[a] != tv[b] by {
                        if a == old_tv.len() {
                            assert(old_tv[b] != t@);
                        } else if b == old_tv.len() {
                            assert(old_tv[a] != t@);
                        } else {
                            assert(old_tv[a] != old_tv[b]);
                        }
                    }
                }
            },
        }
    }

    /// Removes `t` from the set.
    pub fn remove(&mut self, t: &str)
        requires
            old(self).wf(),
        ensures
            final(self).wf(),
            final(self)@ == old(self)@.remove(t@),
    {
        let ghost old_tv = texts_view(self.items@);
        match self.position(t) {
            Some(i) => {
                self.items.remove(i);
                proof {
                    let tv = texts_view(self.items@);
                    assert(tv =~= old_tv.remove(i as int));
                    old_tv.remove_ensures(i as int);
                    assert forall|x: Seq<char>| tv.to_set().contains(x) <==> old_tv.to_set().remove(t@).contains(x) by {
                        if tv.to_set().contains(x) {
                            assert(tv.contains(x));
                            let j = choose|j: int| 0 <= j < tv.len() && tv[j] == x;
                            if x == t@ {
                                let jj = if j < i { j } else { j + 1 };
                                assert(old_tv[jj] == x);
                                assert(old_tv[i as int] == t@);
                                assert(jj != i);
                            }
                            if j < i {
                                assert(old_tv[j] == x);
                            } else {
                                assert(old_tv[j + 1] == x);
                            }
                        }
                        if old_tv.to_set().remove(t@).contains(x) {
                            assert(old_tv.contains(x));
                            let j = choose|j: int| 0 <= j < old_tv.len() && old_tv[j] == x;
                            assert(j != i);
                            if j < i {
                                assert(tv[j] == x);
                            } else {
                                assert(tv[j - 1] == x);
                            }
                        }
                    }
                    assert(tv.to_set() =~= old_tv.to_set().remove(t@));
                    assert forall|a: int, b: int| 0 <= a < tv.len() && 0 <= b < tv.len() && a != b implies tv[a] != tv[b] by {
                        let oa = if a < i { a } else { a + 1 };
                        let ob = if b < i { b } else { b + 1 };
                        assert(tv[a] == old_tv[oa]);
                        assert(tv[b] == old_tv[ob]);
                    }
                }
            },
            None => {
                proof {
                    assert forall|j: int| 0 <= j < old_tv.len() implies old_tv[j] != t@ by {
                        assert(old_tv[j] == self.items@[j]@);
                    }
                    assert(old_tv.to_set().remove(t@) =~= old_tv.to_set());
                }
            },
        }
    }
}

/// The index of the entry with key `k`, if any.
pub open spec fn key_index(e: Seq<(String, String)>, k: Seq<char>) -> int {
    choose|i: int| 0 <= i < e.len() && (#[trigger] e[i]).0@ == k
}

/// A map from texts to texts.
pub struct TextMap {
    entries: Vec<(String, String)>,
}

impl View for TextMap {
    type V = Map<Seq<char>, Seq<char>>;

    closed spec fn view(&self) -> Map<Seq<char>, Seq<char>> {
        Map::new(
            |k: Seq<char>| exists|i: int| 0 <= i < self.entries@.len() && (#[trigger] self.entries@[i]).0@ == k,
            |k: Seq<char>| self.entries@[key_index(self.entries@, k)].1@,
        )
    }
}

impl TextMap {
    /// Every key is held once.
    pub closed spec fn wf(&self) -> bool {
        forall|i: int, j: int|
            0 <= i < j < self.entries@.len() ==> (#[trigger] self.entries@[i]).0@ != (#[trigger] self.entries@[j]).0@
    }

    /// The empty map.
    pub fn new() -> (res: TextMap)
        ensures
            res.wf(),
            res@ == Map::<Seq<char>, Seq<char>>::empty(),
    {
        let res = TextMap { entries: Vec::new() };
        proof {
            assert(res@ =~= Map::<Seq<char>, Seq<char>>::empty());
        }
        res
    }

    fn position(&self, k: &str) -> (res: Option<usize>)
        requires
            self.wf(),
        ensures
            match res {
                Some(i) => i < self.entries@.len() && self.entries@[i as int].0@ == k@ && key_index(self.entries@, k@) == i,
                None => !self@.contains_key(k@),
            },
    {
        let mut i: usize = 0;
        while i < self.entries.len()
            invariant
                i <= self.entries@.len(),
                self.wf(),
                forall|j: int| 0 <= j < i ==> (#[trigger] self.entries@[j]).0@ != k@,
            decreases self.entries@.len() - i,
        {
            if text_eq(self.entries[i].0.as_str(), k) {
                proof {
                    let c = key_index(self.entries@, k@);
                    assert(self.entries@[i as int].0@ == k@);
                    assert(0 <= c < self.entries@.len() && self.entries@[c].0@ == k@);
                    if c != i {
                        if c < i {
                            assert(self.entries@[c].0@ != self.entries@[i as int].0@);
                        } else {
                            assert(self.entries@[i as int].0@ != self.entries@[c].0@);
                        }
                    }
                }
                return Some(i);
            }
            i += 1;
        }
        None
    }

    /// The value stored under `k`, if any.
    pub fn get(&self, k: &str) -> (res: Option<String>)
        requires
            self.wf(),
        ensures
            match res {
                Some(v) => self@.contains_key(k@) && self@[k@] == v@,
                None => !self@.contains_key(k@),
            },
    {
        match self.position(k) {
            Some(i) => Some(self.entries[i].1.clone()),
            None => None,
        }
    }

    /// Whether `k` has a value.
    pub fn contains_key(&self, k: &str) -> (res: bool)
        requires
            self.wf(),
        ensures
            res == self@.contains_key(k@),
    {
        self.position(k).is_some()
    }

    /// Stores `v` under `k`, replacing what was there.
    pub fn insert(&mut self, k: String, v: String)
        requires
            old(self).wf(),
        ensures
            final(self).wf(),
            final(self)@ == old(self)@.insert(k@, v@),
    {
        let ghost kv = k@;
        let ghost vv = v@;
        let ghost old_e = self.entries@;
        match self.position(k.as_str()) {
            Some(i) => {
                self.entries.set(i, (k, v));
                proof {
                    let e = self.entries@;
                    assert forall|a: int, b: int| 0 <= a < b < e.len() implies (#[trigger] e[a]).0@ != (#[trigger] e[b]).0@ by {
                        assert(old_e[a].0@ != old_e[b].0@);
                    }
                    assert forall|x: Seq<char>| #[trigger] self@.contains_key(x) <==> old(self)@.insert(kv, vv).contains_key(x) by {
                        if self@.contains_key(x) {
                            let j = choose|j: int| 0 <= j < e.len() && (#[trigger] e[j]).0@ == x;
                            if j != i {
                                assert(old_e[j].0@ == x);
                            }
                        }
                        if old(self)@.contains_key(x) {
                            let j = choose|j: int| 0 <= j < old_e.len() && (#[trigger] old_e[j]).0@ == x;
                            if j != i {
                                assert(e[j].0@ == x);
                            } else {
                                assert(e[i as int].0@ == x);
                            }
                        }
                        if x == kv {
                            assert(e[i as int].0@ == x);
                        }
                    }
                    assert forall|x: Seq<char>| #[trigger] self@.contains_key(x) implies self@[x] == old(self)@.insert(kv, vv)[x] by {
                        let c = key_index(e, x);
                        if x == kv {
                            assert(e[i as int].0@ == x);
                            if c != i {
                                assert(e[c].0@ != e[i as int].0@);
                            }
                        } else {
                            assert(c != i);
                            assert(old_e[c].0@ == x);
                            let oc = key_index(old_e, x);
                            if oc != c {
                                assert(old_e[oc].0@ != old_e[c].0@);
                            }
                        }
                    }
                    assert(self@ =~= old(self)@.insert(kv, vv));
                }
            },
            None => {
                self.entries.push((k, v));
                proof {
                    let e = self.entries@;
                    let n = old_e.len() as int;
                    assert forall|j: int| 0 <= j < n implies (#[trigger] old_e[j]).0@ != kv by {
                    }
                    assert forall|a: int, b: int| 0 <= a < b < e.len() implies (#[trigger] e[a]).0@ != (#[trigger] e[b]).0@ by {
                        if b == n {
                            assert(e[a] == old_e[a]);
                        } else {
                            assert(old_e[a].0@ != old_e[b].0@);
                        }
                    }
                    assert forall|x: Seq<char>| #[trigger] self@.contains_key(x) <==> old(self)@.insert(kv, vv).contains_key(x) by {
                        if self@.contains_key(x) {
                            let j = choose|j: int| 0 <= j < e.len() && (#[trigger] e[j]).0@ == x;
                            if j != n {
                                assert(old_e[j].0@ == x);
                            }
                        }
                        if old(self)@.contains_key(x) {
                            let j = choose|j: int| 0 <= j < old_e.len() && (#[trigger] old_e[j]).0@ == x;
                            assert(e[j].0@ == x);
                        }
                        if x == kv {
                            assert(e[n].0@ == x);
                        }
                    }
                    assert forall|x: Seq<char>| #[trigger] self@.contains_key(x) implies self@[x] == old(self)@.insert(kv, vv)[x] by {
                        let c = key_index(e, x);
                        if x == kv {
                            assert(e[n].0@ == x);
                            if c != n {
                                assert(e[c].0@ != e[n].0@);
                            }
                        } else {
                            assert(c != n);
                            assert(old_e[c].0@ == x);
                            let oc = key_index(old_e, x);
                            if oc != c {
                                assert(old_e[oc].0@ != old_e[c].0@);
                            }
                        }
                    }
                    assert(self@ =~= old(self)@.insert(kv, vv));
                }
            },
        }
    }
}

} // verus!
