use vstd::prelude::*;

verus! {

/// A loosely typed field value, as found in a frontmatter block or in the
/// structured configuration document. Numbers keep their textual form.
#[derive(Debug, PartialEq)]
pub enum FieldValue {
    Null,
    Bool(bool),
    Number(String),
    Text(String),
    List(Vec<FieldValue>),
    Object(Vec<(String, FieldValue)>),
}

impl FieldValue {
    pub open spec fn spec_is_null(&self) -> bool {
        self is Null
    }

    pub fn is_null(&self) -> (r: bool)
        ensures
            r == self.spec_is_null(),
    {
        match self {
            FieldValue::Null => true,
            _ => false,
        }
    }
}

/// A flat mapping from field name to value; keys are distinct and the
/// order of the entries is the order of insertion.
pub struct Fields {
    entries: Vec<(String, FieldValue)>,
}

pub open spec fn has_key(s: Seq<(String, FieldValue)>, k: Seq<char>) -> bool {
    exists|i: int| 0 <= i < s.len() && #[trigger] s[i].0@ == k
}

pub open spec fn keys_distinct(s: Seq<(String, FieldValue)>) -> bool {
    forall|i: int, j: int|
        0 <= i < s.len() && 0 <= j < s.len() && i != j ==> #[trigger] s[i].0@ != #[trigger] s[j].0@
}

pub open spec fn value_at(s: Seq<(String, FieldValue)>, k: Seq<char>) -> FieldValue {
    s[choose|i: int| 0 <= i < s.len() && #[trigger] s[i].0@ == k].1
}

pub open spec fn map_of(s: Seq<(String, FieldValue)>) -> Map<Seq<char>, FieldValue> {
    Map::new(|k: Seq<char>| has_key(s, k), |k: Seq<char>| value_at(s, k))
}

proof fn lemma_value_at(s: Seq<(String, FieldValue)>, i: int)
    requires
        keys_distinct(s),
        0 <= i < s.len(),
    ensures
        map_of(s).contains_key(s[i].0@),
        map_of(s)[s[i].0@] == s[i].1,
{
    let k = s[i].0@;
    assert(has_key(s, k));
    let j = choose|j: int| 0 <= j < s.len() && #[trigger] s[j].0@ == k;
    assert(j == i);
}

impl Fields {
    pub closed spec fn view(&self) -> Map<Seq<char>, FieldValue> {
        map_of(self.entries@)
    }

    pub closed spec fn wf(&self) -> bool {
        keys_distinct(self.entries@)
    }

    pub fn new() -> (r: Fields)
        ensures
            r.wf(),
            r@ == Map::<Seq<char>, FieldValue>::empty(),
    {
        let r = Fields { entries: Vec::new() };
        assert(r@ =~= Map::<Seq<char>, FieldValue>::empty());
        r
    }

    pub fn len(&self) -> (r: usize)
        requires
            self.wf(),
        ensures
            r == self@.len(),
    {
        proof { self.lemma_len(); }
        self.entries.len()
    }

    pub fn is_empty(&self) -> (r: bool)
        requires
            self.wf(),
        ensures
            r == (self@ == Map::<Seq<char>, FieldValue>::empty()),
    {
        proof {
            self.lemma_len();
            if self.entries.len() > 0 {
                lemma_value_at(self.entries@, 0);
                assert(self@.contains_key(self.entries@[0].0@));
            } else {
                assert(self@ =~= Map::<Seq<char>, FieldValue>::empty());
            }
        }
        self.entries.len() == 0
    }

    /// A well-formed field map has finitely many fields.
    pub proof fn lemma_view_finite(&self)
        requires
            self.wf(),
        ensures
            self@.dom().finite(),
    {
        self.lemma_len();
    }

    proof fn lemma_len(&self)
        requires
            self.wf(),
        ensures
            self@.dom().finite(),
            self@.len() == self.entries@.len(),
        decreases self.entries@.len(),
    {
        let s = self.entries@;
        let keys = s.map_values(|e: (String, FieldValue)| e.0@);
        assert(self@.dom() =~= keys.to_set()) by {
            assert forall|k: Seq<char>| self@.dom().contains(k) implies keys.to_set().contains(k) by {
                let i = choose|i: int| 0 <= i < s.len() && #[trigger] s[i].0@ == k;
                assert(keys[i] == k);
            }
            assert forall|k: Seq<char>| keys.to_set().contains(k) implies self@.dom().contains(k) by {
                let i = choose|i: int| 0 <= i < keys.len() && keys[i] == k;
                assert(s[i].0@ == k);
            }
        }
        assert(keys.no_duplicates());
        keys.unique_seq_to_set();
    }

    fn index_of(&self, k: &String) -> (r: Option<usize>)
        requires
            self.wf(),
        ensures
            match r {
                Some(i) => i < self.entries@.len() && self.entries@[i as int].0@ == k@,
                None => !self@.contains_key(k@),
            },
    {
        let mut i: usize = 0;
        while i < self.entries.len()
            invariant
                i <= self.entries@.len(),
                forall|j: int| 0 <= j < i ==> #[trigger] self.entries@[j].0@ != k@,
            decreases self.entries@.len() - i,
        {
            if self.entries[i].0 == *k {
                return Some(i);
            }
            i = i + 1;
        }
        None
    }

    pub fn contains_key(&self, k: &String) -> (r: bool)
        requires
            self.wf(),
        ensures
            r == self@.contains_key(k@),
    {
        match self.index_of(k) {
            Some(i) => {
                proof { lemma_value_at(self.entries@, i as int); }
                true
            },
            None => false,
        }
    }

    pub fn get(&self, k: &String) -> (r: Option<&FieldValue>)
        requires
            self.wf(),
        ensures
            match r {
                Some(v) => self@.contains_key(k@) && self@[k@] == *v,
                None => !self@.contains_key(k@),
            },
    {
        match self.index_of(k) {
            Some(i) => {
                proof { lemma_value_at(self.entries@, i as int); }
                Some(&self.entries[i].1)
            },
            None => None,
        }
    }

    /// Sets the value of a field, replacing the value it had, if any.
    pub fn insert(&mut self, k: String, v: FieldValue)
        requires
            old(self).wf(),
        ensures
            final(self).wf(),
            final(self)@ == old(self)@.insert(k@, v),
    {
        let ghost kv = k@;
        match self.index_of(&k) {
            Some(i) => {
                let ghost s0 = self.entries@;
                self.entries.set(i, (k, v));
                proof {
                    let s = self.entries@;
                    assert forall|a: int, b: int|
                        0 <= a < s.len() && 0 <= b < s.len() && a != b
                            implies #[trigger] s[a].0@ != #[trigger] s[b].0@ by {
                        if a != i && b != i {
                            assert(s0[a] == s[a] && s0[b] == s[b]);
                        } else if a == i {
                            assert(s0[b] == s[b]);
                        } else {
                            assert(s0[a] == s[a]);
                        }
                    }
                    self.lemma_map_eq_after(s0, old(self)@.insert(kv, v), i as int, kv);
                }
            },
            None => {
                let ghost s0 = self.entries@;
                self.entries.push((k, v));
                proof {
                    let s = self.entries@;
                    assert forall|a: int, b: int|
                        0 <= a < s.len() && 0 <= b < s.len() && a != b
                            implies #[trigger] s[a].0@ != #[trigger] s[b].0@ by {
                        if a < s0.len() && b < s0.len() {
                            assert(s0[a] == s[a] && s0[b] == s[b]);
                        } else if a < s0.len() {
                            assert(s0[a] == s[a]);
                            assert(has_key(s0, s[a].0@));
                        } else {
                            assert(s0[b] == s[b]);
                            assert(has_key(s0, s[b].0@));
                        }
                    }
                    self.lemma_map_eq_after(s0, old(self)@.insert(kv, v), s.len() - 1, kv);
                }
            },
        }
    }

    /// Shows that the map of the entries is `target`, where index `i` now
    /// holds key `kv` and the other keys are as in `s0`.
    proof fn lemma_map_eq_after(
        &self,
        s0: Seq<(String, FieldValue)>,
        target: Map<Seq<char>, FieldValue>,
        i: int,
        kv: Seq<char>,
    )
        requires
            self.wf(),
            keys_distinct(s0),
            0 <= i < self.entries@.len(),
            self.entries@[i].0@ == kv,
            target == map_of(s0).insert(kv, self.entries@[i].1),
            forall|j: int| 0 <= j < self.entries@.len() && j != i ==> j < s0.len() && #[trigger] self.entries@[j] == s0[j],
            s0.len() <= self.entries@.len(),
            i < s0.len() ==> s0[i].0@ == kv,
        ensures
            self@ == target,
    {
        let s = self.entries@;
        assert forall|k: Seq<char>| #[trigger] self@.contains_key(k) == target.contains_key(k) by {
            if k != kv {
                if has_key(s, k) {
                    let j = choose|j: int| 0 <= j < s.len() && #[trigger] s[j].0@ == k;
                    assert(s0[j].0@ == k);
                }
                if has_key(s0, k) {
                    let j = choose|j: int| 0 <= j < s0.len() && #[trigger] s0[j].0@ == k;
                    assert(s[j].0@ == k);
                }
            } else {
                assert(s[i].0@ == k);
            }
        }
        assert forall|k: Seq<char>| #[trigger] self@.contains_key(k) implies self@[k] == target[k] by {
            let j = choose|j: int| 0 <= j < s.len() && #[trigger] s[j].0@ == k;
            lemma_value_at(s, j);
            if k != kv {
                assert(s0[j] == s[j]);
                lemma_value_at(s0, j);
            }
        }
        assert(self@ =~= target);
    }

    /// Removes a field and returns its value, if it was present.
    pub fn remove(&mut self, k: &String) -> (r: Option<FieldValue>)
        requires
            old(self).wf(),
        ensures
            final(self).wf(),
            final(self)@ == old(self)@.remove(k@),
            match r {
                Some(v) => old(self)@.contains_key(k@) && old(self)@[k@] == v,
                None => !old(self)@.contains_key(k@),
            },
    {
        match self.index_of(k) {
            Some(i) => {
                let ghost s0 = self.entries@;
                proof { lemma_value_at(s0, i as int); }
                let e = self.entries.remove(i);
                proof {
                    let s = self.entries@;
                    assert forall|a: int, b: int|
                        0 <= a < s.len() && 0 <= b < s.len() && a != b
                            implies #[trigger] s[a].0@ != #[trigger] s[b].0@ by {
                        let a0 = if a < i { a } else { a + 1 };
                        let b0 = if b < i { b } else { b + 1 };
                        assert(s[a] == s0[a0] && s[b] == s0[b0]);
                    }
                    let target = old(self)@.remove(k@);
                    assert forall|kk: Seq<char>| #[trigger] self@.contains_key(kk) == target.contains_key(kk) by {
                        if has_key(s, kk) {
                            let j = choose|j: int| 0 <= j < s.len() && #[trigger] s[j].0@ == kk;
                            let j0 = if j < i { j } else { j + 1 };
                            assert(s0[j0].0@ == kk);
                        }
                        if has_key(s0, kk) && kk != k@ {
                            let j0 = choose|j: int| 0 <= j < s0.len() && #[trigger] s0[j].0@ == kk;
                            let j = if j0 < i { j0 } else { j0 - 1 };
                            assert(s[j].0@ == kk);
                        }
                    }
                    assert forall|kk: Seq<char>| #[trigger] self@.contains_key(kk) implies self@[kk] == target[kk] by {
                        let j = choose|j: int| 0 <= j < s.len() && #[trigger] s[j].0@ == kk;
                        let j0 = if j < i { j } else { j + 1 };
                        lemma_value_at(s, j);
                        lemma_value_at(s0, j0);
                    }
                    assert(self@ =~= target);
                }
                Some(e.1)
            },
            None => {
                proof { assert(old(self)@.remove(k@) =~= old(self)@); }
                None
            },
        }
    }

    /// Removes the most recently inserted entry.
    pub fn pop(&mut self) -> (r: Option<(String, FieldValue)>)
        requires
            old(self).wf(),
        ensures
            final(self).wf(),
            match r {
                Some(e) => old(self)@.contains_key(e.0@) && old(self)@[e.0@] == e.1
                    && final(self)@ == old(self)@.remove(e.0@)
                    && final(self)@.len() + 1 == old(self)@.len(),
                None => old(self)@.len() == 0 && final(self)@ == old(self)@,
            },
    {
        proof { self.lemma_len(); }
        let n = self.entries.len();
        if n == 0 {
            return None;
        }
        let k = self.entries[n - 1].0.clone();
        let r = self.remove(&k);
        proof { self.lemma_len(); }
        match r {
            Some(v) => Some((k, v)),
            None => None,
        }
    }

    /// The field names, in order of insertion.
    pub fn keys(&self) -> (r: Vec<String>)
        requires
            self.wf(),
        ensures
            r@.len() == self@.len(),
            forall|k: Seq<char>| self@.contains_key(k) <==> exists|i: int| 0 <= i < r@.len() && #[trigger] r@[i]@ == k,
    {
        proof { self.lemma_len(); }
        let mut r: Vec<String> = Vec::new();
        let mut i: usize = 0;
        while i < self.entries.len()
            invariant
                i <= self.entries@.len(),
                r@.len() == i,
                forall|j: int| 0 <= j < i ==> #[trigger] r@[j]@ == self.entries@[j].0@,
            decreases self.entries@.len() - i,
        {
            r.push(self.entries[i].0.clone());
            i = i + 1;
        }
        proof {
            assert forall|k: Seq<char>| self@.contains_key(k) implies exists|i: int| 0 <= i < r@.len() && #[trigger] r@[i]@ == k by {
                let j = choose|j: int| 0 <= j < self.entries@.len() && #[trigger] self.entries@[j].0@ == k;
                assert(r@[j]@ == k);
            }
            assert forall|k: Seq<char>| (exists|i: int| 0 <= i < r@.len() && #[trigger] r@[i]@ == k) implies self@.contains_key(k) by {
                let j = choose|j: int| 0 <= j < r@.len() && #[trigger] r@[j]@ == k;
                assert(self.entries@[j].0@ == k);
            }
        }
        r
    }
}

} // verus!
