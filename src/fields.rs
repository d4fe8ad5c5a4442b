use vstd::prelude::*;

verus! {

/// A field set as text pairs `(name, value)`.
pub open spec fn pairs_view(v: Seq<(String, String)>) -> Seq<(Seq<char>, Seq<char>)> {
    v.map_values(|p: (String, String)| (p.0@, p.1@))
}

pub proof fn lemma_pairs_view_index(v: Seq<(String, String)>, i: int)
    requires
        0 <= i < v.len(),
    ensures
        pairs_view(v).len() == v.len(),
        #[trigger] pairs_view(v)[i] == (v[i].0@, v[i].1@),
{
}

/// No two pairs share a name.
pub open spec fn distinct_keys(s: Seq<(Seq<char>, Seq<char>)>) -> bool {
    forall|i: int, j: int|
        0 <= i < s.len() && 0 <= j < s.len() && #[trigger] s[i].0 == #[trigger] s[j].0 ==> i == j
}

pub open spec fn has_key(s: Seq<(Seq<char>, Seq<char>)>, k: Seq<char>) -> bool {
    exists|i: int| 0 <= i < s.len() && #[trigger] s[i].0 == k
}

/// Puts `p` in place of the pair with the same name, or appends it when there is none.
pub open spec fn upsert(s: Seq<(Seq<char>, Seq<char>)>, p: (Seq<char>, Seq<char>)) -> Seq<(Seq<char>, Seq<char>)> {
    if has_key(s, p.0) {
        let i = choose|i: int| 0 <= i < s.len() && #[trigger] s[i].0 == p.0;
        s.update(i, p)
    } else {
        s.push(p)
    }
}

/// The field set built by inserting `ps` in order into an empty one.
pub open spec fn upsert_all(ps: Seq<(Seq<char>, Seq<char>)>) -> Seq<(Seq<char>, Seq<char>)>
    decreases ps.len(),
{
    if ps.len() == 0 {
        Seq::empty()
    } else {
        upsert(upsert_all(ps.drop_last()), ps.last())
    }
}

pub proof fn lemma_upsert_distinct(s: Seq<(Seq<char>, Seq<char>)>, p: (Seq<char>, Seq<char>))
    requires
        distinct_keys(s),
    ensures
        distinct_keys(upsert(s, p)),
        has_key(upsert(s, p), p.0),
{
    let r = upsert(s, p);
    if has_key(s, p.0) {
        let i = choose|i: int| 0 <= i < s.len() && #[trigger] s[i].0 == p.0;
        assert forall|a: int, b: int| 0 <= a < r.len() && 0 <= b < r.len() && #[trigger] r[a].0 == #[trigger] r[b].0 implies a == b by {
            assert(r[a].0 == s[a].0);
            assert(r[b].0 == s[b].0);
        }
        assert(r[i].0 == p.0);
    } else {
        let n = s.len() as int;
        assert forall|a: int, b: int| 0 <= a < r.len() && 0 <= b < r.len() && #[trigger] r[a].0 == #[trigger] r[b].0 implies a == b by {
            if a < n && b < n {
                assert(s[a].0 == s[b].0);
            } else if a < n {
                assert(s[a].0 == p.0);
            } else if b < n {
                assert(s[b].0 == p.0);
            }
        }
        assert(r[n].0 == p.0);
    }
}

pub proof fn lemma_upsert_all_distinct(ps: Seq<(Seq<char>, Seq<char>)>)
    ensures
        distinct_keys(upsert_all(ps)),
        ps.len() > 0 ==> upsert_all(ps).len() > 0,
    decreases ps.len(),
{
    if ps.len() > 0 {
        lemma_upsert_all_distinct(ps.drop_last());
        lemma_upsert_distinct(upsert_all(ps.drop_last()), ps.last());
    }
}

/// Inserting pairs whose names are already distinct keeps them as they are, in order.
pub proof fn lemma_upsert_all_identity(ps: Seq<(Seq<char>, Seq<char>)>)
    requires
        distinct_keys(ps),
    ensures
        upsert_all(ps) == ps,
    decreases ps.len(),
{
    if ps.len() > 0 {
        let init = ps.drop_last();
        assert(distinct_keys(init)) by {
            assert forall|a: int, b: int| 0 <= a < init.len() && 0 <= b < init.len() && #[trigger] init[a].0 == #[trigger] init[b].0 implies a == b by {
                assert(ps[a].0 == ps[b].0);
            }
        }
        lemma_upsert_all_identity(init);
        if has_key(init, ps.last().0) {
            let i = choose|i: int| 0 <= i < init.len() && #[trigger] init[i].0 == ps.last().0;
            assert(ps[i].0 == ps[ps.len() - 1].0);
        }
        assert(init.push(ps.last()) =~= ps);
    }
}

/// Named text fields, each name once, in the order they were first inserted. The values
/// are written to the cluster as their UTF-8 bytes.
pub struct FieldMap {
    fields: Vec<(String, String)>,
}

impl View for FieldMap {
    type V = Seq<(Seq<char>, Seq<char>)>;

    closed spec fn view(&self) -> Seq<(Seq<char>, Seq<char>)> {
        pairs_view(self.fields@)
    }
}

impl FieldMap {
    pub open spec fn wf(&self) -> bool {
        distinct_keys(self@)
    }

    /// A field set with no fields.
    pub fn new() -> (r: FieldMap)
        ensures
            r@ == Seq::<(Seq<char>, Seq<char>)>::empty(),
            r.wf(),
    {
        let r = FieldMap { fields: Vec::new() };
        proof {
            assert(r@ =~= Seq::<(Seq<char>, Seq<char>)>::empty());
        }
        r
    }

    /// Sets field `key` to `value`, keeping its place if it was present.
    pub fn insert(&mut self, key: String, value: String)
        requires
            old(self).wf(),
        ensures
            final(self)@ == upsert(old(self)@, (key@, value@)),
            final(self).wf(),
    {
        let ghost s = self@;
        let ghost p = (key@, value@);
        let mut i: usize = 0;
        while i < self.fields.len()
            invariant
                i <= self.fields@.len(),
                self@ == s,
                old(self)@ == s,
                p == (key@, value@),
                distinct_keys(s),
                s == pairs_view(self.fields@),
                forall|j: int| 0 <= j < i ==> s[j].0 != key@,
            decreases self.fields@.len() - i,
        {
            proof {
                lemma_pairs_view_index(self.fields@, i as int);
            }
            let same = self.fields[i].0 == key;
            if same {
                let ghost before = self.fields@;
                assert(before[i as int].0@ == key@);
                self.fields.set(i, (key, value));
                proof {
                    assert(s[i as int].0 == p.0);
                    assert(has_key(s, p.0));
                    let c = choose|c: int| 0 <= c < s.len() && #[trigger] s[c].0 == p.0;
                    assert(s[c].0 == s[i as int].0);
                    assert(c == i);
                    assert forall|j: int| 0 <= j < s.len() implies #[trigger] pairs_view(self.fields@)[j] == s.update(i as int, p)[j] by {
                        lemma_pairs_view_index(self.fields@, j);
                        lemma_pairs_view_index(before, j);
                    }
                    assert(pairs_view(self.fields@) =~= s.update(i as int, p));
                    assert(upsert(s, p) == s.update(i as int, p));
                    assert(self@ == upsert(s, p));
                    lemma_upsert_distinct(s, p);
                }
                return;
            }
            i = i + 1;
        }
        let ghost before = self.fields@;
        self.fields.push((key, value));
        proof {
            assert(!has_key(s, p.0));
            assert forall|j: int| 0 <= j < s.len() + 1 implies #[trigger] pairs_view(self.fields@)[j] == s.push(p)[j] by {
                    lemma_pairs_view_index(self.fields@, j);
                if j < s.len() {
                    lemma_pairs_view_index(before, j);
                }
            }
            assert(pairs_view(self.fields@) =~= s.push(p));
            lemma_upsert_distinct(s, p);
        }
    }

    /// How many fields there are.
    pub fn len(&self) -> (r: usize)
        ensures
            r == self@.len(),
    {
        self.fields.len()
    }

    /// The value of field `key`, if present.
    pub fn get(&self, key: &str) -> (r: Option<String>)
        requires
            self.wf(),
        ensures
            match r {
                Some(v) => exists|i: int| 0 <= i < self@.len() && #[trigger] self@[i] == (key@, v@),
                None => !has_key(self@, key@),
            },
    {
        let k = key.to_owned();
        let mut i: usize = 0;
        while i < self.fields.len()
            invariant
                i <= self.fields@.len(),
                k@ == key@,
                forall|j: int| 0 <= j < i ==> self@[j].0 != key@,
            decreases self.fields@.len() - i,
        {
            proof {
                lemma_pairs_view_index(self.fields@, i as int);
            }
            if self.fields[i].0 == k {
                let v = self.fields[i].1.clone();
                proof {
                    assert(self@[i as int] == (key@, v@));
                }
                return Some(v);
            }
            i = i + 1;
        }
        None
    }

    /// The fields as `(name, value)` pairs, in order.
    pub fn to_pairs(&self) -> (r: Vec<(String, String)>)
        ensures
            pairs_view(r@) == self@,
    {
        let mut r: Vec<(String, String)> = Vec::new();
        let mut i: usize = 0;
        while i < self.fields.len()
            invariant
                i <= self.fields@.len(),
                r@.len() == i,
                pairs_view(r@) == pairs_view(self.fields@).take(i as int),
            decreases self.fields@.len() - i,
        {
            let k = self.fields[i].0.clone();
            let v = self.fields[i].1.clone();
            let ghost old_r = r@;
            r.push((k, v));
            proof {
                lemma_pairs_view_index(self.fields@, i as int);
                lemma_pairs_view_index(r@, i as int);
                assert forall|j: int| 0 <= j < i implies #[trigger] pairs_view(r@)[j] == pairs_view(self.fields@)[j] by {
                    lemma_pairs_view_index(r@, j);
                    lemma_pairs_view_index(r@.drop_last(), j);
                    assert(r@.drop_last() == old_r);
                    lemma_pairs_view_index(self.fields@, j);
                }
                assert(pairs_view(r@) =~= pairs_view(self.fields@).take(i + 1));
            }
            i = i + 1;
        }
        proof {
            assert(pairs_view(self.fields@).take(i as int) =~= pairs_view(self.fields@));
        }
        r
    }
}

} // verus!
