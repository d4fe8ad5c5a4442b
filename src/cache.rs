use vstd::prelude::*;

verus! {

/// How long an entry is served after it was written, in milliseconds.
pub const TTL_MILLIS: i64 = 300_000;

/// One stored value: `key` is `environment:name`, `expires_at` is in milliseconds since
/// the Unix epoch.
pub struct CacheEntry {
    pub key: String,
    pub value: String,
    pub expires_at: i64,
}

/// `environment:name`.
pub open spec fn key_of(env: Seq<char>, name: Seq<char>) -> Seq<char> {
    env + seq![':'] + name
}

/// The expiry stamped on a write at `now`: `now + TTL`, held at the largest timestamp.
pub open spec fn expiry_of(now: int) -> int {
    if now + TTL_MILLIS <= i64::MAX {
        now + TTL_MILLIS
    } else {
        i64::MAX as int
    }
}

/// What a read of `key` at `now` yields from the cache contents `m`.
pub open spec fn read_spec(m: Map<Seq<char>, (Seq<char>, int)>, key: Seq<char>, now: int) -> Option<Seq<char>> {
    if m.contains_key(key) && now < m[key].1 {
        Some(m[key].0)
    } else {
        None
    }
}

/// The cache contents after writing `value` under `key` at `now`.
pub open spec fn write_spec(
    m: Map<Seq<char>, (Seq<char>, int)>,
    key: Seq<char>,
    value: Seq<char>,
    now: int,
) -> Map<Seq<char>, (Seq<char>, int)> {
    m.insert(key, (value, expiry_of(now)))
}

/// A value written at instant `write` is read back at every instant `t` with
/// `write <= t < write + TTL`, and is absent at every instant from `write + TTL` on.
pub proof fn lemma_write_then_read(
    m: Map<Seq<char>, (Seq<char>, int)>,
    env: Seq<char>,
    name: Seq<char>,
    value: Seq<char>,
    write: int,
    t: int,
)
    requires
        write + TTL_MILLIS <= i64::MAX,
    ensures
        write <= t < write + TTL_MILLIS ==> read_spec(
            write_spec(m, key_of(env, name), value, write),
            key_of(env, name),
            t,
        ) == Some(value),
        t >= write + TTL_MILLIS ==> read_spec(
            write_spec(m, key_of(env, name), value, write),
            key_of(env, name),
            t,
        ) is None,
{
}

pub open spec fn opt_view(r: Option<String>) -> Option<Seq<char>> {
    match r {
        Some(s) => Some(s@),
        None => None,
    }
}

pub open spec fn unique_keys(s: Seq<CacheEntry>) -> bool {
    forall|i: int, j: int|
        0 <= i < s.len() && 0 <= j < s.len() && #[trigger] s[i].key@ == #[trigger] s[j].key@
            ==> i == j
}

pub open spec fn key_at(s: Seq<CacheEntry>, i: int, k: Seq<char>) -> bool {
    0 <= i < s.len() && s[i].key@ == k
}

pub open spec fn map_of(s: Seq<CacheEntry>) -> Map<Seq<char>, (Seq<char>, int)> {
    Map::new(
        |k: Seq<char>| exists|i: int| #[trigger] key_at(s, i, k),
        |k: Seq<char>|
            {
                let i = choose|i: int| #[trigger] key_at(s, i, k);
                (s[i].value@, s[i].expires_at as int)
            },
    )
}

proof fn lemma_map_of_at(s: Seq<CacheEntry>, i: int)
    requires
        unique_keys(s),
        0 <= i < s.len(),
    ensures
        map_of(s).contains_key(s[i].key@),
        map_of(s)[s[i].key@] == (s[i].value@, s[i].expires_at as int),
{
    let k = s[i].key@;
    assert(key_at(s, i, k));
    let j = choose|j: int| #[trigger] key_at(s, j, k);
    assert(s[j].key@ == s[i].key@);
}

proof fn lemma_map_of_absent(s: Seq<CacheEntry>, k: Seq<char>)
    requires
        forall|i: int| 0 <= i < s.len() ==> s[i].key@ != k,
    ensures
        !map_of(s).contains_key(k),
{
}

/// Equal contents entry by entry give equal maps.
proof fn lemma_map_of_ext(s: Seq<CacheEntry>, m: Map<Seq<char>, (Seq<char>, int)>)
    requires
        unique_keys(s),
        forall|i: int| 0 <= i < s.len() ==> #[trigger] m.contains_key(s[i].key@) && m[s[i].key@] == (s[i].value@, s[i].expires_at as int),
        forall|k: Seq<char>| #[trigger] m.contains_key(k) ==> exists|i: int| #[trigger] key_at(s, i, k),
    ensures
        map_of(s) == m,
{
    assert forall|k: Seq<char>| #[trigger] map_of(s).contains_key(k) == m.contains_key(k) by {
        if map_of(s).contains_key(k) {
            let i = choose|i: int| #[trigger] key_at(s, i, k);
            assert(m.contains_key(s[i].key@));
        }
    }
    assert forall|k: Seq<char>| #[trigger] map_of(s).contains_key(k) implies map_of(s)[k] == m[k] by {
        let i = choose|i: int| #[trigger] key_at(s, i, k);
        lemma_map_of_at(s, i);
        assert(m.contains_key(s[i].key@));
    }
    assert(map_of(s) =~= m);
}

/// The contents of a list of entries, each later entry replacing an earlier one with
/// its key.
pub open spec fn entries_map(s: Seq<CacheEntry>) -> Map<Seq<char>, (Seq<char>, int)>
    decreases s.len(),
{
    if s.len() == 0 {
        Map::empty()
    } else {
        entries_map(s.drop_last()).insert(s.last().key@, (s.last().value@, s.last().expires_at as int))
    }
}

proof fn lemma_entries_map_unique(s: Seq<CacheEntry>)
    requires
        unique_keys(s),
    ensures
        entries_map(s) == map_of(s),
    decreases s.len(),
{
    if s.len() > 0 {
        let init = s.drop_last();
        let n = init.len() as int;
        assert(unique_keys(init)) by {
            assert forall|a: int, b: int|
                0 <= a < init.len() && 0 <= b < init.len() && #[trigger] init[a].key@ == #[trigger] init[b].key@ implies a == b by {
                assert(s[a].key@ == s[b].key@);
            }
        }
        lemma_entries_map_unique(init);
        let m = map_of(init).insert(s.last().key@, (s.last().value@, s.last().expires_at as int));
        assert forall|j: int| 0 <= j < s.len() implies #[trigger] m.contains_key(s[j].key@) && m[s[j].key@] == (s[j].value@, s[j].expires_at as int) by {
            if j < n {
                lemma_map_of_at(init, j);
                assert(s[j].key@ != s[n].key@);
            }
        }
        assert forall|q: Seq<char>| #[trigger] m.contains_key(q) implies exists|j: int| #[trigger] key_at(s, j, q) by {
            if q == s.last().key@ {
                assert(key_at(s, n, q));
            } else {
                let j = choose|j: int| #[trigger] key_at(init, j, q);
                assert(key_at(s, j, q));
            }
        }
        lemma_map_of_ext(s, m);
    }
}

/// Relies on chrono::Utc::now and DateTime::timestamp_millis: the current time in
/// milliseconds since the Unix epoch. Nothing is known of its value.
#[verifier::external_body]
fn now_millis() -> (r: i64) {
    chrono::Utc::now().timestamp_millis()
}

fn build_key(env: &str, name: &str) -> (r: String)
    ensures
        r@ == key_of(env@, name@),
{
    proof {
        reveal_strlit(":");
    }
    let mut s = env.to_owned();
    s.append(":");
    s.append(name);
    s
}

/// Values read from the remote store, kept for a fixed time after they were written.
pub struct Cache {
    entries: Vec<CacheEntry>,
}

impl View for Cache {
    type V = Map<Seq<char>, (Seq<char>, int)>;

    closed spec fn view(&self) -> Map<Seq<char>, (Seq<char>, int)> {
        map_of(self.entries@)
    }
}

impl Cache {
    /// Each key is stored once.
    pub closed spec fn wf(&self) -> bool {
        unique_keys(self.entries@)
    }

    /// An empty cache.
    pub fn new() -> (r: Cache)
        ensures
            r.wf(),
            r@ == Map::<Seq<char>, (Seq<char>, int)>::empty(),
    {
        let r = Cache { entries: Vec::new() };
        proof {
            assert(map_of(r.entries@) =~= Map::<Seq<char>, (Seq<char>, int)>::empty());
        }
        r
    }

    fn find(&self, key: &String) -> (r: Option<usize>)
        requires
            self.wf(),
        ensures
            match r {
                Some(i) => i < self.entries@.len() && self.entries@[i as int].key@ == key@,
                None => forall|i: int| 0 <= i < self.entries@.len() ==> self.entries@[i].key@ != key@,
            },
    {
        let mut i: usize = 0;
        while i < self.entries.len()
            invariant
                i <= self.entries@.len(),
                forall|j: int| 0 <= j < i ==> self.entries@[j].key@ != key@,
            decreases self.entries@.len() - i,
        {
            if self.entries[i].key == *key {
                return Some(i);
            }
            i = i + 1;
        }
        None
    }

    /// Stores `value` under `key` with the given expiry, replacing what the key held.
    pub fn insert_entry(&mut self, key: String, value: String, expires_at: i64)
        requires
            old(self).wf(),
        ensures
            final(self).wf(),
            final(self)@ == old(self)@.insert(key@, (value@, expires_at as int)),
    {
        let ghost k = key@;
        let ghost v = value@;
        let ghost before = self.entries@;
        let ghost m = map_of(before).insert(k, (v, expires_at as int));
        match self.find(&key) {
            Some(i) => {
                self.entries.set(i, CacheEntry { key, value, expires_at });
                proof {
                    let s = self.entries@;
                    assert forall|a: int, b: int|
                        0 <= a < s.len() && 0 <= b < s.len() && #[trigger] s[a].key@ == #[trigger] s[b].key@ implies a == b by {
                        assert(before[a].key@ == s[a].key@ || a == i);
                        assert(before[b].key@ == s[b].key@ || b == i);
                    }
                    assert forall|j: int| 0 <= j < s.len() implies #[trigger] m.contains_key(s[j].key@) && m[s[j].key@] == (s[j].value@, s[j].expires_at as int) by {
                        if j != i {
                            lemma_map_of_at(before, j);
                        }
                    }
                    assert forall|q: Seq<char>| #[trigger] m.contains_key(q) implies exists|j: int| #[trigger] key_at(s, j, q) by {
                        if q == k {
                            assert(key_at(s, i as int, q));
                        } else {
                            let j = choose|j: int| #[trigger] key_at(before, j, q);
                            assert(key_at(s, j, q));
                        }
                    }
                    lemma_map_of_ext(s, m);
                }
            },
            None => {
                self.entries.push(CacheEntry { key, value, expires_at });
                proof {
                    let s = self.entries@;
                    let n = before.len() as int;
                    assert forall|a: int, b: int|
                        0 <= a < s.len() && 0 <= b < s.len() && #[trigger] s[a].key@ == #[trigger] s[b].key@ implies a == b by {
                        if a < n && b < n {
                            assert(before[a].key@ == before[b].key@);
                        }
                    }
                    assert forall|j: int| 0 <= j < s.len() implies #[trigger] m.contains_key(s[j].key@) && m[s[j].key@] == (s[j].value@, s[j].expires_at as int) by {
                        if j < n {
                            lemma_map_of_at(before, j);
                        }
                    }
                    assert forall|q: Seq<char>| #[trigger] m.contains_key(q) implies exists|j: int| #[trigger] key_at(s, j, q) by {
                        if q == k {
                            assert(key_at(s, n, q));
                        } else {
                            let j = choose|j: int| #[trigger] key_at(before, j, q);
                            assert(key_at(s, j, q));
                        }
                    }
                    lemma_map_of_ext(s, m);
                }
            },
        }
    }

    /// The value stored for `environment:name`, if it has not expired at `now`.
    pub fn get_at(&self, env: &str, name: &str, now: i64) -> (r: Option<String>)
        requires
            self.wf(),
        ensures
            opt_view(r) == read_spec(self@, key_of(env@, name@), now as int),
    {
        let key = build_key(env, name);
        match self.find(&key) {
            Some(i) => {
                proof {
                    lemma_map_of_at(self.entries@, i as int);
                }
                if now < self.entries[i].expires_at {
                    Some(self.entries[i].value.clone())
                } else {
                    None
                }
            },
            None => {
                proof {
                    lemma_map_of_absent(self.entries@, key@);
                }
                None
            },
        }
    }

    /// Stores `value` for `environment:name`, to be served until `now + TTL`.
    pub fn set_at(&mut self, env: &str, name: &str, value: String, now: i64)
        requires
            old(self).wf(),
        ensures
            final(self).wf(),
            final(self)@ == write_spec(old(self)@, key_of(env@, name@), value@, now as int),
    {
        let key = build_key(env, name);
        let expires_at: i64 = if now <= i64::MAX - TTL_MILLIS {
            now + TTL_MILLIS
        } else {
            i64::MAX
        };
        self.insert_entry(key, value, expires_at);
    }

    /// The value stored for `environment:name`, if it has not expired by now.
    pub fn get(&self, env: &str, name: &str) -> (r: Option<String>)
        requires
            self.wf(),
        ensures
            exists|now: int| opt_view(r) == #[trigger] read_spec(self@, key_of(env@, name@), now),
    {
        let now = now_millis();
        self.get_at(env, name, now)
    }

    /// Stores `value` for `environment:name`, to be served for the fixed TTL from now.
    pub fn set(&mut self, env: &str, name: &str, value: String)
        requires
            old(self).wf(),
        ensures
            final(self).wf(),
            exists|now: int|
                final(self)@ == #[trigger] write_spec(old(self)@, key_of(env@, name@), value@, now),
    {
        let now = now_millis();
        self.set_at(env, name, value, now);
    }

    /// Removes the entry for `environment:name`, if any.
    pub fn delete(&mut self, env: &str, name: &str)
        requires
            old(self).wf(),
        ensures
            final(self).wf(),
            final(self)@ == old(self)@.remove(key_of(env@, name@)),
    {
        let key = build_key(env, name);
        let ghost before = self.entries@;
        let ghost m = map_of(before).remove(key@);
        match self.find(&key) {
            Some(i) => {
                self.entries.remove(i);
                proof {
                    let s = self.entries@;
                    assert forall|a: int, b: int|
                        0 <= a < s.len() && 0 <= b < s.len() && #[trigger] s[a].key@ == #[trigger] s[b].key@ implies a == b by {
                        let a2 = if a < i { a } else { a + 1 };
                        let b2 = if b < i { b } else { b + 1 };
                        assert(before[a2].key@ == before[b2].key@);
                    }
                    assert forall|j: int| 0 <= j < s.len() implies #[trigger] m.contains_key(s[j].key@) && m[s[j].key@] == (s[j].value@, s[j].expires_at as int) by {
                        let j2 = if j < i { j } else { j + 1 };
                        lemma_map_of_at(before, j2);
                        assert(s[j] == before[j2]);
                    }
                    assert forall|q: Seq<char>| #[trigger] m.contains_key(q) implies exists|j: int| #[trigger] key_at(s, j, q) by {
                        let j = choose|j: int| #[trigger] key_at(before, j, q);
                        if j < i {
                            assert(key_at(s, j, q));
                        } else {
                            assert(key_at(s, j - 1, q));
                        }
                    }
                    lemma_map_of_ext(s, m);
                }
            },
            None => {
                proof {
                    lemma_map_of_absent(before, key@);
                    assert(m =~= map_of(before));
                }
            },
        }
    }

    /// A cache holding `entries`; of two entries with one key the later one stays.
    pub fn from_entries(entries: &Vec<CacheEntry>) -> (r: Cache)
        ensures
            r.wf(),
            r@ == entries_map(entries@),
    {
        let mut c = Cache::new();
        let mut i: usize = 0;
        while i < entries.len()
            invariant
                i <= entries@.len(),
                c.wf(),
                c@ == entries_map(entries@.take(i as int)),
            decreases entries@.len() - i,
        {
            c.insert_entry(entries[i].key.clone(), entries[i].value.clone(), entries[i].expires_at);
            proof {
                assert(entries@.take(i + 1).drop_last() =~= entries@.take(i as int));
            }
            i = i + 1;
        }
        proof {
            assert(entries@.take(i as int) =~= entries@);
        }
        c
    }

    /// Every entry, expired or not, for writing the cache out.
    pub fn to_entries(&self) -> (r: Vec<CacheEntry>)
        requires
            self.wf(),
        ensures
            entries_map(r@) == self@,
    {
        let mut r: Vec<CacheEntry> = Vec::new();
        let mut i: usize = 0;
        while i < self.entries.len()
            invariant
                i <= self.entries@.len(),
                r@.len() == i,
                forall|j: int| 0 <= j < i ==> #[trigger] r@[j].key@ == self.entries@[j].key@
                    && r@[j].value@ == self.entries@[j].value@
                    && r@[j].expires_at == self.entries@[j].expires_at,
            decreases self.entries@.len() - i,
        {
            let e = &self.entries[i];
            r.push(CacheEntry { key: e.key.clone(), value: e.value.clone(), expires_at: e.expires_at });
            i = i + 1;
        }
        proof {
            assert(unique_keys(r@)) by {
                assert forall|a: int, b: int|
                    0 <= a < r@.len() && 0 <= b < r@.len() && #[trigger] r@[a].key@ == #[trigger] r@[b].key@ implies a == b by {
                    assert(self.entries@[a].key@ == self.entries@[b].key@);
                }
            }
            lemma_entries_map_unique(r@);
            assert forall|j: int| 0 <= j < r@.len() implies #[trigger] map_of(self.entries@).contains_key(r@[j].key@)
                && map_of(self.entries@)[r@[j].key@] == (r@[j].value@, r@[j].expires_at as int) by {
                lemma_map_of_at(self.entries@, j);
            }
            assert forall|q: Seq<char>| #[trigger] map_of(self.entries@).contains_key(q) implies exists|j: int| #[trigger] key_at(r@, j, q) by {
                let j = choose|j: int| #[trigger] key_at(self.entries@, j, q);
                assert(key_at(r@, j, q));
            }
            lemma_map_of_ext(r@, map_of(self.entries@));
        }
        r
    }

    /// Removes every entry.
    pub fn clear(&mut self)
        ensures
            final(self).wf(),
            final(self)@ == Map::<Seq<char>, (Seq<char>, int)>::empty(),
    {
        self.entries.clear();
        proof {
            assert(map_of(self.entries@) =~= Map::<Seq<char>, (Seq<char>, int)>::empty());
        }
    }
}

} // verus!
