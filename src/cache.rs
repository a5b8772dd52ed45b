//! The response cache: a bounded map from the zero-ID form of a query to the
//! zero-ID form of its response, with a time to live per entry. Entries are
//! kept least recently used first; time is given in seconds by the caller.
use vstd::prelude::*;

verus! {

/// What the cache holds for one key.
pub struct EntryView {
    pub key: Seq<u8>,
    pub value: Seq<u8>,
    pub inserted_at: u64,
    pub ttl: u64,
}

/// An entry is live while no more than `ttl` seconds have passed since it was
/// inserted.
pub open spec fn is_live(e: EntryView, now: u64) -> bool {
    now as int - e.inserted_at as int <= e.ttl as int
}

/// The position of `key` among the entries, if it is there.
pub open spec fn find_key(s: Seq<EntryView>, key: Seq<u8>) -> Option<int> {
    if exists|i: int| 0 <= i < s.len() && #[trigger] s[i].key == key {
        Some(choose|i: int| 0 <= i < s.len() && #[trigger] s[i].key == key)
    } else {
        None
    }
}

/// The entries after the one at `i` was used: it becomes the most recent.
pub open spec fn touch(s: Seq<EntryView>, i: int) -> Seq<EntryView> {
    s.remove(i).push(s[i])
}

/// No key occurs twice.
pub open spec fn unique_keys(s: Seq<EntryView>) -> bool {
    forall|i: int, j: int| 0 <= i < s.len() && 0 <= j < s.len() && i != j ==> s[i].key != s[j].key
}

/// The entries after storing `e` in a cache of capacity `cap` (positive): an
/// entry of the same key is replaced, else the least recently used entry is
/// evicted when the cache is full; the new entry is the most recent.
pub open spec fn put_spec(s: Seq<EntryView>, cap: nat, e: EntryView) -> Seq<EntryView> {
    match find_key(s, e.key) {
        Some(i) => s.remove(i).push(e),
        None => if s.len() >= cap {
            s.remove(0).push(e)
        } else {
            s.push(e)
        },
    }
}

struct CacheEntry {
    key: Vec<u8>,
    value: Vec<u8>,
    inserted_at: u64,
    ttl: u64,
}

impl CacheEntry {
    spec fn view(&self) -> EntryView {
        EntryView { key: self.key@, value: self.value@, inserted_at: self.inserted_at, ttl: self.ttl }
    }
}

/// A TTL cache of fixed capacity with least-recently-used eviction.
pub struct Cache {
    capacity: usize,
    entries: Vec<CacheEntry>,
}

pub(crate) fn bytes_eq(a: &Vec<u8>, b: &Vec<u8>) -> (r: bool)
    ensures
        r == (a@ == b@),
{
    if a.len() != b.len() {
        return false;
    }
    let mut i: usize = 0;
    while i < a.len()
        invariant
            a@.len() == b@.len(),
            i <= a@.len(),
            forall|j: int| 0 <= j < i ==> a@[j] == b@[j],
        decreases a@.len() - i,
    {
        if a[i] != b[i] {
            return false;
        }
        i += 1;
    }
    assert(a@ =~= b@);
    true
}

fn copy_bytes(a: &Vec<u8>) -> (r: Vec<u8>)
    ensures
        r@ == a@,
{
    let r = a.clone();
    assert(r@ =~= a@);
    r
}

impl View for Cache {
    type V = Seq<EntryView>;

    closed spec fn view(&self) -> Seq<EntryView> {
        self.entries@.map_values(|e: CacheEntry| e.view())
    }
}

impl Cache {
    /// At most `capacity` entries, no key twice.
    pub closed spec fn wf(&self) -> bool {
        &&& self.entries@.len() <= self.capacity
        &&& unique_keys(self@)
    }

    /// The number of entries the cache can hold.
    pub closed spec fn capacity_spec(&self) -> nat {
        self.capacity as nat
    }

    /// An empty cache that holds at most `capacity` entries; with capacity 0
    /// nothing is ever stored.
    pub fn new(capacity: usize) -> (r: Cache)
        ensures
            r.wf(),
            r@.len() == 0,
            r.capacity_spec() == capacity,
    {
        let r = Cache { capacity, entries: Vec::new() };
        assert(r@ =~= Seq::<EntryView>::empty());
        r
    }

    /// The number of entries the cache can hold.
    pub fn capacity(&self) -> (r: usize)
        ensures
            r == self.capacity_spec(),
    {
        self.capacity
    }

    /// The number of entries held.
    pub fn len(&self) -> (r: usize)
        requires
            self.wf(),
        ensures
            r == self@.len(),
            r <= self.capacity_spec(),
            unique_keys(self@),
    {
        self.entries.len()
    }

    fn find(&self, key: &Vec<u8>) -> (r: Option<usize>)
        requires
            self.wf(),
        ensures
            r is None <==> find_key(self@, key@) is None,
            r is Some ==> find_key(self@, key@) == Some(r->0 as int),
            r is Some ==> r->0 < self@.len() && self@[r->0 as int].key == key@,
            unique_keys(self@),
    {
        let mut i: usize = 0;
        while i < self.entries.len()
            invariant
                i <= self@.len(),
                self.wf(),
                self@.len() == self.entries@.len(),
                forall|j: int| 0 <= j < i ==> self@[j].key != key@,
            decreases self.entries@.len() - i,
        {
            assert(self@[i as int] == self.entries@[i as int].view());
            if bytes_eq(&self.entries[i].key, key) {
                assert(self@[i as int].key == key@);
                let ghost c = choose|j: int| 0 <= j < self@.len() && #[trigger] self@[j].key == key@;
                assert(self@[i as int].key == key@);
                assert(c == i);
                return Some(i);
            }
            i += 1;
        }
        assert(!exists|j: int| 0 <= j < self@.len() && #[trigger] self@[j].key == key@);
        None
    }

    /// Moves the entry at `i` to the most recent place and returns a copy of
    /// its value.
    fn use_entry(&mut self, i: usize) -> (r: Vec<u8>)
        requires
            old(self).wf(),
            i < old(self)@.len(),
        ensures
            final(self).wf(),
            final(self)@ == touch(old(self)@, i as int),
            r@ == old(self)@[i as int].value,
            final(self).capacity_spec() == old(self).capacity_spec(),
    {
        let ghost s = self@;
        let e = self.entries.remove(i);
        let r = copy_bytes(&e.value);
        self.entries.push(e);
        assert(self@ =~= touch(s, i as int));
        proof {
            let t = touch(s, i as int);
            assert forall|a: int, b: int| 0 <= a < t.len() && 0 <= b < t.len() && a != b
                implies t[a].key != t[b].key by {
                let oa = if a == t.len() - 1 { i as int } else if a < i { a } else { a + 1 };
                let ob = if b == t.len() - 1 { i as int } else if b < i { b } else { b + 1 };
                assert(t[a] == s[oa]);
                assert(t[b] == s[ob]);
            }
        }
        r
    }

    fn remove_entry(&mut self, i: usize)
        requires
            old(self).wf(),
            i < old(self)@.len(),
        ensures
            final(self).wf(),
            final(self)@ == old(self)@.remove(i as int),
            final(self).capacity_spec() == old(self).capacity_spec(),
    {
        let ghost s = self@;
        self.entries.remove(i);
        assert(self@ =~= s.remove(i as int));
        proof {
            let t = s.remove(i as int);
            assert forall|a: int, b: int| 0 <= a < t.len() && 0 <= b < t.len() && a != b
                implies t[a].key != t[b].key by {
                let oa = if a < i { a } else { a + 1 };
                let ob = if b < i { b } else { b + 1 };
                assert(t[a] == s[oa]);
                assert(t[b] == s[ob]);
            }
        }
    }

    /// Returns the value stored for `key` if its entry is live, and makes the
    /// entry the most recent. An expired entry is removed.
    pub fn get(&mut self, key: &Vec<u8>, now: u64) -> (r: Option<Vec<u8>>)
        requires
            old(self).wf(),
        ensures
            final(self).wf(),
            final(self).capacity_spec() == old(self).capacity_spec(),
            match find_key(old(self)@, key@) {
                None => r is None && final(self)@ == old(self)@,
                Some(i) => if is_live(old(self)@[i], now) {
                    r is Some && r->0@ == old(self)@[i].value && final(self)@ == touch(old(self)@, i)
                } else {
                    r is None && final(self)@ == old(self)@.remove(i)
                },
            },
    {
        match self.find(key) {
            None => None,
            Some(i) => {
                if now as u128 <= self.entries[i].inserted_at as u128 + self.entries[i].ttl as u128 {
                    Some(self.use_entry(i))
                } else {
                    self.remove_entry(i);
                    None
                }
            },
        }
    }

    /// Returns the value stored for `key` if its entry is live, and makes the
    /// entry the most recent. An expired entry is kept for a later fallback.
    pub fn get_expired(&mut self, key: &Vec<u8>, now: u64) -> (r: Option<Vec<u8>>)
        requires
            old(self).wf(),
        ensures
            final(self).wf(),
            final(self).capacity_spec() == old(self).capacity_spec(),
            match find_key(old(self)@, key@) {
                None => r is None && final(self)@ == old(self)@,
                Some(i) => if is_live(old(self)@[i], now) {
                    r is Some && r->0@ == old(self)@[i].value && final(self)@ == touch(old(self)@, i)
                } else {
                    r is None && final(self)@ == old(self)@
                },
            },
    {
        match self.find(key) {
            None => None,
            Some(i) => {
                if now as u128 <= self.entries[i].inserted_at as u128 + self.entries[i].ttl as u128 {
                    Some(self.use_entry(i))
                } else {
                    None
                }
            },
        }
    }

    /// Returns the value stored for `key`, live or expired, and makes the
    /// entry the most recent.
    pub fn get_expired_fallback(&mut self, key: &Vec<u8>) -> (r: Option<Vec<u8>>)
        requires
            old(self).wf(),
        ensures
            final(self).wf(),
            final(self).capacity_spec() == old(self).capacity_spec(),
            match find_key(old(self)@, key@) {
                None => r is None && final(self)@ == old(self)@,
                Some(i) => r is Some && r->0@ == old(self)@[i].value && final(self)@ == touch(
                    old(self)@,
                    i,
                ),
            },
    {
        match self.find(key) {
            None => None,
            Some(i) => Some(self.use_entry(i)),
        }
    }

    /// Stores `value` under `key` for `ttl` seconds from `now`. With capacity
    /// 0 nothing is stored.
    pub fn put(&mut self, key: Vec<u8>, value: Vec<u8>, ttl: u64, now: u64)
        requires
            old(self).wf(),
        ensures
            final(self).wf(),
            final(self).capacity_spec() == old(self).capacity_spec(),
            old(self).capacity_spec() == 0 ==> final(self)@ == old(self)@,
            old(self).capacity_spec() > 0 ==> final(self)@ == put_spec(
                old(self)@,
                old(self).capacity_spec(),
                EntryView { key: key@, value: value@, inserted_at: now, ttl },
            ),
    {
        if self.capacity == 0 {
            return;
        }
        let ghost e = EntryView { key: key@, value: value@, inserted_at: now, ttl };
        match self.find(&key) {
            Some(i) => {
                self.remove_entry(i);
            },
            None => {
                if self.entries.len() >= self.capacity {
                    self.remove_entry(0);
                }
            },
        }
        let ghost s = self@;
        proof {
            assert forall|j: int| 0 <= j < s.len() implies s[j].key != key@ by {
                if find_key(old(self)@, key@) is None {
                    if old(self)@.len() >= self.capacity {
                        assert(s[j] == old(self)@[j + 1]);
                    } else {
                        assert(s[j] == old(self)@[j]);
                    }
                } else {
                    let i = find_key(old(self)@, key@)->0;
                    let oj = if j < i { j } else { j + 1 };
                    assert(s[j] == old(self)@[oj]);
                    assert(old(self)@[i].key == key@);
                }
            }
        }
        self.entries.push(CacheEntry { key, value, inserted_at: now, ttl });
        assert(self@ =~= s.push(e));
    }
}

} // verus!
