//! The keyspace: string keys, frames as values, and expiry that is enforced
//! when a key is read.

use crate::redis_type::{Frame, RedisType};
use crate::text::str_eq;
use vstd::prelude::*;

verus! {

/// The mathematical model of what the keyspace holds for one key.
pub struct Entry {
    /// The value.
    pub value: Frame,
    /// The instant after which the value is gone, in milliseconds; `None`
    /// where it never goes.
    pub expires_at: Option<u64>,
}

/// What the keyspace holds for one key.
pub struct StoredValue {
    key: String,
    value: RedisType,
    expiry: Option<u64>,
}

impl StoredValue {
    /// The model of the value and its expiry.
    pub closed spec fn entry(&self) -> Entry {
        Entry { value: self.value@, expires_at: self.expiry }
    }

    /// The key, as text.
    pub closed spec fn key_text(&self) -> Seq<char> {
        self.key@
    }
}

/// The instant at which a value that is stored at `now` with the time to live
/// `ttl` expires. An instant beyond the last one that can be counted stands
/// for never: no clock reaches it.
pub open spec fn deadline(now: u64, ttl: Option<u64>) -> Option<u64> {
    match ttl {
        Some(t) => Some(
            if now + t > u64::MAX {
                u64::MAX
            } else {
                (now + t) as u64
            },
        ),
        None => None,
    }
}

/// Whether an entry is gone at `now`: its expiry lies strictly before `now`.
pub open spec fn expired(entry: Entry, now: u64) -> bool {
    match entry.expires_at {
        Some(at) => now > at,
        None => false,
    }
}

/// The keyspace after `key` was set to `value` at `now`.
pub open spec fn spec_put(
    m: Map<Seq<char>, Entry>,
    key: Seq<char>,
    value: Frame,
    ttl: Option<u64>,
    now: u64,
) -> Map<Seq<char>, Entry> {
    m.insert(key, Entry { value, expires_at: deadline(now, ttl) })
}

/// What reading `key` at `now` returns: the value, unless the key is absent
/// or its entry is gone.
pub open spec fn spec_get_value(m: Map<Seq<char>, Entry>, key: Seq<char>, now: u64) -> Option<
    Frame,
> {
    if m.contains_key(key) && !expired(m[key], now) {
        Some(m[key].value)
    } else {
        None
    }
}

/// The keyspace after `key` was read at `now`: an entry that is gone is
/// removed, and nothing else changes.
pub open spec fn spec_get_store(m: Map<Seq<char>, Entry>, key: Seq<char>, now: u64) -> Map<
    Seq<char>,
    Entry,
> {
    if m.contains_key(key) && expired(m[key], now) {
        m.remove(key)
    } else {
        m
    }
}

/// What a look at a key finds.
#[derive(Debug, PartialEq, Eq)]
pub enum Lookup {
    /// The key holds this value, and it has not expired.
    Found(RedisType),
    /// The key holds nothing.
    Missing,
    /// The key holds an entry that expired: the next read removes it.
    Expired,
}

/// The mathematical model of `Lookup`.
pub enum Seen {
    Found(Frame),
    Missing,
    Expired,
}

impl View for Lookup {
    type V = Seen;

    open spec fn view(&self) -> Seen {
        match self {
            Lookup::Found(value) => Seen::Found(value@),
            Lookup::Missing => Seen::Missing,
            Lookup::Expired => Seen::Expired,
        }
    }
}

/// What a look at `key` finds at `now`.
pub open spec fn spec_peek(m: Map<Seq<char>, Entry>, key: Seq<char>, now: u64) -> Seen {
    if !m.contains_key(key) {
        Seen::Missing
    } else if expired(m[key], now) {
        Seen::Expired
    } else {
        Seen::Found(m[key].value)
    }
}

/// A value that is stored at `start` with `ttl` milliseconds to
/// live is read back until `ttl` milliseconds have passed; later it is
/// missing, and the read removes its entry.
pub proof fn lemma_ttl(
    m: Map<Seq<char>, Entry>,
    key: Seq<char>,
    value: Frame,
    ttl: u64,
    start: u64,
    later: u64,
)
    requires
        start <= later,
    ensures
        ({
            let stored = spec_put(m, key, value, Some(ttl), start);
            &&& later - start <= ttl ==> spec_get_value(stored, key, later) == Some(value)
            &&& later - start <= ttl ==> spec_get_store(stored, key, later) == stored
            &&& later - start > ttl ==> spec_get_value(stored, key, later) is None
            &&& later - start > ttl ==> !spec_get_store(stored, key, later).contains_key(key)
        }),
{
}

/// The keyspace. No key occurs twice in it.
pub struct Store {
    entries: Vec<StoredValue>,
}

impl Store {
    /// Whether no key occurs twice.
    pub closed spec fn distinct_keys(&self) -> bool {
        forall|i: int, j: int|
            0 <= i < self.entries.len() && 0 <= j < self.entries.len() && i != j
                ==> self.entries[i].key@ != self.entries[j].key@
    }

    /// Whether `i` is the place of `key`.
    pub closed spec fn holds_at(&self, key: Seq<char>, i: int) -> bool {
        0 <= i < self.entries.len() && self.entries[i].key@ == key
    }

    /// The keys and what is held for each.
    pub closed spec fn view(&self) -> Map<Seq<char>, Entry> {
        Map::new(
            |key: Seq<char>| exists|i: int| self.holds_at(key, i),
            |key: Seq<char>| self.entries[choose|i: int| self.holds_at(key, i)].entry(),
        )
    }

    /// Where no key occurs twice, the place of a key decides what the keyspace
    /// holds for it.
    proof fn lemma_place(&self, key: Seq<char>, i: int)
        requires
            self.distinct_keys(),
            self.holds_at(key, i),
        ensures
            self@.contains_key(key),
            self@[key] == self.entries[i].entry(),
    {
        let j = choose|j: int| self.holds_at(key, j);
        assert(self.holds_at(key, j));
        assert(i == j);
    }

    /// A key without a place is not in the keyspace.
    proof fn lemma_absent(&self, key: Seq<char>)
        requires
            forall|i: int| 0 <= i < self.entries.len() ==> self.entries[i].key@ != key,
        ensures
            !self@.contains_key(key),
    {
        if self@.contains_key(key) {
            let j = choose|j: int| self.holds_at(key, j);
            assert(self.holds_at(key, j));
        }
    }

    /// The place of `key`, if it has one.
    fn position(&self, key: &str) -> (r: Option<usize>)
        ensures
            match r {
                Some(i) => self.holds_at(key@, i as int),
                None => forall|i: int| 0 <= i < self.entries.len() ==> self.entries[i].key@ != key@,
            },
    {
        let mut i: usize = 0;
        while i < self.entries.len()
            invariant
                i <= self.entries.len(),
                forall|j: int| 0 <= j < i ==> self.entries[j].key@ != key@,
            decreases self.entries.len() - i,
        {
            if str_eq(self.entries[i].key.as_str(), key) {
                return Some(i);
            }
            i = i + 1;
        }
        None
    }

    /// Whether the keyspace holds an entry for `key`, gone or not.
    pub fn contains_key(&self, key: &str) -> (r: bool)
        requires
            self.distinct_keys(),
        ensures
            r == self@.contains_key(key@),
    {
        match self.position(key) {
            Some(i) => {
                proof {
                    self.lemma_place(key@, i as int);
                }
                true
            },
            None => {
                proof {
                    self.lemma_absent(key@);
                }
                false
            },
        }
    }

    /// Looks at `key` at the instant `now`, and changes nothing: a reader
    /// that finds an expired entry leaves its removal to a writer.
    pub fn peek(&self, key: &str, now: u64) -> (r: Lookup)
        requires
            self.distinct_keys(),
        ensures
            r@ == spec_peek(self@, key@, now),
    {
        match self.position(key) {
            Some(i) => {
                proof {
                    self.lemma_place(key@, i as int);
                }
                let gone: bool = match self.entries[i].expiry {
                    Some(at) => now > at,
                    None => false,
                };
                if gone {
                    Lookup::Expired
                } else {
                    Lookup::Found(self.entries[i].value.clone())
                }
            },
            None => {
                proof {
                    self.lemma_absent(key@);
                }
                Lookup::Missing
            },
        }
    }

    /// Sets `key` to `value`, whatever it held before. With a time to live,
    /// the entry expires that many milliseconds after `now`.
    pub fn put(&mut self, key: String, value: RedisType, ttl: Option<u64>, now: u64)
        requires
            old(self).distinct_keys(),
        ensures
            final(self).distinct_keys(),
            final(self)@ == spec_put(old(self)@, key@, value@, ttl, now),
    {
        let expiry: Option<u64> = match ttl {
            Some(t) => Some(now.saturating_add(t)),
            None => None,
        };
        let ghost want = spec_put(self@, key@, value@, ttl, now);
        let ghost key_text = key@;
        let ghost before = *self;
        let place = self.position(key.as_str());
        let item = StoredValue { key, value, expiry };
        match place {
            Some(i) => {
                self.entries.set(i, item);
            },
            None => {
                self.entries.push(item);
            },
        }
        proof {
            assert(self.distinct_keys());
            assert forall|k: Seq<char>| self@.contains_key(k) == want.contains_key(k) by {
                if self@.contains_key(k) {
                    let j = choose|j: int| self.holds_at(k, j);
                    assert(self.holds_at(k, j));
                    if k != key_text {
                        assert(before.holds_at(k, j));
                        before.lemma_place(k, j);
                    }
                }
                if want.contains_key(k) {
                    if k == key_text {
                        match place {
                            Some(i) => {
                                assert(self.holds_at(k, i as int));
                            },
                            None => {
                                assert(self.holds_at(k, self.entries.len() - 1));
                            },
                        }
                    } else {
                        let j = choose|j: int| before.holds_at(k, j);
                        assert(before.holds_at(k, j));
                        assert(self.holds_at(k, j));
                    }
                }
            }
            assert forall|k: Seq<char>| self@.contains_key(k) implies self@[k] == want[k] by {
                let j = choose|j: int| self.holds_at(k, j);
                assert(self.holds_at(k, j));
                self.lemma_place(k, j);
                if k != key_text {
                    assert(before.holds_at(k, j));
                    before.lemma_place(k, j);
                }
            }
            assert(self@ =~= want);
        }
    }

    /// Reads `key` at the instant `now`.
    ///
    /// Returns a copy of the value. Returns `None` where the key is absent,
    /// and where its entry expired strictly before `now`: that entry is then
    /// removed. Nothing else changes.
    pub fn get(&mut self, key: &str, now: u64) -> (r: Option<RedisType>)
        requires
            old(self).distinct_keys(),
        ensures
            final(self).distinct_keys(),
            match r {
                Some(value) => spec_get_value(old(self)@, key@, now) == Some(value@),
                None => spec_get_value(old(self)@, key@, now) is None,
            },
            final(self)@ == spec_get_store(old(self)@, key@, now),
    {
        let ghost before = *self;
        match self.position(key) {
            Some(i) => {
                proof {
                    self.lemma_place(key@, i as int);
                }
                let gone: bool = match self.entries[i].expiry {
                    Some(at) => now > at,
                    None => false,
                };
                if gone {
                    self.entries.remove(i);
                    proof {
                        let want = before@.remove(key@);
                        assert(self.distinct_keys()) by {
                            assert forall|a: int, b: int|
                                0 <= a < self.entries.len() && 0 <= b < self.entries.len() && a
                                    != b implies self.entries[a].key@ != self.entries[b].key@ by {
                                let old_a = if a < i {
                                    a
                                } else {
                                    a + 1
                                };
                                let old_b = if b < i {
                                    b
                                } else {
                                    b + 1
                                };
                                assert(before.entries[old_a].key@ != before.entries[old_b].key@);
                            }
                        }
                        assert forall|k: Seq<char>| self@.contains_key(k) == want.contains_key(
                            k,
                        ) by {
                            if self@.contains_key(k) {
                                let j = choose|j: int| self.holds_at(k, j);
                                assert(self.holds_at(k, j));
                                let old_j = if j < i {
                                    j
                                } else {
                                    j + 1
                                };
                                assert(before.holds_at(k, old_j));
                                before.lemma_place(k, old_j);
                            }
                            if want.contains_key(k) {
                                let j = choose|j: int| before.holds_at(k, j);
                                assert(before.holds_at(k, j));
                                let new_j = if j < i {
                                    j
                                } else {
                                    j - 1
                                };
                                assert(self.holds_at(k, new_j));
                            }
                        }
                        assert forall|k: Seq<char>| self@.contains_key(k) implies self@[k]
                            == want[k] by {
                            let j = choose|j: int| self.holds_at(k, j);
                            assert(self.holds_at(k, j));
                            self.lemma_place(k, j);
                            let old_j = if j < i {
                                j
                            } else {
                                j + 1
                            };
                            assert(before.holds_at(k, old_j));
                            before.lemma_place(k, old_j);
                        }
                        assert(self@ =~= want);
                    }
                    None
                } else {
                    Some(self.entries[i].value.clone())
                }
            },
            None => {
                proof {
                    self.lemma_absent(key@);
                }
                None
            },
        }
    }

    /// An empty keyspace.
    pub fn new() -> (r: Self)
        ensures
            r.distinct_keys(),
            r@ == Map::<Seq<char>, Entry>::empty(),
    {
        let r = Store { entries: Vec::new() };
        proof {
            assert(r@ =~= Map::<Seq<char>, Entry>::empty()) by {
                assert forall|key: Seq<char>| !r@.contains_key(key) by {
                    if r@.contains_key(key) {
                        let i = choose|i: int| r.holds_at(key, i);
                        assert(r.holds_at(key, i));
                    }
                }
            }
        }
        r
    }
}

} // verus!
