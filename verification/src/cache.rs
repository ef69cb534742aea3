//! The translation cache: at most 200 translations, one per cache key; when it is full it
//! is emptied before the next insertion (no eviction order is kept).
//!
//! The entries are kept in a `Vec` and found by comparing key views: a key is a struct of
//! strings, and the specifications of the hashed maps give a provable model only for keys
//! whose hashing and equality they know, such as integers.

use vstd::prelude::*;
use crate::capture::str_eq;
use crate::engines::{opt_string_view, strings_view, CacheKey, Translation};

verus! {

/// Number of translations kept before the cache is emptied.
pub const CACHE_CAPACITY: usize = 200;

/// What a cache key compares by.
pub open spec fn key_view(k: CacheKey) -> (Seq<char>, Seq<char>, Option<Seq<char>>, Seq<Seq<char>>) {
    (k.text@, k.target@, opt_string_view(k.hint), strings_view(k.order@))
}

pub open spec fn distinct_keys(es: Seq<(CacheKey, Translation)>) -> bool {
    forall|i: int, j: int|
        0 <= i < es.len() && 0 <= j < es.len() && i != j ==> key_view(#[trigger] es[i].0)
            != key_view(#[trigger] es[j].0)
}

/// The translation stored under a key, if any.
pub open spec fn lookup(
    es: Seq<(CacheKey, Translation)>,
    k: (Seq<char>, Seq<char>, Option<Seq<char>>, Seq<Seq<char>>),
) -> Option<Translation> {
    if exists|i: int| 0 <= i < es.len() && key_view(es[i].0) == k {
        Some(es[choose|i: int| 0 <= i < es.len() && key_view(es[i].0) == k].1)
    } else {
        None
    }
}

/// The entries after storing `t` under `k`: a full cache is emptied first; an existing
/// entry of the key is replaced, otherwise the entry is added.
pub open spec fn cache_base(es: Seq<(CacheKey, Translation)>) -> Seq<(CacheKey, Translation)> {
    if es.len() >= CACHE_CAPACITY {
        Seq::empty()
    } else {
        es
    }
}

pub open spec fn inserted(es: Seq<(CacheKey, Translation)>, k: CacheKey, t: Translation) -> Seq<
    (CacheKey, Translation),
> {
    let base = cache_base(es);
    if exists|i: int| 0 <= i < base.len() && key_view(base[i].0) == key_view(k) {
        base.update(
            choose|i: int| 0 <= i < base.len() && key_view(base[i].0) == key_view(k),
            (k, t),
        )
    } else {
        base.push((k, t))
    }
}

pub struct TranslationCache {
    pub entries: Vec<(CacheKey, Translation)>,
}

fn same_order(a: &Vec<String>, b: &Vec<String>) -> (r: bool)
    ensures
        r == (strings_view(a@) == strings_view(b@)),
{
    if a.len() != b.len() {
        assert(strings_view(a@).len() != strings_view(b@).len());
        return false;
    }
    let mut i: usize = 0;
    while i < a.len()
        invariant
            i <= a@.len(),
            a@.len() == b@.len(),
            forall|j: int| 0 <= j < i ==> a@[j]@ == b@[j]@,
        decreases a.len() - i,
    {
        if !str_eq(a[i].as_str(), b[i].as_str()) {
            assert(strings_view(a@)[i as int] != strings_view(b@)[i as int]);
            return false;
        }
        i += 1;
    }
    assert(strings_view(a@) =~= strings_view(b@));
    true
}

/// Two keys are the same key when all their parts are equal texts.
pub fn same_key(a: &CacheKey, b: &CacheKey) -> (r: bool)
    ensures
        r == (key_view(*a) == key_view(*b)),
        r == (a.text@ == b.text@ && a.target@ == b.target@ && opt_string_view(a.hint)
            == opt_string_view(b.hint) && strings_view(a.order@) == strings_view(b.order@)),
{
    let hints = match (&a.hint, &b.hint) {
        (Some(x), Some(y)) => str_eq(x.as_str(), y.as_str()),
        (None, None) => true,
        _ => false,
    };
    str_eq(a.text.as_str(), b.text.as_str()) && str_eq(a.target.as_str(), b.target.as_str()) && hints
        && same_order(&a.order, &b.order)
}

impl TranslationCache {
    pub open spec fn wf(&self) -> bool {
        self.entries@.len() <= CACHE_CAPACITY && distinct_keys(self.entries@)
    }

    pub fn new() -> (c: Self)
        ensures
            c.wf(),
            c.entries@.len() == 0,
    {
        TranslationCache { entries: Vec::new() }
    }

    fn position(&self, key: &CacheKey) -> (r: Option<usize>)
        ensures
            r matches Some(i) ==> i < self.entries@.len() && key_view(self.entries@[i as int].0)
                == key_view(*key),
            r is None ==> forall|i: int|
                0 <= i < self.entries@.len() ==> key_view(#[trigger] self.entries@[i].0) != key_view(
                    *key,
                ),
    {
        let mut i: usize = 0;
        while i < self.entries.len()
            invariant
                i <= self.entries@.len(),
                forall|j: int|
                    0 <= j < i ==> key_view(#[trigger] self.entries@[j].0) != key_view(*key),
            decreases self.entries.len() - i,
        {
            if same_key(&self.entries[i].0, key) {
                return Some(i);
            }
            i += 1;
        }
        None
    }

    /// The cached translation of the key.
    pub fn get(&self, key: &CacheKey) -> (r: Option<&Translation>)
        requires
            self.wf(),
        ensures
            match lookup(self.entries@, key_view(*key)) {
                Some(t) => r matches Some(x) && *x == t,
                None => r is None,
            },
    {
        match self.position(key) {
            Some(i) => {
                proof {
                    let c = choose|j: int|
                        0 <= j < self.entries@.len() && key_view(self.entries@[j].0) == key_view(
                            *key,
                        );
                    assert(c == i);
                }
                Some(&self.entries[i].1)
            },
            None => None,
        }
    }

    /// Stores the translation under the key.
    pub fn insert(&mut self, key: CacheKey, t: Translation)
        requires
            old(self).wf(),
        ensures
            final(self).wf(),
            final(self).entries@ == inserted(old(self).entries@, key, t),
    {
        if self.entries.len() >= CACHE_CAPACITY {
            self.entries.clear();
        }
        let ghost base = self.entries@;
        assert(base == cache_base(old(self).entries@));
        match self.position(&key) {
            Some(i) => {
                proof {
                    let c = choose|j: int|
                        0 <= j < base.len() && key_view(base[j].0) == key_view(key);
                    assert(c == i);
                }
                self.entries.set(i, (key, t));
            },
            None => {
                self.entries.push((key, t));
            },
        }
    }
}

/// A read gives back what the last write stored under the same key, and a write leaves
/// the other keys as they were unless the cache was full and emptied.
pub proof fn law_read_after_write(es: Seq<(CacheKey, Translation)>, k: CacheKey, t: Translation, other: CacheKey)
    requires
        distinct_keys(es),
        key_view(other) != key_view(k),
    ensures
        lookup(inserted(es, k, t), key_view(k)) == Some(t),
        lookup(inserted(es, k, t), key_view(other)) == (if es.len() >= CACHE_CAPACITY {
            None
        } else {
            lookup(es, key_view(other))
        }),
        distinct_keys(inserted(es, k, t)),
{
    let base = cache_base(es);
    let n = inserted(es, k, t);
    if exists|i: int| 0 <= i < base.len() && key_view(base[i].0) == key_view(k) {
        let c = choose|i: int| 0 <= i < base.len() && key_view(base[i].0) == key_view(k);
        assert(n[c].0 == k);
        assert forall|i: int, j: int|
            0 <= i < n.len() && 0 <= j < n.len() && i != j implies key_view(#[trigger] n[i].0)
            != key_view(#[trigger] n[j].0) by {
            if i != c && j != c {
                assert(n[i] == base[i] && n[j] == base[j]);
            }
        }
        let w = choose|i: int| 0 <= i < n.len() && key_view(n[i].0) == key_view(k);
        assert(w == c);
        if exists|i: int| 0 <= i < base.len() && key_view(base[i].0) == key_view(other) {
            let o = choose|i: int| 0 <= i < base.len() && key_view(base[i].0) == key_view(other);
            assert(key_view(n[o].0) == key_view(other));
            let o2 = choose|i: int| 0 <= i < n.len() && key_view(n[i].0) == key_view(other);
            assert(o2 == o);
        } else {
            assert forall|i: int| 0 <= i < n.len() implies key_view(#[trigger] n[i].0) != key_view(
                other,
            ) by {
                if i != c {
                    assert(n[i] == base[i]);
                }
            }
        }
    } else {
        assert(n[base.len() as int].0 == k);
        assert forall|i: int, j: int|
            0 <= i < n.len() && 0 <= j < n.len() && i != j implies key_view(#[trigger] n[i].0)
            != key_view(#[trigger] n[j].0) by {
            if i < base.len() && j < base.len() {
                assert(n[i] == base[i] && n[j] == base[j]);
            }
        }
        let w = choose|i: int| 0 <= i < n.len() && key_view(n[i].0) == key_view(k);
        assert(w == base.len());
        if exists|i: int| 0 <= i < base.len() && key_view(base[i].0) == key_view(other) {
            let o = choose|i: int| 0 <= i < base.len() && key_view(base[i].0) == key_view(other);
            assert(key_view(n[o].0) == key_view(other));
            let o2 = choose|i: int| 0 <= i < n.len() && key_view(n[i].0) == key_view(other);
            assert(o2 == o);
        } else {
            assert forall|i: int| 0 <= i < n.len() implies key_view(#[trigger] n[i].0) != key_view(
                other,
            ) by {
                if i < base.len() {
                    assert(n[i] == base[i]);
                }
            }
        }
    }
}

/// Cache keys are told apart by all four of their parts: two keys are one key exactly when
/// their texts, targets, source hints and engine orders are equal. So a request for another
/// engine order (a manual engine choice) never reads what the automatic chain stored.
pub proof fn law_keys_compare_all_parts(a: CacheKey, b: CacheKey)
    ensures
        key_view(a) == key_view(b) <==> (a.text@ == b.text@ && a.target@ == b.target@
            && opt_string_view(a.hint) == opt_string_view(b.hint) && strings_view(a.order@)
            == strings_view(b.order@)),
{
}

/// A read finds only what was stored under a key with the same text, target, hint and
/// engine order as the one asked for.
pub proof fn law_read_matches_every_part(es: Seq<(CacheKey, Translation)>, k: CacheKey)
    ensures
        lookup(es, key_view(k)) matches Some(t) ==> exists|i: int|
            0 <= i < es.len() && es[i].1 == t && (#[trigger] es[i].0).text@ == k.text@
                && es[i].0.target@ == k.target@ && opt_string_view(es[i].0.hint)
                == opt_string_view(k.hint) && strings_view(es[i].0.order@) == strings_view(
                k.order@,
            ),
{
    if lookup(es, key_view(k)) is Some {
        let i = choose|i: int| 0 <= i < es.len() && key_view(es[i].0) == key_view(k);
        law_keys_compare_all_parts(es[i].0, k);
    }
}

} // verus!
