//! An in-memory TTL cache of printer capabilities, keyed by printer name.
//! Times are nanoseconds on the caller's monotonic clock.
use vstd::prelude::*;

use crate::printer::{CapabilitiesView, PrinterCapabilities};
use crate::text::text_eq;

verus! {

struct Entry {
    printer: String,
    caps: PrinterCapabilities,
    cached_at: u128,
}

/// What the cache holds for a printer: its capabilities and when they were stored.
pub type Cached = (CapabilitiesView, u128);

/// In-memory TTL cache for printer capabilities.
///
/// Avoids querying CUPS on every `smart` print job.
pub struct CapabilitiesCache {
    store: Vec<Entry>,
    ttl: u128,
}

spec fn entry_key(e: Entry) -> Seq<char> {
    e.printer@
}

spec fn entry_value(e: Entry) -> Cached {
    (e.caps@, e.cached_at)
}

/// The entries as a map from printer name.
spec fn store_map(s: Seq<Entry>) -> Map<Seq<char>, Cached> {
    Map::new(
        |k: Seq<char>| exists|i: int| 0 <= i < s.len() && entry_key(s[i]) == k,
        |k: Seq<char>|
            entry_value(s[choose|i: int| 0 <= i < s.len() && entry_key(s[i]) == k]),
    )
}

/// No printer has two entries.
spec fn unique_keys(s: Seq<Entry>) -> bool {
    forall|i: int, j: int|
        0 <= i < s.len() && 0 <= j < s.len() && i != j ==> entry_key(s[i]) != entry_key(s[j])
}

proof fn lemma_value_at(s: Seq<Entry>, i: int)
    requires
        unique_keys(s),
        0 <= i < s.len(),
    ensures
        store_map(s).contains_key(entry_key(s[i])),
        store_map(s)[entry_key(s[i])] == entry_value(s[i]),
{
    let k = entry_key(s[i]);
    assert(exists|j: int| 0 <= j < s.len() && entry_key(s[j]) == k);
    let j = choose|j: int| 0 <= j < s.len() && entry_key(s[j]) == k;
    assert(j == i);
}

/// How long ago something stored at `then` was stored, seen at `now`;
/// zero when `now` is earlier.
pub open spec fn age(now: u128, then: u128) -> u128 {
    if now >= then {
        (now - then) as u128
    } else {
        0
    }
}

/// What a lookup answers: the stored capabilities while younger than `ttl`.
pub open spec fn cache_answer(m: Map<Seq<char>, Cached>, ttl: u128, printer: Seq<char>, now: u128) -> Option<CapabilitiesView> {
    if m.contains_key(printer) && age(now, m[printer].1) < ttl {
        Some(m[printer].0)
    } else {
        None
    }
}

impl View for CapabilitiesCache {
    type V = Map<Seq<char>, Cached>;

    closed spec fn view(&self) -> Map<Seq<char>, Cached> {
        store_map(self.store@)
    }
}

impl CapabilitiesCache {
    /// The time to live, in nanoseconds.
    pub closed spec fn ttl_nanos(&self) -> u128 {
        self.ttl
    }

    /// The cache is well formed: one entry per printer.
    pub closed spec fn wf(&self) -> bool {
        unique_keys(self.store@)
    }

    pub fn new(ttl: u128) -> (r: Self)
        ensures
            r.wf(),
            r@ == Map::<Seq<char>, Cached>::empty(),
            r.ttl_nanos() == ttl,
    {
        let r = CapabilitiesCache { store: Vec::new(), ttl };
        assert(r@ =~= Map::<Seq<char>, Cached>::empty());
        r
    }

    fn position(&self, printer: &str) -> (r: Option<usize>)
        ensures
            match r {
                Some(i) => i < self.store@.len() && entry_key(self.store@[i as int]) == printer@,
                None => forall|i: int| 0 <= i < self.store@.len() ==> entry_key(self.store@[i]) != printer@,
            },
    {
        let mut i: usize = 0;
        while i < self.store.len()
            invariant
                i <= self.store@.len(),
                forall|j: int| 0 <= j < i ==> entry_key(self.store@[j]) != printer@,
            decreases self.store@.len() - i,
        {
            if text_eq(self.store[i].printer.as_str(), printer) {
                return Some(i);
            }
            i = i + 1;
        }
        None
    }

    /// Returns cached capabilities if they are still within the TTL.
    pub fn get(&self, printer: &str, now: u128) -> (r: Option<PrinterCapabilities>)
        requires
            self.wf(),
        ensures
            match r {
                Some(c) => cache_answer(self@, self.ttl_nanos(), printer@, now) == Some(c@),
                None => cache_answer(self@, self.ttl_nanos(), printer@, now) is None,
            },
    {
        match self.position(printer) {
            Some(i) => {
                proof {
                    lemma_value_at(self.store@, i as int);
                }
                let e = &self.store[i];
                let elapsed: u128 = if now >= e.cached_at {
                    now - e.cached_at
                } else {
                    0
                };
                if elapsed < self.ttl {
                    Some(e.caps.duplicate())
                } else {
                    None
                }
            },
            None => {
                assert(!self@.contains_key(printer@));
                None
            },
        }
    }

    /// Stores capabilities for a printer, replacing any previous entry.
    pub fn set(&mut self, printer: &str, caps: PrinterCapabilities, now: u128)
        requires
            old(self).wf(),
        ensures
            final(self).wf(),
            final(self)@ == old(self)@.insert(printer@, (caps@, now)),
            final(self).ttl_nanos() == old(self).ttl_nanos(),
    {
        let ghost before = self.store@;
        let entry = Entry { printer: crate::text::owned(printer), caps, cached_at: now };
        assert(entry_key(entry) == printer@ && entry_value(entry) == (caps@, now));
        match self.position(printer) {
            Some(i) => {
                proof {
                    lemma_store_update(before, i as int, entry);
                }
                self.store.set(i, entry);
            },
            None => {
                proof {
                    lemma_store_push(before, entry);
                }
                self.store.push(entry);
            },
        }
    }

    /// Removes a single printer from the cache (force refresh on next request).
    pub fn invalidate(&mut self, printer: &str)
        requires
            old(self).wf(),
        ensures
            final(self).wf(),
            final(self)@ == old(self)@.remove(printer@),
            final(self).ttl_nanos() == old(self).ttl_nanos(),
    {
        let ghost before = self.store@;
        match self.position(printer) {
            Some(i) => {
                proof {
                    lemma_store_remove(before, i as int);
                }
                let _removed = self.store.remove(i);
            },
            None => {
                assert(store_map(before) =~= store_map(before).remove(printer@));
            },
        }
    }
}

proof fn lemma_store_update(s: Seq<Entry>, i: int, e: Entry)
    requires
        unique_keys(s),
        0 <= i < s.len(),
        entry_key(s[i]) == entry_key(e),
    ensures
        unique_keys(s.update(i, e)),
        store_map(s.update(i, e)) == store_map(s).insert(entry_key(e), entry_value(e)),
{
    let t = s.update(i, e);
    let p = entry_key(e);
    assert(unique_keys(t)) by {
        assert forall|a: int, b: int|
            0 <= a < t.len() && 0 <= b < t.len() && a != b implies entry_key(t[a]) != entry_key(t[b]) by {
            assert(entry_key(t[a]) == entry_key(s[a]));
            assert(entry_key(t[b]) == entry_key(s[b]));
        }
    }
    let expect = store_map(s).insert(p, entry_value(e));
    assert forall|k: Seq<char>| #[trigger] store_map(t).dom().contains(k) <==> expect.dom().contains(k) by {
        if store_map(t).dom().contains(k) {
            let j = choose|j: int| 0 <= j < t.len() && entry_key(t[j]) == k;
            if j != i {
                assert(entry_key(s[j]) == k);
            }
        }
        if k != p && store_map(s).dom().contains(k) {
            let j = choose|j: int| 0 <= j < s.len() && entry_key(s[j]) == k;
            assert(j != i);
            assert(entry_key(t[j]) == k);
        }
        if k == p {
            assert(entry_key(t[i]) == k);
        }
    }
    assert forall|k: Seq<char>| #[trigger] store_map(t).dom().contains(k) implies store_map(t)[k] == expect[k] by {
        let j = choose|j: int| 0 <= j < t.len() && entry_key(t[j]) == k;
        lemma_value_at(t, j);
        if j != i {
            assert(t[j] == s[j]);
            lemma_value_at(s, j);
        }
    }
    assert(store_map(t) =~= expect);
}

proof fn lemma_store_push(s: Seq<Entry>, e: Entry)
    requires
        unique_keys(s),
        forall|j: int| 0 <= j < s.len() ==> entry_key(s[j]) != entry_key(e),
    ensures
        unique_keys(s.push(e)),
        store_map(s.push(e)) == store_map(s).insert(entry_key(e), entry_value(e)),
{
    let t = s.push(e);
    let p = entry_key(e);
    let n = s.len() as int;
    assert(unique_keys(t)) by {
        assert forall|a: int, b: int|
            0 <= a < t.len() && 0 <= b < t.len() && a != b implies entry_key(t[a]) != entry_key(t[b]) by {
            if a < n && b < n {
                assert(t[a] == s[a] && t[b] == s[b]);
            } else if a == n {
                assert(t[b] == s[b]);
            } else {
                assert(t[a] == s[a]);
            }
        }
    }
    let expect = store_map(s).insert(p, entry_value(e));
    assert forall|k: Seq<char>| #[trigger] store_map(t).dom().contains(k) <==> expect.dom().contains(k) by {
        if store_map(t).dom().contains(k) {
            let j = choose|j: int| 0 <= j < t.len() && entry_key(t[j]) == k;
            if j != n {
                assert(t[j] == s[j]);
            }
        }
        if k != p && store_map(s).dom().contains(k) {
            let j = choose|j: int| 0 <= j < s.len() && entry_key(s[j]) == k;
            assert(t[j] == s[j]);
        }
        if k == p {
            assert(entry_key(t[n]) == k);
        }
    }
    assert forall|k: Seq<char>| #[trigger] store_map(t).dom().contains(k) implies store_map(t)[k] == expect[k] by {
        let j = choose|j: int| 0 <= j < t.len() && entry_key(t[j]) == k;
        lemma_value_at(t, j);
        if j != n {
            assert(t[j] == s[j]);
            lemma_value_at(s, j);
        }
    }
    assert(store_map(t) =~= expect);
}

proof fn lemma_store_remove(s: Seq<Entry>, i: int)
    requires
        unique_keys(s),
        0 <= i < s.len(),
    ensures
        unique_keys(s.remove(i)),
        store_map(s.remove(i)) == store_map(s).remove(entry_key(s[i])),
{
    let t = s.remove(i);
    let p = entry_key(s[i]);
    assert forall|j: int| 0 <= j < t.len() implies t[j] == s[if j < i { j } else { j + 1 }] by {}
    assert(unique_keys(t)) by {
        assert forall|a: int, b: int|
            0 <= a < t.len() && 0 <= b < t.len() && a != b implies entry_key(t[a]) != entry_key(t[b]) by {
            let a0 = if a < i { a } else { a + 1 };
            let b0 = if b < i { b } else { b + 1 };
            assert(t[a] == s[a0] && t[b] == s[b0]);
        }
    }
    let expect = store_map(s).remove(p);
    assert forall|k: Seq<char>| #[trigger] store_map(t).dom().contains(k) <==> expect.dom().contains(k) by {
        if store_map(t).dom().contains(k) {
            let j = choose|j: int| 0 <= j < t.len() && entry_key(t[j]) == k;
            let j0 = if j < i { j } else { j + 1 };
            assert(t[j] == s[j0]);
            assert(j0 != i);
            assert(entry_key(s[j0]) == k);
        }
        if k != p && store_map(s).dom().contains(k) {
            let j = choose|j: int| 0 <= j < s.len() && entry_key(s[j]) == k;
            assert(j != i);
            let j1 = if j < i { j } else { j - 1 };
            assert(t[j1] == s[j]);
        }
    }
    assert forall|k: Seq<char>| #[trigger] store_map(t).dom().contains(k) implies store_map(t)[k] == expect[k] by {
        let j = choose|j: int| 0 <= j < t.len() && entry_key(t[j]) == k;
        let j0 = if j < i { j } else { j + 1 };
        assert(t[j] == s[j0]);
        lemma_value_at(t, j);
        lemma_value_at(s, j0);
    }
    assert(store_map(t) =~= expect);
}

/// A read after a write within the time to live gives back what was written;
/// once the time to live has passed, nothing.
pub proof fn lemma_get_after_set(
    m: Map<Seq<char>, Cached>,
    ttl: u128,
    printer: Seq<char>,
    caps: CapabilitiesView,
    stored_at: u128,
    now: u128,
)
    ensures
        cache_answer(m.insert(printer, (caps, stored_at)), ttl, printer, now) == (if age(now, stored_at)
            < ttl {
            Some(caps)
        } else {
            None
        }),
{
}

/// Storing or removing one printer's entry leaves every other printer's answer as it was.
pub proof fn lemma_other_printers_unaffected(
    m: Map<Seq<char>, Cached>,
    ttl: u128,
    printer: Seq<char>,
    other: Seq<char>,
    value: Cached,
    now: u128,
)
    requires
        printer != other,
    ensures
        cache_answer(m.insert(printer, value), ttl, other, now) == cache_answer(m, ttl, other, now),
        cache_answer(m.remove(printer), ttl, other, now) == cache_answer(m, ttl, other, now),
{
}

/// After an invalidation the cache has nothing for that printer.
pub proof fn lemma_get_after_invalidate(
    m: Map<Seq<char>, Cached>,
    ttl: u128,
    printer: Seq<char>,
    now: u128,
)
    ensures
        cache_answer(m.remove(printer), ttl, printer, now) is None,
{
}

} // verus!
