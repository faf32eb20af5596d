//! The in-memory page cache; writing pages to disk is the caller's concern.
use vstd::prelude::*;
use crate::links::str_eq;

verus! {

/// How long a cached page stays fresh, in seconds: one day.
pub const MAX_CACHE_AGE_SECS: u64 = 86400;

/// Why a cache operation failed, with the underlying detail.
#[derive(Debug)]
pub enum CacheError {
    Io(String),
}

/// One cached page and when it was fetched, in seconds since the epoch.
pub struct CachedPage {
    pub content: String,
    pub fetched_at: u64,
}

impl CachedPage {
    /// Seconds since the page was fetched, never negative.
    pub fn age(&self, now_secs: u64) -> (r: u64)
        ensures
            now_secs >= self.fetched_at ==> r == now_secs - self.fetched_at,
            now_secs < self.fetched_at ==> r == 0,
    {
        if now_secs >= self.fetched_at {
            now_secs - self.fetched_at
        } else {
            0
        }
    }

    /// A page older than the limit is stale.
    pub fn is_stale(&self, now_secs: u64) -> (r: bool)
        ensures
            r <==> (now_secs > self.fetched_at && now_secs - self.fetched_at
                > MAX_CACHE_AGE_SECS),
    {
        self.age(now_secs) > MAX_CACHE_AGE_SECS
    }
}

/// Whether some entry carries this key.
pub open spec fn cache_has_key(entries: Seq<(String, CachedPage)>, key: Seq<char>) -> bool {
    exists|i: int| 0 <= i < entries.len() && (#[trigger] entries[i]).0@ == key
}

/// The index of the entry carrying this key.
pub open spec fn cache_key_index(entries: Seq<(String, CachedPage)>, key: Seq<char>) -> int {
    choose|i: int| 0 <= i < entries.len() && (#[trigger] entries[i]).0@ == key
}

/// Pages cached in memory, keyed by their URL text, plus the size the
/// caller's disk store reports.
pub struct PageCache {
    pub entries: Vec<(String, CachedPage)>,
    pub disk_size: u64,
}

impl PageCache {
    /// Each URL appears at most once.
    pub open spec fn well_formed(self) -> bool {
        forall|i: int, j: int|
            0 <= i < j < self.entries@.len() ==> self.entries@[i].0@ != self.entries@[j].0@
    }

    pub fn new() -> (r: Self)
        ensures
            r.well_formed(),
            r.entries@.len() == 0,
            r.disk_size == 0,
    {
        PageCache { entries: Vec::new(), disk_size: 0 }
    }

    /// Store a page under its URL, replacing any entry with the same URL.
    pub fn put(&mut self, url: &str, content: &str, now_secs: u64)
        requires
            old(self).well_formed(),
        ensures
            final(self).well_formed(),
            final(self).disk_size == old(self).disk_size,
            cache_has_key(final(self).entries@, url@),
            final(self).entries@[cache_key_index(final(self).entries@, url@)].0@ == url@,
            final(self).entries@[cache_key_index(final(self).entries@, url@)].1.content@
                == content@,
            final(self).entries@[cache_key_index(final(self).entries@, url@)].1.fetched_at
                == now_secs,
            cache_has_key(old(self).entries@, url@) ==> final(self).entries@.len() == old(
                self,
            ).entries@.len(),
            !cache_has_key(old(self).entries@, url@) ==> final(self).entries@.len() == old(
                self,
            ).entries@.len() + 1,
    {
        let entry = (url.to_owned(), CachedPage { content: content.to_owned(), fetched_at: now_secs });
        let n = self.entries.len();
        let mut i: usize = 0;
        while i < n
            invariant
                n == self.entries@.len(),
                i <= n,
                old(self).well_formed(),
                *self == *old(self),
                entry.0@ == url@ && entry.1.content@ == content@ && entry.1.fetched_at == now_secs,
                forall|j: int| 0 <= j < i ==> self.entries@[j].0@ != url@,
            decreases n - i,
        {
            if str_eq(self.entries[i].0.as_str(), url) {
                self.entries.set(i, entry);
                assert(cache_has_key(final(self).entries@, url@)) by {
                    assert(final(self).entries@[i as int].0@ == url@);
                }
                proof {
                    let k = cache_key_index(self.entries@, url@);
                    if k != i {
                        assert(old(self).entries@[k].0@ != old(self).entries@[i as int].0@);
                    }
                }
                assert forall|p: int, q: int|
                    0 <= p < q < self.entries@.len() implies self.entries@[p].0@
                    != self.entries@[q].0@ by {
                    assert(old(self).entries@[p].0@ != old(self).entries@[q].0@);
                }
                return ;
            }
            i = i + 1;
        }
        self.entries.push(entry);
        assert(cache_has_key(final(self).entries@, url@)) by {
            assert(final(self).entries@[n as int].0@ == url@);
        }
        proof {
            let k = cache_key_index(self.entries@, url@);
            if k != n {
                assert(old(self).entries@[k].0@ != url@);
            }
        }
        assert forall|p: int, q: int|
            0 <= p < q < self.entries@.len() implies self.entries@[p].0@ != self.entries@[q].0@ by {
            if q < n {
                assert(old(self).entries@[p].0@ != old(self).entries@[q].0@);
            } else {
                assert(old(self).entries@[p].0@ != url@);
            }
        }
    }

    /// Look up the page cached under this URL.
    pub fn get(&self, url: &str) -> (r: Option<&CachedPage>)
        requires
            self.well_formed(),
        ensures
            r is Some <==> cache_has_key(self.entries@, url@),
            r matches Some(p) ==> *p == self.entries@[cache_key_index(self.entries@, url@)].1,
    {
        let n = self.entries.len();
        let mut i: usize = 0;
        while i < n
            invariant
                n == self.entries@.len(),
                i <= n,
                self.well_formed(),
                forall|j: int| 0 <= j < i ==> self.entries@[j].0@ != url@,
            decreases n - i,
        {
            if str_eq(self.entries[i].0.as_str(), url) {
                assert(cache_has_key(self.entries@, url@)) by {
                    assert(self.entries@[i as int].0@ == url@);
                }
                proof {
                    let k = cache_key_index(self.entries@, url@);
                    if k != i {
                        assert(self.entries@[k].0@ != self.entries@[i as int].0@);
                    }
                }
                return Some(&self.entries[i].1);
            }
            i = i + 1;
        }
        None
    }

    /// Drop every cached page and forget the reported disk size.
    pub fn clear(&mut self)
        ensures
            final(self).well_formed(),
            final(self).entries@.len() == 0,
            final(self).disk_size == 0,
    {
        self.entries.clear();
        self.disk_size = 0;
    }

    /// How many pages sit in memory, and how many bytes the disk store
    /// reported.
    pub fn stats(&self) -> (r: (usize, u64))
        ensures
            r.0 == self.entries@.len(),
            r.1 == self.disk_size,
    {
        (self.entries.len(), self.disk_size)
    }
}

} // verus!
