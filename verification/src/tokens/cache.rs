//! The key-value store of unconsumed nonces, with per-record deadlines.
//!
//! A record under the key `{purpose tag}:{nonce}` is the single source of
//! truth for "this token has not been consumed yet". A record only counts
//! while the present time lies before its deadline, and the one reading
//! operation, [`TokenCache::check_and_delete`], removes the record in the
//! same step that observes it: two verifiers of one token can never both
//! see the record.

use vstd::prelude::*;

verus! {

/// One record of the store: a key and the moment the record stops counting.
pub struct CacheEntry {
    /// The record's key: a purpose tag, a separator, and a nonce.
    pub key: Vec<u8>,
    /// Seconds since the epoch after which the record no longer counts.
    pub expires_at: u64,
}

/// Whether a sequence of records carries pairwise distinct keys.
spec fn seq_wf(s: Seq<CacheEntry>) -> bool {
    forall|i: int, j: int| 0 <= i < j < s.len() ==> s[i].key@ != s[j].key@
}

/// The deadline recorded for a key in a sequence of records, if any.
spec fn seq_deadline(s: Seq<CacheEntry>, k: Seq<u8>) -> Option<u64> {
    if exists|i: int| 0 <= i < s.len() && s[i].key@ == k {
        let i = choose|i: int| 0 <= i < s.len() && s[i].key@ == k;
        Some(s[i].expires_at)
    } else {
        None
    }
}

proof fn lemma_seq_deadline_at(s: Seq<CacheEntry>, i: int)
    requires
        seq_wf(s),
        0 <= i < s.len(),
    ensures
        seq_deadline(s, s[i].key@) == Some(s[i].expires_at),
{
    let k = s[i].key@;
    assert(exists|j: int| 0 <= j < s.len() && s[j].key@ == k);
    let j = choose|j: int| 0 <= j < s.len() && s[j].key@ == k;
    if i != j {
        assert(s[i].key@ != s[j].key@);
    }
}

proof fn lemma_seq_deadline_absent(s: Seq<CacheEntry>, k: Seq<u8>)
    requires
        forall|i: int| 0 <= i < s.len() ==> #[trigger] s[i].key@ != k,
    ensures
        seq_deadline(s, k) == None::<u64>,
{
}

/// Removing the record at one index does not touch the deadline of any
/// other key, and keeps the keys distinct.
proof fn lemma_seq_deadline_remove(s: Seq<CacheEntry>, i: int, k2: Seq<u8>)
    requires
        seq_wf(s),
        0 <= i < s.len(),
        k2 != s[i].key@,
    ensures
        seq_wf(s.remove(i)),
        seq_deadline(s.remove(i), k2) == seq_deadline(s, k2),
{
    let post = s.remove(i);
    assert(post.len() == s.len() - 1);
    assert(forall|a: int|
        0 <= a < post.len() ==> #[trigger] post[a] == if a < i {
            s[a]
        } else {
            s[a + 1]
        });
    assert(seq_wf(post));
    if exists|j: int| 0 <= j < s.len() && s[j].key@ == k2 {
        let j = choose|j: int| 0 <= j < s.len() && s[j].key@ == k2;
        lemma_seq_deadline_at(s, j);
        let j2: int = if j < i {
            j
        } else {
            j - 1
        };
        assert(post[j2].key@ == k2);
        assert(exists|a: int| 0 <= a < post.len() && post[a].key@ == k2);
        let a = choose|a: int| 0 <= a < post.len() && post[a].key@ == k2;
        if a != j2 {
            assert(post[a].key@ != post[j2].key@);
        }
        assert(seq_deadline(post, k2) == Some(s[j].expires_at));
    } else {
        assert(forall|a: int| 0 <= a < post.len() ==> #[trigger] post[a].key@ != k2);
        lemma_seq_deadline_absent(post, k2);
        lemma_seq_deadline_absent(s, k2);
    }
}

/// Appending a record with a fresh key does not touch the deadline of any
/// other key, records the new one, and keeps the keys distinct.
proof fn lemma_seq_deadline_push(s: Seq<CacheEntry>, e: CacheEntry, k2: Seq<u8>)
    requires
        seq_wf(s),
        forall|i: int| 0 <= i < s.len() ==> #[trigger] s[i].key@ != e.key@,
    ensures
        seq_wf(s.push(e)),
        seq_deadline(s.push(e), e.key@) == Some(e.expires_at),
        k2 != e.key@ ==> seq_deadline(s.push(e), k2) == seq_deadline(s, k2),
{
    let post = s.push(e);
    assert(post[s.len() as int] == e);
    assert(forall|a: int| 0 <= a < s.len() ==> #[trigger] post[a] == s[a]);
    assert(seq_wf(post));
    lemma_seq_deadline_at(post, s.len() as int);
    if k2 != e.key@ {
        if exists|j: int| 0 <= j < s.len() && s[j].key@ == k2 {
            let j = choose|j: int| 0 <= j < s.len() && s[j].key@ == k2;
            lemma_seq_deadline_at(s, j);
            lemma_seq_deadline_at(post, j);
        } else {
            assert(forall|a: int| 0 <= a < post.len() ==> #[trigger] post[a].key@ != k2);
            lemma_seq_deadline_absent(post, k2);
            lemma_seq_deadline_absent(s, k2);
        }
    }
}

/// Whether two byte strings hold the same bytes.
pub fn bytes_eq(a: &Vec<u8>, b: &Vec<u8>) -> (r: bool)
    ensures
        r == (a@ == b@),
{
    if a.len() != b.len() {
        return false;
    }
    let mut i: usize = 0;
    while i < a.len()
        invariant
            i <= a@.len(),
            a@.len() == b@.len(),
            forall|j: int| 0 <= j < i ==> a@[j] == b@[j],
        decreases a@.len() - i,
    {
        if a[i] != b[i] {
            return false;
        }
        i = i + 1;
    }
    proof {
        assert(a@ =~= b@);
    }
    true
}

/// The store of unconsumed nonces. Keys are distinct; each key carries the
/// deadline fixed when its token was issued.
pub struct TokenCache {
    entries: Vec<CacheEntry>,
}

impl TokenCache {
    /// The store's records carry pairwise distinct keys.
    pub closed spec fn wf(self) -> bool {
        seq_wf(self.entries@)
    }

    /// The deadline recorded for a key, if a record exists.
    pub closed spec fn deadline(self, k: Seq<u8>) -> Option<u64> {
        seq_deadline(self.entries@, k)
    }

    /// Whether a record for the key exists and still counts at the given
    /// time: this is the store's notion of "not yet consumed".
    pub open spec fn live(self, k: Seq<u8>, now: u64) -> bool {
        match self.deadline(k) {
            Some(d) => now < d,
            None => false,
        }
    }

    /// An empty store: no key has a record.
    pub fn new() -> (r: TokenCache)
        ensures
            r.wf(),
            forall|k: Seq<u8>| r.deadline(k) == None::<u64>,
    {
        let r = TokenCache { entries: Vec::new() };
        proof {
            assert forall|k: Seq<u8>| r.deadline(k) == None::<u64> by {
                lemma_seq_deadline_absent(r.entries@, k);
            }
        }
        r
    }

    /// Remove the record under a key, handing back its deadline if one
    /// existed. Every other key's record is untouched.
    fn remove_key(&mut self, key: &Vec<u8>) -> (had: Option<u64>)
        requires
            old(self).wf(),
        ensures
            final(self).wf(),
            had == old(self).deadline(key@),
            final(self).deadline(key@) == None::<u64>,
            forall|k2: Seq<u8>| k2 != key@ ==> final(self).deadline(k2) == old(self).deadline(k2),
    {
        let mut i: usize = 0;
        while i < self.entries.len()
            invariant
                self == old(self),
                old(self).wf(),
                i <= self.entries@.len(),
                forall|j: int| 0 <= j < i ==> #[trigger] self.entries@[j].key@ != key@,
            decreases self.entries@.len() - i,
        {
            if bytes_eq(&self.entries[i].key, key) {
                let ghost pre = self.entries@;
                let e = self.entries.remove(i);
                proof {
                    lemma_seq_deadline_at(pre, i as int);
                    assert forall|j: int| 0 <= j < pre.remove(i as int).len()
                        implies #[trigger] pre.remove(i as int)[j].key@ != key@ by {
                        let pj: int = if j < i {
                            j
                        } else {
                            j + 1
                        };
                        assert(pre.remove(i as int)[j] == pre[pj]);
                        if pj != i {
                            assert(pre[pj].key@ != pre[i as int].key@);
                        }
                    }
                    lemma_seq_deadline_absent(pre.remove(i as int), key@);
                    assert forall|k2: Seq<u8>| k2 != key@ implies seq_deadline(
                        pre.remove(i as int),
                        k2,
                    ) == seq_deadline(pre, k2) by {
                        lemma_seq_deadline_remove(pre, i as int, k2);
                    }
                    assert forall|a: int, b: int| 0 <= a < b < pre.remove(i as int).len()
                        implies pre.remove(i as int)[a].key@ != pre.remove(i as int)[b].key@ by {
                        let pa: int = if a < i {
                            a
                        } else {
                            a + 1
                        };
                        let pb: int = if b < i {
                            b
                        } else {
                            b + 1
                        };
                        assert(pre.remove(i as int)[a] == pre[pa]);
                        assert(pre.remove(i as int)[b] == pre[pb]);
                        assert(pre[pa].key@ != pre[pb].key@);
                    }
                    assert(seq_wf(pre.remove(i as int)));
                }
                return Some(e.expires_at);
            }
            i = i + 1;
        }
        proof {
            lemma_seq_deadline_absent(self.entries@, key@);
        }
        None
    }

    /// Record a key with a deadline, replacing any record the key had.
    /// Every other key's record is untouched.
    pub fn set(&mut self, key: Vec<u8>, expires_at: u64)
        requires
            old(self).wf(),
        ensures
            final(self).wf(),
            final(self).deadline(key@) == Some(expires_at),
            forall|k2: Seq<u8>| k2 != key@ ==> final(self).deadline(k2) == old(self).deadline(k2),
    {
        let _ = self.remove_key(&key);
        let ghost mid = self.entries@;
        let ghost e_key = key@;
        self.entries.push(CacheEntry { key, expires_at });
        proof {
            assert(self.entries@ =~= mid.push(self.entries@[mid.len() as int]));
            assert forall|k2: Seq<u8>| true implies seq_wf(self.entries@) && seq_deadline(
                self.entries@,
                e_key,
            ) == Some(expires_at) && (k2 != e_key ==> seq_deadline(self.entries@, k2)
                == seq_deadline(mid, k2)) by {
                lemma_seq_deadline_push(mid, self.entries@[mid.len() as int], k2);
            }
        }
    }

    /// Atomically observe and consume the record under a key: report
    /// whether a record existed whose deadline lies after the given time,
    /// and in the same step remove whatever record the key had. Every other
    /// key's record is untouched.
    pub fn check_and_delete(&mut self, key: &Vec<u8>, now: u64) -> (r: bool)
        requires
            old(self).wf(),
        ensures
            final(self).wf(),
            r == old(self).live(key@, now),
            final(self).deadline(key@) == None::<u64>,
            forall|k2: Seq<u8>| k2 != key@ ==> final(self).deadline(k2) == old(self).deadline(k2),
    {
        match self.remove_key(key) {
            Some(d) => now < d,
            None => false,
        }
    }
}

} // verus!
