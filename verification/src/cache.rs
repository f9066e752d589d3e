//! The result cache: an in-memory mapping from query fingerprint to cached
//! result with uniform time-to-live expiry, wholesale invalidation, and
//! key-substring invalidation. Entries are expired lazily: a lookup that
//! finds a stale entry removes it and reports a miss. Time is passed in
//! explicitly (milliseconds), so every policy here is a pure, provable
//! function of the cache state, the key and the clock reading.

use vstd::prelude::*;
use vstd::map::*;
use vstd::string::StringExecFns;
use crate::text::{contains_seq, str_contains};
use crate::types::{CommandResult, ResultModel};

verus! {

/// The time-to-live applied when no other is chosen, in seconds.
pub const DEFAULT_TTL_SECONDS: u64 = 60;

/// Abstract value of one stored entry: the cached result and the clock
/// reading at insertion, in milliseconds.
pub struct EntryModel {
    pub result: ResultModel,
    pub inserted_at_ms: u64,
}

/// One stored entry: the key it is filed under, the cached result, and the
/// clock reading at insertion.
struct CacheEntry {
    key: String,
    result: CommandResult,
    inserted_at_ms: u64,
}

impl CacheEntry {
    spec fn model(self) -> EntryModel {
        EntryModel { result: self.result@, inserted_at_ms: self.inserted_at_ms }
    }
}

/// The mapping an entry sequence stands for; a well-formed cache keeps its
/// keys distinct, so no entry shadows another.
spec fn entries_map(s: Seq<CacheEntry>) -> Map<Seq<char>, EntryModel>
    decreases s.len(),
{
    if s.len() == 0 {
        Map::empty()
    } else {
        entries_map(s.drop_last()).insert(s.last().key@, s.last().model())
    }
}

spec fn distinct_keys(s: Seq<CacheEntry>) -> bool {
    forall|i: int, j: int| 0 <= i < j < s.len() ==> s[i].key@ != s[j].key@
}

proof fn lemma_entries_map_membership(s: Seq<CacheEntry>, k: Seq<char>)
    ensures
        entries_map(s).contains_key(k) <==> (exists|i: int|
            0 <= i < s.len() && #[trigger] s[i].key@ == k),
    decreases s.len(),
{
    if s.len() > 0 {
        let pre = s.drop_last();
        lemma_entries_map_membership(pre, k);
        if s.last().key@ == k {
            assert(s[s.len() - 1].key@ == k);
        } else {
            if entries_map(s).contains_key(k) {
                let i = choose|i: int| 0 <= i < pre.len() && #[trigger] pre[i].key@ == k;
                assert(s[i].key@ == k);
            }
            if exists|i: int| 0 <= i < s.len() && #[trigger] s[i].key@ == k {
                let i = choose|i: int| 0 <= i < s.len() && #[trigger] s[i].key@ == k;
                assert(i < s.len() - 1);
                assert(pre[i].key@ == k);
            }
        }
    }
}

proof fn lemma_entries_map_value(s: Seq<CacheEntry>, i: int)
    requires
        distinct_keys(s),
        0 <= i < s.len(),
    ensures
        entries_map(s).contains_key(s[i].key@),
        entries_map(s)[s[i].key@] == s[i].model(),
    decreases s.len(),
{
    lemma_entries_map_membership(s, s[i].key@);
    if i < s.len() - 1 {
        let pre = s.drop_last();
        assert(distinct_keys(pre)) by {
            assert(forall|a: int, b: int|
                0 <= a < b < pre.len() ==> s[a].key@ == pre[a].key@ && s[b].key@ == pre[b].key@);
        }
        lemma_entries_map_value(pre, i);
        assert(s.last().key@ != s[i].key@);
    }
}

proof fn lemma_entries_map_remove(s: Seq<CacheEntry>, i: int)
    requires
        distinct_keys(s),
        0 <= i < s.len(),
    ensures
        entries_map(s.remove(i)) == entries_map(s).remove(s[i].key@),
    decreases s.len(),
{
    let k = s[i].key@;
    let pre = s.drop_last();
    assert(distinct_keys(pre)) by {
        assert(forall|a: int, b: int|
            0 <= a < b < pre.len() ==> s[a].key@ == pre[a].key@ && s[b].key@ == pre[b].key@);
    }
    if i == s.len() - 1 {
        assert(s.remove(i) =~= pre);
        lemma_entries_map_membership(pre, k);
        assert(forall|j: int| 0 <= j < pre.len() ==> #[trigger] pre[j].key@ != k);
        assert(entries_map(s).remove(k) =~= entries_map(pre));
    } else {
        lemma_entries_map_remove(pre, i);
        assert(s.remove(i).drop_last() =~= pre.remove(i));
        assert(s.remove(i).last() == s.last());
        assert(entries_map(s.remove(i)) == entries_map(pre.remove(i)).insert(
            s.last().key@,
            s.last().model(),
        ));
        assert(s.last().key@ != k);
        assert(entries_map(pre).remove(k).insert(s.last().key@, s.last().model())
            =~= entries_map(pre).insert(s.last().key@, s.last().model()).remove(k));
    }
}

proof fn lemma_entries_map_push(s: Seq<CacheEntry>, e: CacheEntry)
    ensures
        entries_map(s.push(e)) == entries_map(s).insert(e.key@, e.model()),
{
    assert(s.push(e).drop_last() =~= s);
    assert(s.push(e).last() == e);
}

proof fn lemma_distinct_remove(s: Seq<CacheEntry>, i: int)
    requires
        distinct_keys(s),
        0 <= i < s.len(),
    ensures
        distinct_keys(s.remove(i)),
        forall|j: int| 0 <= j < s.remove(i).len() ==> #[trigger] s.remove(i)[j].key@ != s[i].key@,
{
    let t = s.remove(i);
    assert forall|a: int, b: int| 0 <= a < b < t.len() implies t[a].key@ != t[b].key@ by {
        let c = if a < i {
            a
        } else {
            a + 1
        };
        let d = if b < i {
            b
        } else {
            b + 1
        };
        assert(t[a] == s[c]);
        assert(t[b] == s[d]);
    }
    assert forall|j: int| 0 <= j < t.len() implies #[trigger] t[j].key@ != s[i].key@ by {
        let c = if j < i {
            j
        } else {
            j + 1
        };
        assert(t[j] == s[c]);
    }
}

/// The entries whose key does not contain `pat`, in order.
spec fn keep_entries(s: Seq<CacheEntry>, pat: Seq<char>) -> Seq<CacheEntry>
    decreases s.len(),
{
    if s.len() == 0 {
        Seq::empty()
    } else {
        let pre = keep_entries(s.drop_last(), pat);
        if contains_seq(s.last().key@, pat) {
            pre
        } else {
            pre.push(s.last())
        }
    }
}

proof fn lemma_keep_entries_keys(s: Seq<CacheEntry>, pat: Seq<char>, k: Seq<char>)
    ensures
        (exists|j: int| 0 <= j < keep_entries(s, pat).len() && #[trigger] keep_entries(s, pat)[j].key@
            == k) <==> ((exists|i: int| 0 <= i < s.len() && #[trigger] s[i].key@ == k)
            && !contains_seq(k, pat)),
    decreases s.len(),
{
    let t = keep_entries(s, pat);
    if s.len() == 0 {
    } else {
        let pre = s.drop_last();
        let tp = keep_entries(pre, pat);
        lemma_keep_entries_keys(pre, pat, k);
        if exists|j: int| 0 <= j < t.len() && #[trigger] t[j].key@ == k {
            let j = choose|j: int| 0 <= j < t.len() && #[trigger] t[j].key@ == k;
            if contains_seq(s.last().key@, pat) {
                assert(tp[j].key@ == k);
            } else {
                if j < t.len() - 1 {
                    assert(tp[j].key@ == k);
                } else {
                    assert(s[s.len() - 1].key@ == k);
                }
            }
        }
        if (exists|i: int| 0 <= i < s.len() && #[trigger] s[i].key@ == k) && !contains_seq(
            k,
            pat,
        ) {
            let i = choose|i: int| 0 <= i < s.len() && #[trigger] s[i].key@ == k;
            if i < s.len() - 1 {
                assert(pre[i].key@ == k);
                let j = choose|j: int| 0 <= j < tp.len() && #[trigger] tp[j].key@ == k;
                assert(t[j].key@ == k);
            } else {
                assert(!contains_seq(s.last().key@, pat));
                assert(t[t.len() - 1].key@ == k);
            }
        }
    }
}

proof fn lemma_keep_entries_distinct(s: Seq<CacheEntry>, pat: Seq<char>)
    requires
        distinct_keys(s),
    ensures
        distinct_keys(keep_entries(s, pat)),
    decreases s.len(),
{
    if s.len() > 0 {
        let pre = s.drop_last();
        assert(distinct_keys(pre)) by {
            assert(forall|a: int, b: int|
                0 <= a < b < pre.len() ==> s[a].key@ == #[trigger] pre[a].key@ && s[b].key@
                    == #[trigger] pre[b].key@);
        }
        lemma_keep_entries_distinct(pre, pat);
        let tp = keep_entries(pre, pat);
        if !contains_seq(s.last().key@, pat) {
            assert(forall|j: int|
                0 <= j < tp.len() ==> #[trigger] tp[j].key@ != s.last().key@) by {
                if exists|j: int| 0 <= j < tp.len() && #[trigger] tp[j].key@ == s.last().key@ {
                    lemma_keep_entries_keys(pre, pat, s.last().key@);
                    let i = choose|i: int|
                        0 <= i < pre.len() && #[trigger] pre[i].key@ == s.last().key@;
                    assert(s[i].key@ == s[s.len() - 1].key@);
                }
            }
            let t = keep_entries(s, pat);
            assert forall|a: int, b: int|
                0 <= a < b < t.len() implies t[a].key@ != t[b].key@ by {
                if b < t.len() - 1 {
                    assert(tp[a].key@ != tp[b].key@);
                } else {
                    assert(t[a] == tp[a]);
                }
            }
        }
    }
}

proof fn lemma_keep_entries_map(s: Seq<CacheEntry>, pat: Seq<char>)
    requires
        distinct_keys(s),
    ensures
        entries_map(keep_entries(s, pat)) == entries_map(s).remove_keys(
            Set::new(|k: Seq<char>| contains_seq(k, pat)),
        ),
    decreases s.len(),
{
    let matched = Set::new(|k: Seq<char>| contains_seq(k, pat));
    if s.len() == 0 {
        assert(entries_map(keep_entries(s, pat)) =~= entries_map(s).remove_keys(matched));
    } else {
        let pre = s.drop_last();
        assert(distinct_keys(pre)) by {
            assert(forall|a: int, b: int|
                0 <= a < b < pre.len() ==> s[a].key@ == #[trigger] pre[a].key@ && s[b].key@
                    == #[trigger] pre[b].key@);
        }
        lemma_keep_entries_map(pre, pat);
        let e = s.last();
        if contains_seq(e.key@, pat) {
            assert(entries_map(keep_entries(s, pat)) =~= entries_map(s).remove_keys(matched));
        } else {
            lemma_entries_map_push(keep_entries(pre, pat), e);
            assert(entries_map(keep_entries(s, pat)) =~= entries_map(s).remove_keys(matched));
        }
    }
}

/// Whether an entry inserted at `inserted_at_ms` is still usable at
/// `now_ms` under the time-to-live `ttl_ms`: its age, clamped below at
/// zero, is strictly under the time-to-live.
pub open spec fn spec_fresh(inserted_at_ms: u64, now_ms: u64, ttl_ms: u64) -> bool {
    (if now_ms >= inserted_at_ms {
        now_ms - inserted_at_ms
    } else {
        0
    }) < ttl_ms
}

/// What a lookup yields: the stored result exactly when the key is present
/// and its entry is still fresh, nothing otherwise.
pub open spec fn spec_lookup(
    m: Map<Seq<char>, EntryModel>,
    key: Seq<char>,
    now_ms: u64,
    ttl_ms: u64,
) -> Option<ResultModel> {
    if m.contains_key(key) && spec_fresh(m[key].inserted_at_ms, now_ms, ttl_ms) {
        Some(m[key].result)
    } else {
        None
    }
}

/// The cache contents after a lookup of `key` at `now_ms`: unchanged,
/// except that a stale entry found under `key` has been removed.
pub open spec fn spec_prune(
    m: Map<Seq<char>, EntryModel>,
    key: Seq<char>,
    now_ms: u64,
    ttl_ms: u64,
) -> Map<Seq<char>, EntryModel> {
    if m.contains_key(key) && !spec_fresh(m[key].inserted_at_ms, now_ms, ttl_ms) {
        m.remove(key)
    } else {
        m
    }
}

/// The time-to-live in milliseconds that a cache built from `ttl_seconds`
/// carries (saturating at the largest representable value).
pub open spec fn spec_ttl_of(ttl_seconds: u64) -> u64 {
    if ttl_seconds * 1000 <= u64::MAX {
        (ttl_seconds * 1000) as u64
    } else {
        u64::MAX
    }
}

/// In-memory cache for command results, keyed by query fingerprint, with a
/// uniform time-to-live fixed at construction.
pub struct CommandCache {
    entries: Vec<CacheEntry>,
    ttl_ms: u64,
}

impl View for CommandCache {
    type V = Map<Seq<char>, EntryModel>;

    closed spec fn view(&self) -> Map<Seq<char>, EntryModel> {
        entries_map(self.entries@)
    }
}

impl CommandCache {
    /// The uniform time-to-live, in milliseconds.
    pub closed spec fn spec_ttl_ms(&self) -> u64 {
        self.ttl_ms
    }

    /// Well-formed: no key is filed twice.
    pub closed spec fn wf(&self) -> bool {
        distinct_keys(self.entries@)
    }

    /// An empty cache whose entries live `ttl_seconds` once inserted.
    pub fn new(ttl_seconds: u64) -> (c: CommandCache)
        ensures
            c@ == Map::<Seq<char>, EntryModel>::empty(),
            c.spec_ttl_ms() == spec_ttl_of(ttl_seconds),
            c.wf(),
    {
        let ttl_ms = match ttl_seconds.checked_mul(1000) {
            Some(v) => v,
            None => u64::MAX,
        };
        let c = CommandCache { entries: Vec::new(), ttl_ms };
        proof {
            assert(c.entries@ =~= Seq::<CacheEntry>::empty());
        }
        c
    }

    fn find_index(&self, key: &String) -> (r: Option<usize>)
        ensures
            match r {
                Some(i) => i < self.entries@.len() && self.entries@[i as int].key@ == key@,
                None => forall|i: int|
                    0 <= i < self.entries@.len() ==> #[trigger] self.entries@[i].key@ != key@,
            },
    {
        let mut i: usize = 0;
        while i < self.entries.len()
            invariant
                i <= self.entries@.len(),
                forall|j: int| 0 <= j < i ==> #[trigger] self.entries@[j].key@ != key@,
            decreases self.entries@.len() - i,
        {
            if self.entries[i].key == *key {
                return Some(i);
            }
            i = i + 1;
        }
        None
    }

    /// Looks `key` up at clock reading `now_ms`. Yields a deep copy of the
    /// stored result exactly when the key is present and not yet expired;
    /// a stale entry found on the way is removed (lazy expiry), and nothing
    /// else changes.
    pub fn get(&mut self, key: &str, now_ms: u64) -> (r: Option<CommandResult>)
        requires
            old(self).wf(),
        ensures
            final(self).wf(),
            final(self).spec_ttl_ms() == old(self).spec_ttl_ms(),
            r matches Some(v) ==> spec_lookup(old(self)@, key@, now_ms, old(self).spec_ttl_ms())
                == Some(v@),
            r is None ==> spec_lookup(old(self)@, key@, now_ms, old(self).spec_ttl_ms()) is None,
            final(self)@ == spec_prune(old(self)@, key@, now_ms, old(self).spec_ttl_ms()),
    {
        let k = String::from_str(key);
        match self.find_index(&k) {
            Some(i) => {
                proof {
                    lemma_entries_map_value(self.entries@, i as int);
                }
                let inserted = self.entries[i].inserted_at_ms;
                if now_ms.saturating_sub(inserted) < self.ttl_ms {
                    Some(self.entries[i].result.duplicate())
                } else {
                    proof {
                        lemma_entries_map_remove(self.entries@, i as int);
                        lemma_distinct_remove(self.entries@, i as int);
                    }
                    self.entries.remove(i);
                    None
                }
            },
            None => {
                proof {
                    lemma_entries_map_membership(self.entries@, key@);
                }
                None
            },
        }
    }

    /// Files `result` under `key` at clock reading `now_ms`, replacing any
    /// earlier entry for that key; the entry's age restarts at zero.
    pub fn set(&mut self, key: String, result: CommandResult, now_ms: u64)
        requires
            old(self).wf(),
        ensures
            final(self).wf(),
            final(self).spec_ttl_ms() == old(self).spec_ttl_ms(),
            final(self)@ == old(self)@.insert(
                key@,
                EntryModel { result: result@, inserted_at_ms: now_ms },
            ),
    {
        let ghost m0 = self@;
        match self.find_index(&key) {
            Some(i) => {
                proof {
                    lemma_entries_map_remove(self.entries@, i as int);
                    lemma_distinct_remove(self.entries@, i as int);
                }
                self.entries.remove(i);
            },
            None => {},
        }
        let ghost mid = self.entries@;
        proof {
            assert(forall|j: int|
                0 <= j < mid.len() ==> #[trigger] mid[j].key@ != key@);
        }
        let entry = CacheEntry { key, result, inserted_at_ms: now_ms };
        proof {
            lemma_entries_map_push(self.entries@, entry);
        }
        self.entries.push(entry);
        proof {
            assert(distinct_keys(self.entries@)) by {
                assert(forall|a: int| 0 <= a < mid.len() ==> #[trigger] self.entries@[a] == mid[a]);
                assert(self.entries@[self.entries@.len() - 1].key@ == key@);
            }
            assert(self@ =~= m0.insert(
                key@,
                EntryModel { result: result@, inserted_at_ms: now_ms },
            ));
        }
    }

    /// Removes exactly the entries whose key contains `pattern`; every
    /// other entry is left intact, with its result and age unchanged.
    pub fn invalidate_pattern(&mut self, pattern: &str)
        requires
            old(self).wf(),
        ensures
            final(self).wf(),
            final(self).spec_ttl_ms() == old(self).spec_ttl_ms(),
            final(self)@ == old(self)@.remove_keys(
                Set::new(|k: Seq<char>| contains_seq(k, pattern@)),
            ),
    {
        let ghost orig = self.entries@;
        let ghost pat = pattern@;
        let ghost orig_ttl = self.ttl_ms;
        let ghost mut k: int = 0;
        let mut i: usize = 0;
        while i < self.entries.len()
            invariant
                distinct_keys(orig),
                0 <= k <= orig.len(),
                i == keep_entries(orig.take(k), pat).len(),
                self.entries@ == keep_entries(orig.take(k), pat) + orig.skip(k),
                self.ttl_ms == orig_ttl,
                pat == pattern@,
            decreases orig.len() - k,
        {
            proof {
                assert(self.entries@[i as int] == orig[k]);
            }
            if str_contains(self.entries[i].key.as_str(), pattern) {
                self.entries.remove(i);
                proof {
                    assert(orig.take(k + 1).drop_last() =~= orig.take(k));
                    assert(orig.take(k + 1).last() == orig[k]);
                    assert(self.entries@ =~= keep_entries(orig.take(k + 1), pat) + orig.skip(
                        k + 1,
                    ));
                    k = k + 1;
                }
            } else {
                i = i + 1;
                proof {
                    assert(orig.take(k + 1).drop_last() =~= orig.take(k));
                    assert(orig.take(k + 1).last() == orig[k]);
                    assert(self.entries@ =~= keep_entries(orig.take(k + 1), pat) + orig.skip(
                        k + 1,
                    ));
                    k = k + 1;
                }
            }
        }
        proof {
            assert(orig.take(orig.len() as int) =~= orig);
            assert(self.entries@ =~= keep_entries(orig, pat));
            lemma_keep_entries_distinct(orig, pat);
            lemma_keep_entries_map(orig, pat);
        }
    }

    /// Removes every entry: every subsequent lookup misses until the key is
    /// set again.
    pub fn invalidate(&mut self)
        requires
            old(self).wf(),
        ensures
            final(self).wf(),
            final(self).spec_ttl_ms() == old(self).spec_ttl_ms(),
            final(self)@ == Map::<Seq<char>, EntryModel>::empty(),
    {
        self.entries.clear();
        proof {
            assert(self.entries@ =~= Seq::<CacheEntry>::empty());
        }
    }
}

/// The cache as the application constructs it at start-up: empty, with the
/// default time-to-live. The caller owns the single instance for the life
/// of the process and hands it to every component that needs it.
pub fn get_cache() -> (c: CommandCache)
    ensures
        c@ == Map::<Seq<char>, EntryModel>::empty(),
        c.spec_ttl_ms() == spec_ttl_of(DEFAULT_TTL_SECONDS),
        c.wf(),
{
    CommandCache::new(DEFAULT_TTL_SECONDS)
}

/// Law: filing a result and then looking the same key up yields exactly
/// that result while the entry's age is under the time-to-live, and
/// nothing once the time-to-live has elapsed.
pub proof fn lemma_set_then_get(
    m: Map<Seq<char>, EntryModel>,
    key: Seq<char>,
    r: ResultModel,
    t_set: u64,
    t_get: u64,
    ttl_ms: u64,
)
    ensures
        spec_lookup(
            m.insert(key, EntryModel { result: r, inserted_at_ms: t_set }),
            key,
            t_get,
            ttl_ms,
        ) == (if spec_fresh(t_set, t_get, ttl_ms) {
            Some(r)
        } else {
            None::<ResultModel>
        }),
{
}

/// Law: invalidating everything leaves a cache in which a lookup of any
/// key, at any time, yields nothing.
pub proof fn lemma_invalidate_all_then_get(key: Seq<char>, now_ms: u64, ttl_ms: u64)
    ensures
        spec_lookup(Map::<Seq<char>, EntryModel>::empty(), key, now_ms, ttl_ms) is None,
{
}

/// Law: pattern invalidation removes exactly the entries whose key
/// contains the pattern. A key that contains it loses its entry; any other
/// key keeps exactly the entry it had.
pub proof fn lemma_invalidate_matching_exact(
    m: Map<Seq<char>, EntryModel>,
    pat: Seq<char>,
    key: Seq<char>,
)
    ensures
        contains_seq(key, pat) ==> !m.remove_keys(
            Set::new(|k: Seq<char>| contains_seq(k, pat)),
        ).contains_key(key),
        !contains_seq(key, pat) ==> (m.remove_keys(
            Set::new(|k: Seq<char>| contains_seq(k, pat)),
        ).contains_key(key) <==> m.contains_key(key)),
        !contains_seq(key, pat) && m.contains_key(key) ==> m.remove_keys(
            Set::new(|k: Seq<char>| contains_seq(k, pat)),
        )[key] == m[key],
{
}

} // verus!
