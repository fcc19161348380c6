//! Directory sizes: summing the sizes of the files found under a directory,
//! and the cache of sizes keyed by path and checked against the directory's
//! modification time. Walking the tree, reading metadata and the cache file
//! are the caller's part.

use vstd::prelude::*;
use crate::text::str_eq;

verus! {

/// The sum of `sizes`.
pub open spec fn sum_sizes(sizes: Seq<u64>) -> int
    decreases sizes.len(),
{
    if sizes.len() == 0 {
        0
    } else {
        sum_sizes(sizes.drop_last()) + sizes.last()
    }
}

proof fn lemma_sum_prefix_bounded(sizes: Seq<u64>, i: int)
    requires
        0 <= i <= sizes.len(),
    ensures
        sum_sizes(sizes.take(i)) <= sum_sizes(sizes),
    decreases sizes.len() - i,
{
    if i < sizes.len() {
        lemma_sum_prefix_bounded(sizes, i + 1);
        assert(sizes.take(i + 1).drop_last() =~= sizes.take(i));
    } else {
        assert(sizes.take(i) =~= sizes);
    }
}

/// The total size of the files whose sizes are `sizes`.
pub fn total_bytes(sizes: &[u64]) -> (r: u64)
    requires
        sum_sizes(sizes@) <= u64::MAX,
    ensures
        r == sum_sizes(sizes@),
{
    let mut total: u64 = 0;
    let mut i: usize = 0;
    while i < sizes.len()
        invariant
            i <= sizes@.len(),
            sum_sizes(sizes@) <= u64::MAX,
            total == sum_sizes(sizes@.take(i as int)),
        decreases sizes@.len() - i,
    {
        proof {
            assert(sizes@.take(i + 1).drop_last() =~= sizes@.take(i as int));
            lemma_sum_prefix_bounded(sizes@, i + 1);
        }
        total = total + sizes[i];
        i = i + 1;
    }
    assert(sizes@.take(sizes@.len() as int) =~= sizes@);
    total
}

/// A cached size: the directory's modification time (seconds since the
/// epoch) when it was measured, and its size in bytes.
#[derive(Debug, Clone, Copy, PartialEq, Eq, Structural)]
pub struct SizeEntry {
    pub mtime_secs: u64,
    pub bytes: u64,
}

/// The entries as a map from path; a later entry for the same path wins.
pub open spec fn entries_view(v: Seq<(String, SizeEntry)>) -> Map<Seq<char>, SizeEntry>
    decreases v.len(),
{
    if v.len() == 0 {
        Map::empty()
    } else {
        entries_view(v.drop_last()).insert(v.last().0@, v.last().1)
    }
}

/// No path occurs twice.
pub open spec fn distinct_paths(v: Seq<(String, SizeEntry)>) -> bool {
    forall|i: int, j: int| 0 <= i < j < v.len() ==> (#[trigger] v[i]).0@ != (#[trigger] v[j]).0@
}

/// What a lookup of `path` at modification time `mtime` gives: the cached
/// size when an entry exists and was taken at that time.
pub open spec fn lookup_spec(m: Map<Seq<char>, SizeEntry>, path: Seq<char>, mtime: u64) -> Option<
    u64,
> {
    if m.contains_key(path) && m[path].mtime_secs == mtime {
        Some(m[path].bytes)
    } else {
        None
    }
}

/// The cache of measured directory sizes.
pub struct SizeCache {
    pub entries: Vec<(String, SizeEntry)>,
}

impl View for SizeCache {
    type V = Map<Seq<char>, SizeEntry>;

    open spec fn view(&self) -> Map<Seq<char>, SizeEntry> {
        entries_view(self.entries@)
    }
}

proof fn lemma_entries_last(v: Seq<(String, SizeEntry)>, k: Seq<char>, i: int)
    requires
        -1 <= i < v.len(),
        i >= 0 ==> v[i].0@ == k,
        forall|j: int| i < j < v.len() ==> (#[trigger] v[j]).0@ != k,
    ensures
        i < 0 ==> !entries_view(v).contains_key(k),
        i >= 0 ==> entries_view(v).contains_key(k) && entries_view(v)[k] == v[i].1,
    decreases v.len(),
{
    if v.len() > 0 && i != v.len() - 1 {
        let t = v.drop_last();
        assert forall|j: int| i < j < t.len() implies (#[trigger] t[j]).0@ != k by {
            assert(t[j] == v[j]);
        }
        lemma_entries_last(t, k, i);
        assert(v[v.len() - 1].0@ != k);
    }
}

proof fn lemma_entries_update(v: Seq<(String, SizeEntry)>, i: int, x: (String, SizeEntry))
    requires
        0 <= i < v.len(),
        v[i].0@ == x.0@,
        distinct_paths(v),
    ensures
        entries_view(v.update(i, x)) == entries_view(v).insert(x.0@, x.1),
    decreases v.len(),
{
    let u = v.update(i, x);
    if i == v.len() - 1 {
        assert(u.drop_last() =~= v.drop_last());
        assert(entries_view(u) =~= entries_view(v).insert(x.0@, x.1));
    } else {
        let t = v.drop_last();
        assert(distinct_paths(t)) by {
            assert forall|a: int, b: int| 0 <= a < b < t.len() implies (#[trigger] t[a]).0@ != (
            #[trigger] t[b]).0@ by {
                assert(t[a] == v[a] && t[b] == v[b]);
            }
        }
        assert(t[i] == v[i]);
        lemma_entries_update(t, i, x);
        assert(u.drop_last() =~= t.update(i, x));
        assert(u.last() == v.last());
        assert(v[i].0@ != v[v.len() - 1].0@);
        assert(entries_view(u) =~= entries_view(v).insert(x.0@, x.1));
    }
}

impl SizeCache {
    /// Well-formed: no path occurs twice.
    pub open spec fn wf(&self) -> bool {
        distinct_paths(self.entries@)
    }

    /// An empty cache.
    pub fn new() -> (c: SizeCache)
        ensures
            c.wf(),
            c@ == Map::<Seq<char>, SizeEntry>::empty(),
    {
        SizeCache { entries: Vec::new() }
    }

    /// The cache read back from a list of entries; a later entry for a path
    /// replaces an earlier one.
    pub fn from_entries(list: Vec<(String, SizeEntry)>) -> (c: SizeCache)
        ensures
            c.wf(),
            c@ == entries_view(list@),
    {
        let mut c = SizeCache::new();
        let mut i: usize = 0;
        while i < list.len()
            invariant
                i <= list@.len(),
                c.wf(),
                c@ == entries_view(list@.take(i as int)),
            decreases list@.len() - i,
        {
            proof {
                assert(list@.take(i + 1).drop_last() =~= list@.take(i as int));
            }
            c.store(list[i].0.clone(), list[i].1.mtime_secs, list[i].1.bytes);
            proof {
                assert(c@ =~= entries_view(list@.take(i + 1)));
            }
            i = i + 1;
        }
        assert(list@.take(list@.len() as int) =~= list@);
        c
    }

    /// The index of `path`'s entry, if any.
    fn index_of(&self, path: &str) -> (r: Option<usize>)
        requires
            self.wf(),
        ensures
            match r {
                Some(i) => i < self.entries@.len() && self.entries@[i as int].0@ == path@
                    && self@.contains_key(path@) && self@[path@] == self.entries@[i as int].1,
                None => !self@.contains_key(path@),
            },
    {
        let mut i: usize = self.entries.len();
        while i > 0
            invariant
                i <= self.entries@.len(),
                forall|j: int| i <= j < self.entries@.len() ==> (#[trigger] self.entries@[j]).0@
                    != path@,
            decreases i,
        {
            if str_eq(self.entries[i - 1].0.as_str(), path) {
                proof {
                    lemma_entries_last(self.entries@, path@, i - 1);
                }
                return Some(i - 1);
            }
            i = i - 1;
        }
        proof {
            lemma_entries_last(self.entries@, path@, -1);
        }
        None
    }

    /// The cached size of `path` if it was measured when the directory had
    /// modification time `mtime`.
    pub fn lookup(&self, path: &str, mtime: u64) -> (r: Option<u64>)
        requires
            self.wf(),
        ensures
            r == lookup_spec(self@, path@, mtime),
    {
        match self.index_of(path) {
            Some(i) => {
                let e = self.entries[i].1;
                if e.mtime_secs == mtime {
                    Some(e.bytes)
                } else {
                    None
                }
            },
            None => None,
        }
    }

    /// Records that `path` measured `bytes` at modification time `mtime`.
    pub fn store(&mut self, path: String, mtime: u64, bytes: u64)
        requires
            old(self).wf(),
        ensures
            final(self).wf(),
            final(self)@ == old(self)@.insert(path@, SizeEntry { mtime_secs: mtime, bytes }),
    {
        let e = SizeEntry { mtime_secs: mtime, bytes };
        match self.index_of(path.as_str()) {
            Some(i) => {
                let ghost before = self.entries@;
                let ghost x = (path, e);
                proof {
                    lemma_entries_update(before, i as int, x);
                }
                self.entries.set(i, (path, e));
                proof {
                    assert(self.entries@ == before.update(i as int, x));
                    assert forall|a: int, b: int| 0 <= a < b < self.entries@.len() implies (
                    #[trigger] self.entries@[a]).0@ != (#[trigger] self.entries@[b]).0@ by {
                        if a != i {
                            assert(self.entries@[a] == before[a]);
                        }
                        if b != i {
                            assert(self.entries@[b] == before[b]);
                        }
                    }
                }
            },
            None => {
                let ghost before = self.entries@;
                proof {
                    assert forall|j: int| 0 <= j < before.len() implies (#[trigger] before[j]).0@
                        != path@ by {
                        if before[j].0@ == path@ {
                            lemma_last_index(before, path@, j);
                        }
                    }
                }
                self.entries.push((path, e));
                proof {
                    assert(self.entries@.drop_last() =~= before);
                    assert forall|a: int, b: int| 0 <= a < b < self.entries@.len() implies (
                    #[trigger] self.entries@[a]).0@ != (#[trigger] self.entries@[b]).0@ by {
                        assert(self.entries@[a] == before[a]);
                        if b < before.len() {
                            assert(self.entries@[b] == before[b]);
                        }
                    }
                }
            },
        }
    }
}

proof fn lemma_last_index(v: Seq<(String, SizeEntry)>, k: Seq<char>, j: int)
    requires
        0 <= j < v.len(),
        v[j].0@ == k,
    ensures
        entries_view(v).contains_key(k),
    decreases v.len(),
{
    if j < v.len() - 1 {
        lemma_last_index(v.drop_last(), k, j);
    }
}

/// A lookup right after storing a size gives that size back, at the time
/// it was stored with.
pub proof fn law_lookup_after_store(m: Map<Seq<char>, SizeEntry>, path: Seq<char>, mtime: u64, bytes: u64)
    ensures
        lookup_spec(m.insert(path, SizeEntry { mtime_secs: mtime, bytes }), path, mtime) == Some(
            bytes,
        ),
{
}

/// Storing a size for one path leaves every other path's lookup as it was.
pub proof fn law_store_keeps_others(
    m: Map<Seq<char>, SizeEntry>,
    path: Seq<char>,
    other: Seq<char>,
    mtime: u64,
    bytes: u64,
    at: u64,
)
    requires
        other != path,
    ensures
        lookup_spec(m.insert(path, SizeEntry { mtime_secs: mtime, bytes }), other, at)
            == lookup_spec(m, other, at),
{
}

/// A stored size goes stale once the modification time differs.
pub proof fn law_stale_after_change(m: Map<Seq<char>, SizeEntry>, path: Seq<char>, mtime: u64, bytes: u64, now: u64)
    requires
        now != mtime,
    ensures
        lookup_spec(m.insert(path, SizeEntry { mtime_secs: mtime, bytes }), path, now) is None,
{
}

} // verus!
