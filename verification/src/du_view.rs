//! Disk-usage view: the items of a directory, largest first.

use vstd::prelude::*;
use crate::sort::{KeyOrder, insort, sorted, stable_sort};

verus! {

#[derive(Debug)]
pub struct DuEntry {
    pub path: String,
    pub name: String,
    pub size: u64,
    pub is_dir: bool,
}

impl KeyOrder for DuEntry {
    /// Larger sizes first.
    open spec fn sort_le(&self, other: &Self) -> bool {
        self.size >= other.size
    }

    fn key_le(&self, other: &Self) -> (r: bool) {
        self.size >= other.size
    }

    proof fn lemma_total(a: &Self, b: &Self) {
    }

    proof fn lemma_trans(a: &Self, b: &Self, c: &Self) {
    }
}

/// Sum of the sizes of `s`.
pub open spec fn total_size(s: Seq<DuEntry>) -> nat
    decreases s.len(),
{
    if s.len() == 0 {
        0
    } else {
        total_size(s.drop_last()) + s.last().size as nat
    }
}

pub struct DuView {
    pub entries: Vec<DuEntry>,
    pub cursor: usize,
    pub offset: usize,
    pub total: u64,
    pub dir: String,
}

impl DuView {
    /// The view of `dir` from the sizes measured for its items: sorted by
    /// size, largest first (items of equal size keep their order), with their
    /// total.
    pub fn compute(dir: String, measured: Vec<DuEntry>) -> (v: DuView)
        requires
            total_size(measured@) <= u64::MAX,
        ensures
            v.entries@ == insort(measured@),
            sorted(v.entries@),
            v.entries@.to_multiset() == measured@.to_multiset(),
            v.total == total_size(measured@),
            v.cursor == 0,
            v.offset == 0,
            v.dir@ == dir@,
    {
        let mut total: u64 = 0;
        let mut i: usize = 0;
        while i < measured.len()
            invariant
                i <= measured@.len(),
                total == total_size(measured@.take(i as int)),
                total_size(measured@) <= u64::MAX,
            decreases measured@.len() - i,
        {
            proof {
                assert(measured@.take(i + 1).drop_last() =~= measured@.take(i as int));
                lemma_total_prefix(measured@, i + 1);
            }
            total = total + measured[i].size;
            i = i + 1;
        }
        assert(measured@.take(i as int) =~= measured@);
        let entries = stable_sort(measured);
        DuView { entries, cursor: 0, offset: 0, total, dir }
    }

    pub fn cursor_down(&mut self, h: u16)
        ensures
            if old(self).cursor + 1 < old(self).entries@.len() {
                &&& final(self).cursor == old(self).cursor + 1
                &&& final(self).offset == (if final(self).cursor >= old(self).offset + crate::folder::rows(h) {
                    final(self).cursor - crate::folder::rows(h) + 1
                } else {
                    old(self).offset as int
                })
            } else {
                final(self).cursor == old(self).cursor && final(self).offset == old(self).offset
            },
            final(self).entries == old(self).entries,
            final(self).total == old(self).total,
            final(self).dir == old(self).dir,
    {
        if self.entries.len() > 0 && self.cursor < self.entries.len() - 1 {
            self.cursor = self.cursor + 1;
            let h: usize = if h >= 4 {
                (h - 4) as usize
            } else {
                0
            };
            if self.cursor >= self.offset && self.cursor - self.offset >= h {
                self.offset = self.cursor - h + 1;
            }
        }
    }

    pub fn cursor_up(&mut self)
        ensures
            if old(self).cursor > 0 {
                &&& final(self).cursor == old(self).cursor - 1
                &&& final(self).offset == (if final(self).cursor < old(self).offset {
                    final(self).cursor as int
                } else {
                    old(self).offset as int
                })
            } else {
                final(self).cursor == 0 && final(self).offset == old(self).offset
            },
            final(self).entries == old(self).entries,
            final(self).total == old(self).total,
            final(self).dir == old(self).dir,
    {
        if self.cursor > 0 {
            self.cursor = self.cursor - 1;
            if self.cursor < self.offset {
                self.offset = self.cursor;
            }
        }
    }

    pub fn cursor_top(&mut self)
        ensures
            final(self).cursor == 0,
            final(self).offset == 0,
            final(self).entries == old(self).entries,
            final(self).total == old(self).total,
            final(self).dir == old(self).dir,
    {
        self.cursor = 0;
        self.offset = 0;
    }

    pub fn cursor_bottom(&mut self)
        ensures
            final(self).cursor == (if old(self).entries@.len() == 0 {
                0
            } else {
                old(self).entries@.len() - 1
            }),
            final(self).offset == old(self).offset,
            final(self).entries == old(self).entries,
            final(self).total == old(self).total,
            final(self).dir == old(self).dir,
    {
        self.cursor = if self.entries.len() == 0 {
            0
        } else {
            self.entries.len() - 1
        };
    }

    pub fn hovered(&self) -> (r: Option<&DuEntry>)
        ensures
            r == (if self.cursor < self.entries@.len() {
                Some(&self.entries@[self.cursor as int])
            } else {
                None
            }),
    {
        if self.cursor < self.entries.len() {
            Some(&self.entries[self.cursor])
        } else {
            None
        }
    }
}

proof fn lemma_total_prefix(s: Seq<DuEntry>, i: int)
    requires
        0 <= i <= s.len(),
    ensures
        total_size(s.take(i)) <= total_size(s),
    decreases s.len(),
{
    if i < s.len() {
        assert(s.drop_last().take(i) =~= s.take(i));
        lemma_total_prefix(s.drop_last(), i);
    } else {
        assert(s.take(i) =~= s);
    }
}

} // verus!
