//! Trash browser: the trashed items, newest first, with a cursor and a
//! selection. Listing, restoring and purging go through the trash service,
//! which is the caller's part.

use vstd::prelude::*;
use std::collections::HashSet;
use crate::sort::{KeyOrder, insort, sorted, stable_sort};
use vstd::std_specs::hash::spec_hash_keys_iter;
use vstd::std_specs::iter::IteratorSpec;
use crate::text::{chars_of, lex_le, lex_le_exec, lemma_lex_total, lemma_lex_trans};

verus! {

broadcast use vstd::std_specs::hash::group_hash_axioms;

#[derive(Debug)]
pub struct TrashEntry {
    pub original: String,
    pub name: String,
    /// Deletion time, `MM-DD HH:MM`.
    pub deleted: String,
    /// Identifier of the item in the trash.
    pub raw_id: String,
}

impl KeyOrder for TrashEntry {
    /// Later deletion times first.
    open spec fn sort_le(&self, other: &Self) -> bool {
        lex_le(other.deleted@, self.deleted@)
    }

    fn key_le(&self, other: &Self) -> (r: bool) {
        let a = chars_of(self.deleted.as_str());
        let b = chars_of(other.deleted.as_str());
        lex_le_exec(b.as_slice(), a.as_slice())
    }

    proof fn lemma_total(a: &Self, b: &Self) {
        lemma_lex_total(a.deleted@, b.deleted@);
    }

    proof fn lemma_trans(a: &Self, b: &Self, c: &Self) {
        lemma_lex_trans(c.deleted@, b.deleted@, a.deleted@);
    }
}

impl KeyOrder for usize {
    open spec fn sort_le(&self, other: &Self) -> bool {
        *self <= *other
    }

    fn key_le(&self, other: &Self) -> (r: bool) {
        *self <= *other
    }

    proof fn lemma_total(a: &Self, b: &Self) {
    }

    proof fn lemma_trans(a: &Self, b: &Self, c: &Self) {
    }
}

pub struct TrashView {
    pub items: Vec<TrashEntry>,
    pub cursor: usize,
    pub offset: usize,
    pub selected: HashSet<usize>,
}

/// Strictly increasing.
pub open spec fn increasing(s: Seq<usize>) -> bool {
    forall|i: int, j: int| 0 <= i < j < s.len() ==> s[i] < s[j]
}

impl TrashView {
    /// The browser over the items the trash lists, newest first.
    pub fn open(listed: Vec<TrashEntry>) -> (v: TrashView)
        ensures
            v.items@ == insort(listed@),
            sorted(v.items@),
            v.items@.to_multiset() == listed@.to_multiset(),
            v.cursor == 0,
            v.offset == 0,
            v.selected@.len() == 0,
    {
        let items = stable_sort(listed);
        TrashView { items, cursor: 0, offset: 0, selected: HashSet::new() }
    }

    /// Takes a fresh listing: the cursor is pulled back into it and the
    /// selection is cleared.
    pub fn refresh(&mut self, listed: Vec<TrashEntry>)
        ensures
            final(self).items@ == insort(listed@),
            final(self).cursor == crate::folder::clamp(
                old(self).cursor as int,
                listed@.len() as int,
            ),
            final(self).offset == old(self).offset,
            final(self).selected@.len() == 0,
    {
        self.items = stable_sort(listed);
        proof {
            crate::sort::lemma_insort(listed@);
        }
        if self.cursor >= self.items.len() {
            self.cursor = if self.items.len() == 0 {
                0
            } else {
                self.items.len() - 1
            };
        }
        self.selected.clear();
    }

    pub fn cursor_down(&mut self, h: u16)
        ensures
            if old(self).cursor + 1 < old(self).items@.len() {
                &&& final(self).cursor == old(self).cursor + 1
                &&& final(self).offset == (if final(self).cursor >= old(self).offset
                    + crate::folder::rows(h) {
                    final(self).cursor - crate::folder::rows(h) + 1
                } else {
                    old(self).offset as int
                })
            } else {
                final(self).cursor == old(self).cursor && final(self).offset == old(self).offset
            },
            final(self).items == old(self).items,
            final(self).selected@ == old(self).selected@,
    {
        if self.items.len() > 0 && self.cursor < self.items.len() - 1 {
            self.cursor = self.cursor + 1;
            let h: usize = if h >= 4 {
                (h - 4) as usize
            } else {
                0
            };
            if self.cursor >= self.offset && self.cursor - self.offset >= h {
                self.offset = self.cursor - h + 1;
            }
        }
    }

    pub fn cursor_up(&mut self)
        ensures
            if old(self).cursor > 0 {
                &&& final(self).cursor == old(self).cursor - 1
                &&& final(self).offset == (if final(self).cursor < old(self).offset {
                    final(self).cursor as int
                } else {
                    old(self).offset as int
                })
            } else {
                final(self).cursor == 0 && final(self).offset == old(self).offset
            },
            final(self).items == old(self).items,
            final(self).selected@ == old(self).selected@,
    {
        if self.cursor > 0 {
            self.cursor = self.cursor - 1;
            if self.cursor < self.offset {
                self.offset = self.cursor;
            }
        }
    }

    pub fn cursor_top(&mut self)
        ensures
            final(self).cursor == 0,
            final(self).offset == 0,
            final(self).items == old(self).items,
            final(self).selected@ == old(self).selected@,
    {
        self.cursor = 0;
        self.offset = 0;
    }

    pub fn cursor_bottom(&mut self)
        ensures
            final(self).cursor == (if old(self).items@.len() == 0 {
                0
            } else {
                old(self).items@.len() - 1
            }),
            final(self).offset == old(self).offset,
            final(self).items == old(self).items,
            final(self).selected@ == old(self).selected@,
    {
        self.cursor = if self.items.len() == 0 {
            0
        } else {
            self.items.len() - 1
        };
    }

    /// Selects the hovered item, or unselects it when it was selected.
    pub fn toggle_select(&mut self)
        ensures
            final(self).selected@ == (if old(self).selected@.contains(old(self).cursor) {
                old(self).selected@.remove(old(self).cursor)
            } else {
                old(self).selected@.insert(old(self).cursor)
            }),
            final(self).cursor == old(self).cursor,
            final(self).offset == old(self).offset,
            final(self).items == old(self).items,
    {
        let c = self.cursor;
        if !self.selected.remove(&c) {
            self.selected.insert(c);
        }
    }

    /// The items to act on: the selected ones in increasing order, or the
    /// hovered one when nothing is selected.
    pub fn target_indices(&self) -> (r: Vec<usize>)
        ensures
            self.selected@.len() == 0 ==> r@ == seq![self.cursor],
            self.selected@.len() > 0 ==> increasing(r@) && r@.to_set() == self.selected@,
    {
        if self.selected.is_empty() {
            let mut v = Vec::new();
            v.push(self.cursor);
            return v;
        }
        let mut v: Vec<usize> = Vec::new();
        for x in it: self.selected.iter()
            invariant
                v@ == it.seq().take(it.index() as int).map_values(|p: &usize| *p),
        {
            v.push(*x);
            proof {
                assert(it.seq().take(it.index() as int + 1).map_values(|p: &usize| *p)
                    =~= it.seq().take(it.index() as int).map_values(|p: &usize| *p).push(*x));
            }
        }
        let ghost listed = v@;
        proof {
            let r = spec_hash_keys_iter(&self.selected).remaining();
            assert(listed =~= r.unref());
            assert(listed.to_set() == self.selected@);
            assert(listed.no_duplicates());
        }
        let sorted_v = stable_sort(v);
        proof {
            lemma_sorted_distinct(listed, sorted_v@);
        }
        sorted_v
    }
}

/// A sorted rearrangement of a sequence without repeats is strictly
/// increasing and holds the same elements.
proof fn lemma_sorted_distinct(s: Seq<usize>, t: Seq<usize>)
    requires
        s.no_duplicates(),
        sorted(t),
        t.to_multiset() == s.to_multiset(),
    ensures
        increasing(t),
        t.to_set() == s.to_set(),
{
    broadcast use vstd::seq_lib::group_to_multiset_ensures;

    s.lemma_multiset_has_no_duplicates();
    t.lemma_multiset_has_no_duplicates_conv();
    assert forall|i: int, j: int| 0 <= i < j < t.len() implies t[i] < t[j] by {
        assert(KeyOrder::sort_le(&t[i], &t[j]));
        assert(t[i] != t[j]);
    }
    assert forall|x: usize| t.to_set().contains(x) <==> s.to_set().contains(x) by {
        if t.contains(x) {
            assert(t.to_multiset().count(x) > 0);
        }
        if s.contains(x) {
            assert(s.to_multiset().count(x) > 0);
        }
    }
    assert(t.to_set() =~= s.to_set());
}

} // verus!
