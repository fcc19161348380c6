//! A directory listing with a cursor: sorting, filtering and navigation.
//!
//! Reading the directory is the caller's part: it hands the entries it read
//! to `refill` (and to the functions that load another directory).

use vstd::prelude::*;
use crate::git::{GitStatus, copy_opt};
use crate::paths::{path_file_name, path_parent, file_name, parent};
use crate::sort::{KeyOrder, insort, sorted, stable_sort};
use crate::text::{
    chars_of, contains, contains_seq, lex_le, lex_le_exec, lemma_lex_total, lemma_lex_trans,
    to_lowercase, unicode_lower, lower_head, char_lower_head, str_eq,
};

verus! {

#[derive(Debug)]
pub struct FileEntry {
    pub path: String,
    pub name: String,
    pub is_dir: bool,
    pub size: u64,
    pub modified: String,
    pub git: Option<GitStatus>,
}

impl FileEntry {
    /// An identical copy.
    pub fn copy(&self) -> (r: FileEntry)
        ensures
            r == *self,
    {
        FileEntry {
            path: self.path.clone(),
            name: self.name.clone(),
            is_dir: self.is_dir,
            size: self.size,
            modified: self.modified.clone(),
            git: copy_opt(&self.git),
        }
    }
}

/// Listing order: directories first, then by lowercased name.
pub open spec fn entry_le(a: &FileEntry, b: &FileEntry) -> bool {
    (a.is_dir && !b.is_dir) || (a.is_dir == b.is_dir && lex_le(
        unicode_lower(a.name@),
        unicode_lower(b.name@),
    ))
}

impl KeyOrder for FileEntry {
    open spec fn sort_le(&self, other: &Self) -> bool {
        entry_le(self, other)
    }

    fn key_le(&self, other: &Self) -> (r: bool) {
        if self.is_dir != other.is_dir {
            return self.is_dir;
        }
        let a = to_lowercase(self.name.as_str());
        let b = to_lowercase(other.name.as_str());
        let va = chars_of(a.as_str());
        let vb = chars_of(b.as_str());
        lex_le_exec(va.as_slice(), vb.as_slice())
    }

    proof fn lemma_total(a: &Self, b: &Self) {
        lemma_lex_total(unicode_lower(a.name@), unicode_lower(b.name@));
    }

    proof fn lemma_trans(a: &Self, b: &Self, c: &Self) {
        if a.is_dir == b.is_dir && b.is_dir == c.is_dir {
            lemma_lex_trans(unicode_lower(a.name@), unicode_lower(b.name@), unicode_lower(c.name@));
        }
    }
}

/// Shown when hidden files are shown or the name does not start with `.`,
/// and when the lowercased filter is empty or occurs in the lowercased name.
pub open spec fn passes(show_hidden: bool, filter: Seq<char>, e: FileEntry) -> bool {
    (show_hidden || !(e.name@.len() > 0 && e.name@[0] == '.')) && (unicode_lower(filter).len()
        == 0 || contains_seq(unicode_lower(e.name@), unicode_lower(filter)))
}

/// The visible entries of `all`.
pub open spec fn visible(all: Seq<FileEntry>, show_hidden: bool, filter: Seq<char>) -> Seq<
    FileEntry,
> {
    all.filter(|e: FileEntry| passes(show_hidden, filter, e))
}

/// `h` terminal rows less the 4 that frame a pane.
pub open spec fn rows(h: u16) -> int {
    if h >= 4 {
        h - 4
    } else {
        0
    }
}

/// Index of the first entry named `name`.
pub open spec fn position_of(files: Seq<FileEntry>, name: Seq<char>) -> Option<int> {
    if exists|i: int| 0 <= i < files.len() && files[i].name@ == name {
        Some(
            choose|i: int|
                0 <= i < files.len() && files[i].name@ == name && forall|j: int|
                    0 <= j < i ==> files[j].name@ != name,
        )
    } else {
        None
    }
}

pub struct Folder {
    pub path: String,
    /// Entries shown, after the hidden and text filters.
    pub files: Vec<FileEntry>,
    /// All entries of the directory, in listing order.
    pub all_files: Vec<FileEntry>,
    pub cursor: usize,
    pub offset: usize,
    pub show_hidden: bool,
    pub filter: String,
    pub git: Option<GitStatus>,
}

impl Folder {
    /// The entry under the cursor.
    pub open spec fn hovered_spec(&self) -> Option<FileEntry> {
        if self.cursor < self.files@.len() {
            Some(self.files@[self.cursor as int])
        } else {
            None
        }
    }

    /// The cursor is on an entry, or 0 when there is none.
    pub open spec fn wf(&self) -> bool {
        &&& (self.files@.len() == 0 ==> self.cursor == 0)
        &&& (self.files@.len() > 0 ==> self.cursor < self.files@.len())
    }

    /// A folder at `path` before its entries are read.
    pub fn new(path: String) -> (f: Folder)
        ensures
            f.wf(),
            f.path@ == path@,
            f.files@.len() == 0,
            f.all_files@.len() == 0,
            f.cursor == 0,
            f.offset == 0,
            !f.show_hidden,
            f.filter@.len() == 0,
            f.git is None,
    {
        Folder {
            path,
            files: Vec::new(),
            all_files: Vec::new(),
            cursor: 0,
            offset: 0,
            show_hidden: false,
            filter: String::new(),
            git: None,
        }
    }

    /// Takes the entries read from the directory (`None` when it could not be
    /// read): they are sorted, directories first, then by lowercased name; the
    /// cursor and scroll go to the top and the filters are applied.
    pub fn refill(&mut self, listing: Option<Vec<FileEntry>>, git: Option<GitStatus>)
        ensures
            final(self).wf(),
            final(self).all_files@ == (match listing {
                Some(v) => insort(v@),
                None => Seq::<FileEntry>::empty(),
            }),
            sorted(final(self).all_files@),
            final(self).files@ == visible(
                final(self).all_files@,
                old(self).show_hidden,
                old(self).filter@,
            ),
            final(self).cursor == 0,
            final(self).offset == 0,
            final(self).git == git,
            final(self).path == old(self).path,
            final(self).show_hidden == old(self).show_hidden,
            final(self).filter == old(self).filter,
    {
        self.all_files = match listing {
            Some(v) => stable_sort(v),
            None => Vec::new(),
        };
        proof {
            if listing is None {
                assert(sorted(self.all_files@));
            }
        }
        self.cursor = 0;
        self.offset = 0;
        self.git = git;
        self.apply_filter();
    }

    /// Recomputes the shown entries and pulls the cursor and scroll back
    /// into the list.
    pub fn apply_filter(&mut self)
        ensures
            final(self).wf(),
            final(self).files@ == visible(
                old(self).all_files@,
                old(self).show_hidden,
                old(self).filter@,
            ),
            final(self).cursor == (if old(self).cursor >= final(self).files@.len() {
                if final(self).files@.len() == 0 {
                    0
                } else {
                    final(self).files@.len() - 1
                }
            } else {
                old(self).cursor as int
            }),
            final(self).offset == (if old(self).offset > final(self).cursor {
                final(self).cursor
            } else {
                old(self).offset
            }),
            final(self).all_files == old(self).all_files,
            final(self).path == old(self).path,
            final(self).show_hidden == old(self).show_hidden,
            final(self).filter == old(self).filter,
            final(self).git == old(self).git,
    {
        let show_hidden = self.show_hidden;
        let lf = to_lowercase(self.filter.as_str());
        let lfv = chars_of(lf.as_str());
        let ghost pred = |e: FileEntry| passes(show_hidden, self.filter@, e);
        let mut out: Vec<FileEntry> = Vec::new();
        let mut i: usize = 0;
        while i < self.all_files.len()
            invariant
                i <= self.all_files@.len(),
                lfv@ == unicode_lower(self.filter@),
                show_hidden == self.show_hidden,
                pred == (|e: FileEntry| passes(show_hidden, self.filter@, e)),
                out@ == self.all_files@.take(i as int).filter(pred),
            decreases self.all_files@.len() - i,
        {
            let e = &self.all_files[i];
            let hidden = starts_with_dot(e.name.as_str());
            let keep = if !show_hidden && hidden {
                false
            } else if lfv.len() > 0 {
                let ln = to_lowercase(e.name.as_str());
                let lnv = chars_of(ln.as_str());
                contains(lnv.as_slice(), lfv.as_slice())
            } else {
                true
            };
            proof {
                assert(keep == pred(*e));
                reveal(Seq::filter);
                assert(self.all_files@.take(i + 1).drop_last() =~= self.all_files@.take(i as int));
            }
            if keep {
                out.push(e.copy());
            }
            i = i + 1;
        }
        assert(self.all_files@.take(self.all_files@.len() as int) =~= self.all_files@);
        self.files = out;
        if self.cursor >= self.files.len() {
            self.cursor = if self.files.len() == 0 {
                0
            } else {
                self.files.len() - 1
            };
        }
        if self.offset > self.cursor {
            self.offset = self.cursor;
        }
    }

    /// Flips whether dotfiles are shown and refilters.
    pub fn toggle_hidden(&mut self)
        ensures
            final(self).wf(),
            hidden_toggled(*old(self), *final(self)),
    {
        self.show_hidden = !self.show_hidden;
        self.apply_filter();
    }

    /// Sets the text filter; the cursor and scroll go to the top.
    pub fn set_filter(&mut self, filter: String)
        ensures
            final(self).wf(),
            filter_set(*old(self), *final(self), filter@),
    {
        self.filter = filter;
        self.cursor = 0;
        self.offset = 0;
        self.apply_filter();
    }

    /// Removes the text filter.
    pub fn clear_filter(&mut self)
        ensures
            final(self).wf(),
            filter_cleared(*old(self), *final(self)),
    {
        self.filter = String::new();
        self.apply_filter();
    }

    /// Moves to the directory `path` with the entries read there; the text
    /// filter is cleared.
    pub fn load_path(&mut self, path: String, listing: Option<Vec<FileEntry>>, git: Option<GitStatus>)
        ensures
            final(self).wf(),
            final(self).path@ == path@,
            final(self).filter@.len() == 0,
            final(self).all_files@ == (match listing {
                Some(v) => insort(v@),
                None => Seq::<FileEntry>::empty(),
            }),
            final(self).files@ == visible(
                final(self).all_files@,
                old(self).show_hidden,
                Seq::<char>::empty(),
            ),
            final(self).cursor == 0,
            final(self).offset == 0,
            final(self).git == git,
            final(self).show_hidden == old(self).show_hidden,
    {
        self.path = path;
        self.filter = String::new();
        self.refill(listing, git);
    }

    /// The directory above this one, if any.
    pub fn parent_path(&self) -> (r: Option<String>)
        ensures
            match r {
                Some(p) => path_parent(self.path@) == Some(p@),
                None => path_parent(self.path@) is None,
            },
    {
        parent(self.path.as_str())
    }

    /// Moves to the parent directory (with the entries read there) and puts
    /// the cursor on the directory just left, scrolling it into a 20-row view.
    /// At a root it does nothing.
    pub fn parent(&mut self, listing: Option<Vec<FileEntry>>, git: Option<GitStatus>)
        requires
            old(self).wf(),
        ensures
            final(self).wf(),
            match path_parent(old(self).path@) {
                None => *final(self) == *old(self),
                Some(pp) => {
                    &&& final(self).path@ == pp
                    &&& final(self).all_files@ == (match listing {
                        Some(v) => insort(v@),
                        None => Seq::<FileEntry>::empty(),
                    })
                    &&& final(self).files@ == visible(
                        final(self).all_files@,
                        old(self).show_hidden,
                        old(self).filter@,
                    )
                    &&& final(self).git == git
                    &&& final(self).filter == old(self).filter
                    &&& final(self).show_hidden == old(self).show_hidden
                    &&& match path_file_name(old(self).path@) {
                        Some(prev) => match position_of(final(self).files@, prev) {
                            Some(i) => final(self).cursor == i && final(self).offset == (if i
                                >= 20 {
                                i - 19
                            } else {
                                0
                            }),
                            None => final(self).cursor == 0 && final(self).offset == 0,
                        },
                        None => final(self).cursor == 0 && final(self).offset == 0,
                    }
                },
            },
    {
        let pp = match parent(self.path.as_str()) {
            Some(p) => p,
            None => {
                return;
            },
        };
        let prev = file_name(self.path.as_str());
        self.path = pp;
        self.refill(listing, git);
        if let Some(prev_name) = prev {
            if let Some(idx) = self.position(prev_name.as_str()) {
                self.cursor = idx;
                if self.cursor >= 20 {
                    self.offset = self.cursor - 19;
                }
            }
        }
    }

    /// Index of the first shown entry named `name`.
    pub fn position(&self, name: &str) -> (r: Option<usize>)
        ensures
            match r {
                Some(i) => position_of(self.files@, name@) == Some(i as int) && i
                    < self.files@.len(),
                None => position_of(self.files@, name@) is None,
            },
    {
        let mut i: usize = 0;
        while i < self.files.len()
            invariant
                i <= self.files@.len(),
                forall|j: int| 0 <= j < i ==> self.files@[j].name@ != name@,
            decreases self.files@.len() - i,
        {
            if str_eq(self.files[i].name.as_str(), name) {
                proof {
                    let c = choose|c: int|
                        0 <= c < self.files@.len() && self.files@[c].name@ == name@ && forall|
                            j: int,
                        | 0 <= j < c ==> self.files@[j].name@ != name@;
                    assert(0 <= c < self.files@.len() && self.files@[c].name@ == name@ && forall|
                        j: int,
                    | 0 <= j < c ==> self.files@[j].name@ != name@);
                    if c < i {
                        assert(self.files@[c].name@ != name@);
                    }
                    if (i as int) < c {
                        assert(self.files@[i as int].name@ != name@);
                    }
                }
                return Some(i);
            }
            i = i + 1;
        }
        None
    }

    /// Puts the cursor on the first shown entry named `name`, if there is one
    /// (after creating or renaming it).
    pub fn select_name(&mut self, name: &str) -> (found: bool)
        requires
            old(self).wf(),
        ensures
            final(self).wf(),
            found == (position_of(old(self).files@, name@) is Some),
            match position_of(old(self).files@, name@) {
                Some(i) => final(self).cursor == i,
                None => final(self).cursor == old(self).cursor,
            },
            final(self).offset == old(self).offset,
            final(self).files == old(self).files,
            final(self).all_files == old(self).all_files,
            final(self).path == old(self).path,
            final(self).filter == old(self).filter,
            final(self).show_hidden == old(self).show_hidden,
            final(self).git == old(self).git,
    {
        match self.position(name) {
            Some(i) => {
                self.cursor = i;
                true
            },
            None => false,
        }
    }

    /// The hovered directory, which `enter_dir` would move to.
    pub fn dir_to_enter(&self) -> (r: Option<String>)
        ensures
            match r {
                Some(p) => self.cursor < self.files@.len() && self.files@[self.cursor as int].is_dir
                    && p@ == self.files@[self.cursor as int].path@,
                None => !(self.cursor < self.files@.len() && self.files@[self.cursor as int].is_dir),
            },
    {
        if self.cursor < self.files.len() && self.files[self.cursor].is_dir {
            Some(self.files[self.cursor].path.clone())
        } else {
            None
        }
    }

    /// When the hovered entry is a directory, moves into it with the entries
    /// read there and returns `true`; otherwise changes nothing.
    pub fn enter_dir(&mut self, listing: Option<Vec<FileEntry>>, git: Option<GitStatus>) -> (entered: bool)
        requires
            old(self).wf(),
        ensures
            final(self).wf(),
            entered == (old(self).cursor < old(self).files@.len() && old(self).files@[old(
                self,
            ).cursor as int].is_dir),
            !entered ==> *final(self) == *old(self),
            entered ==> {
                &&& final(self).path@ == old(self).files@[old(self).cursor as int].path@
                &&& final(self).all_files@ == (match listing {
                    Some(v) => insort(v@),
                    None => Seq::<FileEntry>::empty(),
                })
                &&& final(self).files@ == visible(
                    final(self).all_files@,
                    old(self).show_hidden,
                    old(self).filter@,
                )
                &&& final(self).cursor == 0
                &&& final(self).offset == 0
                &&& final(self).git == git
                &&& final(self).filter == old(self).filter
                &&& final(self).show_hidden == old(self).show_hidden
            },
    {
        match self.dir_to_enter() {
            Some(p) => {
                self.path = p;
                self.refill(listing, git);
                true
            },
            None => false,
        }
    }

    /// One entry down, scrolling so the cursor stays within `h - 4` rows.
    pub fn cursor_down(&mut self, h: u16)
        requires
            old(self).wf(),
        ensures
            final(self).wf(),
            down_step(*old(self), *final(self), h),
    {
        let h: usize = if h >= 4 {
            (h - 4) as usize
        } else {
            0
        };
        if self.files.len() > 0 && self.cursor < self.files.len() - 1 {
            self.cursor = self.cursor + 1;
            if self.cursor >= self.offset && self.cursor - self.offset >= h {
                self.offset = self.cursor - h + 1;
            }
        }
    }

    /// One entry up, scrolling the cursor into view.
    pub fn cursor_up(&mut self)
        requires
            old(self).wf(),
        ensures
            final(self).wf(),
            up_step(*old(self), *final(self)),
    {
        if self.cursor > 0 {
            self.cursor = self.cursor - 1;
            if self.cursor < self.offset {
                self.offset = self.cursor;
            }
        }
    }

    /// To the first entry.
    pub fn cursor_top(&mut self)
        requires
            old(self).wf(),
        ensures
            final(self).wf(),
            top_step(*old(self), *final(self)),
    {
        self.cursor = 0;
        self.offset = 0;
    }

    /// To the last entry, scrolling it into a 20-row view.
    pub fn cursor_bottom(&mut self)
        requires
            old(self).wf(),
        ensures
            final(self).wf(),
            bottom_step(*old(self), *final(self)),
    {
        self.cursor = if self.files.len() == 0 {
            0
        } else {
            self.files.len() - 1
        };
        if self.cursor >= 20 {
            self.offset = self.cursor - 19;
        }
    }

    /// `h - 4` entries down (stopping at the last), scrolling into view.
    pub fn page_down(&mut self, h: u16)
        requires
            old(self).wf(),
        ensures
            final(self).wf(),
            page_down_step(*old(self), *final(self), h),
    {
        let h: usize = if h >= 4 {
            (h - 4) as usize
        } else {
            0
        };
        let last = if self.files.len() == 0 {
            0
        } else {
            self.files.len() - 1
        };
        self.cursor = if h >= last || self.cursor >= last - h {
            last
        } else {
            self.cursor + h
        };
        if self.cursor >= self.offset && self.cursor - self.offset >= h {
            self.offset = if self.cursor >= h {
                self.cursor - h + 1
            } else {
                1
            };
        }
    }

    /// `h - 4` entries up (stopping at the first), scrolling into view.
    pub fn page_up(&mut self, h: u16)
        requires
            old(self).wf(),
        ensures
            final(self).wf(),
            page_up_step(*old(self), *final(self), h),
    {
        let h: usize = if h >= 4 {
            (h - 4) as usize
        } else {
            0
        };
        self.cursor = if self.cursor >= h {
            self.cursor - h
        } else {
            0
        };
        if self.cursor < self.offset {
            self.offset = self.cursor;
        }
    }

    /// The entry under the cursor.
    pub fn hovered(&self) -> (r: Option<&FileEntry>)
        ensures
            r == (if self.cursor < self.files@.len() {
                Some(&self.files@[self.cursor as int])
            } else {
                None
            }),
    {
        if self.cursor < self.files.len() {
            Some(&self.files[self.cursor])
        } else {
            None
        }
    }

    /// The entries that fit in a pane of `h` rows, from the scroll offset.
    pub fn visible_files(&self, h: u16) -> (r: Vec<FileEntry>)
        requires
            self.offset <= self.files@.len(),
        ensures
            r@ == self.files@.subrange(
                self.offset as int,
                if self.offset + rows(h) < self.files@.len() {
                    self.offset + rows(h)
                } else {
                    self.files@.len() as int
                },
            ),
    {
        let h: usize = if h >= 4 {
            (h - 4) as usize
        } else {
            0
        };
        let end = if h < self.files.len() - self.offset {
            self.offset + h
        } else {
            self.files.len()
        };
        let mut out: Vec<FileEntry> = Vec::new();
        let mut i = self.offset;
        while i < end
            invariant
                self.offset <= i <= end <= self.files@.len(),
                out@ == self.files@.subrange(self.offset as int, i as int),
            decreases end - i,
        {
            out.push(self.files[i].copy());
            proof {
                assert(self.files@.subrange(self.offset as int, i + 1) =~= self.files@.subrange(
                    self.offset as int,
                    i as int,
                ).push(self.files@[i as int]));
            }
            i = i + 1;
        }
        out
    }

    /// Moves the cursor to the next entry (after it, wrapping around) whose
    /// name starts with `c`, compared by lowercase; scrolls it into a 20-row
    /// view. Returns whether one was found.
    pub fn jump_to_char(&mut self, c: char) -> (found: bool)
        requires
            old(self).wf(),
        ensures
            final(self).wf(),
            jumped(*old(self), *final(self), char_lower_head(c), found),
    {
        let needle = lower_head(c);
        let len = self.files.len();
        if len == 0 {
            return false;
        }
        let cur = self.cursor;
        let ghost old_files = self.files@;
        let mut j: usize = 0;
        while j < len
            invariant
                j <= len,
                len == self.files@.len(),
                self.files@ == old_files,
                self == old(self),
                cur == self.cursor,
                cur < len,
                needle == char_lower_head(c),
                forall|k2: int|
                    1 <= k2 <= j ==> !#[trigger] starts_like(
                        old_files[(cur + k2) % (len as int)],
                        needle,
                    ),
            decreases len - j,
        {
            let k = j + 1;
            let idx = if k >= len - cur {
                k - (len - cur)
            } else {
                cur + k
            };
            assert(idx as int == (cur + k) % (len as int)) by {
                if k >= len - cur {
                    assert((cur + k) - len < len);
                    vstd::arithmetic::div_mod::lemma_fundamental_div_mod_converse(
                        (cur + k) as int,
                        len as int,
                        1,
                        (cur + k) - len,
                    );
                } else {
                    vstd::arithmetic::div_mod::lemma_small_mod((cur + k) as nat, len as nat);
                }
            }
            if first_lower_is(&self.files[idx], needle) {
                assert(starts_like(old_files[(cur + k) % (len as int)], needle));
                self.cursor = idx;
                if self.cursor < self.offset {
                    self.offset = self.cursor;
                } else if self.cursor - self.offset >= 20 {
                    self.offset = self.cursor - 19;
                }
                return true;
            }
            j = j + 1;
        }
        false
    }
}

/// The entry's name is nonempty and its first character lowercases (first
/// character of the mapping) to `needle`.
pub open spec fn starts_like(e: FileEntry, needle: char) -> bool {
    e.name@.len() > 0 && char_lower_head(e.name@[0]) == needle
}

fn first_lower_is(e: &FileEntry, needle: char) -> (r: bool)
    ensures
        r == starts_like(*e, needle),
{
    let v = chars_of(e.name.as_str());
    if v.len() == 0 {
        return false;
    }
    lower_head(v[0]) == needle
}

/// The cursor pulled back into a list of `len` entries.
pub open spec fn clamp(cursor: int, len: int) -> int {
    if cursor >= len {
        if len == 0 {
            0
        } else {
            len - 1
        }
    } else {
        cursor
    }
}

/// Whether `s` starts with `.`.
fn starts_with_dot(s: &str) -> (r: bool)
    ensures
        r == (s@.len() > 0 && s@[0] == '.'),
{
    let v = chars_of(s);
    v.len() > 0 && v[0] == '.'
}

// ---------------------------------------------------------------------------
// What each cursor and filter operation makes of a folder
// ---------------------------------------------------------------------------
/// `b` is `a` with the cursor at `cursor` and the scroll at `offset`.
pub open spec fn moved_to(a: Folder, b: Folder, cursor: int, offset: int) -> bool {
    b.cursor == cursor && b.offset == offset && b == Folder { cursor: b.cursor, offset: b.offset, ..a }
}

/// One entry down, scrolling so the cursor stays within `h - 4` rows.
pub open spec fn down_step(a: Folder, b: Folder, h: u16) -> bool {
    if a.cursor + 1 < a.files@.len() {
        let c = a.cursor + 1;
        moved_to(a, b, c, if c >= a.offset + rows(h) { c - rows(h) + 1 } else { a.offset as int })
    } else {
        b == a
    }
}

/// One entry up, scrolling the cursor into view.
pub open spec fn up_step(a: Folder, b: Folder) -> bool {
    if a.cursor > 0 {
        let c = a.cursor - 1;
        moved_to(a, b, c, if c < a.offset { c } else { a.offset as int })
    } else {
        b == a
    }
}

/// To the first entry.
pub open spec fn top_step(a: Folder, b: Folder) -> bool {
    moved_to(a, b, 0, 0)
}

/// To the last entry, scrolling it into a 20-row view.
pub open spec fn bottom_step(a: Folder, b: Folder) -> bool {
    let c = clamp(usize::MAX as int, a.files@.len() as int);
    moved_to(a, b, c, if c >= 20 { c - 19 } else { a.offset as int })
}

/// `h - 4` entries down, stopping at the last, scrolling into view.
pub open spec fn page_down_step(a: Folder, b: Folder, h: u16) -> bool {
    let c = clamp(a.cursor + rows(h), a.files@.len() as int);
    moved_to(
        a,
        b,
        c,
        if c >= a.offset + rows(h) {
            if c >= rows(h) { c - rows(h) + 1 } else { 1 }
        } else {
            a.offset as int
        },
    )
}

/// `h - 4` entries up, stopping at the first, scrolling into view.
pub open spec fn page_up_step(a: Folder, b: Folder, h: u16) -> bool {
    let c = if a.cursor >= rows(h) { a.cursor - rows(h) } else { 0 };
    moved_to(a, b, c, if c < a.offset { c } else { a.offset as int })
}

/// The shown entries recomputed from `a`'s entries with `show_hidden` and
/// `filter`, the cursor and scroll pulled back from `cursor` and `offset`.
pub open spec fn refiltered(a: Folder, b: Folder, show_hidden: bool, filter: Seq<char>, cursor: int, offset: int) -> bool {
    &&& b.files@ == visible(a.all_files@, show_hidden, filter)
    &&& b.show_hidden == show_hidden
    &&& b.filter@ == filter
    &&& b.cursor == clamp(cursor, b.files@.len() as int)
    &&& b.offset == (if offset > b.cursor { b.cursor as int } else { offset })
    &&& b.all_files == a.all_files
    &&& b.path == a.path
    &&& b.git == a.git
}

/// Dotfiles shown when they were not, and hidden when they were.
pub open spec fn hidden_toggled(a: Folder, b: Folder) -> bool {
    refiltered(a, b, !a.show_hidden, a.filter@, a.cursor as int, a.offset as int) && b.filter == a.filter
}

/// The text filter set to `filter`, the cursor and scroll at the top.
pub open spec fn filter_set(a: Folder, b: Folder, filter: Seq<char>) -> bool {
    refiltered(a, b, a.show_hidden, filter, 0, 0)
}

/// The text filter removed.
pub open spec fn filter_cleared(a: Folder, b: Folder) -> bool {
    refiltered(a, b, a.show_hidden, Seq::empty(), a.cursor as int, a.offset as int)
}

/// The cursor at the next entry after it (wrapping around) whose name starts
/// like `needle`, scrolled into a 20-row view; `found` tells whether there
/// was one, and without one nothing moves.
pub open spec fn jumped(a: Folder, b: Folder, needle: char, found: bool) -> bool {
    let n = a.files@.len() as int;
    &&& found == (exists|k: int| 1 <= k <= n && #[trigger] starts_like(a.files@[(a.cursor + k) % n], needle))
    &&& found ==> exists|k: int|
        1 <= k <= n && #[trigger] starts_like(a.files@[(a.cursor + k) % n], needle) && (forall|k2: int|
            1 <= k2 < k ==> !#[trigger] starts_like(a.files@[(a.cursor + k2) % n], needle))
            && moved_to(
            a,
            b,
            (a.cursor + k) % n,
            if (a.cursor + k) % n < a.offset {
                (a.cursor + k) % n
            } else if (a.cursor + k) % n >= a.offset + 20 {
                (a.cursor + k) % n - 19
            } else {
                a.offset as int
            },
        )
    &&& !found ==> b == a
}

/// Toggling dotfiles twice shows what the folder's filters show, and the
/// cursor never leaves the list.
pub proof fn law_hidden_twice(a: Folder, b: Folder, c: Folder)
    requires
        hidden_toggled(a, b),
        hidden_toggled(b, c),
    ensures
        c.show_hidden == a.show_hidden,
        c.filter == a.filter,
        c.files@ == visible(a.all_files@, a.show_hidden, a.filter@),
        c.all_files == a.all_files,
        c.path == a.path,
{
}

/// Setting a text filter and clearing it again shows every entry that the
/// dotfile setting lets through.
pub proof fn law_filter_then_clear(a: Folder, b: Folder, c: Folder, f: Seq<char>)
    requires
        filter_set(a, b, f),
        filter_cleared(b, c),
    ensures
        c.files@ == visible(a.all_files@, a.show_hidden, Seq::empty()),
        c.filter@.len() == 0,
        c.cursor == 0,
        c.all_files == a.all_files,
{
}

} // verus!
