//! The one-line input bar: its text, its cursor, and the create-command syntax.

use vstd::prelude::*;
use crate::text::{chars_of, string_of, rfind_char, trim, trim_spec, is_prefix, starts_with, slice_vec};

verus! {

#[derive(Debug, Clone, Copy, PartialEq, Eq, Structural)]
pub enum InputAction {
    Rename,
    /// f=name / d=name / name
    Create,
    Search,
    /// one-character jump
    JumpToChar,
    /// create a .tar.gz
    Archive,
    /// shell command ($f, $@, $d; trailing & runs it in the background)
    Shell,
    /// go to a path
    Teleport,
    /// chmod the hovered or selected files
    Chmod,
    /// extract an archive into the current directory
    ExtractHere,
    /// extract an archive into a given path
    ExtractTo,
    /// menu of extract options
    Extract,
}

pub struct Input {
    pub active: bool,
    pub action: InputAction,
    pub buffer: String,
    pub prompt: String,
    /// Cursor, counted in characters.
    pub cursor: usize,
}

/// Where edits happen: the cursor, or the end when the cursor is past it.
pub open spec fn edit_pos(cursor: usize, buf: Seq<char>) -> int {
    if cursor < buf.len() {
        cursor as int
    } else {
        buf.len() as int
    }
}

/// Where the stem of a file name ends: at the last `.` when that is not the
/// first character, else at the end.
pub open spec fn stem_end(name: Seq<char>) -> int {
    if exists|i: int|
        0 < i < name.len() && name[i] == '.' && forall|j: int| i < j < name.len() ==> name[j] != '.' {
        choose|i: int|
            0 < i < name.len() && name[i] == '.' && forall|j: int| i < j < name.len() ==> name[j] != '.'
    } else {
        name.len() as int
    }
}

impl Default for Input {
    fn default() -> (r: Self)
        ensures
            !r.active,
            r.action == InputAction::Search,
            r.buffer@.len() == 0,
            r.prompt@.len() == 0,
            r.cursor == 0,
    {
        Input {
            active: false,
            action: InputAction::Search,
            buffer: String::new(),
            prompt: String::new(),
            cursor: 0,
        }
    }
}

impl Input {
    /// Opens the bar for `action` with `prefill`, the cursor at its end.
    pub fn open(&mut self, action: InputAction, prompt: String, prefill: String)
        ensures
            final(self).active,
            final(self).action == action,
            final(self).prompt@ == prompt@,
            final(self).buffer@ == prefill@,
            final(self).cursor == prefill@.len(),
    {
        let n = chars_of(prefill.as_str()).len();
        self.active = true;
        self.action = action;
        self.prompt = prompt;
        self.cursor = n;
        self.buffer = prefill;
    }

    /// Like `open`, with the cursor just before the extension: before the last
    /// `.` when it is not the first character, else at the end.
    pub fn open_before_ext(&mut self, action: InputAction, prompt: String, prefill: String)
        ensures
            final(self).active,
            final(self).action == action,
            final(self).prompt@ == prompt@,
            final(self).buffer@ == prefill@,
            final(self).cursor == stem_end(prefill@),
    {
        let v = chars_of(prefill.as_str());
        let cursor = match rfind_char(v.as_slice(), '.') {
            Some(i) if i > 0 => i,
            _ => v.len(),
        };
        proof {
            let p = prefill@;
            if cursor < p.len() {
                let c = choose|i: int|
                    0 < i < p.len() && p[i] == '.' && forall|j: int| i < j < p.len() ==> p[j] != '.';
                assert(0 < c < p.len() && p[c] == '.' && forall|j: int| c < j < p.len() ==> p[j] != '.');
                if c < cursor {
                    assert(p[cursor as int] == '.');
                }
                if cursor < c {
                    assert(p[c] != '.');
                }
            } else {
                assert forall|i: int| 0 < i < p.len() && p[i] == '.' implies exists|j: int|
                    i < j < p.len() && p[j] == '.' by {
                    // the last '.' is at index 0 or there is none
                }
            }
        }
        self.active = true;
        self.action = action;
        self.prompt = prompt;
        self.buffer = prefill;
        self.cursor = cursor;
    }

    /// Closes the bar and empties it.
    pub fn close(&mut self)
        ensures
            closed(*old(self), *final(self)),
    {
        self.active = false;
        self.buffer = String::new();
        self.prompt = String::new();
        self.cursor = 0;
    }

    /// Types `c` at the cursor.
    pub fn insert(&mut self, c: char)
        requires
            old(self).cursor < usize::MAX,
        ensures
            typed(*old(self), *final(self), c),
    {
        let mut v = chars_of(self.buffer.as_str());
        let p = if self.cursor < v.len() {
            self.cursor
        } else {
            v.len()
        };
        v.insert(p, c);
        self.buffer = string_of(v.as_slice());
        self.cursor = self.cursor + 1;
    }

    /// Deletes the character before the cursor.
    pub fn backspace(&mut self)
        ensures
            backspaced(*old(self), *final(self)),
    {
        if self.cursor == 0 {
            return;
        }
        self.cursor = self.cursor - 1;
        let mut v = chars_of(self.buffer.as_str());
        if self.cursor < v.len() {
            v.remove(self.cursor);
            self.buffer = string_of(v.as_slice());
        }
    }

    /// Deletes the character under the cursor.
    pub fn delete(&mut self)
        ensures
            deleted(*old(self), *final(self)),
    {
        let mut v = chars_of(self.buffer.as_str());
        if self.cursor < v.len() {
            v.remove(self.cursor);
            self.buffer = string_of(v.as_slice());
        }
    }

    pub fn move_left(&mut self)
        ensures
            moved_left(*old(self), *final(self)),
    {
        if self.cursor > 0 {
            self.cursor = self.cursor - 1;
        }
    }

    pub fn move_right(&mut self)
        ensures
            moved_right(*old(self), *final(self)),
    {
        let max = chars_of(self.buffer.as_str()).len();
        if self.cursor < max {
            self.cursor = self.cursor + 1;
        }
    }

    pub fn move_home(&mut self)
        ensures
            *final(self) == (Input { cursor: 0, ..*old(self) }),
    {
        self.cursor = 0;
    }

    pub fn move_end(&mut self)
        ensures
            *final(self) == (Input { cursor: final(self).cursor, ..*old(self) }),
            final(self).cursor == old(self).buffer@.len(),
    {
        self.cursor = chars_of(self.buffer.as_str()).len();
    }
}

// ---------------------------------------------------------------------------
// What each edit makes of the bar
// ---------------------------------------------------------------------------
/// The bar closed and emptied; its action stays.
pub open spec fn closed(i: Input, j: Input) -> bool {
    &&& j == (Input { active: false, buffer: j.buffer, prompt: j.prompt, cursor: 0, ..i })
    &&& j.buffer@.len() == 0
    &&& j.prompt@.len() == 0
}

/// `c` typed at the cursor.
pub open spec fn typed(i: Input, j: Input, c: char) -> bool {
    &&& j == (Input { buffer: j.buffer, cursor: j.cursor, ..i })
    &&& j.buffer@ == i.buffer@.insert(edit_pos(i.cursor, i.buffer@), c)
    &&& j.cursor == i.cursor + 1
}

/// The character before the cursor deleted.
pub open spec fn backspaced(i: Input, j: Input) -> bool {
    &&& j == (Input { buffer: j.buffer, cursor: j.cursor, ..i })
    &&& i.cursor == 0 ==> j.buffer == i.buffer && j.cursor == 0
    &&& i.cursor > 0 ==> {
        &&& j.cursor == i.cursor - 1
        &&& j.buffer@ == (if (j.cursor as int) < i.buffer@.len() {
            i.buffer@.remove(j.cursor as int)
        } else {
            i.buffer@
        })
    }
}

/// The character under the cursor deleted.
pub open spec fn deleted(i: Input, j: Input) -> bool {
    &&& j == (Input { buffer: j.buffer, ..i })
    &&& j.buffer@ == (if (i.cursor as int) < i.buffer@.len() {
        i.buffer@.remove(i.cursor as int)
    } else {
        i.buffer@
    })
}

/// The cursor one character left, if it can go.
pub open spec fn moved_left(i: Input, j: Input) -> bool {
    j == (Input { cursor: (if i.cursor > 0 { (i.cursor - 1) as usize } else { 0 }), ..i })
}

/// The cursor one character right, if it can go.
pub open spec fn moved_right(i: Input, j: Input) -> bool {
    j == (Input {
        cursor: (if (i.cursor as int) < i.buffer@.len() { (i.cursor + 1) as usize } else { i.cursor }),
        ..i
    })
}

/// `s` without trailing `/` characters.
pub open spec fn trim_slashes_end(s: Seq<char>) -> Seq<char>
    decreases s.len(),
{
    if s.len() > 0 && s.last() == '/' {
        trim_slashes_end(s.drop_last())
    } else {
        s
    }
}

/// The meaning of a create command: `Some((is_dir, name))`, or `None` when
/// it names nothing.
pub open spec fn create_spec(input: Seq<char>) -> Option<(bool, Seq<char>)> {
    let s = trim_spec(input);
    if s.len() == 0 {
        None
    } else if is_prefix(seq!['d', '='], s) {
        let name = trim_slashes_end(trim_spec(s.skip(2)));
        if name.len() == 0 {
            None
        } else {
            Some((true, name))
        }
    } else if is_prefix(seq!['f', '='], s) {
        let name = trim_spec(s.skip(2));
        if name.len() == 0 {
            None
        } else {
            Some((false, name))
        }
    } else if s.last() == '/' {
        let name = s.drop_last();
        if name.len() == 0 {
            None
        } else {
            Some((true, name))
        }
    } else {
        Some((false, s))
    }
}

/// Parses a create command into `(is_dir, name)`:
/// `d=foo` and `foo/` make a directory, `f=foo` and `foo` a file.
pub fn parse_create(input: &str) -> (r: Option<(bool, String)>)
    ensures
        match r {
            Some((d, n)) => create_spec(input@) == Some((d, n@)),
            None => create_spec(input@) is None,
        },
{
    let all = chars_of(input);
    let s = trim(all.as_slice());
    if s.len() == 0 {
        return None;
    }
    let dp = vec!['d', '='];
    let fp = vec!['f', '='];
    if starts_with(s.as_slice(), dp.as_slice()) {
        let rest = slice_vec(s.as_slice(), 2, s.len());
        let t = trim(rest.as_slice());
        let mut k = t.len();
        assert(t@.take(k as int) =~= t@);
        while k > 0 && t[k - 1] == '/'
            invariant
                k <= t@.len(),
                trim_slashes_end(t@.take(k as int)) == trim_slashes_end(t@),
            decreases k,
        {
            proof {
                assert(t@.take(k as int).drop_last() =~= t@.take(k - 1));
            }
            k = k - 1;
        }
        assert(trim_slashes_end(t@.take(k as int)) == t@.take(k as int));
        if k == 0 {
            return None;
        }
        let name = slice_vec(t.as_slice(), 0, k);
        return Some((true, string_of(name.as_slice())));
    }
    if starts_with(s.as_slice(), fp.as_slice()) {
        let rest = slice_vec(s.as_slice(), 2, s.len());
        let t = trim(rest.as_slice());
        if t.len() == 0 {
            return None;
        }
        return Some((false, string_of(t.as_slice())));
    }
    if s[s.len() - 1] == '/' {
        if s.len() == 1 {
            return None;
        }
        let name = slice_vec(s.as_slice(), 0, s.len() - 1);
        return Some((true, string_of(name.as_slice())));
    }
    Some((false, string_of(s.as_slice())))
}

/// Typing a character and deleting it with backspace gives back the text
/// and the cursor as they were.
pub proof fn law_type_then_backspace(i: Input, j: Input, k: Input, c: char)
    requires
        i.cursor <= i.buffer@.len(),
        typed(i, j, c),
        backspaced(j, k),
    ensures
        k.buffer@ == i.buffer@,
        k.cursor == i.cursor,
        k == (Input { buffer: k.buffer, ..i }),
{
    assert(i.buffer@.insert(i.cursor as int, c).remove(i.cursor as int) =~= i.buffer@);
}

} // verus!
