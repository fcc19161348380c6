//! Custom shell commands: parsing, template expansion and quoting.
//! Running the command is the caller's part.

use vstd::prelude::*;
use crate::paths::{path_file_name, file_name};
use crate::text::{
    chars_of, string_of, trim, trim_spec, push_char, push_chars, slice_vec, next_char,
    lemma_next_char, lemma_next_char_hit, lemma_next_char_range,
};

verus! {

/// A parsed shell command.
#[derive(Debug)]
pub struct ShellCmd {
    pub raw: String,
    /// A trailing `&` asked for a detached run.
    pub background: bool,
}

impl ShellCmd {
    pub fn copy(&self) -> (r: ShellCmd)
        ensures
            r == *self,
    {
        ShellCmd { raw: self.raw.clone(), background: self.background }
    }
}

/// The command in `input`: trimmed, with a trailing `&` meaning background.
pub open spec fn parse_spec(input: Seq<char>) -> Option<(Seq<char>, bool)> {
    let s = trim_spec(input);
    if s.len() == 0 {
        None
    } else {
        let (raw, bg) = if s.last() == '&' {
            (trim_spec(s.drop_last()), true)
        } else {
            (s, false)
        };
        if raw.len() == 0 {
            None
        } else {
            Some((raw, bg))
        }
    }
}

/// Parses a shell command; a trailing `&` runs it in the background.
pub fn parse(input: &str) -> (r: Option<ShellCmd>)
    ensures
        match r {
            Some(c) => parse_spec(input@) == Some((c.raw@, c.background)),
            None => parse_spec(input@) is None,
        },
{
    let all = chars_of(input);
    let s = trim(all.as_slice());
    if s.len() == 0 {
        return None;
    }
    let (raw, bg) = if s[s.len() - 1] == '&' {
        let head = slice_vec(s.as_slice(), 0, s.len() - 1);
        assert(head@ =~= s@.drop_last());
        (trim(head.as_slice()), true)
    } else {
        (s, false)
    };
    if raw.len() == 0 {
        return None;
    }
    Some(ShellCmd { raw: string_of(raw.as_slice()), background: bg })
}

/// Characters that need no quoting.
pub open spec fn plain_char(c: char) -> bool {
    ('a' <= c && c <= 'z') || ('A' <= c && c <= 'Z') || ('0' <= c && c <= '9') || c == '_' || c
        == '-' || c == '.' || c == '/' || c == ':' || c == ','
}

/// Each `'` written as `'\''`, for use inside single quotes.
pub open spec fn escape_quotes(s: Seq<char>) -> Seq<char>
    decreases s.len(),
{
    if s.len() == 0 {
        s
    } else {
        escape_quotes(s.drop_last()) + if s.last() == '\'' {
            seq!['\'', '\\', '\'', '\'']
        } else {
            seq![s.last()]
        }
    }
}

/// `s` as one shell word: unchanged when it is nonempty and made of plain
/// characters, else single-quoted.
pub open spec fn quote_spec(s: Seq<char>) -> Seq<char> {
    if s.len() > 0 && forall|i: int| 0 <= i < s.len() ==> plain_char(#[trigger] s[i]) {
        s
    } else {
        seq!['\''] + escape_quotes(s) + seq!['\'']
    }
}

fn is_plain(c: char) -> (r: bool)
    ensures
        r == plain_char(c),
{
    ('a' <= c && c <= 'z') || ('A' <= c && c <= 'Z') || ('0' <= c && c <= '9') || c == '_' || c
        == '-' || c == '.' || c == '/' || c == ':' || c == ','
}

/// Appends `s` quoted as one shell word.
fn push_quoted(out: &mut String, s: &[char])
    ensures
        final(out)@ == old(out)@ + quote_spec(s@),
{
    let mut all_plain = s.len() > 0;
    let mut i: usize = 0;
    while i < s.len()
        invariant
            i <= s@.len(),
            all_plain == (s@.len() > 0 && forall|j: int| 0 <= j < i ==> plain_char(#[trigger] s@[j])),
        decreases s@.len() - i,
    {
        if !is_plain(s[i]) {
            all_plain = false;
        }
        i = i + 1;
    }
    if all_plain {
        push_chars(out, s);
        return;
    }
    push_char(out, '\'');
    let ghost start = out@;
    let mut k: usize = 0;
    while k < s.len()
        invariant
            k <= s@.len(),
            out@ == start + escape_quotes(s@.take(k as int)),
        decreases s@.len() - k,
    {
        let c = s[k];
        if c == '\'' {
            push_char(out, '\'');
            push_char(out, '\\');
            push_char(out, '\'');
            push_char(out, '\'');
        } else {
            push_char(out, c);
        }
        proof {
            assert(s@.take(k + 1).drop_last() =~= s@.take(k as int));
            assert(s@.take(k + 1).last() == c);
            if c == '\'' {
                assert(out@ =~= start + escape_quotes(s@.take(k + 1)));
            } else {
                assert(out@ =~= start + escape_quotes(s@.take(k + 1)));
            }
        }
        k = k + 1;
    }
    assert(s@.take(s@.len() as int) =~= s@);
    push_char(out, '\'');
    assert(out@ =~= old(out)@ + quote_spec(s@));
}

/// Single-quotes `s` for the shell unless it is a nonempty run of
/// characters that need no quoting.
pub fn shell_quote(s: &str) -> (r: String)
    ensures
        r@ == quote_spec(s@),
{
    let v = chars_of(s);
    let mut out = String::new();
    push_quoted(&mut out, v.as_slice());
    out
}

/// The quoted words joined by single spaces.
pub open spec fn join_quoted(paths: Seq<Seq<char>>) -> Seq<char>
    decreases paths.len(),
{
    if paths.len() == 0 {
        Seq::empty()
    } else if paths.len() == 1 {
        quote_spec(paths[0])
    } else {
        join_quoted(paths.drop_last()) + seq![' '] + quote_spec(paths.last())
    }
}

/// What `$f` stands for: the hovered path, quoted (nothing without one).
pub open spec fn hovered_word(hovered: Option<Seq<char>>) -> Seq<char> {
    match hovered {
        Some(p) => quote_spec(p),
        None => Seq::empty(),
    }
}

/// The expansion of `input` from index `i` on.
///
/// `$f` is the hovered path, `$F` its file name, `$d` the current directory,
/// `$@` the selected paths (or the hovered one when none is selected), each
/// quoted; any other `$` stays as it is.
pub open spec fn expand_from(
    input: Seq<char>,
    i: int,
    hovered: Option<Seq<char>>,
    selected: Seq<Seq<char>>,
    cwd: Seq<char>,
) -> Seq<char>
    decreases input.len() - i,
{
    if i < 0 || i >= input.len() {
        Seq::empty()
    } else if input[i] != '$' || i + 1 >= input.len() {
        seq![input[i]] + expand_from(input, i + 1, hovered, selected, cwd)
    } else {
        let c = input[i + 1];
        if c == 'f' {
            hovered_word(hovered) + expand_from(input, i + 2, hovered, selected, cwd)
        } else if c == 'F' {
            (match hovered {
                Some(p) => quote_spec(
                    match path_file_name(p) {
                        Some(n) => n,
                        None => Seq::empty(),
                    },
                ),
                None => Seq::empty(),
            }) + expand_from(input, i + 2, hovered, selected, cwd)
        } else if c == 'd' {
            quote_spec(cwd) + expand_from(input, i + 2, hovered, selected, cwd)
        } else if c == '@' {
            (if selected.len() > 0 {
                join_quoted(selected)
            } else {
                hovered_word(hovered)
            }) + expand_from(input, i + 2, hovered, selected, cwd)
        } else {
            seq!['$'] + expand_from(input, i + 1, hovered, selected, cwd)
        }
    }
}

/// The views of a list of strings.
pub open spec fn views(v: Seq<String>) -> Seq<Seq<char>> {
    v.map_values(|s: String| s@)
}

/// Appends the selected paths, quoted and joined by spaces.
fn push_joined(out: &mut String, selected: &[String])
    ensures
        final(out)@ == old(out)@ + join_quoted(views(selected@)),
{
    let mut k: usize = 0;
    while k < selected.len()
        invariant
            k <= selected@.len(),
            out@ == old(out)@ + join_quoted(views(selected@.take(k as int))),
        decreases selected@.len() - k,
    {
        let ghost before = out@;
        if k > 0 {
            push_char(out, ' ');
        }
        let v = chars_of(selected[k].as_str());
        push_quoted(out, v.as_slice());
        proof {
            let a = views(selected@.take(k + 1));
            assert(a.drop_last() =~= views(selected@.take(k as int)));
            assert(a.last() == selected@[k as int]@);
            if k == 0 {
                assert(a.len() == 1);
                assert(out@ =~= old(out)@ + join_quoted(a));
            } else {
                assert(out@ =~= old(out)@ + join_quoted(a));
            }
        }
        k = k + 1;
    }
    assert(selected@.take(selected@.len() as int) =~= selected@);
}

/// Expands `$f`, `$F`, `$d` and `$@` in a shell command.
pub fn expand(input: &str, hovered: Option<&str>, selected: &[String], cwd: &str) -> (r: String)
    ensures
        r@ == expand_from(
            input@,
            0,
            match hovered {
                Some(h) => Some(h@),
                None => None,
            },
            views(selected@),
            cwd@,
        ),
{
    let ghost hv: Option<Seq<char>> = match hovered {
        Some(h) => Some(h@),
        None => None,
    };
    let ghost sel = views(selected@);
    let s = chars_of(input);
    let cwdv = chars_of(cwd);
    let mut out = String::new();
    let mut i: usize = 0;
    while i < s.len()
        invariant
            i <= s@.len(),
            s@ == input@,
            cwdv@ == cwd@,
            hv == (match hovered {
                Some(h) => Some(h@),
                None => None::<Seq<char>>,
            }),
            sel == views(selected@),
            out@ + expand_from(s@, i as int, hv, sel, cwdv@) == expand_from(
                s@,
                0,
                hv,
                sel,
                cwdv@,
            ),
        decreases s@.len() - i,
    {
        let c = s[i];
        let ghost before = out@;
        if c != '$' || i + 1 >= s.len() {
            push_char(&mut out, c);
            proof {
                assert(before + expand_from(s@, i as int, hv, sel, cwdv@) =~= out@ + expand_from(
                    s@,
                    i + 1,
                    hv,
                    sel,
                    cwdv@,
                ));
            }
            i = i + 1;
        } else {
            let n = s[i + 1];
            if n == 'f' {
                match hovered {
                    Some(p) => {
                        let pv = chars_of(p);
                        push_quoted(&mut out, pv.as_slice());
                    },
                    None => {},
                }
                proof {
                    assert(before + expand_from(s@, i as int, hv, sel, cwdv@) =~= out@
                        + expand_from(s@, i + 2, hv, sel, cwdv@));
                }
                i = i + 2;
            } else if n == 'F' {
                match hovered {
                    Some(p) => {
                        let name = match file_name(p) {
                            Some(nm) => chars_of(nm.as_str()),
                            None => Vec::new(),
                        };
                        push_quoted(&mut out, name.as_slice());
                    },
                    None => {},
                }
                proof {
                    assert(before + expand_from(s@, i as int, hv, sel, cwdv@) =~= out@
                        + expand_from(s@, i + 2, hv, sel, cwdv@));
                }
                i = i + 2;
            } else if n == 'd' {
                push_quoted(&mut out, cwdv.as_slice());
                proof {
                    assert(before + expand_from(s@, i as int, hv, sel, cwdv@) =~= out@
                        + expand_from(s@, i + 2, hv, sel, cwdv@));
                }
                i = i + 2;
            } else if n == '@' {
                if selected.len() > 0 {
                    push_joined(&mut out, selected);
                } else {
                    match hovered {
                        Some(p) => {
                            let pv = chars_of(p);
                            push_quoted(&mut out, pv.as_slice());
                        },
                        None => {},
                    }
                }
                proof {
                    assert(before + expand_from(s@, i as int, hv, sel, cwdv@) =~= out@
                        + expand_from(s@, i + 2, hv, sel, cwdv@));
                }
                i = i + 2;
            } else {
                push_char(&mut out, '$');
                proof {
                    assert(before + expand_from(s@, i as int, hv, sel, cwdv@) =~= out@
                        + expand_from(s@, i + 1, hv, sel, cwdv@));
                }
                i = i + 1;
            }
        }
    }
    assert(out@ =~= out@ + expand_from(s@, i as int, hv, sel, cwdv@));
    out
}

// ---------------------------------------------------------------------------
// How the shell reads a quoted word back
// ---------------------------------------------------------------------------
/// Characters the shell gives a meaning when they stand unquoted in a word:
/// blanks, operators, quoting, expansion, pattern and history characters.
pub open spec fn shell_special(c: char) -> bool {
    c == ' ' || c == '\t' || c == '\n' || c == '|' || c == '&' || c == ';' || c == '<' || c == '>'
        || c == '(' || c == ')' || c == '$' || c == '`' || c == '\\' || c == '"' || c == '\''
        || c == '*' || c == '?' || c == '[' || c == ']' || c == '#' || c == '~' || c == '='
        || c == '%' || c == '{' || c == '}' || c == '!' || c == '^'
}

/// The text a POSIX shell reads from the word `w`: ordinary characters as
/// they are, a single-quoted part literally up to the next `'`, a
/// backslash-escaped character as that character (a backslash-newline is
/// dropped); `None` when an unquoted special character or an unclosed quote
/// makes it something other than one plain word.
pub open spec fn shell_read(w: Seq<char>) -> Option<Seq<char>>
    decreases w.len(),
{
    if w.len() == 0 {
        Some(Seq::empty())
    } else if w[0] == '\'' {
        let j = next_char(w, 1, '\'');
        if j < w.len() {
            proof {
                lemma_next_char_range(w, 1, '\'');
            }
            match shell_read(w.skip(j + 1)) {
                Some(r) => Some(w.subrange(1, j) + r),
                None => None,
            }
        } else {
            None
        }
    } else if w[0] == '\\' {
        if w.len() >= 2 {
            match shell_read(w.skip(2)) {
                Some(r) => if w[1] == '\n' {
                    Some(r)
                } else {
                    Some(seq![w[1]] + r)
                },
                None => None,
            }
        } else {
            None
        }
    } else if shell_special(w[0]) {
        None
    } else {
        match shell_read(w.skip(1)) {
            Some(r) => Some(seq![w[0]] + r),
            None => None,
        }
    }
}

proof fn lemma_read_plain(w: Seq<char>)
    requires
        forall|i: int| 0 <= i < w.len() ==> plain_char(#[trigger] w[i]),
    ensures
        shell_read(w) == Some(w),
    decreases w.len(),
{
    if w.len() > 0 {
        assert(plain_char(w[0]));
        assert forall|i: int| 0 <= i < w.skip(1).len() implies plain_char(#[trigger] w.skip(1)[i]) by {
            assert(w.skip(1)[i] == w[i + 1]);
        }
        lemma_read_plain(w.skip(1));
        assert(seq![w[0]] + w.skip(1) =~= w);
    }
}

proof fn lemma_escape_concat(a: Seq<char>, b: Seq<char>)
    ensures
        escape_quotes(a + b) == escape_quotes(a) + escape_quotes(b),
    decreases b.len(),
{
    if b.len() == 0 {
        assert(a + b =~= a);
        assert(escape_quotes(a) + escape_quotes(b) =~= escape_quotes(a));
    } else {
        lemma_escape_concat(a, b.drop_last());
        assert((a + b).drop_last() =~= a + b.drop_last());
        assert((a + b).last() == b.last());
    }
}

proof fn lemma_escape_no_quote(s: Seq<char>)
    requires
        forall|i: int| 0 <= i < s.len() ==> s[i] != '\'',
    ensures
        escape_quotes(s) == s,
    decreases s.len(),
{
    if s.len() > 0 {
        assert(s[s.len() - 1] != '\'');
        lemma_escape_no_quote(s.drop_last());
        assert(s.drop_last() + seq![s.last()] =~= s);
    }
}

proof fn lemma_escape_len(s: Seq<char>)
    ensures
        escape_quotes(s).len() >= s.len(),
    decreases s.len(),
{
    if s.len() > 0 {
        lemma_escape_len(s.drop_last());
    }
}

proof fn lemma_next_char_before(s: Seq<char>, pos: int, c: char)
    requires
        0 <= pos <= s.len(),
    ensures
        forall|j: int| pos <= j < next_char(s, pos, c) ==> s[j] != c,
    decreases s.len() - pos,
{
    if pos < s.len() && s[pos] != c {
        lemma_next_char_before(s, pos + 1, c);
    }
}

/// Reading back a single-quoted `s` followed by `t`.
proof fn lemma_read_quoted(s: Seq<char>, t: Seq<char>)
    ensures
        shell_read(seq!['\''] + escape_quotes(s) + seq!['\''] + t) == match shell_read(t) {
            Some(r) => Some(s + r),
            None => None,
        },
    decreases s.len(),
{
    let w = seq!['\''] + escape_quotes(s) + seq!['\''] + t;
    let k = next_char(s, 0, '\'');
    lemma_next_char_range(s, 0, '\'');
    lemma_next_char_before(s, 0, '\'');
    if k == s.len() {
        lemma_escape_no_quote(s);
        assert forall|j: int| 1 <= j < 1 + s.len() implies w[j] != '\'' by {
            assert(w[j] == s[j - 1]);
        }
        let n = s.len() as int;
        assert(w[1 + n] == '\'');
        lemma_next_char(w, 1, '\'', 1 + n);
        assert(w.subrange(1, 1 + n) =~= s);
        assert(w.skip(n + 2) =~= t);
        assert(w[0] == '\'');
        assert(w.len() == n + 2 + t.len());
        assert(shell_read(w) == match shell_read(w.skip(n + 2)) {
            Some(r) => Some(w.subrange(1, 1 + n) + r),
            None => None,
        });
    } else {
        lemma_next_char_hit(s, 0, '\'');
        let a = s.take(k);
        let b = s.skip(k + 1);
        assert(s =~= a + seq!['\''] + b);
        lemma_escape_concat(a + seq!['\''], b);
        lemma_escape_concat(a, seq!['\'']);
        assert forall|i: int| 0 <= i < a.len() implies a[i] != '\'' by {
            assert(a[i] == s[i]);
        }
        lemma_escape_no_quote(a);
        assert(seq!['\''].drop_last() =~= Seq::<char>::empty());
        assert(escape_quotes(Seq::<char>::empty()) =~= Seq::<char>::empty());
        assert(escape_quotes(seq!['\'']) =~= escape_quotes(Seq::<char>::empty()) + seq![
            '\'',
            '\\',
            '\'',
            '\'',
        ]);
        assert(escape_quotes(s) =~= a + seq!['\'', '\\', '\'', '\''] + escape_quotes(b));
        assert forall|j: int| 1 <= j < 1 + k implies w[j] != '\'' by {
            assert(w[j] == a[j - 1]);
        }
        assert(w[1 + k] == '\'');
        lemma_next_char(w, 1, '\'', 1 + k);
        assert(w.subrange(1, 1 + k) =~= a);
        let rest = w.skip(k + 2);
        let inner = seq!['\''] + escape_quotes(b) + seq!['\''] + t;
        assert(rest =~= seq!['\\', '\''] + inner);
        assert(rest.skip(2) =~= inner);
        lemma_read_quoted(b, t);
        match shell_read(t) {
            Some(r) => {
                assert(a + (seq!['\''] + (b + r)) =~= s + r);
            },
            None => {},
        }
    }
}

/// Quoting is exact: the shell reads the quoted word back as exactly `s`,
/// as one word (nonempty even for an empty `s`).
pub proof fn law_quote_reads_back(s: Seq<char>)
    ensures
        quote_spec(s).len() > 0,
        shell_read(quote_spec(s)) == Some(s),
{
    if s.len() > 0 && forall|i: int| 0 <= i < s.len() ==> plain_char(#[trigger] s[i]) {
        lemma_read_plain(s);
    } else {
        lemma_read_quoted(s, Seq::empty());
        assert(seq!['\''] + escape_quotes(s) + seq!['\''] + Seq::<char>::empty() =~= quote_spec(s));
        assert(s + Seq::<char>::empty() =~= s);
    }
}

/// A word is left unquoted only when it is nonempty and made of ASCII
/// letters, digits and `_ - . / : ,`; any other character gets it quoted.
pub proof fn law_unquoted_words(s: Seq<char>)
    ensures
        quote_spec(s) == s ==> s.len() > 0 && forall|i: int|
            0 <= i < s.len() ==> ('a' <= #[trigger] s[i] <= 'z') || ('A' <= s[i] <= 'Z') || ('0'
                <= s[i] <= '9') || s[i] == '_' || s[i] == '-' || s[i] == '.' || s[i] == '/' || s[i]
                == ':' || s[i] == ',',
{
    lemma_escape_len(s);
}

} // verus!
