//! Git status of a repository, read from `git status --porcelain=v1 --branch`.
//!
//! Running git is the caller's part; this module reads its output.

use vstd::prelude::*;
use crate::text::{
    next_char, next_char_exec, strip_cr, lemma_next_char_range, lemma_next_char_hit,
    chars_of, find_first, first_occurrence, is_prefix, is_ws, slice_vec, starts_with,
    string_of, trim, trim_spec, trim_start, trim_start_spec, is_whitespace, line_at, owned, dec,
    digit_char, lemma_next_char, lead_ws, trail_ws,
};

verus! {

#[derive(Debug)]
pub struct GitStatus {
    pub branch: String,
    pub clean: bool,
    pub modified: usize,
    pub untracked: usize,
    pub staged: usize,
    pub ahead: u32,
    pub behind: u32,
}

/// The mathematical content of a `GitStatus`.
pub struct GitStatusView {
    pub branch: Seq<char>,
    pub clean: bool,
    pub modified: nat,
    pub untracked: nat,
    pub staged: nat,
    pub ahead: nat,
    pub behind: nat,
}

impl View for GitStatus {
    type V = GitStatusView;

    open spec fn view(&self) -> GitStatusView {
        GitStatusView {
            branch: self.branch@,
            clean: self.clean,
            modified: self.modified as nat,
            untracked: self.untracked as nat,
            staged: self.staged as nat,
            ahead: self.ahead as nat,
            behind: self.behind as nat,
        }
    }
}

impl GitStatus {
    /// An identical copy.
    pub fn copy(&self) -> (r: GitStatus)
        ensures
            r == *self,
    {
        GitStatus {
            branch: self.branch.clone(),
            clean: self.clean,
            modified: self.modified,
            untracked: self.untracked,
            staged: self.staged,
            ahead: self.ahead,
            behind: self.behind,
        }
    }

    /// The work tree has changes (staged, modified or untracked files).
    pub fn is_dirty(&self) -> (r: bool)
        ensures
            r == !self.clean,
    {
        !self.clean
    }
}

/// An optional status, copied.
pub fn copy_opt(g: &Option<GitStatus>) -> (r: Option<GitStatus>)
    ensures
        r == *g,
{
    match g {
        Some(s) => Some(s.copy()),
        None => None,
    }
}

// ---------------------------------------------------------------------------
// Specification of the porcelain reader
// ---------------------------------------------------------------------------
/// Value of a run of ASCII digits.
pub open spec fn digits_value(d: Seq<char>) -> nat
    decreases d.len(),
{
    if d.len() == 0 {
        0
    } else {
        digits_value(d.drop_last()) * 10 + ((d.last() as int) - 48) as nat
    }
}

pub open spec fn all_digits(d: Seq<char>) -> bool {
    forall|i: int| 0 <= i < d.len() ==> '0' <= #[trigger] d[i] && d[i] <= '9'
}

/// What `str::parse::<u32>` accepts: an optional `+`, then one or more ASCII
/// digits whose value fits in a `u32`.
pub open spec fn parse_u32(s: Seq<char>) -> Option<nat> {
    let d = if s.len() > 0 && s[0] == '+' {
        s.skip(1)
    } else {
        s
    };
    if d.len() > 0 && all_digits(d) && digits_value(d) <= u32::MAX {
        Some(digits_value(d))
    } else {
        None
    }
}

/// Number of leading non-whitespace characters.
pub open spec fn lead_word(s: Seq<char>) -> nat
    decreases s.len(),
{
    if s.len() > 0 && !is_ws(s[0]) {
        1 + lead_word(s.drop_first())
    } else {
        0
    }
}

/// What `split_whitespace().next()` yields: the first word, if any.
#[verifier::opaque]
pub open spec fn first_word(s: Seq<char>) -> Option<Seq<char>> {
    let t = trim_start_spec(s);
    if t.len() == 0 {
        None
    } else {
        Some(t.take(lead_word(t) as int))
    }
}

/// The part of a branch header before the first `...`.
#[verifier::opaque]
pub open spec fn before_dots(rest: Seq<char>) -> Seq<char> {
    match first_occurrence(rest, seq!['.', '.', '.']) {
        Some(i) => rest.take(i),
        None => rest,
    }
}

/// The branch named by a header line's text after `## `.
#[verifier::opaque]
pub open spec fn header_branch(rest: Seq<char>) -> Seq<char> {
    match first_word(before_dots(rest)) {
        Some(w) => w,
        None => seq!['?'],
    }
}

/// `(ahead, behind)` after reading one comma-separated token of the
/// bracketed part of a header.
#[verifier::opaque]
pub open spec fn token_step(tok: Seq<char>, ab: (nat, nat)) -> (nat, nat) {
    let t = trim_spec(tok);
    if is_prefix(seq!['a', 'h', 'e', 'a', 'd', ' '], t) {
        (
            match parse_u32(t.skip(6)) {
                Some(n) => n,
                None => 0,
            },
            ab.1,
        )
    } else if is_prefix(seq!['b', 'e', 'h', 'i', 'n', 'd', ' '], t) {
        (
            ab.0,
            match parse_u32(t.skip(7)) {
                Some(n) => n,
                None => 0,
            },
        )
    } else {
        ab
    }
}

/// `(ahead, behind)` after reading the tokens of `s` from `pos` on.
#[verifier::opaque]
pub open spec fn tokens_from(s: Seq<char>, pos: int, ab: (nat, nat)) -> (nat, nat)
    decreases s.len() - pos,
{
    if pos > s.len() || pos < 0 {
        ab
    } else {
        let e = next_char(s, pos, ',');
        if e < s.len() {
            proof {
                lemma_next_char_range(s, pos, ',');
            }
            tokens_from(s, e + 1, token_step(s.subrange(pos, e), ab))
        } else {
            token_step(s.subrange(pos, s.len() as int), ab)
        }
    }
}

/// `(ahead, behind)` after reading a header's bracketed part, if it has one.
#[verifier::opaque]
pub open spec fn header_counts(rest: Seq<char>, ab: (nat, nat)) -> (nat, nat) {
    let start = next_char(rest, 0, '[');
    if start < rest.len() {
        // the first ']' after the '['
        let end = next_char(rest, start, ']');
        if end < rest.len() {
            tokens_from(rest.subrange(start + 1, end), 0, ab)
        } else {
            ab
        }
    } else {
        ab
    }
}

/// The status after reading one line.
#[verifier::opaque]
pub open spec fn line_step(line: Seq<char>, st: GitStatusView) -> GitStatusView {
    if is_prefix(seq!['#', '#', ' '], line) {
        let rest = line.skip(3);
        let ab = header_counts(rest, (st.ahead, st.behind));
        GitStatusView { branch: header_branch(rest), ahead: ab.0, behind: ab.1, ..st }
    } else if line.len() == 0 {
        st
    } else {
        let st = GitStatusView { clean: false, ..st };
        // The status code is read as two bytes: a line of one ASCII character
        // is too short; a first character outside ASCII is a multi-byte
        // sequence whose second byte is neither ' ' nor '?'.
        if line.len() == 1 && (line[0] as int) < 128 {
            st
        } else {
            let x = line[0];
            let y_space_or_q = (line[0] as int) < 128 && (line[1] == ' ' || line[1] == '?');
            if x == '?' && (line[0] as int) < 128 && line[1] == '?' {
                GitStatusView { untracked: st.untracked + 1, ..st }
            } else {
                let staged = if x != ' ' && x != '?' {
                    st.staged + 1
                } else {
                    st.staged
                };
                let modified = if !y_space_or_q {
                    st.modified + 1
                } else {
                    st.modified
                };
                GitStatusView { staged: staged, modified: modified, ..st }
            }
        }
    }
}

/// The status after reading the lines of `s` from `pos` on.
pub open spec fn lines_from(s: Seq<char>, pos: int, st: GitStatusView) -> GitStatusView
    decreases s.len() - pos,
{
    if pos >= s.len() || pos < 0 {
        st
    } else {
        let e = next_char(s, pos, '\n');
        if e < s.len() {
            proof {
                lemma_next_char_range(s, pos, '\n');
            }
            lines_from(s, e + 1, line_step(strip_cr(s.subrange(pos, e)), st))
        } else {
            line_step(s.subrange(pos, s.len() as int), st)
        }
    }
}

pub open spec fn initial_status() -> GitStatusView {
    GitStatusView {
        branch: seq!['?'],
        clean: true,
        modified: 0,
        untracked: 0,
        staged: 0,
        ahead: 0,
        behind: 0,
    }
}

/// The status that `git status --porcelain=v1 --branch` output `text` reports.
pub open spec fn porcelain(text: Seq<char>) -> GitStatusView {
    lines_from(text, 0, initial_status())
}

// ---------------------------------------------------------------------------
// Implementation
// ---------------------------------------------------------------------------
/// The value of an ASCII digit.
fn digit_value(c: char) -> (r: u64)
    requires
        '0' <= c && c <= '9',
    ensures
        r as int == (c as int) - 48,
        r < 10,
{
    (c as u32 - 48) as u64
}

proof fn lemma_digits_value_grows(d: Seq<char>, i: int)
    requires
        0 <= i <= d.len(),
    ensures
        digits_value(d.take(i)) <= digits_value(d),
    decreases d.len(),
{
    if i < d.len() {
        assert(d.drop_last().take(i) =~= d.take(i));
        lemma_digits_value_grows(d.drop_last(), i);
    } else {
        assert(d.take(i) =~= d);
    }
}

/// `str::parse::<u32>` of `s`, computed.
pub fn parse_u32_exec(s: &[char]) -> (r: Option<u32>)
    ensures
        match r {
            Some(n) => parse_u32(s@) == Some(n as nat),
            None => parse_u32(s@) is None,
        },
{
    let start: usize = if s.len() > 0 && s[0] == '+' {
        1
    } else {
        0
    };
    let d = slice_vec(s, start, s.len());
    assert(d@ =~= (if s@.len() > 0 && s@[0] == '+' {
        s@.skip(1)
    } else {
        s@
    }));
    let r = parse_digits(d.as_slice());
    r
}

/// One or more ASCII digits whose value fits in a `u32`.
fn parse_digits(d: &[char]) -> (r: Option<u32>)
    ensures
        match r {
            Some(n) => d@.len() > 0 && all_digits(d@) && digits_value(d@) <= u32::MAX && n
                == digits_value(d@),
            None => !(d@.len() > 0 && all_digits(d@) && digits_value(d@) <= u32::MAX),
        },
{
    if d.len() == 0 {
        return None;
    }
    let mut acc: u64 = 0;
    let mut i: usize = 0;
    while i < d.len()
        invariant
            i <= d@.len(),
            acc as nat == digits_value(d@.take(i as int)),
            acc <= u32::MAX,
            all_digits(d@.take(i as int)),
        decreases d@.len() - i,
    {
        let ch = d[i];
        if !('0' <= ch && ch <= '9') {
            assert(!all_digits(d@)) by {
                assert(d@[i as int] == ch);
            }
            return None;
        }
        let dv: u64 = digit_value(ch);
        proof {
            assert(d@.take(i + 1).drop_last() =~= d@.take(i as int));
            assert(d@.take(i + 1).last() == ch);
            assert(all_digits(d@.take(i + 1))) by {
                assert forall|j: int| 0 <= j < i + 1 implies '0' <= #[trigger] d@.take(i + 1)[j]
                    && d@.take(i + 1)[j] <= '9' by {
                    if j < i {
                        assert(d@.take(i + 1)[j] == d@.take(i as int)[j]);
                    }
                }
            }
        }
        acc = acc * 10 + dv;
        if acc > 0xffff_ffff {
            proof {
                lemma_digits_value_grows(d@, i + 1);
            }
            return None;
        }
        i = i + 1;
    }
    assert(d@.take(i as int) =~= d@);
    Some(acc as u32)
}

/// `first_word`, computed.
fn first_word_exec(s: &[char]) -> (r: Option<Vec<char>>)
    ensures
        match r {
            Some(w) => first_word(s@) == Some(w@),
            None => first_word(s@) is None,
        },
{
    reveal(first_word);
    let t = trim_start(s);
    if t.len() == 0 {
        return None;
    }
    let mut k: usize = 0;
    while k < t.len() && !is_whitespace(t[k])
        invariant
            k <= t@.len(),
            forall|j: int| 0 <= j < k ==> !is_ws(t@[j]),
        decreases t@.len() - k,
    {
        k = k + 1;
    }
    proof {
        lemma_lead_word(t@, k as int);
    }
    Some(slice_vec(t.as_slice(), 0, k))
}

proof fn lemma_lead_word(s: Seq<char>, i: int)
    requires
        0 <= i <= s.len(),
        forall|j: int| 0 <= j < i ==> !is_ws(s[j]),
        i == s.len() || is_ws(s[i]),
    ensures
        lead_word(s) == i,
    decreases i,
{
    if i > 0 {
        lemma_lead_word(s.drop_first(), i - 1);
    }
}

/// `token_step`, computed.
fn token_step_exec(tok: &[char], ahead: u32, behind: u32) -> (r: (u32, u32))
    ensures
        (r.0 as nat, r.1 as nat) == token_step(tok@, (ahead as nat, behind as nat)),
{
    reveal(token_step);
    let t = trim(tok);
    let ahead_p = vec!['a', 'h', 'e', 'a', 'd', ' '];
    let behind_p = vec!['b', 'e', 'h', 'i', 'n', 'd', ' '];
    if starts_with(t.as_slice(), ahead_p.as_slice()) {
        let num = slice_vec(t.as_slice(), 6, t.len());
        let n = match parse_u32_exec(num.as_slice()) {
            Some(n) => n,
            None => 0,
        };
        (n, behind)
    } else if starts_with(t.as_slice(), behind_p.as_slice()) {
        let num = slice_vec(t.as_slice(), 7, t.len());
        let n = match parse_u32_exec(num.as_slice()) {
            Some(n) => n,
            None => 0,
        };
        (ahead, n)
    } else {
        (ahead, behind)
    }
}

/// `tokens_from(inside, 0, ..)`, computed.
fn tokens_exec(inside: &[char], ahead: u32, behind: u32) -> (r: (u32, u32))
    ensures
        (r.0 as nat, r.1 as nat) == tokens_from(inside@, 0, (ahead as nat, behind as nat)),
{
    let n = inside.len();
    let mut a = ahead;
    let mut b = behind;
    let mut pos: usize = 0;
    loop
        invariant
            n == inside@.len(),
            pos <= n,
            tokens_from(inside@, pos as int, (a as nat, b as nat)) == tokens_from(
                inside@,
                0,
                (ahead as nat, behind as nat),
            ),
        decreases n - pos,
    {
        let e = next_char_exec(inside, pos, ',');
        let tok = slice_vec(inside, pos, e);
        let ab = token_step_exec(tok.as_slice(), a, b);
        proof {
            reveal_with_fuel(tokens_from, 1);
        }
        a = ab.0;
        b = ab.1;
        if e == n {
            return (a, b);
        }
        pos = e + 1;
    }
}

/// `header_counts`, computed.
fn header_counts_exec(rest: &[char], ahead: u32, behind: u32) -> (r: (u32, u32))
    ensures
        (r.0 as nat, r.1 as nat) == header_counts(rest@, (ahead as nat, behind as nat)),
{
    reveal(header_counts);
    let start = next_char_exec(rest, 0, '[');
    if start == rest.len() {
        return (ahead, behind);
    }
    let end = next_char_exec(rest, start, ']');
    if end == rest.len() {
        return (ahead, behind);
    }
    proof {
        lemma_next_char_range(rest@, 0, '[');
        assert(rest@[start as int] == '[') by {
            lemma_next_char_hit(rest@, 0, '[');
        }
        if end == start {
            lemma_next_char_hit(rest@, start as int, ']');
        }
    }
    let inside = slice_vec(rest, start + 1, end);
    tokens_exec(inside.as_slice(), ahead, behind)
}

/// The branch and counts of a header line's text after `## `.
#[verifier::rlimit(40)]
fn read_header(rest: &[char], ahead: u32, behind: u32) -> (r: (String, u32, u32))
    ensures
        r.0@ == header_branch(rest@),
        (r.1 as nat, r.2 as nat) == header_counts(rest@, (ahead as nat, behind as nat)),
{
    reveal(header_branch);
    reveal(before_dots);
    let dots = vec!['.', '.', '.'];
    let head = match find_first(rest, dots.as_slice()) {
        Some(i) => slice_vec(rest, 0, i),
        None => slice_vec(rest, 0, rest.len()),
    };
    assert(head@ == before_dots(rest@)) by {
        assert(rest@.subrange(0, rest@.len() as int) =~= rest@);
    }
    let branch = match first_word_exec(head.as_slice()) {
        Some(w) => string_of(w.as_slice()),
        None => string_of(&['?']),
    };
    assert(branch@ == header_branch(rest@)) by {
        assert(seq!['?'] =~= seq!['?']);
    }
    let ab = header_counts_exec(rest, ahead, behind);
    (branch, ab.0, ab.1)
}

/// Reads one line into `g` (the line spans `pos..e` of the text).
fn read_line(g: &mut GitStatus, line: &[char], pos: usize, e: usize)
    requires
        line@.len() <= e - pos,
        pos <= e,
        old(g).modified <= pos,
        old(g).staged <= pos,
        old(g).untracked <= pos,
    ensures
        final(g)@ == line_step(line@, old(g)@),
        final(g).modified <= old(g).modified + line@.len(),
        final(g).staged <= old(g).staged + line@.len(),
        final(g).untracked <= old(g).untracked + line@.len(),
{
    reveal(line_step);
    let hdr = vec!['#', '#', ' '];
    if starts_with(line, hdr.as_slice()) {
        let rest = slice_vec(line, 3, line.len());
        let h = read_header(rest.as_slice(), g.ahead, g.behind);
        g.branch = h.0;
        g.ahead = h.1;
        g.behind = h.2;
        return;
    }
    if line.len() == 0 {
        return;
    }
    g.clean = false;
    let c0 = line[0];
    let ascii0 = c0 < '\u{80}';
    if line.len() == 1 && ascii0 {
        return;
    }
    let y_space_or_q = ascii0 && (line[1] == ' ' || line[1] == '?');
    if c0 == '?' && ascii0 && line[1] == '?' {
        g.untracked = g.untracked + 1;
    } else {
        if c0 != ' ' && c0 != '?' {
            g.staged = g.staged + 1;
        }
        if !y_space_or_q {
            g.modified = g.modified + 1;
        }
    }
}

/// Reads the output of `git status --porcelain=v1 --branch`: the branch and
/// its distance from upstream from the `## ` header, and the counts of
/// staged, modified and untracked entries from the status lines.
pub fn parse_porcelain(text: &str) -> (r: Option<GitStatus>)
    ensures
        r matches Some(g) && g@ == porcelain(text@),
{
    let s = chars_of(text);
    let n = s.len();
    let mut g = GitStatus {
        branch: owned("?"),
        clean: true,
        modified: 0,
        untracked: 0,
        staged: 0,
        ahead: 0,
        behind: 0,
    };
    assert(g@ == initial_status()) by {
        reveal_strlit("?");
        assert("?"@ =~= seq!['?']);
    }
    let mut pos: usize = 0;
    while pos < n
        invariant
            pos <= n,
            n == s@.len(),
            s@ == text@,
            lines_from(s@, pos as int, g@) == porcelain(text@),
            g.modified <= pos,
            g.staged <= pos,
            g.untracked <= pos,
        decreases n - pos,
    {
        let (line, e) = line_at(s.as_slice(), pos);
        proof {
            lemma_next_char_range(s@, pos as int, '\n');
        }
        if e < n {
            read_line(&mut g, line.as_slice(), pos, e);
            pos = e + 1;
        } else {
            read_line(&mut g, line.as_slice(), pos, e);
            pos = n;
        }
    }
    Some(g)
}

// ---------------------------------------------------------------------------
// What the bracketed counts of a header say
// ---------------------------------------------------------------------------
proof fn lemma_dec_digits(n: nat)
    ensures
        dec(n).len() > 0,
        all_digits(dec(n)),
        digits_value(dec(n)) == n,
    decreases n,
{
    let c = digit_char(n % 10);
    assert(c as int == 48 + n % 10);
    if n < 10 {
        assert(dec(n) =~= seq![c]);
        assert(seq![c].drop_last() =~= Seq::<char>::empty());
        assert(digits_value(Seq::<char>::empty()) == 0);
    } else {
        lemma_dec_digits(n / 10);
        let d = dec(n);
        assert(d.drop_last() =~= dec(n / 10));
        assert(d.last() == c);
        assert(digits_value(d) == digits_value(dec(n / 10)) * 10 + (n % 10));
        assert forall|i: int| 0 <= i < d.len() implies '0' <= #[trigger] d[i] && d[i] <= '9' by {
            if i < d.len() - 1 {
                assert(d[i] == dec(n / 10)[i]);
            }
        }
    }
}

/// `N` written in decimal parses back as `N`.
proof fn lemma_parse_dec(n: u32)
    ensures
        parse_u32(dec(n as nat)) == Some(n as nat),
{
    lemma_dec_digits(n as nat);
    assert('0' <= dec(n as nat)[0] && dec(n as nat)[0] <= '9');
}

/// A token `word N` read as its own trimmed text.
proof fn lemma_count_token(word: Seq<char>, n: u32)
    requires
        word.len() > 0,
        !is_ws(word[0]),
    ensures
        trim_spec(word + dec(n as nat)) == word + dec(n as nat),
{
    let t = word + dec(n as nat);
    lemma_dec_digits(n as nat);
    assert(t[0] == word[0]);
    assert(lead_ws(t) == 0);
    assert(t.skip(0) =~= t);
    let last = t.last();
    assert(last == dec(n as nat)[dec(n as nat).len() - 1]);
    assert('0' <= last && last <= '9');
    assert(!is_ws(last));
    assert(trail_ws(t) == 0);
    assert(t.take(t.len() as int) =~= t);
}

/// A `behind N` token sets the count behind to `N` and keeps the count
/// ahead, whatever both were before.
pub proof fn law_behind_token(tok: Seq<char>, ab: (nat, nat), n: u32)
    requires
        trim_spec(tok) == seq!['b', 'e', 'h', 'i', 'n', 'd', ' '] + dec(n as nat),
    ensures
        token_step(tok, ab) == (ab.0, n as nat),
{
    reveal(token_step);
    let t = trim_spec(tok);
    lemma_parse_dec(n);
    assert(t[0] == 'b');
    assert(!is_prefix(seq!['a', 'h', 'e', 'a', 'd', ' '], t)) by {
        if is_prefix(seq!['a', 'h', 'e', 'a', 'd', ' '], t) {
            assert(t.subrange(0, 6)[0] == t[0]);
        }
    }
    assert(t.subrange(0, 7) =~= seq!['b', 'e', 'h', 'i', 'n', 'd', ' ']);
    assert(t.skip(7) =~= dec(n as nat));
}

/// An `ahead N` token sets the count ahead to `N` and keeps the count
/// behind, whatever both were before.
pub proof fn law_ahead_token(tok: Seq<char>, ab: (nat, nat), n: u32)
    requires
        trim_spec(tok) == seq!['a', 'h', 'e', 'a', 'd', ' '] + dec(n as nat),
    ensures
        token_step(tok, ab) == (n as nat, ab.1),
{
    reveal(token_step);
    let t = trim_spec(tok);
    lemma_parse_dec(n);
    assert(t.subrange(0, 6) =~= seq!['a', 'h', 'e', 'a', 'd', ' ']);
    assert(t.skip(6) =~= dec(n as nat));
}

/// A lone branch header `## B[behind N]` (`B` naming the branch and its
/// upstream, without `[` or line breaks) reports `N` commits behind and
/// none ahead.
#[verifier::rlimit(100)]
pub proof fn law_behind_header(b: Seq<char>, n: u32)
    requires
        forall|i: int| 0 <= i < b.len() ==> #[trigger] b[i] != '[' && b[i] != '\n',
    ensures
        ({
            let st = porcelain(
                seq!['#', '#', ' '] + b + seq!['[', 'b', 'e', 'h', 'i', 'n', 'd', ' '] + dec(
                    n as nat,
                ) + seq![']', '\n'],
            );
            st.behind == n && st.ahead == 0
        }),
{
    reveal(line_step);
    reveal(header_counts);
    reveal(tokens_from);
    lemma_dec_digits(n as nat);
    let d = dec(n as nat);
    let word = seq!['b', 'e', 'h', 'i', 'n', 'd', ' '];
    let inside = word + d;
    let rest = b + seq!['['] + inside + seq![']'];
    let line = seq!['#', '#', ' '] + rest;
    let text = line + seq!['\n'];
    assert(text =~= seq!['#', '#', ' '] + b + seq!['[', 'b', 'e', 'h', 'i', 'n', 'd', ' '] + d
        + seq![']', '\n']);
    // The text is one line.
    assert forall|j: int| 0 <= j < line.len() implies text[j] != '\n' by {
        if 3 <= j < 3 + b.len() {
            assert(text[j] == b[j - 3]);
        } else if 4 + b.len() + 7 <= j < 4 + b.len() + 7 + d.len() {
            assert(text[j] == d[j - 4 - b.len() - 7]);
        }
    }
    lemma_next_char(text, 0, '\n', line.len() as int);
    assert(text.subrange(0, line.len() as int) =~= line);
    assert(strip_cr(line) == line);
    // The header's bracketed part is `behind N`.
    assert(is_prefix(seq!['#', '#', ' '], line)) by {
        assert(line.subrange(0, 3) =~= seq!['#', '#', ' ']);
    }
    assert(line.skip(3) =~= rest);
    assert forall|j: int| 0 <= j < b.len() implies rest[j] != '[' by {
        assert(rest[j] == b[j]);
    }
    lemma_next_char(rest, 0, '[', b.len() as int);
    let start = b.len() as int;
    let end = start + 1 + inside.len();
    assert forall|j: int| start <= j < end implies rest[j] != ']' by {
        if start + 8 <= j {
            assert(rest[j] == d[j - start - 8]);
        }
    }
    lemma_next_char(rest, start, ']', end);
    assert(rest.subrange(start + 1, end) =~= inside);
    assert forall|j: int| 0 <= j < inside.len() implies inside[j] != ',' by {
        if 7 <= j {
            assert(inside[j] == d[j - 7]);
        }
    }
    lemma_next_char(inside, 0, ',', inside.len() as int);
    assert(inside.subrange(0, inside.len() as int) =~= inside);
    lemma_count_token(word, n);
    law_behind_token(inside, (0, 0), n);
    assert(header_counts(rest, (0, 0)) == (0nat, n as nat));
    let st1 = line_step(line, initial_status());
    assert(st1.behind == n && st1.ahead == 0);
    let e = line.len() as int;
    assert(next_char(text, 0, '\n') == e);
    assert(lines_from(text, e + 1, st1) == st1);
    assert(lines_from(text, 0, initial_status()) == lines_from(
        text,
        e + 1,
        line_step(strip_cr(text.subrange(0, e)), initial_status()),
    ));
}

} // verus!
