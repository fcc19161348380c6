//! Character-level text utilities shared by the whole library.
//!
//! Strings are reasoned about through their view, a `Seq<char>`.

use vstd::prelude::*;

verus! {

/// The characters of `s`, in order.
pub fn chars_of(s: &str) -> (out: Vec<char>)
    ensures
        out@ == s@,
{
    broadcast use vstd::string::group_string_axioms;

    let mut out: Vec<char> = Vec::new();
    for c in it: s.chars()
        invariant
            out@ == it.seq().take(it.index() as int),
    {
        out.push(c);
    }
    out
}

/// Appends one character to a `String` (std's `String::push`).
#[verifier::external_body]
pub(crate) fn push_char(s: &mut String, c: char)
    ensures
        final(s)@ == old(s)@.push(c),
{
    s.push(c);
}

/// Appends the characters of `v` to `s`.
pub fn push_chars(s: &mut String, v: &[char])
    ensures
        final(s)@ == old(s)@ + v@,
{
    let mut i: usize = 0;
    while i < v.len()
        invariant
            i <= v@.len(),
            s@ == old(s)@ + v@.take(i as int),
        decreases v@.len() - i,
    {
        push_char(s, v[i]);
        proof {
            assert(v@.take(i as int + 1) =~= v@.take(i as int).push(v@[i as int]));
        }
        i = i + 1;
    }
    assert(v@.take(v@.len() as int) =~= v@);
}

/// Appends the characters of `t` to `s`.
pub fn push_str(s: &mut String, t: &str)
    ensures
        final(s)@ == old(s)@ + t@,
{
    let v = chars_of(t);
    push_chars(s, v.as_slice());
}

/// A `String` holding exactly the characters of `v`.
pub fn string_of(v: &[char]) -> (out: String)
    ensures
        out@ == v@,
{
    let mut out = String::new();
    push_chars(&mut out, v);
    out
}

/// A fresh copy of `s`.
pub fn owned(s: &str) -> (out: String)
    ensures
        out@ == s@,
{
    let v = chars_of(s);
    string_of(v.as_slice())
}

/// Equality of two strings, character by character.
pub fn str_eq(a: &str, b: &str) -> (r: bool)
    ensures
        r == (a@ == b@),
{
    let va = chars_of(a);
    let vb = chars_of(b);
    seq_eq(va.as_slice(), vb.as_slice())
}

/// Equality of two character slices.
pub fn seq_eq(a: &[char], b: &[char]) -> (r: bool)
    ensures
        r == (a@ == b@),
{
    if a.len() != b.len() {
        return false;
    }
    let mut i: usize = 0;
    while i < a.len()
        invariant
            a@.len() == b@.len(),
            i <= a@.len(),
            forall|j: int| 0 <= j < i ==> a@[j] == b@[j],
        decreases a@.len() - i,
    {
        if a[i] != b[i] {
            return false;
        }
        i = i + 1;
    }
    assert(a@ =~= b@);
    true
}

// ---------------------------------------------------------------------------
// Prefixes, suffixes and substrings
// ---------------------------------------------------------------------------
pub open spec fn is_prefix(p: Seq<char>, s: Seq<char>) -> bool {
    p.len() <= s.len() && s.subrange(0, p.len() as int) == p
}

pub open spec fn is_suffix(p: Seq<char>, s: Seq<char>) -> bool {
    p.len() <= s.len() && s.subrange(s.len() - p.len(), s.len() as int) == p
}

/// `needle` occurs in `hay` starting at index `i`.
pub open spec fn occurs_at(hay: Seq<char>, needle: Seq<char>, i: int) -> bool {
    0 <= i && i + needle.len() <= hay.len() && hay.subrange(i, i + needle.len()) == needle
}

pub open spec fn contains_seq(hay: Seq<char>, needle: Seq<char>) -> bool {
    exists|i: int| occurs_at(hay, needle, i)
}

/// Whether `needle` occurs in `hay` at index `i` (exec form).
pub fn matches_at(hay: &[char], needle: &[char], i: usize) -> (r: bool)
    ensures
        r == occurs_at(hay@, needle@, i as int),
{
    if i > hay.len() || needle.len() > hay.len() - i {
        return false;
    }
    let mut k: usize = 0;
    while k < needle.len()
        invariant
            i + needle@.len() <= hay.len(),
            k <= needle@.len(),
            forall|j: int| 0 <= j < k ==> hay@[i + j] == needle@[j],
        decreases needle@.len() - k,
    {
        if hay[i + k] != needle[k] {
            assert(hay@.subrange(i as int, i + needle@.len())[k as int] != needle@[k as int]);
            return false;
        }
        k = k + 1;
    }
    assert(hay@.subrange(i as int, i + needle@.len()) =~= needle@);
    true
}

/// The first index at which `needle` occurs in `hay` at or after `from`.
pub fn find_from(hay: &[char], needle: &[char], from: usize) -> (r: Option<usize>)
    ensures
        match r {
            Some(i) => from <= i && occurs_at(hay@, needle@, i as int) && forall|j: int|
                from <= j < i ==> !occurs_at(hay@, needle@, j),
            None => forall|j: int| from <= j ==> !occurs_at(hay@, needle@, j),
        },
{
    let mut i: usize = from;
    while i < hay.len()
        invariant
            from <= i,
            forall|j: int| from <= j < i ==> !occurs_at(hay@, needle@, j),
        decreases hay@.len() - i,
    {
        if matches_at(hay, needle, i) {
            return Some(i);
        }
        i = i + 1;
    }
    if i == hay.len() && matches_at(hay, needle, i) {
        return Some(i);
    }
    assert forall|j: int| from <= j implies !occurs_at(hay@, needle@, j) by {
        if j > hay@.len() {
            assert(j + needle@.len() > hay@.len());
        }
    }
    None
}

/// The first index at which `needle` occurs in `hay`.
pub fn find(hay: &[char], needle: &[char]) -> (r: Option<usize>)
    ensures
        match r {
            Some(i) => occurs_at(hay@, needle@, i as int) && forall|j: int|
                0 <= j < i ==> !occurs_at(hay@, needle@, j),
            None => !contains_seq(hay@, needle@),
        },
{
    find_from(hay, needle, 0)
}

/// The first index at which `needle` occurs in `hay`, if any.
pub open spec fn first_occurrence(hay: Seq<char>, needle: Seq<char>) -> Option<int> {
    if contains_seq(hay, needle) {
        Some(
            choose|i: int|
                occurs_at(hay, needle, i) && forall|j: int| 0 <= j < i ==> !occurs_at(hay, needle, j),
        )
    } else {
        None
    }
}

proof fn lemma_first_occurrence(hay: Seq<char>, needle: Seq<char>, i: int)
    requires
        occurs_at(hay, needle, i),
        forall|j: int| 0 <= j < i ==> !occurs_at(hay, needle, j),
    ensures
        first_occurrence(hay, needle) == Some(i),
{
    let c = choose|c: int|
        occurs_at(hay, needle, c) && forall|j: int| 0 <= j < c ==> !occurs_at(hay, needle, j);
    assert(occurs_at(hay, needle, c) && forall|j: int| 0 <= j < c ==> !occurs_at(hay, needle, j));
    if c < i {
        assert(!occurs_at(hay, needle, c));
    }
    if i < c {
        assert(!occurs_at(hay, needle, i));
    }
}

/// `find` as an `Option` equal to `first_occurrence`.
pub fn find_first(hay: &[char], needle: &[char]) -> (r: Option<usize>)
    ensures
        match r {
            Some(i) => first_occurrence(hay@, needle@) == Some(i as int) && occurs_at(
                hay@,
                needle@,
                i as int,
            ),
            None => first_occurrence(hay@, needle@) is None,
        },
{
    let r = find(hay, needle);
    match r {
        Some(i) => {
            proof {
                lemma_first_occurrence(hay@, needle@, i as int);
            }
        },
        None => {},
    }
    r
}

/// Whether `needle` occurs anywhere in `hay`.
pub fn contains(hay: &[char], needle: &[char]) -> (r: bool)
    ensures
        r == contains_seq(hay@, needle@),
{
    match find(hay, needle) {
        Some(_) => true,
        None => false,
    }
}

pub fn starts_with(s: &[char], p: &[char]) -> (r: bool)
    ensures
        r == is_prefix(p@, s@),
{
    let r = matches_at(s, p, 0);
    r
}

pub fn ends_with(s: &[char], p: &[char]) -> (r: bool)
    ensures
        r == is_suffix(p@, s@),
{
    if p.len() > s.len() {
        return false;
    }
    matches_at(s, p, s.len() - p.len())
}

/// The last index of character `c` in `s`.
pub fn rfind_char(s: &[char], c: char) -> (r: Option<usize>)
    ensures
        match r {
            Some(i) => i < s@.len() && s@[i as int] == c && forall|j: int|
                i < j < s@.len() ==> s@[j] != c,
            None => forall|j: int| 0 <= j < s@.len() ==> s@[j] != c,
        },
{
    let mut i: usize = s.len();
    while i > 0
        invariant
            i <= s@.len(),
            forall|j: int| i <= j < s@.len() ==> s@[j] != c,
        decreases i,
    {
        if s[i - 1] == c {
            return Some(i - 1);
        }
        i = i - 1;
    }
    None
}

/// The first index of character `c` in `s`, at or after `from`.
pub fn find_char_from(s: &[char], c: char, from: usize) -> (r: Option<usize>)
    ensures
        match r {
            Some(i) => from <= i < s@.len() && s@[i as int] == c && forall|j: int|
                from <= j < i ==> s@[j] != c,
            None => forall|j: int| from <= j < s@.len() ==> s@[j] != c,
        },
{
    let mut i: usize = from;
    while i < s.len()
        invariant
            from <= i,
            forall|j: int| from <= j < i ==> s@[j] != c,
        decreases s@.len() - i,
    {
        if s[i] == c {
            return Some(i);
        }
        i = i + 1;
    }
    None
}

/// Whether character `c` occurs in `s`.
pub fn has_char(s: &[char], c: char) -> (r: bool)
    ensures
        r == s@.contains(c),
{
    match find_char_from(s, c, 0) {
        Some(i) => {
            assert(s@[i as int] == c);
            true
        },
        None => false,
    }
}

/// The sub-slice `s[from..to]` as a vector.
pub fn slice_vec(s: &[char], from: usize, to: usize) -> (out: Vec<char>)
    requires
        from <= to <= s@.len(),
    ensures
        out@ == s@.subrange(from as int, to as int),
{
    let mut out: Vec<char> = Vec::new();
    let mut i: usize = from;
    while i < to
        invariant
            from <= i <= to <= s@.len(),
            out@ == s@.subrange(from as int, i as int),
        decreases to - i,
    {
        out.push(s[i]);
        proof {
            assert(s@.subrange(from as int, i + 1) =~= s@.subrange(from as int, i as int).push(
                s@[i as int],
            ));
        }
        i = i + 1;
    }
    out
}

// ---------------------------------------------------------------------------
// Lines and separators
// ---------------------------------------------------------------------------
/// Index of the first `c` at or after `pos`, or `s.len()` when there is none.
pub open spec fn next_char(s: Seq<char>, pos: int, c: char) -> int
    decreases s.len() - pos,
{
    if pos >= s.len() {
        s.len() as int
    } else if s[pos] == c {
        pos
    } else {
        next_char(s, pos + 1, c)
    }
}

/// A line as `str::lines` yields it: a `\r` before the `\n` is dropped.
pub open spec fn strip_cr(l: Seq<char>) -> Seq<char> {
    if l.len() > 0 && l.last() == '\r' {
        l.drop_last()
    } else {
        l
    }
}

pub proof fn lemma_next_char_range(s: Seq<char>, pos: int, c: char)
    requires
        0 <= pos <= s.len(),
    ensures
        pos <= next_char(s, pos, c) <= s.len(),
    decreases s.len() - pos,
{
    if pos < s.len() && s[pos] != c {
        lemma_next_char_range(s, pos + 1, c);
    }
}

pub proof fn lemma_next_char_hit(s: Seq<char>, pos: int, c: char)
    requires
        0 <= pos <= s.len(),
        next_char(s, pos, c) < s.len(),
    ensures
        s[next_char(s, pos, c)] == c,
    decreases s.len() - pos,
{
    if pos < s.len() && s[pos] != c {
        lemma_next_char_hit(s, pos + 1, c);
    }
}

pub proof fn lemma_next_char(s: Seq<char>, pos: int, c: char, r: int)
    requires
        0 <= pos <= r <= s.len(),
        r == s.len() || s[r] == c,
        forall|j: int| pos <= j < r ==> s[j] != c,
    ensures
        next_char(s, pos, c) == r,
    decreases r - pos,
{
    if pos < r {
        lemma_next_char(s, pos + 1, c, r);
    }
}

/// `next_char` computed.
pub fn next_char_exec(s: &[char], pos: usize, c: char) -> (r: usize)
    requires
        pos <= s@.len(),
    ensures
        r as int == next_char(s@, pos as int, c),
        pos <= r <= s@.len(),
{
    match find_char_from(s, c, pos) {
        Some(i) => {
            proof {
                lemma_next_char(s@, pos as int, c, i as int);
            }
            i
        },
        None => {
            proof {
                lemma_next_char(s@, pos as int, c, s@.len() as int);
            }
            s.len()
        },
    }
}

/// The line that starts at `pos`, as `str::lines` yields it.
pub open spec fn line_text(s: Seq<char>, pos: int) -> Seq<char> {
    let e = next_char(s, pos, '\n');
    if e < s.len() {
        strip_cr(s.subrange(pos, e))
    } else {
        s.subrange(pos, s.len() as int)
    }
}

/// The lines of `s` from `pos` on, as `str::lines` yields them.
pub open spec fn lines_from(s: Seq<char>, pos: int) -> Seq<Seq<char>>
    decreases s.len() - pos,
{
    if pos >= s.len() || pos < 0 {
        Seq::empty()
    } else {
        let e = next_char(s, pos, '\n');
        if e < s.len() {
            proof {
                lemma_next_char_range(s, pos, '\n');
            }
            seq![line_text(s, pos)] + lines_from(s, e + 1)
        } else {
            seq![line_text(s, pos)]
        }
    }
}

/// The lines of `s` (`str::lines`).
pub open spec fn lines(s: Seq<char>) -> Seq<Seq<char>> {
    lines_from(s, 0)
}

/// The line starting at `pos` and the index of the newline that ends it (or
/// the length when it is the last line).
pub fn line_at(s: &[char], pos: usize) -> (r: (Vec<char>, usize))
    requires
        pos <= s@.len(),
    ensures
        r.1 as int == next_char(s@, pos as int, '\n'),
        pos <= r.1 <= s@.len(),
        r.0@ == line_text(s@, pos as int),
{
    let e = next_char_exec(s, pos, '\n');
    let raw = slice_vec(s, pos, e);
    if e < s.len() && raw.len() > 0 && raw[raw.len() - 1] == '\r' {
        let l = slice_vec(raw.as_slice(), 0, raw.len() - 1);
        assert(l@ =~= raw@.drop_last());
        (l, e)
    } else {
        (raw, e)
    }
}

// ---------------------------------------------------------------------------
// Whitespace and trimming (std's `char::is_whitespace`, `str::trim`)
// ---------------------------------------------------------------------------
/// The Unicode `White_Space` property, which `char::is_whitespace` tests.
pub open spec fn is_ws(c: char) -> bool {
    let u = c as u32;
    (0x09 <= u <= 0x0d) || u == 0x20 || u == 0x85 || u == 0xa0 || u == 0x1680 || (0x2000 <= u
        <= 0x200a) || u == 0x2028 || u == 0x2029 || u == 0x202f || u == 0x205f || u == 0x3000
}

pub fn is_whitespace(c: char) -> (r: bool)
    ensures
        r == is_ws(c),
{
    let u = c as u32;
    (0x09 <= u && u <= 0x0d) || u == 0x20 || u == 0x85 || u == 0xa0 || u == 0x1680 || (0x2000
        <= u && u <= 0x200a) || u == 0x2028 || u == 0x2029 || u == 0x202f || u == 0x205f || u
        == 0x3000
}

/// Number of leading whitespace characters of `s`.
pub open spec fn lead_ws(s: Seq<char>) -> nat
    decreases s.len(),
{
    if s.len() > 0 && is_ws(s[0]) {
        1 + lead_ws(s.drop_first())
    } else {
        0
    }
}

/// Number of trailing whitespace characters of `s`.
pub open spec fn trail_ws(s: Seq<char>) -> nat
    decreases s.len(),
{
    if s.len() > 0 && is_ws(s.last()) {
        1 + trail_ws(s.drop_last())
    } else {
        0
    }
}

/// `s` without leading whitespace.
pub open spec fn trim_start_spec(s: Seq<char>) -> Seq<char> {
    s.skip(lead_ws(s) as int)
}

/// `s` without trailing whitespace.
pub open spec fn trim_end_spec(s: Seq<char>) -> Seq<char> {
    s.take(s.len() - trail_ws(s))
}

/// `s` without leading and trailing whitespace.
pub open spec fn trim_spec(s: Seq<char>) -> Seq<char> {
    trim_end_spec(trim_start_spec(s))
}

proof fn lemma_lead_ws(s: Seq<char>, i: int)
    requires
        0 <= i <= s.len(),
        forall|j: int| 0 <= j < i ==> is_ws(s[j]),
        i == s.len() || !is_ws(s[i]),
    ensures
        lead_ws(s) == i,
    decreases i,
{
    if i > 0 {
        lemma_lead_ws(s.drop_first(), i - 1);
    }
}

proof fn lemma_trail_ws(s: Seq<char>, i: int)
    requires
        0 <= i <= s.len(),
        forall|j: int| i <= j < s.len() ==> is_ws(s[j]),
        i == 0 || !is_ws(s[i - 1]),
    ensures
        trail_ws(s) == s.len() - i,
    decreases s.len() - i,
{
    if i < s.len() {
        lemma_trail_ws(s.drop_last(), i);
    }
}

/// Index of the first non-whitespace character (or the length).
pub fn trim_start_index(s: &[char]) -> (r: usize)
    ensures
        r == lead_ws(s@),
        r <= s@.len(),
{
    let mut i: usize = 0;
    while i < s.len() && is_whitespace(s[i])
        invariant
            i <= s@.len(),
            forall|j: int| 0 <= j < i ==> is_ws(s@[j]),
        decreases s@.len() - i,
    {
        i = i + 1;
    }
    proof {
        lemma_lead_ws(s@, i as int);
    }
    i
}

/// Index just past the last non-whitespace character (or 0).
pub fn trim_end_index(s: &[char]) -> (r: usize)
    ensures
        r == s@.len() - trail_ws(s@),
{
    let mut i: usize = s.len();
    while i > 0 && is_whitespace(s[i - 1])
        invariant
            i <= s@.len(),
            forall|j: int| i <= j < s@.len() ==> is_ws(s@[j]),
        decreases i,
    {
        i = i - 1;
    }
    proof {
        lemma_trail_ws(s@, i as int);
    }
    i
}

/// `s` with leading and trailing whitespace removed.
pub fn trim(s: &[char]) -> (out: Vec<char>)
    ensures
        out@ == trim_spec(s@),
{
    let a = trim_start_index(s);
    let rest = slice_vec(s, a, s.len());
    assert(rest@ == trim_start_spec(s@));
    let b = trim_end_index(rest.as_slice());
    slice_vec(rest.as_slice(), 0, b)
}

/// `s` with leading whitespace removed.
pub fn trim_start(s: &[char]) -> (out: Vec<char>)
    ensures
        out@ == trim_start_spec(s@),
{
    let a = trim_start_index(s);
    slice_vec(s, a, s.len())
}

// ---------------------------------------------------------------------------
// Case mapping
// ---------------------------------------------------------------------------
/// ASCII lowercase of one character (`char::to_ascii_lowercase`).
pub open spec fn ascii_lower_char(c: char) -> char {
    if 'A' <= c && c <= 'Z' {
        ((c as u32) + 32) as char
    } else {
        c
    }
}

pub open spec fn ascii_lower(s: Seq<char>) -> Seq<char> {
    s.map_values(|c: char| ascii_lower_char(c))
}

pub fn to_ascii_lower_char(c: char) -> (r: char)
    ensures
        r == ascii_lower_char(c),
{
    if 'A' <= c && c <= 'Z' {
        let u: u32 = (c as u32) + 32;
        // the result lies in 'a'..='z'
        let r = char_from_ascii_lower(u);
        r
    } else {
        c
    }
}

/// The character for a code point in `'a'..='z'`.
fn char_from_ascii_lower(u: u32) -> (r: char)
    requires
        97 <= u <= 122,
    ensures
        r == u as char,
{
    // a lookup of the 26 letters keeps the conversion free of casts to char
    let letters = ['a', 'b', 'c', 'd', 'e', 'f', 'g', 'h', 'i', 'j', 'k', 'l', 'm', 'n', 'o', 'p', 'q', 'r', 's', 't', 'u', 'v', 'w', 'x', 'y', 'z'];
    let r = letters[(u - 97) as usize];
    assert(r == u as char) by {
        assert(letters@[(u - 97) as int] == u as char);
    }
    r
}

/// ASCII lowercase of a string (`str::to_ascii_lowercase`).
pub fn to_ascii_lower(s: &[char]) -> (out: Vec<char>)
    ensures
        out@ == ascii_lower(s@),
{
    let mut out: Vec<char> = Vec::new();
    let mut i: usize = 0;
    while i < s.len()
        invariant
            i <= s@.len(),
            out@ == ascii_lower(s@.take(i as int)),
        decreases s@.len() - i,
    {
        out.push(to_ascii_lower_char(s[i]));
        proof {
            assert(ascii_lower(s@.take(i + 1)) =~= ascii_lower(s@.take(i as int)).push(
                ascii_lower_char(s@[i as int]),
            ));
        }
        i = i + 1;
    }
    assert(s@.take(s@.len() as int) =~= s@);
    out
}

/// What std's `str::to_lowercase` returns for a string (full Unicode case
/// mapping, context-sensitive for final sigma).
pub uninterp spec fn unicode_lower(s: Seq<char>) -> Seq<char>;

/// std's `str::to_lowercase`; the contract names its result `unicode_lower`.
#[verifier::external_body]
pub(crate) fn to_lowercase(s: &str) -> (out: String)
    ensures
        out@ == unicode_lower(s@),
{
    s.to_lowercase()
}

/// What `char::to_lowercase(c).next()` yields for `c`, or `c` itself when the
/// lowercase mapping is empty.
pub uninterp spec fn char_lower_head(c: char) -> char;

/// The first character of std's `char::to_lowercase`, or `c` when there is none.
#[verifier::external_body]
pub(crate) fn lower_head(c: char) -> (r: char)
    ensures
        r == char_lower_head(c),
{
    c.to_lowercase().next().unwrap_or(c)
}

// ---------------------------------------------------------------------------
// Lexicographic order by code point (the order of `str`'s `Ord`)
// ---------------------------------------------------------------------------
/// `a` sorts no later than `b`: compared code point by code point, a proper
/// prefix first.
pub open spec fn lex_le(a: Seq<char>, b: Seq<char>) -> bool
    decreases a.len(),
{
    if a.len() == 0 {
        true
    } else if b.len() == 0 {
        false
    } else if (a[0] as int) < (b[0] as int) {
        true
    } else if a[0] == b[0] {
        lex_le(a.drop_first(), b.drop_first())
    } else {
        false
    }
}

pub proof fn lemma_lex_total(a: Seq<char>, b: Seq<char>)
    ensures
        lex_le(a, b) || lex_le(b, a),
    decreases a.len(),
{
    if a.len() > 0 && b.len() > 0 && a[0] == b[0] {
        lemma_lex_total(a.drop_first(), b.drop_first());
    }
}

pub proof fn lemma_lex_trans(a: Seq<char>, b: Seq<char>, c: Seq<char>)
    requires
        lex_le(a, b),
        lex_le(b, c),
    ensures
        lex_le(a, c),
    decreases a.len(),
{
    if a.len() > 0 && b.len() > 0 && c.len() > 0 && a[0] == b[0] && b[0] == c[0] {
        lemma_lex_trans(a.drop_first(), b.drop_first(), c.drop_first());
    }
}

pub proof fn lemma_lex_antisym(a: Seq<char>, b: Seq<char>)
    requires
        lex_le(a, b),
        lex_le(b, a),
    ensures
        a == b,
    decreases a.len(),
{
    if a.len() > 0 && b.len() > 0 {
        lemma_lex_antisym(a.drop_first(), b.drop_first());
        assert(a =~= seq![a[0]] + a.drop_first());
        assert(b =~= seq![b[0]] + b.drop_first());
    }
}

/// `lex_le` on character slices.
pub fn lex_le_exec(a: &[char], b: &[char]) -> (r: bool)
    ensures
        r == lex_le(a@, b@),
{
    let mut i: usize = 0;
    assert(a@.skip(0) =~= a@ && b@.skip(0) =~= b@);
    while i < a.len() && i < b.len()
        invariant
            i <= a@.len(),
            i <= b@.len(),
            a@.take(i as int) == b@.take(i as int),
            lex_le(a@, b@) == lex_le(a@.skip(i as int), b@.skip(i as int)),
        decreases a@.len() - i,
    {
        let x = a[i];
        let y = b[i];
        if x < y {
            return true;
        }
        if x != y {
            return false;
        }
        proof {
            assert(a@.skip(i as int).drop_first() =~= a@.skip(i + 1));
            assert(b@.skip(i as int).drop_first() =~= b@.skip(i + 1));
            assert(a@.take(i + 1) =~= a@.take(i as int).push(x));
            assert(b@.take(i + 1) =~= b@.take(i as int).push(y));
        }
        i = i + 1;
    }
    i == a.len()
}

// ---------------------------------------------------------------------------
// Decimal numerals
// ---------------------------------------------------------------------------
/// The ASCII digit for `d < 10`.
pub open spec fn digit_char(d: nat) -> char {
    (48 + d) as char
}

/// The decimal numeral of `n`, as `format!("{}", n)` writes it.
pub open spec fn dec(n: nat) -> Seq<char>
    decreases n,
{
    if n < 10 {
        seq![digit_char(n)]
    } else {
        dec(n / 10).push(digit_char(n % 10))
    }
}

fn digit(d: u64) -> (r: char)
    requires
        d < 10,
    ensures
        r == digit_char(d as nat),
{
    let digits = ['0', '1', '2', '3', '4', '5', '6', '7', '8', '9'];
    let r = digits[d as usize];
    assert(digits@[d as int] == digit_char(d as nat));
    r
}

/// The decimal numeral of `n`.
pub fn dec_chars(n: u64) -> (out: Vec<char>)
    ensures
        out@ == dec(n as nat),
    decreases n,
{
    if n < 10 {
        let mut v: Vec<char> = Vec::new();
        v.push(digit(n));
        v
    } else {
        let mut v = dec_chars(n / 10);
        v.push(digit(n % 10));
        v
    }
}

/// Appends the decimal numeral of `n` to `s`.
pub fn push_dec(s: &mut String, n: u64)
    ensures
        final(s)@ == old(s)@ + dec(n as nat),
{
    let v = dec_chars(n);
    push_chars(s, v.as_slice());
}

// ---------------------------------------------------------------------------
// Padding and cutting, counted in characters as `format!` widths are
// ---------------------------------------------------------------------------
/// `n` spaces.
pub open spec fn spaces(n: nat) -> Seq<char> {
    Seq::new(n, |i: int| ' ')
}

/// `s` padded with spaces on the right to `w` characters (`{:<w}`).
pub open spec fn pad_right_spec(s: Seq<char>, w: nat) -> Seq<char> {
    if s.len() >= w {
        s
    } else {
        s + spaces((w - s.len()) as nat)
    }
}

/// `s` padded with spaces on the left to `w` characters (`{:>w}`).
pub open spec fn pad_left_spec(s: Seq<char>, w: nat) -> Seq<char> {
    if s.len() >= w {
        s
    } else {
        spaces((w - s.len()) as nat) + s
    }
}

/// Appends `n` spaces.
pub fn push_spaces(s: &mut String, n: usize)
    ensures
        final(s)@ == old(s)@ + spaces(n as nat),
{
    let mut i: usize = 0;
    while i < n
        invariant
            i <= n,
            s@ == old(s)@ + spaces(i as nat),
        decreases n - i,
    {
        push_char(s, ' ');
        proof {
            assert(s@ =~= old(s)@ + spaces((i + 1) as nat));
        }
        i = i + 1;
    }
}

/// `s` padded on the right to `w` characters.
pub fn pad_right(s: &str, w: usize) -> (r: String)
    ensures
        r@ == pad_right_spec(s@, w as nat),
{
    let n = chars_of(s).len();
    let mut r = owned(s);
    if n < w {
        push_spaces(&mut r, w - n);
    }
    r
}

/// `s` padded on the left to `w` characters.
pub fn pad_left(s: &str, w: usize) -> (r: String)
    ensures
        r@ == pad_left_spec(s@, w as nat),
{
    let n = chars_of(s).len();
    let mut r = String::new();
    if n < w {
        push_spaces(&mut r, w - n);
    }
    push_str(&mut r, s);
    proof {
        if n >= w {
            assert(r@ =~= s@);
        }
    }
    r
}

} // verus!
