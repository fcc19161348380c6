//! Bulk rename through an editor: the file handed to the editor, reading
//! back the names, and what to do with each file. Running the editor and
//! renaming are the caller's part.

use vstd::prelude::*;
use crate::paths::{path_file_name, path_parent, path_with_file_name, file_name, parent, with_file_name};
use crate::shell::views;
use crate::app::lemma_views_push;
use crate::text::{
    chars_of, has_char, is_prefix, line_at, lines, lines_from, lemma_next_char_range,
    owned, push_str, seq_eq, string_of, trim, trim_spec, trim_start,
    trim_start_spec,
};

verus! {

/// The file name of `p`, or empty.
pub open spec fn name_or_empty(p: Seq<char>) -> Seq<char> {
    match path_file_name(p) {
        Some(n) => n,
        None => Seq::empty(),
    }
}

/// Each path's name on its own line.
pub open spec fn name_lines(paths: Seq<Seq<char>>) -> Seq<char>
    decreases paths.len(),
{
    if paths.len() == 0 {
        Seq::empty()
    } else {
        name_lines(paths.drop_last()) + name_or_empty(paths.last()) + "\n"@
    }
}

/// The directory named in the header: the first path's parent, or `.`.
pub open spec fn header_dir(paths: Seq<Seq<char>>) -> Seq<char> {
    if paths.len() > 0 {
        match path_parent(paths[0]) {
            Some(d) => d,
            None => "."@,
        }
    } else {
        "."@
    }
}

/// The text given to the editor: two comment lines, then one name per line.
pub open spec fn listing_spec(paths: Seq<Seq<char>>) -> Seq<char> {
    "# bulk rename: edit names below, save & quit. Lines must match count.\n"@ + "# parent: "@
        + header_dir(paths) + "\n"@ + name_lines(paths)
}

/// The text handed to the editor for `paths`.
pub fn listing(paths: &[String]) -> (r: String)
    ensures
        r@ == listing_spec(views(paths@)),
{
    let mut s = owned("# bulk rename: edit names below, save & quit. Lines must match count.\n");
    push_str(&mut s, "# parent: ");
    let dir = if paths.len() > 0 {
        match parent(paths[0].as_str()) {
            Some(d) => d,
            None => owned("."),
        }
    } else {
        owned(".")
    };
    push_str(&mut s, dir.as_str());
    push_str(&mut s, "\n");
    let ghost head = s@;
    let mut i: usize = 0;
    while i < paths.len()
        invariant
            i <= paths@.len(),
            s@ == head + name_lines(views(paths@.take(i as int))),
        decreases paths@.len() - i,
    {
        match file_name(paths[i].as_str()) {
            Some(n) => push_str(&mut s, n.as_str()),
            None => {},
        }
        push_str(&mut s, "\n");
        proof {
            let t = views(paths@.take(i + 1));
            assert(t.drop_last() =~= views(paths@.take(i as int)));
            assert(t.last() == paths@[i as int]@);
            assert(s@ =~= head + name_lines(t));
        }
        i = i + 1;
    }
    assert(paths@.take(paths@.len() as int) =~= paths@);
    s
}

/// A line that names a file: not a comment, not blank.
pub open spec fn is_name_line(l: Seq<char>) -> bool {
    !is_prefix(seq!['#'], trim_start_spec(l)) && trim_spec(l).len() > 0
}

/// The names read back: the lines of `body` that are not comments or blank.
pub open spec fn names_spec(body: Seq<char>) -> Seq<Seq<char>> {
    lines(body).filter(|l: Seq<char>| is_name_line(l))
}

fn is_name_line_exec(l: &[char]) -> (r: bool)
    ensures
        r == is_name_line(l@),
{
    let t = trim_start(l);
    let comment = t.len() > 0 && t[0] == '#';
    assert(comment == is_prefix(seq!['#'], t@)) by {
        if t@.len() > 0 {
            assert(t@.subrange(0, 1) =~= seq![t@[0]]);
            assert(seq![t@[0]][0] == t@[0]);
            assert(seq!['#'][0] == '#');
        }
    }
    let tt = trim(l);
    !comment && tt.len() > 0
}

/// The new names in the edited text.
pub fn new_names(body: &str) -> (r: Vec<String>)
    ensures
        views(r@) == names_spec(body@),
{
    let s = chars_of(body);
    let n = s.len();
    let ghost pred = |l: Seq<char>| is_name_line(l);
    let mut out: Vec<String> = Vec::new();
    let mut pos: usize = 0;
    while pos < n
        invariant
            n == s@.len(),
            pos <= n,
            pred == (|l: Seq<char>| is_name_line(l)),
            views(out@) + lines_from(s@, pos as int).filter(pred) == lines(s@).filter(pred),
        decreases n - pos,
    {
        let (l, e) = line_at(s.as_slice(), pos);
        let ghost rest = if e < n {
            lines_from(s@, e + 1)
        } else {
            Seq::<Seq<char>>::empty()
        };
        let ghost before = views(out@);
        proof {
            lemma_next_char_range(s@, pos as int, '\n');
            assert(lines_from(s@, pos as int) == seq![l@] + rest);
            rest.lemma_filter_prepend(l@, pred);
            assert(seq![l@] + rest =~= rest.insert(0, l@));
        }
        if is_name_line_exec(l.as_slice()) {
            let ghost prev = out@;
            out.push(string_of(l.as_slice()));
            proof {
                assert(out@ =~= prev.push(out@.last()));
                lemma_views_push(prev, out@.last());
            }
        }
        proof {
            assert(views(out@) + rest.filter(pred) =~= before + lines_from(s@, pos as int).filter(
                pred,
            ));
        }
        if e == n {
            pos = n;
        } else {
            pos = e + 1;
        }
    }
    proof {
        assert(lines_from(s@, pos as int).filter(pred) =~= Seq::<Seq<char>>::empty()) by {
            reveal(Seq::filter);
        }
        assert(views(out@) + Seq::<Seq<char>>::empty() =~= views(out@));
    }
    out
}

/// What to do with one file.
pub enum RenameStep {
    /// The name did not change.
    Keep,
    /// The new name holds a `/`.
    Skip,
    /// Rename `src` to `dest` (unless `dest` exists, which the caller checks).
    Rename { src: String, dest: String },
}

/// The edited list does not have one line per file.
#[derive(Debug, Clone, Copy, PartialEq, Eq, Structural)]
pub struct CountMismatch {
    pub expected: usize,
    pub got: usize,
}

/// The step for a file `src` given its new name.
pub open spec fn step_spec(src: Seq<char>, new_name: Seq<char>) -> Option<(Seq<char>, Seq<char>)> {
    if name_or_empty(src) == new_name || new_name.contains('/') {
        None
    } else {
        Some((src, path_with_file_name(src, new_name)))
    }
}

/// The steps for `paths` renamed to `names`, pair by pair; fails unless
/// there is one name per path.
pub fn plan(paths: &[String], names: &[String]) -> (r: Result<Vec<RenameStep>, CountMismatch>)
    ensures
        names@.len() != paths@.len() ==> r == Err::<Vec<RenameStep>, CountMismatch>(
            CountMismatch { expected: paths@.len() as usize, got: names@.len() as usize },
        ),
        names@.len() == paths@.len() ==> (r matches Ok(steps) && steps@.len() == paths@.len()
            && forall|i: int|
            0 <= i < paths@.len() ==> match #[trigger] steps@[i] {
                RenameStep::Keep => name_or_empty(paths@[i]@) == names@[i]@,
                RenameStep::Skip => name_or_empty(paths@[i]@) != names@[i]@ && names@[i]@.contains(
                    '/',
                ),
                RenameStep::Rename { src, dest } => name_or_empty(paths@[i]@) != names@[i]@
                    && !names@[i]@.contains('/') && src@ == paths@[i]@ && dest@ == path_with_file_name(
                    paths@[i]@,
                    names@[i]@,
                ),
            }),
{
    if names.len() != paths.len() {
        return Err(CountMismatch { expected: paths.len(), got: names.len() });
    }
    let mut steps: Vec<RenameStep> = Vec::new();
    let mut i: usize = 0;
    while i < paths.len()
        invariant
            i <= paths@.len(),
            names@.len() == paths@.len(),
            steps@.len() == i,
            forall|j: int|
                0 <= j < i ==> match #[trigger] steps@[j] {
                    RenameStep::Keep => name_or_empty(paths@[j]@) == names@[j]@,
                    RenameStep::Skip => name_or_empty(paths@[j]@) != names@[j]@
                        && names@[j]@.contains('/'),
                    RenameStep::Rename { src, dest } => name_or_empty(paths@[j]@) != names@[j]@
                        && !names@[j]@.contains('/') && src@ == paths@[j]@ && dest@
                        == path_with_file_name(paths@[j]@, names@[j]@),
                },
        decreases paths@.len() - i,
    {
        let old_name = match file_name(paths[i].as_str()) {
            Some(n) => chars_of(n.as_str()),
            None => Vec::new(),
        };
        let nv = chars_of(names[i].as_str());
        let step = if seq_eq(old_name.as_slice(), nv.as_slice()) {
            RenameStep::Keep
        } else if has_char(nv.as_slice(), '/') {
            RenameStep::Skip
        } else {
            RenameStep::Rename {
                src: paths[i].clone(),
                dest: with_file_name(paths[i].as_str(), names[i].as_str()),
            }
        };
        steps.push(step);
        i = i + 1;
    }
    Ok(steps)
}

} // verus!
