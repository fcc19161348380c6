//! Which directories to watch for changes, and which changes call for
//! reading them again. Watching is the caller's part.

use vstd::prelude::*;
use crate::app::{App, cur};
use crate::shell::views;
use crate::text::str_eq;

verus! {

/// The directories being watched, each once.
pub struct WatchList {
    pub watched: Vec<String>,
}

impl WatchList {
    /// No directory is watched twice.
    pub open spec fn wf(&self) -> bool {
        views(self.watched@).no_duplicates()
    }

    pub fn new() -> (w: WatchList)
        ensures
            w.wf(),
            w.watched@.len() == 0,
    {
        WatchList { watched: Vec::new() }
    }

    /// Whether `path` is watched already.
    pub fn is_watched(&self, path: &str) -> (r: bool)
        ensures
            r == views(self.watched@).contains(path@),
    {
        let mut i: usize = 0;
        while i < self.watched.len()
            invariant
                i <= self.watched@.len(),
                forall|j: int| 0 <= j < i ==> self.watched@[j]@ != path@,
            decreases self.watched@.len() - i,
        {
            if str_eq(self.watched[i].as_str(), path) {
                proof {
                    assert(views(self.watched@)[i as int] == path@);
                }
                return true;
            }
            i = i + 1;
        }
        proof {
            if views(self.watched@).contains(path@) {
                let k = choose|k: int|
                    0 <= k < views(self.watched@).len() && views(self.watched@)[k] == path@;
                assert(self.watched@[k]@ == path@);
            }
        }
        false
    }

    /// Notes that `path`, not watched before, is now watched.
    pub fn record(&mut self, path: String)
        requires
            old(self).wf(),
            !views(old(self).watched@).contains(path@),
        ensures
            final(self).wf(),
            views(final(self).watched@) == views(old(self).watched@).push(path@),
    {
        let ghost before = self.watched@;
        self.watched.push(path);
        proof {
            crate::app::lemma_views_push(before, path);
            let w = views(self.watched@);
            assert forall|a: int, b: int| 0 <= a < w.len() && 0 <= b < w.len() && a != b implies w[a]
                != w[b] by {
                if a == w.len() - 1 {
                    if b < w.len() - 1 {
                        assert(views(before)[b] == w[b]);
                    }
                } else if b == w.len() - 1 {
                    assert(views(before)[a] == w[a]);
                } else {
                    assert(views(before)[a] == w[a]);
                    assert(views(before)[b] == w[b]);
                }
            }
        }
    }

    /// Forgets every watched directory, handing them back to be unwatched.
    pub fn take_all(&mut self) -> (r: Vec<String>)
        ensures
            r@ == old(self).watched@,
            final(self).watched@.len() == 0,
            final(self).wf(),
    {
        let mut r: Vec<String> = Vec::new();
        std::mem::swap(&mut r, &mut self.watched);
        proof {
            assert(views(self.watched@) =~= Seq::<Seq<char>>::empty());
        }
        r
    }
}

/// The directories to watch: the active tab's, and the other pane's in
/// split mode.
pub open spec fn targets_spec(a: App) -> Seq<Seq<char>> {
    seq![cur(a).path@] + match a.split {
        Some(s) => if s < a.tabs@.len() {
            seq![a.tabs@[s as int].path@]
        } else {
            Seq::empty()
        },
        None => Seq::empty(),
    }
}

/// The directories to watch.
pub fn watch_targets(app: &App) -> (r: Vec<String>)
    requires
        app.wf(),
    ensures
        views(r@) == targets_spec(*app),
{
    let mut v: Vec<String> = Vec::new();
    v.push(app.current().path.clone());
    let ghost one = v@;
    match app.split {
        Some(s) => {
            if s < app.tabs.len() {
                v.push(app.tabs[s].path.clone());
                proof {
                    assert(views(v@) =~= targets_spec(*app));
                }
            } else {
                proof {
                    assert(views(v@) =~= targets_spec(*app));
                }
            }
        },
        None => {
            proof {
                assert(views(v@) =~= targets_spec(*app));
            }
        },
    }
    v
}

/// A change reported in a watched directory.
#[derive(Debug, Clone, Copy, PartialEq, Eq, Structural)]
pub enum Change {
    Created,
    Removed,
    Renamed,
    /// Any other change (content, metadata, access).
    Other,
}

/// Whether any of `changes` adds, removes or renames an entry, which calls
/// for reading the directories again.
pub fn worth_reload(changes: &[Change]) -> (r: bool)
    ensures
        r == exists|i: int| 0 <= i < changes@.len() && changes@[i] != Change::Other,
{
    let mut i: usize = 0;
    while i < changes.len()
        invariant
            i <= changes@.len(),
            forall|j: int| 0 <= j < i ==> changes@[j] == Change::Other,
        decreases changes@.len() - i,
    {
        if changes[i] != Change::Other {
            return true;
        }
        i = i + 1;
    }
    false
}

// ---------------------------------------------------------------------------
// tmux
// ---------------------------------------------------------------------------
/// The arguments of `tmux` that open a pane (side by side when
/// `horizontal`) in `cwd` running `cmd`.
pub open spec fn split_args_spec(cwd: Seq<char>, cmd: Seq<Seq<char>>, horizontal: bool) -> Seq<Seq<char>> {
    seq!["split-window"@] + (if horizontal {
        seq!["-h"@]
    } else {
        Seq::empty()
    }) + seq!["-c"@, cwd] + cmd
}

/// The arguments of `tmux` that open a window in `cwd` running `cmd`.
pub open spec fn window_args_spec(cwd: Seq<char>, cmd: Seq<Seq<char>>) -> Seq<Seq<char>> {
    seq!["new-window"@, "-c"@, cwd] + cmd
}

fn push_all(v: &mut Vec<String>, items: &[String])
    ensures
        views(final(v)@) == views(old(v)@) + views(items@),
{
    let mut i: usize = 0;
    while i < items.len()
        invariant
            i <= items@.len(),
            views(v@) == views(old(v)@) + views(items@).take(i as int),
        decreases items@.len() - i,
    {
        let ghost before = v@;
        v.push(items[i].clone());
        proof {
            crate::app::lemma_views_push(before, items@[i as int]);
            assert(views(items@).take(i + 1) =~= views(items@).take(i as int).push(items@[i as int]@));
            assert(views(v@) =~= views(old(v)@) + views(items@).take(i + 1));
        }
        i = i + 1;
    }
    assert(views(items@).take(items@.len() as int) =~= views(items@));
}

/// The arguments of `tmux` for a new pane.
pub fn split_args(cwd: &str, cmd: &[String], horizontal: bool) -> (r: Vec<String>)
    ensures
        views(r@) == split_args_spec(cwd@, views(cmd@), horizontal),
{
    let mut v: Vec<String> = Vec::new();
    v.push(crate::text::owned("split-window"));
    if horizontal {
        v.push(crate::text::owned("-h"));
    }
    v.push(crate::text::owned("-c"));
    v.push(crate::text::owned(cwd));
    let ghost head = v@;
    proof {
        assert(views(head) =~= seq!["split-window"@] + (if horizontal {
            seq!["-h"@]
        } else {
            Seq::empty()
        }) + seq!["-c"@, cwd@]);
    }
    push_all(&mut v, cmd);
    v
}

/// The arguments of `tmux` for a new window.
pub fn window_args(cwd: &str, cmd: &[String]) -> (r: Vec<String>)
    ensures
        views(r@) == window_args_spec(cwd@, views(cmd@)),
{
    let mut v: Vec<String> = Vec::new();
    v.push(crate::text::owned("new-window"));
    v.push(crate::text::owned("-c"));
    v.push(crate::text::owned(cwd));
    proof {
        assert(views(v@) =~= seq!["new-window"@, "-c"@, cwd@]);
    }
    push_all(&mut v, cmd);
    v
}

} // verus!
