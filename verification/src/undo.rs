//! Session undo history of file operations (the newest 32 are kept).

use vstd::prelude::*;
use crate::paths::{file_name, name_or_question};
use crate::text::{owned, push_str};

verus! {

/// The most operations the history keeps.
pub const UNDO_CAPACITY: usize = 32;

#[derive(Debug)]
pub enum UndoOp {
    /// A file was moved or renamed from `src` to `dst`; undoing moves it back.
    Move { src: String, dst: String },
    /// A file was created; undoing deletes it.
    Created { path: String },
    /// Files were trashed; they are restored from the trash browser instead.
    Trashed { paths: Vec<String> },
}

pub struct UndoStack {
    pub ops: Vec<UndoOp>,
}

impl Default for UndoStack {
    fn default() -> (r: Self)
        ensures
            r.ops@.len() == 0,
    {
        UndoStack { ops: Vec::new() }
    }
}

/// The history after recording `op`: the oldest entry is dropped once there
/// are more than 32.
pub open spec fn pushed(ops: Seq<UndoOp>, op: UndoOp) -> Seq<UndoOp> {
    if ops.len() + 1 > UNDO_CAPACITY {
        ops.push(op).drop_first()
    } else {
        ops.push(op)
    }
}

impl UndoStack {
    /// Records `op` as the newest operation.
    pub fn push(&mut self, op: UndoOp)
        ensures
            final(self).ops@ == pushed(old(self).ops@, op),
    {
        self.ops.push(op);
        if self.ops.len() > UNDO_CAPACITY {
            self.ops.remove(0);
            proof {
                assert(self.ops@ =~= old(self).ops@.push(op).drop_first());
            }
        }
    }

    /// Takes the newest operation, to be undone; `None` when there is nothing
    /// to undo.
    pub fn pop(&mut self) -> (r: Option<UndoOp>)
        ensures
            old(self).ops@.len() == 0 ==> r is None && final(self).ops@ == old(self).ops@,
            old(self).ops@.len() > 0 ==> r == Some(old(self).ops@.last()) && final(self).ops@
                == old(self).ops@.drop_last(),
    {
        self.ops.pop()
    }
}

/// Recording an operation and then taking one gives it back, and the history
/// is as before unless it was full, in which case the oldest entry is gone.
pub proof fn law_push_then_pop(ops: Seq<UndoOp>, op: UndoOp)
    ensures
        pushed(ops, op).len() > 0,
        pushed(ops, op).last() == op,
        ops.len() < UNDO_CAPACITY ==> pushed(ops, op).drop_last() == ops,
        ops.len() >= UNDO_CAPACITY ==> pushed(ops, op).drop_last() == ops.drop_first(),
{
    if ops.len() >= UNDO_CAPACITY {
        assert(ops.push(op).drop_first().drop_last() =~= ops.drop_first());
    } else {
        assert(ops.push(op).drop_last() =~= ops);
    }
}

/// The history never holds more than 32 operations.
pub proof fn law_bounded(ops: Seq<UndoOp>, op: UndoOp)
    requires
        ops.len() <= UNDO_CAPACITY,
    ensures
        pushed(ops, op).len() <= UNDO_CAPACITY,
{
}

/// What undoing `op` reports: after moving a file back, its name and where
/// it had gone; after removing a created file, its path. A trash is not
/// undone here: the error tells where to restore it.
pub open spec fn undo_report(op: UndoOp) -> Result<Seq<char>, Seq<char>> {
    match op {
        UndoOp::Move { src, dst } => Ok("undo move: "@ + name_or_question(src@) + " ← "@ + dst@),
        UndoOp::Created { path } => Ok("undo create: removed "@ + path@),
        UndoOp::Trashed { .. } => Err("trash undo: open trash browser (T) to restore"@),
    }
}

/// The report for undoing `op` (the `Ok` text is shown once the files are
/// back as they were).
pub fn undo_report_text(op: &UndoOp) -> (r: Result<String, String>)
    ensures
        match (r, undo_report(*op)) {
            (Ok(a), Ok(b)) => a@ == b,
            (Err(a), Err(b)) => a@ == b,
            _ => false,
        },
{
    match op {
        UndoOp::Move { src, dst } => {
            let mut s = owned("undo move: ");
            match file_name(src.as_str()) {
                Some(n) => push_str(&mut s, n.as_str()),
                None => {
                    push_str(&mut s, "?");
                    proof {
                        reveal_strlit("?");
                        assert("?"@ =~= seq!['?']);
                    }
                },
            }
            push_str(&mut s, " ← ");
            push_str(&mut s, dst.as_str());
            Ok(s)
        },
        UndoOp::Created { path } => {
            let mut s = owned("undo create: removed ");
            push_str(&mut s, path.as_str());
            Ok(s)
        },
        UndoOp::Trashed { .. } => Err(owned("trash undo: open trash browser (T) to restore")),
    }
}

} // verus!
