//! Key-chord and visual-mode state.

use vstd::prelude::*;
use std::time::Instant;

verus! {

#[verifier::external_type_specification]
#[verifier::external_body]
pub struct ExInstant(Instant);

#[derive(Debug, Clone, Copy, PartialEq, Eq, Structural)]
pub enum Mode {
    Normal,
    Visual,
}

pub struct KeybindState {
    pub mode: Mode,
    /// The first key of a chord and when it was pressed.
    pub pending_key: Option<(char, Instant)>,
    pub visual_start: Option<usize>,
    pub visual_end: Option<usize>,
    pub search_mode: bool,
}

/// The current time (`Instant::now`). Nothing is stated of the value.
#[verifier::external_body]
fn now() -> Instant {
    Instant::now()
}

/// The time passed since `t` in nanoseconds (`Instant::elapsed`, as
/// nanoseconds). It depends on the clock, so no contract states the result.
#[verifier::external_body]
fn elapsed_nanos(t: &Instant) -> u128 {
    t.elapsed().as_nanos()
}

/// How long a chord key waits for its second key: one second, in
/// nanoseconds.
pub const CHORD_TIMEOUT_NANOS: u128 = 1_000_000_000;

/// A pending chord key survives until it has waited more than a second.
pub open spec fn fresh(key: Option<char>, elapsed: u128) -> Option<char> {
    match key {
        Some(k) => if elapsed > CHORD_TIMEOUT_NANOS {
            None
        } else {
            Some(k)
        },
        None => None,
    }
}

/// The chord key still pending after `elapsed` nanoseconds have passed
/// since it was pressed: dropped once more than a second has passed.
pub fn pending_after(key: Option<char>, elapsed: u128) -> (r: Option<char>)
    ensures
        r == fresh(key, elapsed),
{
    match key {
        Some(k) => if elapsed > CHORD_TIMEOUT_NANOS {
            None
        } else {
            Some(k)
        },
        None => None,
    }
}

/// The lower end and the upper end of a visual range.
pub open spec fn ordered(start: Option<usize>, end: Option<usize>) -> Option<(usize, usize)> {
    match (start, end) {
        (Some(s), Some(e)) => if s <= e {
            Some((s, e))
        } else {
            Some((e, s))
        },
        _ => None,
    }
}

impl Default for KeybindState {
    fn default() -> (r: Self)
        ensures
            r.mode == Mode::Normal,
            r.pending_key is None,
            r.visual_start is None,
            r.visual_end is None,
            !r.search_mode,
    {
        KeybindState {
            mode: Mode::Normal,
            pending_key: None,
            visual_start: None,
            visual_end: None,
            search_mode: false,
        }
    }
}

impl KeybindState {
    pub fn clear_pending(&mut self)
        ensures
            *final(self) == (KeybindState { pending_key: None, ..*old(self) }),
    {
        self.pending_key = None;
    }

    /// Starts a chord with `key`, stamped with the current time.
    pub fn set_pending(&mut self, key: char)
        ensures
            *final(self) == (KeybindState { pending_key: final(self).pending_key, ..*old(self) }),
            final(self).pending_key matches Some((k, _)) && k == key,
    {
        self.pending_key = Some((key, now()));
    }

    /// The pending chord key, unless more than a second has passed since it
    /// was pressed: `pending_after` applied to the time the clock reports
    /// since then. Which time that is rests on the clock, so the result is
    /// stated for some elapsed time.
    pub fn get_pending(&self) -> (r: Option<char>)
        ensures
            match self.pending_key {
                Some((k, _)) => exists|e: u128| r == #[trigger] fresh(Some(k), e),
                None => r is None,
            },
    {
        match self.pending_key {
            Some((k, t)) => {
                let e = elapsed_nanos(&t);
                let r = pending_after(Some(k), e);
                assert(r == fresh(Some(k), e));
                r
            },
            None => None,
        }
    }

    /// Enters visual mode with the range anchored at `cursor`.
    pub fn enter_visual(&mut self, cursor: usize)
        ensures
            *final(self) == (KeybindState { mode: Mode::Visual, visual_start: Some(cursor), visual_end: Some(cursor), ..*old(self) }),
    {
        self.mode = Mode::Visual;
        self.visual_start = Some(cursor);
        self.visual_end = Some(cursor);
    }

    pub fn exit_visual(&mut self)
        ensures
            *final(self) == (KeybindState { mode: Mode::Normal, visual_start: None, visual_end: None, ..*old(self) }),
    {
        self.mode = Mode::Normal;
        self.visual_start = None;
        self.visual_end = None;
    }

    /// Moves the free end of the visual range to `cursor` (in visual mode only).
    pub fn extend_visual(&mut self, cursor: usize)
        ensures
            *final(self) == (KeybindState { visual_end: final(self).visual_end, ..*old(self) }),
            final(self).visual_end == (if old(self).mode == Mode::Visual {
                Some(cursor)
            } else {
                old(self).visual_end
            }),
            final(self).mode == old(self).mode,
            final(self).visual_start == old(self).visual_start,
            final(self).pending_key == old(self).pending_key,
            final(self).search_mode == old(self).search_mode,
    {
        if self.mode == Mode::Visual {
            self.visual_end = Some(cursor);
        }
    }

    /// The visual range as `(low, high)`.
    pub fn get_visual_range(&self) -> (r: Option<(usize, usize)>)
        ensures
            r == ordered(self.visual_start, self.visual_end),
    {
        match (self.visual_start, self.visual_end) {
            (Some(start), Some(end)) => {
                if start <= end {
                    Some((start, end))
                } else {
                    Some((end, start))
                }
            },
            _ => None,
        }
    }
}

/// The visual range spans from the anchor to the cursor whichever way the
/// cursor moved: its ends are ordered and are the two marks.
pub proof fn law_visual_range_ordered(start: usize, end: usize)
    ensures
        ordered(Some(start), Some(end)) matches Some((lo, hi)) && lo <= hi && ((lo == start && hi
            == end) || (lo == end && hi == start)),
        ordered(Some(start), Some(end)) == ordered(Some(end), Some(start)),
{
}

} // verus!
