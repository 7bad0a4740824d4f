//! The interactive chooser among tied candidates, as a state machine driven
//! by key events: a cursor over the candidates that moves up and down until
//! the user confirms or cancels. Reading keys and drawing are the caller's.

use vstd::prelude::*;
use crate::search::SearchResult;

verus! {

/// A key event the chooser reacts to.
#[derive(Clone, Copy, Debug, PartialEq, Eq, Structural)]
pub enum SelectorKey {
    MoveUp,
    MoveDown,
    Confirm,
    Cancel,
    /// Any other key: nothing happens.
    Other,
}

/// What a key event led to.
#[derive(Clone, Copy, Debug, PartialEq, Eq, Structural)]
pub enum SelectorStep {
    /// Still choosing; redraw and wait for the next key.
    Continue,
    /// The candidate at this index was chosen.
    Selected(usize),
    /// The user gave up.
    Aborted,
}

/// How a line of the chooser's display is drawn.
#[derive(Clone, Copy, Debug, PartialEq, Eq, Structural)]
pub enum LineKind {
    /// A candidate's name.
    Entry,
    /// The name of the candidate under the cursor.
    Current,
    /// The checkout path of the candidate under the cursor.
    Detail,
}

/// The chooser: the candidates and the index under the cursor.
#[derive(Debug)]
pub struct InteractiveSelector {
    pub candidates: Vec<SearchResult>,
    pub cursor: usize,
}

/// How a choice begins.
#[derive(Debug)]
pub enum SelectionStart {
    /// Decided without any input: no candidate, or the only one.
    Immediate(Option<SearchResult>),
    /// Two or more candidates: the chooser, cursor on the first.
    Interactive(InteractiveSelector),
}

/// The cursor after `key`, among `n` candidates.
pub open spec fn next_cursor(cursor: int, n: int, key: SelectorKey) -> int {
    match key {
        SelectorKey::MoveUp => if cursor > 0 { cursor - 1 } else { 0 },
        SelectorKey::MoveDown => if cursor + 1 < n { cursor + 1 } else { n - 1 },
        _ => cursor,
    }
}

/// What `key` leads to with the cursor at `cursor`.
pub open spec fn step_of(cursor: int, key: SelectorKey) -> SelectorStep {
    match key {
        SelectorKey::Confirm => SelectorStep::Selected(cursor as usize),
        SelectorKey::Cancel => SelectorStep::Aborted,
        _ => SelectorStep::Continue,
    }
}

/// Where a run of `keys` from cursor `cursor` among `n` candidates ends:
/// `Selected`, `Aborted`, or `Continue` when the keys ran out first.
pub open spec fn outcome_of(cursor: int, n: int, keys: Seq<SelectorKey>) -> SelectorStep
    decreases keys.len(),
{
    if keys.len() == 0 {
        SelectorStep::Continue
    } else {
        match step_of(cursor, keys[0]) {
            SelectorStep::Continue => outcome_of(next_cursor(cursor, n, keys[0]), n, keys.drop_first()),
            done => done,
        }
    }
}

impl InteractiveSelector {
    /// The cursor is on a candidate.
    pub open spec fn wf(&self) -> bool {
        self.cursor < self.candidates@.len()
    }

    /// Starts a choice among `candidates`: none gives no selection and one
    /// gives that candidate, both without any key event; more open the
    /// chooser with the cursor on the first.
    pub fn begin(candidates: Vec<SearchResult>) -> (r: SelectionStart)
        ensures
            candidates@.len() == 0 ==> r matches SelectionStart::Immediate(None),
            candidates@.len() == 1 ==> (r matches SelectionStart::Immediate(Some(c)) && c@
                == candidates@[0]@),
            candidates@.len() >= 2 ==> (r matches SelectionStart::Interactive(s) && s.wf()
                && s.cursor == 0 && s.candidates@ == candidates@),
    {
        let mut candidates = candidates;
        if candidates.len() == 0 {
            SelectionStart::Immediate(None)
        } else if candidates.len() == 1 {
            SelectionStart::Immediate(candidates.pop())
        } else {
            SelectionStart::Interactive(InteractiveSelector { candidates, cursor: 0 })
        }
    }

    /// Applies one key event: up and down move the cursor within the
    /// candidates, confirm selects the candidate under it, cancel aborts.
    pub fn handle(&mut self, key: SelectorKey) -> (r: SelectorStep)
        requires
            old(self).wf(),
        ensures
            final(self).wf(),
            final(self).candidates@ == old(self).candidates@,
            final(self).cursor == next_cursor(
                old(self).cursor as int,
                old(self).candidates@.len() as int,
                key,
            ),
            r == step_of(old(self).cursor as int, key),
    {
        match key {
            SelectorKey::MoveUp => {
                if self.cursor > 0 {
                    self.cursor = self.cursor - 1;
                }
                SelectorStep::Continue
            },
            SelectorKey::MoveDown => {
                if self.cursor < self.candidates.len() - 1 {
                    self.cursor = self.cursor + 1;
                }
                SelectorStep::Continue
            },
            SelectorKey::Confirm => SelectorStep::Selected(self.cursor),
            SelectorKey::Cancel => SelectorStep::Aborted,
            SelectorKey::Other => SelectorStep::Continue,
        }
    }

    /// The candidate under the cursor.
    pub fn current(&self) -> (r: &SearchResult)
        requires
            self.wf(),
        ensures
            r@ == self.candidates@[self.cursor as int]@,
    {
        &self.candidates[self.cursor]
    }

    /// What to draw: each candidate's name, the one under the cursor marked,
    /// with its checkout path on the line after it.
    pub fn display_lines(&self) -> (r: Vec<(String, LineKind)>)
        requires
            self.wf(),
        ensures
            r@.len() == self.candidates@.len() + 1,
            forall|j: int|
                0 <= j <= self.cursor ==> r@[j].0@ == #[trigger] self.candidates@[j].name@ && r@[j].1
                    == (if j == self.cursor { LineKind::Current } else { LineKind::Entry }),
            r@[self.cursor + 1].0@ == self.candidates@[self.cursor as int].repo_config.path@,
            r@[self.cursor + 1].1 == LineKind::Detail,
            forall|j: int|
                self.cursor < j < self.candidates@.len() ==> r@[j + 1].0@
                    == #[trigger] self.candidates@[j].name@ && r@[j + 1].1 == LineKind::Entry,
    {
        let mut out: Vec<(String, LineKind)> = Vec::new();
        let mut i: usize = 0;
        while i < self.candidates.len()
            invariant
                self.wf(),
                i <= self.candidates@.len(),
                out@.len() == if i > self.cursor { i + 1 } else { i as int },
                forall|j: int|
                    0 <= j < i && j <= self.cursor ==> out@[j].0@ == self.candidates@[j].name@
                        && out@[j].1 == (if j == self.cursor { LineKind::Current } else { LineKind::Entry }),
                i > self.cursor ==> out@[self.cursor + 1].0@ == self.candidates@[self.cursor as int].repo_config.path@
                    && out@[self.cursor + 1].1 == LineKind::Detail,
                forall|j: int|
                    self.cursor < j < i ==> out@[j + 1].0@ == self.candidates@[j].name@ && out@[j
                        + 1].1 == LineKind::Entry,
            decreases self.candidates.len() - i,
        {
            let c = &self.candidates[i];
            if i == self.cursor {
                out.push((c.name.clone(), LineKind::Current));
                out.push((c.repo_config.path.clone(), LineKind::Detail));
            } else {
                out.push((c.name.clone(), LineKind::Entry));
            }
            i += 1;
        }
        out
    }

    /// Runs the chooser over `keys` from the start: the candidate chosen, or
    /// nothing when the user cancels or the keys run out first.
    pub fn run(&mut self, keys: &Vec<SelectorKey>) -> (r: Option<SearchResult>)
        requires
            old(self).wf(),
        ensures
            final(self).wf(),
            final(self).candidates@ == old(self).candidates@,
            outcome_of(old(self).cursor as int, old(self).candidates@.len() as int, keys@) matches SelectorStep::Selected(k)
                ==> (r matches Some(c) && c@ == old(self).candidates@[k as int]@),
            !(outcome_of(old(self).cursor as int, old(self).candidates@.len() as int, keys@) is Selected)
                ==> r is None,
    {
        let ghost n = self.candidates@.len() as int;
        let mut i: usize = 0;
        assert(keys@.subrange(0, keys@.len() as int) =~= keys@);
        while i < keys.len()
            invariant
                self.wf(),
                self.candidates@ == old(self).candidates@,
                n == self.candidates@.len(),
                i <= keys@.len(),
                outcome_of(old(self).cursor as int, n, keys@) == outcome_of(
                    self.cursor as int,
                    n,
                    keys@.subrange(i as int, keys@.len() as int),
                ),
            decreases keys.len() - i,
        {
            let ghost rest = keys@.subrange(i as int, keys@.len() as int);
            let ghost before = self.cursor as int;
            assert(rest.drop_first() =~= keys@.subrange(i + 1, keys@.len() as int));
            assert(rest[0] == keys@[i as int]);
            match self.handle(keys[i]) {
                SelectorStep::Selected(k) => {
                    return Some(self.candidates[k].clone());
                },
                SelectorStep::Aborted => {
                    return None;
                },
                SelectorStep::Continue => {},
            }
            i += 1;
        }
        assert(keys@.subrange(i as int, keys@.len() as int) =~= Seq::<SelectorKey>::empty());
        None
    }
}

} // verus!
