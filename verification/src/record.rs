//! The log of a project: the actions that were applied, in order, and those
//! that were undone and can be applied again.

use vstd::prelude::*;
use crate::action::reversal::{
    lemma_apply_leaves_untouched,
    lemma_apply_then_undo,
    lemma_slots_stay_exclusive,
};
use crate::action::{Action, ActionView};
use crate::error::H2Error;
use crate::h2project::{H2Project, ProjectView};

verus! {

/// How a record came to be what it is: for each applied action the project
/// it was applied to and the action as it was then, and for each undone
/// action what applying it again will give.
pub struct History {
    /// The project before each applied action.
    pub before: Seq<ProjectView>,
    /// Each applied action as it was before it was applied.
    pub pending: Seq<ActionView>,
    /// Each undone action as it will be once it is applied again.
    pub redone: Seq<ActionView>,
    /// The project after each undone action is applied again.
    pub after: Seq<ProjectView>,
}

/// A project with its history. Every change to the project goes through
/// here.
pub struct Record {
    target: H2Project,
    /// The applied actions, the last applied last.
    done: Vec<Action>,
    /// The undone actions, the last undone last.
    undone: Vec<Action>,
    history: Ghost<History>,
}

/// What a record stands for. The log is `done` followed by `undone` read
/// backwards, and the cursor stands after `done`.
pub struct RecordView {
    pub project: ProjectView,
    pub done: Seq<ActionView>,
    pub undone: Seq<ActionView>,
}

/// What a list of actions stands for.
pub open spec fn action_views(v: Seq<Action>) -> Seq<ActionView> {
    Seq::new(v.len(), |i: int| v[i]@)
}

impl View for Record {
    type V = RecordView;

    closed spec fn view(&self) -> RecordView {
        RecordView {
            project: self.target@,
            done: action_views(self.done@),
            undone: action_views(self.undone@),
        }
    }
}

impl RecordView {
    /// Every action in the log is armed for exactly one step: those before
    /// the cursor for undoing, those after it for applying.
    pub open spec fn slots_exclusive(self) -> bool {
        &&& forall|i: int|
            0 <= i < self.done.len() ==> (#[trigger] self.done[i]).wf() && self.done[i].is_done()
        &&& forall|i: int|
            0 <= i < self.undone.len() ==> (#[trigger] self.undone[i]).wf()
                && self.undone[i].is_pending()
    }

    /// The position of the cursor in the log.
    pub open spec fn cursor(self) -> nat {
        self.done.len()
    }

    /// The whole log: what was applied, then what can be applied again.
    pub open spec fn log(self) -> Seq<ActionView> {
        self.done + self.undone.reverse()
    }

    /// What `apply` makes of the record: the action, which has to wait to
    /// be applied, is applied and put at the cursor in place of whatever
    /// could have been applied again, and the cursor moves past it.
    pub open spec fn apply_spec(self, action: ActionView) -> Result<RecordView, H2Error> {
        if !action.is_pending() {
            Err(H2Error::MissingContext)
        } else {
            match action.apply_spec(self.project) {
                Err(e) => Err(e),
                Ok((a, p)) => Ok(
                    RecordView { project: p, done: self.done.push(a), undone: Seq::empty() },
                ),
            }
        }
    }

    /// What `undo` makes of the record: the action before the cursor is
    /// undone and the cursor moves before it.
    pub open spec fn undo_spec(self) -> Result<RecordView, H2Error> {
        if self.done.len() == 0 {
            Err(H2Error::NothingToUndo)
        } else {
            match self.done.last().undo_spec(self.project) {
                Err(e) => Err(e),
                Ok((a, p)) => Ok(
                    RecordView {
                        project: p,
                        done: self.done.drop_last(),
                        undone: self.undone.push(a),
                    },
                ),
            }
        }
    }

    /// What `redo` makes of the record: the action after the cursor is
    /// applied and the cursor moves past it.
    pub open spec fn redo_spec(self) -> Result<RecordView, H2Error> {
        if self.undone.len() == 0 {
            Err(H2Error::NothingToRedo)
        } else {
            match self.undone.last().apply_spec(self.project) {
                Err(e) => Err(e),
                Ok((a, p)) => Ok(
                    RecordView {
                        project: p,
                        done: self.done.push(a),
                        undone: self.undone.drop_last(),
                    },
                ),
            }
        }
    }
}

/// Undoing right after applying succeeds and gives the project back as it
/// was; the action waits at the cursor to be applied again.
pub proof fn lemma_record_apply_then_undo(r: RecordView, action: ActionView)
    requires
        r.project.wf(),
        r.apply_spec(action) is Ok,
    ensures
        r.apply_spec(action)->Ok_0.undo_spec() == Ok::<RecordView, H2Error>(
            RecordView { project: r.project, done: r.done, undone: seq![action] },
        ),
{
    lemma_apply_then_undo(action, r.project);
    let after = r.apply_spec(action)->Ok_0;
    assert(after.done.drop_last() =~= r.done);
    assert(after.undone.push(action) =~= seq![action]);
}

impl History {
    /// The project after the applied action `i`: the project before the
    /// next one, or `project` after the last.
    pub open spec fn after_done(self, project: ProjectView, i: int) -> ProjectView {
        if i + 1 < self.before.len() {
            self.before[i + 1]
        } else {
            project
        }
    }

    /// The project that the undone action `j` will be applied to again: the
    /// project after the one above it is applied again, or `project` for
    /// the topmost.
    pub open spec fn before_redo(self, project: ProjectView, j: int) -> ProjectView {
        if j + 1 < self.after.len() {
            self.after[j + 1]
        } else {
            project
        }
    }

    /// Whether the applied action `i` led from the project before it to the
    /// project after it.
    pub open spec fn done_step(self, r: RecordView, i: int) -> bool {
        &&& self.pending[i].is_pending()
        &&& self.before[i].wf()
        &&& self.pending[i].apply_spec(self.before[i]) == Ok::<(ActionView, ProjectView), H2Error>(
            (r.done[i], self.after_done(r.project, i)),
        )
    }

    /// Whether the undone action `j`, applied again in its turn, will lead
    /// on to the project after it.
    pub open spec fn redo_step(self, r: RecordView, j: int) -> bool {
        &&& r.undone[j].is_pending()
        &&& self.before_redo(r.project, j).wf()
        &&& r.undone[j].apply_spec(self.before_redo(r.project, j)) == Ok::<
            (ActionView, ProjectView),
            H2Error,
        >((self.redone[j], self.after[j]))
    }

    /// Whether the record `r` came about this way: each applied action led
    /// from the project before it to the project after it, and each undone
    /// action, applied again in its turn, will lead on from there.
    pub open spec fn explains(self, r: RecordView) -> bool {
        &&& self.before.len() == r.done.len()
        &&& self.pending.len() == r.done.len()
        &&& self.redone.len() == r.undone.len()
        &&& self.after.len() == r.undone.len()
        &&& r.project.wf()
        &&& forall|i: int| 0 <= i < r.done.len() ==> #[trigger] self.done_step(r, i)
        &&& forall|j: int| 0 <= j < r.undone.len() ==> #[trigger] self.redo_step(r, j)
    }
}

/// In a record that came about by applying, undoing and redoing, an undo
/// succeeds whenever there is an action to undo, and a redo after it gives
/// the record back as it was.
pub proof fn lemma_undo_then_redo_is_identity(h: History, r: RecordView)
    requires
        h.explains(r),
        r.done.len() > 0,
    ensures
        r.undo_spec() is Ok,
        r.undo_spec()->Ok_0.project == h.before.last(),
        r.undo_spec()->Ok_0.redo_spec() == Ok::<RecordView, H2Error>(r),
{
    let n = r.done.len() as int;
    assert(h.done_step(r, n - 1));
    lemma_apply_then_undo(h.pending[n - 1], h.before[n - 1]);
    let back = r.undo_spec()->Ok_0;
    assert(back.undone.drop_last() =~= r.undone);
    assert(back.done.push(r.done.last()) =~= r.done);
}

/// In such a record a redo succeeds whenever there is an action to apply
/// again, and an undo after it gives the record back as it was.
pub proof fn lemma_redo_then_undo_is_identity(h: History, r: RecordView)
    requires
        h.explains(r),
        r.undone.len() > 0,
    ensures
        r.redo_spec() is Ok,
        r.redo_spec()->Ok_0.undo_spec() == Ok::<RecordView, H2Error>(r),
{
    let m = r.undone.len() as int;
    assert(h.redo_step(r, m - 1));
    lemma_apply_then_undo(r.undone[m - 1], r.project);
    let forth = r.redo_spec()->Ok_0;
    assert(forth.done.drop_last() =~= r.done);
    assert(forth.undone.push(r.undone.last()) =~= r.undone);
}

impl Record {
    /// The record is well formed: its project is, and every action in its
    /// log is armed for exactly one step.
    pub closed spec fn wf(self) -> bool {
        &&& self.target.wf()
        &&& self@.slots_exclusive()
    }

    /// The record came about by applying, undoing and redoing: it has a
    /// history that explains it.
    pub closed spec fn consistent(self) -> bool {
        self.history@.explains(self@)
    }

    /// The history of the record.
    pub closed spec fn history_spec(self) -> History {
        self.history@
    }

    /// At rest no action in the log has both of its slots filled, or
    /// neither.
    pub proof fn lemma_slots_exclusive(self)
        requires
            self.wf(),
        ensures
            self@.slots_exclusive(),
            self@.project.wf(),
    {
        self.target.lemma_wf_view();
    }

    /// A record that came about by applying, undoing and redoing has a
    /// history that explains it.
    pub proof fn lemma_consistent(self)
        requires
            self.consistent(),
        ensures
            self.history_spec().explains(self@),
    {
    }

    /// A record of `target` with an empty log.
    pub fn new(target: H2Project) -> (r: Self)
        requires
            target.wf(),
        ensures
            r@ == (RecordView { project: target@, done: Seq::empty(), undone: Seq::empty() }),
            r.wf(),
            r.consistent(),
    {
        proof {
            target.lemma_wf_view();
        }
        let r = Record {
            target,
            done: Vec::new(),
            undone: Vec::new(),
            history: Ghost(
                History {
                    before: Seq::empty(),
                    pending: Seq::empty(),
                    redone: Seq::empty(),
                    after: Seq::empty(),
                },
            ),
        };
        assert(action_views(r.done@) =~= Seq::empty());
        assert(action_views(r.undone@) =~= Seq::empty());
        r
    }

    /// A record of `target` with the given log: `done` holds the applied
    /// actions, the last applied last, and `undone` those that can be
    /// applied again, the next to apply last. Each action has to be armed
    /// for the step that its place calls for. Whether the actions did lead
    /// to the project cannot be told from them: an undo or a redo of such a
    /// record may fail, and then changes nothing.
    pub fn from_parts(target: H2Project, done: Vec<Action>, undone: Vec<Action>) -> (r: Result<
        Self,
        H2Error,
    >)
        requires
            target.wf(),
        ensures
            r matches Ok(rec) ==> rec.wf() && rec@ == (RecordView {
                project: target@,
                done: action_views(done@),
                undone: action_views(undone@),
            }),
            r matches Err(e) ==> e == H2Error::CorruptAction,
            r is Ok <==> (RecordView {
                project: target@,
                done: action_views(done@),
                undone: action_views(undone@),
            }).slots_exclusive(),
    {
        let mut i: usize = 0;
        while i < done.len()
            invariant
                i <= done.len(),
                forall|j: int|
                    0 <= j < i ==> (#[trigger] action_views(done@)[j]).wf() && action_views(
                        done@,
                    )[j].is_done(),
            decreases done.len() - i,
        {
            proof {
                lemma_slots_stay_exclusive(done@[i as int]@, target@);
            }
            if !done[i].is_done() {
                proof {
                    let v = RecordView {
                        project: target@,
                        done: action_views(done@),
                        undone: action_views(undone@),
                    };
                    assert(!v.done[i as int].is_done());
                }
                return Err(H2Error::CorruptAction);
            }
            i += 1;
        }
        let mut k: usize = 0;
        while k < undone.len()
            invariant
                k <= undone.len(),
                forall|j: int|
                    0 <= j < done@.len() ==> (#[trigger] action_views(done@)[j]).wf()
                        && action_views(done@)[j].is_done(),
                forall|j: int|
                    0 <= j < k ==> (#[trigger] action_views(undone@)[j]).wf() && action_views(
                        undone@,
                    )[j].is_pending(),
            decreases undone.len() - k,
        {
            proof {
                lemma_slots_stay_exclusive(undone@[k as int]@, target@);
            }
            if !undone[k].is_pending() {
                proof {
                    let v = RecordView {
                        project: target@,
                        done: action_views(done@),
                        undone: action_views(undone@),
                    };
                    assert(!v.undone[k as int].is_pending());
                }
                return Err(H2Error::CorruptAction);
            }
            k += 1;
        }
        Ok(
            Record {
                target,
                done,
                undone,
                history: Ghost(
                    History {
                        before: Seq::empty(),
                        pending: Seq::empty(),
                        redone: Seq::empty(),
                        after: Seq::empty(),
                    },
                ),
            },
        )
    }

    /// The project and the log: the applied actions, then those that can be
    /// applied again.
    pub fn into_parts(self) -> (r: (H2Project, Vec<Action>, Vec<Action>))
        requires
            self.wf(),
        ensures
            r.0@ == self@.project,
            r.0.wf(),
            action_views(r.1@) == self@.done,
            action_views(r.2@) == self@.undone,
    {
        (self.target, self.done, self.undone)
    }

    /// The project.
    pub fn target(&self) -> (p: &H2Project)
        requires
            self.wf(),
        ensures
            p@ == self@.project,
            p.wf(),
    {
        &self.target
    }

    /// Whether there is an action to undo.
    pub fn can_undo(&self) -> (b: bool)
        ensures
            b == (self@.done.len() > 0),
    {
        self.done.len() > 0
    }

    /// Whether there is an action to apply again.
    pub fn can_redo(&self) -> (b: bool)
        ensures
            b == (self@.undone.len() > 0),
    {
        self.undone.len() > 0
    }

    /// The position of the cursor: the number of actions that are applied.
    pub fn cursor(&self) -> (n: usize)
        ensures
            n == self@.cursor(),
    {
        self.done.len()
    }

    /// Applies `action` and puts it on the log, in place of whatever could
    /// have been applied again. On failure nothing changes.
    pub fn apply(&mut self, action: Action) -> (r: Result<(), H2Error>)
        requires
            old(self).wf(),
        ensures
            match old(self)@.apply_spec(action@) {
                Ok(after) => r is Ok && final(self)@ == after,
                Err(e) => r == Err::<(), H2Error>(e) && final(self)@ == old(self)@,
            },
            final(self).wf(),
            old(self).consistent() ==> final(self).consistent(),
    {
        if !action.is_pending() {
            return Err(H2Error::MissingContext);
        }
        let mut action = action;
        let ghost pending = action@;
        let ghost project = self.target@;
        let ghost h = self.history@;
        let ghost before = action_views(self.done@);
        proof {
            lemma_slots_stay_exclusive(action@, self.target@);
            self.target.lemma_wf_view();
        }
        match action.apply(&mut self.target) {
            Err(e) => Err(e),
            Ok(()) => {
                self.undone.clear();
                self.done.push(action);
                self.history = Ghost(
                    History {
                        before: h.before.push(project),
                        pending: h.pending.push(pending),
                        redone: Seq::empty(),
                        after: Seq::empty(),
                    },
                );
                proof {
                    assert(action_views(self.done@) =~= before.push(action@));
                    assert(action_views(self.undone@) =~= Seq::empty());
                    self.target.lemma_wf_view();
                    if h.explains(old(self)@) {
                        let h2 = self.history@;
                        let n = before.len() as int;
                        assert forall|i: int| 0 <= i < self@.done.len() implies #[trigger] h2.done_step(
                            self@,
                            i,
                        ) by {
                            if i < n {
                                assert(h.done_step(old(self)@, i));
                            }
                        }
                    }
                }
                Ok(())
            },
        }
    }

    /// Undoes the action before the cursor. On failure nothing changes. In
    /// a record that came about by applying, undoing and redoing, it
    /// succeeds whenever there is an action to undo.
    pub fn undo(&mut self) -> (r: Result<(), H2Error>)
        requires
            old(self).wf(),
        ensures
            match old(self)@.undo_spec() {
                Ok(after) => r is Ok && final(self)@ == after,
                Err(e) => r == Err::<(), H2Error>(e) && final(self)@ == old(self)@,
            },
            final(self).wf(),
            old(self).consistent() ==> final(self).consistent(),
            old(self).consistent() && old(self)@.done.len() > 0 ==> r is Ok,
    {
        let ghost done_before = action_views(self.done@);
        let ghost undone_before = action_views(self.undone@);
        let ghost project = self.target@;
        let ghost h = self.history@;
        let mut action = match self.done.pop() {
            Some(a) => a,
            None => {
                return Err(H2Error::NothingToUndo);
            },
        };
        let ghost top = action@;
        assert(action_views(self.done@) =~= done_before.drop_last());
        assert(top == done_before.last());
        proof {
            lemma_slots_stay_exclusive(action@, self.target@);
            self.target.lemma_wf_view();
            if h.explains(old(self)@) {
                lemma_undo_then_redo_is_identity(h, old(self)@);
            }
        }
        match action.undo(&mut self.target) {
            Ok(()) => {
                self.undone.push(action);
                self.history = Ghost(
                    History {
                        before: h.before.drop_last(),
                        pending: h.pending.drop_last(),
                        redone: h.redone.push(top),
                        after: h.after.push(project),
                    },
                );
                proof {
                    assert(action_views(self.undone@) =~= undone_before.push(action@));
                    self.target.lemma_wf_view();
                    if h.explains(old(self)@) {
                        let h2 = self.history@;
                        let n = done_before.len() as int;
                        let m = undone_before.len() as int;
                        assert(h.done_step(old(self)@, n - 1));
                        lemma_apply_then_undo(h.pending[n - 1], h.before[n - 1]);
                        assert forall|i: int| 0 <= i < self@.done.len() implies #[trigger] h2.done_step(
                            self@,
                            i,
                        ) by {
                            assert(h.done_step(old(self)@, i));
                        }
                        assert forall|j: int| 0 <= j < self@.undone.len() implies #[trigger] h2.redo_step(
                            self@,
                            j,
                        ) by {
                            if j < m {
                                assert(h.redo_step(old(self)@, j));
                            }
                        }
                    }
                }
                Ok(())
            },
            Err(e) => {
                self.done.push(action);
                assert(action_views(self.done@) =~= done_before);
                Err(e)
            },
        }
    }

    /// Applies again the action after the cursor. On failure nothing
    /// changes. In a record that came about by applying, undoing and
    /// redoing, it succeeds whenever there is an action to apply again.
    pub fn redo(&mut self) -> (r: Result<(), H2Error>)
        requires
            old(self).wf(),
        ensures
            match old(self)@.redo_spec() {
                Ok(after) => r is Ok && final(self)@ == after,
                Err(e) => r == Err::<(), H2Error>(e) && final(self)@ == old(self)@,
            },
            final(self).wf(),
            old(self).consistent() ==> final(self).consistent(),
            old(self).consistent() && old(self)@.undone.len() > 0 ==> r is Ok,
    {
        let ghost done_before = action_views(self.done@);
        let ghost undone_before = action_views(self.undone@);
        let ghost project = self.target@;
        let ghost h = self.history@;
        let mut action = match self.undone.pop() {
            Some(a) => a,
            None => {
                return Err(H2Error::NothingToRedo);
            },
        };
        let ghost top = action@;
        assert(action_views(self.undone@) =~= undone_before.drop_last());
        assert(top == undone_before.last());
        proof {
            lemma_slots_stay_exclusive(action@, self.target@);
            self.target.lemma_wf_view();
            if h.explains(old(self)@) {
                let m = undone_before.len() as int;
                assert(h.redo_step(old(self)@, m - 1));
            }
        }
        match action.apply(&mut self.target) {
            Ok(()) => {
                self.done.push(action);
                self.history = Ghost(
                    History {
                        before: h.before.push(project),
                        pending: h.pending.push(top),
                        redone: h.redone.drop_last(),
                        after: h.after.drop_last(),
                    },
                );
                proof {
                    assert(action_views(self.done@) =~= done_before.push(action@));
                    self.target.lemma_wf_view();
                    if h.explains(old(self)@) {
                        let h2 = self.history@;
                        let n = done_before.len() as int;
                        let m = undone_before.len() as int;
                        assert(h.redo_step(old(self)@, m - 1));
                        lemma_apply_leaves_untouched(top, project);
                        assert forall|i: int| 0 <= i < self@.done.len() implies #[trigger] h2.done_step(
                            self@,
                            i,
                        ) by {
                            if i < n {
                                assert(h.done_step(old(self)@, i));
                            }
                        }
                        assert forall|j: int| 0 <= j < self@.undone.len() implies #[trigger] h2.redo_step(
                            self@,
                            j,
                        ) by {
                            assert(h.redo_step(old(self)@, j));
                        }
                    }
                }
                Ok(())
            },
            Err(e) => {
                self.undone.push(action);
                assert(action_views(self.undone@) =~= undone_before);
                Err(e)
            },
        }
    }
}

} // verus!
