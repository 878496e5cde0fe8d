use vstd::prelude::*;

use crate::models::{
    contents, dense, lemma_filter_take_step, lemma_renumbered_dense, renumber, renumbered, views,
    Priority, Task, TaskView,
};

verus! {

/// The most recent mutation, kept so that it can be reversed.
#[derive(Clone, Debug)]
pub enum Action {
    /// The task as it was inserted.
    Add(Task),
    /// The task as it was just before it was removed.
    Delete(Task),
    /// The id of the task that was marked completed.
    Done(u32),
    /// How many tasks were moved from the active list to the archive.
    Archive(usize),
}

/// The mathematical value of an action.
pub enum ActionView {
    Add(TaskView),
    Delete(TaskView),
    Done(u32),
    Archive(usize),
}

impl View for Action {
    type V = ActionView;

    open spec fn view(&self) -> ActionView {
        match self {
            Action::Add(t) => ActionView::Add(t@),
            Action::Delete(t) => ActionView::Delete(t@),
            Action::Done(id) => ActionView::Done(*id),
            Action::Archive(n) => ActionView::Archive(*n),
        }
    }
}

/// The non-fatal failures of the store.
#[derive(Clone, Copy, Debug, PartialEq, Eq, Structural)]
pub enum TaskError {
    /// No task of the targeted list has the given id.
    NotFound,
    /// Undo was requested with no pending action.
    NothingToUndo,
}

/// Marks the tasks that are completed.
pub open spec fn done_pred() -> spec_fn(TaskView) -> bool {
    |t: TaskView| t.completed
}

/// Marks the tasks that are not completed.
pub open spec fn open_pred() -> spec_fn(TaskView) -> bool {
    |t: TaskView| !t.completed
}

/// The active list, the archive, and the pending undo action.
pub struct AppState {
    pub tasks: Vec<Task>,
    pub archived: Vec<Task>,
    pub last_action: Option<Action>,
}

impl AppState {
    /// The values of the active list.
    pub open spec fn active_view(&self) -> Seq<TaskView> {
        views(self.tasks@)
    }

    /// The values of the archive.
    pub open spec fn archive_view(&self) -> Seq<TaskView> {
        views(self.archived@)
    }

    /// The value of the pending action, if any.
    pub open spec fn pending(&self) -> Option<ActionView> {
        match self.last_action {
            Some(a) => Some(a@),
            None => None,
        }
    }

    /// The number of tasks held in both lists.
    pub open spec fn total(&self) -> int {
        self.tasks.len() + self.archived.len()
    }

    /// Both lists have dense ids, all ids fit in `u32`, and the pending action
    /// still describes the last change made to the lists.
    pub open spec fn wf(&self) -> bool {
        &&& dense(self.active_view())
        &&& dense(self.archive_view())
        &&& self.total() < u32::MAX
        &&& match self.pending() {
            Some(ActionView::Add(t)) => self.tasks.len() > 0 && self.active_view().last() == t,
            Some(ActionView::Delete(_)) => self.total() + 1 < u32::MAX,
            Some(ActionView::Done(id)) => 1 <= id <= self.tasks.len(),
            Some(ActionView::Archive(n)) => n <= self.archived.len(),
            None => true,
        }
    }

    /// An empty tracker.
    pub fn new() -> (r: AppState)
        ensures
            r.wf(),
            r.tasks@.len() == 0,
            r.archived@.len() == 0,
            r.pending() is None,
    {
        AppState { tasks: Vec::new(), archived: Vec::new(), last_action: None }
    }

    /// A tracker over loaded lists; both are re-numbered to dense ids.
    pub fn from_lists(tasks: Vec<Task>, archived: Vec<Task>) -> (r: AppState)
        requires
            tasks.len() + archived.len() < u32::MAX,
        ensures
            r.wf(),
            r.active_view() == renumbered(views(tasks@)),
            r.archive_view() == renumbered(views(archived@)),
            r.pending() is None,
    {
        let mut tasks = tasks;
        let mut archived = archived;
        renumber(&mut tasks);
        renumber(&mut archived);
        assert(views(tasks@).len() == tasks@.len() && views(archived@).len() == archived@.len());
        AppState { tasks, archived, last_action: None }
    }

    /// Appends a new task with the next id and records the addition.
    pub fn add(
        &mut self,
        description: String,
        tags: Vec<String>,
        due_date: Option<i64>,
        priority: Priority,
    ) -> (r: Task)
        requires
            old(self).wf(),
            old(self).total() + 1 < u32::MAX,
        ensures
            final(self).wf(),
            r@ == (TaskView {
                id: (old(self).tasks.len() + 1) as u32,
                description: description@,
                tags: crate::models::string_views(tags@),
                due_date,
                priority,
                completed: false,
            }),
            added(&*old(self), &*final(self), r@),
    {
        let id = (self.tasks.len() + 1) as u32;
        let t = Task::new(id, description, tags, due_date, priority);
        self.tasks.push(t.copy());
        self.last_action = Some(Action::Add(t.copy()));
        proof {
            assert(self.active_view() =~= old(self).active_view().push(t@));
        }
        t
    }

    /// Marks the active task with the given id completed.
    pub fn mark_done(&mut self, id: u32) -> (r: Result<(), TaskError>)
        requires
            old(self).wf(),
        ensures
            final(self).wf(),
            r is Ok <==> 1 <= id <= old(self).tasks.len(),
            r is Ok ==> {
                &&& final(self).active_view() == old(self).active_view().update(
                    id - 1,
                    old(self).active_view()[id - 1].with_completed(true),
                )
                &&& final(self).archive_view() == old(self).archive_view()
                &&& final(self).pending() == Some(ActionView::Done(id))
            },
            r is Err ==> r == Err::<(), TaskError>(TaskError::NotFound) && *final(self) == *old(
                self,
            ),
    {
        if id == 0 || id as usize > self.tasks.len() {
            return Err(TaskError::NotFound);
        }
        let i = (id - 1) as usize;
        self.tasks[i].completed = true;
        self.last_action = Some(Action::Done(id));
        proof {
            assert(self.active_view() =~= old(self).active_view().update(
                id - 1,
                old(self).active_view()[id - 1].with_completed(true),
            ));
        }
        Ok(())
    }

    /// Removes the active task with the given id, re-numbers the rest, and
    /// returns the removed task.
    pub fn delete(&mut self, id: u32) -> (r: Result<Task, TaskError>)
        requires
            old(self).wf(),
        ensures
            final(self).wf(),
            r is Ok <==> 1 <= id <= old(self).tasks.len(),
            r matches Ok(t) ==> deleted(&*old(self), &*final(self), id, t@),
            r is Err ==> r == Err::<Task, TaskError>(TaskError::NotFound) && *final(self) == *old(
                self,
            ),
    {
        if id == 0 || id as usize > self.tasks.len() {
            return Err(TaskError::NotFound);
        }
        let i = (id - 1) as usize;
        let t = self.tasks.remove(i);
        proof {
            assert(views(self.tasks@) =~= old(self).active_view().remove(id - 1));
        }
        renumber(&mut self.tasks);
        self.last_action = Some(Action::Delete(t.copy()));
        Ok(t)
    }

    /// Moves every completed active task, in order, to the end of the archive,
    /// re-numbers both lists, and returns how many were moved.
    pub fn archive(&mut self) -> (r: usize)
        requires
            old(self).wf(),
        ensures
            final(self).wf(),
            archived_from(&*old(self), &*final(self), r),
    {
        let ghost s = self.active_view();
        let mut keep: Vec<Task> = Vec::new();
        let mut moved: Vec<Task> = Vec::new();
        let n = self.tasks.len();
        let mut i: usize = 0;
        while i < n
            invariant
                self.tasks == old(self).tasks,
                self.archived == old(self).archived,
                s == self.active_view(),
                n == self.tasks.len(),
                i <= n,
                views(keep@) == s.take(i as int).filter(open_pred()),
                views(moved@) == s.take(i as int).filter(done_pred()),
            decreases n - i,
        {
            proof {
                lemma_filter_take_step(s, i as int, open_pred());
                lemma_filter_take_step(s, i as int, done_pred());
            }
            let t = self.tasks[i].copy();
            if t.completed {
                proof {
                    assert(views(moved@.push(t)) =~= views(moved@).push(t@));
                }
                moved.push(t);
            } else {
                proof {
                    assert(views(keep@.push(t)) =~= views(keep@).push(t@));
                }
                keep.push(t);
            }
            i += 1;
        }
        proof {
            assert(s.take(n as int) =~= s);
            lemma_filter_split_len(s);
        }
        let count = moved.len();
        let ghost old_archive = self.archive_view();
        self.archived.append(&mut moved);
        proof {
            assert(self.archive_view() =~= old_archive + s.filter(done_pred()));
        }
        self.tasks = keep;
        renumber(&mut self.tasks);
        renumber(&mut self.archived);
        self.last_action = Some(Action::Archive(count));
        count
    }

    /// Reverses the pending action and clears it. An addition is reversed by
    /// removing the task with the recorded id; a deletion by appending the
    /// recorded task; a completion by clearing the flag of the task with the
    /// recorded id; an archiving by moving the tasks it moved, which are the
    /// last ones of the archive, back to the end of the active list. Lists
    /// are re-numbered afterwards. Returns the action that was reversed.
    pub fn undo(&mut self) -> (r: Result<Action, TaskError>)
        requires
            old(self).wf(),
        ensures
            final(self).wf(),
            r is Ok <==> old(self).pending() is Some,
            r is Err ==> r == Err::<Action, TaskError>(TaskError::NothingToUndo) && *final(self)
                == *old(self),
            r matches Ok(a) ==> {
                &&& old(self).pending() == Some(a@)
                &&& undone(&*old(self), &*final(self), a@)
            },
    {
        let action = self.last_action.take();
        match action {
            None => Err(TaskError::NothingToUndo),
            Some(a) => {
                match &a {
                    Action::Add(t) => {
                        proof {
                            let k = self.tasks.len() - 1;
                            assert(self.active_view()[k].id == k + 1);
                        }
                        let i = (t.id - 1) as usize;
                        self.tasks.remove(i);
                        proof {
                            assert(views(self.tasks@) =~= old(self).active_view().drop_last());
                            assert forall|j: int| 0 <= j < self.tasks.len() implies #[trigger] views(
                                self.tasks@,
                            )[j] == views(self.tasks@)[j].with_id((j + 1) as u32) by {
                                assert(old(self).active_view()[j].id == j + 1);
                            }
                            assert(renumbered(views(self.tasks@)) =~= views(self.tasks@));
                        }
                        renumber(&mut self.tasks);
                    },
                    Action::Delete(t) => {
                        self.tasks.push(t.copy());
                        proof {
                            assert(views(self.tasks@) =~= old(self).active_view().push(t@));
                        }
                        renumber(&mut self.tasks);
                    },
                    Action::Done(id) => {
                        let i = (*id - 1) as usize;
                        self.tasks[i].completed = false;
                        proof {
                            assert(self.active_view() =~= old(self).active_view().update(
                                *id - 1,
                                old(self).active_view()[*id - 1].with_completed(false),
                            ));
                        }
                    },
                    Action::Archive(n) => {
                        let at = self.archived.len() - *n;
                        let mut back = self.archived.split_off(at);
                        proof {
                            assert(views(back@) =~= old(self).archive_view().skip(at as int));
                            assert(self.archive_view() =~= old(self).archive_view().take(
                                at as int,
                            ));
                        }
                        let ghost before = self.active_view();
                        self.tasks.append(&mut back);
                        proof {
                            assert(self.active_view() =~= before + old(self).archive_view().skip(
                                at as int,
                            ));
                            assert forall|j: int| 0 <= j < at implies #[trigger] self.archive_view()[j]
                                == self.archive_view()[j].with_id((j + 1) as u32) by {
                                assert(old(self).archive_view()[j].id == j + 1);
                            }
                            assert(renumbered(self.archive_view()) =~= self.archive_view());
                        }
                        renumber(&mut self.tasks);
                        renumber(&mut self.archived);
                    },
                }
                Ok(a)
            },
        }
    }
}

/// `s1` is `s0` with the task `t` appended and the addition recorded.
pub open spec fn added(s0: &AppState, s1: &AppState, t: TaskView) -> bool {
    &&& t.id == s0.tasks.len() + 1
    &&& s1.active_view() == s0.active_view().push(t)
    &&& s1.archive_view() == s0.archive_view()
    &&& s1.pending() == Some(ActionView::Add(t))
}

/// `s1` is `s0` with the active task of id `id`, which is `t`, removed, the
/// rest re-numbered, and the deletion recorded.
pub open spec fn deleted(s0: &AppState, s1: &AppState, id: u32, t: TaskView) -> bool {
    &&& 1 <= id <= s0.tasks.len()
    &&& t == s0.active_view()[id - 1]
    &&& s1.active_view() == renumbered(s0.active_view().remove(id - 1))
    &&& s1.archive_view() == s0.archive_view()
    &&& s1.pending() == Some(ActionView::Delete(t))
}

/// `s1` is `s0` with its `n` completed active tasks moved, in order, to the
/// end of the archive, both lists re-numbered, and the move recorded.
pub open spec fn archived_from(s0: &AppState, s1: &AppState, n: usize) -> bool {
    &&& s1.active_view() == renumbered(s0.active_view().filter(open_pred()))
    &&& s1.archive_view() == renumbered(
        s0.archive_view() + s0.active_view().filter(done_pred()),
    )
    &&& n == s0.active_view().filter(done_pred()).len()
    &&& s1.pending() == Some(ActionView::Archive(n))
}

/// `s1` is `s0` with the action `a` reversed and no action pending.
pub open spec fn undone(s0: &AppState, s1: &AppState, a: ActionView) -> bool {
    &&& s1.pending() is None
    &&& match a {
        ActionView::Add(_) => {
            &&& s1.active_view() == s0.active_view().drop_last()
            &&& s1.archive_view() == s0.archive_view()
        },
        ActionView::Delete(t) => {
            &&& s1.active_view() == renumbered(s0.active_view().push(t))
            &&& s1.archive_view() == s0.archive_view()
        },
        ActionView::Done(id) => {
            &&& s1.active_view() == s0.active_view().update(
                id - 1,
                s0.active_view()[id - 1].with_completed(false),
            )
            &&& s1.archive_view() == s0.archive_view()
        },
        ActionView::Archive(n) => {
            &&& s1.active_view() == renumbered(
                s0.active_view() + s0.archive_view().skip(s0.archived.len() - n),
            )
            &&& s1.archive_view() == s0.archive_view().take(s0.archived.len() - n)
        },
    }
}

/// A list splits into its completed and its open tasks.
pub proof fn lemma_filter_split_len(s: Seq<TaskView>)
    ensures
        s.filter(open_pred()).len() + s.filter(done_pred()).len() == s.len(),
    decreases s.len(),
{
    reveal(Seq::filter);
    if s.len() > 0 {
        lemma_filter_split_len(s.drop_last());
    }
}

/// Ids stay dense: after an addition, a deletion or an archiving on a
/// well-formed state, the ids of each list are exactly `1..=len`, in order.
pub proof fn law_dense_ids(s0: &AppState, s1: &AppState, t: TaskView, id: u32, n: usize)
    requires
        s0.wf(),
        added(s0, s1, t) || deleted(s0, s1, id, t) || archived_from(s0, s1, n),
    ensures
        dense(s1.active_view()),
        dense(s1.archive_view()),
{
    broadcast use vstd::seq_lib::group_filter_ensures;

    if added(s0, s1, t) {
        assert forall|i: int| 0 <= i < s1.active_view().len() implies #[trigger] s1.active_view()[
            i
        ].id == i + 1 by {
            if i < s0.tasks.len() {
                assert(s0.active_view()[i].id == i + 1);
            }
        }
    } else if deleted(s0, s1, id, t) {
        lemma_renumbered_dense(s0.active_view().remove(id - 1));
    } else {
        lemma_renumbered_dense(s0.active_view().filter(open_pred()));
        lemma_filter_split_len(s0.active_view());
        lemma_renumbered_dense(s0.archive_view() + s0.active_view().filter(done_pred()));
    }
}

/// Archiving leaves no completed task in the active list, and puts exactly
/// the completed tasks, in their former order, after what the archive held.
pub proof fn law_archive_partition(s0: &AppState, s1: &AppState, n: usize)
    requires
        s0.wf(),
        archived_from(s0, s1, n),
    ensures
        forall|i: int| 0 <= i < s1.tasks.len() ==> !(#[trigger] s1.active_view()[i]).completed,
        s1.archived.len() == s0.archived.len() + n,
        contents(s1.archive_view().take(s0.archived.len() as int)) == contents(s0.archive_view()),
        contents(s1.archive_view().skip(s0.archived.len() as int)) == contents(
            s0.active_view().filter(done_pred()),
        ),
{
    broadcast use vstd::seq_lib::group_filter_ensures;

    let kept = s0.active_view().filter(open_pred());
    let moved = s0.active_view().filter(done_pred());
    let a = s0.archive_view();
    lemma_filter_split_len(s0.active_view());
    lemma_renumbered_dense(a + moved);
    assert(s1.archive_view().len() == a.len() + moved.len());
    assert(contents(s1.archive_view()) == contents(a + moved));
    assert(contents(s1.archive_view().take(a.len() as int)) =~= contents(a + moved).take(
        a.len() as int,
    ));
    assert(contents(a + moved).take(a.len() as int) =~= contents(a));
    assert(contents(s1.archive_view().skip(a.len() as int)) =~= contents(a + moved).skip(
        a.len() as int,
    ));
    assert(contents(a + moved).skip(a.len() as int) =~= contents(moved));
    assert forall|i: int| 0 <= i < s1.tasks.len() implies !(
    #[trigger] s1.active_view()[i]).completed by {
        assert(s1.active_view().len() == s1.tasks.len());
        assert(s1.active_view()[i] == kept[i].with_id((i + 1) as u32));
        s0.active_view().lemma_filter_pred(open_pred(), i);
    }
}

/// Undoing an addition gives back the active list as it was before it.
pub proof fn law_undo_add(s0: &AppState, s1: &AppState, s2: &AppState, t: TaskView)
    requires
        s0.wf(),
        added(s0, s1, t),
        undone(s1, s2, ActionView::Add(t)),
    ensures
        s2.active_view() == s0.active_view(),
        contents(s2.active_view()) == contents(s0.active_view()),
        s2.archive_view() == s0.archive_view(),
{
    assert(s0.active_view().push(t).drop_last() =~= s0.active_view());
}

/// Undoing a deletion puts a task with the content of the deleted one back,
/// at the end of the active list.
pub proof fn law_undo_delete(s0: &AppState, s1: &AppState, s2: &AppState, id: u32, t: TaskView)
    requires
        s0.wf(),
        deleted(s0, s1, id, t),
        undone(s1, s2, ActionView::Delete(t)),
    ensures
        s2.active_view().len() == s0.active_view().len(),
        s2.active_view().last().content() == s0.active_view()[id - 1].content(),
        contents(s2.active_view()) == contents(s0.active_view().remove(id - 1)).push(
            t.content(),
        ),
        s2.archive_view() == s0.archive_view(),
{
    let rest = s0.active_view().remove(id - 1);
    lemma_renumbered_dense(rest);
    lemma_renumbered_dense(renumbered(rest).push(t));
    assert(contents(renumbered(rest).push(t)) =~= contents(renumbered(rest)).push(t.content()));
    let last = s2.active_view().len() - 1;
    assert(contents(s2.active_view())[last] == s2.active_view()[last].content());
}

} // verus!
