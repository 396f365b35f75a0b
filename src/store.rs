//! Changes to the task store: moving, deleting, editing and creating tasks.
use vstd::prelude::*;
use crate::data::{ids_unique, Task, TaskStatus, MyeonData, Timestamp, next_status, prev_status, fresh_id, now};
use crate::app::{App, InputMode, general_label, general_string};
use crate::board::{selected_task};
use crate::laws::{lemma_ids_stay_unique, lemma_selected_terminal};

verus! {

/// `tasks` with the status of every task carrying `id` moved one stage
/// forward (or backward).
pub open spec fn restatus(tasks: Seq<Task>, id: u128, forward: bool) -> Seq<Task> {
    tasks.map_values(
        |t: Task|
            if t.id == id {
                Task {
                    status: if forward {
                        next_status(t.status)
                    } else {
                        prev_status(t.status)
                    },
                    ..t
                }
            } else {
                t
            },
    )
}

/// `tasks` without the tasks carrying `id`.
pub open spec fn without_id(tasks: Seq<Task>, id: u128) -> Seq<Task> {
    tasks.filter(|t: Task| t.id != id)
}

/// Task `t` after an edit submitted from session `a`: title and priority
/// taken from the drafts, description and context only where their draft is
/// not empty; id, status and creation time kept.
pub open spec fn edited_task(t: Task, a: App) -> Task {
    Task {
        title: a.input,
        description: if a.editing_description@.len() == 0 {
            t.description
        } else {
            Some(a.editing_description)
        },
        context: if a.editing_context@.len() == 0 {
            t.context
        } else {
            a.editing_context
        },
        priority: a.editing_priority,
        ..t
    }
}

/// `tasks` with every task carrying `id` edited from session `a`.
pub open spec fn apply_edit(tasks: Seq<Task>, id: u128, a: App) -> Seq<Task> {
    tasks.map_values(|t: Task| if t.id == id { edited_task(t, a) } else { t })
}

/// `t` is the task that submitting session `a` creates with identity `id` at `at`.
pub open spec fn is_created_task(t: Task, a: App, id: u128, at: Timestamp) -> bool {
    &&& t.id == id
    &&& t.title == a.input
    &&& t.description is None
    &&& t.status == TaskStatus::Idea
    &&& t.priority == a.editing_priority
    &&& t.context@ == if a.editing_context@.len() == 0 {
        general_label()
    } else {
        a.editing_context@
    }
    &&& t.created_at == at
}

/// Some task of `tasks` carries `id`.
pub open spec fn has_id(tasks: Seq<Task>, id: u128) -> bool {
    exists|i: int| 0 <= i < tasks.len() && tasks[i].id == id
}

/// `b` is `a` after the selected task, if any, moved one stage forward (or backward).
pub open spec fn task_moved(a: App, b: App, forward: bool) -> bool {
    &&& b.all_tasks@ == match selected_task(a) {
        Some(t) => restatus(a.all_tasks@, t.id, forward),
        None => a.all_tasks@,
    }
    &&& b.column_index == a.column_index
    &&& b.selected_task_index == a.selected_task_index
    &&& b.current_context@ == a.current_context@
    &&& a.keeps_session(b)
}

/// `b` is `a` after the selected task, if any, was deleted.
pub open spec fn task_deleted(a: App, b: App) -> bool {
    &&& match selected_task(a) {
        Some(t) => {
            &&& b.all_tasks@ == without_id(a.all_tasks@, t.id)
            &&& b.selected_task_index == if a.selected_task_index > 0 {
                a.selected_task_index - 1
            } else {
                0
            }
        },
        None => b.all_tasks@ == a.all_tasks@ && b.selected_task_index == a.selected_task_index,
    }
    &&& b.column_index == a.column_index
    &&& b.current_context@ == a.current_context@
    &&& a.keeps_session(b)
}

/// Submitting session `a` with the fresh identity `id` changes something:
/// the title draft is not empty, and a new task would not reuse an id.
pub open spec fn submit_applies(a: App, id: u128) -> bool {
    a.input@.len() > 0 && (a.is_editing_existing || !has_id(a.all_tasks@, id))
}

/// `b` is `a` after submitting its session, with `id` and `at` as the
/// identity and creation time of a task it creates.
pub open spec fn submitted(a: App, b: App, id: u128, at: Timestamp) -> bool {
    if !submit_applies(a, id) {
        a.keeps_board(b) && a.keeps_session(b)
    } else {
        &&& if a.is_editing_existing {
            b.all_tasks@ == match a.editing_task_id {
                Some(tid) => apply_edit(a.all_tasks@, tid, a),
                None => a.all_tasks@,
            }
        } else {
            &&& b.all_tasks@.len() == a.all_tasks@.len() + 1
            &&& b.all_tasks@.drop_last() == a.all_tasks@
            &&& is_created_task(b.all_tasks@.last(), a, id, at)
        }
        &&& b.input_mode == InputMode::Normal
        &&& b.session_cleared()
        &&& b.column_index == a.column_index
        &&& b.selected_task_index == a.selected_task_index
        &&& b.current_context@ == a.current_context@
    }
}

impl App {
    /// Moves every task carrying `id` one stage forward (or backward).
    fn restatus_id(&mut self, id: u128, forward: bool)
        ensures
            final(self).all_tasks@ == restatus(old(self).all_tasks@, id, forward),
            final(self).column_index == old(self).column_index,
            final(self).selected_task_index == old(self).selected_task_index,
            final(self).current_context == old(self).current_context,
            old(self).keeps_session(*final(self)),
            *final(self) == (App { all_tasks: final(self).all_tasks, ..*old(self) }),
    {
        let ghost start = self.all_tasks@;
        let mut i: usize = 0;
        while i < self.all_tasks.len()
            invariant
                i <= self.all_tasks.len(),
                self.all_tasks@.len() == start.len(),
                *self == (App { all_tasks: self.all_tasks, ..*old(self) }),
                forall|j: int| 0 <= j < i ==> self.all_tasks@[j] == restatus(start, id, forward)[j],
                forall|j: int| i <= j < start.len() ==> self.all_tasks@[j] == start[j],
            decreases self.all_tasks.len() - i,
        {
            if self.all_tasks[i].id == id {
                let mut t = self.all_tasks[i].clone();
                t.status = if forward {
                    t.status.forward()
                } else {
                    t.status.backward()
                };
                self.all_tasks.set(i, t);
            }
            i += 1;
        }
        proof {
            assert(self.all_tasks@ =~= restatus(start, id, forward));
        }
    }

    /// Moves the selected task, if any, one stage forward: Idea, Todo,
    /// Doing, Done; a Done task stays. Returns what is to be saved.
    pub fn move_task_forward(&mut self) -> (saved: MyeonData)
        requires
            old(self).wf(),
            old(self).input_mode == InputMode::Normal,
        ensures
            final(self).wf(),
            task_moved(*old(self), *final(self), true),
            saved.tasks@ == final(self).all_tasks@,
            ids_unique(old(self).all_tasks@) ==> ids_unique(final(self).all_tasks@),
            ids_unique(old(self).all_tasks@) && selected_task(*old(self)) is Some && selected_task(
                *old(self),
            )->Some_0.status == TaskStatus::Done ==> final(self).all_tasks@ == old(self).all_tasks@,
    {
        match self.selected_id() {
            Some(id) => self.restatus_id(id, true),
            None => {},
        }
        proof {
            if ids_unique(old(self).all_tasks@) {
                lemma_ids_stay_unique(*old(self), *self, 0, Timestamp { secs: 0, nanos: 0 }, true);
                if selected_task(*old(self)) is Some && selected_task(*old(self))->Some_0.status
                    == TaskStatus::Done {
                    lemma_selected_terminal(*old(self), true);
                }
            }
        }
        MyeonData::from_tasks(&self.all_tasks)
    }

    /// Moves the selected task, if any, one stage backward; an Idea task
    /// stays. Returns what is to be saved.
    pub fn move_task_backward(&mut self) -> (saved: MyeonData)
        requires
            old(self).wf(),
            old(self).input_mode == InputMode::Normal,
        ensures
            final(self).wf(),
            task_moved(*old(self), *final(self), false),
            saved.tasks@ == final(self).all_tasks@,
            ids_unique(old(self).all_tasks@) ==> ids_unique(final(self).all_tasks@),
            ids_unique(old(self).all_tasks@) && selected_task(*old(self)) is Some && selected_task(
                *old(self),
            )->Some_0.status == TaskStatus::Idea ==> final(self).all_tasks@ == old(self).all_tasks@,
    {
        match self.selected_id() {
            Some(id) => self.restatus_id(id, false),
            None => {},
        }
        proof {
            if ids_unique(old(self).all_tasks@) {
                lemma_ids_stay_unique(*old(self), *self, 0, Timestamp { secs: 0, nanos: 0 }, false);
                if selected_task(*old(self)) is Some && selected_task(*old(self))->Some_0.status
                    == TaskStatus::Idea {
                    lemma_selected_terminal(*old(self), false);
                }
            }
        }
        MyeonData::from_tasks(&self.all_tasks)
    }

    /// Deletes the selected task, if any, and moves the cursor up one row
    /// unless it is on the first. Returns what is to be saved.
    pub fn delete_task(&mut self) -> (saved: MyeonData)
        requires
            old(self).wf(),
            old(self).input_mode == InputMode::Normal,
        ensures
            final(self).wf(),
            task_deleted(*old(self), *final(self)),
            saved.tasks@ == final(self).all_tasks@,
    {
        match self.selected_id() {
            Some(id) => {
                let ghost start = self.all_tasks@;
                let mut kept: Vec<Task> = Vec::new();
                let mut i: usize = 0;
                proof {
                    reveal(Seq::filter);
                    assert(start.take(0) =~= seq![]);
                }
                while i < self.all_tasks.len()
                    invariant
                        i <= self.all_tasks.len(),
                        start == self.all_tasks@,
                        kept@ == without_id(start.take(i as int), id),
                    decreases self.all_tasks.len() - i,
                {
                    proof {
                        reveal(Seq::filter);
                        assert(start.take(i as int + 1).drop_last() =~= start.take(i as int));
                    }
                    if self.all_tasks[i].id != id {
                        kept.push(self.all_tasks[i].clone());
                    }
                    i += 1;
                }
                proof {
                    assert(start.take(start.len() as int) =~= start);
                }
                self.all_tasks = kept;
                if self.selected_task_index > 0 {
                    self.selected_task_index -= 1;
                }
            },
            None => {},
        }
        MyeonData::from_tasks(&self.all_tasks)
    }

    /// Applies the drafts to every task carrying `id`.
    fn edit_id(&mut self, id: u128)
        ensures
            final(self).all_tasks@ == apply_edit(old(self).all_tasks@, id, *old(self)),
            *final(self) == (App { all_tasks: final(self).all_tasks, ..*old(self) }),
    {
        let ghost start = self.all_tasks@;
        let mut i: usize = 0;
        while i < self.all_tasks.len()
            invariant
                i <= self.all_tasks.len(),
                self.all_tasks@.len() == start.len(),
                *self == (App { all_tasks: self.all_tasks, ..*old(self) }),
                forall|j: int| 0 <= j < i ==> self.all_tasks@[j] == apply_edit(start, id, *old(self))[j],
                forall|j: int| i <= j < start.len() ==> self.all_tasks@[j] == start[j],
            decreases self.all_tasks.len() - i,
        {
            if self.all_tasks[i].id == id {
                let mut t = self.all_tasks[i].clone();
                t.title = self.input.clone();
                if !self.editing_description.as_str().is_empty() {
                    t.description = Some(self.editing_description.clone());
                }
                if !self.editing_context.as_str().is_empty() {
                    t.context = self.editing_context.clone();
                }
                t.priority = self.editing_priority;
                self.all_tasks.set(i, t);
            }
            i += 1;
        }
        proof {
            assert(self.all_tasks@ =~= apply_edit(start, id, *old(self)));
        }
    }

    /// Some task carries `id`.
    fn contains_id(&self, id: u128) -> (r: bool)
        ensures
            r == has_id(self.all_tasks@, id),
    {
        let mut i: usize = 0;
        while i < self.all_tasks.len()
            invariant
                i <= self.all_tasks.len(),
                forall|j: int| 0 <= j < i ==> self.all_tasks@[j].id != id,
            decreases self.all_tasks.len() - i,
        {
            if self.all_tasks[i].id == id {
                return true;
            }
            i += 1;
        }
        false
    }

    /// Submits the editing session, with `id` and `created_at` as the
    /// identity and creation time of a task it creates. Nothing happens while
    /// the title draft is empty, nor when a new task would reuse an id that
    /// is already on the board. Otherwise an existing task is edited (title
    /// and priority always, description and context only from non-empty
    /// drafts) or a new `Idea` task is added, the session is cleared, and the
    /// tasks to be saved are returned.
    pub fn submit_task_with(&mut self, id: u128, created_at: Timestamp) -> (saved:
        Option<MyeonData>)
        requires
            old(self).wf(),
        ensures
            final(self).wf(),
            submitted(*old(self), *final(self), id, created_at),
            saved is Some <==> submit_applies(*old(self), id),
            saved matches Some(d) ==> d.tasks@ == final(self).all_tasks@,
    {
        if self.input.as_str().is_empty() {
            return None;
        }
        if self.is_editing_existing {
            match self.editing_task_id {
                Some(tid) => self.edit_id(tid),
                None => {},
            }
        } else {
            if self.contains_id(id) {
                return None;
            }
            let context = if self.editing_context.as_str().is_empty() {
                general_string()
            } else {
                self.editing_context.clone()
            };
            let t = Task {
                id,
                title: self.input.clone(),
                description: None,
                status: TaskStatus::Idea,
                priority: self.editing_priority,
                context,
                created_at,
            };
            let ghost before = self.all_tasks@;
            self.all_tasks.push(t);
            proof {
                assert(self.all_tasks@.drop_last() =~= before);
            }
        }
        self.reset_editing_state();
        Some(MyeonData::from_tasks(&self.all_tasks))
    }

    /// Submits the editing session; a new task gets a fresh random identity
    /// and the current time.
    pub fn submit_task(&mut self) -> (saved: Option<MyeonData>)
        requires
            old(self).wf(),
        ensures
            final(self).wf(),
            exists|id: u128, at: Timestamp|
                {
                    &&& submitted(*old(self), *final(self), id, at)
                    &&& (saved is Some <==> submit_applies(*old(self), id))
                },
            saved matches Some(d) ==> d.tasks@ == final(self).all_tasks@,
    {
        let id = fresh_id();
        let at = now();
        self.submit_task_with(id, at)
    }
}

} // verus!
