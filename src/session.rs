//! The editing session: the edit form, its drafts and its fields.
use vstd::prelude::*;
use crate::data::{Priority};
use crate::app::{App, EditField, InputMode};
use crate::board::{deref_all, selected_task, task_contexts, views};

verus! {

/// `b` is `a` after an edit of the selected task, if any, began.
pub open spec fn edit_started(a: App, b: App) -> bool {
    &&& a.keeps_board(b)
    &&& match selected_task(a) {
        Some(t) => {
            &&& b.input@ == t.title@
            &&& b.editing_context@ == t.context@
            &&& b.editing_priority == t.priority
            &&& b.editing_description@ == match t.description {
                Some(d) => d@,
                None => Seq::<char>::empty(),
            }
            &&& b.input_mode == InputMode::Editing
            &&& b.is_editing_existing
            &&& b.editing_task_id == Some(t.id)
            &&& b.active_edit_field == a.active_edit_field
            &&& b.context_list_index == a.context_list_index
        },
        None => a.keeps_session(b),
    }
}

/// The field after (or before) `f` in the cycle Title, Description,
/// Context, Priority.
pub open spec fn next_field(f: EditField, forward: bool) -> EditField {
    match f {
        EditField::Title => if forward { EditField::Description } else { EditField::Priority },
        EditField::Description => if forward { EditField::Context } else { EditField::Title },
        EditField::Context => if forward { EditField::Priority } else { EditField::Description },
        EditField::Priority => if forward { EditField::Title } else { EditField::Context },
    }
}

/// The priority that digit `c` selects in the priority field, if any.
pub open spec fn priority_key(c: char, p: Priority) -> Priority {
    if c == '1' {
        Priority::Low
    } else if c == '2' {
        Priority::Medium
    } else if c == '3' {
        Priority::High
    } else {
        p
    }
}

/// `b` is `a` with an editing session for a new task opened.
pub open spec fn add_begun(a: App, b: App) -> bool {
    &&& a.keeps_board(b)
    &&& a.keeps_drafts(b)
    &&& b.input_mode == InputMode::Editing
    &&& b.is_editing_existing == a.is_editing_existing
    &&& b.editing_task_id == a.editing_task_id
    &&& b.active_edit_field == a.active_edit_field
    &&& b.context_list_index == a.context_list_index
}

/// `b` is `a` with the next (or previous) field of the form active.
pub open spec fn field_cycled(a: App, b: App, forward: bool) -> bool {
    &&& a.keeps_board(b)
    &&& a.keeps_drafts(b)
    &&& b.active_edit_field == next_field(a.active_edit_field, forward)
    &&& b.input_mode == a.input_mode
    &&& b.is_editing_existing == a.is_editing_existing
    &&& b.editing_task_id == a.editing_task_id
    &&& b.context_list_index == a.context_list_index
}

/// The entry of the context picker after (or before) `k`, wrapping around `n` entries.
pub open spec fn picker_step(k: int, n: int, down: bool) -> int {
    if down {
        (k + 1) % n
    } else if k > 0 {
        k - 1
    } else {
        n - 1
    }
}

/// `b` is `a` with the context picker moved down (or up) and its entry
/// copied into the context draft.
pub open spec fn context_picked(a: App, b: App, down: bool) -> bool {
    let ctxs = task_contexts(a.all_tasks@);
    let k = picker_step(a.context_list_index as int, ctxs.len() as int, down);
    &&& a.keeps_board(b)
    &&& b.context_list_index == k
    &&& b.editing_context@ == ctxs[k]
    &&& b.input@ == a.input@
    &&& b.editing_description@ == a.editing_description@
    &&& b.editing_priority == a.editing_priority
    &&& b.input_mode == a.input_mode
    &&& b.is_editing_existing == a.is_editing_existing
    &&& b.editing_task_id == a.editing_task_id
    &&& b.active_edit_field == a.active_edit_field
}

/// `b` is `a` after character `c` was typed into the active field: text
/// fields append it, the priority field takes only the digits 1, 2 and 3.
pub open spec fn typed(a: App, b: App, c: char) -> bool {
    let f = a.active_edit_field;
    &&& a.keeps_board(b)
    &&& a.keeps_mode(b)
    &&& b.input@ == if f == EditField::Title { a.input@.push(c) } else { a.input@ }
    &&& b.editing_description@ == if f == EditField::Description {
        a.editing_description@.push(c)
    } else {
        a.editing_description@
    }
    &&& b.editing_context@ == if f == EditField::Context {
        a.editing_context@.push(c)
    } else {
        a.editing_context@
    }
    &&& b.editing_priority == if f == EditField::Priority {
        priority_key(c, a.editing_priority)
    } else {
        a.editing_priority
    }
}

/// `b` is `a` after the last character of the active text field was erased.
pub open spec fn erased(a: App, b: App) -> bool {
    let f = a.active_edit_field;
    &&& a.keeps_board(b)
    &&& a.keeps_mode(b)
    &&& b.input@ == if f == EditField::Title { crate::text::drop_last_char(a.input@) } else { a.input@ }
    &&& b.editing_description@ == if f == EditField::Description {
        crate::text::drop_last_char(a.editing_description@)
    } else {
        a.editing_description@
    }
    &&& b.editing_context@ == if f == EditField::Context {
        crate::text::drop_last_char(a.editing_context@)
    } else {
        a.editing_context@
    }
    &&& b.editing_priority == a.editing_priority
}

/// `b` is `a` with the editing session discarded.
pub open spec fn cancelled(a: App, b: App) -> bool {
    &&& a.keeps_board(b)
    &&& b.input_mode == InputMode::Normal
    &&& b.session_cleared()
}

impl App {
    /// Opens the edit form on the selected task, if any, with its title,
    /// description, context and priority as drafts.
    pub fn start_edit(&mut self)
        requires
            old(self).wf(),
        ensures
            final(self).wf(),
            edit_started(*old(self), *final(self)),
    {
        match self.selected_id() {
            Some(id) => {
                let tasks = self.get_current_column_tasks();
                let t = tasks[self.selected_task_index];
                proof {
                    assert(deref_all(tasks@)[self.selected_task_index as int] == *tasks@[self.selected_task_index as int]);
                }
                let title = t.title.clone();
                let context = t.context.clone();
                let priority = t.priority;
                let description = match &t.description {
                    Some(d) => d.clone(),
                    None => String::new(),
                };
                self.input = title;
                self.editing_context = context;
                self.editing_priority = priority;
                self.editing_description = description;
                self.input_mode = InputMode::Editing;
                self.is_editing_existing = true;
                self.editing_task_id = Some(id);
            },
            None => {},
        }
    }

    /// Clears every draft and returns to normal mode.
    pub(crate) fn reset_editing_state(&mut self)
        ensures
            final(self).session_cleared(),
            final(self).input_mode == InputMode::Normal,
            old(self).keeps_board(*final(self)),
    {
        self.input = String::new();
        self.editing_context = String::new();
        self.editing_description = String::new();
        self.editing_priority = Priority::Low;
        self.active_edit_field = EditField::Title;
        self.context_list_index = 0;
        self.input_mode = InputMode::Normal;
        self.is_editing_existing = false;
        self.editing_task_id = None;
    }

    /// Opens an empty editing session for a new task.
    pub fn begin_add(&mut self)
        requires
            old(self).wf(),
        ensures
            final(self).wf(),
            add_begun(*old(self), *final(self)),
    {
        self.input_mode = InputMode::Editing;
    }

    /// Makes the next (or previous) field of the form active.
    pub fn cycle_field(&mut self, forward: bool)
        requires
            old(self).wf(),
            old(self).input_mode == InputMode::Editing,
        ensures
            final(self).wf(),
            field_cycled(*old(self), *final(self), forward),
    {
        self.active_edit_field = match self.active_edit_field {
            EditField::Title => if forward { EditField::Description } else { EditField::Priority },
            EditField::Description => if forward { EditField::Context } else { EditField::Title },
            EditField::Context => if forward { EditField::Priority } else { EditField::Description },
            EditField::Priority => if forward { EditField::Title } else { EditField::Context },
        };
    }

    /// Moves the context picker down (or up), wrapping at both ends, and
    /// copies the picked context into the context draft.
    pub fn pick_context(&mut self, down: bool)
        requires
            old(self).wf(),
            old(self).input_mode == InputMode::Editing,
        ensures
            final(self).wf(),
            task_contexts(old(self).all_tasks@).len() == 0 ==> old(self).keeps_board(*final(self))
                && old(self).keeps_session(*final(self)),
            task_contexts(old(self).all_tasks@).len() > 0 ==> context_picked(
                *old(self),
                *final(self),
                down,
            ),
    {
        let contexts = self.get_task_contexts();
        if contexts.len() > 0 {
            let n = contexts.len();
            self.context_list_index = if down {
                (self.context_list_index + 1) % n
            } else if self.context_list_index > 0 {
                self.context_list_index - 1
            } else {
                n - 1
            };
            proof {
                let k = self.context_list_index as int;
                assert(views(contexts@)[k] == contexts@[k]@);
            }
            self.editing_context = contexts[self.context_list_index].clone();
        }
    }

    /// Types `c` into the active field.
    pub fn type_char(&mut self, c: char)
        requires
            old(self).wf(),
            old(self).input_mode == InputMode::Editing,
        ensures
            final(self).wf(),
            typed(*old(self), *final(self), c),
    {
        match self.active_edit_field {
            EditField::Title => crate::text::push_char(&mut self.input, c),
            EditField::Description => crate::text::push_char(&mut self.editing_description, c),
            EditField::Context => crate::text::push_char(&mut self.editing_context, c),
            EditField::Priority => {
                if c == '1' {
                    self.editing_priority = Priority::Low;
                } else if c == '2' {
                    self.editing_priority = Priority::Medium;
                } else if c == '3' {
                    self.editing_priority = Priority::High;
                }
            },
        }
    }

    /// Erases the last character of the active text field.
    pub fn erase_char(&mut self)
        requires
            old(self).wf(),
            old(self).input_mode == InputMode::Editing,
        ensures
            final(self).wf(),
            erased(*old(self), *final(self)),
    {
        match self.active_edit_field {
            EditField::Title => crate::text::pop_char(&mut self.input),
            EditField::Description => crate::text::pop_char(&mut self.editing_description),
            EditField::Context => crate::text::pop_char(&mut self.editing_context),
            EditField::Priority => {},
        }
    }

    /// Discards the editing session without touching the store.
    pub fn cancel_edit(&mut self)
        requires
            old(self).wf(),
        ensures
            final(self).wf(),
            cancelled(*old(self), *final(self)),
    {
        self.reset_editing_state();
    }
}

} // verus!
