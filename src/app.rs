//! The state of a running board and its invariant.
use vstd::prelude::*;
use vstd::string::*;
use crate::data::{Priority, Task, TaskStatus, MyeonData, fresh_id, ids_unique, now};
use crate::board::{task_contexts};

verus! {

/// Whether keys drive the board or an edit form.
#[derive(Clone, Copy, Debug, PartialEq, Eq, Structural)]
pub enum InputMode {
    Normal,
    Editing,
}

/// The field of the edit form that receives typed characters.
#[derive(Clone, Copy, Debug, PartialEq, Eq, Structural)]
pub enum EditField {
    Title,
    Description,
    Context,
    Priority,
}

/// The whole state of a running board: the task store, the navigation
/// cursor, the context filter and the editing session.
#[derive(Debug)]
pub struct App {
    pub column_index: usize,
    pub selected_task_index: usize,
    pub all_tasks: Vec<Task>,
    pub current_context: String,
    pub input: String,
    pub input_mode: InputMode,
    pub is_editing_existing: bool,
    pub editing_task_id: Option<u128>,
    pub active_edit_field: EditField,
    pub editing_priority: Priority,
    pub editing_context: String,
    pub editing_description: String,
    pub context_list_index: usize,
}

/// The pseudo-context that shows every task.
pub open spec fn all_label() -> Seq<char> {
    seq!['A', 'l', 'l']
}

/// The context a task gets when none is given.
pub open spec fn general_label() -> Seq<char> {
    seq!['G', 'e', 'n', 'e', 'r', 'a', 'l']
}

/// The title of the task that greets an empty board.
pub open spec fn welcome_title() -> Seq<char> {
    "Welcome to myeon. Press 'a' to add a task."@
}

/// `r@ == "All"`.
pub(crate) fn is_all_label(r: &String) -> (b: bool)
    ensures
        b == (r@ == all_label()),
{
    let all = String::from_str("All");
    proof {
        reveal_strlit("All");
        assert(all@ =~= all_label());
    }
    *r == all
}

/// A fresh `"All"`.
pub(crate) fn all_string() -> (r: String)
    ensures
        r@ == all_label(),
{
    let all = String::from_str("All");
    proof {
        reveal_strlit("All");
        assert(all@ =~= all_label());
    }
    all
}

/// A fresh `"General"`.
pub(crate) fn general_string() -> (r: String)
    ensures
        r@ == general_label(),
{
    let g = String::from_str("General");
    proof {
        reveal_strlit("General");
        assert(g@ =~= general_label());
    }
    g
}

impl App {
    /// No draft survives outside an editing session.
    pub open spec fn session_cleared(&self) -> bool {
        &&& self.input@.len() == 0
        &&& self.editing_description@.len() == 0
        &&& self.editing_context@.len() == 0
        &&& self.editing_priority == Priority::Low
        &&& self.active_edit_field == EditField::Title
        &&& self.context_list_index == 0
        &&& !self.is_editing_existing
        &&& self.editing_task_id is None
    }

    /// The invariant of a running board.
    pub open spec fn wf(&self) -> bool {
        &&& self.column_index <= 3
        &&& (self.is_editing_existing <==> self.editing_task_id is Some)
        &&& (self.input_mode == InputMode::Normal ==> self.session_cleared())
        &&& (self.context_list_index == 0 || self.context_list_index < task_contexts(
            self.all_tasks@,
        ).len())
    }

    /// The cursor, the context filter and the task store of `b` are those of `self`.
    pub open spec fn keeps_board(&self, b: App) -> bool {
        &&& b.all_tasks@ == self.all_tasks@
        &&& b.column_index == self.column_index
        &&& b.selected_task_index == self.selected_task_index
        &&& b.current_context@ == self.current_context@
    }

    /// The editing session of `b`, drafts aside, is that of `self`.
    pub open spec fn keeps_mode(&self, b: App) -> bool {
        &&& b.input_mode == self.input_mode
        &&& b.is_editing_existing == self.is_editing_existing
        &&& b.editing_task_id == self.editing_task_id
        &&& b.active_edit_field == self.active_edit_field
        &&& b.context_list_index == self.context_list_index
    }

    /// The drafts of `b` are those of `self`.
    pub open spec fn keeps_drafts(&self, b: App) -> bool {
        &&& b.input@ == self.input@
        &&& b.editing_description@ == self.editing_description@
        &&& b.editing_context@ == self.editing_context@
        &&& b.editing_priority == self.editing_priority
    }

    /// The editing session of `b` is that of `self`.
    pub open spec fn keeps_session(&self, b: App) -> bool {
        self.keeps_mode(b) && self.keeps_drafts(b)
    }

    /// A board over the loaded `data`; an empty board gets one welcome task
    /// so that the user sees how to start.
    pub fn new(data: MyeonData) -> (r: App)
        ensures
            r.wf(),
            data.tasks@.len() > 0 ==> r.all_tasks@ == data.tasks@,
            ids_unique(data.tasks@) ==> ids_unique(r.all_tasks@),
            data.tasks@.len() == 0 ==> {
                &&& r.all_tasks@.len() == 1
                &&& r.all_tasks@[0].title@ == welcome_title()
                &&& r.all_tasks@[0].description is None
                &&& r.all_tasks@[0].status == TaskStatus::Idea
                &&& r.all_tasks@[0].priority == Priority::Low
                &&& r.all_tasks@[0].context@ == general_label()
            },
            r.column_index == 0,
            r.selected_task_index == 0,
            r.current_context@ == all_label(),
            r.input_mode == InputMode::Normal,
    {
        let mut tasks = data.tasks;
        if tasks.len() == 0 {
            let title = String::from_str("Welcome to myeon. Press 'a' to add a task.");
            tasks.push(
                Task {
                    id: fresh_id(),
                    title,
                    description: None,
                    status: TaskStatus::Idea,
                    priority: Priority::Low,
                    context: general_string(),
                    created_at: now(),
                },
            );
        }
        App {
            column_index: 0,
            selected_task_index: 0,
            all_tasks: tasks,
            current_context: all_string(),
            input: String::new(),
            input_mode: InputMode::Normal,
            is_editing_existing: false,
            editing_task_id: None,
            active_edit_field: EditField::Title,
            editing_priority: Priority::Low,
            editing_context: String::new(),
            editing_description: String::new(),
            context_list_index: 0,
        }
    }
}

} // verus!
