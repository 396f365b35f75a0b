//! Key presses and what each does to the board.
use vstd::prelude::*;
use crate::app::{App, EditField, InputMode};
use crate::board::{column_moved, context_cycled, row_moved, task_contexts};
use crate::laws::lemma_ids_stay_unique;
use crate::session::{
    add_begun, cancelled, context_picked, edit_started, erased, field_cycled, typed,
};
use crate::store::{submit_applies, submitted, task_deleted, task_moved};
use crate::data::MyeonData;

verus! {

/// A key press, as the board reads it.
#[derive(Clone, Copy, Debug, PartialEq, Eq, Structural)]
pub enum Key {
    Char(char),
    Left,
    Right,
    Up,
    Down,
    Enter,
    Backspace,
    Tab,
    BackTab,
    Esc,
    Other,
}

/// What the caller must do after a key was handled.
#[derive(Debug)]
pub enum Outcome {
    /// Nothing beyond drawing the board again.
    Continue,
    /// Leave the program.
    Quit,
    /// Write these tasks to storage.
    Save(MyeonData),
}

/// The tasks an outcome asks to save, if any.
pub open spec fn saved_tasks(r: Outcome) -> Option<Seq<crate::data::Task>> {
    match r {
        Outcome::Save(d) => Some(d.tasks@),
        _ => None,
    }
}

/// From `a` to `b` the store changes only together with a save of all of it.
pub open spec fn store_step(a: App, b: App, saved: Option<Seq<crate::data::Task>>) -> bool {
    match saved {
        Some(s) => s == b.all_tasks@,
        None => b.all_tasks@ == a.all_tasks@,
    }
}

/// `b` is `a` unchanged.
pub open spec fn unchanged(a: App, b: App) -> bool {
    a.keeps_board(b) && a.keeps_session(b)
}

/// What key `k` does on the board in normal mode.
pub open spec fn normal_step(a: App, b: App, k: Key) -> bool {
    if k == Key::Char('a') {
        add_begun(a, b)
    } else if k == Key::Char('h') || k == Key::Left {
        column_moved(a, b, false)
    } else if k == Key::Char('l') || k == Key::Right {
        column_moved(a, b, true)
    } else if k == Key::Char('j') || k == Key::Down {
        row_moved(a, b, true)
    } else if k == Key::Char('k') || k == Key::Up {
        row_moved(a, b, false)
    } else if k == Key::Enter {
        task_moved(a, b, true)
    } else if k == Key::Backspace {
        task_moved(a, b, false)
    } else if k == Key::Char('c') {
        context_cycled(a, b)
    } else if k == Key::Char('d') {
        task_deleted(a, b)
    } else if k == Key::Char('e') {
        edit_started(a, b)
    } else {
        unchanged(a, b)
    }
}

/// What key `k` does to the edit form in editing mode.
pub open spec fn editing_step(a: App, b: App, k: Key) -> bool {
    match k {
        Key::Tab => field_cycled(a, b, true),
        Key::BackTab => field_cycled(a, b, false),
        Key::Up | Key::Down => if a.active_edit_field == EditField::Context && task_contexts(
            a.all_tasks@,
        ).len() > 0 {
            context_picked(a, b, k == Key::Down)
        } else {
            unchanged(a, b)
        },
        Key::Enter => exists|id: u128, at: crate::data::Timestamp| submitted(a, b, id, at),
        Key::Esc => cancelled(a, b),
        Key::Char(c) => typed(a, b, c),
        Key::Backspace => erased(a, b),
        _ => unchanged(a, b),
    }
}

/// Handles one key press. In normal mode `q` quits; the other keys move
/// the cursor, open the edit form, move, delete or edit the selected task,
/// or cycle the context filter. In editing mode they fill in the form,
/// submit it or cancel it. Whenever the task store changes, the outcome
/// carries the whole store to be saved.
pub fn handle_input(app: &mut App, key: Key) -> (r: Outcome)
    requires
        old(app).wf(),
    ensures
        final(app).wf(),
        r is Quit <==> (old(app).input_mode == InputMode::Normal && key == Key::Char('q')),
        r is Quit ==> unchanged(*old(app), *final(app)),
        store_step(*old(app), *final(app), saved_tasks(r)),
        r matches Outcome::Save(d) ==> crate::data::ids_of(d.tasks@) == crate::data::ids_of(
            final(app).all_tasks@,
        ),
        crate::data::ids_unique(old(app).all_tasks@) ==> crate::data::ids_unique(
            final(app).all_tasks@,
        ),
        old(app).input_mode == InputMode::Normal && key != Key::Char('q') ==> normal_step(
            *old(app),
            *final(app),
            key,
        ),
        old(app).input_mode == InputMode::Editing ==> editing_step(*old(app), *final(app), key),
        old(app).input_mode == InputMode::Normal ==> (r is Save <==> (key == Key::Enter || key
            == Key::Backspace || key == Key::Char('d'))),
        old(app).input_mode == InputMode::Editing && key != Key::Enter ==> r is Continue,
        old(app).input_mode == InputMode::Editing && key == Key::Enter ==> exists|
            id: u128,
            at: crate::data::Timestamp,
        |
            {
                &&& submitted(*old(app), *final(app), id, at)
                &&& (r is Save <==> submit_applies(*old(app), id))
            },
{
    let r = match app.input_mode {
        InputMode::Normal => {
            if key == Key::Char('q') {
                Outcome::Quit
            } else if key == Key::Char('a') {
                app.begin_add();
                Outcome::Continue
            } else if key == Key::Char('h') || key == Key::Left {
                app.move_column(false);
                Outcome::Continue
            } else if key == Key::Char('l') || key == Key::Right {
                app.move_column(true);
                Outcome::Continue
            } else if key == Key::Char('j') || key == Key::Down {
                app.move_row(true);
                Outcome::Continue
            } else if key == Key::Char('k') || key == Key::Up {
                app.move_row(false);
                Outcome::Continue
            } else if key == Key::Enter {
                Outcome::Save(app.move_task_forward())
            } else if key == Key::Backspace {
                Outcome::Save(app.move_task_backward())
            } else if key == Key::Char('c') {
                app.cycle_context();
                Outcome::Continue
            } else if key == Key::Char('d') {
                Outcome::Save(app.delete_task())
            } else if key == Key::Char('e') {
                app.start_edit();
                Outcome::Continue
            } else {
                Outcome::Continue
            }
        },
        InputMode::Editing => handle_editing_key(key, app),
    };
    proof {
        let a = *old(app);
        let b = *app;
        if crate::data::ids_unique(a.all_tasks@) && b.all_tasks@ != a.all_tasks@ {
            let t0 = crate::data::Timestamp { secs: 0, nanos: 0 };
            if a.input_mode == InputMode::Editing {
                let (id, at) = choose|id: u128, at: crate::data::Timestamp| submitted(a, b, id, at);
                lemma_ids_stay_unique(a, b, id, at, true);
            } else {
                lemma_ids_stay_unique(a, b, 0, t0, true);
                lemma_ids_stay_unique(a, b, 0, t0, false);
            }
        }
    }
    r
}

/// Handles one key press on the edit form.
pub fn handle_editing_key(key: Key, app: &mut App) -> (r: Outcome)
    requires
        old(app).wf(),
        old(app).input_mode == InputMode::Editing,
    ensures
        final(app).wf(),
        !(r is Quit),
        store_step(*old(app), *final(app), saved_tasks(r)),
        editing_step(*old(app), *final(app), key),
        key != Key::Enter ==> r is Continue,
        key == Key::Enter ==> exists|id: u128, at: crate::data::Timestamp|
            {
                &&& submitted(*old(app), *final(app), id, at)
                &&& (r is Save <==> submit_applies(*old(app), id))
            },
{
    match key {
        Key::Tab => {
            app.cycle_field(true);
            Outcome::Continue
        },
        Key::BackTab => {
            app.cycle_field(false);
            Outcome::Continue
        },
        Key::Up | Key::Down => {
            if app.active_edit_field == EditField::Context {
                app.pick_context(key == Key::Down);
            }
            Outcome::Continue
        },
        Key::Enter => match app.submit_task() {
            Some(d) => Outcome::Save(d),
            None => Outcome::Continue,
        },
        Key::Esc => {
            app.cancel_edit();
            Outcome::Continue
        },
        Key::Char(c) => {
            app.type_char(c);
            Outcome::Continue
        },
        Key::Backspace => {
            app.erase_char();
            Outcome::Continue
        },
        _ => Outcome::Continue,
    }
}

} // verus!
