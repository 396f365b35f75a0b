use myeon::app::{App, EditField, InputMode};
use myeon::data::{MyeonData, Priority, Task, TaskStatus, Timestamp};
use myeon::input::{handle_input, Key, Outcome};

fn task(id: u128, title: &str, status: TaskStatus, priority: Priority, context: &str) -> Task {
    Task {
        id,
        title: title.to_string(),
        description: None,
        status,
        priority,
        context: context.to_string(),
        created_at: Timestamp { secs: 0, nanos: 0 },
    }
}

fn board(tasks: Vec<Task>) -> App {
    App::new(MyeonData { tasks })
}

fn type_str(app: &mut App, s: &str) {
    for c in s.chars() {
        handle_input(app, Key::Char(c));
    }
}

fn titles(tasks: &[&Task]) -> Vec<String> {
    tasks.iter().map(|t| t.title.clone()).collect()
}

#[test]
fn move_forward_scenario_stops_at_done() {
    let mut app = board(vec![task(1, "X", TaskStatus::Idea, Priority::Low, "General")]);
    handle_input(&mut app, Key::Enter);
    assert_eq!(app.all_tasks[0].status, TaskStatus::Todo);
    // the task left the Idea column; follow it
    handle_input(&mut app, Key::Right);
    handle_input(&mut app, Key::Enter);
    assert_eq!(app.all_tasks[0].status, TaskStatus::Doing);
    handle_input(&mut app, Key::Right);
    handle_input(&mut app, Key::Enter);
    assert_eq!(app.all_tasks[0].status, TaskStatus::Done);
    handle_input(&mut app, Key::Right);
    let out = handle_input(&mut app, Key::Enter);
    assert_eq!(app.all_tasks[0].status, TaskStatus::Done);
    assert!(matches!(out, Outcome::Save(_)));
}

#[test]
fn move_backward_from_idea_stays_idea() {
    let mut app = board(vec![task(1, "X", TaskStatus::Idea, Priority::Low, "General")]);
    app.move_task_backward();
    app.move_task_backward();
    assert_eq!(app.all_tasks[0].status, TaskStatus::Idea);
}

#[test]
fn status_steps_both_ways() {
    assert_eq!(TaskStatus::Idea.forward(), TaskStatus::Todo);
    assert_eq!(TaskStatus::Done.forward(), TaskStatus::Done);
    assert_eq!(TaskStatus::Done.backward(), TaskStatus::Doing);
    assert_eq!(TaskStatus::Idea.backward(), TaskStatus::Idea);
    assert_eq!(TaskStatus::of_column(2), TaskStatus::Doing);
    assert_eq!(TaskStatus::of_column(9), TaskStatus::Done);
}

#[test]
fn add_buy_milk_scenario() {
    let mut app = board(vec![task(1, "X", TaskStatus::Todo, Priority::High, "Home")]);
    handle_input(&mut app, Key::Char('a'));
    assert_eq!(app.input_mode, InputMode::Editing);
    type_str(&mut app, "Buy milk");
    let out = handle_input(&mut app, Key::Enter);
    assert_eq!(app.all_tasks.len(), 2);
    let t = &app.all_tasks[1];
    assert_eq!(t.title, "Buy milk");
    assert_eq!(t.context, "General");
    assert_eq!(t.priority, Priority::Low);
    assert_eq!(t.status, TaskStatus::Idea);
    assert_eq!(t.description, None);
    assert_ne!(t.id, 1);
    assert!(t.created_at.secs > 1_500_000_000);
    assert!(t.created_at.nanos < 1_000_000_000);
    assert_eq!(app.input_mode, InputMode::Normal);
    assert_eq!(app.input, "");
    match out {
        Outcome::Save(d) => {
            assert_eq!(d.tasks.len(), 2);
            assert_eq!(d.tasks[1].id, app.all_tasks[1].id);
            assert_eq!(d.tasks[0].id, 1);
        }
        _ => panic!("a created task must be saved"),
    }
}

#[test]
fn new_task_takes_context_draft_and_is_idea() {
    let mut app = board(vec![task(1, "X", TaskStatus::Todo, Priority::High, "Home")]);
    handle_input(&mut app, Key::Char('a'));
    type_str(&mut app, "Plan");
    handle_input(&mut app, Key::Tab);
    type_str(&mut app, "notes");
    handle_input(&mut app, Key::Tab);
    type_str(&mut app, "Work");
    handle_input(&mut app, Key::Tab);
    handle_input(&mut app, Key::Char('3'));
    handle_input(&mut app, Key::Enter);
    let t = &app.all_tasks[1];
    assert_eq!(t.context, "Work");
    assert_eq!(t.priority, Priority::High);
    assert_eq!(t.status, TaskStatus::Idea);
    // the description draft is not carried into a new task
    assert_eq!(t.description, None);
}

#[test]
fn submit_with_empty_title_does_nothing() {
    let mut app = board(vec![task(1, "X", TaskStatus::Idea, Priority::Low, "General")]);
    handle_input(&mut app, Key::Char('a'));
    let out = handle_input(&mut app, Key::Enter);
    assert!(matches!(out, Outcome::Continue));
    assert_eq!(app.input_mode, InputMode::Editing);
    assert_eq!(app.all_tasks.len(), 1);
}

#[test]
fn submit_with_taken_id_does_nothing() {
    let mut app = board(vec![task(7, "X", TaskStatus::Idea, Priority::Low, "General")]);
    app.begin_add();
    app.type_char('Y');
    let at = Timestamp { secs: 5, nanos: 6 };
    assert!(app.submit_task_with(7, at).is_none());
    assert_eq!(app.all_tasks.len(), 1);
    assert_eq!(app.input_mode, InputMode::Editing);
    let saved = app.submit_task_with(8, at).unwrap();
    assert_eq!(saved.tasks.len(), 2);
    assert_eq!(app.all_tasks[1].id, 8);
    assert_eq!(app.all_tasks[1].created_at, at);
    assert_eq!(app.all_tasks[1].title, "Y");
}

#[test]
fn edit_keeps_description_and_context_on_empty_drafts() {
    let mut t = task(1, "Old", TaskStatus::Doing, Priority::Low, "Home");
    t.description = Some("details".to_string());
    let mut app = board(vec![t]);
    app.column_index = 2;
    handle_input(&mut app, Key::Char('e'));
    assert_eq!(app.input, "Old");
    assert_eq!(app.editing_description, "details");
    assert_eq!(app.editing_context, "Home");
    assert!(app.is_editing_existing);
    assert_eq!(app.editing_task_id, Some(1));
    // clear the description and context drafts, retitle, raise priority
    app.editing_description = String::new();
    app.editing_context = String::new();
    handle_input(&mut app, Key::Backspace);
    handle_input(&mut app, Key::Char('d'));
    handle_input(&mut app, Key::BackTab);
    assert_eq!(app.active_edit_field, EditField::Priority);
    handle_input(&mut app, Key::Char('2'));
    handle_input(&mut app, Key::Enter);
    let t = &app.all_tasks[0];
    assert_eq!(t.title, "Old");
    assert_eq!(t.description, Some("details".to_string()));
    assert_eq!(t.context, "Home");
    assert_eq!(t.priority, Priority::Medium);
    assert_eq!(t.status, TaskStatus::Doing);
    assert!(!app.is_editing_existing);
    assert_eq!(app.editing_task_id, None);
}

#[test]
fn edit_replaces_description_and_context_on_drafts() {
    let mut t = task(1, "Old", TaskStatus::Idea, Priority::Low, "Home");
    t.description = Some("details".to_string());
    let mut app = board(vec![t]);
    app.start_edit();
    app.editing_description = "more".to_string();
    app.editing_context = "Work".to_string();
    app.submit_task().unwrap();
    let t = &app.all_tasks[0];
    assert_eq!(t.description, Some("more".to_string()));
    assert_eq!(t.context, "Work");
    assert_eq!(t.id, 1);
}

#[test]
fn cancel_discards_drafts() {
    let mut app = board(vec![task(1, "X", TaskStatus::Idea, Priority::Low, "General")]);
    handle_input(&mut app, Key::Char('e'));
    handle_input(&mut app, Key::Tab);
    handle_input(&mut app, Key::Char('z'));
    let out = handle_input(&mut app, Key::Esc);
    assert!(matches!(out, Outcome::Continue));
    assert_eq!(app.input_mode, InputMode::Normal);
    assert_eq!(app.input, "");
    assert_eq!(app.editing_description, "");
    assert_eq!(app.editing_context, "");
    assert_eq!(app.editing_priority, Priority::Low);
    assert_eq!(app.active_edit_field, EditField::Title);
    assert!(!app.is_editing_existing);
    assert_eq!(app.editing_task_id, None);
    assert_eq!(app.all_tasks[0].title, "X");
}

#[test]
fn typing_and_erasing_follow_the_active_field() {
    let mut app = board(vec![task(1, "X", TaskStatus::Idea, Priority::Low, "General")]);
    handle_input(&mut app, Key::Char('a'));
    type_str(&mut app, "ab");
    handle_input(&mut app, Key::Backspace);
    assert_eq!(app.input, "a");
    handle_input(&mut app, Key::Tab);
    type_str(&mut app, "d");
    handle_input(&mut app, Key::Tab);
    type_str(&mut app, "c");
    handle_input(&mut app, Key::Tab);
    handle_input(&mut app, Key::Char('2'));
    assert_eq!(app.editing_priority, Priority::Medium);
    handle_input(&mut app, Key::Char('x'));
    handle_input(&mut app, Key::Backspace);
    assert_eq!(app.editing_priority, Priority::Medium);
    handle_input(&mut app, Key::Char('1'));
    assert_eq!(app.editing_priority, Priority::Low);
    handle_input(&mut app, Key::Tab);
    assert_eq!(app.active_edit_field, EditField::Title);
    assert_eq!(app.input, "a");
    assert_eq!(app.editing_description, "d");
    assert_eq!(app.editing_context, "c");
    handle_input(&mut app, Key::Backspace);
    handle_input(&mut app, Key::Backspace);
    assert_eq!(app.input, "");
}

#[test]
fn context_picker_wraps_both_ways() {
    let mut app = board(vec![
        task(1, "A", TaskStatus::Idea, Priority::Low, "Work"),
        task(2, "B", TaskStatus::Idea, Priority::Low, "Home"),
    ]);
    handle_input(&mut app, Key::Char('a'));
    // Up and Down move the picker only on the context field
    handle_input(&mut app, Key::Down);
    assert_eq!(app.context_list_index, 0);
    handle_input(&mut app, Key::Tab);
    handle_input(&mut app, Key::Tab);
    assert_eq!(app.active_edit_field, EditField::Context);
    // contexts: General, Home, Work
    handle_input(&mut app, Key::Up);
    assert_eq!(app.context_list_index, 2);
    assert_eq!(app.editing_context, "Work");
    handle_input(&mut app, Key::Down);
    assert_eq!(app.context_list_index, 0);
    assert_eq!(app.editing_context, "General");
    handle_input(&mut app, Key::Down);
    assert_eq!(app.editing_context, "Home");
}

#[test]
fn task_contexts_sorted_with_general() {
    let app = board(vec![
        task(1, "A", TaskStatus::Idea, Priority::Low, "Work"),
        task(2, "B", TaskStatus::Idea, Priority::Low, "Home"),
        task(3, "C", TaskStatus::Todo, Priority::Low, "Work"),
    ]);
    assert_eq!(app.get_task_contexts(), vec!["General", "Home", "Work"]);
    assert_eq!(app.get_filter_contexts(), vec!["All", "General", "Home", "Work"]);
    let app = board(vec![
        task(1, "A", TaskStatus::Idea, Priority::Low, "Zed"),
        task(2, "B", TaskStatus::Idea, Priority::Low, "General"),
        task(3, "C", TaskStatus::Idea, Priority::Low, "Alpha"),
        task(4, "D", TaskStatus::Idea, Priority::Low, "alpha"),
    ]);
    assert_eq!(app.get_task_contexts(), vec!["Alpha", "General", "Zed", "alpha"]);
}

#[test]
fn cycle_context_returns_after_full_round() {
    let mut app = board(vec![
        task(1, "A", TaskStatus::Idea, Priority::Low, "Work"),
        task(2, "B", TaskStatus::Idea, Priority::Low, "Home"),
    ]);
    app.selected_task_index = 1;
    let n = app.get_filter_contexts().len();
    assert_eq!(n, 4);
    handle_input(&mut app, Key::Char('c'));
    assert_eq!(app.current_context, "General");
    assert_eq!(app.selected_task_index, 0);
    for _ in 1..n {
        app.cycle_context();
    }
    assert_eq!(app.current_context, "All");
}

#[test]
fn cycle_context_from_unknown_filter_goes_to_second() {
    let mut app = board(vec![task(1, "A", TaskStatus::Idea, Priority::Low, "Work")]);
    app.current_context = "Gone".to_string();
    app.cycle_context();
    assert_eq!(app.current_context, "General");
}

#[test]
fn column_sorted_by_priority_and_filtered() {
    let mut app = board(vec![
        task(1, "l1", TaskStatus::Todo, Priority::Low, "Work"),
        task(2, "h1", TaskStatus::Todo, Priority::High, "Home"),
        task(3, "m1", TaskStatus::Todo, Priority::Medium, "Work"),
        task(4, "h2", TaskStatus::Todo, Priority::High, "Work"),
        task(5, "x", TaskStatus::Idea, Priority::High, "Work"),
        task(6, "l2", TaskStatus::Todo, Priority::Low, "Work"),
    ]);
    assert_eq!(titles(&app.tasks_by_status(TaskStatus::Todo)), vec!["h1", "h2", "m1", "l1", "l2"]);
    assert_eq!(titles(&app.tasks_by_status(TaskStatus::Idea)), vec!["x"]);
    assert!(app.tasks_by_status(TaskStatus::Done).is_empty());
    app.current_context = "Work".to_string();
    assert_eq!(titles(&app.tasks_by_status(TaskStatus::Todo)), vec!["h2", "m1", "l1", "l2"]);
    app.column_index = 1;
    assert_eq!(titles(&app.get_current_column_tasks()), vec!["h2", "m1", "l1", "l2"]);
    app.current_context = "Nowhere".to_string();
    assert!(app.tasks_by_status(TaskStatus::Todo).is_empty());
}

#[test]
fn navigation_is_clamped() {
    let mut app = board(vec![
        task(1, "a", TaskStatus::Idea, Priority::Low, "General"),
        task(2, "b", TaskStatus::Idea, Priority::Low, "General"),
    ]);
    handle_input(&mut app, Key::Left);
    assert_eq!(app.column_index, 0);
    handle_input(&mut app, Key::Char('j'));
    handle_input(&mut app, Key::Down);
    assert_eq!(app.selected_task_index, 1);
    handle_input(&mut app, Key::Char('k'));
    handle_input(&mut app, Key::Up);
    assert_eq!(app.selected_task_index, 0);
    for _ in 0..5 {
        handle_input(&mut app, Key::Char('l'));
    }
    assert_eq!(app.column_index, 3);
    handle_input(&mut app, Key::Char('h'));
    assert_eq!(app.column_index, 2);
    // an empty column: moving down is a no-op
    handle_input(&mut app, Key::Down);
    assert_eq!(app.selected_task_index, 0);
}

#[test]
fn delete_selected_and_step_up() {
    let mut app = board(vec![
        task(1, "a", TaskStatus::Idea, Priority::Low, "General"),
        task(2, "b", TaskStatus::Idea, Priority::Low, "General"),
        task(3, "c", TaskStatus::Todo, Priority::Low, "General"),
    ]);
    app.selected_task_index = 1;
    let out = handle_input(&mut app, Key::Char('d'));
    assert_eq!(app.all_tasks.len(), 2);
    assert_eq!(app.all_tasks[0].id, 1);
    assert_eq!(app.all_tasks[1].id, 3);
    assert_eq!(app.selected_task_index, 0);
    match out {
        Outcome::Save(d) => assert_eq!(d.tasks.len(), 2),
        _ => panic!("a delete must be saved"),
    }
    // out of range: nothing is removed
    app.selected_task_index = 4;
    let saved = app.delete_task();
    assert_eq!(saved.tasks.len(), 2);
    assert_eq!(app.selected_task_index, 4);
}

#[test]
fn quit_and_other_keys() {
    let mut app = board(vec![task(1, "a", TaskStatus::Idea, Priority::Low, "General")]);
    assert!(matches!(handle_input(&mut app, Key::Other), Outcome::Continue));
    assert!(matches!(handle_input(&mut app, Key::Char('z')), Outcome::Continue));
    assert!(matches!(handle_input(&mut app, Key::Char('q')), Outcome::Quit));
    handle_input(&mut app, Key::Char('a'));
    assert!(matches!(handle_input(&mut app, Key::Char('q')), Outcome::Continue));
    assert_eq!(app.input, "q");
}

#[test]
fn empty_board_gets_welcome_task() {
    let app = board(vec![]);
    assert_eq!(app.all_tasks.len(), 1);
    let t = &app.all_tasks[0];
    assert_eq!(t.title, "Welcome to myeon. Press 'a' to add a task.");
    assert_eq!(t.status, TaskStatus::Idea);
    assert_eq!(t.priority, Priority::Low);
    assert_eq!(t.context, "General");
    assert_eq!(t.description, None);
    assert_eq!(app.current_context, "All");
    assert_eq!(app.input_mode, InputMode::Normal);
}

#[test]
fn loaded_tasks_are_kept() {
    let app = board(vec![task(9, "kept", TaskStatus::Done, Priority::High, "Work")]);
    assert_eq!(app.all_tasks.len(), 1);
    assert_eq!(app.all_tasks[0].id, 9);
    assert_eq!(app.all_tasks[0].title, "kept");
}

#[test]
fn save_carries_whole_store() {
    let mut app = board(vec![
        task(1, "a", TaskStatus::Idea, Priority::Low, "General"),
        task(2, "b", TaskStatus::Todo, Priority::Low, "General"),
    ]);
    let saved = app.move_task_forward();
    let ids: Vec<u128> = saved.tasks.iter().map(|t| t.id).collect();
    let mem: Vec<u128> = app.all_tasks.iter().map(|t| t.id).collect();
    assert_eq!(ids, mem);
    assert_eq!(saved.tasks[0].status, TaskStatus::Todo);
}

#[test]
fn general_takes_its_sorted_place() {
    let app = board(vec![task(1, "A", TaskStatus::Idea, Priority::Low, "Alpha")]);
    assert_eq!(app.get_task_contexts(), vec!["Alpha", "General"]);
    assert_eq!(app.get_filter_contexts(), vec!["All", "Alpha", "General"]);
    let app = board(vec![
        task(1, "A", TaskStatus::Idea, Priority::Low, "Zed"),
        task(2, "B", TaskStatus::Idea, Priority::Low, "Alpha"),
    ]);
    assert_eq!(app.get_task_contexts(), vec!["Alpha", "General", "Zed"]);
}

#[test]
fn context_picker_follows_sorted_list() {
    let mut app = board(vec![task(1, "A", TaskStatus::Idea, Priority::Low, "Alpha")]);
    app.begin_add();
    app.cycle_field(true);
    app.cycle_field(true);
    app.pick_context(true);
    assert_eq!(app.editing_context, "General");
    app.pick_context(true);
    assert_eq!(app.editing_context, "Alpha");
}

#[test]
fn moving_done_forward_keeps_store() {
    let mut app = board(vec![
        task(1, "a", TaskStatus::Done, Priority::Low, "General"),
        task(2, "b", TaskStatus::Idea, Priority::Low, "General"),
    ]);
    app.column_index = 3;
    app.move_task_forward();
    app.move_task_forward();
    assert_eq!(app.all_tasks[0].status, TaskStatus::Done);
    assert_eq!(app.all_tasks[1].status, TaskStatus::Idea);
}
