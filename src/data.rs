//! Tasks, their stages and priorities, and the persisted document.
use vstd::prelude::*;

verus! {

/// The four stages a task flows through, in board order.
#[derive(Clone, Copy, Debug, PartialEq, Eq, Structural)]
pub enum TaskStatus {
    Idea,
    Todo,
    Doing,
    Done,
}

/// Task priority; the board lists `High` first and `Low` last.
#[derive(Clone, Copy, Debug, PartialEq, Eq, Structural)]
pub enum Priority {
    High,
    Medium,
    Low,
}

/// A point in time in UTC: whole seconds since the Unix epoch plus the
/// nanoseconds past that second.
#[derive(Clone, Copy, Debug, PartialEq, Eq, Structural)]
pub struct Timestamp {
    pub secs: i64,
    pub nanos: u32,
}

/// One card of the board. `id` is the 128-bit value of the task's UUID.
#[derive(Debug)]
pub struct Task {
    pub id: u128,
    pub title: String,
    pub description: Option<String>,
    pub status: TaskStatus,
    pub priority: Priority,
    pub context: String,
    pub created_at: Timestamp,
}

/// The persisted document: every task of the board.
#[derive(Debug)]
pub struct MyeonData {
    pub tasks: Vec<Task>,
}

/// The stage after `s`; `Done` has none and stays.
pub open spec fn next_status(s: TaskStatus) -> TaskStatus {
    match s {
        TaskStatus::Idea => TaskStatus::Todo,
        TaskStatus::Todo => TaskStatus::Doing,
        TaskStatus::Doing => TaskStatus::Done,
        TaskStatus::Done => TaskStatus::Done,
    }
}

/// The stage before `s`; `Idea` has none and stays.
pub open spec fn prev_status(s: TaskStatus) -> TaskStatus {
    match s {
        TaskStatus::Idea => TaskStatus::Idea,
        TaskStatus::Todo => TaskStatus::Idea,
        TaskStatus::Doing => TaskStatus::Todo,
        TaskStatus::Done => TaskStatus::Doing,
    }
}

/// The status shown in board column `col` (columns past the last show `Done`).
pub open spec fn column_status(col: int) -> TaskStatus {
    if col == 0 {
        TaskStatus::Idea
    } else if col == 1 {
        TaskStatus::Todo
    } else if col == 2 {
        TaskStatus::Doing
    } else {
        TaskStatus::Done
    }
}

/// The set of ids carried by a sequence of tasks.
pub open spec fn ids_of(tasks: Seq<Task>) -> Set<u128> {
    Set::new(|id: u128| exists|i: int| 0 <= i < tasks.len() && tasks[i].id == id)
}

/// No two tasks of `tasks` share an id.
pub open spec fn ids_unique(tasks: Seq<Task>) -> bool {
    forall|i: int, j: int|
        0 <= i < tasks.len() && 0 <= j < tasks.len() && i != j ==> tasks[i].id != tasks[j].id
}

impl TaskStatus {
    /// Advances one stage; `Done` is terminal.
    pub fn forward(self) -> (r: TaskStatus)
        ensures
            r == next_status(self),
    {
        match self {
            TaskStatus::Idea => TaskStatus::Todo,
            TaskStatus::Todo => TaskStatus::Doing,
            TaskStatus::Doing => TaskStatus::Done,
            TaskStatus::Done => TaskStatus::Done,
        }
    }

    /// Goes back one stage; `Idea` is terminal.
    pub fn backward(self) -> (r: TaskStatus)
        ensures
            r == prev_status(self),
    {
        match self {
            TaskStatus::Idea => TaskStatus::Idea,
            TaskStatus::Todo => TaskStatus::Idea,
            TaskStatus::Doing => TaskStatus::Todo,
            TaskStatus::Done => TaskStatus::Doing,
        }
    }

    /// The status shown in board column `col`.
    pub fn of_column(col: usize) -> (r: TaskStatus)
        ensures
            r == column_status(col as int),
    {
        match col {
            0 => TaskStatus::Idea,
            1 => TaskStatus::Todo,
            2 => TaskStatus::Doing,
            _ => TaskStatus::Done,
        }
    }
}

fn clone_string(s: &String) -> (r: String)
    ensures
        r == *s,
{
    s.clone()
}

impl Clone for Task {
    fn clone(&self) -> (r: Task)
        ensures
            r == *self,
    {
        let description = match &self.description {
            Some(d) => Some(clone_string(d)),
            None => None,
        };
        Task {
            id: self.id,
            title: clone_string(&self.title),
            description,
            status: self.status,
            priority: self.priority,
            context: clone_string(&self.context),
            created_at: self.created_at,
        }
    }
}

/// Relies on `uuid::Uuid::new_v4`: a random version-4 UUID, as its 128-bit
/// value. Nothing is promised of which value comes back.
#[verifier::external_body]
pub(crate) fn fresh_id() -> (r: u128) {
    uuid::Uuid::new_v4().as_u128()
}

/// Relies on `chrono::Utc::now`: the current time, taken from the system
/// clock as a duration since the Unix epoch, so the seconds are not negative
/// and the nanoseconds stay below one second.
#[verifier::external_body]
pub(crate) fn now() -> (r: Timestamp)
    ensures
        r.secs >= 0,
        r.nanos < 1_000_000_000,
{
    let t = chrono::Utc::now();
    Timestamp { secs: t.timestamp(), nanos: t.timestamp_subsec_nanos() }
}

impl MyeonData {
    /// A copy of `tasks`, element for element.
    pub fn from_tasks(tasks: &Vec<Task>) -> (r: MyeonData)
        ensures
            r.tasks@ == tasks@,
    {
        let mut out: Vec<Task> = Vec::new();
        let mut i: usize = 0;
        while i < tasks.len()
            invariant
                i <= tasks.len(),
                out@ == tasks@.take(i as int),
            decreases tasks.len() - i,
        {
            out.push(tasks[i].clone());
            proof {
                assert(tasks@.take(i as int + 1) == tasks@.take(i as int).push(tasks@[i as int]));
            }
            i += 1;
        }
        proof {
            assert(tasks@.take(tasks@.len() as int) == tasks@);
        }
        MyeonData { tasks: out }
    }
}

} // verus!
