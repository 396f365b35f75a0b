//! The board view derived from the store: columns, context filters and the cursor.
use vstd::prelude::*;
use crate::data::{Priority, Task, TaskStatus, column_status};
use crate::app::{App, all_label, all_string, general_label, general_string, is_all_label};
use crate::order::{lex_less, strictly_sorted, lemma_lex_total, lemma_lex_transitive, lemma_sorted_unique, precedes};

verus! {

/// Task `t` is shown under the context filter `ctx`.
pub open spec fn in_context(t: Task, ctx: Seq<char>) -> bool {
    ctx == all_label() || t.context@ == ctx
}

/// Task `t` belongs in the column of `status` under filter `ctx`, with priority `p`.
pub open spec fn shown_with(t: Task, status: TaskStatus, ctx: Seq<char>, p: Priority) -> bool {
    t.status == status && in_context(t, ctx) && t.priority == p
}

/// The tasks of `tasks`, in store order, that show in the column of
/// `status` under filter `ctx` and have priority `p`.
pub open spec fn select(tasks: Seq<Task>, status: TaskStatus, ctx: Seq<char>, p: Priority) -> Seq<
    Task,
>
    decreases tasks.len(),
{
    if tasks.len() == 0 {
        seq![]
    } else {
        let rest = select(tasks.drop_last(), status, ctx, p);
        if shown_with(tasks.last(), status, ctx, p) {
            rest.push(tasks.last())
        } else {
            rest
        }
    }
}

/// The column of `status` under filter `ctx`: a stable sort by priority of the
/// matching tasks, `High` first.
pub open spec fn board_column(tasks: Seq<Task>, status: TaskStatus, ctx: Seq<char>) -> Seq<Task> {
    select(tasks, status, ctx, Priority::High) + select(tasks, status, ctx, Priority::Medium)
        + select(tasks, status, ctx, Priority::Low)
}

/// The tasks that a list of references points at.
pub open spec fn deref_all(r: Seq<&Task>) -> Seq<Task> {
    r.map_values(|t: &Task| *t)
}

/// Some task of `tasks` has context `c`.
pub open spec fn has_context(tasks: Seq<Task>, c: Seq<char>) -> bool {
    exists|i: int| 0 <= i < tasks.len() && tasks[i].context@ == c
}

/// `r` lists, once each and in lexicographic order, every context of
/// `tasks` together with `"General"`.
pub open spec fn lists_contexts(r: Seq<Seq<char>>, tasks: Seq<Task>) -> bool {
    &&& strictly_sorted(r)
    &&& forall|c: Seq<char>| r.contains(c) <==> (has_context(tasks, c) || c == general_label())
}

/// The contexts a task can be given: those in use and `"General"`, sorted
/// and without repeats.
pub open spec fn task_contexts(tasks: Seq<Task>) -> Seq<Seq<char>> {
    choose|r: Seq<Seq<char>>| lists_contexts(r, tasks)
}

/// The context filters of the board: `"All"`, then the task contexts.
pub open spec fn filter_contexts(tasks: Seq<Task>) -> Seq<Seq<char>> {
    seq![all_label()] + task_contexts(tasks)
}

/// The views of a list of strings.
pub open spec fn views(r: Seq<String>) -> Seq<Seq<char>> {
    r.map_values(|s: String| s@)
}

/// The first position of `x` in `s`, or 0 when `x` is absent.
pub open spec fn first_pos(s: Seq<Seq<char>>, x: Seq<char>) -> int {
    if s.contains(x) {
        choose|i: int| 0 <= i < s.len() && s[i] == x && forall|j: int| 0 <= j < i ==> s[j] != x
    } else {
        0
    }
}

/// The filter that follows `cur` in `avail`, wrapping to the start.
pub open spec fn next_filter(avail: Seq<Seq<char>>, cur: Seq<char>) -> Seq<char> {
    avail[(first_pos(avail, cur) + 1) % (avail.len() as int)]
}

/// The task under the cursor of `a`, if the cursor is within its column.
pub open spec fn selected_task(a: App) -> Option<Task> {
    let col = board_column(a.all_tasks@, column_status(a.column_index as int), a.current_context@);
    if a.selected_task_index < col.len() {
        Some(col[a.selected_task_index as int])
    } else {
        None
    }
}

/// `b` is `a` with the context filter advanced to the next one.
pub open spec fn context_cycled(a: App, b: App) -> bool {
    &&& b.current_context@ == next_filter(filter_contexts(a.all_tasks@), a.current_context@)
    &&& b.selected_task_index == 0
    &&& b.column_index == a.column_index
    &&& b.all_tasks@ == a.all_tasks@
    &&& a.keeps_session(b)
}

/// `b` is `a` with the cursor one column to the right (or left), within the board.
pub open spec fn column_moved(a: App, b: App, right: bool) -> bool {
    &&& b.column_index == if right {
        if a.column_index < 3 { a.column_index + 1 } else { a.column_index as int }
    } else {
        if a.column_index > 0 { a.column_index - 1 } else { a.column_index as int }
    }
    &&& b.all_tasks@ == a.all_tasks@
    &&& b.selected_task_index == a.selected_task_index
    &&& b.current_context@ == a.current_context@
    &&& a.keeps_session(b)
}

/// `b` is `a` with the cursor one row down (or up), within the column.
pub open spec fn row_moved(a: App, b: App, down: bool) -> bool {
    let len = board_column(a.all_tasks@, column_status(a.column_index as int), a.current_context@).len();
    &&& b.selected_task_index == if down {
        if a.selected_task_index + 1 < len { a.selected_task_index + 1 } else { a.selected_task_index as int }
    } else {
        if a.selected_task_index > 0 { a.selected_task_index - 1 } else { a.selected_task_index as int }
    }
    &&& b.all_tasks@ == a.all_tasks@
    &&& b.column_index == a.column_index
    &&& b.current_context@ == a.current_context@
    &&& a.keeps_session(b)
}

impl App {
    /// Appends to `out` the tasks that `select` gives for priority `p`.
    fn collect_priority<'a>(&'a self, status: TaskStatus, all: bool, p: Priority, out: &mut Vec<&'a Task>)
        requires
            all == (self.current_context@ == all_label()),
        ensures
            deref_all(final(out)@) == deref_all(old(out)@) + select(
                self.all_tasks@,
                status,
                self.current_context@,
                p,
            ),
    {
        let ghost ctx = self.current_context@;
        let ghost start = deref_all(out@);
        let mut i: usize = 0;
        while i < self.all_tasks.len()
            invariant
                i <= self.all_tasks.len(),
                all == (ctx == all_label()),
                ctx == self.current_context@,
                deref_all(out@) == start + select(self.all_tasks@.take(i as int), status, ctx, p),
            decreases self.all_tasks.len() - i,
        {
            let t = &self.all_tasks[i];
            let ghost before = out@;
            proof {
                assert(self.all_tasks@.take(i as int + 1).drop_last() =~= self.all_tasks@.take(i as int));
            }
            if t.status == status && (all || t.context == self.current_context) && t.priority == p {
                out.push(t);
                proof {
                    assert(deref_all(out@) =~= deref_all(before).push(*t));
                }
            }
            i += 1;
        }
        proof {
            assert(self.all_tasks@.take(self.all_tasks@.len() as int) =~= self.all_tasks@);
        }
    }

    /// The tasks shown in the column of `status` under the current context
    /// filter, `High` priority first, store order kept among equals.
    pub fn tasks_by_status(&self, status: TaskStatus) -> (r: Vec<&Task>)
        ensures
            deref_all(r@) == board_column(self.all_tasks@, status, self.current_context@),
    {
        let all = is_all_label(&self.current_context);
        let mut out: Vec<&Task> = Vec::new();
        proof {
            assert(deref_all(out@) =~= seq![]);
        }
        self.collect_priority(status, all, Priority::High, &mut out);
        self.collect_priority(status, all, Priority::Medium, &mut out);
        self.collect_priority(status, all, Priority::Low, &mut out);
        out
    }

    /// The tasks of the column under the cursor.
    pub fn get_current_column_tasks(&self) -> (r: Vec<&Task>)
        ensures
            deref_all(r@) == board_column(
                self.all_tasks@,
                column_status(self.column_index as int),
                self.current_context@,
            ),
    {
        self.tasks_by_status(TaskStatus::of_column(self.column_index))
    }

    /// The contexts a task can be given: every context in use and
    /// `"General"`, sorted and deduplicated.
    pub fn get_task_contexts(&self) -> (r: Vec<String>)
        ensures
            views(r@) == task_contexts(self.all_tasks@),
            lists_contexts(views(r@), self.all_tasks@),
    {
        let ghost tasks = self.all_tasks@;
        let mut out: Vec<String> = Vec::new();
        out.push(general_string());
        let mut i: usize = 0;
        proof {
            assert(views(out@) =~= seq![general_label()]);
            assert forall|x: Seq<char>| views(out@).contains(x) <==> (has_context(
                tasks.take(0),
                x,
            ) || x == general_label()) by {
                if x == general_label() {
                    assert(views(out@)[0] == x);
                }
            }
        }
        while i < self.all_tasks.len()
            invariant
                i <= self.all_tasks.len(),
                tasks == self.all_tasks@,
                lists_contexts(views(out@), tasks.take(i as int)),
            decreases self.all_tasks.len() - i,
        {
            let c = &self.all_tasks[i].context;
            let ghost vs = views(out@);
            let mut p: usize = 0;
            while p < out.len() && precedes(&out[p], c)
                invariant
                    p <= out.len(),
                    vs == views(out@),
                    forall|j: int| 0 <= j < p ==> lex_less(#[trigger] vs[j], c@),
                decreases out.len() - p,
            {
                p += 1;
            }
            let ghost prev = tasks.take(i as int);
            let ghost next = tasks.take(i as int + 1);
            proof {
                assert forall|x: Seq<char>| has_context(next, x) <==> (has_context(prev, x) || x == c@) by {
                    if has_context(next, x) {
                        let k = choose|k: int| 0 <= k < next.len() && next[k].context@ == x;
                        if k < i {
                            assert(prev[k] == next[k]);
                        }
                    }
                    if has_context(prev, x) {
                        let k = choose|k: int| 0 <= k < prev.len() && prev[k].context@ == x;
                        assert(next[k] == prev[k]);
                    }
                    if x == c@ {
                        assert(next[i as int].context@ == x);
                    }
                }
            }
            if p < out.len() && out[p] == *c {
                proof {
                    assert(vs[p as int] == c@);
                    assert forall|x: Seq<char>| vs.contains(x) <==> (has_context(next, x) || x
                        == general_label()) by {
                        if x == c@ {
                            assert(vs.contains(x));
                        }
                    }
                }
            } else {
                let ghost old_out = out@;
                out.insert(p, c.clone());
                proof {
                    let nv = views(out@);
                    assert(nv =~= vs.insert(p as int, c@));
                    if p < vs.len() {
                        assert(!lex_less(vs[p as int], c@));
                        assert(vs[p as int] != c@);
                        lemma_lex_total(vs[p as int], c@);
                    }
                    assert forall|a: int, b: int| 0 <= a < b < nv.len() implies lex_less(
                        nv[a],
                        nv[b],
                    ) by {
                        if b < p {
                            assert(lex_less(vs[a], vs[b]));
                        } else if b == p {
                            assert(lex_less(vs[a], c@));
                        } else if a < p {
                            assert(lex_less(vs[a], vs[b - 1]));
                        } else if a == p {
                            if b - 1 > p {
                                assert(lex_less(vs[p as int], vs[b - 1]));
                                lemma_lex_transitive(c@, vs[p as int], vs[b - 1]);
                            }
                        } else {
                            assert(lex_less(vs[a - 1], vs[b - 1]));
                        }
                    }
                    assert forall|x: Seq<char>| nv.contains(x) <==> (has_context(next, x) || x
                        == general_label()) by {
                        if nv.contains(x) {
                            let k = choose|k: int| 0 <= k < nv.len() && nv[k] == x;
                            if k < p {
                                assert(vs[k] == x);
                            } else if k > p {
                                assert(vs[k - 1] == x);
                            }
                        }
                        if vs.contains(x) {
                            let k = choose|k: int| 0 <= k < vs.len() && vs[k] == x;
                            if k < p {
                                assert(nv[k] == x);
                            } else {
                                assert(nv[k + 1] == x);
                            }
                        }
                        if x == c@ {
                            assert(nv[p as int] == x);
                        }
                    }
                }
            }
            i += 1;
        }
        proof {
            assert(tasks.take(tasks.len() as int) =~= tasks);
            assert(lists_contexts(views(out@), tasks));
            lemma_sorted_unique(views(out@), task_contexts(tasks));
        }
        out
    }

    /// The context filters of the board: `"All"` followed by the task contexts.
    pub fn get_filter_contexts(&self) -> (r: Vec<String>)
        ensures
            views(r@) == filter_contexts(self.all_tasks@),
    {
        let mut contexts = self.get_task_contexts();
        contexts.insert(0, all_string());
        proof {
            assert(views(contexts@) =~= filter_contexts(self.all_tasks@));
        }
        contexts
    }

    /// The id of the task under the cursor, if any.
    pub(crate) fn selected_id(&self) -> (r: Option<u128>)
        ensures
            r == match selected_task(*self) {
                Some(t) => Some(t.id),
                None => None::<u128>,
            },
    {
        let tasks = self.get_current_column_tasks();
        if self.selected_task_index < tasks.len() {
            proof {
                assert(deref_all(tasks@)[self.selected_task_index as int] == *tasks@[self.selected_task_index as int]);
            }
            Some(tasks[self.selected_task_index].id)
        } else {
            None
        }
    }

    /// Advances the context filter to the next entry of the filter list,
    /// wrapping back to `"All"`, and puts the cursor on the first row.
    pub fn cycle_context(&mut self)
        requires
            old(self).wf(),
        ensures
            final(self).wf(),
            context_cycled(*old(self), *final(self)),
    {
        let available = self.get_filter_contexts();
        let ghost avail = views(available@);
        let mut pos: usize = 0;
        let mut found = false;
        let mut i: usize = 0;
        while i < available.len() && !found
            invariant
                i <= available.len(),
                avail == views(available@),
                avail == filter_contexts(self.all_tasks@),
                !found ==> pos == 0,
                !found ==> forall|j: int| 0 <= j < i ==> avail[j] != self.current_context@,
                found ==> pos < i && avail[pos as int] == self.current_context@ && forall|j: int|
                    0 <= j < pos ==> avail[j] != self.current_context@,
            decreases available.len() - i,
        {
            if available[i] == self.current_context {
                pos = i;
                found = true;
            }
            proof {
                assert(avail[i as int] == available@[i as int]@);
            }
            i += 1;
        }
        proof {
            let cur = self.current_context@;
            if found {
                assert(avail.contains(cur));
                let c = choose|k: int| 0 <= k < avail.len() && avail[k] == cur && forall|j: int| 0 <= j < k ==> avail[j] != cur;
                assert(c == pos);
                assert(first_pos(avail, cur) == pos);
            } else {
                assert(i == available.len());
                assert(!avail.contains(cur));
                assert(first_pos(avail, cur) == 0);
            }
            assert(first_pos(avail, cur) == pos);
        }
        proof {
            assert(avail.len() == available@.len());
            assert(filter_contexts(self.all_tasks@).len() >= 1);
        }
        let next = (pos + 1) % available.len();
        proof {
            assert(avail[next as int] == available@[next as int]@);
        }
        self.current_context = available[next].clone();
        self.selected_task_index = 0;
    }

    /// Moves the cursor one column right (or left), staying on the board.
    pub fn move_column(&mut self, right: bool)
        requires
            old(self).wf(),
        ensures
            final(self).wf(),
            column_moved(*old(self), *final(self), right),
    {
        if right {
            if self.column_index < 3 {
                self.column_index += 1;
            }
        } else if self.column_index > 0 {
            self.column_index -= 1;
        }
    }

    /// Moves the cursor one row down (or up), staying within the column.
    pub fn move_row(&mut self, down: bool)
        requires
            old(self).wf(),
        ensures
            final(self).wf(),
            row_moved(*old(self), *final(self), down),
    {
        if down {
            let max = self.get_current_column_tasks().len();
            if self.selected_task_index < max && self.selected_task_index + 1 < max {
                self.selected_task_index += 1;
            }
        } else if self.selected_task_index > 0 {
            self.selected_task_index -= 1;
        }
    }
}

} // verus!
