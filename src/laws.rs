//! Properties that hold across the operations of the board.
use vstd::prelude::*;
use crate::app::{App, all_label, general_label};
use crate::board::{
    board_column, context_cycled, filter_contexts, first_pos, has_context, in_context,
    lists_contexts, next_filter, select, selected_task, shown_with, task_contexts,
};
use crate::store::{
    apply_edit, edited_task, restatus, submit_applies, submitted, task_deleted, task_moved,
    without_id,
};
use crate::order::{
    lemma_lex_irreflexive, lemma_lex_total, lemma_lex_transitive, lex_less, strictly_sorted,
};
use crate::data::{Priority, Task, TaskStatus, Timestamp, next_status, prev_status};

verus! {

/// Moving forward from `Done`, or backward from `Idea`, changes nothing,
/// however often it is repeated.
pub proof fn lemma_status_ends(tasks: Seq<Task>, id: u128)
    ensures
        next_status(TaskStatus::Done) == TaskStatus::Done,
        prev_status(TaskStatus::Idea) == TaskStatus::Idea,
        (forall|i: int| 0 <= i < tasks.len() && tasks[i].id == id ==> tasks[i].status
            == TaskStatus::Done) ==> restatus(tasks, id, true) == tasks,
        (forall|i: int| 0 <= i < tasks.len() && tasks[i].id == id ==> tasks[i].status
            == TaskStatus::Idea) ==> restatus(tasks, id, false) == tasks,
{
    if forall|i: int| 0 <= i < tasks.len() && tasks[i].id == id ==> tasks[i].status == TaskStatus::Done {
        assert(restatus(tasks, id, true) =~= tasks);
    }
    if forall|i: int| 0 <= i < tasks.len() && tasks[i].id == id ==> tasks[i].status == TaskStatus::Idea {
        assert(restatus(tasks, id, false) =~= tasks);
    }
}

/// An edit replaces a task's description, and its context, only with a
/// non-empty draft; an empty draft keeps the old value. The title and
/// priority always come from the drafts; id and status never change.
pub proof fn lemma_edit_drafts(t: Task, a: App)
    ensures
        a.editing_description@.len() == 0 ==> edited_task(t, a).description == t.description,
        a.editing_description@.len() > 0 ==> edited_task(t, a).description == Some(
            a.editing_description,
        ),
        a.editing_context@.len() == 0 ==> edited_task(t, a).context == t.context,
        a.editing_context@.len() > 0 ==> edited_task(t, a).context == a.editing_context,
        edited_task(t, a).title == a.input,
        edited_task(t, a).priority == a.editing_priority,
        edited_task(t, a).id == t.id,
        edited_task(t, a).status == t.status,
{
}

/// A created task is an `Idea`, whatever priority was picked, and takes
/// the context draft, or `"General"` when that draft is empty.
pub proof fn lemma_created_task(a: App, b: App, id: u128, at: Timestamp)
    requires
        submitted(a, b, id, at),
        submit_applies(a, id),
        !a.is_editing_existing,
    ensures
        b.all_tasks@.last().status == TaskStatus::Idea,
        b.all_tasks@.last().priority == a.editing_priority,
        a.editing_context@.len() == 0 ==> b.all_tasks@.last().context@ == general_label(),
        a.editing_context@.len() > 0 ==> b.all_tasks@.last().context@ == a.editing_context@,
        b.all_tasks@.last().description is None,
{
}

/// The position of a priority in the board order.
pub open spec fn rank(p: Priority) -> int {
    match p {
        Priority::High => 0,
        Priority::Medium => 1,
        Priority::Low => 2,
    }
}

/// `idx` gives, in increasing order, the position in `s` of each element of `sub`.
pub open spec fn embeds(idx: Seq<int>, sub: Seq<Task>, s: Seq<Task>) -> bool {
    &&& idx.len() == sub.len()
    &&& forall|k: int| 0 <= k < idx.len() ==> 0 <= #[trigger] idx[k] < s.len() && s[idx[k]] == sub[k]
    &&& forall|k: int, m: int| 0 <= k < m < idx.len() ==> idx[k] < idx[m]
}

/// `sub` is `s` with some elements left out, the rest in their order.
pub open spec fn is_subsequence(sub: Seq<Task>, s: Seq<Task>) -> bool {
    exists|idx: Seq<int>| #[trigger] embeds(idx, sub, s)
}

proof fn lemma_select(tasks: Seq<Task>, status: TaskStatus, ctx: Seq<char>, p: Priority)
    ensures
        is_subsequence(select(tasks, status, ctx, p), tasks),
        forall|k: int|
            0 <= k < select(tasks, status, ctx, p).len() ==> shown_with(
                #[trigger] select(tasks, status, ctx, p)[k],
                status,
                ctx,
                p,
            ),
        forall|i: int|
            0 <= i < tasks.len() && shown_with(tasks[i], status, ctx, p) ==> select(
                tasks,
                status,
                ctx,
                p,
            ).contains(#[trigger] tasks[i]),
    decreases tasks.len(),
{
    let sel = select(tasks, status, ctx, p);
    if tasks.len() == 0 {
        assert(sel.len() == 0);
        let idx: Seq<int> = seq![];
        assert(embeds(idx, sel, tasks));
    } else {
        let pre = tasks.drop_last();
        lemma_select(pre, status, ctx, p);
        let rest = select(pre, status, ctx, p);
        let idx0 = choose|idx: Seq<int>| embeds(idx, rest, pre);
        if shown_with(tasks.last(), status, ctx, p) {
            let idx = idx0.push(tasks.len() - 1);
            assert(forall|k: int| 0 <= k < idx.len() ==> 0 <= #[trigger] idx[k] < tasks.len()
                && tasks[idx[k]] == sel[k]);
            assert(embeds(idx, sel, tasks));
        } else {
            assert(forall|k: int| 0 <= k < idx0.len() ==> 0 <= #[trigger] idx0[k] < tasks.len()
                && tasks[idx0[k]] == sel[k]);
            assert(embeds(idx0, sel, tasks));
        }
        assert forall|i: int| 0 <= i < tasks.len() && shown_with(tasks[i], status, ctx, p) implies sel.contains(
            #[trigger] tasks[i],
        ) by {
            if i < tasks.len() - 1 {
                assert(pre[i] == tasks[i]);
                let k = choose|k: int| 0 <= k < rest.len() && rest[k] == pre[i];
                assert(sel[k] == tasks[i]);
            } else {
                assert(sel[sel.len() - 1] == tasks[i]);
            }
        }
    }
}

/// A board column holds exactly the tasks of the store that match its
/// status and the context filter, `High` before `Medium` before `Low`,
/// and tasks of equal priority in their store order.
pub proof fn lemma_column(tasks: Seq<Task>, status: TaskStatus, ctx: Seq<char>)
    ensures
        forall|k: int|
            0 <= k < board_column(tasks, status, ctx).len() ==> {
                let t = #[trigger] board_column(tasks, status, ctx)[k];
                &&& tasks.contains(t)
                &&& t.status == status
                &&& in_context(t, ctx)
            },
        forall|i: int|
            0 <= i < tasks.len() && tasks[i].status == status && in_context(tasks[i], ctx)
                ==> board_column(tasks, status, ctx).contains(#[trigger] tasks[i]),
        forall|k: int, m: int|
            0 <= k < m < board_column(tasks, status, ctx).len() ==> rank(
                #[trigger] board_column(tasks, status, ctx)[k].priority,
            ) <= rank(#[trigger] board_column(tasks, status, ctx)[m].priority),
        is_subsequence(select(tasks, status, ctx, Priority::High), tasks),
        is_subsequence(select(tasks, status, ctx, Priority::Medium), tasks),
        is_subsequence(select(tasks, status, ctx, Priority::Low), tasks),
{
    lemma_select(tasks, status, ctx, Priority::High);
    lemma_select(tasks, status, ctx, Priority::Medium);
    lemma_select(tasks, status, ctx, Priority::Low);
    let h = select(tasks, status, ctx, Priority::High);
    let md = select(tasks, status, ctx, Priority::Medium);
    let l = select(tasks, status, ctx, Priority::Low);
    let col = board_column(tasks, status, ctx);
    assert(col == h + md + l);
    assert forall|k: int| 0 <= k < col.len() implies {
        let t = #[trigger] col[k];
        &&& tasks.contains(t)
        &&& t.status == status
        &&& in_context(t, ctx)
    } by {
        if k < h.len() {
            assert(col[k] == h[k]);
            assert(shown_with(h[k], status, ctx, Priority::High));
            let idx = choose|idx: Seq<int>| embeds(idx, h, tasks);
            assert(tasks[idx[k]] == h[k]);
        } else if k < h.len() + md.len() {
            assert(col[k] == md[k - h.len()]);
            assert(shown_with(md[k - h.len()], status, ctx, Priority::Medium));
            let idx = choose|idx: Seq<int>| embeds(idx, md, tasks);
            assert(tasks[idx[k - h.len()]] == md[k - h.len()]);
        } else {
            let j = k - h.len() - md.len();
            assert(col[k] == l[j]);
            assert(shown_with(l[j], status, ctx, Priority::Low));
            let idx = choose|idx: Seq<int>| embeds(idx, l, tasks);
            assert(tasks[idx[j]] == l[j]);
        }
    }
    assert forall|i: int|
        0 <= i < tasks.len() && tasks[i].status == status && in_context(tasks[i], ctx) implies col.contains(
        #[trigger] tasks[i],
    ) by {
        let t = tasks[i];
        if t.priority == Priority::High {
            assert(shown_with(t, status, ctx, Priority::High));
            let k = choose|k: int| 0 <= k < h.len() && h[k] == t;
            assert(col[k] == t);
        } else if t.priority == Priority::Medium {
            assert(shown_with(t, status, ctx, Priority::Medium));
            let k = choose|k: int| 0 <= k < md.len() && md[k] == t;
            assert(col[h.len() + k] == t);
        } else {
            assert(shown_with(t, status, ctx, Priority::Low));
            let k = choose|k: int| 0 <= k < l.len() && l[k] == t;
            assert(col[h.len() + md.len() + k] == t);
        }
    }
    assert forall|k: int, m: int| 0 <= k < m < col.len() implies rank(#[trigger] col[k].priority)
        <= rank(#[trigger] col[m].priority) by {
        if k < h.len() {
            assert(shown_with(h[k], status, ctx, Priority::High));
        } else if k < h.len() + md.len() {
            assert(shown_with(md[k - h.len()], status, ctx, Priority::Medium));
            if m < h.len() + md.len() {
                assert(shown_with(md[m - h.len()], status, ctx, Priority::Medium));
            } else {
                assert(shown_with(l[m - h.len() - md.len()], status, ctx, Priority::Low));
            }
        } else {
            assert(shown_with(l[k - h.len() - md.len()], status, ctx, Priority::Low));
            assert(shown_with(l[m - h.len() - md.len()], status, ctx, Priority::Low));
        }
    }
}

} // verus!

verus! {

/// `r` with `c` put in its sorted place, unless it is already there.
pub open spec fn insert_sorted(r: Seq<Seq<char>>, c: Seq<char>) -> Seq<Seq<char>>
    decreases r.len(),
{
    if r.len() == 0 {
        seq![c]
    } else if r[0] == c {
        r
    } else if lex_less(c, r[0]) {
        seq![c] + r
    } else {
        seq![r[0]] + insert_sorted(r.drop_first(), c)
    }
}

proof fn lemma_insert_sorted(r: Seq<Seq<char>>, c: Seq<char>)
    requires
        strictly_sorted(r),
    ensures
        strictly_sorted(insert_sorted(r, c)),
        forall|x: Seq<char>| #[trigger] insert_sorted(r, c).contains(x) <==> (r.contains(x) || x == c),
    decreases r.len(),
{
    let ins = insert_sorted(r, c);
    if r.len() == 0 {
        assert(ins =~= seq![c]);
        assert forall|x: Seq<char>| ins.contains(x) <==> (r.contains(x) || x == c) by {
            if x == c {
                assert(ins[0] == c);
            }
        }
    } else if r[0] == c {
        assert(r.contains(r[0]));
    } else if lex_less(c, r[0]) {
        assert forall|i: int, j: int| 0 <= i < j < ins.len() implies lex_less(
            #[trigger] ins[i],
            #[trigger] ins[j],
        ) by {
            if i == 0 {
                if j > 1 {
                    assert(lex_less(r[0], r[j - 1]));
                    lemma_lex_transitive(c, r[0], r[j - 1]);
                }
            } else {
                assert(lex_less(r[i - 1], r[j - 1]));
            }
        }
        assert forall|x: Seq<char>| ins.contains(x) <==> (r.contains(x) || x == c) by {
            if ins.contains(x) {
                let k = choose|k: int| 0 <= k < ins.len() && ins[k] == x;
                if k > 0 {
                    assert(r[k - 1] == x);
                }
            }
            if r.contains(x) {
                let k = choose|k: int| 0 <= k < r.len() && r[k] == x;
                assert(ins[k + 1] == x);
            }
            if x == c {
                assert(ins[0] == x);
            }
        }
    } else {
        lemma_lex_total(r[0], c);
        let rest = r.drop_first();
        assert(strictly_sorted(rest)) by {
            assert forall|i: int, j: int| 0 <= i < j < rest.len() implies lex_less(
                #[trigger] rest[i],
                #[trigger] rest[j],
            ) by {
                assert(lex_less(r[i + 1], r[j + 1]));
            }
        }
        lemma_insert_sorted(rest, c);
        let tail = insert_sorted(rest, c);
        assert(ins == seq![r[0]] + tail);
        assert forall|i: int, j: int| 0 <= i < j < ins.len() implies lex_less(
            #[trigger] ins[i],
            #[trigger] ins[j],
        ) by {
            if i == 0 {
                let y = tail[j - 1];
                assert(ins[j] == y);
                assert(tail.contains(y));
                assert(rest.contains(y) || y == c);
                if y != c {
                    let k = choose|k: int| 0 <= k < rest.len() && rest[k] == y;
                    assert(r[k + 1] == y);
                    assert(lex_less(r[0], r[k + 1]));
                }
            } else {
                assert(ins[i] == tail[i - 1]);
                assert(ins[j] == tail[j - 1]);
            }
        }
        assert forall|x: Seq<char>| ins.contains(x) <==> (r.contains(x) || x == c) by {
            if ins.contains(x) {
                let k = choose|k: int| 0 <= k < ins.len() && ins[k] == x;
                if k == 0 {
                    assert(r[0] == x);
                } else {
                    assert(tail[k - 1] == x);
                    assert(tail.contains(x));
                    assert(rest.contains(x) || x == c);
                    if x != c {
                        let m = choose|m: int| 0 <= m < rest.len() && rest[m] == x;
                        assert(r[m + 1] == x);
                    }
                }
            }
            if r.contains(x) {
                let k = choose|k: int| 0 <= k < r.len() && r[k] == x;
                if k == 0 {
                    assert(ins[0] == x);
                } else {
                    assert(rest[k - 1] == x);
                    assert(rest.contains(x));
                    assert(insert_sorted(rest, c).contains(x));
                    let m = choose|m: int| 0 <= m < tail.len() && tail[m] == x;
                    assert(ins[m + 1] == x);
                }
            }
            if x == c {
                assert(insert_sorted(rest, c).contains(c));
                let m = choose|m: int| 0 <= m < tail.len() && tail[m] == x;
                assert(ins[m + 1] == x);
            }
        }
    }
}

/// Every board has a sorted list of its contexts.
pub proof fn lemma_contexts_listed(tasks: Seq<Task>)
    ensures
        lists_contexts(task_contexts(tasks), tasks),
    decreases tasks.len(),
{
    if tasks.len() == 0 {
        let r: Seq<Seq<char>> = seq![general_label()];
        assert forall|x: Seq<char>| r.contains(x) <==> (has_context(tasks, x) || x == general_label()) by {
            if x == general_label() {
                assert(r[0] == x);
            }
        }
        assert(lists_contexts(r, tasks));
    } else {
        let pre = tasks.drop_last();
        lemma_contexts_listed(pre);
        let r0 = task_contexts(pre);
        let c = tasks.last().context@;
        lemma_insert_sorted(r0, c);
        let r = insert_sorted(r0, c);
        assert forall|x: Seq<char>| r.contains(x) <==> (has_context(tasks, x) || x == general_label()) by {
            if has_context(tasks, x) {
                let k = choose|k: int| 0 <= k < tasks.len() && tasks[k].context@ == x;
                if k < pre.len() {
                    assert(pre[k] == tasks[k]);
                }
            }
            if has_context(pre, x) {
                let k = choose|k: int| 0 <= k < pre.len() && pre[k].context@ == x;
                assert(tasks[k] == pre[k]);
            }
        }
        assert(lists_contexts(r, tasks));
    }
}

/// Without a task whose context is `"All"`, no filter appears twice.
pub proof fn lemma_filters_distinct(tasks: Seq<Task>)
    requires
        !has_context(tasks, all_label()),
    ensures
        filter_contexts(tasks).no_duplicates(),
{
    lemma_contexts_listed(tasks);
    let t = task_contexts(tasks);
    let f = filter_contexts(tasks);
    assert(all_label() != general_label()) by {
        assert(all_label().len() != general_label().len());
    }
    assert forall|i: int, j: int| 0 <= i < j < f.len() implies f[i] != f[j] by {
        assert(f[j] == t[j - 1]);
        assert(t.contains(t[j - 1]));
        if i > 0 {
            assert(f[i] == t[i - 1]);
            assert(lex_less(t[i - 1], t[j - 1]));
            lemma_lex_irreflexive(t[i - 1]);
        }
    }
}

/// The filter reached from `cur` after `n` steps of `next_filter`.
pub open spec fn cycle_n(avail: Seq<Seq<char>>, cur: Seq<char>, n: nat) -> Seq<char>
    decreases n,
{
    if n == 0 {
        cur
    } else {
        next_filter(avail, cycle_n(avail, cur, (n - 1) as nat))
    }
}

proof fn lemma_cycle_n(avail: Seq<Seq<char>>, k: int, n: nat)
    requires
        avail.no_duplicates(),
        0 <= k < avail.len(),
    ensures
        cycle_n(avail, avail[k], n) == avail[(k + n) % (avail.len() as int)],
    decreases n,
{
    let len = avail.len() as int;
    if n == 0 {
        assert(k % len == k) by (nonlinear_arith)
            requires
                0 <= k < len,
        ;
    } else {
        lemma_cycle_n(avail, k, (n - 1) as nat);
        let j = (k + n - 1) % len;
        assert(0 <= j < len) by (nonlinear_arith)
            requires
                len > 0,
                j == (k + n - 1) % len,
        ;
        let x = avail[j];
        assert(avail.contains(x));
        let c = choose|i: int| 0 <= i < avail.len() && avail[i] == x && forall|m: int| 0 <= m < i ==> avail[m] != x;
        assert(first_pos(avail, x) == j) by {
            if c != j {
                assert(avail[c] == avail[j]);
            }
        }
        assert((j + 1) % len == (k + n) % len) by (nonlinear_arith)
            requires
                len > 0,
                j == (k + n - 1) % len,
                k + n >= 1,
        ;
    }
}

proof fn lemma_cycle_states(states: Seq<App>, i: int)
    requires
        0 <= i < states.len(),
        forall|j: int| 0 <= j < states.len() - 1 ==> context_cycled(#[trigger] states[j], states[j + 1]),
    ensures
        states[i].all_tasks@ == states[0].all_tasks@,
        states[i].current_context@ == cycle_n(
            filter_contexts(states[0].all_tasks@),
            states[0].current_context@,
            i as nat,
        ),
    decreases i,
{
    if i > 0 {
        lemma_cycle_states(states, i - 1);
        assert(context_cycled(states[i - 1], states[i]));
    }
}

/// Cycling the context filter as many times as there are filters brings
/// back the filter it started from, provided the filter is on offer and no
/// task uses `"All"` as its context.
pub proof fn lemma_cycle_context_period(states: Seq<App>)
    requires
        states.len() == filter_contexts(states[0].all_tasks@).len() + 1,
        forall|i: int| 0 <= i < states.len() - 1 ==> context_cycled(#[trigger] states[i], states[i + 1]),
        !has_context(states[0].all_tasks@, all_label()),
        filter_contexts(states[0].all_tasks@).contains(states[0].current_context@),
    ensures
        states.last().current_context@ == states[0].current_context@,
{
    let avail = filter_contexts(states[0].all_tasks@);
    let cur = states[0].current_context@;
    lemma_cycle_states(states, states.len() - 1);
    lemma_filters_distinct(states[0].all_tasks@);
    let k = choose|k: int| 0 <= k < avail.len() && avail[k] == cur;
    lemma_cycle_n(avail, k, avail.len());
    let len = avail.len() as int;
    assert((k + len) % len == k) by (nonlinear_arith)
        requires
            0 <= k < len,
    ;
}

} // verus!

verus! {

/// The last save among `saves`, if any.
pub open spec fn last_saved(saves: Seq<Option<Seq<Task>>>) -> Option<Seq<Task>>
    decreases saves.len(),
{
    if saves.len() == 0 {
        None
    } else if saves.last() is Some {
        saves.last()
    } else {
        last_saved(saves.drop_last())
    }
}

/// Over any run of key presses, each step changing the store only together
/// with a save of all of it (as `handle_input` ensures), the last save holds
/// exactly the tasks in memory at the end, and so the same ids.
pub proof fn lemma_saved_matches_memory(states: Seq<App>, saves: Seq<Option<Seq<Task>>>)
    requires
        states.len() == saves.len() + 1,
        forall|i: int|
            0 <= i < saves.len() ==> crate::input::store_step(
                #[trigger] states[i],
                states[i + 1],
                saves[i],
            ),
        last_saved(saves) is Some,
    ensures
        last_saved(saves)->Some_0 == states.last().all_tasks@,
        crate::data::ids_of(last_saved(saves)->Some_0) == crate::data::ids_of(
            states.last().all_tasks@,
        ),
    decreases saves.len(),
{
    let n = saves.len() as int;
    assert(crate::input::store_step(states[n - 1], states[n], saves[n - 1]));
    if saves.last() is None {
        lemma_saved_matches_memory(states.drop_last(), saves.drop_last());
        assert(states.drop_last().last() == states[n - 1]);
    }
}

} // verus!

verus! {

proof fn lemma_without_id(tasks: Seq<Task>, id: u128)
    ensures
        forall|k: int|
            0 <= k < without_id(tasks, id).len() ==> exists|j: int|
                0 <= j < tasks.len() && #[trigger] without_id(tasks, id)[k] == tasks[j],
        crate::data::ids_unique(tasks) ==> crate::data::ids_unique(without_id(tasks, id)),
    decreases tasks.len(),
{
    reveal(Seq::filter);
    if tasks.len() > 0 {
        let pre = tasks.drop_last();
        lemma_without_id(pre, id);
        let f0 = without_id(pre, id);
        let f = without_id(tasks, id);
        assert forall|k: int| 0 <= k < f.len() implies exists|j: int|
            0 <= j < tasks.len() && #[trigger] f[k] == tasks[j] by {
            if k < f0.len() {
                assert(f[k] == f0[k]);
                let j = choose|j: int| 0 <= j < pre.len() && f0[k] == pre[j];
                assert(tasks[j] == pre[j]);
            } else {
                assert(f[k] == tasks[tasks.len() - 1]);
            }
        }
        if crate::data::ids_unique(tasks) {
            assert(crate::data::ids_unique(pre)) by {
                assert forall|i: int, j: int|
                    0 <= i < pre.len() && 0 <= j < pre.len() && i != j implies pre[i].id != pre[j].id by {
                    assert(pre[i] == tasks[i] && pre[j] == tasks[j]);
                }
            }
            assert forall|a: int, b: int|
                0 <= a < f.len() && 0 <= b < f.len() && a != b implies f[a].id != f[b].id by {
                if a < f0.len() && b < f0.len() {
                    assert(f[a] == f0[a] && f[b] == f0[b]);
                } else {
                    let m = if a < f0.len() { a } else { b };
                    assert(m < f0.len());
                    assert(f[m] == f0[m]);
                    let j = choose|j: int| 0 <= j < pre.len() && f0[m] == pre[j];
                    assert(tasks[j] == pre[j]);
                    assert(j != tasks.len() - 1);
                }
            }
        }
    }
}

/// Keeping each task's id keeps ids unique.
proof fn lemma_same_ids(a: Seq<Task>, b: Seq<Task>)
    requires
        a.len() == b.len(),
        forall|i: int| 0 <= i < a.len() ==> #[trigger] b[i].id == a[i].id,
        crate::data::ids_unique(a),
    ensures
        crate::data::ids_unique(b),
{
}

/// Every action keeps the ids of the store unique: a move or an edit keeps
/// each task's id, a delete only removes tasks, and a new task is added only
/// with an id that no task carries.
pub proof fn lemma_ids_stay_unique(a: App, b: App, id: u128, at: crate::data::Timestamp, forward: bool)
    requires
        crate::data::ids_unique(a.all_tasks@),
    ensures
        task_moved(a, b, forward) ==> crate::data::ids_unique(b.all_tasks@),
        task_deleted(a, b) ==> crate::data::ids_unique(b.all_tasks@),
        submitted(a, b, id, at) ==> crate::data::ids_unique(b.all_tasks@),
{
    let s = a.all_tasks@;
    match selected_task(a) {
        Some(t) => {
            lemma_without_id(s, t.id);
            assert forall|i: int| 0 <= i < s.len() implies #[trigger] restatus(s, t.id, forward)[i].id == s[i].id by {}
            lemma_same_ids(s, restatus(s, t.id, forward));
        },
        None => {},
    }
    if submitted(a, b, id, at) && submit_applies(a, id) {
        if a.is_editing_existing {
            match a.editing_task_id {
                Some(tid) => {
                    assert forall|i: int| 0 <= i < s.len() implies #[trigger] apply_edit(s, tid, a)[i].id == s[i].id by {}
                    lemma_same_ids(s, apply_edit(s, tid, a));
                },
                None => {},
            }
        } else {
            let n = b.all_tasks@;
            assert(n == s.push(n.last())) by {
                assert(n =~= n.drop_last().push(n.last()));
            }
            assert forall|i: int, j: int|
                0 <= i < n.len() && 0 <= j < n.len() && i != j implies n[i].id != n[j].id by {
                if i < s.len() && j < s.len() {
                    assert(n[i] == s[i] && n[j] == s[j]);
                } else if i < s.len() {
                    assert(n[i] == s[i]);
                } else {
                    assert(n[j] == s[j]);
                }
            }
        }
    }
}

} // verus!

verus! {

/// Under unique ids, moving a selected `Done` task forward, or a selected
/// `Idea` task backward, leaves the store as it was.
pub proof fn lemma_selected_terminal(a: App, forward: bool)
    requires
        crate::data::ids_unique(a.all_tasks@),
        selected_task(a) is Some,
        selected_task(a)->Some_0.status == if forward {
            TaskStatus::Done
        } else {
            TaskStatus::Idea
        },
    ensures
        restatus(a.all_tasks@, selected_task(a)->Some_0.id, forward) == a.all_tasks@,
{
    let s = a.all_tasks@;
    let t = selected_task(a)->Some_0;
    let col = board_column(s, crate::data::column_status(a.column_index as int), a.current_context@);
    lemma_column(s, crate::data::column_status(a.column_index as int), a.current_context@);
    assert(col[a.selected_task_index as int] == t);
    assert(s.contains(t));
    let k = choose|k: int| 0 <= k < s.len() && s[k] == t;
    assert forall|i: int| 0 <= i < s.len() && s[i].id == t.id implies s[i].status == t.status by {
        assert(i == k);
    }
    lemma_status_ends(s, t.id);
}

} // verus!
