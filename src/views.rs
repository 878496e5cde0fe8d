use vstd::prelude::*;

use crate::models::{lemma_filter_take_step, string_views, views, Task, TaskView};

verus! {

/// The order a listing can be sorted in.
#[derive(Clone, Copy, Debug, PartialEq, Eq, Structural)]
pub enum SortKey {
    /// By due date, earliest first; tasks without one come last.
    DueDate,
    /// By priority, `Low` first.
    Priority,
}

/// The value a task is sorted by. An absent due date is later than every
/// present one.
pub open spec fn key_of(t: TaskView, by: SortKey) -> int {
    match by {
        SortKey::DueDate => match t.due_date {
            Some(d) => d as int,
            None => i64::MAX + 1,
        },
        SortKey::Priority => t.priority.spec_rank() as int,
    }
}

/// Marks the tasks whose sort value is `k`.
pub open spec fn key_pred(by: SortKey, k: int) -> spec_fn(TaskView) -> bool {
    |t: TaskView| key_of(t, by) == k
}

/// The list is in ascending order of sort value.
pub open spec fn sorted_by(s: Seq<TaskView>, by: SortKey) -> bool {
    forall|i: int, j: int| 0 <= i < j < s.len() ==> key_of(s[i], by) <= key_of(s[j], by)
}

/// `r` holds, for every sort value, the same tasks in the same order as `s`.
pub open spec fn same_classes(r: Seq<TaskView>, s: Seq<TaskView>, by: SortKey) -> bool {
    forall|k: int| #[trigger] r.filter(key_pred(by, k)) == s.filter(key_pred(by, k))
}

/// The task carries every tag of `filter` (exact, case-sensitive match).
pub open spec fn has_all_tags(t: TaskView, filter: Seq<Seq<char>>) -> bool {
    forall|j: int| 0 <= j < filter.len() ==> t.tags.contains(#[trigger] filter[j])
}

/// Marks the tasks that carry every tag of `filter`.
pub open spec fn tag_pred(filter: Seq<Seq<char>>) -> spec_fn(TaskView) -> bool {
    |t: TaskView| has_all_tags(t, filter)
}

fn contains_tag(tags: &Vec<String>, tag: &String) -> (r: bool)
    ensures
        r == string_views(tags@).contains(tag@),
{
    let mut i: usize = 0;
    while i < tags.len()
        invariant
            i <= tags.len(),
            forall|j: int| 0 <= j < i ==> tags@[j]@ != tag@,
        decreases tags.len() - i,
    {
        if tags[i] == *tag {
            assert(string_views(tags@)[i as int] == tag@);
            return true;
        }
        i += 1;
    }
    proof {
        if string_views(tags@).contains(tag@) {
            let j = choose|j: int| 0 <= j < tags@.len() && string_views(tags@)[j] == tag@;
            assert(tags@[j]@ == tag@);
        }
    }
    false
}

fn has_tags(t: &Task, filter: &Vec<String>) -> (r: bool)
    ensures
        r == has_all_tags(t@, string_views(filter@)),
{
    let mut i: usize = 0;
    while i < filter.len()
        invariant
            i <= filter.len(),
            forall|j: int|
                0 <= j < i ==> t@.tags.contains(#[trigger] string_views(filter@)[j]),
        decreases filter.len() - i,
    {
        if !contains_tag(&t.tags, &filter[i]) {
            assert(!t@.tags.contains(string_views(filter@)[i as int]));
            return false;
        }
        i += 1;
    }
    true
}

/// The tasks, in order, that carry every tag of `filter`.
pub fn filter_by_tags(tasks: &Vec<Task>, filter: &Vec<String>) -> (r: Vec<Task>)
    ensures
        views(r@) == views(tasks@).filter(tag_pred(string_views(filter@))),
{
    let ghost s = views(tasks@);
    let ghost f = string_views(filter@);
    let mut r: Vec<Task> = Vec::new();
    let mut i: usize = 0;
    while i < tasks.len()
        invariant
            s == views(tasks@),
            f == string_views(filter@),
            i <= tasks.len(),
            views(r@) == s.take(i as int).filter(tag_pred(f)),
        decreases tasks.len() - i,
    {
        proof {
            lemma_filter_take_step(s, i as int, tag_pred(f));
        }
        if has_tags(&tasks[i], filter) {
            let t = tasks[i].copy();
            proof {
                assert(views(r@.push(t)) =~= views(r@).push(t@));
            }
            r.push(t);
        }
        i += 1;
    }
    assert(s.take(i as int) =~= s);
    r
}

fn sort_value(t: &Task, by: SortKey) -> (k: i128)
    ensures
        k == key_of(t@, by),
{
    match by {
        SortKey::DueDate => match t.due_date {
            Some(d) => d as i128,
            None => i64::MAX as i128 + 1,
        },
        SortKey::Priority => t.priority.rank() as i128,
    }
}

proof fn lemma_filter_none<A>(s: Seq<A>, pred: spec_fn(A) -> bool)
    requires
        forall|j: int| 0 <= j < s.len() ==> !pred(#[trigger] s[j]),
    ensures
        s.filter(pred) == Seq::<A>::empty(),
    decreases s.len(),
{
    reveal(Seq::filter);
    if s.len() > 0 {
        lemma_filter_none(s.drop_last(), pred);
    }
}

proof fn lemma_insert_classes(r: Seq<TaskView>, p: int, x: TaskView, by: SortKey, k: int)
    requires
        0 <= p <= r.len(),
        forall|j: int| p <= j < r.len() ==> key_of(#[trigger] r[j], by) > key_of(x, by),
    ensures
        r.insert(p, x).filter(key_pred(by, k)) == (if key_of(x, by) == k {
            r.filter(key_pred(by, k)).push(x)
        } else {
            r.filter(key_pred(by, k))
        }),
{
    let f = key_pred(by, k);
    let a = r.take(p);
    let b = r.skip(p);
    let one = seq![x];
    assert(r.insert(p, x) =~= (a + one) + b);
    assert(r =~= a + b);
    Seq::filter_distributes_over_add(a + one, b, f);
    Seq::filter_distributes_over_add(a, one, f);
    Seq::filter_distributes_over_add(a, b, f);
    reveal_with_fuel(Seq::filter, 2);
    assert(one.drop_last() =~= Seq::<TaskView>::empty());
    if key_of(x, by) == k {
        assert forall|j: int| 0 <= j < b.len() implies !f(#[trigger] b[j]) by {
            assert(b[j] == r[p + j]);
        }
        lemma_filter_none(b, f);
        assert(a.filter(f) + one + b.filter(f) =~= (a.filter(f) + b.filter(f)).push(x));
    } else {
        assert(a.filter(f) + Seq::<TaskView>::empty() =~= a.filter(f));
    }
}

/// A stably sorted copy of the list: ascending by sort value, and tasks with
/// equal values keep their relative order. The list itself is not changed.
pub fn sorted_view(tasks: &Vec<Task>, by: SortKey) -> (r: Vec<Task>)
    ensures
        sorted_by(views(r@), by),
        same_classes(views(r@), views(tasks@), by),
        views(r@).len() == tasks@.len(),
{
    let ghost s = views(tasks@);
    let mut r: Vec<Task> = Vec::new();
    let mut i: usize = 0;
    assert(views(r@) =~= s.take(0));
    while i < tasks.len()
        invariant
            s == views(tasks@),
            i <= tasks.len(),
            r.len() == i,
            sorted_by(views(r@), by),
            same_classes(views(r@), s.take(i as int), by),
        decreases tasks.len() - i,
    {
        let x = tasks[i].copy();
        let kx = sort_value(&x, by);
        let mut p: usize = 0;
        while p < r.len() && sort_value(&r[p], by) <= kx
            invariant
                p <= r.len(),
                forall|j: int| 0 <= j < p ==> key_of(#[trigger] views(r@)[j], by) <= kx,
            decreases r.len() - p,
        {
            p += 1;
        }
        let ghost rv = views(r@);
        proof {
            assert forall|j: int| p <= j < rv.len() implies key_of(#[trigger] rv[j], by) > key_of(
                x@,
                by,
            ) by {
                assert(key_of(rv[p as int], by) > kx);
            }
            assert forall|k: int|
                #[trigger] rv.insert(p as int, x@).filter(key_pred(by, k)) == s.take(
                    i + 1,
                ).filter(key_pred(by, k)) by {
                lemma_insert_classes(rv, p as int, x@, by, k);
                lemma_filter_take_step(s, i as int, key_pred(by, k));
                assert(rv.filter(key_pred(by, k)) == s.take(i as int).filter(key_pred(by, k)));
            }
        }
        r.insert(p, x);
        proof {
            assert(views(r@) =~= rv.insert(p as int, x@));
        }
        i += 1;
    }
    assert(s.take(i as int) =~= s);
    r
}

/// The tasks sorted by due date, earliest first, those without one last;
/// ties keep their order.
pub fn sort_by_due_date(tasks: &Vec<Task>) -> (r: Vec<Task>)
    ensures
        sorted_by(views(r@), SortKey::DueDate),
        same_classes(views(r@), views(tasks@), SortKey::DueDate),
        r@.len() == tasks@.len(),
{
    sorted_view(tasks, SortKey::DueDate)
}

/// The tasks sorted by priority, `Low` first; ties keep their order.
pub fn sort_by_priority(tasks: &Vec<Task>) -> (r: Vec<Task>)
    ensures
        sorted_by(views(r@), SortKey::Priority),
        same_classes(views(r@), views(tasks@), SortKey::Priority),
        r@.len() == tasks@.len(),
{
    sorted_view(tasks, SortKey::Priority)
}

/// A copy of a list of tasks.
pub fn copy_tasks(tasks: &Vec<Task>) -> (r: Vec<Task>)
    ensures
        views(r@) == views(tasks@),
{
    let mut r: Vec<Task> = Vec::new();
    let mut i: usize = 0;
    while i < tasks.len()
        invariant
            i <= tasks.len(),
            views(r@) == views(tasks@).take(i as int),
        decreases tasks.len() - i,
    {
        let t = tasks[i].copy();
        proof {
            assert(views(r@.push(t)) =~= views(r@).push(t@));
            assert(views(tasks@).take(i + 1) =~= views(tasks@).take(i as int).push(t@));
        }
        r.push(t);
        i += 1;
    }
    assert(views(tasks@).take(i as int) =~= views(tasks@));
    r
}

/// The tasks a listing starts from: those carrying every tag of the filter,
/// or all of them when there is no filter.
pub open spec fn listed(tasks: Seq<TaskView>, tags: Option<Seq<Seq<char>>>) -> Seq<TaskView> {
    match tags {
        Some(f) => tasks.filter(tag_pred(f)),
        None => tasks,
    }
}

/// A listing of the tasks: filtered by tags, then stably sorted by due date,
/// then stably sorted by priority, each step where asked for. The list
/// itself is not changed.
pub fn list_view(
    tasks: &Vec<Task>,
    tags: &Option<Vec<String>>,
    by_due_date: bool,
    by_priority: bool,
) -> (r: Vec<Task>)
    ensures
        ({
            let l = listed(
                views(tasks@),
                match tags {
                    Some(f) => Some(string_views(f@)),
                    None => None,
                },
            );
            &&& !by_due_date && !by_priority ==> views(r@) == l
            &&& by_due_date && !by_priority ==> sorted_by(views(r@), SortKey::DueDate)
                && same_classes(views(r@), l, SortKey::DueDate)
            &&& !by_due_date && by_priority ==> sorted_by(views(r@), SortKey::Priority)
                && same_classes(views(r@), l, SortKey::Priority)
            &&& by_due_date && by_priority ==> sorted_by(views(r@), SortKey::Priority) && exists|
                m: Seq<TaskView>,
            |
                sorted_by(m, SortKey::DueDate) && same_classes(m, l, SortKey::DueDate)
                    && same_classes(views(r@), m, SortKey::Priority)
        }),
{
    let filtered = match tags {
        Some(f) => filter_by_tags(tasks, f),
        None => copy_tasks(tasks),
    };
    let by_due = if by_due_date {
        sort_by_due_date(&filtered)
    } else {
        filtered
    };
    if by_priority {
        sort_by_priority(&by_due)
    } else {
        by_due
    }
}

/// Marks the tasks whose due date is `d`.
pub open spec fn due_pred(d: Option<i64>) -> spec_fn(TaskView) -> bool {
    |t: TaskView| t.due_date == d
}

/// The tag filter keeps exactly the tasks whose tags include every tag of
/// the filter, in their order.
#[allow(deprecated)]
pub proof fn law_filter_exact(l: Seq<TaskView>, f: Seq<Seq<char>>)
    ensures
        forall|t: TaskView| #[trigger]
            l.filter(tag_pred(f)).contains(t) <==> l.contains(t) && has_all_tags(t, f),
{
    assert forall|t: TaskView| #[trigger]
        l.filter(tag_pred(f)).contains(t) <==> l.contains(t) && has_all_tags(t, f) by {
        l.filter_lemma(tag_pred(f));
        if l.contains(t) && has_all_tags(t, f) {
            let i = choose|i: int| 0 <= i < l.len() && l[i] == t;
            assert(tag_pred(f)(l[i]));
        }
        if l.filter(tag_pred(f)).contains(t) {
            let i = choose|i: int|
                0 <= i < l.filter(tag_pred(f)).len() && l.filter(tag_pred(f))[i] == t;
            assert(tag_pred(f)(l.filter(tag_pred(f))[i]));
            l.lemma_filter_contains_rev(tag_pred(f), t);
        }
    }
}

/// Sorting by due date puts the tasks without one after those with one,
/// these in ascending order, and keeps the order of tasks with equal due
/// dates.
pub proof fn law_due_date_order(r: Seq<TaskView>, s: Seq<TaskView>)
    requires
        sorted_by(r, SortKey::DueDate),
        same_classes(r, s, SortKey::DueDate),
    ensures
        forall|i: int, j: int|
            0 <= i < j < r.len() && r[i].due_date is None ==> r[j].due_date is None,
        forall|i: int, j: int|
            0 <= i < j < r.len() && r[i].due_date is Some && r[j].due_date is Some
                ==> r[i].due_date.unwrap() <= r[j].due_date.unwrap(),
        forall|d: Option<i64>| #[trigger] r.filter(due_pred(d)) == s.filter(due_pred(d)),
{
    assert forall|i: int, j: int|
        0 <= i < j < r.len() && r[i].due_date is None implies r[j].due_date is None by {
        assert(key_of(r[i], SortKey::DueDate) <= key_of(r[j], SortKey::DueDate));
    }
    assert forall|i: int, j: int|
        0 <= i < j < r.len() && r[i].due_date is Some && r[j].due_date is Some implies r[i].due_date.unwrap()
        <= r[j].due_date.unwrap() by {
        assert(key_of(r[i], SortKey::DueDate) <= key_of(r[j], SortKey::DueDate));
    }
    assert forall|d: Option<i64>| #[trigger] r.filter(due_pred(d)) == s.filter(due_pred(d)) by {
        let k = match d {
            Some(x) => x as int,
            None => i64::MAX + 1,
        };
        assert(due_pred(d) =~= key_pred(SortKey::DueDate, k));
        assert(r.filter(key_pred(SortKey::DueDate, k)) == s.filter(key_pred(SortKey::DueDate, k)));
    }
}

} // verus!
