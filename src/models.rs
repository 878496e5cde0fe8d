use vstd::prelude::*;

verus! {

/// Ordered priority of a task: `Low < Medium < High`.
#[derive(Clone, Copy, Debug, PartialEq, Eq, Structural)]
pub enum Priority {
    Low,
    Medium,
    High,
}

impl Priority {
    /// The position of the priority in its order, used as a sort key.
    pub open spec fn spec_rank(self) -> u8 {
        match self {
            Priority::Low => 0,
            Priority::Medium => 1,
            Priority::High => 2,
        }
    }

    #[verifier::when_used_as_spec(spec_rank)]
    pub fn rank(self) -> (r: u8)
        ensures
            r == self.spec_rank(),
    {
        match self {
            Priority::Low => 0,
            Priority::Medium => 1,
            Priority::High => 2,
        }
    }
}

impl Default for Priority {
    fn default() -> (r: Priority)
        ensures
            r == Priority::Low,
    {
        Priority::Low
    }
}

/// A task. `due_date` is a UTC instant in seconds since the Unix epoch; `None`
/// means the task has no deadline.
#[derive(Clone, Debug)]
pub struct Task {
    pub id: u32,
    pub description: String,
    pub tags: Vec<String>,
    pub due_date: Option<i64>,
    pub priority: Priority,
    pub completed: bool,
}

/// The mathematical value of a task.
pub struct TaskView {
    pub id: u32,
    pub description: Seq<char>,
    pub tags: Seq<Seq<char>>,
    pub due_date: Option<i64>,
    pub priority: Priority,
    pub completed: bool,
}

impl TaskView {
    /// The same task under another id.
    pub open spec fn with_id(self, id: u32) -> TaskView {
        TaskView { id, ..self }
    }

    /// The same task with another completion flag.
    pub open spec fn with_completed(self, completed: bool) -> TaskView {
        TaskView { completed, ..self }
    }

    /// Everything about the task but its id.
    pub open spec fn content(self) -> TaskView {
        self.with_id(0)
    }
}

/// The values of a list of strings.
pub open spec fn string_views(s: Seq<String>) -> Seq<Seq<char>> {
    s.map_values(|x: String| x@)
}

impl View for Task {
    type V = TaskView;

    open spec fn view(&self) -> TaskView {
        TaskView {
            id: self.id,
            description: self.description@,
            tags: string_views(self.tags@),
            due_date: self.due_date,
            priority: self.priority,
            completed: self.completed,
        }
    }
}

/// The values of a list of tasks.
pub open spec fn views(s: Seq<Task>) -> Seq<TaskView> {
    s.map_values(|t: Task| t@)
}

/// The list with every task re-numbered to its position, counting from 1.
pub open spec fn renumbered(s: Seq<TaskView>) -> Seq<TaskView> {
    Seq::new(s.len(), |i: int| s[i].with_id((i + 1) as u32))
}

/// Ids form exactly `1..=len`, in list order.
pub open spec fn dense(s: Seq<TaskView>) -> bool {
    forall|i: int| 0 <= i < s.len() ==> #[trigger] s[i].id == i + 1
}

/// The contents of a list, ids left out.
pub open spec fn contents(s: Seq<TaskView>) -> Seq<TaskView> {
    s.map_values(|t: TaskView| t.content())
}

/// Re-numbering gives dense ids and keeps every task's content.
pub proof fn lemma_renumbered_dense(s: Seq<TaskView>)
    requires
        s.len() < u32::MAX,
    ensures
        dense(renumbered(s)),
        contents(renumbered(s)) == contents(s),
{
    assert(contents(renumbered(s)) =~= contents(s));
}

/// A copy of a list of strings.
pub fn copy_strings(v: &Vec<String>) -> (r: Vec<String>)
    ensures
        r@ == v@,
{
    let mut r: Vec<String> = Vec::new();
    let mut i: usize = 0;
    while i < v.len()
        invariant
            i <= v.len(),
            r@ == v@.take(i as int),
        decreases v.len() - i,
    {
        r.push(v[i].clone());
        i += 1;
        assert(r@ =~= v@.take(i as int));
    }
    assert(v@.take(i as int) =~= v@);
    r
}

impl Task {
    /// A new, not yet completed task.
    pub fn new(
        id: u32,
        description: String,
        tags: Vec<String>,
        due_date: Option<i64>,
        priority: Priority,
    ) -> (r: Task)
        ensures
            r@ == (TaskView {
                id,
                description: description@,
                tags: string_views(tags@),
                due_date,
                priority,
                completed: false,
            }),
    {
        Task { id, description, tags, due_date, priority, completed: false }
    }

    /// A copy of the task with the same value.
    pub fn copy(&self) -> (r: Task)
        ensures
            r@ == self@,
    {
        Task {
            id: self.id,
            description: self.description.clone(),
            tags: copy_strings(&self.tags),
            due_date: self.due_date,
            priority: self.priority,
            completed: self.completed,
        }
    }
}

/// Unfolds a filter over a prefix by one more element.
pub proof fn lemma_filter_take_step<A>(s: Seq<A>, i: int, pred: spec_fn(A) -> bool)
    requires
        0 <= i < s.len(),
    ensures
        s.take(i + 1).filter(pred) == (if pred(s[i]) {
            s.take(i).filter(pred).push(s[i])
        } else {
            s.take(i).filter(pred)
        }),
{
    reveal(Seq::filter);
    assert(s.take(i + 1).drop_last() =~= s.take(i));
}

/// Re-numbers every task of the list to its position, counting from 1.
pub fn renumber(v: &mut Vec<Task>)
    requires
        old(v).len() < u32::MAX,
    ensures
        views(final(v)@) == renumbered(views(old(v)@)),
        dense(views(final(v)@)),
{
    let n = v.len();
    let mut i: usize = 0;
    while i < n
        invariant
            n == v.len() == old(v).len(),
            n < u32::MAX,
            i <= n,
            forall|j: int| 0 <= j < i ==> #[trigger] v@[j]@ == old(v)@[j]@.with_id((j + 1) as u32),
            forall|j: int| i <= j < n ==> #[trigger] v@[j] == old(v)@[j],
        decreases n - i,
    {
        v[i].id = (i + 1) as u32;
        i += 1;
    }
    assert(views(v@) =~= renumbered(views(old(v)@)));
}

} // verus!
