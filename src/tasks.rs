//! Tasks: named units of work with a priority.

use vstd::prelude::*;

verus! {

#[derive(PartialEq, Eq, Structural, Clone, Copy, Debug)]
pub enum Priority {
    Low,
    Medium,
    High,
}

impl Priority {
    /// The level under which a priority is stored: 0, 1 or 2.
    pub open spec fn level_of(self) -> usize {
        match self {
            Priority::Low => 0,
            Priority::Medium => 1,
            Priority::High => 2,
        }
    }

    pub open spec fn label_of(self) -> Seq<char> {
        match self {
            Priority::Low => seq!['L', 'o', 'w'],
            Priority::Medium => seq!['M', 'e', 'd', 'i', 'u', 'm'],
            Priority::High => seq!['H', 'i', 'g', 'h'],
        }
    }

    pub fn level(&self) -> (r: usize)
        ensures
            r == self.level_of(),
    {
        match self {
            Priority::Low => 0,
            Priority::Medium => 1,
            Priority::High => 2,
        }
    }

    /// The priority stored under `level`; none above 2.
    pub fn from_level(level: usize) -> (r: Option<Priority>)
        ensures
            r matches Some(p) ==> p.level_of() == level,
            r is None <==> level > 2,
    {
        match level {
            0 => Some(Priority::Low),
            1 => Some(Priority::Medium),
            2 => Some(Priority::High),
            _ => None,
        }
    }

    /// The name shown for the priority.
    pub fn label(&self) -> (r: &'static str)
        ensures
            r@ == self.label_of(),
    {
        proof {
            reveal_strlit("Low");
            reveal_strlit("Medium");
            reveal_strlit("High");
        }
        match self {
            Priority::Low => "Low",
            Priority::Medium => "Medium",
            Priority::High => "High",
        }
    }
}

pub struct TaskView {
    pub id: i64,
    pub name: Seq<char>,
    pub priority: Priority,
}

#[derive(Clone, Debug)]
pub struct Task {
    pub t_id: i64,
    pub t_name: String,
    pub t_priority: Priority,
}

impl View for Task {
    type V = TaskView;

    open spec fn view(&self) -> TaskView {
        TaskView { id: self.t_id, name: self.t_name@, priority: self.t_priority }
    }
}

pub open spec fn tasks_view(tasks: Seq<Task>) -> Seq<TaskView> {
    tasks.map_values(|t: Task| t@)
}

impl Default for Task {
    /// A task with id 1, no name and the lowest priority.
    fn default() -> (r: Task)
        ensures
            r@ == (TaskView { id: 1, name: Seq::empty(), priority: Priority::Low }),
    {
        Task { t_id: 1, t_name: String::new(), t_priority: Priority::Low }
    }
}

impl Task {
    /// A copy that has the same id, name and priority.
    pub fn duplicate(&self) -> (r: Task)
        ensures
            r@ == self@,
    {
        Task { t_id: self.t_id, t_name: self.t_name.clone(), t_priority: self.t_priority }
    }
}

/// A copy of a task list, in the same order.
pub fn duplicate_tasks(tasks: &Vec<Task>) -> (r: Vec<Task>)
    ensures
        tasks_view(r@) == tasks_view(tasks@),
{
    let mut r: Vec<Task> = Vec::new();
    let mut i: usize = 0;
    while i < tasks.len()
        invariant
            i <= tasks.len(),
            r@.len() == i,
            forall|j: int| 0 <= j < i ==> #[trigger] r@[j]@ == tasks@[j]@,
        decreases tasks.len() - i,
    {
        let t = tasks[i].duplicate();
        r.push(t);
        i = i + 1;
    }
    assert(tasks_view(r@) =~= tasks_view(tasks@));
    r
}

} // verus!
