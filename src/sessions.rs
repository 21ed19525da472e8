//! Sessions: one timed interval of work against a task.

use vstd::prelude::*;

verus! {

pub struct SessionView {
    pub id: i64,
    pub task: i64,
    pub user: Seq<char>,
    pub duration_secs: u64,
    pub comment: Seq<char>,
}

impl SessionView {
    /// A session that has only just been opened, against `task`.
    pub open spec fn opened(task: i64) -> SessionView {
        SessionView { id: 1, task, user: Seq::empty(), duration_secs: 0, comment: Seq::empty() }
    }
}

#[derive(Debug)]
pub struct Session {
    pub s_id: i64,
    pub s_task: i64,
    pub s_user: String,
    pub s_duration: u64,
    pub s_comment: String,
}

impl View for Session {
    type V = SessionView;

    open spec fn view(&self) -> SessionView {
        SessionView {
            id: self.s_id,
            task: self.s_task,
            user: self.s_user@,
            duration_secs: self.s_duration,
            comment: self.s_comment@,
        }
    }
}

impl Default for Session {
    /// A fresh session against task 1, with no user, time or comment yet.
    fn default() -> (r: Session)
        ensures
            r@ == SessionView::opened(1),
    {
        Session::for_task(1)
    }
}

impl Session {
    /// A fresh session against `task`.
    pub fn for_task(task: i64) -> (r: Session)
        ensures
            r@ == SessionView::opened(task),
    {
        Session {
            s_id: 1,
            s_task: task,
            s_user: String::new(),
            s_duration: 0,
            s_comment: String::new(),
        }
    }
}

} // verus!
