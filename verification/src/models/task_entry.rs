use crate::time::Timestamp;
use vstd::prelude::*;

verus! {

/// A logged unit of work on a project.
#[derive(Debug)]
pub struct TaskEntry {
    pub id: i64,
    pub project_id: i64,
    pub description: String,
    pub start_time: Option<Timestamp>,
    pub end_time: Option<Timestamp>,
    pub duration_min: i64,
    pub created_at: Timestamp,
    pub updated_at: Timestamp,
}

/// A [`TaskEntry`] as plain mathematical values; times are seconds.
pub ghost struct TaskView {
    pub id: int,
    pub project_id: int,
    pub description: Seq<char>,
    pub start_time: Option<int>,
    pub end_time: Option<int>,
    pub duration_min: int,
    pub created_at: int,
    pub updated_at: int,
}

/// The view of an optional time.
pub open spec fn time_view(t: Option<Timestamp>) -> Option<int> {
    match t {
        Some(t) => Some(t@),
        None => None,
    }
}

impl TaskView {
    /// The second by which the entry is dated and ordered: its start, or
    /// its creation where it has no start.
    pub open spec fn effective(self) -> int {
        match self.start_time {
            Some(s) => s,
            None => self.created_at,
        }
    }
}

impl View for TaskEntry {
    type V = TaskView;

    open spec fn view(&self) -> TaskView {
        TaskView {
            id: self.id as int,
            project_id: self.project_id as int,
            description: self.description@,
            start_time: time_view(self.start_time),
            end_time: time_view(self.end_time),
            duration_min: self.duration_min as int,
            created_at: self.created_at@,
            updated_at: self.updated_at@,
        }
    }
}

impl TaskEntry {
    /// The time by which the entry is dated and ordered: its start, or its
    /// creation where it has no start.
    pub fn effective_time(&self) -> (r: Timestamp)
        ensures
            r@ == self@.effective(),
    {
        match self.start_time {
            Some(s) => s,
            None => self.created_at,
        }
    }
}

impl Clone for TaskEntry {
    fn clone(&self) -> (r: Self)
        ensures
            r == *self,
    {
        TaskEntry {
            id: self.id,
            project_id: self.project_id,
            description: self.description.clone(),
            start_time: self.start_time,
            end_time: self.end_time,
            duration_min: self.duration_min,
            created_at: self.created_at,
            updated_at: self.updated_at,
        }
    }
}

} // verus!
