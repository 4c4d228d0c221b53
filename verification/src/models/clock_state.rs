use crate::time::Timestamp;
use vstd::prelude::*;

verus! {

/// The running timer. The store holds at most one, always under the id 1.
#[derive(Debug)]
pub struct ClockState {
    pub id: i64,
    pub project_id: i64,
    pub description: String,
    pub start_time: Timestamp,
}

/// A [`ClockState`] as plain mathematical values; times are seconds.
pub ghost struct ClockView {
    pub id: int,
    pub project_id: int,
    pub description: Seq<char>,
    pub start_time: int,
}

impl View for ClockState {
    type V = ClockView;

    open spec fn view(&self) -> ClockView {
        ClockView {
            id: self.id as int,
            project_id: self.project_id as int,
            description: self.description@,
            start_time: self.start_time@,
        }
    }
}

impl Clone for ClockState {
    fn clone(&self) -> (r: Self)
        ensures
            r == *self,
    {
        ClockState {
            id: self.id,
            project_id: self.project_id,
            description: self.description.clone(),
            start_time: self.start_time,
        }
    }
}

} // verus!
