use super::{clock_view, Database, StoreView};
use crate::error::{AppError, ErrorView};
use crate::models::{ClockState, ClockView};
use crate::time::Timestamp;
use vstd::prelude::*;

verus! {

/// The store's refusal of a second clock.
pub open spec fn msg_clock_exists() -> Seq<char> {
    "Database error: UNIQUE constraint failed: clock_state.id"@
}

/// The store's refusal of a reference to a project that does not exist.
pub open spec fn msg_foreign_key() -> Seq<char> {
    "Database error: FOREIGN KEY constraint failed"@
}

impl Database {
    /// Starts the clock on the project `project_id`.
    ///
    /// Refused with a system condition, the store unchanged, where a clock
    /// is already running or the project does not exist.
    pub fn insert_clock_state(
        &mut self,
        project_id: i64,
        description: &str,
        start_time: Timestamp,
    ) -> (r: Result<(), AppError>)
        requires
            old(self).wf(),
        ensures
            final(self).wf(),
            old(self)@.clock is Some ==> final(self)@ == old(self)@ && (r matches Err(e) && e@
                == ErrorView::System(msg_clock_exists())),
            old(self)@.clock is None && !old(self)@.has_project(project_id as int) ==> final(self)@
                == old(self)@ && (r matches Err(e) && e@ == ErrorView::System(msg_foreign_key())),
            old(self)@.clock is None && old(self)@.has_project(project_id as int) ==> r is Ok
                && final(self)@ == (StoreView {
                clock: Some(
                    ClockView {
                        id: 1,
                        project_id: project_id as int,
                        description: description@,
                        start_time: start_time@,
                    },
                ),
                ..old(self)@
            }),
    {
        if self.clock.is_some() {
            return Err(AppError::system("Database error: UNIQUE constraint failed: clock_state.id"));
        }
        if !self.project_exists(project_id) {
            return Err(AppError::system("Database error: FOREIGN KEY constraint failed"));
        }
        self.clock = Some(
            ClockState { id: 1, project_id, description: description.to_owned(), start_time },
        );
        Ok(())
    }

    /// The running clock, if there is one.
    pub fn get_clock_state(&self) -> (r: Option<ClockState>)
        ensures
            clock_view(r) == self@.clock,
    {
        match &self.clock {
            Some(c) => Some(c.clone()),
            None => None,
        }
    }

    /// Discards the running clock, if there is one.
    pub fn delete_clock_state(&mut self)
        requires
            old(self).wf(),
        ensures
            final(self).wf(),
            final(self)@ == (StoreView { clock: None, ..old(self)@ }),
    {
        self.clock = None;
    }
}

} // verus!
