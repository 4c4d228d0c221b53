//! The three record kinds of the store and their mathematical views.

mod clock_state;
mod project;
mod task_entry;

pub use clock_state::{ClockState, ClockView};
pub use project::{Project, ProjectView};
pub use task_entry::{time_view, TaskEntry, TaskView};
