//! The operations on the store: the clock, projects, task entries, the
//! daily journal and the range report.

pub mod clock;
pub mod journal;
pub mod project;
pub mod report;
pub mod task;

use crate::db::{Database, StoreView};
use crate::error::{AppError, ErrorView};
use crate::models::{Project, ProjectView};
use crate::text::{parse_i64, parse_i64_spec};
use vstd::prelude::*;

verus! {

pub open spec fn msg_project_not_found(reference: Seq<char>) -> Seq<char> {
    "Project '"@ + reference + "' not found."@
}

impl StoreView {
    /// The project that `reference` names: the one with that id where the
    /// text writes an integer, the one of exactly that name where it does
    /// not. A text that writes an integer is never taken as a name.
    pub open spec fn resolve(self, reference: Seq<char>) -> Option<ProjectView> {
        match parse_i64_spec(reference) {
            Some(id) => self.project_by_id(id as int),
            None => self.project_by_name(reference),
        }
    }

    /// The name of the project `id`, or `?` where there is none.
    pub open spec fn project_label(self, id: int) -> Seq<char> {
        match self.project_by_id(id) {
            Some(p) => p.name,
            None => "?"@,
        }
    }
}

/// A project that a reference resolves to is in the store, under its id.
pub proof fn lemma_resolved_exists(store: StoreView, reference: Seq<char>)
    requires
        store.wf(),
        store.resolve(reference) is Some,
    ensures
        store.has_project(store.resolve(reference)->0.id),
        store.project_by_id(store.resolve(reference)->0.id) == store.resolve(reference),
{
    match parse_i64_spec(reference) {
        Some(id) => {
            let i = store.project_index(id as int);
            store.lemma_project_by_id(i);
        },
        None => {
            let i = choose|i: int|
                0 <= i < store.projects.len() && (#[trigger] store.projects[i]).name == reference;
            store.lemma_project_by_id(i);
        },
    }
}

/// Resolves a project by id or by name.
pub fn resolve_project(db: &Database, name_or_id: &str) -> (r: Result<Project, AppError>)
    requires
        db.wf(),
    ensures
        match r {
            Ok(p) => db@.resolve(name_or_id@) == Some(p@),
            Err(e) => db@.resolve(name_or_id@) is None && e@ == ErrorView::User(
                msg_project_not_found(name_or_id@),
            ),
        },
{
    let found = match parse_i64(name_or_id) {
        Some(id) => db.find_project_by_id(id),
        None => db.find_project_by_name(name_or_id),
    };
    match found {
        Some(p) => Ok(p),
        None => Err(AppError::user_about("Project '", name_or_id, "' not found.")),
    }
}

/// The name of the project `id`, or `?` where there is none.
pub fn project_label(db: &Database, id: i64) -> (r: String)
    requires
        db.wf(),
    ensures
        r@ == db@.project_label(id as int),
{
    match db.find_project_by_id(id) {
        Some(p) => p.name,
        None => "?".to_owned(),
    }
}

} // verus!
