use crate::time::Timestamp;
use vstd::prelude::*;

verus! {

/// A named project, the owner of task entries.
#[derive(Debug)]
pub struct Project {
    pub id: i64,
    pub name: String,
    pub created_at: Timestamp,
    pub updated_at: Timestamp,
}

/// A [`Project`] as plain mathematical values; times are seconds.
pub ghost struct ProjectView {
    pub id: int,
    pub name: Seq<char>,
    pub created_at: int,
    pub updated_at: int,
}

impl View for Project {
    type V = ProjectView;

    open spec fn view(&self) -> ProjectView {
        ProjectView {
            id: self.id as int,
            name: self.name@,
            created_at: self.created_at@,
            updated_at: self.updated_at@,
        }
    }
}

impl Clone for Project {
    fn clone(&self) -> (r: Self)
        ensures
            r == *self,
    {
        Project {
            id: self.id,
            name: self.name.clone(),
            created_at: self.created_at,
            updated_at: self.updated_at,
        }
    }
}

} // verus!
