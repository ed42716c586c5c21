//! Projects: the namespaces that own environments and features.

use vstd::prelude::*;
use crate::errors::{BadRequest, FlagrantError};
use crate::model::Project;
use crate::store::{first, first_is, project_with, Store, StoreView};

verus! {

/// Why a project of the name `name` cannot be created, if it cannot.
pub open spec fn create_refusal(v: StoreView, name: Seq<char>) -> Option<FlagrantError> {
    if name.len() == 0 {
        Some(FlagrantError::BadRequest(BadRequest::NameInvalid))
    } else if v.next_project == u16::MAX {
        Some(FlagrantError::StoreUnavailable)
    } else {
        None
    }
}

/// The project with the id `project_id`, where the store holds one.
pub open spec fn fetched(v: StoreView, project_id: u16) -> Result<Project, FlagrantError> {
    let at = first(v.projects, project_with(project_id));
    if at < v.projects.len() {
        Ok(v.projects[at])
    } else {
        Err(FlagrantError::NotFound)
    }
}

/// Creates a project called `name`, which must not be empty.
///
/// The project gets the next id and stands last in the store; a fetch by
/// its id finds it. A call that fails changes nothing.
pub fn create(store: &mut Store, name: String) -> (r: Result<Project, FlagrantError>)
    requires
        old(store).wf(),
    ensures
        final(store).wf(),
        match r {
            Ok(project) => {
                &&& create_refusal(old(store)@, name@) is None
                &&& project == (Project { id: old(store)@.next_project, name })
                &&& final(store)@ == (StoreView {
                    projects: old(store)@.projects.push(project),
                    next_project: (old(store)@.next_project + 1) as u16,
                    ..old(store)@
                })
                &&& fetched(final(store)@, project.id) == Ok::<Project, FlagrantError>(project)
            },
            Err(e) => {
                &&& create_refusal(old(store)@, name@) == Some(e)
                &&& *final(store) == *old(store)
            },
        },
{
    if name.as_str().is_empty() {
        return Err(FlagrantError::BadRequest(BadRequest::NameInvalid));
    }
    if store.next_project == u16::MAX {
        return Err(FlagrantError::StoreUnavailable);
    }
    let id = store.next_project;
    let project = Project { id, name };
    let copy = project.clone();
    store.projects.push(project);
    store.next_project = id + 1;
    proof {
        first_is(store@.projects, project_with(id), old(store)@.projects.len() as int);
    }
    Ok(copy)
}

/// The project with the id `project_id`.
pub fn fetch(store: &Store, project_id: u16) -> (r: Result<Project, FlagrantError>)
    ensures
        r == fetched(store@, project_id),
{
    let at = store.find_project(project_id);
    if at < store.projects.len() {
        Ok(store.projects[at].clone())
    } else {
        Err(FlagrantError::NotFound)
    }
}

} // verus!
