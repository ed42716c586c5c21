//! Environments: the named slices of a project.

use vstd::prelude::*;
use crate::errors::{BadRequest, FlagrantError};
use crate::model::{Environment, Project};
use crate::store::{
    environment_named, environment_with, first, first_is, position_is_first, project_with, Store,
    StoreView,
};
use crate::text::{has_prefix, starts_with};

verus! {

/// Why an environment called `name` cannot be created in the project
/// `project_id`, if it cannot.
pub open spec fn create_refusal(v: StoreView, project_id: u16, name: Seq<char>) -> Option<
    FlagrantError,
> {
    if first(v.projects, project_with(project_id)) >= v.projects.len() {
        Some(FlagrantError::NotFound)
    } else if first(v.environments, environment_named(project_id, name)) < v.environments.len() {
        Some(FlagrantError::BadRequest(BadRequest::NameTaken))
    } else if v.next_environment == u16::MAX {
        Some(FlagrantError::StoreUnavailable)
    } else {
        None
    }
}

/// The environment with the id `environment_id`, where the store holds one.
pub open spec fn fetched(v: StoreView, environment_id: u16) -> Result<Environment, FlagrantError> {
    let at = first(v.environments, environment_with(environment_id));
    if at < v.environments.len() {
        Ok(v.environments[at])
    } else {
        Err(FlagrantError::NotFound)
    }
}

/// The environment of the project `project_id` that is called `name`,
/// where the store holds one.
pub open spec fn fetched_by_name(v: StoreView, project_id: u16, name: Seq<char>) -> Result<
    Environment,
    FlagrantError,
> {
    let at = first(v.environments, environment_named(project_id, name));
    if at < v.environments.len() {
        Ok(v.environments[at])
    } else {
        Err(FlagrantError::NotFound)
    }
}

/// The environments of the project `project_id`.
pub open spec fn in_project(project_id: u16) -> spec_fn(Environment) -> bool {
    |e: Environment| e.project_id == project_id
}

/// The environments of the project `project_id` whose names begin with
/// `prefix`.
pub open spec fn in_project_with_prefix(project_id: u16, prefix: Seq<char>) -> spec_fn(
    Environment,
) -> bool {
    |e: Environment| e.project_id == project_id && starts_with(e.name@, prefix)
}

/// Creates an environment called `name` in `project`.
///
/// The project must exist and hold no environment of that name. The
/// environment gets the next id and stands last in the store; a fetch by
/// its id and a fetch by its name find it. A call that fails changes
/// nothing.
pub fn create(
    store: &mut Store,
    project: &Project,
    name: String,
    description: Option<String>,
) -> (r: Result<Environment, FlagrantError>)
    requires
        old(store).wf(),
    ensures
        final(store).wf(),
        match r {
            Ok(environment) => {
                &&& create_refusal(old(store)@, project.id, name@) is None
                &&& environment == (Environment {
                    id: old(store)@.next_environment,
                    project_id: project.id,
                    name,
                    description,
                })
                &&& final(store)@ == (StoreView {
                    environments: old(store)@.environments.push(environment),
                    next_environment: (old(store)@.next_environment + 1) as u16,
                    ..old(store)@
                })
                &&& fetched(final(store)@, environment.id) == Ok::<Environment, FlagrantError>(
                    environment,
                )
                &&& fetched_by_name(final(store)@, project.id, name@) == Ok::<
                    Environment,
                    FlagrantError,
                >(environment)
            },
            Err(e) => {
                &&& create_refusal(old(store)@, project.id, name@) == Some(e)
                &&& *final(store) == *old(store)
            },
        },
{
    if store.find_project(project.id) >= store.projects.len() {
        return Err(FlagrantError::NotFound);
    }
    if store.find_environment_named(project.id, &name) < store.environments.len() {
        return Err(FlagrantError::BadRequest(BadRequest::NameTaken));
    }
    if store.next_environment == u16::MAX {
        return Err(FlagrantError::StoreUnavailable);
    }
    let id = store.next_environment;
    let environment = Environment { id, project_id: project.id, name, description };
    let copy = environment.clone();
    proof {
        position_is_first(store@.environments, environment_named(project.id, name@), 0);
    }
    store.environments.push(environment);
    store.next_environment = id + 1;
    proof {
        let n = old(store)@.environments.len() as int;
        first_is(store@.environments, environment_with(id), n);
        assert forall|j: int| 0 <= j < n implies !environment_named(project.id, name@)(
            #[trigger] store@.environments[j],
        ) by {
            assert(store@.environments[j] == old(store)@.environments[j]);
        }
        first_is(store@.environments, environment_named(project.id, name@), n);
        assert forall|i: int, j: int|
            0 <= i < j < store@.environments.len() && (#[trigger] store@.environments[i]).project_id
                == (#[trigger] store@.environments[j]).project_id implies store@.environments[i].name@
            != store@.environments[j].name@ by {
            if j == n {
                assert(!environment_named(project.id, name@)(old(store)@.environments[i]));
            }
        }
    }
    Ok(copy)
}

/// The environment with the id `environment_id`.
pub fn fetch(store: &Store, environment_id: u16) -> (r: Result<Environment, FlagrantError>)
    ensures
        r == fetched(store@, environment_id),
{
    let at = store.find_environment(environment_id);
    if at < store.environments.len() {
        Ok(store.environments[at].clone())
    } else {
        Err(FlagrantError::NotFound)
    }
}

/// The environment of `project` that is called `name`.
pub fn fetch_by_name(store: &Store, project: &Project, name: String) -> (r: Result<
    Environment,
    FlagrantError,
>)
    ensures
        r == fetched_by_name(store@, project.id, name@),
{
    let at = store.find_environment_named(project.id, &name);
    if at < store.environments.len() {
        Ok(store.environments[at].clone())
    } else {
        Err(FlagrantError::NotFound)
    }
}

/// The environments of `project` whose names begin with `prefix`, in the
/// order in which they were created.
pub fn fetch_by_prefix(store: &Store, project: &Project, prefix: String) -> (found: Vec<
    Environment,
>)
    ensures
        found@ == store@.environments.filter(in_project_with_prefix(project.id, prefix@)),
{
    let mut found: Vec<Environment> = Vec::new();
    let mut at: usize = 0;
    let ghost wanted = in_project_with_prefix(project.id, prefix@);
    proof {
        reveal(Seq::filter);
        assert(store@.environments.take(0) =~= Seq::<Environment>::empty());
    }
    while at < store.environments.len()
        invariant
            at <= store.environments.len(),
            wanted == in_project_with_prefix(project.id, prefix@),
            found@ == store@.environments.take(at as int).filter(wanted),
        decreases store.environments.len() - at,
    {
        let environment = &store.environments[at];
        proof {
            reveal(Seq::filter);
            assert(store@.environments.take(at + 1).drop_last() =~= store@.environments.take(
                at as int,
            ));
        }
        if environment.project_id == project.id && has_prefix(
            environment.name.as_str(),
            prefix.as_str(),
        ) {
            found.push(environment.clone());
        }
        at = at + 1;
    }
    proof {
        assert(store@.environments.take(at as int) =~= store@.environments);
    }
    found
}

/// The environments of `project`, in the order in which they were
/// created.
pub fn fetch_for_project(store: &Store, project: &Project) -> (found: Vec<Environment>)
    ensures
        found@ == store@.environments.filter(in_project(project.id)),
{
    let mut found: Vec<Environment> = Vec::new();
    let mut at: usize = 0;
    let ghost wanted = in_project(project.id);
    proof {
        reveal(Seq::filter);
        assert(store@.environments.take(0) =~= Seq::<Environment>::empty());
    }
    while at < store.environments.len()
        invariant
            at <= store.environments.len(),
            wanted == in_project(project.id),
            found@ == store@.environments.take(at as int).filter(wanted),
        decreases store.environments.len() - at,
    {
        let environment = &store.environments[at];
        proof {
            reveal(Seq::filter);
            assert(store@.environments.take(at + 1).drop_last() =~= store@.environments.take(
                at as int,
            ));
        }
        if environment.project_id == project.id {
            found.push(environment.clone());
        }
        at = at + 1;
    }
    proof {
        assert(store@.environments.take(at as int) =~= store@.environments);
    }
    found
}

} // verus!
