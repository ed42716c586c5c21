//! What a client session holds on to: the project and the environment it
//! works in, each the start of the paths of its requests.

use vstd::prelude::*;
use vstd::string::*;
use crate::model::{Environment, Project};
use crate::resource::BaseResource;

verus! {

/// An entity under which paths of the admin interface begin.
pub trait Resource {
    /// The resource that stands for this entity.
    spec fn base(&self) -> BaseResource;

    /// The resource that stands for this entity.
    fn as_base_resource(&self) -> (resource: BaseResource)
        ensures
            resource == self.base(),
    ;
}

impl Resource for Project {
    open spec fn base(&self) -> BaseResource {
        BaseResource::Project(self.id)
    }

    fn as_base_resource(&self) -> (resource: BaseResource) {
        BaseResource::Project(self.id)
    }
}

impl Resource for Environment {
    open spec fn base(&self) -> BaseResource {
        BaseResource::Environment(self.id)
    }

    fn as_base_resource(&self) -> (resource: BaseResource) {
        BaseResource::Environment(self.id)
    }
}

/// Why a session could not be opened.
#[derive(Debug, PartialEq, Eq, Structural, Clone, Copy)]
pub enum SessionError {
    /// The project was found, the environment was not.
    NoEnvironment,
    /// The environment was found, the project was not.
    NoProject,
    /// Neither was found.
    Neither,
}

/// The project and the environment that a client works in.
#[derive(Debug, PartialEq)]
pub struct Session {
    pub project: Project,
    pub environment: Environment,
}

impl Session {
    /// Opens a session on what the lookups of its project and environment
    /// returned.
    pub fn build(project: Option<Project>, environment: Option<Environment>) -> (r: Result<
        Session,
        SessionError,
    >)
        ensures
            r == match (project, environment) {
                (Some(p), Some(e)) => Ok::<Session, SessionError>(
                    Session { project: p, environment: e },
                ),
                (Some(_), None) => Err(SessionError::NoEnvironment),
                (None, Some(_)) => Err(SessionError::NoProject),
                (None, None) => Err(SessionError::Neither),
            },
    {
        match (project, environment) {
            (Some(project), Some(environment)) => Ok(Session { project, environment }),
            (Some(_), None) => Err(SessionError::NoEnvironment),
            (None, Some(_)) => Err(SessionError::NoProject),
            (None, None) => Err(SessionError::Neither),
        }
    }

    /// Makes `new_environment` the environment of the session.
    pub fn set_environment(&mut self, new_environment: Environment)
        ensures
            final(self).environment == new_environment,
            final(self).project == old(self).project,
    {
        self.environment = new_environment;
    }

    /// Makes `new_environment` the environment of the session.
    pub fn switch_environment(&mut self, new_environment: Environment)
        ensures
            final(self).environment == new_environment,
            final(self).project == old(self).project,
    {
        self.set_environment(new_environment);
    }

    /// The path under which the value of the feature `name` is asked for
    /// on behalf of `ident`.
    pub open spec fn feature_path(&self, ident: Seq<char>, name: Seq<char>) -> Seq<char> {
        "/api/v1"@ + BaseResource::Environment(self.environment.id).prefix() + "/ident/"@ + ident
            + "/features/"@ + name
    }

    /// The path under which the value of the feature `name` is asked for
    /// on behalf of `ident`.
    pub fn get_feature_path(&self, ident: &str, name: &str) -> (path: String)
        ensures
            path@ == self.feature_path(ident@, name@),
    {
        let mut tail = String::from_str("/ident/");
        tail.append(ident);
        tail.append("/features/");
        tail.append(name);
        let below = self.environment.as_base_resource().subpath(tail.as_str());
        let mut path = String::from_str("/api/v1");
        path.append(below.as_str());
        proof {
            assert(path@ =~= self.feature_path(ident@, name@));
        }
        path
    }
}

} // verus!
