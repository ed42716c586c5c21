//! Paths of the admin interface, built from the resource they start at.

use vstd::prelude::*;
use vstd::string::*;
use crate::text::{decimal, decimal_string};

verus! {

/// The resource under which a path of the admin interface begins.
pub enum BaseResource {
    Project(u16),
    Environment(u16),
}

impl BaseResource {
    /// The path of this resource itself: its collection and its id.
    pub open spec fn prefix(&self) -> Seq<char> {
        match self {
            BaseResource::Project(id) => "/projects/"@ + decimal(*id as nat),
            BaseResource::Environment(id) => "/envs/"@ + decimal(*id as nat),
        }
    }

    /// The path of `subpath` below this resource.
    pub fn subpath(&self, subpath: &str) -> (path: String)
        ensures
            path@ == self.prefix() + subpath@,
    {
        let mut path = match self {
            BaseResource::Project(project_id) => {
                let mut p = String::from_str("/projects/");
                p.append(decimal_string(*project_id).as_str());
                p
            },
            BaseResource::Environment(environment_id) => {
                let mut p = String::from_str("/envs/");
                p.append(decimal_string(*environment_id).as_str());
                p
            },
        };
        path.append(subpath);
        path
    }
}

} // verus!
