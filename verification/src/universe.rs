//! The registry of applications and environments.

use vstd::prelude::*;
use crate::text::same_text;

verus! {

/// A value that an application holds for one environment.
#[derive(Clone, Debug, PartialEq, Eq)]
pub struct Binding {
    pub environment: String,
    pub value: String,
}

/// A list of values that an application holds for one environment.
#[derive(Clone, Debug, PartialEq, Eq)]
pub struct ListBinding {
    pub environment: String,
    pub values: Vec<String>,
}

/// An application of the registry.
#[derive(Clone, Debug, PartialEq, Eq)]
pub struct Application {
    pub name: String,
    pub service_name: Option<String>,
    pub load_balancers: Vec<Binding>,
    pub security_groups: Vec<ListBinding>,
}

/// An environment of the registry.
#[derive(Clone, Debug, PartialEq, Eq)]
pub struct Environment {
    pub name: String,
    pub subnet_ids: Vec<String>,
}

/// The registry of applications and environments that commands refer to.
#[derive(Clone, Debug, PartialEq, Eq)]
pub struct Universe {
    pub applications: Vec<Application>,
    pub environments: Vec<Environment>,
}

/// Whether `i` is the first place in `names` that holds `key`.
pub open spec fn first_at(names: Seq<Seq<char>>, key: Seq<char>, i: int) -> bool {
    &&& 0 <= i < names.len()
    &&& names[i] == key
    &&& forall|j: int| 0 <= j < i ==> names[j] != key
}

/// Whether no place in `names` holds `key`.
pub open spec fn absent(names: Seq<Seq<char>>, key: Seq<char>) -> bool {
    forall|j: int| 0 <= j < names.len() ==> names[j] != key
}

pub open spec fn application_names(apps: Seq<Application>) -> Seq<Seq<char>> {
    apps.map_values(|a: Application| a.name@)
}

pub open spec fn environment_names(envs: Seq<Environment>) -> Seq<Seq<char>> {
    envs.map_values(|e: Environment| e.name@)
}

pub open spec fn binding_names(bindings: Seq<Binding>) -> Seq<Seq<char>> {
    bindings.map_values(|b: Binding| b.environment@)
}

pub open spec fn list_binding_names(bindings: Seq<ListBinding>) -> Seq<Seq<char>> {
    bindings.map_values(|b: ListBinding| b.environment@)
}

impl Universe {
    /// The place of the first application called `name`, if there is one.
    pub fn application(&self, name: &str) -> (r: Option<usize>)
        ensures
            match r {
                Some(i) => first_at(application_names(self.applications@), name@, i as int),
                None => absent(application_names(self.applications@), name@),
            },
    {
        let mut i: usize = 0;
        while i < self.applications.len()
            invariant
                i <= self.applications.len(),
                forall|j: int| 0 <= j < i ==> application_names(self.applications@)[j] != name@,
            decreases self.applications.len() - i,
        {
            if same_text(self.applications[i].name.as_str(), name) {
                return Some(i);
            }
            i += 1;
        }
        None
    }

    /// The place of the first environment called `name`, if there is one.
    pub fn environment(&self, name: &str) -> (r: Option<usize>)
        ensures
            match r {
                Some(i) => first_at(environment_names(self.environments@), name@, i as int),
                None => absent(environment_names(self.environments@), name@),
            },
    {
        let mut i: usize = 0;
        while i < self.environments.len()
            invariant
                i <= self.environments.len(),
                forall|j: int| 0 <= j < i ==> environment_names(self.environments@)[j] != name@,
            decreases self.environments.len() - i,
        {
            if same_text(self.environments[i].name.as_str(), name) {
                return Some(i);
            }
            i += 1;
        }
        None
    }
}

impl Application {
    /// The place of the load balancer that serves this application in the
    /// environment, if one is bound.
    pub fn load_balancer(&self, environment: &str) -> (r: Option<usize>)
        ensures
            match r {
                Some(i) => first_at(binding_names(self.load_balancers@), environment@, i as int),
                None => absent(binding_names(self.load_balancers@), environment@),
            },
    {
        let mut i: usize = 0;
        while i < self.load_balancers.len()
            invariant
                i <= self.load_balancers.len(),
                forall|j: int|
                    0 <= j < i ==> binding_names(self.load_balancers@)[j] != environment@,
            decreases self.load_balancers.len() - i,
        {
            if same_text(self.load_balancers[i].environment.as_str(), environment) {
                return Some(i);
            }
            i += 1;
        }
        None
    }

    /// The place of the security groups of this application in the
    /// environment, if any are bound.
    pub fn security_groups_for(&self, environment: &str) -> (r: Option<usize>)
        ensures
            match r {
                Some(i) => first_at(
                    list_binding_names(self.security_groups@),
                    environment@,
                    i as int,
                ),
                None => absent(list_binding_names(self.security_groups@), environment@),
            },
    {
        let mut i: usize = 0;
        while i < self.security_groups.len()
            invariant
                i <= self.security_groups.len(),
                forall|j: int|
                    0 <= j < i ==> list_binding_names(self.security_groups@)[j] != environment@,
            decreases self.security_groups.len() - i,
        {
            if same_text(self.security_groups[i].environment.as_str(), environment) {
                return Some(i);
            }
            i += 1;
        }
        None
    }
}

/// Why a request cannot be served from the registry.
#[derive(Clone, Copy, Debug, PartialEq, Eq, Structural)]
pub enum ConfigError {
    /// The registry has no application of that name.
    UnknownApplication,
    /// The registry has no environment of that name.
    UnknownEnvironment,
    /// The version string has more than 255 characters.
    VersionTooLong,
    /// The application has no load balancer for the environment.
    MissingLoadBalancer,
    /// The application has no service name.
    MissingServiceName,
    /// The health-check timeout, in seconds, is beyond what a timeout can
    /// hold.
    TimeoutTooLong,
}

/// The longest version string, in characters.
pub const MAX_VERSION_CHARS: usize = 255;

} // verus!
