//! What a new scaling group and a new launch configuration are created
//! with, from the registry and a request.

use vstd::prelude::*;
use crate::command::copy_texts;
use crate::fleet::Tag;
use crate::text::{hyphenate, hyphenated, join, joined, texts};
use crate::universe::{
    absent, application_names, binding_names, environment_names, first_at, list_binding_names,
    ConfigError, Universe,
};

verus! {

/// What a new scaling group is created with.
#[derive(Clone, Debug, PartialEq, Eq)]
pub struct GroupSpec {
    pub name: String,
    pub min_size: i64,
    pub max_size: i64,
    pub desired_capacity: i64,
    pub health_check_type: String,
    pub health_check_grace_period: i64,
    pub launch_config: String,
    pub load_balancers: Vec<String>,
    pub vpc_zone_identifier: String,
    /// Each tag is propagated to the instances at launch.
    pub tags: Vec<Tag>,
}

/// The specification of a group as a value of mathematics.
pub struct GroupSpecModel {
    pub name: Seq<char>,
    pub min_size: int,
    pub max_size: int,
    pub desired_capacity: int,
    pub health_check_type: Seq<char>,
    pub health_check_grace_period: int,
    pub launch_config: Seq<char>,
    pub load_balancers: Seq<Seq<char>>,
    pub vpc_zone_identifier: Seq<char>,
    pub tags: Seq<(Seq<char>, Seq<char>)>,
}

impl View for GroupSpec {
    type V = GroupSpecModel;

    open spec fn view(&self) -> GroupSpecModel {
        GroupSpecModel {
            name: self.name@,
            min_size: self.min_size as int,
            max_size: self.max_size as int,
            desired_capacity: self.desired_capacity as int,
            health_check_type: self.health_check_type@,
            health_check_grace_period: self.health_check_grace_period as int,
            launch_config: self.launch_config@,
            load_balancers: texts(self.load_balancers@),
            vpc_zone_identifier: self.vpc_zone_identifier@,
            tags: self.tags@.map_values(|t: Tag| t@),
        }
    }
}

/// Seconds after launch during which health checks of a new group do not
/// count.
pub const HEALTH_CHECK_GRACE_SECONDS: i64 = 300;

/// What names a group to create: the application, the environment, the
/// version, the role of its instances, whether it starts with a canary,
/// and its launch configuration.
#[derive(Clone, Debug, PartialEq, Eq)]
pub struct GroupRequest {
    pub application: String,
    pub environment: String,
    pub version: String,
    pub role: String,
    pub canary: bool,
    pub launch_config: String,
}

/// Whether the entries `i` and `e` are those of the application and the
/// environment that the request names.
pub open spec fn resolves(universe: &Universe, app: Seq<char>, env: Seq<char>, i: int, e: int) -> bool {
    &&& first_at(application_names(universe.applications@), app, i)
    &&& first_at(environment_names(universe.environments@), env, e)
}

/// Why no group can be made for the request, if there is a reason.
pub open spec fn group_error(universe: &Universe, app: Seq<char>, env: Seq<char>) -> Option<
    ConfigError,
> {
    if absent(application_names(universe.applications@), app) {
        Some(ConfigError::UnknownApplication)
    } else if absent(environment_names(universe.environments@), env) {
        Some(ConfigError::UnknownEnvironment)
    } else if exists|i: int|
        first_at(application_names(universe.applications@), app, i) && absent(
            binding_names(universe.applications@[i].load_balancers@),
            env,
        ) {
        Some(ConfigError::MissingLoadBalancer)
    } else if exists|i: int|
        first_at(application_names(universe.applications@), app, i)
            && universe.applications@[i].service_name is None {
        Some(ConfigError::MissingServiceName)
    } else {
        None
    }
}

/// The group that the request asks for, with the entries of the registry
/// at `i` and `e` and the load balancer at `j`. It is named after
/// application, environment and version; all three bounds are one with a
/// canary and zero without; it is checked through its load balancer and
/// lives in the subnets of the environment.
pub open spec fn group_for(
    universe: &Universe,
    q: &GroupRequest,
    i: int,
    e: int,
    j: int,
) -> GroupSpecModel {
    let application = universe.applications@[i];
    let name = hyphenated(q.application@, q.environment@, q.version@);
    let size: int = if q.canary {
        1
    } else {
        0
    };
    GroupSpecModel {
        name,
        min_size: size,
        max_size: size,
        desired_capacity: size,
        health_check_type: "ELB"@,
        health_check_grace_period: HEALTH_CHECK_GRACE_SECONDS as int,
        launch_config: q.launch_config@,
        load_balancers: seq![application.load_balancers@[j].value@],
        vpc_zone_identifier: joined(texts(universe.environments@[e].subnet_ids@), ","@),
        tags: seq![
            ("Name"@, name),
            ("app"@, q.application@),
            ("env"@, q.environment@),
            ("version"@, q.version@),
            ("role"@, q.role@),
            ("service"@, application.service_name.unwrap()@),
        ],
    }
}

fn tag(key: &str, value: &str) -> (r: Tag)
    ensures
        r@ == (key@, value@),
{
    Tag { key: String::from_str(key), value: String::from_str(value) }
}

/// What the group that the request asks for is created with.
pub fn create_asg_cmd(universe: &Universe, request: &GroupRequest) -> (r: Result<
    GroupSpec,
    ConfigError,
>)
    ensures
        match r {
            Ok(spec) => {
                &&& group_error(universe, request.application@, request.environment@) is None
                &&& exists|i: int, e: int, j: int|
                    resolves(universe, request.application@, request.environment@, i, e)
                        && first_at(
                        binding_names(universe.applications@[i].load_balancers@),
                        request.environment@,
                        j,
                    ) && spec@ == group_for(universe, request, i, e, j)
            },
            Err(err) => group_error(universe, request.application@, request.environment@) == Some(
                err,
            ),
        },
{
    let i = match universe.application(request.application.as_str()) {
        Some(i) => i,
        None => {
            return Err(ConfigError::UnknownApplication);
        },
    };
    let e = match universe.environment(request.environment.as_str()) {
        Some(e) => e,
        None => {
            return Err(ConfigError::UnknownEnvironment);
        },
    };
    let application = &universe.applications[i];
    let environment = &universe.environments[e];
    proof {
        assert forall|k: int|
            first_at(application_names(universe.applications@), request.application@, k)
            implies k == i by {}
    }
    let j = match application.load_balancer(request.environment.as_str()) {
        Some(j) => j,
        None => {
            return Err(ConfigError::MissingLoadBalancer);
        },
    };
    let service = match &application.service_name {
        Some(s) => s,
        None => {
            return Err(ConfigError::MissingServiceName);
        },
    };
    let name = hyphenate(
        request.application.as_str(),
        request.environment.as_str(),
        request.version.as_str(),
    );
    let size: i64 = if request.canary {
        1
    } else {
        0
    };
    let mut tags: Vec<Tag> = Vec::new();
    tags.push(tag("Name", name.as_str()));
    tags.push(tag("app", request.application.as_str()));
    tags.push(tag("env", request.environment.as_str()));
    tags.push(tag("version", request.version.as_str()));
    tags.push(tag("role", request.role.as_str()));
    tags.push(tag("service", service.as_str()));
    let mut load_balancers: Vec<String> = Vec::new();
    load_balancers.push(application.load_balancers[j].value.clone());
    let spec = GroupSpec {
        name,
        min_size: size,
        max_size: size,
        desired_capacity: size,
        health_check_type: String::from_str("ELB"),
        health_check_grace_period: HEALTH_CHECK_GRACE_SECONDS,
        launch_config: request.launch_config.clone(),
        load_balancers,
        vpc_zone_identifier: join(&environment.subnet_ids, ","),
        tags,
    };
    proof {
        let want = group_for(universe, request, i as int, e as int, j as int);
        assert(spec@.tags =~= want.tags);
        assert(spec@.load_balancers =~= want.load_balancers);
        assert(spec@ == want);
    }
    Ok(spec)
}

/// What a new launch configuration is created with.
#[derive(Clone, Debug, PartialEq, Eq)]
pub struct LaunchConfigSpec {
    pub name: String,
    pub image_id: String,
    pub instance_type: String,
    pub iam_profile: String,
    pub user_data: String,
    pub security_groups: Vec<String>,
}

/// The specification of a launch configuration as a value of
/// mathematics.
pub struct LaunchModel {
    pub name: Seq<char>,
    pub image_id: Seq<char>,
    pub instance_type: Seq<char>,
    pub iam_profile: Seq<char>,
    pub user_data: Seq<char>,
    pub security_groups: Seq<Seq<char>>,
}

impl View for LaunchConfigSpec {
    type V = LaunchModel;

    open spec fn view(&self) -> LaunchModel {
        LaunchModel {
            name: self.name@,
            image_id: self.image_id@,
            instance_type: self.instance_type@,
            iam_profile: self.iam_profile@,
            user_data: self.user_data@,
            security_groups: texts(self.security_groups@),
        }
    }
}

impl LaunchConfigSpec {
    pub fn duplicate(&self) -> (r: LaunchConfigSpec)
        ensures
            r@ == self@,
    {
        LaunchConfigSpec {
            name: self.name.clone(),
            image_id: self.image_id.clone(),
            instance_type: self.instance_type.clone(),
            iam_profile: self.iam_profile.clone(),
            user_data: self.user_data.clone(),
            security_groups: copy_texts(&self.security_groups),
        }
    }
}

/// What names a launch configuration to create. `stamp` is the date of
/// its making, as the name is to carry it.
#[derive(Clone, Debug, PartialEq, Eq)]
pub struct LaunchConfigRequest {
    pub application: String,
    pub environment: String,
    pub version: String,
    pub image_id: String,
    pub instance_type: String,
    pub iam_profile: String,
    pub user_data: String,
    pub stamp: String,
}

/// The name of a launch configuration: application, environment, version
/// and stamp, with hyphens between.
pub open spec fn launch_config_name(q: &LaunchConfigRequest) -> Seq<char> {
    hyphenated(q.application@, q.environment@, q.version@) + "-"@ + q.stamp@
}

/// Why no launch configuration can be made for the request, if there is a
/// reason.
pub open spec fn launch_config_error(universe: &Universe, q: &LaunchConfigRequest) -> Option<
    ConfigError,
> {
    if absent(application_names(universe.applications@), q.application@) {
        Some(ConfigError::UnknownApplication)
    } else if absent(environment_names(universe.environments@), q.environment@) {
        Some(ConfigError::UnknownEnvironment)
    } else {
        None
    }
}

/// The security groups that the application has for the environment:
/// those of its first binding for it, and none without a binding.
pub open spec fn bound_security_groups(
    universe: &Universe,
    q: &LaunchConfigRequest,
    groups: Seq<Seq<char>>,
) -> bool {
    exists|i: int|
        first_at(application_names(universe.applications@), q.application@, i) && {
            let bindings = universe.applications@[i].security_groups@;
            if absent(list_binding_names(bindings), q.environment@) {
                groups == Seq::<Seq<char>>::empty()
            } else {
                exists|k: int|
                    first_at(list_binding_names(bindings), q.environment@, k) && groups == texts(
                        bindings[k].values@,
                    )
            }
        }
}

/// What the launch configuration that the request asks for is created
/// with.
pub fn create_lc(universe: &Universe, request: &LaunchConfigRequest) -> (r: Result<
    LaunchConfigSpec,
    ConfigError,
>)
    ensures
        match r {
            Ok(spec) => {
                &&& launch_config_error(universe, request) is None
                &&& spec.name@ == launch_config_name(request)
                &&& spec.image_id@ == request.image_id@
                &&& spec.instance_type@ == request.instance_type@
                &&& spec.iam_profile@ == request.iam_profile@
                &&& spec.user_data@ == request.user_data@
                &&& bound_security_groups(universe, request, texts(spec.security_groups@))
            },
            Err(err) => launch_config_error(universe, request) == Some(err),
        },
{
    let i = match universe.application(request.application.as_str()) {
        Some(i) => i,
        None => {
            return Err(ConfigError::UnknownApplication);
        },
    };
    if universe.environment(request.environment.as_str()).is_none() {
        return Err(ConfigError::UnknownEnvironment);
    }
    let application = &universe.applications[i];
    let security_groups = match application.security_groups_for(request.environment.as_str()) {
        Some(k) => copy_texts(&application.security_groups[k].values),
        None => Vec::new(),
    };
    let mut name = hyphenate(
        request.application.as_str(),
        request.environment.as_str(),
        request.version.as_str(),
    );
    name.append("-");
    name.append(request.stamp.as_str());
    proof {
        assert(texts(Seq::<String>::empty()) =~= Seq::<Seq<char>>::empty());
    }
    Ok(
        LaunchConfigSpec {
            name,
            image_id: request.image_id.clone(),
            instance_type: request.instance_type.clone(),
            iam_profile: request.iam_profile.clone(),
            user_data: request.user_data.clone(),
            security_groups,
        },
    )
}

} // verus!
