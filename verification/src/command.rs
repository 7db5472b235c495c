//! The actions that a run asks its driver to carry out, and the events
//! that the driver reports back.

use vstd::prelude::*;
use crate::fleet::{GroupModel, ScalingGroup};
use crate::metrics::MetricSample;
use crate::request::{LaunchConfigSpec, LaunchModel};
use crate::text::texts;

verus! {

/// The fields of a scaling group that one update call changes; a field left
/// `None` keeps its value.
#[derive(Clone, Debug, PartialEq, Eq)]
pub struct GroupUpdate {
    pub min_size: Option<i64>,
    pub max_size: Option<i64>,
    pub desired_capacity: Option<i64>,
    pub launch_config: Option<String>,
}

/// A group update as a value of mathematics.
pub struct UpdateModel {
    pub min_size: Option<int>,
    pub max_size: Option<int>,
    pub desired_capacity: Option<int>,
    pub launch_config: Option<Seq<char>>,
}

pub open spec fn wide(v: Option<i64>) -> Option<int> {
    match v {
        Some(x) => Some(x as int),
        None => None,
    }
}

impl View for GroupUpdate {
    type V = UpdateModel;

    open spec fn view(&self) -> UpdateModel {
        UpdateModel {
            min_size: wide(self.min_size),
            max_size: wide(self.max_size),
            desired_capacity: wide(self.desired_capacity),
            launch_config: match self.launch_config {
                Some(s) => Some(s@),
                None => None,
            },
        }
    }
}

impl GroupUpdate {
    pub fn duplicate(&self) -> (r: GroupUpdate)
        ensures
            r@ == self@,
    {
        GroupUpdate {
            min_size: self.min_size,
            max_size: self.max_size,
            desired_capacity: self.desired_capacity,
            launch_config: match &self.launch_config {
                Some(s) => Some(s.clone()),
                None => None,
            },
        }
    }
}

/// One request to an outside provider, or one pause, that a run asks its
/// driver to carry out.
#[derive(Clone, Debug, PartialEq, Eq)]
pub enum Action {
    /// Read the groups that carry the name.
    DescribeGroup { group: String },
    /// Create the launch configuration.
    CreateLaunchConfig { spec: LaunchConfigSpec },
    /// Change capacity bounds or the launch configuration of a group.
    UpdateGroup { group: String, update: GroupUpdate },
    /// Set the group's `version` tag, propagated to instances at launch.
    SetVersionTag { group: String, version: String },
    /// Suspend the named automated processes of a group.
    SuspendProcesses { group: String, processes: Vec<String> },
    /// Resume the named automated processes of a group.
    ResumeProcesses { group: String, processes: Vec<String> },
    /// Terminate one member; `decrement_desired` tells the provider whether
    /// to lower the desired capacity with it.
    TerminateInstance { group: String, instance_id: String, decrement_desired: bool },
    /// Wait until the load balancer reports `target` members in service, for
    /// at most `timeout_seconds`.
    AwaitInService { load_balancer: String, target: u64, timeout_seconds: u64 },
    /// Count the members that the load balancer reports in service.
    CountInService { load_balancer: String },
    /// Read the metric sums of the last `interval_minutes` minutes.
    SampleMetrics { load_balancer: String, interval_minutes: u64 },
    /// Do nothing for `seconds`.
    Pause { seconds: u64 },
}

/// An action as a value of mathematics: strings as sequences of
/// characters, numbers as integers.
pub enum ActionModel {
    DescribeGroup { group: Seq<char> },
    CreateLaunchConfig { spec: LaunchModel },
    UpdateGroup { group: Seq<char>, update: UpdateModel },
    SetVersionTag { group: Seq<char>, version: Seq<char> },
    SuspendProcesses { group: Seq<char>, processes: Seq<Seq<char>> },
    ResumeProcesses { group: Seq<char>, processes: Seq<Seq<char>> },
    TerminateInstance { group: Seq<char>, instance_id: Seq<char>, decrement_desired: bool },
    AwaitInService { load_balancer: Seq<char>, target: int, timeout_seconds: int },
    CountInService { load_balancer: Seq<char> },
    SampleMetrics { load_balancer: Seq<char>, interval_minutes: int },
    Pause { seconds: int },
}

impl View for Action {
    type V = ActionModel;

    open spec fn view(&self) -> ActionModel {
        match self {
            Action::DescribeGroup { group } => ActionModel::DescribeGroup { group: group@ },
            Action::CreateLaunchConfig { spec } => ActionModel::CreateLaunchConfig { spec: spec@ },
            Action::UpdateGroup { group, update } => ActionModel::UpdateGroup {
                group: group@,
                update: update@,
            },
            Action::SetVersionTag { group, version } => ActionModel::SetVersionTag {
                group: group@,
                version: version@,
            },
            Action::SuspendProcesses { group, processes } => ActionModel::SuspendProcesses {
                group: group@,
                processes: texts(processes@),
            },
            Action::ResumeProcesses { group, processes } => ActionModel::ResumeProcesses {
                group: group@,
                processes: texts(processes@),
            },
            Action::TerminateInstance {
                group,
                instance_id,
                decrement_desired,
            } => ActionModel::TerminateInstance {
                group: group@,
                instance_id: instance_id@,
                decrement_desired: *decrement_desired,
            },
            Action::AwaitInService {
                load_balancer,
                target,
                timeout_seconds,
            } => ActionModel::AwaitInService {
                load_balancer: load_balancer@,
                target: *target as int,
                timeout_seconds: *timeout_seconds as int,
            },
            Action::CountInService { load_balancer } => ActionModel::CountInService {
                load_balancer: load_balancer@,
            },
            Action::SampleMetrics { load_balancer, interval_minutes } => ActionModel::SampleMetrics {
                load_balancer: load_balancer@,
                interval_minutes: *interval_minutes as int,
            },
            Action::Pause { seconds } => ActionModel::Pause { seconds: *seconds as int },
        }
    }
}

/// The views of a sequence of actions, element by element.
pub open spec fn action_models(actions: Seq<Action>) -> Seq<ActionModel> {
    actions.map_values(|a: Action| a@)
}

/// A copy of a list of strings.
pub fn copy_texts(items: &Vec<String>) -> (r: Vec<String>)
    ensures
        texts(r@) == texts(items@),
{
    let mut out: Vec<String> = Vec::new();
    let mut i: usize = 0;
    while i < items.len()
        invariant
            i <= items.len(),
            out.len() == i,
            forall|j: int| 0 <= j < i ==> out@[j]@ == items@[j]@,
        decreases items.len() - i,
    {
        out.push(items[i].clone());
        i += 1;
    }
    proof {
        assert(texts(out@) =~= texts(items@));
    }
    out
}

impl Action {
    pub fn duplicate(&self) -> (r: Action)
        ensures
            r@ == self@,
    {
        match self {
            Action::DescribeGroup { group } => Action::DescribeGroup { group: group.clone() },
            Action::CreateLaunchConfig { spec } => Action::CreateLaunchConfig {
                spec: spec.duplicate(),
            },
            Action::UpdateGroup { group, update } => Action::UpdateGroup {
                group: group.clone(),
                update: update.duplicate(),
            },
            Action::SetVersionTag { group, version } => Action::SetVersionTag {
                group: group.clone(),
                version: version.clone(),
            },
            Action::SuspendProcesses { group, processes } => Action::SuspendProcesses {
                group: group.clone(),
                processes: copy_texts(processes),
            },
            Action::ResumeProcesses { group, processes } => Action::ResumeProcesses {
                group: group.clone(),
                processes: copy_texts(processes),
            },
            Action::TerminateInstance {
                group,
                instance_id,
                decrement_desired,
            } => Action::TerminateInstance {
                group: group.clone(),
                instance_id: instance_id.clone(),
                decrement_desired: *decrement_desired,
            },
            Action::AwaitInService {
                load_balancer,
                target,
                timeout_seconds,
            } => Action::AwaitInService {
                load_balancer: load_balancer.clone(),
                target: *target,
                timeout_seconds: *timeout_seconds,
            },
            Action::CountInService { load_balancer } => Action::CountInService {
                load_balancer: load_balancer.clone(),
            },
            Action::SampleMetrics { load_balancer, interval_minutes } => Action::SampleMetrics {
                load_balancer: load_balancer.clone(),
                interval_minutes: *interval_minutes,
            },
            Action::Pause { seconds } => Action::Pause { seconds: *seconds },
        }
    }
}

/// What the driver reports once it has carried out the pending action.
#[derive(Clone, Debug, PartialEq, Eq)]
pub enum Event {
    /// The call was accepted, or the pause is over.
    Accepted,
    /// The provider rejected the call, with its own words.
    Rejected { message: String },
    /// The groups that carry the name asked for.
    Groups { found: Vec<ScalingGroup> },
    /// The number of members that the load balancer reports in service.
    InService { count: u64 },
    /// Whether the load balancer reached the target before the timeout.
    Converged { reached: bool },
    /// The sums of the metrics window asked for.
    Sample { sample: MetricSample },
}

/// An event as a value of mathematics.
pub enum EventModel {
    Accepted,
    Rejected { message: Seq<char> },
    Groups { found: Seq<GroupModel> },
    InService { count: int },
    Converged { reached: bool },
    Sample { sample: MetricSample },
}

impl View for Event {
    type V = EventModel;

    open spec fn view(&self) -> EventModel {
        match self {
            Event::Accepted => EventModel::Accepted,
            Event::Rejected { message } => EventModel::Rejected { message: message@ },
            Event::Groups { found } => EventModel::Groups {
                found: found@.map_values(|g: ScalingGroup| g@),
            },
            Event::InService { count } => EventModel::InService { count: *count as int },
            Event::Converged { reached } => EventModel::Converged { reached: *reached },
            Event::Sample { sample } => EventModel::Sample { sample: *sample },
        }
    }
}

} // verus!
