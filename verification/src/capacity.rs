//! Capacity calls and what they do to a scaling group: the provider takes
//! an update exactly when it leaves the bounds ordered.

use vstd::prelude::*;
use crate::command::{Action, ActionModel, GroupUpdate, UpdateModel};
use crate::fleet::{GroupModel, ScalingGroup};

verus! {

/// The part of a scaling group that capacity calls change: its bounds and
/// the automated processes that are suspended.
pub struct FleetShape {
    pub min_size: int,
    pub max_size: int,
    pub desired_capacity: int,
    pub suspended: Set<Seq<char>>,
}

impl FleetShape {
    /// The capacity bounds are ordered: `0 <= min <= desired <= max`.
    pub open spec fn bounded(self) -> bool {
        0 <= self.min_size <= self.desired_capacity <= self.max_size
    }

    /// The shape with the fields that `u` names set to its values.
    pub open spec fn merged(self, u: UpdateModel) -> FleetShape {
        FleetShape {
            min_size: match u.min_size {
                Some(v) => v,
                None => self.min_size,
            },
            max_size: match u.max_size {
                Some(v) => v,
                None => self.max_size,
            },
            desired_capacity: match u.desired_capacity {
                Some(v) => v,
                None => self.desired_capacity,
            },
            suspended: self.suspended,
        }
    }

    /// The shape after the provider took the call, or `None` where it
    /// rejects the call: an update is taken exactly when it leaves the
    /// bounds ordered. Reads, waits and terminations that keep the desired
    /// capacity leave the shape as it is.
    pub open spec fn effect(self, a: ActionModel) -> Option<FleetShape> {
        match a {
            ActionModel::UpdateGroup { group, update } => if self.merged(update).bounded() {
                Some(self.merged(update))
            } else {
                None
            },
            ActionModel::SuspendProcesses { group, processes } => Some(
                FleetShape { suspended: self.suspended.union(processes.to_set()), ..self },
            ),
            ActionModel::ResumeProcesses { group, processes } => Some(
                FleetShape { suspended: self.suspended.difference(processes.to_set()), ..self },
            ),
            ActionModel::TerminateInstance { group, instance_id, decrement_desired } => {
                if !decrement_desired {
                    Some(self)
                } else if self.min_size <= self.desired_capacity - 1 {
                    Some(FleetShape { desired_capacity: self.desired_capacity - 1, ..self })
                } else {
                    None
                }
            },
            _ => Some(self),
        }
    }

    /// The shape after the calls of `actions`, one after another; `None`
    /// where the provider rejects one of them.
    pub open spec fn effects(self, actions: Seq<ActionModel>) -> Option<FleetShape>
        decreases actions.len(),
    {
        if actions.len() == 0 {
            Some(self)
        } else {
            match self.effect(actions.first()) {
                Some(next) => next.effects(actions.drop_first()),
                None => None,
            }
        }
    }
}

/// The shape of a group as it was read.
pub open spec fn shape_of(g: GroupModel) -> FleetShape {
    FleetShape {
        min_size: g.min_size,
        max_size: g.max_size,
        desired_capacity: g.desired_capacity,
        suspended: g.suspended_processes.to_set(),
    }
}

/// After any call that the provider took, the bounds are ordered:
/// `min <= desired <= max`.
pub proof fn lemma_call_keeps_bounds(s: FleetShape, a: ActionModel)
    requires
        s.bounded(),
        s.effect(a).is_some(),
    ensures
        s.effect(a).unwrap().bounded(),
{
}

/// After any sequence of calls that the provider took, the bounds are
/// ordered: `min <= desired <= max`.
pub proof fn lemma_calls_keep_bounds(s: FleetShape, actions: Seq<ActionModel>)
    requires
        s.bounded(),
        s.effects(actions).is_some(),
    ensures
        s.effects(actions).unwrap().bounded(),
    decreases actions.len(),
{
    if actions.len() > 0 {
        lemma_call_keeps_bounds(s, actions.first());
        lemma_calls_keep_bounds(s.effect(actions.first()).unwrap(), actions.drop_first());
    }
}

/// The calls of `a + b` have the effect of those of `a` followed by those
/// of `b`.
pub proof fn lemma_effects_concat(s: FleetShape, a: Seq<ActionModel>, b: Seq<ActionModel>)
    ensures
        s.effects(a + b) == match s.effects(a) {
            Some(mid) => mid.effects(b),
            None => None,
        },
    decreases a.len(),
{
    if a.len() == 0 {
        assert(a + b =~= b);
    } else {
        assert((a + b).first() == a.first());
        assert((a + b).drop_first() =~= a.drop_first() + b);
        match s.effect(a.first()) {
            Some(next) => {
                lemma_effects_concat(next, a.drop_first(), b);
            },
            None => {},
        }
    }
}

/// Whether the provider takes the update of a group with these bounds: it
/// does exactly when the bounds are ordered afterwards.
pub open spec fn update_taken(g: GroupModel, u: UpdateModel) -> bool {
    shape_of(g).merged(u).bounded()
}

/// The group after the provider took the update.
pub open spec fn updated(g: GroupModel, u: UpdateModel) -> GroupModel {
    GroupModel {
        min_size: shape_of(g).merged(u).min_size,
        max_size: shape_of(g).merged(u).max_size,
        desired_capacity: shape_of(g).merged(u).desired_capacity,
        launch_config: match u.launch_config {
            Some(lc) => lc,
            None => g.launch_config,
        },
        ..g
    }
}

impl ScalingGroup {
    /// Applies an update to this record of a group as the provider would:
    /// the update is taken when it leaves the bounds ordered, and then
    /// `min <= desired <= max` holds; else it is rejected and the record
    /// stays as it was.
    pub fn apply_update(&mut self, update: &GroupUpdate) -> (taken: bool)
        ensures
            taken == update_taken(old(self)@, update@),
            taken ==> final(self)@ == updated(old(self)@, update@) && final(self)@.bounded(),
            !taken ==> *final(self) == *old(self),
    {
        let min_size = match update.min_size {
            Some(v) => v,
            None => self.min_size,
        };
        let max_size = match update.max_size {
            Some(v) => v,
            None => self.max_size,
        };
        let desired_capacity = match update.desired_capacity {
            Some(v) => v,
            None => self.desired_capacity,
        };
        if 0 <= min_size && min_size <= desired_capacity && desired_capacity <= max_size {
            self.min_size = min_size;
            self.max_size = max_size;
            self.desired_capacity = desired_capacity;
            match &update.launch_config {
                Some(lc) => {
                    self.launch_config = lc.clone();
                },
                None => {},
            }
            true
        } else {
            false
        }
    }
}

/// The call that sets all three capacity bounds of a group.
pub fn resize_asg(group: &str, min_size: i64, max_size: i64, desired_capacity: i64) -> (r: Action)
    ensures
        r@ == (ActionModel::UpdateGroup {
            group: group@,
            update: UpdateModel {
                min_size: Some(min_size as int),
                max_size: Some(max_size as int),
                desired_capacity: Some(desired_capacity as int),
                launch_config: None,
            },
        }),
{
    Action::UpdateGroup {
        group: String::from_str(group),
        update: GroupUpdate {
            min_size: Some(min_size),
            max_size: Some(max_size),
            desired_capacity: Some(desired_capacity),
            launch_config: None,
        },
    }
}

/// The call that swaps the launch configuration of a group and leaves its
/// bounds alone.
pub fn updatelc_asg(group: &str, launch_config: &str) -> (r: Action)
    ensures
        r@ == (ActionModel::UpdateGroup {
            group: group@,
            update: UpdateModel {
                min_size: None,
                max_size: None,
                desired_capacity: None,
                launch_config: Some(launch_config@),
            },
        }),
{
    Action::UpdateGroup {
        group: String::from_str(group),
        update: GroupUpdate {
            min_size: None,
            max_size: None,
            desired_capacity: None,
            launch_config: Some(String::from_str(launch_config)),
        },
    }
}

/// The call that sets the `version` tag of a group.
pub fn update_version_tag(group: &str, version: &str) -> (r: Action)
    ensures
        r@ == (ActionModel::SetVersionTag { group: group@, version: version@ }),
{
    Action::SetVersionTag { group: String::from_str(group), version: String::from_str(version) }
}

/// A tag as the provider takes it: the resource it belongs to, its key and
/// value, and whether instances get it at launch.
#[derive(Clone, Debug, PartialEq, Eq)]
pub struct TagRequest {
    pub resource_id: String,
    pub resource_type: String,
    pub key: String,
    pub value: String,
    pub propagate_at_launch: bool,
}

/// The tag that records the version of a group: it belongs to the scaling
/// group, has the key `version`, and is given to instances at launch.
pub fn version_tag(group: &str, version: &str) -> (r: TagRequest)
    ensures
        r.resource_id@ == group@,
        r.resource_type@ == "auto-scaling-group"@,
        r.key@ == "version"@,
        r.value@ == version@,
        r.propagate_at_launch,
{
    TagRequest {
        resource_id: String::from_str(group),
        resource_type: String::from_str("auto-scaling-group"),
        key: String::from_str("version"),
        value: String::from_str(version),
        propagate_at_launch: true,
    }
}

} // verus!
