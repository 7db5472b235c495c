//! Scaling groups as the fleet provider reports them, and their listing.

use vstd::prelude::*;
use crate::text::same_text;

verus! {

/// One member of a scaling group, as the fleet provider reports it.
#[derive(Clone, Debug, PartialEq, Eq)]
pub struct Instance {
    pub id: String,
    pub lifecycle_state: String,
}

/// A member as a value of mathematics.
pub struct InstanceModel {
    pub id: Seq<char>,
    pub lifecycle_state: Seq<char>,
}

impl View for Instance {
    type V = InstanceModel;

    open spec fn view(&self) -> InstanceModel {
        InstanceModel { id: self.id@, lifecycle_state: self.lifecycle_state@ }
    }
}

/// A metadata tag of a scaling group or of an instance.
#[derive(Clone, Debug, PartialEq, Eq)]
pub struct Tag {
    pub key: String,
    pub value: String,
}

impl View for Tag {
    type V = (Seq<char>, Seq<char>);

    open spec fn view(&self) -> (Seq<char>, Seq<char>) {
        (self.key@, self.value@)
    }
}

/// The lifecycle state of a member that serves traffic.
pub open spec fn in_service_state() -> Seq<char> {
    "InService"@
}

impl Instance {
    /// Whether the member's lifecycle state is the in-service one.
    pub fn in_service(&self) -> (r: bool)
        ensures
            r == (self@.lifecycle_state == in_service_state()),
    {
        same_text(self.lifecycle_state.as_str(), "InService")
    }

    pub fn duplicate(&self) -> (r: Instance)
        ensures
            r@ == self@,
    {
        Instance { id: self.id.clone(), lifecycle_state: self.lifecycle_state.clone() }
    }
}

/// The authoritative state of a named scaling group at the moment it was read.
#[derive(Clone, Debug, PartialEq, Eq)]
pub struct ScalingGroup {
    pub name: String,
    pub min_size: i64,
    pub max_size: i64,
    pub desired_capacity: i64,
    pub instances: Vec<Instance>,
    pub launch_config: String,
    pub load_balancers: Vec<String>,
    pub suspended_processes: Vec<String>,
    pub tags: Vec<Tag>,
}

/// A scaling group as a value of mathematics.
pub struct GroupModel {
    pub name: Seq<char>,
    pub min_size: int,
    pub max_size: int,
    pub desired_capacity: int,
    pub instances: Seq<InstanceModel>,
    pub launch_config: Seq<char>,
    pub load_balancers: Seq<Seq<char>>,
    pub suspended_processes: Seq<Seq<char>>,
    pub tags: Seq<(Seq<char>, Seq<char>)>,
}

impl View for ScalingGroup {
    type V = GroupModel;

    open spec fn view(&self) -> GroupModel {
        GroupModel {
            name: self.name@,
            min_size: self.min_size as int,
            max_size: self.max_size as int,
            desired_capacity: self.desired_capacity as int,
            instances: self.instances@.map_values(|i: Instance| i@),
            launch_config: self.launch_config@,
            load_balancers: self.load_balancers@.map_values(|s: String| s@),
            suspended_processes: self.suspended_processes@.map_values(|s: String| s@),
            tags: self.tags@.map_values(|t: Tag| t@),
        }
    }
}

impl GroupModel {
    /// The capacity bounds are ordered: `0 <= min <= desired <= max`.
    pub open spec fn bounded(self) -> bool {
        0 <= self.min_size <= self.desired_capacity <= self.max_size
    }
}

impl ScalingGroup {
    /// Whether the capacity bounds are ordered: `0 <= min <= desired <= max`.
    pub fn is_bounded(&self) -> (r: bool)
        ensures
            r == self@.bounded(),
    {
        0 <= self.min_size && self.min_size <= self.desired_capacity && self.desired_capacity
            <= self.max_size
    }
}

/// Why a scaling group could not be read by name.
#[derive(Clone, Copy, Debug, PartialEq, Eq, Structural)]
pub enum DirectoryError {
    /// No group carries the name.
    NotFound,
    /// More than one group carries the name.
    Ambiguous,
}

/// Picks the one group that a lookup by name returned: `NotFound` when the
/// lookup returned nothing, `Ambiguous` when it returned several.
pub fn describe(mut found: Vec<ScalingGroup>) -> (r: Result<ScalingGroup, DirectoryError>)
    ensures
        found.len() == 0 <==> r == Err::<ScalingGroup, DirectoryError>(DirectoryError::NotFound),
        found.len() > 1 <==> r == Err::<ScalingGroup, DirectoryError>(DirectoryError::Ambiguous),
        found.len() == 1 <==> r.is_ok(),
        r.is_ok() ==> r.unwrap() == found[0],
{
    if found.len() == 0 {
        Err(DirectoryError::NotFound)
    } else if found.len() > 1 {
        Err(DirectoryError::Ambiguous)
    } else {
        let g = found.pop();
        Ok(g.unwrap())
    }
}

/// The value of the last tag in `tags` whose key is `key`; `fallback` when
/// no tag has that key.
pub open spec fn last_value(
    tags: Seq<(Seq<char>, Seq<char>)>,
    key: Seq<char>,
    fallback: Seq<char>,
) -> Seq<char>
    decreases tags.len(),
{
    if tags.len() == 0 {
        fallback
    } else if tags.last().0 == key {
        tags.last().1
    } else {
        last_value(tags.drop_last(), key, fallback)
    }
}

/// The value of the last tag in `tags` whose key is `key`; `fallback` when
/// no tag has that key.
pub fn tag_value(tags: &Vec<Tag>, key: &str, fallback: String) -> (r: String)
    ensures
        r@ == last_value(tags@.map_values(|t: Tag| t@), key@, fallback@),
{
    let ghost model = tags@.map_values(|t: Tag| t@);
    let mut found = fallback;
    let mut i: usize = 0;
    while i < tags.len()
        invariant
            i <= tags.len(),
            model == tags@.map_values(|t: Tag| t@),
            found@ == last_value(model.take(i as int), key@, fallback@),
        decreases tags.len() - i,
    {
        proof {
            assert(model.take(i + 1).drop_last() =~= model.take(i as int));
            assert(model.take(i + 1).last() == tags@[i as int]@);
        }
        if same_text(tags[i].key.as_str(), key) {
            found = tags[i].value.clone();
        }
        i += 1;
    }
    proof {
        assert(model.take(tags.len() as int) =~= model);
    }
    found
}

/// One line of a listing of scaling groups.
#[derive(Clone, Debug, PartialEq, Eq)]
pub struct AutoScaleGroup {
    pub name: String,
    pub min_size: i64,
    pub max_size: i64,
    pub desired_capacity: i64,
    pub instance_count: i64,
    pub lc_name: String,
    pub app_name: String,
    pub env_name: String,
}

/// A line of a listing as a value of mathematics.
pub struct SummaryModel {
    pub name: Seq<char>,
    pub min_size: int,
    pub max_size: int,
    pub desired_capacity: int,
    pub instance_count: int,
    pub lc_name: Seq<char>,
    pub app_name: Seq<char>,
    pub env_name: Seq<char>,
}

impl View for AutoScaleGroup {
    type V = SummaryModel;

    open spec fn view(&self) -> SummaryModel {
        SummaryModel {
            name: self.name@,
            min_size: self.min_size as int,
            max_size: self.max_size as int,
            desired_capacity: self.desired_capacity as int,
            instance_count: self.instance_count as int,
            lc_name: self.lc_name@,
            app_name: self.app_name@,
            env_name: self.env_name@,
        }
    }
}

/// The line for group `k` of a listing: its own name, bounds and launch
/// configuration, the number of its members, and the values of its own
/// `app` and `env` tags, each empty where the group has no such tag.
pub open spec fn summary_of(groups: Seq<GroupModel>, k: int) -> SummaryModel {
    SummaryModel {
        name: groups[k].name,
        min_size: groups[k].min_size,
        max_size: groups[k].max_size,
        desired_capacity: groups[k].desired_capacity,
        instance_count: groups[k].instances.len() as int,
        lc_name: groups[k].launch_config,
        app_name: last_value(groups[k].tags, "app"@, Seq::empty()),
        env_name: last_value(groups[k].tags, "env"@, Seq::empty()),
    }
}

/// The listing of the groups that the provider returned, one line each, in
/// the provider's order.
pub fn list_asg(groups: &Vec<ScalingGroup>) -> (r: Vec<AutoScaleGroup>)
    requires
        forall|k: int| 0 <= k < groups.len() ==> groups@[k].instances.len() <= i64::MAX,
    ensures
        r.len() == groups.len(),
        forall|k: int|
            0 <= k < r.len() ==> (#[trigger] r@[k])@ == summary_of(
                groups@.map_values(|g: ScalingGroup| g@),
                k,
            ),
{
    let ghost models = groups@.map_values(|g: ScalingGroup| g@);
    let mut lines: Vec<AutoScaleGroup> = Vec::new();
    let mut i: usize = 0;
    while i < groups.len()
        invariant
            i <= groups.len(),
            models == groups@.map_values(|g: ScalingGroup| g@),
            forall|k: int| 0 <= k < groups.len() ==> groups@[k].instances.len() <= i64::MAX,
            lines.len() == i,
            forall|k: int| 0 <= k < i ==> (#[trigger] lines@[k])@ == summary_of(models, k),
        decreases groups.len() - i,
    {
        let group = &groups[i];
        lines.push(
            AutoScaleGroup {
                name: group.name.clone(),
                min_size: group.min_size,
                max_size: group.max_size,
                desired_capacity: group.desired_capacity,
                instance_count: group.instances.len() as i64,
                lc_name: group.launch_config.clone(),
                app_name: tag_value(&group.tags, "app", String::new()),
                env_name: tag_value(&group.tags, "env", String::new()),
            },
        );
        proof {
            assert(models[i as int] == group@);
            assert(group@.instances.len() == group.instances@.len());
        }
        i += 1;
    }
    lines
}

} // verus!
