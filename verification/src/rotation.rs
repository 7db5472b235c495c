//! The batched rotation of a scaling group: every member in service is
//! replaced, capacity first, in drain-wait cycles of bounded size, and the
//! group is put back as it was. A termination always follows a wait for
//! the load balancers of the group; a group without a load balancer has
//! its capacity raised and restored, and none of its members terminated.

use vstd::prelude::*;
use crate::capacity::{lemma_effects_concat, shape_of, FleetShape};
use crate::command::{
    action_models, Action, ActionModel, Event, EventModel, GroupUpdate, UpdateModel,
};
use crate::fleet::{in_service_state, GroupModel, Instance, InstanceModel, ScalingGroup};
use crate::text::{same_text, texts};

verus! {

/// The longest that one wait for a load balancer may take, in seconds.
pub const DRAIN_TIMEOUT_SECONDS: u64 = 900;

/// Whether `name` is an automated process that a rotation relies on, so
/// that it must not be suspended when the rotation starts.
pub open spec fn required_process(name: Seq<char>) -> bool {
    ||| name == "RemoveFromLoadBalancerLowPriority"@
    ||| name == "Terminate"@
    ||| name == "Launch"@
    ||| name == "HealthCheck"@
    ||| name == "AddToLoadBalancer"@
}

/// The automated processes that a rotation suspends while it runs.
pub open spec fn paused_processes() -> Seq<Seq<char>> {
    seq!["ReplaceUnhealthy"@, "AlarmNotification"@, "ScheduledActions"@, "AZRebalance"@]
}

/// Whether some suspended process of the group is one that a rotation
/// relies on.
pub open spec fn blocked(suspended: Seq<Seq<char>>) -> bool {
    exists|i: int| 0 <= i < suspended.len() && required_process(#[trigger] suspended[i])
}

/// Whether the member's lifecycle state is the in-service one.
pub open spec fn is_serving(i: InstanceModel) -> bool {
    i.lifecycle_state == in_service_state()
}

/// The members whose lifecycle state is the in-service one, in group order.
pub open spec fn serving(instances: Seq<InstanceModel>) -> Seq<InstanceModel> {
    instances.filter(|i: InstanceModel| is_serving(i))
}

/// The ids of the members to replace: those in service, in group order.
pub open spec fn candidates(instances: Seq<InstanceModel>) -> Seq<Seq<char>> {
    serving(instances).map_values(|i: InstanceModel| i.id)
}

/// Why a rotation did not start, or stopped before its end.
#[derive(Clone, Copy, Debug, PartialEq, Eq, Structural)]
pub enum RotationError {
    /// No group carries the name.
    NotFound,
    /// More than one group carries the name.
    Ambiguous,
    /// The group has no members: there is nothing to do.
    NothingToRotate,
    /// A process that the rotation relies on is suspended.
    ProcessNotActive,
    /// The provider reported capacity bounds that are not ordered.
    MalformedGroup,
    /// The batch size is zero, or the raised capacity is beyond what a
    /// capacity can hold.
    InvalidBatchSize,
    /// The provider rejected a call.
    RemoteCall,
    /// A load balancer did not report the raised count in time.
    DrainTimeout,
    /// The driver reported something that does not answer the pending
    /// action.
    UnexpectedEvent,
}

/// What a rotation of one group will do, fixed when the group is read.
#[derive(Clone, Debug, PartialEq, Eq)]
pub struct RotationPlan {
    pub group: String,
    pub batch_size: usize,
    pub initial_max: i64,
    pub initial_desired: i64,
    pub raised_desired: i64,
    pub candidates: Vec<String>,
    pub load_balancers: Vec<String>,
}

/// A plan as a value of mathematics. The raised capacity is not held: it
/// follows from the first desired capacity and the batch size.
pub struct PlanModel {
    pub group: Seq<char>,
    pub batch_size: int,
    pub initial_max: int,
    pub initial_desired: int,
    pub candidates: Seq<Seq<char>>,
    pub load_balancers: Seq<Seq<char>>,
}

impl View for RotationPlan {
    type V = PlanModel;

    open spec fn view(&self) -> PlanModel {
        PlanModel {
            group: self.group@,
            batch_size: self.batch_size as int,
            initial_max: self.initial_max as int,
            initial_desired: self.initial_desired as int,
            candidates: texts(self.candidates@),
            load_balancers: texts(self.load_balancers@),
        }
    }
}

impl PlanModel {
    /// The desired capacity while the rotation runs.
    pub open spec fn raised(self) -> int {
        self.initial_desired + self.batch_size
    }

    /// The batch size is positive, the first bounds are ordered, and the
    /// raised capacity is within what a capacity can hold.
    pub open spec fn valid(self) -> bool {
        &&& self.batch_size > 0
        &&& 0 <= self.initial_desired <= self.initial_max
        &&& self.raised() <= i64::MAX
    }
}

impl RotationPlan {
    /// The batch size is positive, the first bounds are ordered, and the
    /// raised capacity is the first desired capacity and one batch.
    pub open spec fn wf(&self) -> bool {
        &&& self@.valid()
        &&& self.raised_desired == self@.raised()
    }

    /// Whether the plan is well formed.
    pub fn is_valid(&self) -> (r: bool)
        ensures
            r == self.wf(),
    {
        if self.batch_size == 0 || self.initial_desired < 0 || self.initial_desired
            > self.initial_max {
            return false;
        }
        let raised: i128 = self.initial_desired as i128 + self.batch_size as i128;
        raised <= i64::MAX as i128 && self.raised_desired as i128 == raised
    }
}

/// The plan for rotating `g` in batches of `b`.
pub open spec fn plan_of(g: GroupModel, b: int) -> PlanModel {
    PlanModel {
        group: g.name,
        batch_size: b,
        initial_max: g.max_size,
        initial_desired: g.desired_capacity,
        candidates: candidates(g.instances),
        load_balancers: g.load_balancers,
    }
}

/// The reason for which a rotation of `g` in batches of `b` may not start,
/// if there is one.
pub open spec fn refusal(g: GroupModel, b: int) -> Option<RotationError> {
    if !g.bounded() {
        Some(RotationError::MalformedGroup)
    } else if g.instances.len() == 0 {
        Some(RotationError::NothingToRotate)
    } else if blocked(g.suspended_processes) {
        Some(RotationError::ProcessNotActive)
    } else if b <= 0 || g.desired_capacity + b > i64::MAX {
        Some(RotationError::InvalidBatchSize)
    } else {
        None
    }
}

/// An update that changes nothing.
pub open spec fn no_update() -> UpdateModel {
    UpdateModel { min_size: None, max_size: None, desired_capacity: None, launch_config: None }
}

/// What a rotation does before the first batch: suspend the automated
/// processes, raise the maximum if the raised capacity needs it, raise the
/// desired capacity.
pub open spec fn opening(p: PlanModel) -> Seq<ActionModel> {
    let suspend = seq![
        ActionModel::SuspendProcesses { group: p.group, processes: paused_processes() },
    ];
    let widen = if p.raised() > p.initial_max {
        seq![
            ActionModel::UpdateGroup {
                group: p.group,
                update: UpdateModel { max_size: Some(p.raised()), ..no_update() },
            },
        ]
    } else {
        Seq::empty()
    };
    let raise = seq![
        ActionModel::UpdateGroup {
            group: p.group,
            update: UpdateModel { desired_capacity: Some(p.raised()), ..no_update() },
        },
    ];
    suspend + widen + raise
}

/// One wait per attached load balancer, for the raised count.
pub open spec fn waits(p: PlanModel) -> Seq<ActionModel> {
    p.load_balancers.map_values(
        |lb: Seq<char>|
            ActionModel::AwaitInService {
                load_balancer: lb,
                target: p.raised(),
                timeout_seconds: DRAIN_TIMEOUT_SECONDS as int,
            },
    )
}

/// One termination per id, none of which lowers the desired capacity.
pub open spec fn terminations(p: PlanModel, ids: Seq<Seq<char>>) -> Seq<ActionModel> {
    ids.map_values(
        |id: Seq<char>|
            ActionModel::TerminateInstance {
                group: p.group,
                instance_id: id,
                decrement_desired: false,
            },
    )
}

/// The size of the next batch when `remaining` candidates are left.
pub open spec fn batch_len(remaining: int, batch_size: int) -> int {
    if remaining < batch_size {
        remaining
    } else {
        batch_size
    }
}

/// The batches that `ids` fall into: each takes the next `batch_size` ids,
/// the last what is left.
pub open spec fn batches(ids: Seq<Seq<char>>, batch_size: int) -> Seq<Seq<Seq<char>>>
    decreases ids.len(),
{
    if ids.len() == 0 || batch_size <= 0 {
        Seq::empty()
    } else {
        let n = batch_len(ids.len() as int, batch_size);
        seq![ids.take(n)] + batches(ids.skip(n), batch_size)
    }
}

/// One drain-wait cycle: wait for every load balancer, then terminate one
/// batch.
pub open spec fn cycle(p: PlanModel, batch: Seq<Seq<char>>) -> Seq<ActionModel> {
    waits(p) + terminations(p, batch)
}

/// The cycles of the given batches, one after another.
pub open spec fn cycles(p: PlanModel, groups: Seq<Seq<Seq<char>>>) -> Seq<ActionModel>
    decreases groups.len(),
{
    if groups.len() == 0 {
        Seq::empty()
    } else {
        cycle(p, groups.first()) + cycles(p, groups.drop_first())
    }
}

/// What a rotation does after the last batch: put the maximum and the
/// desired capacity back, resume the automated processes.
pub open spec fn closing(p: PlanModel) -> Seq<ActionModel> {
    seq![
        ActionModel::UpdateGroup {
            group: p.group,
            update: UpdateModel {
                max_size: Some(p.initial_max),
                desired_capacity: Some(p.initial_desired),
                ..no_update()
            },
        },
        ActionModel::ResumeProcesses { group: p.group, processes: paused_processes() },
    ]
}

/// The members that the rotation terminates: the candidates, and none
/// where the group has no load balancer, since there is then no count to
/// wait for before a termination.
pub open spec fn targets(p: PlanModel) -> Seq<Seq<char>> {
    if p.load_balancers.len() == 0 {
        Seq::empty()
    } else {
        p.candidates
    }
}

/// The batches of the rotation, in the order in which they are terminated.
pub open spec fn planned_batches(p: PlanModel) -> Seq<Seq<Seq<char>>> {
    batches(targets(p), p.batch_size)
}

/// Every action of a rotation that runs to its end, in order.
pub open spec fn rotation_script(p: PlanModel) -> Seq<ActionModel> {
    opening(p) + cycles(p, planned_batches(p)) + closing(p)
}

/// Whether `name` is an automated process that a rotation relies on.
pub fn is_required_process(name: &str) -> (r: bool)
    ensures
        r == required_process(name@),
{
    same_text(name, "RemoveFromLoadBalancerLowPriority") || same_text(name, "Terminate")
        || same_text(name, "Launch") || same_text(name, "HealthCheck") || same_text(
        name,
        "AddToLoadBalancer",
    )
}

/// The names of the automated processes that a rotation suspends.
pub fn paused_process_names() -> (r: Vec<String>)
    ensures
        texts(r@) == paused_processes(),
{
    let mut names: Vec<String> = Vec::new();
    names.push(String::from_str("ReplaceUnhealthy"));
    names.push(String::from_str("AlarmNotification"));
    names.push(String::from_str("ScheduledActions"));
    names.push(String::from_str("AZRebalance"));
    proof {
        assert(texts(names@) =~= paused_processes());
    }
    names
}

/// Whether some suspended process is one that a rotation relies on.
pub fn has_blocked(suspended: &Vec<String>) -> (r: bool)
    ensures
        r == blocked(texts(suspended@)),
{
    let mut i: usize = 0;
    while i < suspended.len()
        invariant
            i <= suspended.len(),
            forall|j: int| 0 <= j < i ==> !required_process(#[trigger] texts(suspended@)[j]),
        decreases suspended.len() - i,
    {
        if is_required_process(suspended[i].as_str()) {
            proof {
                assert(required_process(texts(suspended@)[i as int]));
            }
            return true;
        }
        i += 1;
    }
    false
}

/// The ids of the members in service, in group order.
pub fn select_candidates(instances: &Vec<Instance>) -> (r: Vec<String>)
    ensures
        texts(r@) == candidates(instances@.map_values(|i: Instance| i@)),
{
    let ghost models = instances@.map_values(|i: Instance| i@);
    let mut ids: Vec<String> = Vec::new();
    let mut i: usize = 0;
    while i < instances.len()
        invariant
            i <= instances.len(),
            models == instances@.map_values(|i: Instance| i@),
            texts(ids@) == candidates(models.take(i as int)),
        decreases instances.len() - i,
    {
        proof {
            reveal(Seq::filter);
            assert(models.take(i + 1).drop_last() =~= models.take(i as int));
            assert(models.take(i + 1).last() == instances@[i as int]@);
        }
        let ghost before = ids@;
        if instances[i].in_service() {
            ids.push(instances[i].id.clone());
            proof {
                assert(texts(ids@) =~= texts(before).push(instances@[i as int]@.id));
                assert(candidates(models.take(i + 1)) =~= candidates(models.take(i as int)).push(
                    instances@[i as int]@.id,
                ));
            }
        }
        i += 1;
    }
    proof {
        assert(models.take(instances.len() as int) =~= models);
    }
    ids
}

proof fn lemma_models_push(s: Seq<Action>, a: Action)
    ensures
        action_models(s.push(a)) == action_models(s).push(a@),
{
    assert(action_models(s.push(a)) =~= action_models(s).push(a@));
}

proof fn lemma_cycles_unfold(p: PlanModel, ids: Seq<Seq<char>>)
    requires
        ids.len() > 0,
        p.batch_size > 0,
    ensures
        cycles(p, batches(ids, p.batch_size)) == cycle(
            p,
            ids.take(batch_len(ids.len() as int, p.batch_size)),
        ) + cycles(p, batches(ids.skip(batch_len(ids.len() as int, p.batch_size)), p.batch_size)),
{
    let n = batch_len(ids.len() as int, p.batch_size);
    let all = batches(ids, p.batch_size);
    assert(all.first() == ids.take(n));
    assert(all.drop_first() =~= batches(ids.skip(n), p.batch_size));
}

impl RotationPlan {
    fn update_only(
        group: &String,
        max_size: Option<i64>,
        desired_capacity: Option<i64>,
    ) -> (r: Action)
        ensures
            r@ == (ActionModel::UpdateGroup {
                group: group@,
                update: UpdateModel {
                    max_size: crate::command::wide(max_size),
                    desired_capacity: crate::command::wide(desired_capacity),
                    ..no_update()
                },
            }),
    {
        Action::UpdateGroup {
            group: group.clone(),
            update: GroupUpdate { min_size: None, max_size, desired_capacity, launch_config: None },
        }
    }

    /// Every action of the rotation, in the order in which it is carried
    /// out.
    pub fn script(&self) -> (r: Vec<Action>)
        requires
            self.wf(),
        ensures
            action_models(r@) == rotation_script(self@),
    {
        let ghost p = self@;
        let mut out: Vec<Action> = Vec::new();
        out.push(
            Action::SuspendProcesses { group: self.group.clone(), processes: paused_process_names() },
        );
        if self.raised_desired > self.initial_max {
            out.push(Self::update_only(&self.group, Some(self.raised_desired), None));
        }
        out.push(Self::update_only(&self.group, None, Some(self.raised_desired)));
        proof {
            assert(action_models(out@) =~= opening(p));
        }
        let ghost c = targets(p);
        let total = if self.load_balancers.len() == 0 {
            0
        } else {
            self.candidates.len()
        };
        let ghost mut done: Seq<ActionModel> = Seq::empty();
        let mut start: usize = 0;
        proof {
            assert(c.skip(0) =~= c);
        }
        while start < total
            invariant
                self.wf(),
                p == self@,
                c == targets(p),
                total == c.len(),
                total <= self.candidates.len(),
                start <= total,
                action_models(out@) == opening(p) + done,
                done + cycles(p, batches(c.skip(start as int), p.batch_size)) == cycles(
                    p,
                    batches(c, p.batch_size),
                ),
            decreases total - start,
        {
            let end = if total - start < self.batch_size {
                total
            } else {
                start + self.batch_size
            };
            let ghost rest = c.skip(start as int);
            let ghost batch = c.subrange(start as int, end as int);
            proof {
                lemma_cycles_unfold(p, rest);
                assert(rest.take(end - start) =~= batch);
                assert(rest.skip(end - start) =~= c.skip(end as int));
            }
            let ghost base = action_models(out@);
            let mut j: usize = 0;
            while j < self.load_balancers.len()
                invariant
                    p == self@,
                    self.wf(),
                    j <= self.load_balancers.len(),
                    action_models(out@) == base + waits(p).take(j as int),
                decreases self.load_balancers.len() - j,
            {
                let ghost before = out@;
                let wait = Action::AwaitInService {
                    load_balancer: self.load_balancers[j].clone(),
                    target: self.raised_desired as u64,
                    timeout_seconds: DRAIN_TIMEOUT_SECONDS,
                };
                out.push(wait);
                proof {
                    lemma_models_push(before, wait);
                    assert(waits(p)[j as int] == wait@);
                    assert(base + waits(p).take(j + 1) =~= (base + waits(p).take(j as int)).push(
                        wait@,
                    ));
                }
                j += 1;
            }
            proof {
                assert(waits(p).take(self.load_balancers.len() as int) =~= waits(p));
            }
            let ghost base2 = action_models(out@);
            let mut k: usize = start;
            while k < end
                invariant
                    p == self@,
                    start <= k <= end <= total,
                    total <= self.candidates.len(),
                    total > 0 ==> c == p.candidates,
                    batch == c.subrange(start as int, end as int),
                    action_models(out@) == base2 + terminations(p, batch).take(k - start),
                decreases end - k,
            {
                let ghost before = out@;
                let kill = Action::TerminateInstance {
                    group: self.group.clone(),
                    instance_id: self.candidates[k].clone(),
                    decrement_desired: false,
                };
                out.push(kill);
                proof {
                    lemma_models_push(before, kill);
                    assert(terminations(p, batch)[k - start] == kill@);
                    assert(base2 + terminations(p, batch).take(k - start + 1) =~= (base2
                        + terminations(p, batch).take(k - start)).push(kill@));
                }
                k += 1;
            }
            proof {
                assert(terminations(p, batch).take(end - start) =~= terminations(p, batch));
                let grown = done + cycle(p, batch);
                assert(action_models(out@) =~= opening(p) + grown);
                assert(grown + cycles(p, batches(c.skip(end as int), p.batch_size))
                    =~= done + cycles(p, batches(rest, p.batch_size)));
                done = grown;
            }
            start = end;
        }
        let ghost body = action_models(out@);
        out.push(Self::update_only(&self.group, Some(self.initial_max), Some(self.initial_desired)));
        out.push(
            Action::ResumeProcesses { group: self.group.clone(), processes: paused_process_names() },
        );
        proof {
            assert(c.skip(total as int) =~= Seq::<Seq<char>>::empty());
            assert(done =~= cycles(p, batches(c, p.batch_size)));
            assert(action_models(out@) =~= body + closing(p));
        }
        out
    }
}

/// One batch of a rotation: the members that one drain-wait cycle
/// terminates, and the load balancers whose count is awaited before.
#[derive(Clone, Debug, PartialEq, Eq)]
pub struct RotationBatch {
    pub instance_ids: Vec<String>,
    pub load_balancers: Vec<String>,
}

impl RotationPlan {
    /// The batches of the rotation, in the order in which they are
    /// terminated; none where the group has no load balancer.
    pub fn batches(&self) -> (r: Vec<RotationBatch>)
        requires
            self.wf(),
        ensures
            r.len() == planned_batches(self@).len(),
            forall|k: int|
                0 <= k < r.len() ==> texts((#[trigger] r@[k]).instance_ids@) == planned_batches(
                    self@,
                )[k] && texts(r@[k].load_balancers@) == self@.load_balancers,
    {
        let ghost p = self@;
        let ghost c = targets(p);
        let total = if self.load_balancers.len() == 0 {
            0
        } else {
            self.candidates.len()
        };
        let mut out: Vec<RotationBatch> = Vec::new();
        let ghost mut built: Seq<Seq<Seq<char>>> = Seq::empty();
        let mut start: usize = 0;
        proof {
            assert(c.skip(0) =~= c);
            assert(built + batches(c, p.batch_size) =~= batches(
                c,
                p.batch_size,
            ));
        }
        while start < total
            invariant
                self.wf(),
                p == self@,
                c == targets(p),
                total == c.len(),
                total <= self.candidates.len(),
                start <= total,
                out.len() == built.len(),
                built + batches(c.skip(start as int), p.batch_size) == batches(
                    c,
                    p.batch_size,
                ),
                forall|k: int|
                    0 <= k < out.len() ==> texts((#[trigger] out@[k]).instance_ids@) == built[k]
                        && texts(out@[k].load_balancers@) == p.load_balancers,
            decreases total - start,
        {
            let end = if total - start < self.batch_size {
                total
            } else {
                start + self.batch_size
            };
            let ghost rest = c.skip(start as int);
            let ghost batch = c.subrange(start as int, end as int);
            let mut ids: Vec<String> = Vec::new();
            let mut k: usize = start;
            while k < end
                invariant
                    start <= k <= end <= total,
                    total <= self.candidates.len(),
                    ids.len() == k - start,
                    forall|j: int| 0 <= j < ids.len() ==> ids@[j]@ == self.candidates@[start + j]@,
                decreases end - k,
            {
                ids.push(self.candidates[k].clone());
                k += 1;
            }
            proof {
                assert(texts(ids@) =~= batch);
                assert(rest.take(end - start) =~= batch);
                assert(rest.skip(end - start) =~= c.skip(end as int));
                assert(built.push(batch) + batches(c.skip(end as int), p.batch_size)
                    =~= built + batches(rest, p.batch_size));
                built = built.push(batch);
            }
            out.push(
                RotationBatch {
                    instance_ids: ids,
                    load_balancers: crate::command::copy_texts(&self.load_balancers),
                },
            );
            start = end;
        }
        proof {
            assert(c.skip(total as int) =~= Seq::<Seq<char>>::empty());
            assert(built =~= batches(c, p.batch_size));
        }
        out
    }
}

/// Where a rotation stands.
#[derive(Clone, Copy, Debug, PartialEq, Eq, Structural)]
pub enum RotationStatus {
    /// An action is pending.
    Running,
    /// Every action was carried out: capacity is restored and the
    /// automated processes are resumed.
    Completed,
    /// The rotation stopped at the pending action. Nothing is undone: the
    /// capacity may still be raised and the automated processes suspended.
    Aborted(RotationError),
}

/// A rotation in progress: its plan, and how far the driver has come.
#[derive(Debug)]
pub struct Rotation {
    plan: RotationPlan,
    script: Vec<Action>,
    cursor: usize,
    status: RotationStatus,
    detail: String,
}

/// A rotation in progress as a value of mathematics: the plan, the number
/// of actions carried out, and the status.
pub struct RotationModel {
    pub plan: PlanModel,
    pub cursor: int,
    pub status: RotationStatus,
    pub detail: Seq<char>,
}

impl RotationModel {
    /// Every action of the rotation, in order.
    pub open spec fn script(self) -> Seq<ActionModel> {
        rotation_script(self.plan)
    }

    /// The action that the driver is to carry out now.
    pub open spec fn pending(self) -> Option<ActionModel> {
        if self.status == RotationStatus::Running && 0 <= self.cursor < self.script().len() {
            Some(self.script()[self.cursor])
        } else {
            None
        }
    }

    /// The cursor stands inside the script exactly while the rotation
    /// runs, and at its end once the rotation has completed.
    pub open spec fn consistent(self) -> bool {
        &&& self.plan.valid()
        &&& 0 <= self.cursor <= self.script().len()
        &&& self.status == RotationStatus::Running ==> self.cursor < self.script().len()
        &&& self.status == RotationStatus::Completed ==> self.cursor == self.script().len()
    }

    /// The actions carried out so far.
    pub open spec fn performed(self) -> Seq<ActionModel> {
        self.script().take(self.cursor)
    }

    /// A rotation that has just been planned.
    pub open spec fn fresh(plan: PlanModel) -> RotationModel {
        RotationModel { plan, cursor: 0, status: RotationStatus::Running, detail: Seq::empty() }
    }

    /// The rotation with the pending action carried out: it has completed
    /// when that was the last.
    pub open spec fn advanced(self) -> RotationModel {
        RotationModel {
            cursor: self.cursor + 1,
            status: if self.cursor + 1 == self.script().len() {
                RotationStatus::Completed
            } else {
                RotationStatus::Running
            },
            ..self
        }
    }

    /// The rotation stopped where it stands.
    pub open spec fn aborted(self, error: RotationError, detail: Seq<char>) -> RotationModel {
        RotationModel { status: RotationStatus::Aborted(error), detail, ..self }
    }

    /// The rotation after the driver reported `event` for the pending
    /// action. An accepted call, or a wait that reached its target, moves
    /// on to the next action; a wait that timed out, a rejected call, or an
    /// event of another kind stops the rotation where it stands.
    pub open spec fn after(self, event: EventModel) -> RotationModel {
        match self.pending() {
            None => self,
            Some(action) => match event {
                EventModel::Rejected { message } => self.aborted(RotationError::RemoteCall, message),
                EventModel::Converged { reached } => if action is AwaitInService {
                    if reached {
                        self.advanced()
                    } else {
                        self.aborted(RotationError::DrainTimeout, Seq::empty())
                    }
                } else {
                    self.aborted(RotationError::UnexpectedEvent, Seq::empty())
                },
                EventModel::Accepted => if action is AwaitInService {
                    self.aborted(RotationError::UnexpectedEvent, Seq::empty())
                } else {
                    self.advanced()
                },
                _ => self.aborted(RotationError::UnexpectedEvent, Seq::empty()),
            },
        }
    }
}

impl View for Rotation {
    type V = RotationModel;

    closed spec fn view(&self) -> RotationModel {
        RotationModel {
            plan: self.plan@,
            cursor: self.cursor as int,
            status: self.status,
            detail: self.detail@,
        }
    }
}

impl Rotation {
    /// The script is that of the plan, and the cursor stands inside it
    /// exactly while the rotation runs.
    pub closed spec fn wf(&self) -> bool {
        &&& self.plan.wf()
        &&& action_models(self.script@) == rotation_script(self.plan@)
        &&& self.cursor <= self.script.len()
        &&& self.status == RotationStatus::Running ==> self.cursor < self.script.len()
        &&& self.status == RotationStatus::Completed ==> self.cursor == self.script.len()
    }

    /// What holds of every rotation in progress.
    pub proof fn lemma_consistent(&self)
        requires
            self.wf(),
        ensures
            self@.consistent(),
    {
        assert(action_models(self.script@).len() == self.script@.len());
    }

    /// Starts a rotation of a valid plan at its first action.
    pub fn start(plan: RotationPlan) -> (r: Rotation)
        requires
            plan.wf(),
        ensures
            r.wf(),
            r@ == RotationModel::fresh(plan@),
            r@.pending().is_some(),
    {
        let script = plan.script();
        proof {
            assert(opening(plan@).len() >= 2);
            assert(rotation_script(plan@).len() >= 2);
            assert(action_models(script@).len() == script@.len());
        }
        Rotation { plan, script, cursor: 0, status: RotationStatus::Running, detail: String::new() }
    }

    /// The plan that is being carried out.
    pub fn plan(&self) -> (r: &RotationPlan)
        ensures
            r@ == self@.plan,
            self.wf() ==> r.wf(),
    {
        &self.plan
    }

    /// Whether the rotation runs, has completed, or why it stopped.
    pub fn status(&self) -> (r: RotationStatus)
        ensures
            r == self@.status,
    {
        self.status
    }

    /// The provider's own words for the rejection that stopped the
    /// rotation; empty otherwise.
    pub fn detail(&self) -> (r: &String)
        ensures
            r@ == self@.detail,
    {
        &self.detail
    }

    /// How many actions have been carried out.
    pub fn completed_actions(&self) -> (r: usize)
        ensures
            r == self@.cursor,
    {
        self.cursor
    }

    /// The action that the driver is to carry out now; `None` once the
    /// rotation has completed or stopped.
    pub fn pending(&self) -> (r: Option<Action>)
        requires
            self.wf(),
        ensures
            match r {
                Some(a) => self@.pending() == Some(a@),
                None => self@.pending().is_none(),
            },
    {
        proof {
            assert(action_models(self.script@).len() == self.script@.len());
        }
        match self.status {
            RotationStatus::Running => {
                proof {
                    assert(action_models(self.script@)[self.cursor as int]
                        == self.script@[self.cursor as int]@);
                }
                Some(self.script[self.cursor].duplicate())
            },
            _ => None,
        }
    }

    /// Takes the driver's report on the pending action and moves to the
    /// next one, or stops.
    pub fn report(&mut self, event: Event)
        requires
            old(self).wf(),
        ensures
            final(self).wf(),
            final(self)@ == old(self)@.after(event@),
    {
        proof {
            assert(action_models(self.script@).len() == self.script@.len());
        }
        match self.status {
            RotationStatus::Running => {
                proof {
                    assert(action_models(self.script@)[self.cursor as int]
                        == self.script@[self.cursor as int]@);
                }
                let waiting = match &self.script[self.cursor] {
                    Action::AwaitInService { .. } => true,
                    _ => false,
                };
                match event {
                    Event::Rejected { message } => {
                        self.status = RotationStatus::Aborted(RotationError::RemoteCall);
                        self.detail = message;
                    },
                    Event::Converged { reached } => {
                        if waiting && reached {
                            self.advance();
                        } else if waiting {
                            self.stop(RotationError::DrainTimeout);
                        } else {
                            self.stop(RotationError::UnexpectedEvent);
                        }
                    },
                    Event::Accepted => {
                        if waiting {
                            self.stop(RotationError::UnexpectedEvent);
                        } else {
                            self.advance();
                        }
                    },
                    _ => {
                        self.stop(RotationError::UnexpectedEvent);
                    },
                }
            },
            _ => {},
        }
    }

    fn advance(&mut self)
        requires
            old(self).wf(),
            old(self).status == RotationStatus::Running,
        ensures
            final(self).wf(),
            final(self)@ == old(self)@.advanced(),
    {
        proof {
            assert(action_models(self.script@).len() == self.script@.len());
        }
        self.cursor = self.cursor + 1;
        if self.cursor == self.script.len() {
            self.status = RotationStatus::Completed;
        }
    }

    fn stop(&mut self, error: RotationError)
        requires
            old(self).wf(),
        ensures
            final(self).wf(),
            final(self)@ == old(self)@.aborted(error, Seq::empty()),
    {
        self.status = RotationStatus::Aborted(error);
        self.detail = String::new();
    }
}

/// Why a rotation of what a lookup by name returned may not start, if
/// there is a reason.
pub open spec fn start_refusal(found: Seq<GroupModel>, b: int) -> Option<RotationError> {
    if found.len() == 0 {
        Some(RotationError::NotFound)
    } else if found.len() > 1 {
        Some(RotationError::Ambiguous)
    } else {
        refusal(found[0], b)
    }
}

/// Plans the rotation of the one group that a lookup by name returned, in
/// batches of `batch_size`, and starts it. Nothing is planned when the
/// lookup returned no group or several, when the group's bounds are not
/// ordered, when it has no members, when a process that the rotation
/// relies on is suspended, or when the batch size is zero or too large.
pub fn rotate_instances(found: &Vec<ScalingGroup>, batch_size: usize) -> (r: Result<
    Rotation,
    RotationError,
>)
    ensures
        match r {
            Ok(run) => {
                &&& start_refusal(found@.map_values(|g: ScalingGroup| g@), batch_size as int)
                    is None
                &&& run.wf()
                &&& run@ == RotationModel::fresh(plan_of(found[0]@, batch_size as int))
            },
            Err(e) => start_refusal(found@.map_values(|g: ScalingGroup| g@), batch_size as int)
                == Some(e),
        },
{
    if found.len() == 0 {
        return Err(RotationError::NotFound);
    }
    if found.len() > 1 {
        return Err(RotationError::Ambiguous);
    }
    let group = &found[0];
    proof {
        assert(found@.map_values(|g: ScalingGroup| g@)[0] == group@);
        assert(group@.suspended_processes == texts(group.suspended_processes@));
    }
    if !group.is_bounded() {
        return Err(RotationError::MalformedGroup);
    }
    if group.instances.len() == 0 {
        return Err(RotationError::NothingToRotate);
    }
    if has_blocked(&group.suspended_processes) {
        return Err(RotationError::ProcessNotActive);
    }
    if batch_size == 0 {
        return Err(RotationError::InvalidBatchSize);
    }
    let raised: i128 = group.desired_capacity as i128 + batch_size as i128;
    if raised > i64::MAX as i128 {
        return Err(RotationError::InvalidBatchSize);
    }
    let plan = RotationPlan {
        group: group.name.clone(),
        batch_size,
        initial_max: group.max_size,
        initial_desired: group.desired_capacity,
        raised_desired: raised as i64,
        candidates: select_candidates(&group.instances),
        load_balancers: crate::command::copy_texts(&group.load_balancers),
    };
    proof {
        assert(group@.load_balancers == texts(group.load_balancers@));
        assert(plan@ == plan_of(group@, batch_size as int));
    }
    Ok(Rotation::start(plan))
}

/// The ids of the members that `actions` terminate, in order.
pub open spec fn terminated(actions: Seq<ActionModel>) -> Seq<Seq<char>>
    decreases actions.len(),
{
    if actions.len() == 0 {
        Seq::empty()
    } else {
        match actions.last() {
            ActionModel::TerminateInstance { instance_id, .. } => terminated(
                actions.drop_last(),
            ).push(instance_id),
            _ => terminated(actions.drop_last()),
        }
    }
}

proof fn lemma_terminated_concat(a: Seq<ActionModel>, b: Seq<ActionModel>)
    ensures
        terminated(a + b) == terminated(a) + terminated(b),
    decreases b.len(),
{
    if b.len() == 0 {
        assert(a + b =~= a);
        assert(terminated(a) + terminated(b) =~= terminated(a));
    } else {
        assert((a + b).drop_last() =~= a + b.drop_last());
        assert((a + b).last() == b.last());
        lemma_terminated_concat(a, b.drop_last());
        match b.last() {
            ActionModel::TerminateInstance { instance_id, .. } => {
                assert(terminated(a + b) =~= terminated(a) + terminated(b));
            },
            _ => {},
        }
    }
}

proof fn lemma_waits_terminate_nothing(p: PlanModel, n: int)
    requires
        0 <= n <= waits(p).len(),
    ensures
        terminated(waits(p).take(n)) == Seq::<Seq<char>>::empty(),
    decreases n,
{
    if n > 0 {
        assert(waits(p).take(n).drop_last() =~= waits(p).take(n - 1));
        lemma_waits_terminate_nothing(p, n - 1);
    }
}

proof fn lemma_terminations_terminate(p: PlanModel, ids: Seq<Seq<char>>, n: int)
    requires
        0 <= n <= ids.len(),
    ensures
        terminated(terminations(p, ids).take(n)) == ids.take(n),
    decreases n,
{
    if n > 0 {
        assert(terminations(p, ids).take(n).drop_last() =~= terminations(p, ids).take(n - 1));
        lemma_terminations_terminate(p, ids, n - 1);
        assert(ids.take(n) =~= ids.take(n - 1).push(ids[n - 1]));
    } else {
        assert(ids.take(0) =~= Seq::<Seq<char>>::empty());
    }
}

/// One drain-wait cycle terminates the members of its batch, each once and
/// in order, and no other.
pub proof fn lemma_cycle_terminates_its_batch(p: PlanModel, batch: Seq<Seq<char>>)
    ensures
        terminated(cycle(p, batch)) == batch,
{
    lemma_terminated_concat(waits(p), terminations(p, batch));
    lemma_waits_terminate_nothing(p, waits(p).len() as int);
    lemma_terminations_terminate(p, batch, batch.len() as int);
    assert(waits(p).take(waits(p).len() as int) =~= waits(p));
    assert(terminations(p, batch).take(batch.len() as int) =~= terminations(p, batch));
    assert(batch.take(batch.len() as int) =~= batch);
    assert(Seq::<Seq<char>>::empty() + batch =~= batch);
}

/// No batch is empty and none holds more than `batch_size` ids.
pub proof fn lemma_batches_bounded(ids: Seq<Seq<char>>, batch_size: int, k: int)
    requires
        batch_size > 0,
        0 <= k < batches(ids, batch_size).len(),
    ensures
        0 < batches(ids, batch_size)[k].len() <= batch_size,
    decreases ids.len(),
{
    if ids.len() > 0 {
        let n = batch_len(ids.len() as int, batch_size);
        if k > 0 {
            lemma_batches_bounded(ids.skip(n), batch_size, k - 1);
        }
    }
}

/// The batches, one after another, are the ids they were made of: every id
/// falls into exactly one batch, and the order is kept.
pub proof fn lemma_batches_cover(ids: Seq<Seq<char>>, batch_size: int)
    requires
        batch_size > 0,
    ensures
        batches(ids, batch_size).flatten() == ids,
    decreases ids.len(),
{
    if ids.len() > 0 {
        let n = batch_len(ids.len() as int, batch_size);
        let all = batches(ids, batch_size);
        lemma_batches_cover(ids.skip(n), batch_size);
        assert(all.first() == ids.take(n));
        assert(all.drop_first() =~= batches(ids.skip(n), batch_size));
        assert(ids.take(n) + ids.skip(n) =~= ids);
    } else {
        assert(batches(ids, batch_size).flatten() =~= ids);
    }
}

proof fn lemma_cycles_terminate(p: PlanModel, groups: Seq<Seq<Seq<char>>>)
    ensures
        terminated(cycles(p, groups)) == groups.flatten(),
    decreases groups.len(),
{
    if groups.len() > 0 {
        lemma_cycles_terminate(p, groups.drop_first());
        lemma_cycle_terminates_its_batch(p, groups.first());
        lemma_terminated_concat(cycle(p, groups.first()), cycles(p, groups.drop_first()));
    } else {
        assert(groups.flatten() =~= Seq::<Seq<char>>::empty());
    }
}

/// Every candidate is the id of a member of the group whose lifecycle
/// state is the in-service one: a member in any other state is never
/// selected.
pub proof fn lemma_candidates_in_service(instances: Seq<InstanceModel>, k: int)
    requires
        0 <= k < candidates(instances).len(),
    ensures
        exists|j: int|
            0 <= j < instances.len() && is_serving(#[trigger] instances[j]) && instances[j].id
                == candidates(instances)[k],
{
    let pred = |i: InstanceModel| is_serving(i);
    let kept = serving(instances);
    instances.lemma_filter_pred(pred, k);
    instances.lemma_filter_contains_rev(pred, kept[k]);
    let j = choose|j: int| 0 <= j < instances.len() && instances[j] == kept[k];
    assert(is_serving(instances[j]));
}

/// A rotation of a group behind a load balancer terminates exactly the
/// candidates, each once and in the order of the group; one of a group
/// without a load balancer terminates nothing. Each drain-wait cycle
/// terminates at most `batch_size` members.
pub proof fn lemma_rotation_terminates_candidates(p: PlanModel)
    requires
        p.valid(),
    ensures
        terminated(rotation_script(p)) == targets(p),
        p.load_balancers.len() > 0 ==> terminated(rotation_script(p)) == p.candidates,
        p.load_balancers.len() == 0 ==> terminated(rotation_script(p)).len() == 0,
        forall|k: int|
            0 <= k < planned_batches(p).len() ==> terminated(
                cycle(p, #[trigger] planned_batches(p)[k]),
            ).len() <= p.batch_size,
{
    let groups = planned_batches(p);
    let middle = cycles(p, groups);
    lemma_terminated_concat(opening(p) + middle, closing(p));
    lemma_terminated_concat(opening(p), middle);
    lemma_cycles_terminate(p, groups);
    lemma_batches_cover(targets(p), p.batch_size);
    assert(terminated(closing(p)) =~= Seq::<Seq<char>>::empty()) by {
        reveal_with_fuel(terminated, 3);
    }
    assert(terminated(opening(p)) =~= Seq::<Seq<char>>::empty()) by {
        reveal_with_fuel(terminated, 4);
    }
    assert(terminated(rotation_script(p)) =~= targets(p));
    assert forall|k: int| 0 <= k < groups.len() implies terminated(
        cycle(p, #[trigger] groups[k]),
    ).len() <= p.batch_size by {
        lemma_cycle_terminates_its_batch(p, groups[k]);
        lemma_batches_bounded(targets(p), p.batch_size, k);
    }
}

/// Whether some action of `actions` is a wait for a load balancer.
pub open spec fn has_wait(actions: Seq<ActionModel>) -> bool {
    exists|j: int| 0 <= j < actions.len() && #[trigger] actions[j] is AwaitInService
}

/// The number of terminations in `actions` after its last wait, and of all
/// its terminations where it holds no wait.
pub open spec fn since_wait(actions: Seq<ActionModel>) -> int
    decreases actions.len(),
{
    if actions.len() == 0 {
        0
    } else if actions.last() is AwaitInService {
        0
    } else if actions.last() is TerminateInstance {
        since_wait(actions.drop_last()) + 1
    } else {
        since_wait(actions.drop_last())
    }
}

/// Whether the action is neither a wait nor a termination.
pub open spec fn plain(a: ActionModel) -> bool {
    !(a is AwaitInService) && !(a is TerminateInstance)
}

/// Whether `actions` terminates at most `limit` members since its last
/// wait, and none without a wait before.
pub open spec fn paced(actions: Seq<ActionModel>, limit: int) -> bool {
    since_wait(actions) <= limit && (since_wait(actions) > 0 ==> has_wait(actions))
}

proof fn lemma_since_wait_counts(a: Seq<ActionModel>)
    ensures
        since_wait(a) >= 0,
    decreases a.len(),
{
    if a.len() > 0 {
        lemma_since_wait_counts(a.drop_last());
    }
}

proof fn lemma_has_wait_left(a: Seq<ActionModel>, x: Seq<ActionModel>)
    requires
        has_wait(a),
    ensures
        has_wait(a + x),
{
    let j = choose|j: int| 0 <= j < a.len() && #[trigger] a[j] is AwaitInService;
    assert((a + x)[j] is AwaitInService);
}

proof fn lemma_has_wait_right(a: Seq<ActionModel>, x: Seq<ActionModel>)
    requires
        has_wait(x),
    ensures
        has_wait(a + x),
{
    let j = choose|j: int| 0 <= j < x.len() && #[trigger] x[j] is AwaitInService;
    assert((a + x)[a.len() + j] is AwaitInService);
}

proof fn lemma_since_wait_concat(a: Seq<ActionModel>, x: Seq<ActionModel>)
    ensures
        since_wait(a + x) == if has_wait(x) {
            since_wait(x)
        } else {
            since_wait(a) + since_wait(x)
        },
    decreases x.len(),
{
    if x.len() == 0 {
        assert(a + x =~= a);
    } else {
        let before = x.drop_last();
        assert((a + x).drop_last() =~= a + before);
        assert((a + x).last() == x.last());
        lemma_since_wait_concat(a, before);
        if x.last() is AwaitInService {
            assert(x[x.len() - 1] is AwaitInService);
        } else {
            if has_wait(before) {
                let j = choose|j: int| 0 <= j < before.len() && #[trigger] before[j] is AwaitInService;
                assert(x[j] is AwaitInService);
            }
            if has_wait(x) {
                let j = choose|j: int| 0 <= j < x.len() && #[trigger] x[j] is AwaitInService;
                assert(before[j] is AwaitInService);
            }
        }
    }
}

proof fn lemma_plain_is_paced(x: Seq<ActionModel>)
    requires
        forall|i: int| 0 <= i < x.len() ==> plain(#[trigger] x[i]),
    ensures
        since_wait(x) == 0,
        !has_wait(x),
    decreases x.len(),
{
    if x.len() > 0 {
        assert(plain(x[x.len() - 1]));
        assert forall|i: int| 0 <= i < x.drop_last().len() implies plain(
            #[trigger] x.drop_last()[i],
        ) by {
            assert(x.drop_last()[i] == x[i]);
        }
        lemma_plain_is_paced(x.drop_last());
    }
    assert forall|j: int| 0 <= j < x.len() implies !(#[trigger] x[j] is AwaitInService) by {
        assert(plain(x[j]));
    }
}

proof fn lemma_waits_since(p: PlanModel, n: int)
    requires
        0 <= n <= waits(p).len(),
    ensures
        since_wait(waits(p).take(n)) == 0,
        n > 0 ==> has_wait(waits(p).take(n)),
{
    if n > 0 {
        assert(waits(p).take(n).last() is AwaitInService);
        assert(waits(p).take(n)[n - 1] is AwaitInService);
    }
}

proof fn lemma_terminations_since(p: PlanModel, ids: Seq<Seq<char>>, n: int)
    requires
        0 <= n <= ids.len(),
    ensures
        since_wait(terminations(p, ids).take(n)) == n,
        !has_wait(terminations(p, ids).take(n)),
    decreases n,
{
    let part = terminations(p, ids).take(n);
    if n > 0 {
        assert(part.drop_last() =~= terminations(p, ids).take(n - 1));
        assert(part.last() is TerminateInstance);
        lemma_terminations_since(p, ids, n - 1);
    }
    assert forall|j: int| 0 <= j < part.len() implies !(#[trigger] part[j] is AwaitInService) by {
        assert(part[j] is TerminateInstance);
    }
}

proof fn lemma_cycle_paced(p: PlanModel, batch: Seq<Seq<char>>, m: int)
    requires
        p.load_balancers.len() > 0,
        batch.len() <= p.batch_size,
        0 <= m <= cycle(p, batch).len(),
    ensures
        paced(cycle(p, batch).take(m), p.batch_size),
        has_wait(cycle(p, batch)),
        since_wait(cycle(p, batch)) == batch.len(),
{
    let w = waits(p);
    let t = terminations(p, batch);
    lemma_waits_since(p, w.len() as int);
    assert(w.take(w.len() as int) =~= w);
    lemma_has_wait_left(w, t);
    lemma_terminations_since(p, batch, batch.len() as int);
    assert(t.take(batch.len() as int) =~= t);
    lemma_since_wait_concat(w, t);
    if m <= w.len() {
        assert(cycle(p, batch).take(m) =~= w.take(m));
        lemma_waits_since(p, m);
    } else {
        let part = t.take(m - w.len());
        assert(cycle(p, batch).take(m) =~= w + part);
        lemma_terminations_since(p, batch, m - w.len());
        lemma_since_wait_concat(w, part);
        lemma_has_wait_left(w, part);
    }
}

proof fn lemma_cycles_paced(p: PlanModel, groups: Seq<Seq<Seq<char>>>, m: int)
    requires
        p.batch_size > 0,
        p.load_balancers.len() > 0,
        forall|k: int| 0 <= k < groups.len() ==> (#[trigger] groups[k]).len() <= p.batch_size,
        0 <= m <= cycles(p, groups).len(),
    ensures
        paced(cycles(p, groups).take(m), p.batch_size),
    decreases groups.len(),
{
    if groups.len() == 0 {
        assert(cycles(p, groups).take(m) =~= Seq::<ActionModel>::empty());
    } else {
        let first = cycle(p, groups.first());
        let rest = cycles(p, groups.drop_first());
        assert(groups[0].len() <= p.batch_size);
        if m <= first.len() {
            assert(cycles(p, groups).take(m) =~= first.take(m));
            lemma_cycle_paced(p, groups.first(), m);
        } else {
            let part = rest.take(m - first.len());
            assert(cycles(p, groups).take(m) =~= first + part);
            assert forall|k: int| 0 <= k < groups.drop_first().len() implies (
            #[trigger] groups.drop_first()[k]).len() <= p.batch_size by {
                assert(groups.drop_first()[k] == groups[k + 1]);
            }
            lemma_cycles_paced(p, groups.drop_first(), m - first.len());
            lemma_cycle_paced(p, groups.first(), first.len() as int);
            lemma_since_wait_concat(first, part);
            lemma_has_wait_left(first, part);
            lemma_since_wait_counts(part);
        }
    }
}

/// After any number `k` of its actions, a rotation has terminated at most
/// `batch_size` members since the last wait, and none without a wait
/// before.
pub proof fn lemma_rotation_prefix_paced(p: PlanModel, k: int)
    requires
        p.valid(),
        0 <= k <= rotation_script(p).len(),
    ensures
        paced(rotation_script(p).take(k), p.batch_size),
    decreases k,
{
    let o = opening(p);
    let c = cycles(p, planned_batches(p));
    let z = closing(p);
    let script = rotation_script(p);
    assert forall|i: int| 0 <= i < o.len() implies plain(#[trigger] o[i]) by {}
    assert forall|i: int| 0 <= i < z.len() implies plain(#[trigger] z[i]) by {}
    lemma_plain_is_paced(o);
    if k <= o.len() {
        let part = o.take(k);
        assert(script.take(k) =~= part);
        assert forall|i: int| 0 <= i < part.len() implies plain(#[trigger] part[i]) by {
            assert(part[i] == o[i]);
        }
        lemma_plain_is_paced(part);
    } else if k <= o.len() + c.len() {
        let part = c.take(k - o.len());
        assert(script.take(k) =~= o + part);
        assert(planned_batches(p).len() > 0);
        assert forall|j: int| 0 <= j < planned_batches(p).len() implies (
        #[trigger] planned_batches(p)[j]).len() <= p.batch_size by {
            lemma_batches_bounded(targets(p), p.batch_size, j);
        }
        lemma_cycles_paced(p, planned_batches(p), k - o.len());
        lemma_since_wait_concat(o, part);
        if has_wait(part) {
            lemma_has_wait_right(o, part);
        }
    } else {
        let part = z.take(k - o.len() - c.len());
        assert(script.take(k) =~= (o + c) + part);
        let whole = (o.len() + c.len()) as int;
        assert(script.take(whole) =~= o + c);
        lemma_rotation_prefix_paced(p, whole);
        assert forall|i: int| 0 <= i < part.len() implies plain(#[trigger] part[i]) by {
            assert(part[i] == z[i]);
        }
        lemma_plain_is_paced(part);
        lemma_since_wait_concat(o + c, part);
        if has_wait(o + c) {
            lemma_has_wait_left(o + c, part);
        }
    }
}

proof fn lemma_window_within_since(a: Seq<ActionModel>, i: int, j: int)
    requires
        0 <= i <= j <= a.len(),
        forall|k: int| i <= k < j ==> !(#[trigger] a[k] is AwaitInService),
    ensures
        terminated(a.subrange(i, j)).len() <= since_wait(a.take(j)),
    decreases j - i,
{
    if i == j {
        lemma_since_wait_counts(a.take(j));
        assert(a.subrange(i, j) =~= Seq::<ActionModel>::empty());
    } else {
        lemma_window_within_since(a, i, j - 1);
        assert(a.subrange(i, j).drop_last() =~= a.subrange(i, j - 1));
        assert(a.subrange(i, j).last() == a[j - 1]);
        assert(a.take(j).drop_last() =~= a.take(j - 1));
        assert(a.take(j).last() == a[j - 1]);
        assert(!(a[j - 1] is AwaitInService));
    }
}

/// The pace of a rotation, over its whole script: no member is terminated
/// before the first wait for a load balancer, and at most `batch_size`
/// members are terminated in any stretch that holds no wait, so between
/// two waits and after the last.
pub proof fn lemma_rotation_paced(p: PlanModel)
    requires
        p.valid(),
    ensures
        forall|i: int|
            0 <= i < rotation_script(p).len() && #[trigger] rotation_script(p)[i]
                is TerminateInstance ==> exists|j: int|
                0 <= j < i && #[trigger] rotation_script(p)[j] is AwaitInService,
        forall|i: int, j: int|
            0 <= i <= j <= rotation_script(p).len() && (forall|k: int|
                i <= k < j ==> !(#[trigger] rotation_script(p)[k] is AwaitInService))
                ==> terminated(#[trigger] rotation_script(p).subrange(i, j)).len() <= p.batch_size,
{
    let script = rotation_script(p);
    assert forall|i: int|
        0 <= i < script.len() && #[trigger] script[i] is TerminateInstance implies exists|j: int|
        0 <= j < i && #[trigger] script[j] is AwaitInService by {
        let upto = script.take(i + 1);
        lemma_rotation_prefix_paced(p, i + 1);
        assert(upto.last() == script[i]);
        lemma_since_wait_counts(upto.drop_last());
        assert(has_wait(upto));
        let j = choose|j: int| 0 <= j < upto.len() && #[trigger] upto[j] is AwaitInService;
        assert(upto[j] == script[j]);
        assert(j != i);
    }
    assert forall|i: int, j: int|
        0 <= i <= j <= script.len() && (forall|k: int|
            i <= k < j ==> !(#[trigger] script[k] is AwaitInService)) implies terminated(
        #[trigger] script.subrange(i, j),
    ).len() <= p.batch_size by {
        lemma_window_within_since(script, i, j);
        lemma_rotation_prefix_paced(p, j);
    }
}

proof fn lemma_cycles_keep_shape(s: FleetShape, p: PlanModel, groups: Seq<Seq<Seq<char>>>)
    ensures
        s.effects(cycles(p, groups)) == Some(s),
    decreases groups.len(),
{
    if groups.len() > 0 {
        lemma_quiet_keep_shape(s, cycle(p, groups.first()));
        lemma_cycles_keep_shape(s, p, groups.drop_first());
        lemma_effects_concat(s, cycle(p, groups.first()), cycles(p, groups.drop_first()));
    }
}

/// Whether the action leaves the shape of its group as it is.
pub open spec fn quiet(a: ActionModel) -> bool {
    match a {
        ActionModel::AwaitInService { .. } => true,
        ActionModel::TerminateInstance { decrement_desired, .. } => !decrement_desired,
        _ => false,
    }
}

proof fn lemma_quiet_keep_shape(s: FleetShape, actions: Seq<ActionModel>)
    requires
        forall|i: int| 0 <= i < actions.len() ==> quiet(#[trigger] actions[i]),
    ensures
        s.effects(actions) == Some(s),
    decreases actions.len(),
{
    if actions.len() > 0 {
        assert(quiet(actions[0]));
        assert forall|i: int| 0 <= i < actions.drop_first().len() implies quiet(
            #[trigger] actions.drop_first()[i],
        ) by {
            assert(actions.drop_first()[i] == actions[i + 1]);
        }
        lemma_quiet_keep_shape(s, actions.drop_first());
    }
}

/// A rotation that runs to its end is taken by the provider call by call,
/// and leaves the group with the bounds it had before: the maximum and the
/// desired capacity are back at their first values, the minimum never
/// moved, and the automated processes that the rotation suspended are
/// resumed.
pub proof fn lemma_rotation_restores(g: GroupModel, batch_size: int)
    requires
        refusal(g, batch_size) is None,
    ensures
        shape_of(g).effects(rotation_script(plan_of(g, batch_size))) == Some(
            FleetShape {
                suspended: shape_of(g).suspended.difference(paused_processes().to_set()),
                ..shape_of(g)
            },
        ),
{
    let p = plan_of(g, batch_size);
    let s0 = shape_of(g);
    let paused = paused_processes().to_set();
    let s3 = FleetShape {
        suspended: s0.suspended.union(paused),
        max_size: if p.raised() > g.max_size {
            p.raised()
        } else {
            g.max_size
        },
        desired_capacity: p.raised(),
        ..s0
    };
    let s4 = FleetShape { max_size: s0.max_size, desired_capacity: s0.desired_capacity, ..s3 };
    let s5 = FleetShape { suspended: s4.suspended.difference(paused), ..s4 };
    let middle = cycles(p, planned_batches(p));
    lemma_opening_effect(g, batch_size);
    lemma_cycles_keep_shape(s3, p, planned_batches(p));
    assert(s3.effects(closing(p)) == Some(s5)) by {
        reveal_with_fuel(FleetShape::effects, 4);
        let c = closing(p);
        assert(c.len() == 2);
        assert(c.drop_first().first() == c[1]);
        assert(c.drop_first().drop_first().len() == 0);
        assert(s3.effect(c[0]) == Some(s4));
        assert(s4.effect(c[1]) == Some(s5));
    }
    lemma_effects_concat(s0, opening(p), middle);
    lemma_effects_concat(s0, opening(p) + middle, closing(p));
    assert(s5.suspended =~= s0.suspended.difference(paused));
}

proof fn lemma_quiet_concat(a: Seq<ActionModel>, b: Seq<ActionModel>)
    requires
        forall|i: int| 0 <= i < a.len() ==> quiet(#[trigger] a[i]),
        forall|i: int| 0 <= i < b.len() ==> quiet(#[trigger] b[i]),
    ensures
        forall|i: int| 0 <= i < (a + b).len() ==> quiet(#[trigger] (a + b)[i]),
{
    assert forall|i: int| 0 <= i < (a + b).len() implies quiet(#[trigger] (a + b)[i]) by {
        if i < a.len() {
            assert((a + b)[i] == a[i]);
        } else {
            assert((a + b)[i] == b[i - a.len()]);
        }
    }
}

proof fn lemma_cycles_quiet(p: PlanModel, groups: Seq<Seq<Seq<char>>>)
    ensures
        forall|i: int| 0 <= i < cycles(p, groups).len() ==> quiet(#[trigger] cycles(p, groups)[i]),
    decreases groups.len(),
{
    if groups.len() > 0 {
        lemma_cycles_quiet(p, groups.drop_first());
        lemma_quiet_concat(waits(p), terminations(p, groups.first()));
        lemma_quiet_concat(cycle(p, groups.first()), cycles(p, groups.drop_first()));
    }
}

/// While a rotation runs, the provider takes each of its calls, the bounds
/// stay ordered, and the desired capacity never falls below the value it
/// had before the rotation: after any number `k` of its calls.
pub proof fn lemma_rotation_keeps_capacity(g: GroupModel, batch_size: int, k: int)
    requires
        refusal(g, batch_size) is None,
        0 <= k <= rotation_script(plan_of(g, batch_size)).len(),
    ensures
        shape_of(g).effects(rotation_script(plan_of(g, batch_size)).take(k)) matches Some(t)
            && t.bounded() && t.desired_capacity >= g.desired_capacity && t.min_size == g.min_size,
{
    let p = plan_of(g, batch_size);
    let s0 = shape_of(g);
    let paused = paused_processes().to_set();
    let s1 = FleetShape { suspended: s0.suspended.union(paused), ..s0 };
    let s2 = FleetShape {
        max_size: if p.raised() > p.initial_max {
            p.raised()
        } else {
            s0.max_size
        },
        ..s1
    };
    let s3 = FleetShape { desired_capacity: p.raised(), ..s2 };
    let s4 = FleetShape { max_size: s0.max_size, desired_capacity: s0.desired_capacity, ..s3 };
    let o = opening(p);
    let m = cycles(p, planned_batches(p));
    let c = closing(p);
    let script = rotation_script(p);
    assert(s0.effect(o[0]) == Some(s1));
    if k <= o.len() {
        assert(script.take(k) =~= o.take(k));
        let part = o.take(k);
        reveal_with_fuel(FleetShape::effects, 5);
        if k >= 1 {
            assert(part.first() == o[0]);
        }
        if k >= 2 {
            assert(part.drop_first().first() == o[1]);
            if p.raised() > p.initial_max {
                assert(s1.effect(o[1]) == Some(s2));
            } else {
                assert(s1.effect(o[1]) == Some(s3));
            }
        }
        if k >= 3 {
            assert(part.drop_first().drop_first().first() == o[2]);
            assert(s2.effect(o[2]) == Some(s3));
        }
        assert(part.len() == k);
        if k == 0 {
            assert(s0.effects(part) == Some(s0));
        } else if k == 1 {
            assert(part.drop_first().len() == 0);
            assert(s0.effects(part) == Some(s1));
        } else if k == 2 {
            assert(part.drop_first().drop_first().len() == 0);
        } else {
            assert(part.drop_first().drop_first().drop_first().len() == 0);
        }
    } else {
        lemma_opening_effect(g, batch_size);
        if k <= o.len() + m.len() {
            let part = m.take(k - o.len());
            assert(script.take(k) =~= o + part);
            lemma_cycles_quiet(p, planned_batches(p));
            lemma_quiet_keep_shape(s3, part);
            lemma_effects_concat(s0, o, part);
        } else {
            let part = c.take(k - o.len() - m.len());
            assert(script.take(k) =~= o + m + part);
            lemma_cycles_keep_shape(s3, p, planned_batches(p));
            lemma_effects_concat(s0, o, m);
            lemma_effects_concat(s0, o + m, part);
            reveal_with_fuel(FleetShape::effects, 4);
            assert(part.first() == c[0]);
            assert(s3.effect(c[0]) == Some(s4));
            if part.len() == 1 {
                assert(part.drop_first().len() == 0);
            } else {
                assert(part.drop_first().first() == c[1]);
                assert(part.drop_first().drop_first().len() == 0);
            }
        }
    }
}

proof fn lemma_opening_effect(g: GroupModel, batch_size: int)
    requires
        refusal(g, batch_size) is None,
    ensures
        shape_of(g).effects(opening(plan_of(g, batch_size))) == Some(
            FleetShape {
                suspended: shape_of(g).suspended.union(paused_processes().to_set()),
                max_size: if plan_of(g, batch_size).raised() > g.max_size {
                    plan_of(g, batch_size).raised()
                } else {
                    g.max_size
                },
                desired_capacity: plan_of(g, batch_size).raised(),
                ..shape_of(g)
            },
        ),
{
    let p = plan_of(g, batch_size);
    let s0 = shape_of(g);
    let paused = paused_processes().to_set();
    let s1 = FleetShape { suspended: s0.suspended.union(paused), ..s0 };
    let s2 = FleetShape {
        max_size: if p.raised() > p.initial_max {
            p.raised()
        } else {
            s0.max_size
        },
        ..s1
    };
    let s3 = FleetShape { desired_capacity: p.raised(), ..s2 };
    reveal_with_fuel(FleetShape::effects, 5);
    let o = opening(p);
    if p.raised() > p.initial_max {
        assert(o.len() == 3);
        assert(o.drop_first().first() == o[1]);
        assert(o.drop_first().drop_first().first() == o[2]);
        assert(o.drop_first().drop_first().drop_first().len() == 0);
        assert(s0.effect(o[0]) == Some(s1));
        assert(s1.effect(o[1]) == Some(s2));
        assert(s2.effect(o[2]) == Some(s3));
    } else {
        assert(o.len() == 2);
        assert(o.drop_first().first() == o[1]);
        assert(o.drop_first().drop_first().len() == 0);
        assert(s0.effect(o[0]) == Some(s1));
        assert(s1 == s2);
        assert(s2.effect(o[1]) == Some(s3));
    }
}

/// A rotation never asks for the creation of a launch configuration.
pub proof fn lemma_rotation_creates_nothing(p: PlanModel, i: int)
    requires
        0 <= i < rotation_script(p).len(),
    ensures
        !(rotation_script(p)[i] is CreateLaunchConfig),
{
    let o = opening(p);
    let c = cycles(p, planned_batches(p));
    lemma_cycles_quiet(p, planned_batches(p));
    if i < o.len() {
        assert(rotation_script(p)[i] == o[i]);
    } else if i < o.len() + c.len() {
        assert(rotation_script(p)[i] == c[i - o.len()]);
        assert(quiet(c[i - o.len()]));
    } else {
        assert(rotation_script(p)[i] == closing(p)[i - o.len() - c.len()]);
    }
}

/// Once a rotation has completed, the calls it made have left the group
/// with the maximum and the desired capacity it had before, and with the
/// automated processes resumed.
pub proof fn lemma_completed_rotation_restores(run: RotationModel, g: GroupModel, batch_size: int)
    requires
        refusal(g, batch_size) is None,
        run.plan == plan_of(g, batch_size),
        run.consistent(),
        run.status == RotationStatus::Completed,
    ensures
        shape_of(g).effects(run.performed()) == Some(
            FleetShape {
                suspended: shape_of(g).suspended.difference(paused_processes().to_set()),
                ..shape_of(g)
            },
        ),
{
    lemma_rotation_restores(g, batch_size);
    assert(run.performed() =~= rotation_script(run.plan));
}

/// The status with which a command ends that ran a rotation: zero when it
/// completed, 2 when there was nothing to rotate, 101 on any other
/// failure.
pub open spec fn exit_status_of(outcome: Option<RotationError>) -> i32 {
    match outcome {
        None => 0,
        Some(RotationError::NothingToRotate) => 2,
        Some(_) => 101,
    }
}

/// The status with which a command ends that ran a rotation.
pub fn exit_status(outcome: Option<RotationError>) -> (r: i32)
    ensures
        r == exit_status_of(outcome),
        r == 0 <==> outcome is None,
{
    match outcome {
        None => 0,
        Some(RotationError::NothingToRotate) => 2,
        Some(_) => 101,
    }
}

} // verus!
