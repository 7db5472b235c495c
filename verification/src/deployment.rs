//! The blue/green deployment: baseline, canary launch, canary monitoring,
//! threshold check, rollback or not, and the full rotation of the green
//! group, as a state machine from events to actions. Nothing is changed,
//! and no launch configuration is created, before the blue group has been
//! read and, unless the deployment is forced, found idle.

use vstd::prelude::*;
use crate::capacity::FleetShape;
use crate::command::{Action, ActionModel, Event, EventModel, GroupUpdate, UpdateModel};
use crate::fleet::{describe, DirectoryError, GroupModel, ScalingGroup};
use crate::metrics::{breach_of, check_thresholds, MetricSample, ThresholdBreach};
use crate::request::{LaunchConfigSpec, LaunchModel};
use crate::rotation::{
    lemma_rotation_creates_nothing, plan_of, rotate_instances, start_refusal, Rotation, RotationError, RotationModel,
    RotationStatus,
};
use crate::text::{hyphenate, hyphenated, same_text};
use crate::universe::{
    absent, application_names, binding_names, environment_names, first_at, ConfigError, Universe,
    MAX_VERSION_CHARS,
};

verus! {

/// How the production group is rotated after the canary.
#[derive(Clone, Copy, Debug, PartialEq, Eq, Structural)]
pub enum Strategy {
    /// One batch as large as the group.
    ReplaceAll,
    /// Batches of the configured size.
    FixedBatch,
}

/// The strategy that a name stands for: `replacement` asks for one batch
/// as large as the group, any other name for batches of the configured
/// size.
pub fn strategy_of(name: &str) -> (r: Strategy)
    ensures
        r == if name@ == "replacement"@ {
            Strategy::ReplaceAll
        } else {
            Strategy::FixedBatch
        },
{
    if same_text(name, "replacement") {
        Strategy::ReplaceAll
    } else {
        Strategy::FixedBatch
    }
}

/// A release request. The latency limit is held in microseconds, the
/// error-rate limit in errors per million requests, the health-check
/// timeout in minutes.
#[derive(Clone, Debug, PartialEq, Eq)]
pub struct Deployment {
    pub application: String,
    pub environment: String,
    pub iam_profile: String,
    pub instance_type: String,
    pub version: String,
    pub force: bool,
    pub max_latency_micros: u64,
    pub max_error_rate_ppm: u64,
    pub user_data: String,
    pub healthcheck_timeout: u64,
    pub strategy: Strategy,
    pub batch: usize,
}

/// A release request as a value of mathematics.
pub struct DeploymentModel {
    pub application: Seq<char>,
    pub environment: Seq<char>,
    pub iam_profile: Seq<char>,
    pub instance_type: Seq<char>,
    pub version: Seq<char>,
    pub force: bool,
    pub max_latency_micros: u64,
    pub max_error_rate_ppm: u64,
    pub user_data: Seq<char>,
    pub healthcheck_timeout: u64,
    pub strategy: Strategy,
    pub batch: usize,
}

impl View for Deployment {
    type V = DeploymentModel;

    open spec fn view(&self) -> DeploymentModel {
        DeploymentModel {
            application: self.application@,
            environment: self.environment@,
            iam_profile: self.iam_profile@,
            instance_type: self.instance_type@,
            version: self.version@,
            force: self.force,
            max_latency_micros: self.max_latency_micros,
            max_error_rate_ppm: self.max_error_rate_ppm,
            user_data: self.user_data@,
            healthcheck_timeout: self.healthcheck_timeout,
            strategy: self.strategy,
            batch: self.batch,
        }
    }
}

/// Why a release request cannot be carried out against the registry, if
/// there is a reason: the application or the environment is unknown, the
/// version is too long, or the timeout is beyond range.
pub open spec fn config_error(universe: &Universe, d: DeploymentModel) -> Option<ConfigError> {
    if absent(application_names(universe.applications@), d.application) {
        Some(ConfigError::UnknownApplication)
    } else if absent(environment_names(universe.environments@), d.environment) {
        Some(ConfigError::UnknownEnvironment)
    } else if d.version.len() > MAX_VERSION_CHARS {
        Some(ConfigError::VersionTooLong)
    } else if d.healthcheck_timeout * 60 > u64::MAX {
        Some(ConfigError::TimeoutTooLong)
    } else {
        None
    }
}

impl Deployment {
    /// Checks the request against the registry, before any call that
    /// changes something.
    pub fn validate(&self, universe: &Universe) -> (r: Result<(), ConfigError>)
        ensures
            match r {
                Ok(_) => config_error(universe, self@) is None,
                Err(e) => config_error(universe, self@) == Some(e),
            },
    {
        if universe.application(self.application.as_str()).is_none() {
            return Err(ConfigError::UnknownApplication);
        }
        if universe.environment(self.environment.as_str()).is_none() {
            return Err(ConfigError::UnknownEnvironment);
        }
        if self.version.as_str().unicode_len() > MAX_VERSION_CHARS {
            return Err(ConfigError::VersionTooLong);
        }
        if self.healthcheck_timeout.checked_mul(60).is_none() {
            return Err(ConfigError::TimeoutTooLong);
        }
        Ok(())
    }
}

/// Why a deployment stopped before its end.
#[derive(Clone, Copy, Debug, PartialEq, Eq, Structural)]
pub enum DeployError {
    /// No group carries the name of the blue or of the green group.
    NotFound,
    /// More than one group carries that name.
    Ambiguous,
    /// The blue group has members or a desired capacity: another
    /// deployment may be under way.
    BlueNotIdle,
    /// The provider rejected a call.
    RemoteCall,
    /// The canary did not come into service in time. The blue group was
    /// resized to zero and given its previous launch configuration back.
    CanaryTimeout,
    /// The rotation of the green group did not start or stopped.
    Rotation(RotationError),
    /// The driver reported something that does not answer the pending
    /// action.
    UnexpectedEvent,
}

/// The phases of a deployment.
#[derive(Clone, Copy, Debug, PartialEq, Eq, Structural)]
pub enum Phase {
    Baseline,
    CanaryLaunch,
    CanaryMonitor,
    Rollback,
    FullRotation,
    Done,
    Failed,
}

/// Where a deployment stands: the step whose action is pending, or how it
/// ended.
#[derive(Clone, Copy, Debug, PartialEq, Eq, Structural)]
pub enum Step {
    BaselineSample,
    ReadBlue,
    CreateConfig,
    SwapBlueConfig,
    TagBlue,
    CountBefore,
    LaunchCanary,
    AwaitCanary,
    RetireCanary,
    RestoreBlueConfig,
    MonitorSample { round: u8 },
    MonitorPause { round: u8 },
    VerdictSample,
    RollBack,
    ReadGreen,
    SwapGreenConfig,
    TagGreen,
    PlanRotation,
    Rotate,
    Done,
    Failed { error: DeployError },
}

/// Minutes of the baseline window and of the canary's verdict window.
pub const VERDICT_MINUTES: u64 = 5;

/// Minutes of each window read while the canary is watched.
pub const MONITOR_MINUTES: u64 = 1;

/// How many times the canary's metrics are read for visibility.
pub const MONITOR_ROUNDS: u8 = 4;

/// Seconds between two such reads.
pub const MONITOR_PAUSE_SECONDS: u64 = 60;

impl Step {
    /// The phase that the step belongs to. Reading the blue group belongs
    /// to the baseline, which a forced deployment skips but for that read.
    pub open spec fn phase_of(self) -> Phase {
        match self {
            Step::BaselineSample | Step::ReadBlue => Phase::Baseline,
            Step::CreateConfig
            | Step::SwapBlueConfig
            | Step::TagBlue
            | Step::CountBefore
            | Step::LaunchCanary
            | Step::AwaitCanary
            | Step::RetireCanary
            | Step::RestoreBlueConfig => Phase::CanaryLaunch,
            Step::MonitorSample { .. } | Step::MonitorPause { .. } | Step::VerdictSample =>
                Phase::CanaryMonitor,
            Step::RollBack => Phase::Rollback,
            Step::ReadGreen
            | Step::SwapGreenConfig
            | Step::TagGreen
            | Step::PlanRotation
            | Step::Rotate => Phase::FullRotation,
            Step::Done => Phase::Done,
            Step::Failed { .. } => Phase::Failed,
        }
    }

    pub fn phase(&self) -> (r: Phase)
        ensures
            r == self.phase_of(),
    {
        match self {
            Step::BaselineSample | Step::ReadBlue => Phase::Baseline,
            Step::CreateConfig
            | Step::SwapBlueConfig
            | Step::TagBlue
            | Step::CountBefore
            | Step::LaunchCanary
            | Step::AwaitCanary
            | Step::RetireCanary
            | Step::RestoreBlueConfig => Phase::CanaryLaunch,
            Step::MonitorSample { .. } | Step::MonitorPause { .. } | Step::VerdictSample =>
                Phase::CanaryMonitor,
            Step::RollBack => Phase::Rollback,
            Step::ReadGreen
            | Step::SwapGreenConfig
            | Step::TagGreen
            | Step::PlanRotation
            | Step::Rotate => Phase::FullRotation,
            Step::Done => Phase::Done,
            Step::Failed { .. } => Phase::Failed,
        }
    }
}

/// The update that sets all three bounds of a group to `n`.
pub open spec fn sized(n: int) -> UpdateModel {
    UpdateModel {
        min_size: Some(n),
        max_size: Some(n),
        desired_capacity: Some(n),
        launch_config: None,
    }
}

/// The update that swaps the launch configuration and nothing else.
pub open spec fn configured(launch_config: Seq<char>) -> UpdateModel {
    UpdateModel {
        min_size: None,
        max_size: None,
        desired_capacity: None,
        launch_config: Some(launch_config),
    }
}

/// Whether a group has neither members nor a desired capacity.
pub open spec fn idle(g: GroupModel) -> bool {
    g.instances.len() == 0 && g.desired_capacity == 0
}

/// The sample that an answer to a metrics read stands for: the sample
/// itself, and that of a quiet window when the read was rejected. Any
/// other event is no answer.
pub open spec fn reading(event: EventModel, interval_minutes: u64) -> Option<MetricSample> {
    match event {
        EventModel::Sample { sample } => Some(sample),
        EventModel::Rejected { .. } => Some(MetricSample::quiet(interval_minutes)),
        _ => None,
    }
}

/// A deployment in progress as a value of mathematics: the request, what
/// was learnt so far, and the step whose action is pending.
pub struct DeployModel {
    pub deploy: DeploymentModel,
    pub launch: LaunchModel,
    pub load_balancer: Seq<char>,
    pub step: Step,
    pub prior_launch_config: Seq<char>,
    pub target: int,
    pub batch_size: int,
    pub baseline: Option<MetricSample>,
    pub verdict: Option<MetricSample>,
    pub breach: Option<ThresholdBreach>,
    pub rotation: Option<RotationModel>,
    pub detail: Seq<char>,
}

impl DeployModel {
    /// The name of the blue group: application, environment, `blue`.
    pub open spec fn blue(self) -> Seq<char> {
        hyphenated(self.deploy.application, self.deploy.environment, "blue"@)
    }

    /// The name of the green group: application, environment, `green`.
    pub open spec fn green(self) -> Seq<char> {
        hyphenated(self.deploy.application, self.deploy.environment, "green"@)
    }

    /// A deployment that has just begun: a forced one starts by reading
    /// the blue group, any other by the baseline sample.
    pub open spec fn fresh(
        deploy: DeploymentModel,
        launch: LaunchModel,
        load_balancer: Seq<char>,
    ) -> DeployModel {
        DeployModel {
            deploy,
            launch,
            load_balancer,
            step: if deploy.force {
                Step::ReadBlue
            } else {
                Step::BaselineSample
            },
            prior_launch_config: Seq::empty(),
            target: 0,
            batch_size: 0,
            baseline: None,
            verdict: None,
            breach: None,
            rotation: None,
            detail: Seq::empty(),
        }
    }

    /// The action that the driver is to carry out now; `None` once the
    /// deployment is done or has failed.
    pub open spec fn pending(self) -> Option<ActionModel> {
        match self.step {
            Step::BaselineSample | Step::VerdictSample => Some(
                ActionModel::SampleMetrics {
                    load_balancer: self.load_balancer,
                    interval_minutes: VERDICT_MINUTES as int,
                },
            ),
            Step::MonitorSample { .. } => Some(
                ActionModel::SampleMetrics {
                    load_balancer: self.load_balancer,
                    interval_minutes: MONITOR_MINUTES as int,
                },
            ),
            Step::MonitorPause { .. } => Some(
                ActionModel::Pause { seconds: MONITOR_PAUSE_SECONDS as int },
            ),
            Step::ReadBlue => Some(ActionModel::DescribeGroup { group: self.blue() }),
            Step::CreateConfig => Some(ActionModel::CreateLaunchConfig { spec: self.launch }),
            Step::SwapBlueConfig => Some(
                ActionModel::UpdateGroup {
                    group: self.blue(),
                    update: configured(self.launch.name),
                },
            ),
            Step::TagBlue => Some(
                ActionModel::SetVersionTag { group: self.blue(), version: self.deploy.version },
            ),
            Step::CountBefore => Some(
                ActionModel::CountInService { load_balancer: self.load_balancer },
            ),
            Step::LaunchCanary => Some(
                ActionModel::UpdateGroup { group: self.blue(), update: sized(1) },
            ),
            Step::AwaitCanary => Some(
                ActionModel::AwaitInService {
                    load_balancer: self.load_balancer,
                    target: self.target,
                    timeout_seconds: self.deploy.healthcheck_timeout * 60,
                },
            ),
            Step::RetireCanary | Step::RollBack => Some(
                ActionModel::UpdateGroup { group: self.blue(), update: sized(0) },
            ),
            Step::RestoreBlueConfig => Some(
                ActionModel::UpdateGroup {
                    group: self.blue(),
                    update: configured(self.prior_launch_config),
                },
            ),
            Step::ReadGreen | Step::PlanRotation => Some(
                ActionModel::DescribeGroup { group: self.green() },
            ),
            Step::SwapGreenConfig => Some(
                ActionModel::UpdateGroup {
                    group: self.green(),
                    update: configured(self.launch.name),
                },
            ),
            Step::TagGreen => Some(
                ActionModel::SetVersionTag { group: self.green(), version: self.deploy.version },
            ),
            Step::Rotate => match self.rotation {
                Some(r) => r.pending(),
                None => None,
            },
            Step::Done | Step::Failed { .. } => None,
        }
    }

    pub open spec fn at(self, step: Step) -> DeployModel {
        DeployModel { step, ..self }
    }

    pub open spec fn failed(self, error: DeployError, detail: Seq<char>) -> DeployModel {
        DeployModel { step: Step::Failed { error }, detail, ..self }
    }

    /// The step that follows an accepted call or a finished pause. The
    /// call that gives the blue group its previous launch configuration
    /// back ends the deployment with the canary's timeout.
    pub open spec fn after_accepted(self) -> DeployModel {
        match self.step {
            Step::CreateConfig => self.at(Step::SwapBlueConfig),
            Step::SwapBlueConfig => self.at(Step::TagBlue),
            Step::TagBlue => self.at(Step::CountBefore),
            Step::LaunchCanary => self.at(Step::AwaitCanary),
            Step::RetireCanary => self.at(Step::RestoreBlueConfig),
            Step::RestoreBlueConfig => self.failed(DeployError::CanaryTimeout, Seq::empty()),
            Step::MonitorPause { round } => if round + 1 < MONITOR_ROUNDS {
                self.at(Step::MonitorSample { round: (round + 1) as u8 })
            } else {
                self.at(Step::VerdictSample)
            },
            Step::RollBack => self.at(Step::ReadGreen),
            Step::SwapGreenConfig => self.at(Step::TagGreen),
            Step::TagGreen => self.at(Step::PlanRotation),
            _ => self.failed(DeployError::UnexpectedEvent, Seq::empty()),
        }
    }

    /// The deployment after the blue group was looked up: it must be the
    /// only group of its name and, unless the deployment is forced, idle.
    /// Its launch configuration is kept for a later rollback, and only now
    /// is the new launch configuration created.
    pub open spec fn after_blue(self, found: Seq<GroupModel>) -> DeployModel {
        if found.len() == 0 {
            self.failed(DeployError::NotFound, Seq::empty())
        } else if found.len() > 1 {
            self.failed(DeployError::Ambiguous, Seq::empty())
        } else if !self.deploy.force && !idle(found[0]) {
            self.failed(DeployError::BlueNotIdle, Seq::empty())
        } else {
            DeployModel {
                prior_launch_config: found[0].launch_config,
                step: Step::CreateConfig,
                ..self
            }
        }
    }

    /// The deployment after the green group was looked up: the batch size
    /// is the number of its members under the replace-all strategy, the
    /// configured size otherwise.
    pub open spec fn after_green(self, found: Seq<GroupModel>) -> DeployModel {
        if found.len() == 0 {
            self.failed(DeployError::NotFound, Seq::empty())
        } else if found.len() > 1 {
            self.failed(DeployError::Ambiguous, Seq::empty())
        } else {
            DeployModel {
                batch_size: if self.deploy.strategy == Strategy::ReplaceAll {
                    found[0].instances.len() as int
                } else {
                    self.deploy.batch as int
                },
                step: Step::SwapGreenConfig,
                ..self
            }
        }
    }

    /// The deployment after the green group was read for its rotation.
    pub open spec fn after_plan(self, found: Seq<GroupModel>) -> DeployModel {
        match start_refusal(found, self.batch_size) {
            Some(e) => self.failed(DeployError::Rotation(e), Seq::empty()),
            None => DeployModel {
                rotation: Some(RotationModel::fresh(plan_of(found[0], self.batch_size))),
                step: Step::Rotate,
                ..self
            },
        }
    }

    /// The deployment after the canary's verdict sample: beyond a limit,
    /// the blue group is resized to zero before the rotation; within both,
    /// the rotation is next.
    pub open spec fn after_verdict(self, sample: MetricSample) -> DeployModel {
        let breach = breach_of(
            sample,
            self.deploy.max_error_rate_ppm,
            self.deploy.max_latency_micros,
        );
        DeployModel {
            verdict: Some(sample),
            breach,
            step: if breach is Some {
                Step::RollBack
            } else {
                Step::ReadGreen
            },
            ..self
        }
    }

    /// The deployment after the rotation took an event.
    pub open spec fn after_rotation(self, event: EventModel) -> DeployModel {
        match self.rotation {
            None => self.failed(DeployError::UnexpectedEvent, Seq::empty()),
            Some(r) => {
                let next = r.after(event);
                match next.status {
                    RotationStatus::Running => DeployModel { rotation: Some(next), ..self },
                    RotationStatus::Completed => DeployModel {
                        rotation: Some(next),
                        step: Step::Done,
                        ..self
                    },
                    RotationStatus::Aborted(e) => DeployModel {
                        rotation: Some(next),
                        step: Step::Failed { error: DeployError::Rotation(e) },
                        detail: next.detail,
                        ..self
                    },
                }
            },
        }
    }

    /// The deployment after the driver reported `event` for the pending
    /// action.
    pub open spec fn after(self, event: EventModel) -> DeployModel {
        match self.step {
            Step::Done | Step::Failed { .. } => self,
            Step::Rotate => self.after_rotation(event),
            Step::BaselineSample => match reading(event, VERDICT_MINUTES) {
                Some(sample) => DeployModel {
                    baseline: Some(sample),
                    step: Step::ReadBlue,
                    ..self
                },
                None => self.failed(DeployError::UnexpectedEvent, Seq::empty()),
            },
            Step::MonitorSample { round } => match reading(event, MONITOR_MINUTES) {
                Some(sample) => self.at(Step::MonitorPause { round }),
                None => self.failed(DeployError::UnexpectedEvent, Seq::empty()),
            },
            Step::VerdictSample => match reading(event, VERDICT_MINUTES) {
                Some(sample) => self.after_verdict(sample),
                None => self.failed(DeployError::UnexpectedEvent, Seq::empty()),
            },
            _ => match event {
                EventModel::Rejected { message } => self.failed(DeployError::RemoteCall, message),
                EventModel::Accepted => self.after_accepted(),
                EventModel::Groups { found } => match self.step {
                    Step::ReadBlue => self.after_blue(found),
                    Step::ReadGreen => self.after_green(found),
                    Step::PlanRotation => self.after_plan(found),
                    _ => self.failed(DeployError::UnexpectedEvent, Seq::empty()),
                },
                EventModel::InService { count } => if self.step == Step::CountBefore && count + 1
                    <= u64::MAX {
                    DeployModel { target: count + 1, step: Step::LaunchCanary, ..self }
                } else {
                    self.failed(DeployError::UnexpectedEvent, Seq::empty())
                },
                EventModel::Converged { reached } => if self.step == Step::AwaitCanary {
                    if !reached {
                        self.at(Step::RetireCanary)
                    } else if self.deploy.force {
                        self.at(Step::ReadGreen)
                    } else {
                        self.at(Step::MonitorSample { round: 0 })
                    }
                } else {
                    self.failed(DeployError::UnexpectedEvent, Seq::empty())
                },
                EventModel::Sample { .. } => self.failed(DeployError::UnexpectedEvent, Seq::empty()),
            },
        }
    }
}

/// A deployment in progress.
#[derive(Debug)]
pub struct DeploymentRun {
    deploy: Deployment,
    launch: LaunchConfigSpec,
    load_balancer: String,
    blue: String,
    green: String,
    canary_timeout_seconds: u64,
    step: Step,
    prior_launch_config: String,
    target: u64,
    batch_size: usize,
    baseline: Option<MetricSample>,
    verdict: Option<MetricSample>,
    breach: Option<ThresholdBreach>,
    rotation: Option<Rotation>,
    detail: String,
}

impl View for DeploymentRun {
    type V = DeployModel;

    closed spec fn view(&self) -> DeployModel {
        DeployModel {
            deploy: self.deploy@,
            launch: self.launch@,
            load_balancer: self.load_balancer@,
            step: self.step,
            prior_launch_config: self.prior_launch_config@,
            target: self.target as int,
            batch_size: self.batch_size as int,
            baseline: self.baseline,
            verdict: self.verdict,
            breach: self.breach,
            rotation: match self.rotation {
                Some(r) => Some(r@),
                None => None,
            },
            detail: self.detail@,
        }
    }
}

/// Why a deployment of the request with the registry cannot begin, if
/// there is a reason: one of [`config_error`], or no load balancer bound
/// to the application for the environment.
pub open spec fn begin_error(universe: &Universe, d: DeploymentModel) -> Option<ConfigError> {
    if config_error(universe, d) is Some {
        config_error(universe, d)
    } else if exists|i: int|
        first_at(application_names(universe.applications@), d.application, i) && absent(
            binding_names(universe.applications@[i].load_balancers@),
            d.environment,
        ) {
        Some(ConfigError::MissingLoadBalancer)
    } else {
        None
    }
}

/// The load balancer that the registry binds to the application for the
/// environment: that of the first application of the name, and of its
/// first binding for the environment.
pub open spec fn bound_load_balancer(universe: &Universe, d: DeploymentModel, lb: Seq<char>) -> bool {
    exists|i: int, j: int|
        first_at(application_names(universe.applications@), d.application, i) && first_at(
            binding_names(universe.applications@[i].load_balancers@),
            d.environment,
            j,
        ) && universe.applications@[i].load_balancers@[j].value@ == lb
}

/// Begins the deployment of a release. The launch configuration is handed
/// over as what it is to be created with: the run asks for its creation
/// itself, once the blue group has been read. Nothing begins when the
/// request fails against the registry.
pub fn do_deployment_cmd(universe: &Universe, deploy: Deployment, launch: LaunchConfigSpec) -> (r:
    Result<DeploymentRun, ConfigError>)
    ensures
        match r {
            Ok(run) => {
                &&& begin_error(universe, deploy@) is None
                &&& run.wf()
                &&& bound_load_balancer(universe, deploy@, run@.load_balancer)
                &&& run@ == DeployModel::fresh(deploy@, launch@, run@.load_balancer)
            },
            Err(e) => begin_error(universe, deploy@) == Some(e),
        },
{
    match deploy.validate(universe) {
        Err(e) => {
            return Err(e);
        },
        Ok(_) => {},
    }
    let app = universe.application(deploy.application.as_str());
    let i = match app {
        Some(i) => i,
        None => {
            return Err(ConfigError::UnknownApplication);
        },
    };
    let ghost names = application_names(universe.applications@);
    let application = &universe.applications[i];
    let bound = application.load_balancer(deploy.environment.as_str());
    let j = match bound {
        Some(j) => j,
        None => {
            proof {
                assert(first_at(names, deploy@.application, i as int));
            }
            return Err(ConfigError::MissingLoadBalancer);
        },
    };
    proof {
        assert(first_at(names, deploy@.application, i as int));
        assert forall|k: int|
            first_at(application_names(universe.applications@), deploy@.application, k)
            implies k == i by {}
    }
    let load_balancer = application.load_balancers[j].value.clone();
    let blue = hyphenate(deploy.application.as_str(), deploy.environment.as_str(), "blue");
    let green = hyphenate(deploy.application.as_str(), deploy.environment.as_str(), "green");
    let canary_timeout_seconds = deploy.healthcheck_timeout * 60;
    let step = if deploy.force {
        Step::ReadBlue
    } else {
        Step::BaselineSample
    };
    Ok(
        DeploymentRun {
            deploy,
            launch,
            load_balancer,
            blue,
            green,
            canary_timeout_seconds,
            step,
            prior_launch_config: String::new(),
            target: 0,
            batch_size: 0,
            baseline: None,
            verdict: None,
            breach: None,
            rotation: None,
            detail: String::new(),
        },
    )
}

impl DeploymentRun {
    /// The names and the timeout are those of the request, and a rotation
    /// is under way exactly while the deployment rotates.
    pub closed spec fn wf(&self) -> bool {
        &&& self.blue@ == self@.blue()
        &&& self.green@ == self@.green()
        &&& self.canary_timeout_seconds == self.deploy.healthcheck_timeout * 60
        &&& self.rotation matches Some(r) ==> r.wf()
        &&& self.step == Step::Rotate ==> (self.rotation matches Some(r) && r@.status
            == RotationStatus::Running)
    }

    /// The step whose action is pending, or how the deployment ended.
    pub fn step(&self) -> (r: Step)
        ensures
            r == self@.step,
    {
        self.step
    }

    /// The sample taken before the canary, once it was taken.
    pub fn baseline(&self) -> (r: Option<MetricSample>)
        ensures
            r == self@.baseline,
    {
        self.baseline
    }

    /// The canary's verdict sample, once it was taken.
    pub fn verdict(&self) -> (r: Option<MetricSample>)
        ensures
            r == self@.verdict,
    {
        self.verdict
    }

    /// The limit that the canary went beyond, if it did.
    pub fn breach(&self) -> (r: Option<ThresholdBreach>)
        ensures
            r == self@.breach,
    {
        self.breach
    }

    /// The provider's own words for the rejection that stopped the
    /// deployment; empty otherwise.
    pub fn detail(&self) -> (r: &String)
        ensures
            r@ == self@.detail,
    {
        &self.detail
    }

    /// The load balancer that the release is watched through.
    pub fn load_balancer(&self) -> (r: &String)
        ensures
            r@ == self@.load_balancer,
    {
        &self.load_balancer
    }

    /// The request that is being carried out.
    pub fn deploy(&self) -> (r: &Deployment)
        ensures
            r@ == self@.deploy,
    {
        &self.deploy
    }

    /// The rotation of the green group, once it was planned.
    pub fn rotation(&self) -> (r: Option<&Rotation>)
        ensures
            match r {
                Some(run) => self@.rotation == Some(run@),
                None => self@.rotation is None,
            },
            self.wf() ==> (r matches Some(run) ==> run.wf()),
    {
        self.rotation.as_ref()
    }

    fn update(group: &String, size: Option<i64>, launch_config: Option<&String>) -> (r: Action)
        ensures
            r@ == (ActionModel::UpdateGroup {
                group: group@,
                update: UpdateModel {
                    min_size: crate::command::wide(size),
                    max_size: crate::command::wide(size),
                    desired_capacity: crate::command::wide(size),
                    launch_config: match launch_config {
                        Some(lc) => Some(lc@),
                        None => None,
                    },
                },
            }),
    {
        Action::UpdateGroup {
            group: group.clone(),
            update: GroupUpdate {
                min_size: size,
                max_size: size,
                desired_capacity: size,
                launch_config: match launch_config {
                    Some(lc) => Some(lc.clone()),
                    None => None,
                },
            },
        }
    }

    fn sample(&self, interval_minutes: u64) -> (r: Action)
        ensures
            r@ == (ActionModel::SampleMetrics {
                load_balancer: self@.load_balancer,
                interval_minutes: interval_minutes as int,
            }),
    {
        Action::SampleMetrics { load_balancer: self.load_balancer.clone(), interval_minutes }
    }

    /// The action that the driver is to carry out now; `None` once the
    /// deployment is done or has failed.
    pub fn pending(&self) -> (r: Option<Action>)
        requires
            self.wf(),
        ensures
            match r {
                Some(a) => self@.pending() == Some(a@),
                None => self@.pending().is_none(),
            },
    {
        match self.step {
            Step::BaselineSample | Step::VerdictSample => Some(self.sample(VERDICT_MINUTES)),
            Step::MonitorSample { .. } => Some(self.sample(MONITOR_MINUTES)),
            Step::MonitorPause { .. } => Some(Action::Pause { seconds: MONITOR_PAUSE_SECONDS }),
            Step::ReadBlue => Some(Action::DescribeGroup { group: self.blue.clone() }),
            Step::CreateConfig => Some(Action::CreateLaunchConfig { spec: self.launch.duplicate() }),
            Step::SwapBlueConfig => Some(Self::update(&self.blue, None, Some(&self.launch.name))),
            Step::TagBlue => Some(
                Action::SetVersionTag {
                    group: self.blue.clone(),
                    version: self.deploy.version.clone(),
                },
            ),
            Step::CountBefore => Some(
                Action::CountInService { load_balancer: self.load_balancer.clone() },
            ),
            Step::LaunchCanary => Some(Self::update(&self.blue, Some(1), None)),
            Step::AwaitCanary => Some(
                Action::AwaitInService {
                    load_balancer: self.load_balancer.clone(),
                    target: self.target,
                    timeout_seconds: self.canary_timeout_seconds,
                },
            ),
            Step::RetireCanary | Step::RollBack => Some(Self::update(&self.blue, Some(0), None)),
            Step::RestoreBlueConfig => Some(
                Self::update(&self.blue, None, Some(&self.prior_launch_config)),
            ),
            Step::ReadGreen | Step::PlanRotation => Some(
                Action::DescribeGroup { group: self.green.clone() },
            ),
            Step::SwapGreenConfig => Some(
                Self::update(&self.green, None, Some(&self.launch.name)),
            ),
            Step::TagGreen => Some(
                Action::SetVersionTag {
                    group: self.green.clone(),
                    version: self.deploy.version.clone(),
                },
            ),
            Step::Rotate => match &self.rotation {
                Some(r) => r.pending(),
                None => None,
            },
            Step::Done | Step::Failed { .. } => None,
        }
    }

    fn fail(&mut self, error: DeployError)
        requires
            old(self).wf(),
            old(self).step != Step::Rotate,
        ensures
            final(self).wf(),
            final(self)@ == old(self)@.failed(error, Seq::empty()),
    {
        self.step = Step::Failed { error };
        self.detail = String::new();
    }

    fn go(&mut self, step: Step)
        requires
            old(self).wf(),
            old(self).step != Step::Rotate,
            step != Step::Rotate,
        ensures
            final(self).wf(),
            final(self)@ == old(self)@.at(step),
    {
        self.step = step;
    }

    fn accepted(&mut self)
        requires
            old(self).wf(),
            old(self).step != Step::Rotate,
        ensures
            final(self).wf(),
            final(self)@ == old(self)@.after_accepted(),
    {
        match self.step {
            Step::CreateConfig => self.go(Step::SwapBlueConfig),
            Step::SwapBlueConfig => self.go(Step::TagBlue),
            Step::TagBlue => self.go(Step::CountBefore),
            Step::LaunchCanary => self.go(Step::AwaitCanary),
            Step::RetireCanary => self.go(Step::RestoreBlueConfig),
            Step::RestoreBlueConfig => self.fail(DeployError::CanaryTimeout),
            Step::MonitorPause { round } => {
                if round < MONITOR_ROUNDS - 1 {
                    self.go(Step::MonitorSample { round: round + 1 });
                } else {
                    self.go(Step::VerdictSample);
                }
            },
            Step::RollBack => self.go(Step::ReadGreen),
            Step::SwapGreenConfig => self.go(Step::TagGreen),
            Step::TagGreen => self.go(Step::PlanRotation),
            _ => self.fail(DeployError::UnexpectedEvent),
        }
    }

    fn looked_up(&mut self, found: Vec<ScalingGroup>)
        requires
            old(self).wf(),
            old(self).step != Step::Rotate,
        ensures
            final(self).wf(),
            final(self)@ == match old(self).step {
                Step::ReadBlue => old(self)@.after_blue(found@.map_values(|g: ScalingGroup| g@)),
                Step::ReadGreen => old(self)@.after_green(found@.map_values(|g: ScalingGroup| g@)),
                Step::PlanRotation => old(self)@.after_plan(
                    found@.map_values(|g: ScalingGroup| g@),
                ),
                _ => old(self)@.failed(DeployError::UnexpectedEvent, Seq::empty()),
            },
    {
        let ghost models = found@.map_values(|g: ScalingGroup| g@);
        proof {
            if found.len() > 0 {
                assert(models[0] == found@[0]@);
            }
        }
        match self.step {
            Step::PlanRotation => {
                match rotate_instances(&found, self.batch_size) {
                    Ok(run) => {
                        self.rotation = Some(run);
                        self.step = Step::Rotate;
                    },
                    Err(e) => {
                        self.fail(DeployError::Rotation(e));
                    },
                }
            },
            Step::ReadBlue | Step::ReadGreen => {
                match describe(found) {
                    Err(DirectoryError::NotFound) => {
                        self.fail(DeployError::NotFound);
                    },
                    Err(DirectoryError::Ambiguous) => {
                        self.fail(DeployError::Ambiguous);
                    },
                    Ok(group) => {
                        match self.step {
                            Step::ReadBlue => {
                                if !self.deploy.force && (group.instances.len() != 0
                                    || group.desired_capacity != 0) {
                                    self.fail(DeployError::BlueNotIdle);
                                } else {
                                    self.prior_launch_config = group.launch_config;
                                    self.step = Step::CreateConfig;
                                }
                            },
                            _ => {
                                self.batch_size = match self.deploy.strategy {
                                    Strategy::ReplaceAll => group.instances.len(),
                                    Strategy::FixedBatch => self.deploy.batch,
                                };
                                self.step = Step::SwapGreenConfig;
                            },
                        }
                    },
                }
            },
            _ => {
                self.fail(DeployError::UnexpectedEvent);
            },
        }
    }

    fn sampled(&mut self, sample: MetricSample)
        requires
            old(self).wf(),
            old(self).step is BaselineSample || old(self).step is MonitorSample || old(self).step
                is VerdictSample,
        ensures
            final(self).wf(),
            final(self)@ == match old(self).step {
                Step::BaselineSample => DeployModel {
                    baseline: Some(sample),
                    step: Step::ReadBlue,
                    ..old(self)@
                },
                Step::MonitorSample { round } => old(self)@.at(Step::MonitorPause { round }),
                _ => old(self)@.after_verdict(sample),
            },
    {
        match self.step {
            Step::BaselineSample => {
                self.baseline = Some(sample);
                self.step = Step::ReadBlue;
            },
            Step::MonitorSample { round } => {
                self.step = Step::MonitorPause { round };
            },
            _ => {
                let breach = check_thresholds(
                    &sample,
                    self.deploy.max_error_rate_ppm,
                    self.deploy.max_latency_micros,
                );
                self.verdict = Some(sample);
                self.breach = breach;
                self.step = if breach.is_some() {
                    Step::RollBack
                } else {
                    Step::ReadGreen
                };
            },
        }
    }

    fn rotated(&mut self, event: Event)
        requires
            old(self).wf(),
            old(self).step == Step::Rotate,
        ensures
            final(self).wf(),
            final(self)@ == old(self)@.after_rotation(event@),
    {
        let mut rotation = self.rotation.take().unwrap();
        rotation.report(event);
        match rotation.status() {
            RotationStatus::Running => {},
            RotationStatus::Completed => {
                self.step = Step::Done;
            },
            RotationStatus::Aborted(e) => {
                self.step = Step::Failed { error: DeployError::Rotation(e) };
                self.detail = rotation.detail().clone();
            },
        }
        self.rotation = Some(rotation);
    }

    /// Takes the driver's report on the pending action and moves to the
    /// next step, or ends the deployment.
    pub fn report(&mut self, event: Event)
        requires
            old(self).wf(),
        ensures
            final(self).wf(),
            final(self)@ == old(self)@.after(event@),
    {
        match self.step {
            Step::Done | Step::Failed { .. } => {},
            Step::Rotate => {
                self.rotated(event);
            },
            Step::BaselineSample | Step::VerdictSample | Step::MonitorSample { .. } => {
                let interval = match self.step {
                    Step::MonitorSample { .. } => MONITOR_MINUTES,
                    _ => VERDICT_MINUTES,
                };
                match event {
                    Event::Sample { sample } => {
                        self.sampled(sample);
                    },
                    Event::Rejected { .. } => {
                        self.sampled(MetricSample::empty(interval));
                    },
                    _ => {
                        self.fail(DeployError::UnexpectedEvent);
                    },
                }
            },
            _ => {
                match event {
                    Event::Rejected { message } => {
                        self.step = Step::Failed { error: DeployError::RemoteCall };
                        self.detail = message;
                    },
                    Event::Accepted => {
                        self.accepted();
                    },
                    Event::Groups { found } => {
                        self.looked_up(found);
                    },
                    Event::InService { count } => {
                        match self.step {
                            Step::CountBefore => {
                                match count.checked_add(1) {
                                    Some(target) => {
                                        self.target = target;
                                        self.step = Step::LaunchCanary;
                                    },
                                    None => {
                                        self.fail(DeployError::UnexpectedEvent);
                                    },
                                }
                            },
                            _ => {
                                self.fail(DeployError::UnexpectedEvent);
                            },
                        }
                    },
                    Event::Converged { reached } => {
                        match self.step {
                            Step::AwaitCanary => {
                                if !reached {
                                    self.go(Step::RetireCanary);
                                } else if self.deploy.force {
                                    self.go(Step::ReadGreen);
                                } else {
                                    self.go(Step::MonitorSample { round: 0 });
                                }
                            },
                            _ => {
                                self.fail(DeployError::UnexpectedEvent);
                            },
                        }
                    },
                    Event::Sample { .. } => {
                        self.fail(DeployError::UnexpectedEvent);
                    },
                }
            },
        }
    }
}

/// Whether the action only reads: it asks the provider for a state and
/// changes nothing.
pub open spec fn reads_only(a: ActionModel) -> bool {
    a is DescribeGroup || a is SampleMetrics || a is CountInService
}

/// A deployment that is not forced and finds the blue group busy fails
/// for that reason, and the only actions it asked for before are reads:
/// nothing was changed, and no launch configuration was created.
pub proof fn lemma_busy_blue_stops_before_change(
    deploy: DeploymentModel,
    launch: LaunchModel,
    load_balancer: Seq<char>,
    first: EventModel,
    blue: GroupModel,
)
    requires
        !deploy.force,
        first is Sample || first is Rejected,
        !idle(blue),
    ensures
        ({
            let begun = DeployModel::fresh(deploy, launch, load_balancer);
            let read = begun.after(first);
            let ended = read.after(EventModel::Groups { found: seq![blue] });
            &&& begun.pending() matches Some(a) && reads_only(a)
            &&& read.pending() matches Some(b) && reads_only(b)
            &&& ended.step == Step::Failed { error: DeployError::BlueNotIdle }
            &&& ended.pending() is None
        }),
{
}

/// A canary that does not come into service in time is taken back: the
/// blue group is resized to zero, then given its previous launch
/// configuration, and the deployment fails with the timeout.
pub proof fn lemma_canary_timeout_rolls_back(m: DeployModel)
    requires
        m.step == Step::AwaitCanary,
    ensures
        ({
            let timed_out = m.after(EventModel::Converged { reached: false });
            let resized = timed_out.after(EventModel::Accepted);
            let ended = resized.after(EventModel::Accepted);
            &&& timed_out.pending() == Some(
                ActionModel::UpdateGroup { group: m.blue(), update: sized(0) },
            )
            &&& resized.pending() == Some(
                ActionModel::UpdateGroup {
                    group: m.blue(),
                    update: configured(m.prior_launch_config),
                },
            )
            &&& ended.step == Step::Failed { error: DeployError::CanaryTimeout }
            &&& ended.pending() is None
        }),
{
}

/// A deployment that has ended stays as it is, whatever is reported.
pub proof fn lemma_ended_deployment_stays(m: DeployModel, event: EventModel)
    requires
        m.step is Done || m.step is Failed,
    ensures
        m.after(event) == m,
        m.pending() is None,
{
}

/// Every update that a deployment asks for before the rotation is taken by
/// the provider and leaves the bounds of the group ordered: it sets all
/// three to zero or to one, or leaves them alone.
pub proof fn lemma_deployment_updates_keep_bounds(m: DeployModel, s: FleetShape)
    requires
        s.bounded(),
        m.step != Step::Rotate,
        m.pending() matches Some(a) && a is UpdateGroup,
    ensures
        s.effect(m.pending().unwrap()) matches Some(t) && t.bounded(),
{
}

/// The launch configuration is created at one step only, and that step is
/// reached only by reading the blue group: the one group of its name,
/// idle unless the deployment is forced.
pub proof fn lemma_config_created_after_blue_was_read(m: DeployModel, event: EventModel)
    ensures
        m.pending() matches Some(a) && a is CreateLaunchConfig ==> m.step == Step::CreateConfig,
        m.step != Step::CreateConfig && m.after(event).step == Step::CreateConfig ==> {
            &&& m.step == Step::ReadBlue
            &&& event matches EventModel::Groups { found }
            &&& event->found.len() == 1
            &&& m.deploy.force || idle(event->found[0])
        },
{
    if m.step == Step::Rotate {
        match m.rotation {
            Some(r) => {
                if r.pending() is Some {
                    lemma_rotation_creates_nothing(r.plan, r.cursor);
                }
            },
            None => {},
        }
    }
}

} // verus!
