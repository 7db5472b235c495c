use fleet_deploy::command::{Action, Event, GroupUpdate};
use fleet_deploy::deployment::{
    do_deployment_cmd, strategy_of, DeployError, Deployment, DeploymentRun, Phase, Step, Strategy,
};
use fleet_deploy::fleet::{Instance, ScalingGroup};
use fleet_deploy::metrics::{MetricSample, ThresholdBreach};
use fleet_deploy::request::LaunchConfigSpec;
use fleet_deploy::rotation::RotationError;
use fleet_deploy::universe::{Application, Binding, ConfigError, Environment, Universe};

fn universe() -> Universe {
    Universe {
        applications: vec![Application {
            name: "shop".to_string(),
            service_name: Some("shop-web".to_string()),
            load_balancers: vec![
                Binding { environment: "stage".to_string(), value: "shop-stage-lb".to_string() },
                Binding { environment: "prod".to_string(), value: "shop-prod-lb".to_string() },
            ],
            security_groups: Vec::new(),
        }],
        environments: vec![
            Environment { name: "prod".to_string(), subnet_ids: vec!["subnet-1".to_string()] },
            Environment { name: "dev".to_string(), subnet_ids: Vec::new() },
        ],
    }
}

fn request(force: bool) -> Deployment {
    Deployment {
        application: "shop".to_string(),
        environment: "prod".to_string(),
        iam_profile: "profile".to_string(),
        instance_type: "m5.large".to_string(),
        version: "1.2.3".to_string(),
        force,
        max_latency_micros: 500_000,
        max_error_rate_ppm: 10_000,
        user_data: String::new(),
        healthcheck_timeout: 10,
        strategy: Strategy::FixedBatch,
        batch: 2,
    }
}

fn launch() -> LaunchConfigSpec {
    LaunchConfigSpec {
        name: "lc-new".to_string(),
        image_id: "ami-1".to_string(),
        instance_type: "m5.large".to_string(),
        iam_profile: "profile".to_string(),
        user_data: String::new(),
        security_groups: vec!["sg-1".to_string()],
    }
}

fn create() -> Action {
    Action::CreateLaunchConfig { spec: launch() }
}

fn begin(force: bool) -> DeploymentRun {
    do_deployment_cmd(&universe(), request(force), launch()).unwrap()
}

fn member(id: &str) -> Instance {
    Instance { id: id.to_string(), lifecycle_state: "InService".to_string() }
}

fn blue(desired: i64, members: Vec<Instance>) -> ScalingGroup {
    ScalingGroup {
        name: "shop-prod-blue".to_string(),
        min_size: 0,
        max_size: desired,
        desired_capacity: desired,
        instances: members,
        launch_config: "lc-old".to_string(),
        load_balancers: vec!["shop-prod-lb".to_string()],
        suspended_processes: Vec::new(),
        tags: Vec::new(),
    }
}

fn green() -> ScalingGroup {
    ScalingGroup {
        name: "shop-prod-green".to_string(),
        min_size: 3,
        max_size: 3,
        desired_capacity: 3,
        instances: vec![member("i-1"), member("i-2"), member("i-3")],
        launch_config: "lc-old".to_string(),
        load_balancers: vec!["shop-prod-lb".to_string()],
        suspended_processes: Vec::new(),
        tags: Vec::new(),
    }
}

fn sample(minutes: u64, requests: u64, errors: u64, latency: u64) -> MetricSample {
    MetricSample {
        interval_minutes: minutes,
        requests,
        connection_errors: 0,
        backend_errors: errors,
        latency_micros: latency,
    }
}

fn sized(group: &str, n: i64) -> Action {
    Action::UpdateGroup {
        group: group.to_string(),
        update: GroupUpdate {
            min_size: Some(n),
            max_size: Some(n),
            desired_capacity: Some(n),
            launch_config: None,
        },
    }
}

fn configured(group: &str, lc: &str) -> Action {
    Action::UpdateGroup {
        group: group.to_string(),
        update: GroupUpdate {
            min_size: None,
            max_size: None,
            desired_capacity: None,
            launch_config: Some(lc.to_string()),
        },
    }
}

fn metrics(minutes: u64) -> Action {
    Action::SampleMetrics { load_balancer: "shop-prod-lb".to_string(), interval_minutes: minutes }
}

fn describe(group: &str) -> Action {
    Action::DescribeGroup { group: group.to_string() }
}

fn tag(group: &str) -> Action {
    Action::SetVersionTag { group: group.to_string(), version: "1.2.3".to_string() }
}

fn take(run: &mut DeploymentRun, expected: Action, event: Event) {
    assert_eq!(run.pending(), Some(expected));
    run.report(event);
}

fn launch_canary(run: &mut DeploymentRun) {
    take(run, metrics(5), Event::Sample { sample: sample(5, 1000, 1, 100_000) });
    take(run, describe("shop-prod-blue"), Event::Groups { found: vec![blue(0, Vec::new())] });
    take(run, create(), Event::Accepted);
    take(run, configured("shop-prod-blue", "lc-new"), Event::Accepted);
    take(run, tag("shop-prod-blue"), Event::Accepted);
    take(
        run,
        Action::CountInService { load_balancer: "shop-prod-lb".to_string() },
        Event::InService { count: 3 },
    );
    take(run, sized("shop-prod-blue", 1), Event::Accepted);
    assert_eq!(
        run.pending(),
        Some(Action::AwaitInService {
            load_balancer: "shop-prod-lb".to_string(),
            target: 4,
            timeout_seconds: 600,
        })
    );
}

fn watch_canary(run: &mut DeploymentRun, verdict: MetricSample) {
    run.report(Event::Converged { reached: true });
    for round in 0..4u8 {
        assert_eq!(run.step(), Step::MonitorSample { round });
        take(run, metrics(1), Event::Sample { sample: sample(1, 10, 0, 1000) });
        assert_eq!(run.step(), Step::MonitorPause { round });
        take(run, Action::Pause { seconds: 60 }, Event::Accepted);
    }
    assert_eq!(run.step(), Step::VerdictSample);
    take(run, metrics(5), Event::Sample { sample: verdict });
}

fn rotate_green(run: &mut DeploymentRun) -> Vec<Action> {
    take(run, describe("shop-prod-green"), Event::Groups { found: vec![green()] });
    take(run, configured("shop-prod-green", "lc-new"), Event::Accepted);
    take(run, tag("shop-prod-green"), Event::Accepted);
    take(run, describe("shop-prod-green"), Event::Groups { found: vec![green()] });
    let mut seen = Vec::new();
    while let Some(action) = run.pending() {
        let event = match &action {
            Action::AwaitInService { .. } => Event::Converged { reached: true },
            _ => Event::Accepted,
        };
        seen.push(action);
        run.report(event);
    }
    seen
}

#[test]
fn a_healthy_canary_leads_to_the_full_rotation() {
    let mut run = begin(false);
    assert_eq!(run.step(), Step::BaselineSample);
    assert_eq!(run.load_balancer(), "shop-prod-lb");
    launch_canary(&mut run);
    watch_canary(&mut run, sample(5, 1000, 10, 500_000));
    assert_eq!(run.breach(), None);
    assert_eq!(run.baseline(), Some(sample(5, 1000, 1, 100_000)));
    assert_eq!(run.verdict(), Some(sample(5, 1000, 10, 500_000)));
    assert_eq!(run.step(), Step::ReadGreen);
    let seen = rotate_green(&mut run);
    assert_eq!(run.step(), Step::Done);
    assert_eq!(seen.len(), 3 + 2 * 3 - 1 + 2);
    let killed = seen.iter().filter(|a| matches!(a, Action::TerminateInstance { .. })).count();
    assert_eq!(killed, 3);
    assert_eq!(run.pending(), None);
}

#[test]
fn canary_timeout_rolls_blue_back_and_aborts() {
    let mut run = begin(false);
    launch_canary(&mut run);
    run.report(Event::Converged { reached: false });
    take(&mut run, sized("shop-prod-blue", 0), Event::Accepted);
    take(&mut run, configured("shop-prod-blue", "lc-old"), Event::Accepted);
    assert_eq!(run.step(), Step::Failed { error: DeployError::CanaryTimeout });
    assert_eq!(run.pending(), None);
    run.report(Event::Accepted);
    assert_eq!(run.step(), Step::Failed { error: DeployError::CanaryTimeout });
}

#[test]
fn a_failed_rollback_surfaces_the_providers_error() {
    let mut run = begin(false);
    launch_canary(&mut run);
    run.report(Event::Converged { reached: false });
    take(
        &mut run,
        sized("shop-prod-blue", 0),
        Event::Rejected { message: "Throttling".to_string() },
    );
    assert_eq!(run.step(), Step::Failed { error: DeployError::RemoteCall });
    assert_eq!(run.detail(), "Throttling");
}

#[test]
fn busy_blue_group_aborts_before_any_change() {
    let mut run = begin(false);
    take(&mut run, metrics(5), Event::Sample { sample: sample(5, 0, 0, 0) });
    take(
        &mut run,
        describe("shop-prod-blue"),
        Event::Groups { found: vec![blue(2, Vec::new())] },
    );
    assert_eq!(run.step(), Step::Failed { error: DeployError::BlueNotIdle });
    assert_eq!(run.pending(), None);

    let mut other = begin(false);
    other.report(Event::Sample { sample: sample(5, 0, 0, 0) });
    other.report(Event::Groups { found: vec![blue(0, vec![member("i-9")])] });
    assert_eq!(other.step(), Step::Failed { error: DeployError::BlueNotIdle });
}

#[test]
fn blue_group_must_exist_and_be_unique() {
    let mut run = begin(false);
    run.report(Event::Sample { sample: sample(5, 0, 0, 0) });
    run.report(Event::Groups { found: Vec::new() });
    assert_eq!(run.step(), Step::Failed { error: DeployError::NotFound });
    let mut other = begin(false);
    other.report(Event::Sample { sample: sample(5, 0, 0, 0) });
    other.report(Event::Groups { found: vec![blue(0, Vec::new()), blue(0, Vec::new())] });
    assert_eq!(other.step(), Step::Failed { error: DeployError::Ambiguous });
}

#[test]
fn error_rate_breach_resizes_blue_to_zero_then_rotates() {
    let mut run = begin(false);
    launch_canary(&mut run);
    watch_canary(&mut run, sample(5, 1000, 11, 500_000));
    assert_eq!(run.breach(), Some(ThresholdBreach::ErrorRate));
    assert_eq!(run.step(), Step::RollBack);
    assert_eq!(run.step().phase(), Phase::Rollback);
    take(&mut run, sized("shop-prod-blue", 0), Event::Accepted);
    assert_eq!(run.step(), Step::ReadGreen);
    rotate_green(&mut run);
    assert_eq!(run.step(), Step::Done);
    assert_eq!(run.breach(), Some(ThresholdBreach::ErrorRate));
}

#[test]
fn latency_breach_and_double_breach_are_told_apart() {
    let mut run = begin(false);
    launch_canary(&mut run);
    watch_canary(&mut run, sample(5, 1000, 0, 500_001));
    assert_eq!(run.breach(), Some(ThresholdBreach::Latency));
    let mut both = begin(false);
    launch_canary(&mut both);
    watch_canary(&mut both, sample(5, 100, 50, 900_000));
    assert_eq!(both.breach(), Some(ThresholdBreach::ErrorRateAndLatency));
    take(&mut both, sized("shop-prod-blue", 0), Event::Accepted);
    assert_eq!(both.step(), Step::ReadGreen);
}

#[test]
fn forced_deployment_skips_baseline_monitor_and_thresholds() {
    let mut run = begin(true);
    assert_eq!(run.step(), Step::ReadBlue);
    take(
        &mut run,
        describe("shop-prod-blue"),
        Event::Groups { found: vec![blue(2, vec![member("i-7"), member("i-8")])] },
    );
    take(&mut run, create(), Event::Accepted);
    take(&mut run, configured("shop-prod-blue", "lc-new"), Event::Accepted);
    take(&mut run, tag("shop-prod-blue"), Event::Accepted);
    run.report(Event::InService { count: 5 });
    take(&mut run, sized("shop-prod-blue", 1), Event::Accepted);
    assert_eq!(
        run.pending(),
        Some(Action::AwaitInService {
            load_balancer: "shop-prod-lb".to_string(),
            target: 6,
            timeout_seconds: 600,
        })
    );
    run.report(Event::Converged { reached: true });
    assert_eq!(run.step(), Step::ReadGreen);
    assert_eq!(run.baseline(), None);
    assert_eq!(run.verdict(), None);
    rotate_green(&mut run);
    assert_eq!(run.step(), Step::Done);
}

#[test]
fn replace_all_rotates_in_one_batch_as_large_as_the_group() {
    let mut deploy = request(true);
    deploy.strategy = Strategy::ReplaceAll;
    deploy.batch = 1;
    let mut run = do_deployment_cmd(&universe(), deploy, launch()).unwrap();
    run.report(Event::Groups { found: vec![blue(0, Vec::new())] });
    run.report(Event::Accepted);
    run.report(Event::Accepted);
    run.report(Event::Accepted);
    run.report(Event::InService { count: 3 });
    run.report(Event::Accepted);
    run.report(Event::Converged { reached: true });
    let seen = rotate_green(&mut run);
    assert_eq!(run.step(), Step::Done);
    let waits = seen.iter().filter(|a| matches!(a, Action::AwaitInService { .. })).count();
    assert_eq!(waits, 1);
    assert_eq!(
        seen[3],
        Action::AwaitInService {
            load_balancer: "shop-prod-lb".to_string(),
            target: 6,
            timeout_seconds: 900,
        }
    );
}

#[test]
fn a_rotation_that_cannot_start_fails_the_deployment() {
    let mut run = begin(true);
    run.report(Event::Groups { found: vec![blue(0, Vec::new())] });
    run.report(Event::Accepted);
    run.report(Event::Accepted);
    run.report(Event::Accepted);
    run.report(Event::InService { count: 3 });
    run.report(Event::Accepted);
    run.report(Event::Converged { reached: true });
    run.report(Event::Groups { found: vec![green()] });
    run.report(Event::Accepted);
    run.report(Event::Accepted);
    let mut empty = green();
    empty.instances = Vec::new();
    run.report(Event::Groups { found: vec![empty] });
    assert_eq!(
        run.step(),
        Step::Failed { error: DeployError::Rotation(RotationError::NothingToRotate) }
    );
}

#[test]
fn a_drain_timeout_in_the_rotation_fails_the_deployment() {
    let mut run = begin(true);
    run.report(Event::Groups { found: vec![blue(0, Vec::new())] });
    run.report(Event::Accepted);
    run.report(Event::Accepted);
    run.report(Event::Accepted);
    run.report(Event::InService { count: 3 });
    run.report(Event::Accepted);
    run.report(Event::Converged { reached: true });
    run.report(Event::Groups { found: vec![green()] });
    run.report(Event::Accepted);
    run.report(Event::Accepted);
    run.report(Event::Groups { found: vec![green()] });
    assert_eq!(run.step(), Step::Rotate);
    run.report(Event::Accepted);
    run.report(Event::Accepted);
    run.report(Event::Accepted);
    run.report(Event::Converged { reached: false });
    assert_eq!(
        run.step(),
        Step::Failed { error: DeployError::Rotation(RotationError::DrainTimeout) }
    );
}

#[test]
fn rejected_metric_reads_count_as_quiet_windows() {
    let mut run = begin(false);
    run.report(Event::Rejected { message: "no metrics".to_string() });
    assert_eq!(run.step(), Step::ReadBlue);
    assert_eq!(run.baseline(), Some(sample(5, 0, 0, 0)));
    let mut other = begin(false);
    launch_canary(&mut other);
    other.report(Event::Converged { reached: true });
    for _ in 0..4 {
        other.report(Event::Rejected { message: "no metrics".to_string() });
        other.report(Event::Accepted);
    }
    other.report(Event::Rejected { message: "no metrics".to_string() });
    assert_eq!(other.verdict(), Some(sample(5, 0, 0, 0)));
    assert_eq!(other.breach(), None);
    assert_eq!(other.step(), Step::ReadGreen);
}

#[test]
fn rejected_calls_and_wrong_events_fail_the_deployment() {
    let mut run = begin(false);
    run.report(Event::Sample { sample: sample(5, 0, 0, 0) });
    run.report(Event::Rejected { message: "AccessDenied".to_string() });
    assert_eq!(run.step(), Step::Failed { error: DeployError::RemoteCall });
    assert_eq!(run.detail(), "AccessDenied");
    let mut other = begin(false);
    other.report(Event::Accepted);
    assert_eq!(other.step(), Step::Failed { error: DeployError::UnexpectedEvent });
    let mut third = begin(true);
    third.report(Event::Groups { found: vec![blue(0, Vec::new())] });
    third.report(Event::Accepted);
    third.report(Event::Accepted);
    third.report(Event::Accepted);
    third.report(Event::InService { count: u64::MAX });
    assert_eq!(third.step(), Step::Failed { error: DeployError::UnexpectedEvent });
}

#[test]
fn requests_are_checked_against_the_registry() {
    let u = universe();
    let mut d = request(false);
    d.application = "blog".to_string();
    assert_eq!(d.validate(&u), Err(ConfigError::UnknownApplication));
    assert_eq!(
        do_deployment_cmd(&u, d, launch()).err(),
        Some(ConfigError::UnknownApplication)
    );
    let mut d = request(false);
    d.environment = "qa".to_string();
    assert_eq!(d.validate(&u), Err(ConfigError::UnknownEnvironment));
    let mut d = request(false);
    d.version = "v".repeat(256);
    assert_eq!(d.validate(&u), Err(ConfigError::VersionTooLong));
    let mut d = request(false);
    d.version = "\u{00e9}".repeat(255);
    assert_eq!(d.validate(&u), Ok(()));
    let mut d = request(false);
    d.healthcheck_timeout = u64::MAX / 60 + 1;
    assert_eq!(d.validate(&u), Err(ConfigError::TimeoutTooLong));
    let mut d = request(false);
    d.environment = "dev".to_string();
    assert_eq!(d.validate(&u), Ok(()));
    assert_eq!(
        do_deployment_cmd(&u, d, launch()).err(),
        Some(ConfigError::MissingLoadBalancer)
    );
}

#[test]
fn strategy_names() {
    assert_eq!(strategy_of("replacement"), Strategy::ReplaceAll);
    assert_eq!(strategy_of("batch"), Strategy::FixedBatch);
    assert_eq!(strategy_of(""), Strategy::FixedBatch);
}

#[test]
fn steps_belong_to_phases() {
    assert_eq!(Step::BaselineSample.phase(), Phase::Baseline);
    assert_eq!(Step::AwaitCanary.phase(), Phase::CanaryLaunch);
    assert_eq!(Step::MonitorPause { round: 3 }.phase(), Phase::CanaryMonitor);
    assert_eq!(Step::Rotate.phase(), Phase::FullRotation);
    assert_eq!(Step::Done.phase(), Phase::Done);
    assert_eq!(Step::Failed { error: DeployError::NotFound }.phase(), Phase::Failed);
}

fn up_to_green(force: bool) -> DeploymentRun {
    let mut run = begin(force);
    if !force {
        run.report(Event::Sample { sample: sample(5, 0, 0, 0) });
    }
    run.report(Event::Groups { found: vec![blue(0, Vec::new())] });
    run.report(Event::Accepted);
    run.report(Event::Accepted);
    run.report(Event::Accepted);
    run.report(Event::InService { count: 0 });
    run.report(Event::Accepted);
    run.report(Event::Converged { reached: true });
    assert_eq!(run.step(), Step::ReadGreen);
    run
}

#[test]
fn green_group_must_exist_and_be_unique() {
    let mut run = up_to_green(true);
    run.report(Event::Groups { found: Vec::new() });
    assert_eq!(run.step(), Step::Failed { error: DeployError::NotFound });
    let mut other = up_to_green(true);
    other.report(Event::Groups { found: vec![green(), green()] });
    assert_eq!(other.step(), Step::Failed { error: DeployError::Ambiguous });
    let mut third = up_to_green(true);
    third.report(Event::Groups { found: vec![green()] });
    third.report(Event::Accepted);
    third.report(Event::Accepted);
    third.report(Event::Groups { found: Vec::new() });
    assert_eq!(third.step(), Step::Failed { error: DeployError::Rotation(RotationError::NotFound) });
}

#[test]
fn the_rotation_of_a_deployment_can_be_looked_at() {
    let mut run = up_to_green(true);
    assert!(run.rotation().is_none());
    assert_eq!(run.deploy().version, "1.2.3");
    run.report(Event::Groups { found: vec![green()] });
    run.report(Event::Accepted);
    run.report(Event::Accepted);
    run.report(Event::Groups { found: vec![green()] });
    let rotation = run.rotation().unwrap();
    assert_eq!(rotation.plan().batch_size, 2);
    assert_eq!(rotation.plan().candidates, vec!["i-1", "i-2", "i-3"]);
    assert_eq!(rotation.plan().raised_desired, 5);
    assert!(rotation.plan().is_valid());
}

#[test]
fn the_launch_configuration_is_created_only_after_blue_was_found_idle() {
    let mut run = begin(false);
    assert_eq!(run.pending(), Some(metrics(5)));
    run.report(Event::Sample { sample: sample(5, 0, 0, 0) });
    assert_eq!(run.pending(), Some(describe("shop-prod-blue")));
    run.report(Event::Groups { found: vec![blue(0, Vec::new())] });
    assert_eq!(run.step(), Step::CreateConfig);
    assert_eq!(run.step().phase(), Phase::CanaryLaunch);
    assert_eq!(run.pending(), Some(create()));
    run.report(Event::Rejected { message: "AlreadyExists".to_string() });
    assert_eq!(run.step(), Step::Failed { error: DeployError::RemoteCall });
    assert_eq!(run.detail(), "AlreadyExists");

    let mut busy = begin(false);
    let mut asked = Vec::new();
    asked.push(busy.pending().unwrap());
    busy.report(Event::Sample { sample: sample(5, 0, 0, 0) });
    asked.push(busy.pending().unwrap());
    busy.report(Event::Groups { found: vec![blue(1, Vec::new())] });
    assert_eq!(busy.pending(), None);
    assert_eq!(asked, vec![metrics(5), describe("shop-prod-blue")]);
}
