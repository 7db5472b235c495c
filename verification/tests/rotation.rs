use fleet_deploy::command::{Action, Event, GroupUpdate};
use fleet_deploy::fleet::{Instance, ScalingGroup};
use fleet_deploy::rotation::{
    exit_status, has_blocked, is_required_process, paused_process_names, rotate_instances,
    select_candidates, Rotation, RotationBatch, RotationError, RotationPlan, RotationStatus,
};

fn member(id: &str, state: &str) -> Instance {
    Instance { id: id.to_string(), lifecycle_state: state.to_string() }
}

fn group(max: i64, desired: i64, members: Vec<Instance>, lbs: &[&str]) -> ScalingGroup {
    ScalingGroup {
        name: "shop-prod-green".to_string(),
        min_size: 0,
        max_size: max,
        desired_capacity: desired,
        instances: members,
        launch_config: "lc-1".to_string(),
        load_balancers: lbs.iter().map(|s| s.to_string()).collect(),
        suspended_processes: Vec::new(),
        tags: Vec::new(),
    }
}

fn four_members() -> Vec<Instance> {
    vec![
        member("i-1", "InService"),
        member("i-2", "InService"),
        member("i-3", "InService"),
        member("i-4", "InService"),
    ]
}

fn paused() -> Vec<String> {
    vec![
        "ReplaceUnhealthy".to_string(),
        "AlarmNotification".to_string(),
        "ScheduledActions".to_string(),
        "AZRebalance".to_string(),
    ]
}

fn update(max: Option<i64>, desired: Option<i64>) -> Action {
    Action::UpdateGroup {
        group: "shop-prod-green".to_string(),
        update: GroupUpdate {
            min_size: None,
            max_size: max,
            desired_capacity: desired,
            launch_config: None,
        },
    }
}

fn wait(lb: &str, target: u64) -> Action {
    Action::AwaitInService { load_balancer: lb.to_string(), target, timeout_seconds: 900 }
}

fn kill(id: &str) -> Action {
    Action::TerminateInstance {
        group: "shop-prod-green".to_string(),
        instance_id: id.to_string(),
        decrement_desired: false,
    }
}

fn answer(action: &Action) -> Event {
    match action {
        Action::AwaitInService { .. } => Event::Converged { reached: true },
        _ => Event::Accepted,
    }
}

fn run_to_end(run: &mut Rotation) -> Vec<Action> {
    let mut seen = Vec::new();
    while let Some(action) = run.pending() {
        let event = answer(&action);
        seen.push(action);
        run.report(event);
    }
    seen
}

#[test]
fn four_members_two_load_balancers_batches_of_two() {
    let found = vec![group(4, 4, four_members(), &["lb-a", "lb-b"])];
    let mut run = rotate_instances(&found, 2).unwrap();
    let seen = run_to_end(&mut run);
    let expected = vec![
        Action::SuspendProcesses { group: "shop-prod-green".to_string(), processes: paused() },
        update(Some(6), None),
        update(None, Some(6)),
        wait("lb-a", 6),
        wait("lb-b", 6),
        kill("i-1"),
        kill("i-2"),
        wait("lb-a", 6),
        wait("lb-b", 6),
        kill("i-3"),
        kill("i-4"),
        update(Some(4), Some(4)),
        Action::ResumeProcesses { group: "shop-prod-green".to_string(), processes: paused() },
    ];
    assert_eq!(seen, expected);
    assert_eq!(run.status(), RotationStatus::Completed);
    assert_eq!(run.completed_actions(), 13);
    assert_eq!(run.plan().initial_max, 4);
    assert_eq!(run.plan().initial_desired, 4);
}

#[test]
fn no_more_than_a_batch_is_terminated_between_waits() {
    let members = vec![
        member("i-1", "InService"),
        member("i-2", "InService"),
        member("i-3", "InService"),
        member("i-4", "InService"),
        member("i-5", "InService"),
    ];
    let found = vec![group(10, 5, members, &["lb-a"])];
    let mut run = rotate_instances(&found, 2).unwrap();
    let seen = run_to_end(&mut run);
    let mut since_wait = 0;
    let mut longest = 0;
    let mut killed = Vec::new();
    for action in &seen {
        match action {
            Action::AwaitInService { .. } => since_wait = 0,
            Action::TerminateInstance { instance_id, decrement_desired, .. } => {
                assert!(!decrement_desired);
                since_wait += 1;
                if since_wait > longest {
                    longest = since_wait;
                }
                killed.push(instance_id.clone());
            }
            _ => {}
        }
    }
    assert_eq!(longest, 2);
    assert_eq!(killed, vec!["i-1", "i-2", "i-3", "i-4", "i-5"]);
}

#[test]
fn maximum_is_left_alone_when_it_has_room() {
    let found = vec![group(10, 4, four_members(), &["lb-a"])];
    let mut run = rotate_instances(&found, 2).unwrap();
    let seen = run_to_end(&mut run);
    assert_eq!(seen[1], update(None, Some(6)));
    assert_eq!(seen[seen.len() - 2], update(Some(10), Some(4)));
}

#[test]
fn only_members_in_service_are_candidates() {
    let members = vec![
        member("i-1", "Pending"),
        member("i-2", "InService"),
        member("i-3", "Terminating"),
        member("i-4", "InService"),
        member("i-5", "inservice"),
    ];
    assert_eq!(select_candidates(&members), vec!["i-2", "i-4"]);
    let found = vec![group(5, 5, members, &["lb-a"])];
    let mut run = rotate_instances(&found, 5).unwrap();
    let seen = run_to_end(&mut run);
    let killed: Vec<&Action> = seen
        .iter()
        .filter(|a| matches!(a, Action::TerminateInstance { .. }))
        .collect();
    assert_eq!(killed, vec![&kill("i-2"), &kill("i-4")]);
}

#[test]
fn a_completed_rotation_restores_the_group() {
    let mut live = group(4, 4, four_members(), &["lb-a", "lb-b"]);
    let found = vec![live.clone()];
    let mut run = rotate_instances(&found, 3).unwrap();
    let mut suspended = false;
    while let Some(action) = run.pending() {
        match &action {
            Action::UpdateGroup { update, .. } => {
                assert!(live.apply_update(update));
                assert!(live.is_bounded());
                assert!(live.desired_capacity >= 4);
            }
            Action::SuspendProcesses { .. } => suspended = true,
            Action::ResumeProcesses { .. } => suspended = false,
            _ => {}
        }
        let event = answer(&action);
        run.report(event);
    }
    assert_eq!(run.status(), RotationStatus::Completed);
    assert!(!suspended);
    assert_eq!(live.max_size, 4);
    assert_eq!(live.desired_capacity, 4);
    assert_eq!(live.min_size, 0);
}

#[test]
fn rotation_needs_exactly_one_group() {
    let none: Vec<ScalingGroup> = Vec::new();
    assert_eq!(rotate_instances(&none, 2).err(), Some(RotationError::NotFound));
    let two = vec![group(4, 4, four_members(), &[]), group(4, 4, four_members(), &[])];
    assert_eq!(rotate_instances(&two, 2).err(), Some(RotationError::Ambiguous));
}

#[test]
fn a_group_without_members_has_nothing_to_rotate() {
    let found = vec![group(4, 0, Vec::new(), &["lb-a"])];
    assert_eq!(rotate_instances(&found, 2).err(), Some(RotationError::NothingToRotate));
    assert_eq!(exit_status(Some(RotationError::NothingToRotate)), 2);
    assert_eq!(exit_status(Some(RotationError::DrainTimeout)), 101);
    assert_eq!(exit_status(None), 0);
}

#[test]
fn a_suspended_required_process_stops_the_start() {
    let mut g = group(4, 4, four_members(), &["lb-a"]);
    g.suspended_processes = vec!["AZRebalance".to_string(), "Launch".to_string()];
    assert_eq!(rotate_instances(&vec![g], 2).err(), Some(RotationError::ProcessNotActive));
    let mut ok = group(4, 4, four_members(), &["lb-a"]);
    ok.suspended_processes = vec!["AZRebalance".to_string()];
    assert!(rotate_instances(&vec![ok], 2).is_ok());
    for name in
        ["RemoveFromLoadBalancerLowPriority", "Terminate", "Launch", "HealthCheck", "AddToLoadBalancer"]
    {
        assert!(is_required_process(name));
    }
    assert!(!is_required_process("ReplaceUnhealthy"));
    assert!(has_blocked(&vec!["x".to_string(), "Terminate".to_string()]));
    assert!(!has_blocked(&paused_process_names()));
    assert_eq!(paused_process_names(), paused());
}

#[test]
fn batch_size_must_be_positive_and_in_range() {
    let found = vec![group(4, 4, four_members(), &["lb-a"])];
    assert_eq!(rotate_instances(&found, 0).err(), Some(RotationError::InvalidBatchSize));
    let top = vec![group(i64::MAX, i64::MAX, four_members(), &["lb-a"])];
    assert_eq!(rotate_instances(&top, 1).err(), Some(RotationError::InvalidBatchSize));
}

#[test]
fn unordered_bounds_are_refused() {
    let found = vec![group(3, 4, four_members(), &["lb-a"])];
    assert_eq!(rotate_instances(&found, 2).err(), Some(RotationError::MalformedGroup));
}

#[test]
fn a_drain_timeout_stops_the_rotation_where_it_stands() {
    let found = vec![group(4, 4, four_members(), &["lb-a"])];
    let mut run = rotate_instances(&found, 2).unwrap();
    run.report(Event::Accepted);
    run.report(Event::Accepted);
    run.report(Event::Accepted);
    assert_eq!(run.pending(), Some(wait("lb-a", 6)));
    run.report(Event::Converged { reached: false });
    assert_eq!(run.status(), RotationStatus::Aborted(RotationError::DrainTimeout));
    assert_eq!(run.pending(), None);
    assert_eq!(run.completed_actions(), 3);
    run.report(Event::Accepted);
    assert_eq!(run.status(), RotationStatus::Aborted(RotationError::DrainTimeout));
    assert_eq!(run.completed_actions(), 3);
}

#[test]
fn a_rejected_call_stops_the_rotation_with_the_providers_words() {
    let found = vec![group(4, 4, four_members(), &["lb-a"])];
    let mut run = rotate_instances(&found, 2).unwrap();
    run.report(Event::Rejected { message: "ValidationError".to_string() });
    assert_eq!(run.status(), RotationStatus::Aborted(RotationError::RemoteCall));
    assert_eq!(run.detail(), "ValidationError");
    assert_eq!(run.completed_actions(), 0);
}

#[test]
fn an_event_of_the_wrong_kind_stops_the_rotation() {
    let found = vec![group(4, 4, four_members(), &["lb-a"])];
    let mut run = rotate_instances(&found, 2).unwrap();
    run.report(Event::Converged { reached: true });
    assert_eq!(run.status(), RotationStatus::Aborted(RotationError::UnexpectedEvent));
    let mut other = rotate_instances(&found, 2).unwrap();
    other.report(Event::Accepted);
    other.report(Event::Accepted);
    other.report(Event::Accepted);
    other.report(Event::Accepted);
    assert_eq!(other.status(), RotationStatus::Aborted(RotationError::UnexpectedEvent));
    let mut third = rotate_instances(&found, 2).unwrap();
    third.report(Event::InService { count: 3 });
    assert_eq!(third.status(), RotationStatus::Aborted(RotationError::UnexpectedEvent));
}

#[test]
fn a_group_without_load_balancers_has_nothing_terminated() {
    let found = vec![group(4, 4, four_members(), &[])];
    let mut run = rotate_instances(&found, 2).unwrap();
    assert_eq!(run.plan().candidates, vec!["i-1", "i-2", "i-3", "i-4"]);
    assert_eq!(run.plan().batches(), Vec::new());
    let seen = run_to_end(&mut run);
    assert_eq!(
        seen,
        vec![
            Action::SuspendProcesses { group: "shop-prod-green".to_string(), processes: paused() },
            update(Some(6), None),
            update(None, Some(6)),
            update(Some(4), Some(4)),
            Action::ResumeProcesses { group: "shop-prod-green".to_string(), processes: paused() },
        ]
    );
    assert_eq!(run.status(), RotationStatus::Completed);
    assert_eq!(run.plan().script(), seen);
}

fn longest_stretch_without_wait(seen: &[Action]) -> (usize, bool) {
    let mut waited = false;
    let mut early = false;
    let mut since_wait = 0;
    let mut longest = 0;
    for action in seen {
        match action {
            Action::AwaitInService { .. } => {
                waited = true;
                since_wait = 0;
            }
            Action::TerminateInstance { .. } => {
                if !waited {
                    early = true;
                }
                since_wait += 1;
                if since_wait > longest {
                    longest = since_wait;
                }
            }
            _ => {}
        }
    }
    (longest, early)
}

#[test]
fn no_member_is_terminated_before_a_wait_whatever_the_load_balancers() {
    for lbs in [&[][..], &["lb-a"][..], &["lb-a", "lb-b"][..], &["lb-a", "lb-b", "lb-c"][..]] {
        for batch in 1..7usize {
            let members = vec![
                member("i-1", "InService"),
                member("i-2", "InService"),
                member("i-3", "Pending"),
                member("i-4", "InService"),
                member("i-5", "InService"),
                member("i-6", "InService"),
            ];
            let found = vec![group(6, 6, members, lbs)];
            let mut run = rotate_instances(&found, batch).unwrap();
            let seen = run_to_end(&mut run);
            let (longest, early) = longest_stretch_without_wait(&seen);
            assert!(!early);
            assert!(longest <= batch);
            let killed = seen.iter().filter(|a| matches!(a, Action::TerminateInstance { .. })).count();
            assert_eq!(killed, if lbs.is_empty() { 0 } else { 5 });
            assert_eq!(run.status(), RotationStatus::Completed);
        }
    }
}

#[test]
fn batches_take_the_candidates_in_order() {
    let members = vec![
        member("i-1", "InService"),
        member("i-2", "InService"),
        member("i-3", "Pending"),
        member("i-4", "InService"),
        member("i-5", "InService"),
        member("i-6", "InService"),
    ];
    let found = vec![group(10, 6, members, &["lb-a", "lb-b"])];
    let run = rotate_instances(&found, 2).unwrap();
    let batch = |ids: &[&str]| RotationBatch {
        instance_ids: ids.iter().map(|s| s.to_string()).collect(),
        load_balancers: vec!["lb-a".to_string(), "lb-b".to_string()],
    };
    assert_eq!(
        run.plan().batches(),
        vec![batch(&["i-1", "i-2"]), batch(&["i-4", "i-5"]), batch(&["i-6"])]
    );
    let whole = rotate_instances(&found, 7).unwrap();
    assert_eq!(whole.plan().batches(), vec![batch(&["i-1", "i-2", "i-4", "i-5", "i-6"])]);
    let none = vec![group(4, 4, vec![member("i-1", "Pending")], &["lb-a"])];
    assert_eq!(rotate_instances(&none, 2).unwrap().plan().batches(), Vec::new());
}

#[test]
fn a_plan_is_checked_before_it_is_started() {
    let plan = RotationPlan {
        group: "shop-prod-green".to_string(),
        batch_size: 1,
        initial_max: 2,
        initial_desired: 2,
        raised_desired: 3,
        candidates: vec!["i-1".to_string(), "i-2".to_string()],
        load_balancers: vec!["lb-a".to_string()],
    };
    assert!(plan.is_valid());
    let mut zero = plan.clone();
    zero.batch_size = 0;
    assert!(!zero.is_valid());
    let mut off = plan.clone();
    off.raised_desired = 4;
    assert!(!off.is_valid());
    let mut unordered = plan.clone();
    unordered.initial_max = 1;
    assert!(!unordered.is_valid());
    let mut negative = plan.clone();
    negative.initial_desired = -1;
    negative.raised_desired = 0;
    assert!(!negative.is_valid());
    let mut top = plan.clone();
    top.initial_desired = i64::MAX;
    top.initial_max = i64::MAX;
    assert!(!top.is_valid());
    let mut run = Rotation::start(plan.clone());
    assert_eq!(run.status(), RotationStatus::Running);
    assert_eq!(run.plan(), &plan);
    let seen = run_to_end(&mut run);
    assert_eq!(
        seen,
        vec![
            Action::SuspendProcesses { group: "shop-prod-green".to_string(), processes: paused() },
            update(Some(3), None),
            update(None, Some(3)),
            wait("lb-a", 3),
            kill("i-1"),
            wait("lb-a", 3),
            kill("i-2"),
            update(Some(2), Some(2)),
            Action::ResumeProcesses { group: "shop-prod-green".to_string(), processes: paused() },
        ]
    );
}
