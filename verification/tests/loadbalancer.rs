use fleet_deploy::fleet::Tag;
use fleet_deploy::loadbalancer::{
    elb_status, in_service, replay_wait, wait_for_in_service, InstanceHealth, Round, WaitStep,
};

fn health(id: &str, state: &str) -> InstanceHealth {
    InstanceHealth { instance_id: id.to_string(), state: state.to_string() }
}

fn round(elapsed: u64, count: u64) -> Round {
    Round { elapsed, count }
}

#[test]
fn only_in_service_states_are_counted() {
    let states = vec![
        health("i-1", "InService"),
        health("i-2", "OutOfService"),
        health("i-3", "InService"),
        health("i-4", ""),
        health("i-5", "Unknown"),
    ];
    assert_eq!(in_service(&states), 2);
    assert_eq!(in_service(&Vec::new()), 0);
}

#[test]
fn a_round_probes_until_time_has_run_out() {
    assert_eq!(wait_for_in_service(3, 900, 0, None), WaitStep::Probe);
    assert_eq!(wait_for_in_service(3, 900, 899, None), WaitStep::Probe);
    assert_eq!(wait_for_in_service(3, 900, 900, None), WaitStep::Done { reached: false });
    assert_eq!(wait_for_in_service(3, 900, 901, None), WaitStep::Done { reached: false });
    assert_eq!(wait_for_in_service(3, 0, 0, None), WaitStep::Done { reached: false });
}

#[test]
fn a_probe_ends_the_wait_or_pauses_fifteen_seconds() {
    assert_eq!(wait_for_in_service(3, 900, 10, Some(3)), WaitStep::Done { reached: true });
    assert_eq!(wait_for_in_service(3, 900, 10, Some(2)), WaitStep::Pause { seconds: 15 });
    assert_eq!(wait_for_in_service(3, 900, 10, Some(4)), WaitStep::Pause { seconds: 15 });
}

#[test]
fn a_wait_is_true_when_the_target_is_seen_before_the_timeout() {
    let rounds = vec![round(0, 1), round(15, 2), round(30, 3), round(45, 3)];
    assert_eq!(replay_wait(3, 60, &rounds), Some(true));
    assert_eq!(replay_wait(3, 31, &rounds), Some(true));
    assert_eq!(replay_wait(1, 1, &rounds), Some(true));
}

#[test]
fn a_wait_is_false_when_time_runs_out_first() {
    let rounds = vec![round(0, 1), round(15, 2), round(30, 3), round(45, 3)];
    assert_eq!(replay_wait(3, 30, &rounds), Some(false));
    assert_eq!(replay_wait(3, 0, &rounds), Some(false));
    assert_eq!(replay_wait(9, 45, &rounds), Some(false));
}

#[test]
fn a_wait_is_undecided_while_neither_happened() {
    let rounds = vec![round(0, 1), round(15, 2)];
    assert_eq!(replay_wait(3, 60, &rounds), None);
    assert_eq!(replay_wait(3, 60, &Vec::new()), None);
}

#[test]
fn a_status_line_takes_its_labels_from_the_tags() {
    let tags = vec![
        Tag { key: "Name".to_string(), value: "shop-prod-1".to_string() },
        Tag { key: "aws:autoscaling:groupName".to_string(), value: "shop-prod-green".to_string() },
        Tag { key: "other".to_string(), value: "x".to_string() },
    ];
    let line = elb_status(&health("i-1", "InService"), "2019-01-01T00:00:00Z", "10.0.0.1", &tags);
    assert_eq!(line.id, "i-1");
    assert_eq!(line.health, "InService");
    assert_eq!(line.name, "shop-prod-1");
    assert_eq!(line.version, "");
    assert_eq!(line.asg, "shop-prod-green");
    assert_eq!(line.address, "10.0.0.1");
    assert_eq!(line.uptime, "2019-01-01T00:00:00Z");
}
