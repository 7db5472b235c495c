//! Instance health behind a load balancer, and the bounded wait for a
//! number of instances in service.

use vstd::prelude::*;
use crate::fleet::{in_service_state, last_value, tag_value, Tag};
use crate::text::same_text;

verus! {

/// What a load balancer reports of one registered instance.
#[derive(Clone, Debug, PartialEq, Eq)]
pub struct InstanceHealth {
    pub instance_id: String,
    pub state: String,
}

impl View for InstanceHealth {
    type V = (Seq<char>, Seq<char>);

    open spec fn view(&self) -> (Seq<char>, Seq<char>) {
        (self.instance_id@, self.state@)
    }
}

/// The reported states that are the in-service one.
pub open spec fn healthy(states: Seq<(Seq<char>, Seq<char>)>) -> Seq<(Seq<char>, Seq<char>)> {
    states.filter(|s: (Seq<char>, Seq<char>)| s.1 == in_service_state())
}

/// The number of instances that the load balancer reports in service.
pub fn in_service(states: &Vec<InstanceHealth>) -> (count: usize)
    ensures
        count == healthy(states@.map_values(|s: InstanceHealth| s@)).len(),
{
    let ghost models = states@.map_values(|s: InstanceHealth| s@);
    let mut count: usize = 0;
    let mut i: usize = 0;
    while i < states.len()
        invariant
            i <= states.len(),
            models == states@.map_values(|s: InstanceHealth| s@),
            count == healthy(models.take(i as int)).len(),
            count <= i,
        decreases states.len() - i,
    {
        proof {
            reveal(Seq::filter);
            assert(models.take(i + 1).drop_last() =~= models.take(i as int));
            assert(models.take(i + 1).last() == states@[i as int]@);
        }
        if same_text(states[i].state.as_str(), "InService") {
            count += 1;
        }
        i += 1;
    }
    proof {
        assert(models.take(states.len() as int) =~= models);
    }
    count
}

/// Seconds between two probes of a wait.
pub const POLL_SECONDS: u64 = 15;

/// What the driver of a wait does next.
#[derive(Clone, Copy, Debug, PartialEq, Eq, Structural)]
pub enum WaitStep {
    /// Count the instances in service and come back with the count.
    Probe,
    /// Sleep, then start the next round with a fresh reading of the clock.
    Pause { seconds: u64 },
    /// The wait is over: the target was reached, or time ran out, which the
    /// driver logs as a warning.
    Done { reached: bool },
}

/// The next step of a wait for `target` instances within `timeout`
/// seconds. A round starts with the clock at `elapsed` seconds and no
/// count (`observed` is `None`): time has run out when `elapsed` has
/// reached `timeout`, else a probe is due. With the count of that probe,
/// the wait is over when the count equals the target, else the driver
/// pauses for the fixed interval.
pub open spec fn wait_step(target: u64, timeout: u64, elapsed: u64, observed: Option<u64>) -> WaitStep {
    match observed {
        None => if elapsed >= timeout {
            WaitStep::Done { reached: false }
        } else {
            WaitStep::Probe
        },
        Some(count) => if count == target {
            WaitStep::Done { reached: true }
        } else {
            WaitStep::Pause { seconds: POLL_SECONDS }
        },
    }
}

/// Decides the next step of a wait for `target` instances in service
/// within `timeout_seconds`: see [`wait_step`].
pub fn wait_for_in_service(
    target: u64,
    timeout_seconds: u64,
    elapsed_seconds: u64,
    observed: Option<u64>,
) -> (r: WaitStep)
    ensures
        r == wait_step(target, timeout_seconds, elapsed_seconds, observed),
{
    match observed {
        None => {
            if elapsed_seconds >= timeout_seconds {
                WaitStep::Done { reached: false }
            } else {
                WaitStep::Probe
            }
        },
        Some(count) => {
            if count == target {
                WaitStep::Done { reached: true }
            } else {
                WaitStep::Pause { seconds: POLL_SECONDS }
            }
        },
    }
}

/// One round of a wait: the clock when the round began, and the count that
/// a probe made in that round observes.
#[derive(Clone, Copy, Debug, PartialEq, Eq, Structural)]
pub struct Round {
    pub elapsed: u64,
    pub count: u64,
}

/// How a wait ends on the given rounds: `Some(true)` when a round reaches
/// the target, `Some(false)` when a round finds the time run out, `None`
/// when the rounds end before either.
pub open spec fn wait_outcome(target: u64, timeout: u64, rounds: Seq<Round>) -> Option<bool>
    decreases rounds.len(),
{
    if rounds.len() == 0 {
        None
    } else if wait_step(target, timeout, rounds.first().elapsed, None) != WaitStep::Probe {
        Some(false)
    } else if wait_step(target, timeout, rounds.first().elapsed, Some(rounds.first().count))
        == (WaitStep::Done { reached: true }) {
        Some(true)
    } else {
        wait_outcome(target, timeout, rounds.drop_first())
    }
}

/// Runs a wait over recorded rounds, step by step, and tells how it ends.
pub fn replay_wait(target: u64, timeout_seconds: u64, rounds: &Vec<Round>) -> (r: Option<bool>)
    ensures
        r == wait_outcome(target, timeout_seconds, rounds@),
{
    let mut i: usize = 0;
    proof {
        assert(rounds@.skip(0) =~= rounds@);
    }
    while i < rounds.len()
        invariant
            i <= rounds.len(),
            wait_outcome(target, timeout_seconds, rounds@) == wait_outcome(
                target,
                timeout_seconds,
                rounds@.skip(i as int),
            ),
        decreases rounds.len() - i,
    {
        proof {
            assert(rounds@.skip(i as int).first() == rounds@[i as int]);
            assert(rounds@.skip(i as int).drop_first() =~= rounds@.skip(i + 1));
        }
        match wait_for_in_service(target, timeout_seconds, rounds[i].elapsed, None) {
            WaitStep::Probe => {},
            _ => {
                return Some(false);
            },
        }
        match wait_for_in_service(target, timeout_seconds, rounds[i].elapsed, Some(rounds[i].count)) {
            WaitStep::Done { reached } => {
                return Some(reached);
            },
            _ => {},
        }
        i += 1;
    }
    None
}

/// The clock of the rounds never runs backwards.
pub open spec fn clock_monotone(rounds: Seq<Round>) -> bool {
    forall|i: int, j: int| 0 <= i <= j < rounds.len() ==> rounds[i].elapsed <= rounds[j].elapsed
}

/// A wait returns true if and only if some round observes the target
/// count and began strictly before the timeout elapsed.
pub proof fn lemma_wait_reaches_iff(target: u64, timeout: u64, rounds: Seq<Round>)
    requires
        clock_monotone(rounds),
    ensures
        wait_outcome(target, timeout, rounds) == Some(true) <==> exists|i: int|
            0 <= i < rounds.len() && (#[trigger] rounds[i]).count == target && rounds[i].elapsed
                < timeout,
    decreases rounds.len(),
{
    if rounds.len() > 0 {
        let rest = rounds.drop_first();
        assert forall|i: int, j: int| 0 <= i <= j < rest.len() implies rest[i].elapsed
            <= rest[j].elapsed by {
            assert(rest[i] == rounds[i + 1] && rest[j] == rounds[j + 1]);
        }
        lemma_wait_reaches_iff(target, timeout, rest);
        let first = rounds.first();
        if first.elapsed >= timeout {
            assert forall|i: int| 0 <= i < rounds.len() implies !((#[trigger] rounds[i]).count
                == target && rounds[i].elapsed < timeout) by {
                assert(rounds[0].elapsed <= rounds[i].elapsed);
            }
        } else if first.count == target {
            assert(rounds[0].count == target && rounds[0].elapsed < timeout);
        } else {
            if wait_outcome(target, timeout, rest) == Some(true) {
                let i = choose|i: int|
                    0 <= i < rest.len() && (#[trigger] rest[i]).count == target && rest[i].elapsed
                        < timeout;
                assert(rounds[i + 1] == rest[i]);
            }
            if exists|i: int|
                0 <= i < rounds.len() && (#[trigger] rounds[i]).count == target
                    && rounds[i].elapsed < timeout {
                let i = choose|i: int|
                    0 <= i < rounds.len() && (#[trigger] rounds[i]).count == target
                        && rounds[i].elapsed < timeout;
                assert(i > 0);
                assert(rest[i - 1] == rounds[i]);
            }
        }
    }
}

/// Whether round `i` begins when the timeout has elapsed and no round
/// before it did so or observed the target count.
pub open spec fn times_out_at(target: u64, timeout: u64, rounds: Seq<Round>, i: int) -> bool {
    &&& 0 <= i < rounds.len()
    &&& rounds[i].elapsed >= timeout
    &&& forall|j: int|
        0 <= j < i ==> (#[trigger] rounds[j]).elapsed < timeout && rounds[j].count != target
}

/// A wait returns false if and only if some round begins when the timeout
/// has elapsed and no round before it observed the target count.
pub proof fn lemma_wait_times_out_iff(target: u64, timeout: u64, rounds: Seq<Round>)
    ensures
        wait_outcome(target, timeout, rounds) == Some(false) <==> exists|i: int|
            times_out_at(target, timeout, rounds, i),
    decreases rounds.len(),
{
    if rounds.len() > 0 {
        let rest = rounds.drop_first();
        lemma_wait_times_out_iff(target, timeout, rest);
        let first = rounds.first();
        if first.elapsed >= timeout {
            assert(times_out_at(target, timeout, rounds, 0));
        } else if first.count == target {
            assert forall|i: int| !times_out_at(target, timeout, rounds, i) by {
                if 0 < i < rounds.len() {
                    assert(rounds[0].count == target);
                }
            }
        } else {
            if wait_outcome(target, timeout, rest) == Some(false) {
                let i = choose|i: int| times_out_at(target, timeout, rest, i);
                assert(rounds[i + 1] == rest[i]);
                assert forall|j: int| 0 <= j < i + 1 implies (#[trigger] rounds[j]).elapsed
                    < timeout && rounds[j].count != target by {
                    if j > 0 {
                        assert(rounds[j] == rest[j - 1]);
                    }
                }
                assert(times_out_at(target, timeout, rounds, i + 1));
            }
            if exists|i: int| times_out_at(target, timeout, rounds, i) {
                let i = choose|i: int| times_out_at(target, timeout, rounds, i);
                assert(i > 0);
                assert(rest[i - 1] == rounds[i]);
                assert forall|j: int| 0 <= j < i - 1 implies (#[trigger] rest[j]).elapsed
                    < timeout && rest[j].count != target by {
                    assert(rest[j] == rounds[j + 1]);
                }
                assert(times_out_at(target, timeout, rest, i - 1));
            }
        }
    }
}

/// One line of a status report of a load balancer.
#[derive(Clone, Debug, PartialEq, Eq)]
pub struct InstanceStatus {
    pub id: String,
    pub health: String,
    pub name: String,
    pub version: String,
    pub address: String,
    pub asg: String,
    pub uptime: String,
}

/// The line for one instance: its id and health as the load balancer
/// reports them, its launch time and address, and from its tags its name,
/// its version and its scaling group, each empty where the tag is missing.
pub fn elb_status(health: &InstanceHealth, launch_time: &str, address: &str, tags: &Vec<Tag>) -> (r:
    InstanceStatus)
    ensures
        r.id@ == health.instance_id@,
        r.health@ == health.state@,
        r.uptime@ == launch_time@,
        r.address@ == address@,
        r.name@ == last_value(tags@.map_values(|t: Tag| t@), "Name"@, Seq::empty()),
        r.version@ == last_value(tags@.map_values(|t: Tag| t@), "version"@, Seq::empty()),
        r.asg@ == last_value(
            tags@.map_values(|t: Tag| t@),
            "aws:autoscaling:groupName"@,
            Seq::empty(),
        ),
{
    InstanceStatus {
        id: health.instance_id.clone(),
        health: health.state.clone(),
        name: tag_value(tags, "Name", String::new()),
        version: tag_value(tags, "version", String::new()),
        address: String::from_str(address),
        asg: tag_value(tags, "aws:autoscaling:groupName", String::new()),
        uptime: String::from_str(launch_time),
    }
}

} // verus!
