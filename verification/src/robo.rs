//! The robot aggregate and the task-conditioned control loop.
//!
//! A `Robot` bundles the steering kinematics, the three line sensors
//! and the settings snapshot, and decides one line-following tick at
//! a time: from three freshly sampled readings it picks a steering
//! command by a fixed decision table.  The control loop around the
//! ticks is decided here too, one observation per iteration: a
//! cancellation stops the drive and exits; a true task condition runs
//! the task's action exactly once and exits; otherwise one tick runs.
//! Sampling the sensors, polling the cancellation source and issuing
//! the commands are the caller's business.

use vstd::prelude::*;
use crate::sensor::{classifies_on_line, updated_history, LineSensor};
use crate::settings::Settings;
use crate::steering::{wheel_speeds, MoveSteering};

verus! {

/// Which maneuver one line-following tick selects.
#[derive(Clone, Copy, Debug, PartialEq, Eq, Structural)]
pub enum TickAction {
    Forward,
    PivotLeft,
    PivotRight,
}

/// The line-following decision table over the three on-line states.
/// Only the middle sensor seeing the line alone means driving
/// straight on course; a side sensor seeing it pivots that way until
/// the side sensor leaves the line again.  A lost line (none see it)
/// coasts forward, and the two remaining combinations fall back to
/// driving straight.
pub open spec fn line_decision(left: bool, middle: bool, right: bool) -> TickAction {
    if !left && middle && !right {
        TickAction::Forward
    } else if !left && middle && right {
        TickAction::PivotRight
    } else if left && middle && !right {
        TickAction::PivotLeft
    } else if !left && !middle && !right {
        TickAction::Forward
    } else if left && !middle && !right {
        TickAction::PivotLeft
    } else if !left && !middle && right {
        TickAction::PivotRight
    } else {
        TickAction::Forward
    }
}

/// The maneuver the decision table selects for three sampled states.
pub fn decide(left: bool, middle: bool, right: bool) -> (a: TickAction)
    ensures
        a == line_decision(left, middle, right),
{
    if !left && middle && !right {
        TickAction::Forward
    } else if !left && middle && right {
        TickAction::PivotRight
    } else if left && middle && !right {
        TickAction::PivotLeft
    } else if !left && !middle && !right {
        TickAction::Forward
    } else if left && !middle && !right {
        TickAction::PivotLeft
    } else if !left && !middle && right {
        TickAction::PivotRight
    } else {
        TickAction::Forward
    }
}

/// Which line sensor a pivot turn watches.
#[derive(Clone, Copy, Debug, PartialEq, Eq, Structural)]
pub enum SensorSide {
    Left,
    Middle,
    Right,
}

/// The bounded wait ending a pivot turn: poll the named sensor until
/// its classification equals the target or the timeout elapses.
#[derive(Clone, Copy, Debug, PartialEq, Eq, Structural)]
pub struct PivotWait {
    pub sensor: SensorSide,
    pub target_on_line: bool,
    pub timeout_ms: u64,
}

/// The steering command one control tick issues: wheel speeds for an
/// open-ended run, plus for a pivot the wait that bounds it.  The
/// drive is not stopped after a pivot; the next tick takes over.
#[derive(Clone, Copy, Debug, PartialEq, Eq, Structural)]
pub enum TickCommand {
    Forward { speeds: WheelCommand },
    PivotLeft { speeds: WheelCommand, wait: PivotWait },
    PivotRight { speeds: WheelCommand, wait: PivotWait },
}

/// An ordered pair of wheel speed commands in native device units.
#[derive(Clone, Copy, Debug, PartialEq, Eq, Structural)]
pub struct WheelCommand {
    pub left: i32,
    pub right: i32,
}

/// The robot's decision state: steering kinematics, the three line
/// sensors and the settings snapshot.  The hardware handles stay with
/// the caller.
pub struct Robot {
    pub steering: MoveSteering,
    pub left_sensor: LineSensor,
    pub right_sensor: LineSensor,
    pub middle_sensor: LineSensor,
    pub speed: i32,
    pub max_steering: i32,
    pub settings: Settings,
}

impl Robot {
    pub open spec fn wf(&self) -> bool {
        &&& self.steering.wf()
        &&& self.left_sensor.wf()
        &&& self.right_sensor.wf()
        &&& self.middle_sensor.wf()
        &&& self.settings.valid()
        &&& self.speed == self.settings.steering.speed
        &&& self.max_steering == self.settings.steering.max_steering
    }

    pub fn new(
        steering: MoveSteering,
        left_sensor: LineSensor,
        right_sensor: LineSensor,
        middle_sensor: LineSensor,
        settings: Settings,
    ) -> (r: Robot)
        requires
            steering.wf(),
            left_sensor.wf(),
            right_sensor.wf(),
            middle_sensor.wf(),
            settings.valid(),
        ensures
            r.wf(),
            r.steering == steering,
            r.left_sensor == left_sensor,
            r.right_sensor == right_sensor,
            r.middle_sensor == middle_sensor,
            r.settings == settings,
            r.speed == settings.steering.speed,
            r.max_steering == settings.steering.max_steering,
    {
        let speed: i32 = settings.steering.speed;
        let max_steering: i32 = settings.steering.max_steering;
        Robot { steering, left_sensor, right_sensor, middle_sensor, speed, max_steering, settings }
    }

    /// Wheel speeds for driving straight ahead at the configured
    /// speed.
    pub fn forward(&self) -> (speeds: (i32, i32))
        requires
            self.wf(),
        ensures
            speeds.0 == wheel_speeds(0, self.speed as int, self.steering.max_speed as int).0,
            speeds.1 == wheel_speeds(0, self.speed as int, self.steering.max_speed as int).1,
    {
        self.steering.get_speed_steering(0, self.speed)
    }

    /// Wheel speeds for a maximal-bias right pivot, with the wait
    /// that bounds it: the right sensor leaving the line, or the
    /// configured turn timeout.
    pub fn turn_right_until_line(&self) -> (c: ((i32, i32), PivotWait))
        requires
            self.wf(),
        ensures
            c.0.0 == wheel_speeds(
                self.max_steering as int,
                self.speed as int,
                self.steering.max_speed as int,
            ).0,
            c.0.1 == wheel_speeds(
                self.max_steering as int,
                self.speed as int,
                self.steering.max_speed as int,
            ).1,
            c.1 == (PivotWait {
                sensor: SensorSide::Right,
                target_on_line: false,
                timeout_ms: self.settings.steering.turn_timeout,
            }),
    {
        let speeds = self.steering.get_speed_steering(self.max_steering, self.speed);
        let wait = PivotWait {
            sensor: SensorSide::Right,
            target_on_line: false,
            timeout_ms: self.settings.steering.turn_timeout,
        };
        (speeds, wait)
    }

    /// Wheel speeds for a maximal-bias left pivot, with the wait that
    /// bounds it: the left sensor leaving the line, or the configured
    /// turn timeout.
    pub fn turn_left_until_line(&self) -> (c: ((i32, i32), PivotWait))
        requires
            self.wf(),
        ensures
            c.0.0 == wheel_speeds(
                -(self.max_steering as int),
                self.speed as int,
                self.steering.max_speed as int,
            ).0,
            c.0.1 == wheel_speeds(
                -(self.max_steering as int),
                self.speed as int,
                self.steering.max_speed as int,
            ).1,
            c.1 == (PivotWait {
                sensor: SensorSide::Left,
                target_on_line: false,
                timeout_ms: self.settings.steering.turn_timeout,
            }),
    {
        let speeds = self.steering.get_speed_steering(-self.max_steering, self.speed);
        let wait = PivotWait {
            sensor: SensorSide::Left,
            target_on_line: false,
            timeout_ms: self.settings.steering.turn_timeout,
        };
        (speeds, wait)
    }

    /// One line-following tick: classify the three fresh readings
    /// (recording transitions on tracking sensors) and select the
    /// steering command by the decision table.
    pub fn follow_line_once(
        &mut self,
        left_reflect: i32,
        middle_reflect: i32,
        right_reflect: i32,
        now_ms: u64,
    ) -> (c: TickCommand)
        requires
            old(self).wf(),
        ensures
            final(self).wf(),
            final(self).steering == old(self).steering,
            final(self).settings == old(self).settings,
            final(self).speed == old(self).speed,
            final(self).max_steering == old(self).max_steering,
            final(self).left_sensor.threshold == old(self).left_sensor.threshold,
            final(self).middle_sensor.threshold == old(self).middle_sensor.threshold,
            final(self).right_sensor.threshold == old(self).right_sensor.threshold,
            final(self).left_sensor.has_history == old(self).left_sensor.has_history,
            final(self).middle_sensor.has_history == old(self).middle_sensor.has_history,
            final(self).right_sensor.has_history == old(self).right_sensor.has_history,
            final(self).left_sensor.history@ == updated_history(
                old(self).left_sensor.history@,
                old(self).left_sensor.has_history,
                classifies_on_line(left_reflect as int, old(self).left_sensor.threshold as int),
                now_ms,
            ),
            final(self).middle_sensor.history@ == updated_history(
                old(self).middle_sensor.history@,
                old(self).middle_sensor.has_history,
                classifies_on_line(middle_reflect as int, old(self).middle_sensor.threshold as int),
                now_ms,
            ),
            final(self).right_sensor.history@ == updated_history(
                old(self).right_sensor.history@,
                old(self).right_sensor.has_history,
                classifies_on_line(right_reflect as int, old(self).right_sensor.threshold as int),
                now_ms,
            ),
            ({
                let l = classifies_on_line(
                    left_reflect as int,
                    old(self).left_sensor.threshold as int,
                );
                let m = classifies_on_line(
                    middle_reflect as int,
                    old(self).middle_sensor.threshold as int,
                );
                let rt = classifies_on_line(
                    right_reflect as int,
                    old(self).right_sensor.threshold as int,
                );
                let straight = wheel_speeds(
                    0,
                    old(self).speed as int,
                    old(self).steering.max_speed as int,
                );
                let right_turn = wheel_speeds(
                    old(self).max_steering as int,
                    old(self).speed as int,
                    old(self).steering.max_speed as int,
                );
                let left_turn = wheel_speeds(
                    -(old(self).max_steering as int),
                    old(self).speed as int,
                    old(self).steering.max_speed as int,
                );
                match line_decision(l, m, rt) {
                    TickAction::Forward => c matches TickCommand::Forward { speeds }
                        && speeds.left == straight.0 && speeds.right == straight.1,
                    TickAction::PivotRight => c matches TickCommand::PivotRight { speeds, wait }
                        && speeds.left == right_turn.0 && speeds.right == right_turn.1 && wait
                        == (
                    PivotWait {
                        sensor: SensorSide::Right,
                        target_on_line: false,
                        timeout_ms: old(self).settings.steering.turn_timeout,
                    }),
                    TickAction::PivotLeft => c matches TickCommand::PivotLeft { speeds, wait }
                        && speeds.left == left_turn.0 && speeds.right == left_turn.1 && wait
                        == (
                    PivotWait {
                        sensor: SensorSide::Left,
                        target_on_line: false,
                        timeout_ms: old(self).settings.steering.turn_timeout,
                    }),
                }
            }),
    {
        let l: bool = self.left_sensor.on_line(left_reflect, now_ms);
        let m: bool = self.middle_sensor.on_line(middle_reflect, now_ms);
        let rt: bool = self.right_sensor.on_line(right_reflect, now_ms);
        match decide(l, m, rt) {
            TickAction::Forward => {
                let s = self.forward();
                TickCommand::Forward { speeds: WheelCommand { left: s.0, right: s.1 } }
            },
            TickAction::PivotRight => {
                let c = self.turn_right_until_line();
                TickCommand::PivotRight {
                    speeds: WheelCommand { left: c.0.0, right: c.0.1 },
                    wait: c.1,
                }
            },
            TickAction::PivotLeft => {
                let c = self.turn_left_until_line();
                TickCommand::PivotLeft {
                    speeds: WheelCommand { left: c.0.0, right: c.0.1 },
                    wait: c.1,
                }
            },
        }
    }

    /// Whether a distance reading, in millimeters, is within the
    /// configured trigger distance.
    pub fn cond_dist(&self, distance_mm: i32) -> (b: bool)
        ensures
            b == (distance_mm < self.settings.cond.dist_mm),
    {
        distance_mm < self.settings.cond.dist_mm
    }
}

/// The full decision table, row by row, in the order (left, middle,
/// right).
pub proof fn lemma_decision_table()
    ensures
        line_decision(false, true, false) == TickAction::Forward,
        line_decision(false, true, true) == TickAction::PivotRight,
        line_decision(true, true, false) == TickAction::PivotLeft,
        line_decision(false, false, false) == TickAction::Forward,
        line_decision(true, false, false) == TickAction::PivotLeft,
        line_decision(false, false, true) == TickAction::PivotRight,
        line_decision(true, true, true) == TickAction::Forward,
        line_decision(true, false, true) == TickAction::Forward,
{
}

/// What the control loop observes at the top of one iteration: the
/// cancellation signal and the task condition's value (an untasked
/// loop observes the condition as never holding, and a condition
/// whose evaluation failed counts as not holding).
#[derive(Clone, Copy, Debug, PartialEq, Eq, Structural)]
pub struct LoopObservation {
    pub cancelled: bool,
    pub condition: bool,
}

/// How a conditioned loop exits: cancelled (the drive is stopped and
/// the action never runs) or by running the task's action once.
#[derive(Clone, Copy, Debug, PartialEq, Eq, Structural)]
pub enum LoopExit {
    Cancelled,
    ActionRun,
}

/// What one loop iteration does with its observation.
#[derive(Clone, Copy, Debug, PartialEq, Eq, Structural)]
pub enum LoopStep {
    Stop,
    RunAction,
    Tick,
}

/// The decision of one control-loop iteration: cancellation stops the
/// drive and exits, a true condition runs the action once and exits,
/// and otherwise one line-following tick runs.  Cancellation is
/// checked first, so the action never runs on a cancelled iteration.
pub fn loop_step(cancelled: bool, condition_holds: bool) -> (s: LoopStep)
    ensures
        cancelled ==> s == LoopStep::Stop,
        !cancelled && condition_holds ==> s == LoopStep::RunAction,
        !cancelled && !condition_holds ==> s == LoopStep::Tick,
{
    if cancelled {
        LoopStep::Stop
    } else if condition_holds {
        LoopStep::RunAction
    } else {
        LoopStep::Tick
    }
}

/// The outcome of a conditioned loop over a sequence of observations:
/// how it exits and how many line-following ticks ran first, or
/// `None` when the observations run out before an exit.
pub open spec fn conditioned_outcome(obs: Seq<LoopObservation>) -> Option<(LoopExit, int)>
    decreases obs.len(),
{
    if obs.len() == 0 {
        None
    } else if obs[0].cancelled {
        Some((LoopExit::Cancelled, 0int))
    } else if obs[0].condition {
        Some((LoopExit::ActionRun, 0int))
    } else {
        match conditioned_outcome(obs.drop_first()) {
            None => None,
            Some(e) => Some((e.0, e.1 + 1)),
        }
    }
}

/// Replay the conditioned control loop over pre-sampled observations,
/// one `loop_step` decision per iteration, counting the
/// line-following ticks taken before the exit.
pub fn run_conditioned(obs: &Vec<LoopObservation>) -> (r: Option<(LoopExit, usize)>)
    ensures
        match (r, conditioned_outcome(obs@)) {
            (Some(a), Some(b)) => a.0 == b.0 && a.1 == b.1,
            (None, None) => true,
            _ => false,
        },
{
    let mut i: usize = 0;
    proof {
        assert(obs@.skip(0int) =~= obs@);
        match conditioned_outcome(obs@) {
            None => {},
            Some(e) => {
                assert(e == (e.0, e.1));
            },
        }
    }
    while i < obs.len()
        invariant
            0 <= i <= obs@.len(),
            conditioned_outcome(obs@) == (match conditioned_outcome(obs@.skip(i as int)) {
                None => None::<(LoopExit, int)>,
                Some(e) => Some((e.0, e.1 + i)),
            }),
        decreases obs@.len() - i,
    {
        let o: LoopObservation = obs[i];
        proof {
            assert(obs@.skip(i as int)[0] == o);
            assert(obs@.skip(i as int).drop_first() =~= obs@.skip(i as int + 1));
        }
        match loop_step(o.cancelled, o.condition) {
            LoopStep::Stop => {
                return Some((LoopExit::Cancelled, i));
            },
            LoopStep::RunAction => {
                return Some((LoopExit::ActionRun, i));
            },
            LoopStep::Tick => {
                i = i + 1;
            },
        }
    }
    proof {
        assert(obs@.skip(obs@.len() as int) =~= Seq::<LoopObservation>::empty());
    }
    None
}

/// A condition first observed true on poll `k + 1`, with no
/// cancellation up to that poll, runs the action exactly once, after
/// exactly `k` line-following ticks; the loop exits there, so nothing
/// observed later changes the outcome.
pub proof fn lemma_action_runs_once(obs: Seq<LoopObservation>, k: int)
    requires
        0 <= k < obs.len(),
        forall|i: int| 0 <= i <= k ==> !(#[trigger] obs[i]).cancelled,
        forall|i: int| 0 <= i < k ==> !(#[trigger] obs[i]).condition,
        obs[k].condition,
    ensures
        conditioned_outcome(obs) == Some((LoopExit::ActionRun, k)),
        conditioned_outcome(obs) == conditioned_outcome(obs.take(k + 1)),
    decreases k,
{
    if k == 0 {
        assert(obs.take(1)[0] == obs[0]);
    } else {
        let rest = obs.drop_first();
        assert forall|i: int| 0 <= i <= k - 1 implies !(#[trigger] rest[i]).cancelled by {
            assert(rest[i] == obs[i + 1]);
        }
        assert forall|i: int| 0 <= i < k - 1 implies !(#[trigger] rest[i]).condition by {
            assert(rest[i] == obs[i + 1]);
        }
        assert(rest[k - 1] == obs[k]);
        lemma_action_runs_once(rest, k - 1);
        assert(obs.take(k + 1)[0] == obs[0]);
        assert(obs.take(k + 1).drop_first() =~= rest.take(k));
    }
}

/// A cancellation observed at the top of an iteration, before any
/// condition check, exits at once: the drive is stopped and the
/// action is never invoked.
pub proof fn lemma_cancellation_stops_loop(obs: Seq<LoopObservation>)
    requires
        obs.len() > 0,
        obs[0].cancelled,
    ensures
        conditioned_outcome(obs) == Some((LoopExit::Cancelled, 0int)),
{
}

} // verus!
