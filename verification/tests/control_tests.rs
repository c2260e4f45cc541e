use line_follower::robo::{
    LoopExit, LoopObservation, LoopStep, Robot, SensorSide, TickCommand, WheelCommand, decide,
    loop_step, run_conditioned, TickAction,
};
use line_follower::sensor::LineSensor;
use line_follower::settings::{
    Act, Cond, Drive, Lines, OnForRotations, PushBlock, ReturnToLine, Sensors, Settings, Steering,
    ThrowBall, Turn, UTurn, WaitForBall,
};
use line_follower::steering::{MoveSteering, StopAction};

fn settings() -> Settings {
    Settings {
        steering: Steering {
            speed: 30,
            max_steering: 80,
            stop_action: StopAction::BRAKE,
            turn_timeout: 250,
        },
        sensors: Sensors { left_threshold: 50, right_threshold: 50, middle_threshold: 50 },
        act: Act {
            turn: Turn { steering: 100, speed: 40, degrees: 180 },
            wait_for_ball: WaitForBall { drive_until_dist_mm: 120, finish_dist_mm: 300 },
            push_block: PushBlock {
                drive_until_dist_mm: 100,
                leave_line: UTurn {
                    on_for_rotations: OnForRotations { steering: 100, speed: 40, degrees: 90 },
                    drive: Drive { steering: 0, speed: 30 },
                },
                u_turn: UTurn {
                    on_for_rotations: OnForRotations { steering: 100, speed: 40, degrees: 180 },
                    drive: Drive { steering: 0, speed: 30 },
                },
                return_to_line: ReturnToLine { steering: 50, speed: 30, seconds: 2 },
            },
            throw_ball: ThrowBall {
                drive_until_dist_mm: 150,
                speed: 60,
                ball_motor_speed: 900,
                ball_motor_rel_pos: 120,
            },
        },
        cond: Cond { lines: Lines { time: 1000, count: 3 }, dist_mm: 200 },
    }
}

fn robot() -> Robot {
    Robot::new(
        MoveSteering::new(1050, 360),
        LineSensor::new(50, false),
        LineSensor::new(50, false),
        LineSensor::new(50, true),
        settings(),
    )
}

const ON: i32 = 10;
const OFF: i32 = 90;

// speed 30, max speed 1050: straight wheels are 315 each; bias 80
// gives factor (50 - 80) / 50, so the inner wheel runs at -189.
fn straight() -> WheelCommand {
    WheelCommand { left: 315, right: 315 }
}

#[test]
fn middle_only_drives_straight() {
    let mut r = robot();
    let c = r.follow_line_once(OFF, ON, OFF, 0);
    assert_eq!(c, TickCommand::Forward { speeds: straight() });
}

#[test]
fn middle_and_right_pivot_right() {
    let mut r = robot();
    let c = r.follow_line_once(OFF, ON, ON, 0);
    match c {
        TickCommand::PivotRight { speeds, wait } => {
            assert_eq!(speeds, WheelCommand { left: 315, right: -189 });
            assert_eq!(wait.sensor, SensorSide::Right);
            assert!(!wait.target_on_line);
            assert_eq!(wait.timeout_ms, 250);
        }
        other => panic!("expected a right pivot, got {other:?}"),
    }
}

#[test]
fn middle_and_left_pivot_left() {
    let mut r = robot();
    let c = r.follow_line_once(ON, ON, OFF, 0);
    match c {
        TickCommand::PivotLeft { speeds, wait } => {
            assert_eq!(speeds, WheelCommand { left: -189, right: 315 });
            assert_eq!(wait.sensor, SensorSide::Left);
            assert!(!wait.target_on_line);
            assert_eq!(wait.timeout_ms, 250);
        }
        other => panic!("expected a left pivot, got {other:?}"),
    }
}

#[test]
fn lost_line_coasts_forward() {
    let mut r = robot();
    let c = r.follow_line_once(OFF, OFF, OFF, 0);
    assert_eq!(c, TickCommand::Forward { speeds: straight() });
}

#[test]
fn left_only_pivots_left() {
    let mut r = robot();
    let c = r.follow_line_once(ON, OFF, OFF, 0);
    assert!(matches!(c, TickCommand::PivotLeft { .. }));
}

#[test]
fn right_only_pivots_right() {
    let mut r = robot();
    let c = r.follow_line_once(OFF, OFF, ON, 0);
    assert!(matches!(c, TickCommand::PivotRight { .. }));
}

#[test]
fn all_three_fall_back_to_straight() {
    let mut r = robot();
    let c = r.follow_line_once(ON, ON, ON, 0);
    assert_eq!(c, TickCommand::Forward { speeds: straight() });
}

#[test]
fn left_and_right_fall_back_to_straight() {
    let mut r = robot();
    let c = r.follow_line_once(ON, OFF, ON, 0);
    assert_eq!(c, TickCommand::Forward { speeds: straight() });
}

#[test]
fn decision_matches_the_table() {
    assert_eq!(decide(false, true, false), TickAction::Forward);
    assert_eq!(decide(false, true, true), TickAction::PivotRight);
    assert_eq!(decide(true, true, false), TickAction::PivotLeft);
    assert_eq!(decide(false, false, false), TickAction::Forward);
    assert_eq!(decide(true, false, false), TickAction::PivotLeft);
    assert_eq!(decide(false, false, true), TickAction::PivotRight);
    assert_eq!(decide(true, true, true), TickAction::Forward);
    assert_eq!(decide(true, false, true), TickAction::Forward);
}

#[test]
fn a_tick_records_middle_sensor_transitions() {
    let mut r = robot();
    r.follow_line_once(OFF, ON, OFF, 5);
    assert_eq!(r.middle_sensor.history.len(), 1);
    // the side sensors do not track history
    assert_eq!(r.left_sensor.history.len(), 0);
    assert_eq!(r.right_sensor.history.len(), 0);
}

#[test]
fn cond_dist_triggers_inside_the_limit() {
    let r = robot();
    assert!(r.cond_dist(150));
    assert!(!r.cond_dist(200));
    assert!(!r.cond_dist(250));
}

#[test]
fn cancellation_always_stops() {
    assert_eq!(loop_step(true, false), LoopStep::Stop);
    assert_eq!(loop_step(true, true), LoopStep::Stop);
}

#[test]
fn condition_without_cancellation_runs_the_action() {
    assert_eq!(loop_step(false, true), LoopStep::RunAction);
}

#[test]
fn quiet_iteration_ticks() {
    assert_eq!(loop_step(false, false), LoopStep::Tick);
}

fn quiet() -> LoopObservation {
    LoopObservation { cancelled: false, condition: false }
}

#[test]
fn condition_true_on_third_poll_runs_action_once() {
    let obs = vec![
        quiet(),
        quiet(),
        LoopObservation { cancelled: false, condition: true },
    ];
    assert_eq!(run_conditioned(&obs), Some((LoopExit::ActionRun, 2)));
}

#[test]
fn nothing_after_the_trigger_is_polled() {
    let obs = vec![
        quiet(),
        quiet(),
        LoopObservation { cancelled: false, condition: true },
        LoopObservation { cancelled: true, condition: true },
        quiet(),
    ];
    assert_eq!(run_conditioned(&obs), Some((LoopExit::ActionRun, 2)));
}

#[test]
fn cancellation_first_skips_the_action() {
    let obs = vec![
        LoopObservation { cancelled: true, condition: true },
        LoopObservation { cancelled: false, condition: true },
    ];
    assert_eq!(run_conditioned(&obs), Some((LoopExit::Cancelled, 0)));
}

#[test]
fn quiet_observations_run_out() {
    let obs = vec![quiet(), quiet(), quiet()];
    assert_eq!(run_conditioned(&obs), None);
}
