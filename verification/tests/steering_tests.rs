use line_follower::steering::{MoveSteering, RotationPlan, StopAction, rotation_degrees};

fn drive() -> MoveSteering {
    MoveSteering::new(1050, 360)
}

#[test]
fn straight_full_speed_runs_both_wheels_at_max() {
    let d = drive();
    assert_eq!(d.get_speed_steering(0, 100), (1050, 1050));
}

#[test]
fn straight_commands_equal_wheels_at_any_speed() {
    let d = drive();
    for speed in [-100, -37, 0, 12, 100] {
        let (l, r) = d.get_speed_steering(0, speed);
        assert_eq!(l, r);
    }
}

#[test]
fn right_bias_scales_down_right_wheel() {
    let d = drive();
    // base speed 50 * 1050 / 100 = 525, inner 52500 * 25 / 5000 = 262
    assert_eq!(d.get_speed_steering(25, 50), (525, 262));
}

#[test]
fn left_bias_swaps_wheel_roles() {
    let d = drive();
    assert_eq!(d.get_speed_steering(-25, 50), (262, 525));
}

#[test]
fn bias_fifty_stops_inner_wheel() {
    let d = drive();
    assert_eq!(d.get_speed_steering(50, 100), (1050, 0));
    assert_eq!(d.get_speed_steering(-50, 100), (0, 1050));
}

#[test]
fn bias_past_fifty_reverses_inner_wheel() {
    let d = drive();
    // factor (50 - 100) / 50 = -1: full pivot
    assert_eq!(d.get_speed_steering(100, 100), (1050, -1050));
    assert_eq!(d.get_speed_steering(-100, 100), (-1050, 1050));
}

#[test]
fn negative_speed_drives_backwards() {
    let d = drive();
    assert_eq!(d.get_speed_steering(25, -50), (-525, -262));
}

#[test]
fn zero_speed_commands_nothing() {
    let d = drive();
    assert_eq!(d.get_speed_steering(30, 0), (0, 0));
}

#[test]
fn outer_magnitude_dominates_within_half_bias() {
    let d = drive();
    for bias in -50..=50 {
        for speed in [-100, -33, 0, 41, 100] {
            let (l, r) = d.get_speed_steering(bias, speed);
            let (outer, inner) = if bias >= 0 { (l, r) } else { (r, l) };
            assert!(outer.abs() >= inner.abs(), "bias {bias} speed {speed}");
        }
    }
}

#[test]
fn faster_wheel_gets_full_degrees() {
    assert_eq!(rotation_degrees((500, 250), 720), (720, 360));
    assert_eq!(rotation_degrees((250, 500), 720), (360, 720));
}

#[test]
fn rotation_ratio_matches_speed_ratio() {
    let (l, r) = rotation_degrees((600, 180), 1080);
    assert_eq!(l, 1080);
    // 1080 * 180 / 600
    assert_eq!(r, 324);
}

#[test]
fn equal_speeds_share_full_degrees() {
    assert_eq!(rotation_degrees((500, -500), 720), (720, 720));
}

#[test]
fn zero_degrees_scales_nothing() {
    assert_eq!(rotation_degrees((500, 250), 0), (0, 0));
}

#[test]
fn both_wheels_stopped_gives_zero_targets() {
    assert_eq!(rotation_degrees((0, 0), 0), (0, 0));
}

#[test]
fn one_stopped_wheel_gets_zero_degrees() {
    assert_eq!(rotation_degrees((300, 0), 720), (720, 0));
    assert_eq!(rotation_degrees((0, 300), 720), (0, 720));
}

#[test]
fn negative_degrees_keep_the_ratio() {
    assert_eq!(rotation_degrees((500, 250), -720), (-720, -360));
}

#[test]
fn rel_pos_converts_degrees_to_counts() {
    let d = drive();
    assert_eq!(d.get_rel_pos_and_speed(200, 720), (720, 200));
}

#[test]
fn rel_pos_flips_sign_for_negative_speed() {
    let d = drive();
    assert_eq!(d.get_rel_pos_and_speed(-200, 720), (-720, 200));
    assert_eq!(d.get_rel_pos_and_speed(200, -720), (-720, 200));
}

#[test]
fn rel_pos_uses_count_per_rotation() {
    let d = MoveSteering::new(1050, 720);
    assert_eq!(d.get_rel_pos_and_speed(100, 360), (720, 100));
}

#[test]
fn rotation_plan_straight_line() {
    let d = drive();
    let p: RotationPlan = d.on_for_rotations(0, 100, 720);
    assert_eq!(p.left_speed, 1050);
    assert_eq!(p.right_speed, 1050);
    assert_eq!(p.left_position, 720);
    assert_eq!(p.right_position, 720);
}

#[test]
fn rotation_plan_scales_slower_wheel() {
    let d = drive();
    // bias 25, speed 50: wheels (525, 262); right target 720 * 262 / 525 = 359
    let p = d.on_for_rotations(25, 50, 720);
    assert_eq!(p.left_speed, 525);
    assert_eq!(p.right_speed, 262);
    assert_eq!(p.left_position, 720);
    assert_eq!(p.right_position, 359);
}

#[test]
fn stop_action_names_match_the_driver() {
    assert_eq!(StopAction::COAST.to_str(), "coast");
    assert_eq!(StopAction::BRAKE.to_str(), "brake");
    assert_eq!(StopAction::HOLD.to_str(), "hold");
}
