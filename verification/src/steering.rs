//! Differential-drive steering kinematics.
//!
//! A steering bias in [-100, 100] and a speed percentage in [-100, 100]
//! turn into individual wheel commands in native device speed units.
//! The inner wheel is scaled linearly down to zero at |bias| = 50 and
//! reversed beyond it; this asymmetric scaling is the only turning
//! mechanism.  For timed and position-bounded maneuvers the module
//! computes the full motor command (speed setpoints and relative
//! position targets); issuing those commands to the motor driver is the
//! caller's job.

use vstd::prelude::*;
use vstd::arithmetic::div_mod::{
    lemma_basic_div, lemma_div_denominator, lemma_div_is_ordered, lemma_div_multiples_vanish,
    lemma_div_pos_is_pos, lemma_fundamental_div_mod, lemma_mod_division_less_than_divisor,
};
use vstd::arithmetic::mul::{lemma_mul_basics, lemma_mul_inequality, lemma_mul_nonnegative};

verus! {

/// Absolute value.
pub open spec fn abs_val(x: int) -> int {
    if x >= 0 {
        x
    } else {
        -x
    }
}

/// Sign of `x`: -1, 0 or 1.
pub open spec fn sign_of(x: int) -> int {
    if x > 0 {
        1int
    } else if x == 0 {
        0int
    } else {
        -1int
    }
}

/// Command for the outer wheel: the speed percentage applied to the
/// drive's maximum speed, truncated toward zero.
pub open spec fn outer_speed(speed: int, max_speed: int) -> int {
    sign_of(speed) * (abs_val(speed) * max_speed / 100)
}

/// Command for the inner wheel: the outer command scaled by
/// (50 - |bias|) / 50, so the inner wheel reaches zero at |bias| = 50
/// and runs in reverse beyond it.  Truncated toward zero.
pub open spec fn inner_speed(speed: int, max_speed: int, steering: int) -> int {
    sign_of(speed) * sign_of(50 - abs_val(steering)) * (abs_val(speed) * max_speed * abs_val(
        50 - abs_val(steering),
    ) / 5000)
}

/// (left, right) wheel commands for a bias and a speed percentage:
/// a non-negative bias makes the left wheel the outer one, a negative
/// bias swaps the roles.
pub open spec fn wheel_speeds(steering: int, speed: int, max_speed: int) -> (int, int) {
    if steering >= 0 {
        (outer_speed(speed, max_speed), inner_speed(speed, max_speed, steering))
    } else {
        (inner_speed(speed, max_speed, steering), outer_speed(speed, max_speed))
    }
}

/// `degrees` scaled by |slower| / |faster|, truncated toward zero.
pub open spec fn scaled_degrees(degrees: int, slower: int, faster: int) -> int {
    sign_of(degrees) * (abs_val(degrees) * abs_val(slower) / abs_val(faster))
}

/// Degree targets (left, right) for a rotation maneuver: the wheel
/// with the larger commanded speed magnitude turns the full amount,
/// the other one proportionally less, so both finish together.  With
/// zero degrees or both wheels at zero speed no scaling happens.
pub open spec fn rotation_targets(left_speed: int, right_speed: int, degrees: int) -> (int, int) {
    if degrees == 0 || (left_speed == 0 && right_speed == 0) {
        (degrees, degrees)
    } else if abs_val(left_speed) > abs_val(right_speed) {
        (degrees, scaled_degrees(degrees, right_speed, left_speed))
    } else {
        (scaled_degrees(degrees, left_speed, right_speed), degrees)
    }
}

/// Relative position target for one wheel: the degree amount (flipped
/// for a negative speed command) converted to motor counts.
pub open spec fn rel_position(speed: int, degrees: int, count_per_rot: int) -> int {
    let d = if speed < 0 {
        -degrees
    } else {
        degrees
    };
    sign_of(d) * (abs_val(d) * count_per_rot / 360)
}

/// Stop policy applied to the drive motors when a command ends.
#[allow(non_camel_case_types)]
#[derive(Clone, Copy, Debug, PartialEq, Eq, Structural)]
pub enum StopAction {
    COAST,
    BRAKE,
    HOLD,
}

impl StopAction {
    /// The stop action's name as the motor driver spells it.
    pub fn to_str(&self) -> (s: &'static str)
        ensures
            *self == StopAction::COAST ==> s@ == "coast"@,
            *self == StopAction::BRAKE ==> s@ == "brake"@,
            *self == StopAction::HOLD ==> s@ == "hold"@,
    {
        match self {
            StopAction::COAST => "coast",
            StopAction::BRAKE => "brake",
            StopAction::HOLD => "hold",
        }
    }
}

/// The kinematic parameters of the differential drive: the maximum
/// attainable wheel speed in native units and the motor counts per
/// wheel rotation.  The motor handles themselves stay with the caller.
pub struct MoveSteering {
    pub max_speed: i32,
    pub count_per_rot: i32,
}

/// Speed setpoints and relative position targets for one rotation
/// maneuver, ready to hand to the two drive motors.
pub struct RotationPlan {
    pub left_speed: i32,
    pub right_speed: i32,
    pub left_position: i32,
    pub right_position: i32,
}

impl MoveSteering {
    /// The parameters the kinematics are defined for: a non-negative
    /// maximum speed and count-per-rotation, small enough that no
    /// intermediate product overflows.
    pub open spec fn wf(&self) -> bool {
        0 <= self.max_speed <= 100000 && 0 <= self.count_per_rot <= 10000
    }

    pub fn new(max_speed: i32, count_per_rot: i32) -> (s: Self)
        requires
            0 <= max_speed <= 100000,
            0 <= count_per_rot <= 10000,
        ensures
            s.wf(),
            s.max_speed == max_speed,
            s.count_per_rot == count_per_rot,
    {
        MoveSteering { max_speed, count_per_rot }
    }

    /// Left and right wheel speed commands for a steering bias and a
    /// speed percentage.
    pub fn get_speed_steering(&self, steering: i32, speed: i32) -> (r: (i32, i32))
        requires
            self.wf(),
            -100 <= steering <= 100,
            -100 <= speed <= 100,
        ensures
            r.0 == wheel_speeds(steering as int, speed as int, self.max_speed as int).0,
            r.1 == wheel_speeds(steering as int, speed as int, self.max_speed as int).1,
            -300000 <= r.0 <= 300000,
            -300000 <= r.1 <= 300000,
    {
        let speed_mag: u32 = if speed >= 0 {
            speed as u32
        } else {
            (-speed) as u32
        };
        let steer_mag: u32 = if steering >= 0 {
            steering as u32
        } else {
            (-steering) as u32
        };
        let max: u32 = self.max_speed as u32;
        assert(speed_mag * max <= 100 * 100000) by (nonlinear_arith)
            requires
                speed_mag <= 100,
                max <= 100000,
        ;
        let base: u32 = speed_mag * max;
        let outer_mag: u32 = base / 100;
        let factor: u32 = if steer_mag <= 50 {
            50 - steer_mag
        } else {
            steer_mag - 50
        };
        assert(base * factor <= 10000000 * 150) by (nonlinear_arith)
            requires
                base <= 10000000,
                factor <= 150,
        ;
        let inner_mag: u32 = base * factor / 5000;
        proof {
            lemma_div_is_ordered(base as int, 10000000, 100);
            lemma_div_is_ordered((base * factor) as int, 1500000000, 5000);
            lemma_div_pos_is_pos(base as int, 100);
            lemma_div_pos_is_pos((base * factor) as int, 5000);
        }
        let outer: i32 = if speed >= 0 {
            outer_mag as i32
        } else {
            -(outer_mag as i32)
        };
        let inner_abs: i32 = inner_mag as i32;
        let inner: i32 = if (speed >= 0) == (steer_mag <= 50) {
            inner_abs
        } else {
            -inner_abs
        };
        proof {
            let sp = speed as int;
            let st = steering as int;
            let m = self.max_speed as int;
            lemma_basic_div(0, 100);
            lemma_basic_div(0, 5000);
            assert(speed_mag == abs_val(sp));
            assert(factor == abs_val(50 - abs_val(st)));
            assert(base == abs_val(sp) * m);
            assert(outer_mag == abs_val(sp) * m / 100);
            assert(inner_mag == abs_val(sp) * m * abs_val(50 - abs_val(st)) / 5000);
            lemma_mul_basics(m);
            lemma_mul_basics(abs_val(sp) * m);
            lemma_mul_basics(abs_val(50 - abs_val(st)));
            if sp == 0 {
                assert(abs_val(sp) * m == 0);
                assert(abs_val(sp) * m * abs_val(50 - abs_val(st)) == 0);
            }
            if 50 - abs_val(st) == 0 {
                assert(abs_val(sp) * m * abs_val(50 - abs_val(st)) == 0);
            }
            lemma_sign_product(
                sign_of(sp),
                sign_of(50 - abs_val(st)),
                abs_val(sp) * m * abs_val(50 - abs_val(st)) / 5000,
            );
            assert(outer == outer_speed(sp, m));
            assert(inner == inner_speed(sp, m, st));
        }
        if steering >= 0 {
            (outer, inner)
        } else {
            (inner, outer)
        }
    }

    /// Relative position target and speed-setpoint magnitude for one
    /// wheel of a rotation maneuver.
    pub fn get_rel_pos_and_speed(&self, speed: i32, degrees: i32) -> (r: (i32, i32))
        requires
            self.wf(),
            -300000 <= speed <= 300000,
            -1000000 <= degrees <= 1000000,
        ensures
            r.0 == rel_position(speed as int, degrees as int, self.count_per_rot as int),
            r.1 == abs_val(speed as int),
    {
        let d: i32 = if speed < 0 {
            -degrees
        } else {
            degrees
        };
        let d_mag: u64 = if d >= 0 {
            d as u64
        } else {
            (-d) as u64
        };
        let cpr: u64 = self.count_per_rot as u64;
        assert(d_mag * cpr <= 1000000 * 10000) by (nonlinear_arith)
            requires
                d_mag <= 1000000,
                cpr <= 10000,
        ;
        let pos_mag: u64 = d_mag * cpr / 360;
        proof {
            lemma_div_is_ordered((d_mag * cpr) as int, 10000000000, 360);
            lemma_div_pos_is_pos((d_mag * cpr) as int, 360);
        }
        let pos: i32 = if d >= 0 {
            pos_mag as i32
        } else {
            -(pos_mag as i32)
        };
        let speed_mag: i32 = if speed >= 0 {
            speed
        } else {
            -speed
        };
        proof {
            let cp = self.count_per_rot as int;
            let dd = if (speed as int) < 0 {
                -(degrees as int)
            } else {
                degrees as int
            };
            lemma_basic_div(0, 360);
            assert(d == dd);
            assert(d_mag == abs_val(dd));
            assert(pos_mag == abs_val(dd) * cp / 360);
            lemma_mul_basics(cp);
            lemma_mul_basics(abs_val(dd));
            if dd == 0 || cp == 0 {
                assert(abs_val(dd) * cp == 0);
            }
            assert(pos == rel_position(speed as int, degrees as int, cp));
        }
        (pos, speed_mag)
    }

    /// The full motor command for a position-bounded maneuver: wheel
    /// speed setpoints and relative position targets chosen so both
    /// wheels finish together.
    pub fn on_for_rotations(&self, steering: i32, speed: i32, degrees: i32) -> (p: RotationPlan)
        requires
            self.wf(),
            -100 <= steering <= 100,
            -100 <= speed <= 100,
            -1000000 <= degrees <= 1000000,
        ensures
            ({
                let speeds = wheel_speeds(steering as int, speed as int, self.max_speed as int);
                let targets = rotation_targets(speeds.0, speeds.1, degrees as int);
                &&& p.left_speed == abs_val(speeds.0)
                &&& p.right_speed == abs_val(speeds.1)
                &&& p.left_position == rel_position(
                    speeds.0,
                    targets.0,
                    self.count_per_rot as int,
                )
                &&& p.right_position == rel_position(
                    speeds.1,
                    targets.1,
                    self.count_per_rot as int,
                )
            }),
    {
        let speeds = self.get_speed_steering(steering, speed);
        let targets = rotation_degrees(speeds, degrees);
        let left = self.get_rel_pos_and_speed(speeds.0, targets.0);
        let right = self.get_rel_pos_and_speed(speeds.1, targets.1);
        RotationPlan {
            left_speed: left.1,
            right_speed: right.1,
            left_position: left.0,
            right_position: right.0,
        }
    }
}

/// Degree targets for the two wheels of a rotation maneuver.
pub fn rotation_degrees(speeds: (i32, i32), degrees: i32) -> (r: (i32, i32))
    requires
        -300000 <= speeds.0 <= 300000,
        -300000 <= speeds.1 <= 300000,
        -1000000 <= degrees <= 1000000,
    ensures
        r.0 == rotation_targets(speeds.0 as int, speeds.1 as int, degrees as int).0,
        r.1 == rotation_targets(speeds.0 as int, speeds.1 as int, degrees as int).1,
        -1000000 <= r.0 <= 1000000,
        -1000000 <= r.1 <= 1000000,
{
    let ls_mag: u64 = if speeds.0 >= 0 {
        speeds.0 as u64
    } else {
        (-speeds.0) as u64
    };
    let rs_mag: u64 = if speeds.1 >= 0 {
        speeds.1 as u64
    } else {
        (-speeds.1) as u64
    };
    let deg_mag: u64 = if degrees >= 0 {
        degrees as u64
    } else {
        (-degrees) as u64
    };
    if degrees == 0 || (speeds.0 == 0 && speeds.1 == 0) {
        (degrees, degrees)
    } else if ls_mag > rs_mag {
        assert(deg_mag * rs_mag <= 1000000 * 300000) by (nonlinear_arith)
            requires
                deg_mag <= 1000000,
                rs_mag <= 300000,
        ;
        let scaled_mag: u64 = deg_mag * rs_mag / ls_mag;
        proof {
            assert(deg_mag * rs_mag <= deg_mag * ls_mag) by (nonlinear_arith)
                requires
                    rs_mag <= ls_mag,
                    0 <= deg_mag,
            ;
            lemma_div_is_ordered((deg_mag * rs_mag) as int, (deg_mag * ls_mag) as int, ls_mag as int);
            lemma_div_multiples_vanish(deg_mag as int, ls_mag as int);
            assert(deg_mag * ls_mag == ls_mag * deg_mag) by (nonlinear_arith);
            lemma_div_pos_is_pos((deg_mag * rs_mag) as int, ls_mag as int);
        }
        let scaled: i32 = if degrees >= 0 {
            scaled_mag as i32
        } else {
            -(scaled_mag as i32)
        };
        (degrees, scaled)
    } else {
        assert(deg_mag * ls_mag <= 1000000 * 300000) by (nonlinear_arith)
            requires
                deg_mag <= 1000000,
                ls_mag <= 300000,
        ;
        let scaled_mag: u64 = deg_mag * ls_mag / rs_mag;
        proof {
            assert(deg_mag * ls_mag <= deg_mag * rs_mag) by (nonlinear_arith)
                requires
                    ls_mag <= rs_mag,
                    0 <= deg_mag,
            ;
            lemma_div_is_ordered((deg_mag * ls_mag) as int, (deg_mag * rs_mag) as int, rs_mag as int);
            lemma_div_multiples_vanish(deg_mag as int, rs_mag as int);
            assert(deg_mag * rs_mag == rs_mag * deg_mag) by (nonlinear_arith);
            lemma_div_pos_is_pos((deg_mag * ls_mag) as int, rs_mag as int);
        }
        let scaled: i32 = if degrees >= 0 {
            scaled_mag as i32
        } else {
            -(scaled_mag as i32)
        };
        (scaled, degrees)
    }
}

/// How a product of two signs applies to a magnitude.
proof fn lemma_sign_product(s: int, t: int, q: int)
    requires
        -1 <= s <= 1,
        -1 <= t <= 1,
    ensures
        s == 0 || t == 0 ==> s * t * q == 0,
        (s == 1 && t == 1) || (s == -1 && t == -1) ==> s * t * q == q,
        (s == 1 && t == -1) || (s == -1 && t == 1) ==> s * t * q == -q,
{
    assert((s == 0 || t == 0 ==> s * t * q == 0) && ((s == 1 && t == 1) || (s == -1 && t == -1)
        ==> s * t * q == q) && ((s == 1 && t == -1) || (s == -1 && t == 1) ==> s * t * q == -q))
        by (nonlinear_arith)
        requires
            -1 <= s <= 1,
            -1 <= t <= 1,
    ;
}

/// With |bias| at most 50 the outer wheel's command is at least the
/// inner wheel's in magnitude, and the outer role follows the sign of
/// the bias: a non-negative bias puts it on the left wheel.
pub proof fn lemma_outer_dominates_inner(steering: int, speed: int, max_speed: int)
    requires
        -100 <= steering <= 100,
        -100 <= speed <= 100,
        0 <= max_speed <= 100000,
        abs_val(steering) <= 50,
    ensures
        abs_val(inner_speed(speed, max_speed, steering)) <= abs_val(outer_speed(speed, max_speed)),
        steering >= 0 ==> wheel_speeds(steering, speed, max_speed).0 == outer_speed(
            speed,
            max_speed,
        ),
        steering < 0 ==> wheel_speeds(steering, speed, max_speed).1 == outer_speed(
            speed,
            max_speed,
        ),
{
    let a = abs_val(speed);
    let m = max_speed;
    let f = 50 - abs_val(steering);
    lemma_mul_nonnegative(a, m);
    lemma_mul_nonnegative(a * m, f);
    lemma_div_pos_is_pos(a * m, 100);
    lemma_div_pos_is_pos(a * m * f, 5000);
    lemma_mul_inequality(f, 50, a * m);
    assert(a * m * f == f * (a * m)) by (nonlinear_arith);
    assert(a * m * 50 == 50 * (a * m)) by (nonlinear_arith);
    lemma_div_is_ordered(a * m * f, a * m * 50, 5000);
    lemma_div_denominator(a * m * 50, 50, 100);
    lemma_div_multiples_vanish(a * m, 50);
    lemma_basic_div(0, 100);
    lemma_basic_div(0, 5000);
    let omag = a * m / 100;
    let imag = a * m * f / 5000;
    assert(imag <= omag);
    lemma_mul_basics(m);
    lemma_mul_basics(a * m);
    if speed == 0 {
        assert(a * m == 0);
        assert(a * m * f == 0);
    }
    lemma_sign_product(sign_of(speed), sign_of(f), imag);
    if speed != 0 {
        assert(abs_val(outer_speed(speed, max_speed)) == omag);
        if f == 0 {
            assert(a * m * f == 0);
            assert(inner_speed(speed, max_speed, steering) == 0);
        } else {
            assert(abs_val(inner_speed(speed, max_speed, steering)) == imag);
        }
    }
}

/// Driving straight at full speed commands both wheels equally.
pub proof fn lemma_straight_full_speed_equal(max_speed: int)
    requires
        0 <= max_speed <= 100000,
    ensures
        wheel_speeds(0, 100, max_speed).0 == wheel_speeds(0, 100, max_speed).1,
{
    lemma_div_multiples_vanish(max_speed, 100);
    lemma_div_multiples_vanish(max_speed, 5000);
    assert(abs_val(100) * max_speed == 100 * max_speed);
    assert(100 * max_speed * 50 == 5000 * max_speed) by (nonlinear_arith);
}

/// The rotation targets scale exactly with the wheel speeds: the
/// faster wheel turns the full amount, and the slower wheel's target
/// is the largest whole degree amount whose ratio to the full amount
/// does not exceed the speed ratio.  With both wheels at zero speed
/// and zero degrees both targets are zero.
pub proof fn lemma_rotation_proportionality(left_speed: int, right_speed: int, degrees: int)
    ensures
        degrees != 0 && abs_val(left_speed) > abs_val(right_speed) ==> ({
            let t = rotation_targets(left_speed, right_speed, degrees);
            let q = abs_val(degrees) * abs_val(right_speed) / abs_val(left_speed);
            &&& t.0 == degrees
            &&& t.1 == sign_of(degrees) * q
            &&& q * abs_val(left_speed) <= abs_val(degrees) * abs_val(right_speed) < (q + 1)
                * abs_val(left_speed)
        }),
        degrees != 0 && abs_val(left_speed) <= abs_val(right_speed) && right_speed != 0 ==> ({
            let t = rotation_targets(left_speed, right_speed, degrees);
            let q = abs_val(degrees) * abs_val(left_speed) / abs_val(right_speed);
            &&& t.1 == degrees
            &&& t.0 == sign_of(degrees) * q
            &&& q * abs_val(right_speed) <= abs_val(degrees) * abs_val(left_speed) < (q + 1)
                * abs_val(right_speed)
        }),
        left_speed == 0 && right_speed == 0 && degrees == 0 ==> rotation_targets(
            left_speed,
            right_speed,
            degrees,
        ) == (0int, 0int),
{
    if degrees != 0 && abs_val(left_speed) > abs_val(right_speed) {
        let x = abs_val(degrees) * abs_val(right_speed);
        let d = abs_val(left_speed);
        lemma_mul_nonnegative(abs_val(degrees), abs_val(right_speed));
        lemma_fundamental_div_mod(x, d);
        lemma_mod_division_less_than_divisor(x, d);
        assert((x / d) * d <= x < (x / d + 1) * d) by (nonlinear_arith)
            requires
                x == d * (x / d) + x % d,
                0 <= x % d < d,
        ;
    }
    if degrees != 0 && abs_val(left_speed) <= abs_val(right_speed) && right_speed != 0 {
        let x = abs_val(degrees) * abs_val(left_speed);
        let d = abs_val(right_speed);
        lemma_mul_nonnegative(abs_val(degrees), abs_val(left_speed));
        lemma_fundamental_div_mod(x, d);
        lemma_mod_division_less_than_divisor(x, d);
        assert((x / d) * d <= x < (x / d + 1) * d) by (nonlinear_arith)
            requires
                x == d * (x / d) + x % d,
                0 <= x % d < d,
        ;
    }
}

} // verus!
