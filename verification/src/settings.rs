//! The settings snapshot the control kernel reads.
//!
//! All values are plain integers: speeds and steering biases are
//! percentages, times are milliseconds or seconds, distances are
//! millimeters, and rotation amounts are whole degrees (rotations
//! times 360).  The snapshot is built once at startup (configuration
//! files and overrides are the caller's business) and read-only
//! afterwards; `valid` says which values the kernel's contracts are
//! stated for.

use vstd::prelude::*;
use crate::steering::StopAction;

verus! {

/// Drive parameters: cruising speed, the bias used for pivot turns,
/// the stop policy and the bound on one pivot's wait.
pub struct Steering {
    pub speed: i32,
    pub max_steering: i32,
    pub stop_action: StopAction,
    pub turn_timeout: u64,
}

/// Per-sensor reflectance thresholds.
pub struct Sensors {
    pub left_threshold: i32,
    pub right_threshold: i32,
    pub middle_threshold: i32,
}

/// Parameters of the turn maneuver; `degrees` is the rotation amount
/// in whole degrees.
pub struct Turn {
    pub steering: i32,
    pub speed: i32,
    pub degrees: i32,
}

/// Distances steering the ball-waiting maneuver, in millimeters.
pub struct WaitForBall {
    pub drive_until_dist_mm: i32,
    pub finish_dist_mm: i32,
}

/// One position-bounded drive command; `degrees` is the rotation
/// amount in whole degrees.
pub struct OnForRotations {
    pub steering: i32,
    pub speed: i32,
    pub degrees: i32,
}

/// One open-ended drive command.
pub struct Drive {
    pub steering: i32,
    pub speed: i32,
}

/// Parameters of the block-pushing maneuver.
pub struct PushBlock {
    pub drive_until_dist_mm: i32,
    pub leave_line: UTurn,
    pub u_turn: UTurn,
    pub return_to_line: ReturnToLine,
}

/// A turn away from the line: a position-bounded arc followed by an
/// open-ended drive.
pub struct UTurn {
    pub on_for_rotations: OnForRotations,
    pub drive: Drive,
}

/// A timed drive back onto the line.
pub struct ReturnToLine {
    pub steering: i32,
    pub speed: i32,
    pub seconds: i32,
}

/// Parameters of the ball-throwing maneuver; the distance is in
/// millimeters.
pub struct ThrowBall {
    pub drive_until_dist_mm: i32,
    pub speed: i32,
    pub ball_motor_speed: i32,
    pub ball_motor_rel_pos: i32,
}

/// The per-maneuver parameter blocks.
pub struct Act {
    pub turn: Turn,
    pub wait_for_ball: WaitForBall,
    pub push_block: PushBlock,
    pub throw_ball: ThrowBall,
}

/// Parameters of the repeated-crossing trigger: a time window in
/// milliseconds and the crossing count that must be exceeded.
pub struct Lines {
    pub time: i32,
    pub count: i32,
}

/// Trigger thresholds: the repeated-crossing window and the distance
/// trigger in millimeters.
pub struct Cond {
    pub lines: Lines,
    pub dist_mm: i32,
}

/// The whole settings snapshot.
pub struct Settings {
    pub steering: Steering,
    pub sensors: Sensors,
    pub act: Act,
    pub cond: Cond,
}

impl Steering {
    pub open spec fn valid(&self) -> bool {
        &&& -100 <= self.speed <= 100
        &&& 0 <= self.max_steering <= 100
    }
}

impl Turn {
    pub open spec fn valid(&self) -> bool {
        &&& -100 <= self.steering <= 100
        &&& -100 <= self.speed <= 100
        &&& -1000000 <= self.degrees <= 1000000
    }
}

impl OnForRotations {
    pub open spec fn valid(&self) -> bool {
        &&& -100 <= self.steering <= 100
        &&& -100 <= self.speed <= 100
        &&& -1000000 <= self.degrees <= 1000000
    }
}

impl Drive {
    pub open spec fn valid(&self) -> bool {
        &&& -100 <= self.steering <= 100
        &&& -100 <= self.speed <= 100
    }
}

impl ReturnToLine {
    pub open spec fn valid(&self) -> bool {
        &&& -100 <= self.steering <= 100
        &&& -100 <= self.speed <= 100
        &&& 0 <= self.seconds
    }
}

impl UTurn {
    pub open spec fn valid(&self) -> bool {
        self.on_for_rotations.valid() && self.drive.valid()
    }
}

impl PushBlock {
    pub open spec fn valid(&self) -> bool {
        self.leave_line.valid() && self.u_turn.valid() && self.return_to_line.valid()
    }
}

impl ThrowBall {
    pub open spec fn valid(&self) -> bool {
        -100 <= self.speed <= 100
    }
}

impl Act {
    pub open spec fn valid(&self) -> bool {
        &&& self.turn.valid()
        &&& self.push_block.valid()
        &&& self.throw_ball.valid()
    }
}

impl Lines {
    pub open spec fn valid(&self) -> bool {
        0 <= self.time && 0 <= self.count
    }
}

impl Settings {
    /// The value ranges the control kernel's contracts are stated
    /// for: a validated snapshot satisfies this.
    pub open spec fn valid(&self) -> bool {
        &&& self.steering.valid()
        &&& self.act.valid()
        &&& self.cond.lines.valid()
    }
}

/// Why a KEY=value override string was rejected.
#[derive(Clone, Copy, Debug, PartialEq, Eq, Structural)]
pub enum OverrideParseError {
    MissingSeparator,
}

/// Whether the characters hold a `=` separator anywhere.
pub open spec fn has_separator(s: Seq<char>) -> bool {
    exists|i: int| 0 <= i < s.len() && s[i] == '='
}

/// Split a KEY=value override string at its first `=`: the key is
/// everything before it (and so holds no `=` itself), the value is
/// everything after it.  A string without `=` is rejected.
pub fn parse_key_val(s: &str) -> (r: Result<(String, String), OverrideParseError>)
    ensures
        match r {
            Ok(kv) => kv.0@ + seq!['='] + kv.1@ == s@ && !has_separator(kv.0@),
            Err(e) => !has_separator(s@) && e == OverrideParseError::MissingSeparator,
        },
        r is Ok <==> has_separator(s@),
{
    let n: usize = s.unicode_len();
    let mut i: usize = 0;
    while i < n
        invariant
            0 <= i <= n,
            n == s@.len(),
            forall|j: int| 0 <= j < i ==> s@[j] != '=',
        decreases n - i,
    {
        let c: char = s.get_char(i);
        if c == '=' {
            let key: String = s.substring_char(0, i).to_owned();
            let val: String = s.substring_char(i + 1, n).to_owned();
            proof {
                assert(key@ + seq!['='] + val@ =~= s@);
                assert(!has_separator(key@));
            }
            return Ok((key, val));
        }
        i = i + 1;
    }
    Err(OverrideParseError::MissingSeparator)
}

} // verus!
