//! Control kernel for a differential-drive line-following vehicle.
//!
//! The library holds the decision logic of the robot: the steering
//! kinematics that turn a bias and a speed percentage into wheel
//! commands, the line-sensor classification with its bounded transition
//! history, the line-following decision table, the task-conditioned
//! control loop, and the settings snapshot those parts read.  Hardware
//! access (motors, sensors, buttons) stays outside; callers feed raw
//! readings in and carry the computed commands out.

pub mod robo;
pub mod sensor;
pub mod settings;
pub mod steering;
