//! Control mapping and kinematics for a three-axis parallel-plate gimbal.
//!
//! Input samples go through the control mapper ([`gimbal`]), which resolves
//! them to a demand: pitch, roll and lift, each within its authority. The
//! kinematic solver ([`kinematics`]) turns a demand into the height of every
//! actuator under the plate, and the projector ([`projector`]) turns points
//! in space into points on a screen.
//!
//! Everything is computed on integers. A quantity is a count of millionths
//! ([`fixed`]): of a degree for angles, of a millimetre for lengths, of one
//! for sensitivities and input samples. Sines, cosines and pi are held to
//! twelve decimals, so that heights and screen positions come out within
//! one count of what their formulas give in real numbers. Every function is
//! total on the inputs its contract admits, and its contract fixes what it
//! returns.

pub mod axis;
pub mod button;
pub mod config;
pub mod display;
pub mod fixed;
pub mod gimbal;
pub mod kinematics;
pub mod projector;
pub mod session;
