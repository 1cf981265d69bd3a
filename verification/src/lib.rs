//! Orientation tracking for WIT inertial sensors: frames, poses, device
//! operations and local OSC output.

pub mod acquisition;
pub mod battery;
pub mod capi;
pub mod cli;
pub mod clock;
pub mod controller;
pub mod device;
pub mod full_frame;
pub mod magnetic;
pub mod model;
pub mod monitor;
pub mod motion;
pub mod number;
pub mod osc;
pub mod pose;
pub mod protocol;
pub mod pump;
pub mod sample_clock;
pub mod single;
pub mod text;
pub mod transport;

pub use controller::Controller;
pub use motion::{
    MotionBatch, MotionCursor, MotionSample, OrientationSource, FULL_INERTIAL_20HZ_VALIDATED,
    MOTION_HISTORY_CAPACITY,
};
