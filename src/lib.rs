//! Temperature-driven fan speed control for GPUs: a piecewise-linear fan
//! curve, an anti-flicker compensator for fans with a fragile low-speed range,
//! and the per-tick decision of the control loop.

pub mod fanspeedcurve;
pub mod fanflicker;
pub mod text;
pub mod config;
pub mod control;
