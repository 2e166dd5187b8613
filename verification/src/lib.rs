//! A quadrotor that follows a moving target: vector algebra, a rigid-body
//! integrator with its registry of bodies, a piecewise cubic trajectory and
//! the flight controller.
pub mod drone;
pub mod field;
pub mod matrix;
pub mod model;
pub mod object;
pub mod objectmanager;
pub mod quaternion;
pub mod scalar;
pub mod spline;
pub mod utils;
pub mod vector;
