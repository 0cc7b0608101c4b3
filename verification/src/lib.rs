//! Homing missiles on fixed-point numbers: target choice, launch, flight along a
//! cubic Bezier curve with a lateral wobble, and retirement at the end of the flight.
//!
//! Every scalar is an integer count of millionths (see [`fixed::UNIT`]); seconds,
//! world units, radians and the flight's progress all share that scale.  Positions
//! within a million units of the origin and ticks of up to a hundred seconds are
//! computed exactly, with one rounding down to a whole millionth per formula.
//!
//! The library holds no floating-point number.  Of the wobble it computes the
//! amplitude and the two angles; the host takes the sines and hands them to
//! [`missile::Placement::position`].

pub mod fixed;
pub mod vec3;
pub mod curve;
pub mod target;
pub mod missile;
pub mod sample;
pub mod flight;
pub mod player;
pub mod texture;
