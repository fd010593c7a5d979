//! Window-resolution engine for an unattended field camera.
//!
//! The library decides when the camera should be recording.  A recording
//! interval is given by two time specifications, each either a fixed wall
//! clock time of day or a signed offset from a solar anchor event (sunset
//! for the start bound, sunrise for the stop bound).  The engine parses the
//! small time-spec grammar and combines the parsed bounds with the sunrise
//! and sunset instants for the days around "now" into the current or next
//! active recording interval, handling day-boundary wraparound, mixed
//! absolute/relative bounds and degenerate always-on configurations.
//!
//! Computing the solar instants themselves is floating-point ephemeris work
//! that stays outside the verified engine: the host computes them for the
//! device's location and hands them in as plain timestamps, and the resolver
//! is verified for every value of them.  "Now" and the device locale's UTC
//! offset are explicit parameters throughout, never ambient state, so every
//! result is a pure function of the arguments.

pub mod solar;
pub mod timespec;
pub mod window;
