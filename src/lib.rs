//! Interactive Bezier curves of degree one to three over draggable control
//! points: exact curve evaluation on the integer pixel grid, hit-testing, and
//! the selection and drag state machine driven by pointer events.
pub mod control;
pub mod curve;
pub mod interaction;
pub mod point;
