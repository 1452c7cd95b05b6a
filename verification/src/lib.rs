//! Engine of a viewer for packed rectangle layouts: coordinate mapping,
//! hit-testing, drag validation, pan and zoom, timed reveal, and the
//! generator that completes an under-specified rectangle request.

pub mod fixed;
pub mod types;
pub mod geometry;
pub mod canvas;
pub mod text;
pub mod rects;
pub mod request;
pub mod autofill;
pub mod state;
