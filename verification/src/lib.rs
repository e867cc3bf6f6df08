//! Touch input for a handheld console front end: touch tracking, tap and
//! swipe recognition, the on-screen gamepad, and the click and scroll state
//! of the catalog screens.
//!
//! Every position is a point of an integer grid of `UNITS_PER_PIXEL`
//! position units to the pixel, and every time a count of microseconds, so
//! that each rule is decided exactly. The caller turns what the windowing
//! layer reports into these units once, at the edge.
//!
//! - [`geometry`]: points, displacements, discs and rectangles on the grid.
//! - [`tracker`]: the trace of each touch, from its start to its end.
//! - [`gesture`]: what a finished trace meant, a tap or a swipe.
//! - [`scroll`]: the scroll offset of a screen and its momentum.
//! - [`input`]: the gamepad state that touches and keys give.
//! - [`ui`]: the input state of one screen: taps, clicks and scrolling.

pub mod geometry;
pub mod gesture;
pub mod input;
pub mod scroll;
pub mod tracker;
pub mod ui;
