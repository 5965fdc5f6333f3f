//! Content generation: the L-system fractal interpreter, its fixed-point
//! trigonometry, and the calendar date arithmetic.

pub mod calendar;
pub mod ltree;
pub mod trig;
