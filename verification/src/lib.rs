//! Animated circuit diagrams: a text diagram of box-drawing characters is
//! parsed into a rectangular grid of motion directives, and markers placed on
//! the non-blank cells slide along those directives as a shared clock phase
//! sweeps through each cycle.

pub mod diagram;
pub mod markers;
pub mod motion;
