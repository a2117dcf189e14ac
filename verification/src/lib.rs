//! A line-oriented interpreter for simulated keyboard input: chord tokens
//! such as `ctrl+shift+a` and free text are turned into ordered lists of
//! press, release, synchronize and sleep actions, which a thin shell then
//! performs against an input-injection device.

pub mod actions;
pub mod chord;
pub mod delay;
pub mod interp;
pub mod keys;
pub mod parse;
pub mod scan;
pub mod translate;
