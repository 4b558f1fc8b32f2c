//! What a Wayland client decides from the events of its compositor. The
//! connection itself, the protocol objects and the callbacks into the
//! application stay outside; they hand in plain values and carry out the
//! answers.
//!
//! Surface coordinates and axis values are the protocol's own fixed-point
//! numbers, in 256ths of a pixel; wheel steps are in 120ths of a detent.
pub mod clipboard;
pub mod globals;
pub mod keyboard;
pub mod pointer;
pub mod scroll;
pub mod text_input;
pub mod windows;
