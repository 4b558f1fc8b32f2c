//! Cameras: frames and their pixel layouts, the profiles a device offers, the
//! order in which sessions are built and taken down, and the streams that
//! several consumers share. The camera services themselves stay outside.
pub mod android;
pub mod android_frame;
pub mod android_start;
pub mod capture;
pub mod frame;
pub mod harmony;
pub mod harmony_capture;
pub mod harmony_frame;
pub mod session;
pub mod streams;
