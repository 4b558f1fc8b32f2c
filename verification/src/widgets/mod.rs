//! Widgets of script apps: what they decide.
pub mod camera_gestures;
pub mod camera_preview;
pub mod cameras;
pub mod devices;
pub mod gesture_view;
pub mod kit;
pub mod nav;
pub mod pinch;
pub mod sheet;
pub mod web_reader;
