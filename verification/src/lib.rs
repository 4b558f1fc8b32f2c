//! Verified decision logic of a Makepad host.

pub mod camera;
pub mod case;
pub mod feed;
pub mod gps;
pub mod harmony;
pub mod home;
pub mod json;
pub mod markdown;
pub mod network;
pub mod number;
pub mod paths;
pub mod qr_scan;
pub mod script;
pub mod splash;
pub mod svg;
pub mod text;
pub mod textmap;
pub mod wayland;
pub mod widgets;
