//! An application on OpenHarmony: permissions, the messages of the system, the
//! operations of the application, camera previews, and files of the package.
pub mod media;
pub mod permissions;
pub mod platform;
