//! Resources and live data that scripts ask for.
pub mod asking;
pub mod crate_paths;
pub mod fetches;
pub mod handles;
pub mod load;
pub mod resources;
