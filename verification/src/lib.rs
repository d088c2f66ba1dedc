//! Core logic of the Glucose media player: path cleaning, media file
//! detection, the pending-file queue and its retry schedule, picture-in-picture
//! window planning, subtitle discovery, conversion commands, watch-progress
//! bookkeeping and the recent-videos listing.
pub mod text;
pub mod paths;
pub mod pending;
pub mod convert;
pub mod pip;
pub mod progress;
pub mod recent;
pub mod subtitles;

pub use paths::sanitize_path;
