//! Verified core of the Fujifilm X Series camera tools: PTP dataset and
//! container encoding, the camera's recipe and conversion-profile codecs,
//! custom preset slots, and the pure parts of recipe and repository
//! management.

pub mod config;
pub mod error;
pub mod fuji;
pub mod ptp;
pub mod text;
pub mod utf16;

pub use crate::config::RecipeSource;
pub use crate::error::Error;
pub use crate::fuji::{Profile, Recipe};
pub use crate::ptp::{CameraInfo, ObjectInfo};
