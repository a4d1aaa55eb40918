pub mod camera;
pub mod codec;
pub mod preset;
pub mod prop;
pub mod recipe;

pub use self::camera::Profile;
pub use self::recipe::{
    ColorChromeEffect, DynamicRange, DynamicRangePriority, FilmSimulation, GrainEffect, Recipe,
    WhiteBalance,
};
