pub mod camera_info;
pub mod container;
pub mod dataset;
pub mod device;
pub mod object_info;

pub use self::camera_info::CameraInfo;
pub use self::dataset::{DatasetReader, DatasetWriter};
pub use self::object_info::ObjectInfo;
