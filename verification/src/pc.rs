//! Point clouds: one container per layout of the point record, each with one
//! array per attribute.

pub mod base;
pub mod intensity;
pub mod intensity_normal;
pub mod normal;
pub mod rgb;
pub mod rgb_normal;
pub mod xyz;
pub mod xyz_normal;
pub mod xyz_rgb;
pub mod xyz_rgb_normal;
pub mod xyzi;
pub mod xyzi_normal;

pub use base::{
    PointCloudBase, PointCloudWithColor, PointCloudWithIntensity, PointCloudWithNormal,
};
pub use intensity::PointCloud as PointCloudIntensity;
pub use intensity_normal::PointCloud as PointCloudIntensityNormal;
pub use normal::PointCloud as PointCloudNormal;
pub use rgb::PointCloud as PointCloudRgb;
pub use rgb_normal::PointCloud as PointCloudRgbNormal;
pub use xyz::PointCloud;
pub use xyz::PointCloud as PointCloudXYZ;
pub use xyz_normal::{PointCloudXYZNormal, PointXYZNormal};
pub use xyz_rgb::{PointCloudXYZRgb, PointXYZRgb};
pub use xyz_rgb_normal::{PointCloudXYZRgbNormal, PointXYZRgbNormal};
pub use xyzi::{PointCloudXYZI, PointXYZI};
pub use xyzi_normal::{PointCloudXYZINormal, PointXYZINormal};
