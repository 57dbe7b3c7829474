pub mod json;
pub mod zoxel;
