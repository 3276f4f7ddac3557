pub mod aabb;
pub mod hitable;
pub mod bvh;
pub mod texture;
pub mod materials;
pub mod camera;
