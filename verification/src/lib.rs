pub mod errors;
pub mod geometry;
pub mod mesh;
