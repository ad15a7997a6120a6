pub mod block;
pub mod generator;
pub mod nodes;
