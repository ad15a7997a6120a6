pub mod line;
pub mod points;
pub mod vertex;
pub mod vertices;
