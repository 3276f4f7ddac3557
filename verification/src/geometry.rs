pub mod numeric;
pub mod vector;
pub mod ray;
