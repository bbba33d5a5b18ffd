pub mod vehicle;
pub mod country;
pub mod fixed;
