pub mod audit;
pub mod carver;
pub mod safety;
pub mod sanitizer;
