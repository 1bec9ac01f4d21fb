pub mod carving;
pub mod clock;
pub mod desktop;
pub mod digest;
pub mod engine;
pub mod text;
