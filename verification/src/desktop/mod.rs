pub mod audit;
pub mod carver;
pub mod commands;
pub mod drives;
pub mod hardware;
pub mod harvest;
pub mod safety;
pub mod sandbox;
pub mod threat;
pub mod timeline;
pub mod types;
