pub mod component;
pub mod disk;
pub mod memory;
pub mod network;
pub mod system;
