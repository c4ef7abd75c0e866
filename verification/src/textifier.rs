pub mod cpu;
pub mod gpu;
pub mod lines;
pub mod modes;
pub mod text;
pub mod types;
