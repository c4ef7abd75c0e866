pub mod cpu;
pub mod image;
pub mod text;
