pub mod args;
pub mod ffutils;
pub mod picture;
pub mod pixels;
pub mod processing;
pub mod strings;
pub mod terminal;
pub mod textifier;
pub mod video;
