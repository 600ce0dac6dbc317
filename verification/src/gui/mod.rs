pub mod font;
pub mod segment;
pub mod properties;
pub mod window;
