//! The stock elements' state and event logic.
pub mod button;
pub mod container;
pub mod element;
pub mod image;
pub mod textbox;

pub use element::{CanDisable, ElementEvent, ItemTag, PrimitiveEvent, Reaction};
pub use button::Button;
pub use image::{Image, ImagePath};
pub use textbox::TextBox;
