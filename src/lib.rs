pub mod error;
pub mod font;
pub mod geometry;
pub mod image;
pub mod keyboard;
pub mod sampling;
pub mod text_params;
pub mod texture;
