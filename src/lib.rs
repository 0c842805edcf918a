//! Display-aware wallpaper composition: a sharp "fit" rendition of an image
//! laid over a blurred, centre-cropped "fill" rendition, sized to a display.
pub mod buffer;
pub mod display;
pub mod geometry;
pub mod pipeline;
pub mod profile;
pub mod text;
