//! Scrolling ASCII-art animation: sprite model, spawner, motion and
//! retirement, clipping renderer, artwork selection and quit handling.
pub mod frame;
pub mod render;
pub mod scene;
pub mod catalog;
pub mod quit;
