//! Texture preloading and image display state: a cache that holds each
//! decoded image asset once, with an alpha mask built at insertion, and
//! display slots that bind to cached assets by id and use their masks for
//! hit-testing.

pub mod alpha_mask;
pub mod texture;
pub mod image_preload;
pub mod images_obj;
pub mod image_viewer;
