//! Core logic of an image-browsing viewer: building the browsable image
//! list from a directory listing, tracking the navigation position,
//! computing display geometry for letterboxed rendering, and deciding on
//! each frame tick whether a reload or redraw is actually needed.
//!
//! Windowing, GPU work, image decoding and the filesystem are external
//! collaborators: the host binary performs them and hands this library
//! plain values (paths as bytes, timestamps, pixel dimensions, events).

pub mod decode;
pub mod errors;
pub mod fileset;
pub mod geometry;
pub mod nav;
pub mod refresh;
pub mod viewer;
